//! What retaining written object values costs: an occurrence limit and a
//! 64 MiB metadata budget, charged before anything is copied.

use crate::error::Error;
use crate::ir::{Parameter, Type, TypeKind};
use vstd::prelude::*;
use vstd::string::StringSliceAdditionalSpecFns;

verus! {

/// How many object occurrences one analysis retains.
pub const MAX_OCCURRENCES: usize = 100000;

/// How many bytes of metadata retained occurrences may own.
pub const MAX_BYTES: usize = 67108864;

/// The in-memory sizes of the records an occurrence owns: the occurrence
/// itself, a type, a function type and a parameter.
#[derive(Clone, Copy, Debug, PartialEq, Eq, Structural)]
pub struct PayloadSizes {
    pub occurrence: usize,
    pub ty: usize,
    pub function: usize,
    pub parameter: usize,
}

/// A count that saturates at the largest `usize`.
pub open spec fn saturated(x: int) -> nat {
    if x > usize::MAX {
        usize::MAX as nat
    } else {
        x as nat
    }
}

/// The bytes of a name's UTF-8 spelling.
pub open spec fn name_bytes(name: Seq<char>) -> nat {
    vstd::utf8::encode_utf8(name).len()
}

/// The bytes a parameter owns besides its type: the record and its name.
pub open spec fn parameter_bytes(p: Parameter, sizes: PayloadSizes) -> nat {
    sizes.parameter as nat + match p.name {
        Some(n) => name_bytes(n@),
        None => 0,
    }
}

/// The diagnostic of a type nested past the limit.
pub open spec fn nesting_message() -> Seq<char> {
    "object-value type nesting exceeds the 128-level limit"@
}

/// The diagnostic of metadata past the 64 MiB budget.
pub open spec fn metadata_message() -> Seq<char> {
    "object-value metadata exceeds the 64 MiB limit"@
}

/// The bytes charged after accounting for `ty` at nesting `depth`, starting
/// from `bytes`: each type owns a type record, a typedef name its spelling,
/// and a function its function record and parameters; element, pointee and
/// atomic value types are charged in turn. Each type checks the budget once
/// its parts are charged; nesting stops at 128 levels.
pub open spec fn type_charge(ty: Type, sizes: PayloadSizes, bytes: nat, depth: nat) -> Result<nat, Seq<char>>
    decreases 128 - depth, 1int, 0int,
{
    if depth >= 128 {
        Err(nesting_message())
    } else {
        let start = saturated(bytes + sizes.ty);
        let inner: Result<nat, Seq<char>> = match ty.kind {
            TypeKind::Typedef(name) => Ok(saturated(start + name_bytes(name@) as int)),
            TypeKind::Pointer(t) => type_charge(*t, sizes, start, depth + 1),
            TypeKind::Atomic(t) => type_charge(*t, sizes, start, depth + 1),
            TypeKind::Array { element, .. } => type_charge(*element, sizes, start, depth + 1),
            TypeKind::VariableArray { element, .. } => type_charge(*element, sizes, start, depth + 1),
            TypeKind::Vector { element, .. } => type_charge(*element, sizes, start, depth + 1),
            TypeKind::Function(f) => match type_charge(f.return_type, sizes, saturated(start + sizes.function), depth + 1) {
                Err(m) => Err(m),
                Ok(b) => parameters_charge(f.parameters@, f.parameters@.len(), sizes, b, depth),
            },
            _ => Ok(start),
        };
        overall(inner)
    }
}

/// The bytes charged after the first `n` parameters of a function type at
/// nesting `depth`.
pub open spec fn parameters_charge(params: Seq<Parameter>, n: nat, sizes: PayloadSizes, bytes: nat, depth: nat) -> Result<nat, Seq<char>>
    decreases 128 - depth, 0int, n,
{
    if n == 0 || n > params.len() || depth >= 128 {
        Ok(bytes)
    } else {
        match parameters_charge(params, (n - 1) as nat, sizes, bytes, depth) {
            Err(m) => Err(m),
            Ok(b) => type_charge(params[n - 1].ty, sizes, saturated(b + parameter_bytes(params[n - 1], sizes) as int), depth + 1),
        }
    }
}

fn add_saturating(x: usize, y: usize) -> (r: usize)
    ensures
        r == saturated(x + y),
{
    if x > usize::MAX - y {
        usize::MAX
    } else {
        x + y
    }
}

fn string_bytes(s: &String) -> (r: usize)
    ensures
        r == name_bytes(s@),
{
    s.as_str().as_bytes().len()
}

/// Charges `ty` at nesting `depth` to `bytes`, as [`type_charge`] says.
pub fn charge_type(ty: &Type, sizes: PayloadSizes, bytes: &mut usize, depth: usize, offset: usize) -> (r: Result<(), Error>)
    ensures
        match type_charge(*ty, sizes, *old(bytes) as nat, depth as nat) {
            Ok(b) => r is Ok && *final(bytes) == b,
            Err(m) => r matches Err(e) && e.offset == offset && e.message@ == m,
        },
    decreases 128 - depth,
{
    if depth >= 128 {
        return Err(Error::new(offset, "object-value type nesting exceeds the 128-level limit"));
    }
    *bytes = add_saturating(*bytes, sizes.ty);
    match &ty.kind {
        TypeKind::Typedef(name) => {
            let n = string_bytes(name);
            *bytes = add_saturating(*bytes, n);
        },
        TypeKind::Pointer(t) => charge_type(&**t, sizes, bytes, depth + 1, offset)?,
        TypeKind::Atomic(t) => charge_type(&**t, sizes, bytes, depth + 1, offset)?,
        TypeKind::Array { element, .. } => charge_type(&**element, sizes, bytes, depth + 1, offset)?,
        TypeKind::VariableArray { element, .. } => charge_type(&**element, sizes, bytes, depth + 1, offset)?,
        TypeKind::Vector { element, .. } => charge_type(&**element, sizes, bytes, depth + 1, offset)?,
        TypeKind::Function(f) => {
            let ghost start = *bytes as nat;
            *bytes = add_saturating(*bytes, sizes.function);
            let ghost with_function = *bytes as nat;
            charge_type(&f.return_type, sizes, bytes, depth + 1, offset)?;
            let ghost after_return = *bytes as nat;
            proof {
                assert(type_charge(f.return_type, sizes, with_function, (depth + 1) as nat) == Ok::<nat, Seq<char>>(after_return));
                assert(start == saturated(*old(bytes) + sizes.ty));
                assert(type_charge(*ty, sizes, *old(bytes) as nat, depth as nat) == overall(parameters_charge(f.parameters@, f.parameters@.len(), sizes, after_return, depth as nat)));
            }
            let mut i: usize = 0;
            while i < f.parameters.len()
                invariant
                    i <= f.parameters@.len(),
                    depth < 128,
                    parameters_charge(f.parameters@, i as nat, sizes, after_return, depth as nat) == Ok::<nat, Seq<char>>(
                        *bytes as nat,
                    ),
                    type_charge(*ty, sizes, *old(bytes) as nat, depth as nat) == overall(parameters_charge(f.parameters@, f.parameters@.len(), sizes, after_return, depth as nat)),
                decreases f.parameters.len() - i,
            {
                let p = &f.parameters[i];
                let own = match &p.name {
                    Some(n) => add_saturating(sizes.parameter, string_bytes(n)),
                    None => sizes.parameter,
                };
                proof {
                    assert(own as nat == saturated(parameter_bytes(*p, sizes) as int));
                }
                let before = *bytes;
                *bytes = add_saturating(*bytes, own);
                let ghost start = *bytes;
                proof {
                    assert(*bytes as nat == saturated(before + parameter_bytes(*p, sizes)));
                    assert(parameters_charge(f.parameters@, (i + 1) as nat, sizes, after_return, depth as nat) == type_charge(
                        p.ty,
                        sizes,
                        start as nat,
                        (depth + 1) as nat,
                    ));
                }
                match charge_type(&p.ty, sizes, bytes, depth + 1, offset) {
                    Ok(()) => {},
                    Err(e) => {
                        proof {
                            lemma_parameters_stop(f.parameters@, i as nat, f.parameters@.len(), sizes, after_return, depth as nat);
                            assert(parameters_charge(f.parameters@, f.parameters@.len(), sizes, after_return, depth as nat) == Err::<nat, Seq<char>>(e.message@));
                        }
                        return Err(e);
                    },
                }
                i = i + 1;
            }
        },
        _ => {},
    }
    if *bytes > MAX_BYTES {
        return Err(Error::new(offset, "object-value metadata exceeds the 64 MiB limit"));
    }
    Ok(())
}

/// A type's charge once its parts are charged: the budget is checked.
pub open spec fn overall(inner: Result<nat, Seq<char>>) -> Result<nat, Seq<char>> {
    match inner {
        Err(m) => Err(m),
        Ok(b) => if b > MAX_BYTES {
            Err(metadata_message())
        } else {
            Ok(b)
        },
    }
}

/// A parameter whose charge fails decides the failure of every longer
/// prefix.
proof fn lemma_parameters_stop(params: Seq<Parameter>, i: nat, n: nat, sizes: PayloadSizes, bytes: nat, depth: nat)
    requires
        i < n <= params.len(),
        depth < 128,
        parameters_charge(params, i, sizes, bytes, depth) is Ok,
        parameters_charge(params, i + 1, sizes, bytes, depth) is Err,
    ensures
        parameters_charge(params, n, sizes, bytes, depth) == parameters_charge(params, i + 1, sizes, bytes, depth),
    decreases n,
{
    if n > i + 1 {
        lemma_parameters_stop(params, i, (n - 1) as nat, sizes, bytes, depth);
    }
}

/// The occurrences retained so far and the metadata bytes they own.
pub struct ObjectValueCharges {
    entries: usize,
    bytes: usize,
}

impl ObjectValueCharges {
    pub closed spec fn entries_spec(&self) -> nat {
        self.entries as nat
    }

    pub closed spec fn bytes_spec(&self) -> nat {
        self.bytes as nat
    }

    /// Nothing retained or charged.
    pub fn new() -> (r: Self)
        ensures
            r.entries_spec() == 0,
            r.bytes_spec() == 0,
    {
        ObjectValueCharges { entries: 0, bytes: 0 }
    }

    /// The metadata bytes charged so far.
    pub fn bytes(&self) -> (r: usize)
        ensures
            r == self.bytes_spec(),
    {
        self.bytes
    }

    /// How many occurrences were retained.
    pub fn entries(&self) -> (r: usize)
        ensures
            r == self.entries_spec(),
    {
        self.entries
    }

    /// Charges the copy of a declaration's written type, kept even when a
    /// later completion discards it: no more occurrences may be retained
    /// once the limit is reached.
    pub fn copy_written_type(&mut self, ty: &Type, sizes: PayloadSizes, offset: usize) -> (r: Result<(), Error>)
        ensures
            final(self).entries_spec() == old(self).entries_spec(),
            old(self).entries_spec() >= MAX_OCCURRENCES ==> (r matches Err(e) && e.offset == offset && e.message@
                == "object-value occurrence limit exceeded"@ && final(self).bytes_spec() == old(self).bytes_spec()),
            old(self).entries_spec() < MAX_OCCURRENCES ==> match type_charge(*ty, sizes, old(self).bytes_spec(), 0) {
                Ok(b) => r is Ok && final(self).bytes_spec() == b,
                Err(m) => r matches Err(e) && e.offset == offset && e.message@ == m,
            },
    {
        if self.entries >= MAX_OCCURRENCES {
            return Err(Error::new(offset, "object-value occurrence limit exceeded"));
        }
        charge_type(ty, sizes, &mut self.bytes, 0, offset)
    }

    /// Charges an occurrence of `ty` named `name`: the occurrence record,
    /// the name's spelling and the type, all or nothing.
    pub fn charge(&mut self, ty: &Type, name: &str, sizes: PayloadSizes, offset: usize) -> (r: Result<(), Error>)
        ensures
            final(self).entries_spec() == old(self).entries_spec(),
            old(self).entries_spec() >= MAX_OCCURRENCES ==> (r matches Err(e) && e.offset == offset && e.message@
                == "object-value occurrence limit exceeded"@),
            old(self).entries_spec() < MAX_OCCURRENCES ==> match type_charge(
                *ty,
                sizes,
                saturated(saturated(old(self).bytes_spec() + sizes.occurrence) + name_bytes(name@) as int),
                0,
            ) {
                Ok(b) => r is Ok && final(self).bytes_spec() == b,
                Err(m) => r matches Err(e) && e.offset == offset && e.message@ == m,
            },
            r is Err ==> final(self).bytes_spec() == old(self).bytes_spec(),
    {
        if self.entries >= MAX_OCCURRENCES {
            return Err(Error::new(offset, "object-value occurrence limit exceeded"));
        }
        let with_record = add_saturating(self.bytes, sizes.occurrence);
        let mut bytes = add_saturating(with_record, name.as_bytes().len());
        charge_type(ty, sizes, &mut bytes, 0, offset)?;
        self.bytes = bytes;
        Ok(())
    }

    /// Charges `bytes` of literal data: the total may not pass 64 MiB.
    pub fn charge_literal(&mut self, bytes: usize, offset: usize) -> (r: Result<(), Error>)
        ensures
            final(self).entries_spec() == old(self).entries_spec(),
            r is Ok <==> old(self).bytes_spec() + bytes <= MAX_BYTES,
            r is Ok ==> final(self).bytes_spec() == old(self).bytes_spec() + bytes,
            r is Err ==> final(self).bytes_spec() == old(self).bytes_spec(),
            r matches Err(e) ==> e.offset == offset && e.message@ == metadata_message(),
    {
        if bytes > MAX_BYTES || self.bytes > MAX_BYTES - bytes {
            return Err(Error::new(offset, "object-value metadata exceeds the 64 MiB limit"));
        }
        self.bytes = self.bytes + bytes;
        Ok(())
    }

    /// Counts a retained occurrence, once its charge succeeded.
    pub fn record(&mut self)
        requires
            old(self).entries_spec() < MAX_OCCURRENCES,
        ensures
            final(self).entries_spec() == old(self).entries_spec() + 1,
            final(self).bytes_spec() == old(self).bytes_spec(),
    {
        self.entries = self.entries + 1;
    }
}

} // verus!
