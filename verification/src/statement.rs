//! Statement rules of a function body: switch case labels, `default`,
//! `break` and `continue`, and the storage rules of block declarations.

use crate::error::Error;
use crate::integer::{convert, source_int, wrapped};
use crate::ir::{IntegerValue, supported_width};
use vstd::arithmetic::power2::{lemma_pow2_pos, lemma_pow2_unfold, pow2};
use vstd::prelude::*;

verus! {

/// Where a case value stands in the switch type's numeric order: the
/// converted value, offset by `2^(bits-1)` when the type is signed.
pub open spec fn case_key(value: IntegerValue, ty: IntegerValue) -> int {
    if ty.signed {
        wrapped(source_int(value), ty.bits, true) + pow2((ty.bits - 1) as nat)
    } else {
        source_int(value) % pow2(ty.bits as nat) as int
    }
}

/// The case keys a list of ranges covers.
pub open spec fn covered(ranges: Seq<(u128, u128)>) -> Set<int> {
    Set::new(|k: int| exists|i: int| 0 <= i < ranges.len() && (#[trigger] ranges[i]).0 <= k <= ranges[i].1)
}

/// The keys `lo..=hi`.
pub open spec fn key_range(lo: int, hi: int) -> Set<int> {
    Set::new(|k: int| lo <= k <= hi)
}

/// Nonempty ranges in increasing order, none overlapping another.
pub open spec fn ranges_disjoint(ranges: Seq<(u128, u128)>) -> bool {
    &&& forall|i: int| 0 <= i < ranges.len() ==> (#[trigger] ranges[i]).0 <= ranges[i].1
    &&& forall|i: int, j: int| 0 <= i < j < ranges.len() ==> (#[trigger] ranges[i]).1 < (#[trigger] ranges[j]).0
}

/// The labels seen so far in one `switch` statement.
#[derive(Clone, Debug)]
pub struct SwitchContext {
    ty: IntegerValue,
    ranges: Vec<(u128, u128)>,
    has_default: bool,
    variably_modified: Option<usize>,
}

/// Flipping the sign bit of a `bits`-bit value moves it by half the range.
proof fn lemma_flip_sign(v: u128, s: u128)
    requires
        s < 128,
        s == 127 || v < (1u128 << (s + 1)),
    ensures
        v < (1u128 << s) ==> (v ^ (1u128 << s)) == v + (1u128 << s),
        v >= (1u128 << s) ==> (v ^ (1u128 << s)) == v - (1u128 << s),
{
    assert(v < (1u128 << s) ==> (v ^ (1u128 << s)) == v + (1u128 << s)) by (bit_vector)
        requires
            s < 128,
            s == 127 || v < (1u128 << (s + 1)),
    ;
    assert(v >= (1u128 << s) ==> (v ^ (1u128 << s)) == v - (1u128 << s)) by (bit_vector)
        requires
            s < 128,
            s == 127 || v < (1u128 << (s + 1)),
    ;
}

impl SwitchContext {
    pub closed spec fn ty_spec(&self) -> IntegerValue {
        self.ty
    }

    pub closed spec fn ranges_spec(&self) -> Seq<(u128, u128)> {
        self.ranges@
    }

    pub closed spec fn has_default_spec(&self) -> bool {
        self.has_default
    }

    pub closed spec fn variably_modified_spec(&self) -> Option<usize> {
        self.variably_modified
    }

    /// The switch's controlling type has a supported width and its case ranges are disjoint.
    pub open spec fn well_formed(&self) -> bool {
        &&& supported_width(self.ty_spec().bits)
        &&& ranges_disjoint(self.ranges_spec())
    }

    /// A switch on a promoted controlling type, entered where the innermost
    /// variably modified declaration is `variably_modified`.
    pub fn new(ty: IntegerValue, variably_modified: Option<usize>) -> (r: Self)
        requires
            supported_width(ty.bits),
        ensures
            r.well_formed(),
            r.ty_spec() == ty,
            r.ranges_spec().len() == 0,
            !r.has_default_spec(),
            r.variably_modified_spec() == variably_modified,
    {
        SwitchContext { ty, ranges: Vec::new(), has_default: false, variably_modified }
    }

    /// A label may not enter the scope of a variably modified identifier
    /// declared inside the switch body.
    pub fn check_entry(&self, active: Option<usize>, offset: usize) -> (r: Result<(), Error>)
        ensures
            r is Ok <==> active == self.variably_modified_spec(),
    {
        if active != self.variably_modified {
            return Err(Error::new(offset, "switch enters the scope of a variably modified identifier"));
        }
        Ok(())
    }

    /// A value's key in the switch type's order.
    fn key(&self, value: IntegerValue) -> (r: u128)
        requires
            self.well_formed(),
        ensures
            r == case_key(value, self.ty_spec()),
    {
        let converted = convert(value, self.ty).value;
        let bits = self.ty.bits;
        proof {
            lemma_pow2_pos(bits as nat);
            vstd::arithmetic::div_mod::lemma_mod_bound(source_int(value), pow2(bits as nat) as int);
        }
        if self.ty.signed {
            let s = (bits - 1) as u128;
            proof {
                crate::arith::lemma_u128_shl_one(s);
                if s < 127 {
                    crate::arith::lemma_u128_shl_one((s + 1) as u128);
                }
                lemma_pow2_unfold(bits as nat);
                lemma_flip_sign(converted, s);
            }
            converted ^ (1u128 << s)
        } else {
            converted
        }
    }

    /// Records a `case` label for `low..=high` (a single value when equal):
    /// the values convert to the switch type and must form a nonempty range
    /// that no earlier label covers.
    pub fn case_range(
        &mut self,
        low: IntegerValue,
        high: IntegerValue,
        active: Option<usize>,
        offset: usize,
    ) -> (r: Result<(), Error>)
        requires
            old(self).well_formed(),
        ensures
            final(self).well_formed(),
            final(self).ty_spec() == old(self).ty_spec(),
            final(self).has_default_spec() == old(self).has_default_spec(),
            final(self).variably_modified_spec() == old(self).variably_modified_spec(),
            ({
                let lo = case_key(low, old(self).ty_spec());
                let hi = case_key(high, old(self).ty_spec());
                &&& r is Ok <==> (active == old(self).variably_modified_spec() && lo <= hi
                    && covered(old(self).ranges_spec()).disjoint(key_range(lo, hi)))
                &&& r is Ok ==> covered(final(self).ranges_spec()) == covered(old(self).ranges_spec()).union(key_range(lo, hi))
                &&& r is Err ==> final(self).ranges_spec() == old(self).ranges_spec()
            }),
    {
        self.check_entry(active, offset)?;
        let lo = self.key(low);
        let hi = self.key(high);
        if lo > hi {
            return Err(Error::new(offset, "case range is empty after conversion"));
        }
        let ghost before = self.ranges@;
        let mut i: usize = 0;
        while i < self.ranges.len()
            invariant
                *self == *old(self),
                old(self).well_formed(),
                lo == case_key(low, self.ty_spec()),
                hi == case_key(high, self.ty_spec()),
                lo <= hi,
                active == self.variably_modified_spec(),
                self.ranges@ == before,
                ranges_disjoint(before),
                i <= before.len(),
                forall|j: int| 0 <= j < i ==> (#[trigger] before[j]).1 < lo || hi < before[j].0,
            decreases self.ranges.len() - i,
        {
            let (start, end) = self.ranges[i];
            if !(end < lo || hi < start) {
                proof {
                    assert(before[i as int] == (start, end));
                    let k = if lo < start { start as int } else { lo as int };
                    assert(covered(before).contains(k));
                    assert(key_range(lo as int, hi as int).contains(k));
                }
                return Err(Error::new(offset, "duplicate or overlapping switch cases"));
            }
            i = i + 1;
        }
        proof {
            assert(covered(before).disjoint(key_range(lo as int, hi as int))) by {
                assert forall|k: int| covered(before).contains(k) implies !key_range(lo as int, hi as int).contains(k) by {
                    let j = choose|j: int| 0 <= j < before.len() && (#[trigger] before[j]).0 <= k <= before[j].1;
                    assert(before[j].1 < lo || hi < before[j].0);
                }
            }
        }
        let mut p: usize = 0;
        while p < self.ranges.len() && self.ranges[p].0 < lo
            invariant
                *self == *old(self),
                old(self).well_formed(),
                lo == case_key(low, self.ty_spec()),
                hi == case_key(high, self.ty_spec()),
                lo <= hi,
                active == self.variably_modified_spec(),
                self.ranges@ == before,
                ranges_disjoint(before),
                p <= before.len(),
                forall|j: int| 0 <= j < p ==> (#[trigger] before[j]).0 < lo,
            decreases self.ranges.len() - p,
        {
            p = p + 1;
        }
        self.ranges.insert(p, (lo, hi));
        proof {
            let after = self.ranges@;
            assert(after =~= before.insert(p as int, (lo, hi)));
            assert forall|j: int| 0 <= j < before.len() && j >= p implies before[j].0 > hi by {
                if j > p as int {
                    assert(before[p as int].1 < before[j].0);
                }
                assert(before[j].1 < lo || hi < before[j].0);
                if before[j].1 < lo {
                    assert(before[j].0 <= before[j].1);
                }
            }
            assert forall|j: int| 0 <= j < p implies before[j].1 < lo by {
                assert(before[j].1 < lo || hi < before[j].0);
            }
            assert(covered(after) =~= covered(before).union(key_range(lo as int, hi as int))) by {
                assert forall|k: int| covered(after).contains(k) implies covered(before).union(key_range(lo as int, hi as int)).contains(k) by {
                    let j = choose|j: int| 0 <= j < after.len() && (#[trigger] after[j]).0 <= k <= after[j].1;
                    if j < p {
                        assert(after[j] == before[j]);
                    } else if j > p {
                        assert(after[j] == before[j - 1]);
                    }
                }
                assert forall|k: int| covered(before).union(key_range(lo as int, hi as int)).contains(k) implies covered(after).contains(k) by {
                    if covered(before).contains(k) {
                        let j = choose|j: int| 0 <= j < before.len() && (#[trigger] before[j]).0 <= k <= before[j].1;
                        if j < p {
                            assert(after[j] == before[j]);
                        } else {
                            assert(after[j + 1] == before[j]);
                        }
                    } else {
                        assert(after[p as int] == (lo, hi));
                    }
                }
            }
        }
        Ok(())
    }

    /// Records the `default` label: at most one per switch.
    pub fn default_label(&mut self, active: Option<usize>, offset: usize) -> (r: Result<(), Error>)
        requires
            old(self).well_formed(),
        ensures
            final(self).well_formed(),
            final(self).ty_spec() == old(self).ty_spec(),
            final(self).ranges_spec() == old(self).ranges_spec(),
            final(self).variably_modified_spec() == old(self).variably_modified_spec(),
            r is Ok <==> active == old(self).variably_modified_spec() && !old(self).has_default_spec(),
            final(self).has_default_spec() == (old(self).has_default_spec() || r is Ok),
    {
        self.check_entry(active, offset)?;
        if self.has_default {
            return Err(Error::new(offset, "duplicate default label"));
        }
        self.has_default = true;
        Ok(())
    }
}

/// `break` needs an enclosing loop or switch.
pub fn check_break(loops: usize, switches: usize, offset: usize) -> (r: Result<(), Error>)
    ensures
        r is Ok <==> loops > 0 || switches > 0,
{
    if loops == 0 && switches == 0 {
        return Err(Error::new(offset, "break is outside a loop or switch"));
    }
    Ok(())
}

/// `continue` needs an enclosing loop.
pub fn check_continue(loops: usize, offset: usize) -> (r: Result<(), Error>)
    ensures
        r is Ok <==> loops > 0,
{
    if loops == 0 {
        return Err(Error::new(offset, "continue is outside a loop"));
    }
    Ok(())
}

/// A storage-class specifier written in a block declaration.
#[derive(Clone, Copy, Debug, PartialEq, Eq, Structural)]
pub enum StorageClass {
    Auto,
    Register,
    Static,
    Extern,
    Typedef,
    ThreadLocal,
}

/// The one storage class a block declaration may carry, if any: at most one
/// may be written, thread-local block objects are not supported, and a `for`
/// declaration permits only `auto` and `register`.
pub open spec fn block_storage_spec(storage: Seq<StorageClass>, for_initializer: bool) -> Result<Option<StorageClass>, Seq<char>> {
    if storage.len() > 1 {
        Err("multiple storage classes in block declaration"@)
    } else if storage.len() == 1 && storage[0] == StorageClass::ThreadLocal {
        Err("block thread-local objects are unsupported"@)
    } else if for_initializer && storage.len() == 1 && storage[0] != StorageClass::Auto && storage[0]
        != StorageClass::Register {
        Err("for declaration permits only auto or register storage"@)
    } else if storage.len() == 1 {
        Ok(Some(storage[0]))
    } else {
        Ok(None)
    }
}

/// Validates a block declaration's storage-class specifiers, in the order
/// they are written, at the declaration's `offset`.
pub fn block_storage_class(storage: &[StorageClass], for_initializer: bool, offset: usize) -> (r: Result<
    Option<StorageClass>,
    Error,
>)
    ensures
        match (r, block_storage_spec(storage@, for_initializer)) {
            (Ok(c), Ok(d)) => c == d,
            (Err(e), Err(m)) => e.offset == offset && e.message@ == m,
            _ => false,
        },
{
    proof {
        reveal_strlit("multiple storage classes in block declaration");
        reveal_strlit("block thread-local objects are unsupported");
        reveal_strlit("for declaration permits only auto or register storage");
    }
    if storage.len() > 1 {
        return Err(Error::new(offset, "multiple storage classes in block declaration"));
    }
    if storage.len() == 0 {
        return Ok(None);
    }
    let class = storage[0];
    if class == StorageClass::ThreadLocal {
        return Err(Error::new(offset, "block thread-local objects are unsupported"));
    }
    if for_initializer && class != StorageClass::Auto && class != StorageClass::Register {
        return Err(Error::new(offset, "for declaration permits only auto or register storage"));
    }
    Ok(Some(class))
}

/// One declarator of a block declaration, with the facts about its type
/// that another analysis computes, each with its error, consulted only
/// where the rules reach them.
#[derive(Debug)]
pub struct BlockDeclarator {
    pub offset: usize,
    pub named: bool,
    pub variably_modified: Result<bool, Error>,
    pub function: Result<bool, Error>,
    /// Whether the type is a variable-length array; consulted for `static`.
    pub variable_length: Result<bool, Error>,
    /// Whether the type is `void`; consulted for objects.
    pub void: Result<bool, Error>,
    pub has_initializer: bool,
}

/// What a block declarator declares once its storage rules hold.
#[derive(Clone, Copy, Debug, PartialEq, Eq, Structural)]
pub enum DeclaratorRole {
    /// A block-scope typedef name.
    Typedef,
    /// A function or `extern` object with linkage.
    Linked,
    /// An object of the block, with static or register storage as written.
    Object { static_storage: bool, register: bool },
}

/// Why a declarator breaks a block declaration's storage rules.
pub open spec fn declarator_rule_spec(storage: Option<StorageClass>, for_initializer: bool, d: BlockDeclarator) -> Result<DeclaratorRole, Result<Seq<char>, Error>> {
    let is_typedef = storage == Some(StorageClass::Typedef);
    let is_extern = storage == Some(StorageClass::Extern);
    let is_static = storage == Some(StorageClass::Static);
    if !d.named {
        Err(Ok("local declaration has no name"@))
    } else {
        match d.variably_modified {
            Err(e) => Err(Err(e)),
            Ok(vm) => match d.function {
                Err(e) => Err(Err(e)),
                Ok(function) => if vm && (is_extern || function) {
                    Err(Ok("variably modified identifiers cannot have linkage"@))
                } else if is_static && d.variable_length is Err {
                    Err(Err(d.variable_length->Err_0))
                } else if is_static && d.variable_length == Ok::<bool, Error>(true) {
                    Err(Ok("variable-length arrays cannot have static storage duration"@))
                } else if function && (for_initializer || (storage is Some && !is_extern)) && !is_typedef {
                    Err(Ok("invalid storage class for a block function declaration"@))
                } else if is_typedef {
                    if d.has_initializer {
                        Err(Ok("typedef cannot have an initializer"@))
                    } else {
                        Ok(DeclaratorRole::Typedef)
                    }
                } else {
                    match d.void {
                        Err(e) => Err(Err(e)),
                        Ok(true) => Err(Ok("local object cannot have void type"@)),
                        Ok(false) => if is_extern || function {
                            if d.has_initializer {
                                Err(Ok("block extern declaration cannot have an initializer"@))
                            } else {
                                Ok(DeclaratorRole::Linked)
                            }
                        } else {
                            Ok(DeclaratorRole::Object {
                                static_storage: is_static,
                                register: storage == Some(StorageClass::Register),
                            })
                        },
                    }
                },
            },
        }
    }
}

fn fact_flag(f: &Result<bool, Error>) -> (r: Result<bool, Error>)
    ensures
        r == *f,
{
    match f {
        Ok(b) => Ok(*b),
        Err(e) => Err(e.duplicate()),
    }
}

/// Applies a block declaration's storage rules to one declarator: what it
/// declares, or the diagnostic at the declarator (a fact's own error where
/// a consulted fact failed).
pub fn check_block_declarator(storage: Option<StorageClass>, for_initializer: bool, d: &BlockDeclarator) -> (r: Result<
    DeclaratorRole,
    Error,
>)
    ensures
        match (r, declarator_rule_spec(storage, for_initializer, *d)) {
            (Ok(role), Ok(expected)) => role == expected,
            (Err(e), Err(Ok(m))) => e.offset == d.offset && e.message@ == m,
            (Err(e), Err(Err(f))) => e == f,
            _ => false,
        },
{
    proof {
        reveal_strlit("local declaration has no name");
        reveal_strlit("variably modified identifiers cannot have linkage");
        reveal_strlit("variable-length arrays cannot have static storage duration");
        reveal_strlit("invalid storage class for a block function declaration");
        reveal_strlit("typedef cannot have an initializer");
        reveal_strlit("local object cannot have void type");
        reveal_strlit("block extern declaration cannot have an initializer");
    }
    let is_typedef = storage == Some(StorageClass::Typedef);
    let is_extern = storage == Some(StorageClass::Extern);
    let is_static = storage == Some(StorageClass::Static);
    if !d.named {
        return Err(Error::new(d.offset, "local declaration has no name"));
    }
    let vm = fact_flag(&d.variably_modified)?;
    let function = fact_flag(&d.function)?;
    if vm && (is_extern || function) {
        return Err(Error::new(d.offset, "variably modified identifiers cannot have linkage"));
    }
    if is_static && fact_flag(&d.variable_length)? {
        return Err(Error::new(d.offset, "variable-length arrays cannot have static storage duration"));
    }
    if function && (for_initializer || (storage.is_some() && !is_extern)) && !is_typedef {
        return Err(Error::new(d.offset, "invalid storage class for a block function declaration"));
    }
    if is_typedef {
        if d.has_initializer {
            return Err(Error::new(d.offset, "typedef cannot have an initializer"));
        }
        return Ok(DeclaratorRole::Typedef);
    }
    if fact_flag(&d.void)? {
        return Err(Error::new(d.offset, "local object cannot have void type"));
    }
    if is_extern || function {
        if d.has_initializer {
            return Err(Error::new(d.offset, "block extern declaration cannot have an initializer"));
        }
        return Ok(DeclaratorRole::Linked);
    }
    Ok(DeclaratorRole::Object { static_storage: is_static, register: storage == Some(StorageClass::Register) })
}


/// What the enclosing scopes hold for a declarator's name, with the type
/// comparisons another analysis makes, each consulted only where the rules
/// reach it.
#[derive(Debug)]
pub struct BindingFacts {
    /// This block already has a typedef of the name.
    pub previous_typedef: bool,
    /// Whether that typedef's type is compatible with this one.
    pub typedef_compatible: Result<bool, Error>,
    /// This block already binds the name to something other than a typedef.
    pub named_in_block: bool,
    /// An earlier block `extern` declaration of the name.
    pub previous_extern: bool,
    /// Whether its type is compatible with this one.
    pub extern_compatible: Result<bool, Error>,
    /// A file-scope declaration of the name that is not a typedef.
    pub file_declaration: bool,
    /// Whether its type is compatible with this one.
    pub file_compatible: Result<bool, Error>,
    /// This block binds the name to an object with linkage.
    pub linked_in_block: bool,
    /// Whether that object's type is compatible with this one.
    pub local_compatible: Result<bool, Error>,
}

/// What a block declarator does to its scope.
#[derive(Clone, Copy, Debug, PartialEq, Eq, Structural)]
pub enum BindingAction {
    /// A compatible redeclaration of a block typedef: nothing changes.
    Redeclared,
    /// A new block typedef, which hides an enumeration constant of the name.
    DeclareTypedef,
    /// A compatible redeclaration of a linked object of this block: its type
    /// becomes the composite of both.
    MergeComposite,
    /// A new binding of the name in this block.
    Bind,
}

/// A fact's answer, or its error.
pub open spec fn fact_answer(f: Result<bool, Error>) -> Result<bool, Result<Seq<char>, Error>> {
    match f {
        Ok(b) => Ok(b),
        Err(e) => Err(Err(e)),
    }
}

/// How a declarator of a given role binds: a typedef may only repeat a
/// compatible, not variably modified typedef of this block and may not
/// reuse another name of the block; a linked declarator must agree with an
/// earlier block `extern` and a file-scope declaration of the name, and
/// merges with a compatible linked object of this block.
pub open spec fn binding_spec(role: DeclaratorRole, variably_modified: bool, f: BindingFacts) -> Result<BindingAction, Result<Seq<char>, Error>> {
    match role {
        DeclaratorRole::Typedef => if f.previous_typedef {
            if variably_modified {
                Err(Ok("conflicting block typedef"@))
            } else {
                match fact_answer(f.typedef_compatible) {
                    Err(e) => Err(e),
                    Ok(true) => Ok(BindingAction::Redeclared),
                    Ok(false) => Err(Ok("conflicting block typedef"@)),
                }
            }
        } else if f.named_in_block {
            Err(Ok("typedef conflicts with a local identifier"@))
        } else {
            Ok(BindingAction::DeclareTypedef)
        },
        DeclaratorRole::Linked => {
            let extern_check: Result<bool, Result<Seq<char>, Error>> = if f.previous_extern {
                fact_answer(f.extern_compatible)
            } else {
                Ok(true)
            };
            match extern_check {
                Err(e) => Err(e),
                Ok(false) => Err(Ok("conflicting block extern declarations"@)),
                Ok(true) => {
                    let file_check: Result<bool, Result<Seq<char>, Error>> = if f.file_declaration {
                        fact_answer(f.file_compatible)
                    } else {
                        Ok(true)
                    };
                    match file_check {
                        Err(e) => Err(e),
                        Ok(false) => Err(Ok("block extern conflicts with a file declaration"@)),
                        Ok(true) => if f.linked_in_block {
                            match fact_answer(f.local_compatible) {
                                Err(e) => Err(e),
                                Ok(true) => Ok(BindingAction::MergeComposite),
                                Ok(false) => Ok(BindingAction::Bind),
                            }
                        } else {
                            Ok(BindingAction::Bind)
                        },
                    }
                },
            }
        },
        DeclaratorRole::Object { .. } => Ok(BindingAction::Bind),
    }
}

/// Decides how a block declarator of `role`, at `offset`, binds in its
/// scope.
pub fn block_binding(role: DeclaratorRole, variably_modified: bool, f: &BindingFacts, offset: usize) -> (r: Result<
    BindingAction,
    Error,
>)
    ensures
        match (r, binding_spec(role, variably_modified, *f)) {
            (Ok(a), Ok(b)) => a == b,
            (Err(e), Err(Ok(m))) => e.offset == offset && e.message@ == m,
            (Err(e), Err(Err(g))) => e == g,
            _ => false,
        },
{
    match role {
        DeclaratorRole::Typedef => {
            if f.previous_typedef {
                if variably_modified {
                    return Err(Error::new(offset, "conflicting block typedef"));
                }
                if fact_flag(&f.typedef_compatible)? {
                    return Ok(BindingAction::Redeclared);
                }
                return Err(Error::new(offset, "conflicting block typedef"));
            }
            if f.named_in_block {
                return Err(Error::new(offset, "typedef conflicts with a local identifier"));
            }
            Ok(BindingAction::DeclareTypedef)
        },
        DeclaratorRole::Linked => {
            if f.previous_extern && !fact_flag(&f.extern_compatible)? {
                return Err(Error::new(offset, "conflicting block extern declarations"));
            }
            if f.file_declaration && !fact_flag(&f.file_compatible)? {
                return Err(Error::new(offset, "block extern conflicts with a file declaration"));
            }
            if f.linked_in_block && fact_flag(&f.local_compatible)? {
                return Ok(BindingAction::MergeComposite);
            }
            Ok(BindingAction::Bind)
        },
        DeclaratorRole::Object { .. } => Ok(BindingAction::Bind),
    }
}

/// A local object without linkage must have a complete type once its
/// initializer is checked; `complete` is that fact, with its error.
pub fn check_local_complete(linked: bool, complete: &Result<bool, Error>, offset: usize) -> (r: Result<(), Error>)
    ensures
        linked ==> r is Ok,
        !linked ==> match complete {
            Ok(true) => r is Ok,
            Ok(false) => r matches Err(e) && e.offset == offset && e.message@ == "local object requires a complete type"@,
            Err(g) => r == Err::<(), Error>(*g),
        },
{
    if linked {
        return Ok(());
    }
    if !fact_flag(complete)? {
        return Err(Error::new(offset, "local object requires a complete type"));
    }
    Ok(())
}

} // verus!
