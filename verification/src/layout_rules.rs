//! The rules a type must meet before a target can lay it out: nesting,
//! sizeless types, `__ptr32`, atomic values, vector shapes and floating
//! formats. The layout arithmetic itself belongs to the target's layout
//! engine.

use crate::error::Error;
use crate::ir::{Enum, ExtendedFloatFormat, Field, FloatKind, IntegerValue, Record, TypeKind};
use crate::profile::{Compiler, Target};
use vstd::prelude::*;

verus! {

/// How many levels of nested types a layout follows.
pub const LAYOUT_DEPTH_LIMIT: usize = 128;

/// The entry rules of every layout: nesting below 128 levels, and a type
/// that is not sizeless.
pub fn layout_entry(depth: usize, kind: &TypeKind) -> (r: Result<(), Error>)
    ensures
        r is Ok <==> depth < 128 && !(kind is Sve),
        r matches Err(e) ==> e.offset == 0 && e.message@ == (if depth >= 128 {
            "record layout nesting exceeds the 128-level limit"@
        } else {
            "sizeless SVE types have no fixed object layout"@
        }),
{
    if depth >= LAYOUT_DEPTH_LIMIT {
        return Err(Error::new(0, "record layout nesting exceeds the 128-level limit"));
    }
    if let TypeKind::Sve(_) = kind {
        return Err(Error::new(0, "sizeless SVE types have no fixed object layout"));
    }
    Ok(())
}

/// The storage a `__ptr32` pointer has: 32 bits on x86-64 Windows, an
/// ordinary pointer on AArch64 Windows (`None`); elsewhere it is refused.
pub fn ptr32_layout(target: Target) -> (r: Result<Option<u64>, Error>)
    ensures
        r is Ok <==> (target is X86_64PcWindowsMsvc || target is Aarch64PcWindowsMsvc),
        r matches Ok(bits) ==> bits == (if target is X86_64PcWindowsMsvc {
            Some(32u64)
        } else {
            None::<u64>
        }),
        r matches Err(e) ==> e.offset == 0 && e.message@ == "__ptr32 pointer ABI is unsupported on this target"@,
{
    match target {
        Target::X86_64PcWindowsMsvc => Ok(Some(32)),
        Target::Aarch64PcWindowsMsvc => Ok(None),
        _ => Err(Error::new(0, "__ptr32 pointer ABI is unsupported on this target")),
    }
}

/// Whether an atomic type's value type can be laid out: unqualified, and
/// not an atomic, array, variable-length array, function or `void`.
pub open spec fn atomic_value_layable(qualified: bool, value: TypeKind) -> bool {
    !qualified && !(value is Atomic || value is Array || value is VariableArray || value is Function
        || value is Void)
}

/// Checks the value type of an atomic type before its layout: `qualified`
/// says whether it carries qualifiers, `value` is its resolved kind.
pub fn atomic_value_layout(qualified: bool, value: &TypeKind) -> (r: Result<(), Error>)
    ensures
        r is Ok <==> atomic_value_layable(qualified, *value),
        r matches Err(e) ==> e.offset == 0 && e.message@
            == "atomic layout requires an unqualified non-atomic object value"@,
{
    let refused = match value {
        TypeKind::Atomic(_) | TypeKind::Array { .. } | TypeKind::VariableArray { .. } | TypeKind::Function(_)
        | TypeKind::Void => true,
        _ => false,
    };
    if qualified || refused {
        return Err(Error::new(0, "atomic layout requires an unqualified non-atomic object value"));
    }
    Ok(())
}

/// Whether `x` is a power of two.
pub open spec fn power_of_two(x: u64) -> bool {
    x != 0 && x & ((x - 1) as u64) == 0
}

/// The size in bits of a fixed vector of `lanes` elements of
/// `element_bits` bits each (`element_arithmetic`: an integer or floating
/// element): the lane count must be a power of two, and the vector a power
/// of two of at most 128 bits.
pub open spec fn vector_bits_spec(element_arithmetic: bool, lanes: u64, element_bits: u64) -> Result<u64, Seq<char>> {
    if !element_arithmetic || !power_of_two(lanes) {
        Err("invalid vector element type or lane count"@)
    } else if element_bits * lanes > u64::MAX {
        Err("vector size overflows"@)
    } else {
        let size = (element_bits * lanes) as u64;
        if size == 0 || size > 128 || !power_of_two(size) {
            Err("vectors larger than 16 bytes require unsupported target-feature configuration"@)
        } else {
            Ok(size)
        }
    }
}

/// Checks a fixed vector's shape and gives its size in bits.
pub fn vector_layout_bits(element_arithmetic: bool, lanes: u64, element_bits: u64) -> (r: Result<u64, Error>)
    ensures
        match (r, vector_bits_spec(element_arithmetic, lanes, element_bits)) {
            (Ok(a), Ok(b)) => a == b,
            (Err(e), Err(m)) => e.offset == 0 && e.message@ == m,
            _ => false,
        },
{
    if !element_arithmetic || lanes == 0 || lanes & (lanes - 1) != 0 {
        return Err(Error::new(0, "invalid vector element type or lane count"));
    }
    let size = match element_bits.checked_mul(lanes) {
        Some(size) => size,
        None => {
            return Err(Error::new(0, "vector size overflows"));
        },
    };
    if size == 0 || size > 128 || size & (size - 1) != 0 {
        return Err(Error::new(0, "vectors larger than 16 bytes require unsupported target-feature configuration"));
    }
    Ok(size)
}

/// What a floating type is laid out as: a fixed IEEE format of the given
/// bits, or one of the target's C floating types.
#[derive(Clone, Copy, Debug, PartialEq, Eq, Structural)]
pub enum FloatLayout {
    Fixed(u64),
    Float,
    Double,
    LongDouble,
}

/// The layout of a floating type: binary16 and bfloat16 in 16 bits,
/// `_Float128` in 128; `_Float32` as `float`; `_Float64` and `_Float32x` as
/// `double`; `_Float64x` as `long double` in the GNU profiles only; other
/// extended formats have none.
pub open spec fn float_layout_spec(kind: FloatKind, compiler: Compiler) -> Result<FloatLayout, Seq<char>> {
    match kind {
        FloatKind::BFloat16 => Ok(FloatLayout::Fixed(16)),
        FloatKind::Float => Ok(FloatLayout::Float),
        FloatKind::Double => Ok(FloatLayout::Double),
        FloatKind::LongDouble => Ok(FloatLayout::LongDouble),
        FloatKind::Extended { format, width } => if format == ExtendedFloatFormat::BinaryInterchange {
            if width == 16 {
                Ok(FloatLayout::Fixed(16))
            } else if width == 128 {
                Ok(FloatLayout::Fixed(128))
            } else if width == 32 {
                Ok(FloatLayout::Float)
            } else if width == 64 {
                Ok(FloatLayout::Double)
            } else {
                Err("extended floating-point layout is unsupported"@)
            }
        } else if format == ExtendedFloatFormat::BinaryExtended && width == 32 {
            Ok(FloatLayout::Double)
        } else if format == ExtendedFloatFormat::BinaryExtended && width == 64 {
            if compiler == Compiler::Gnu {
                Ok(FloatLayout::LongDouble)
            } else {
                Err("_Float64x layout is only defined in the supported GNU profiles"@)
            }
        } else {
            Err("extended floating-point layout is unsupported"@)
        },
    }
}

/// Chooses the layout of a floating type for a compiler profile.
pub fn float_layout(kind: FloatKind, compiler: Compiler) -> (r: Result<FloatLayout, Error>)
    ensures
        match (r, float_layout_spec(kind, compiler)) {
            (Ok(a), Ok(b)) => a == b,
            (Err(e), Err(m)) => e.offset == 0 && e.message@ == m,
            _ => false,
        },
{
    match kind {
        FloatKind::BFloat16 => Ok(FloatLayout::Fixed(16)),
        FloatKind::Float => Ok(FloatLayout::Float),
        FloatKind::Double => Ok(FloatLayout::Double),
        FloatKind::LongDouble => Ok(FloatLayout::LongDouble),
        FloatKind::Extended { format: ExtendedFloatFormat::BinaryInterchange, width } => {
            if width == 16 {
                Ok(FloatLayout::Fixed(16))
            } else if width == 128 {
                Ok(FloatLayout::Fixed(128))
            } else if width == 32 {
                Ok(FloatLayout::Float)
            } else if width == 64 {
                Ok(FloatLayout::Double)
            } else {
                Err(Error::new(0, "extended floating-point layout is unsupported"))
            }
        },
        FloatKind::Extended { format: ExtendedFloatFormat::BinaryExtended, width } => {
            if width == 32 {
                Ok(FloatLayout::Double)
            } else if width == 64 {
                match compiler {
                    Compiler::Gnu => Ok(FloatLayout::LongDouble),
                    Compiler::Clang => Err(Error::new(0, "_Float64x layout is only defined in the supported GNU profiles")),
                }
            } else {
                Err(Error::new(0, "extended floating-point layout is unsupported"))
            }
        },
        _ => Err(Error::new(0, "extended floating-point layout is unsupported")),
    }
}


/// The real types whose complex type has a layout: `float`, `double`,
/// `long double`, `_Float32`, `_Float64`, `_Float128`, `_Float32x` and
/// `_Float64x`.
pub open spec fn complex_layable(kind: FloatKind) -> bool {
    match kind {
        FloatKind::Float | FloatKind::Double | FloatKind::LongDouble => true,
        FloatKind::Extended { format, width } => (format == ExtendedFloatFormat::BinaryInterchange && (width == 32
            || width == 64 || width == 128)) || (format == ExtendedFloatFormat::BinaryExtended && (width == 32
            || width == 64)),
        FloatKind::BFloat16 => false,
    }
}

/// Why a kind has no layout before any engine is asked: a variable-length
/// array's size is known only at run time, a function is no object, and a
/// complex type needs a real type with a layout.
pub open spec fn layout_refusal(kind: TypeKind) -> Option<Seq<char>> {
    match kind {
        TypeKind::VariableArray { .. } => Some("variable-length array size requires a runtime bound"@),
        TypeKind::Function(_) => Some("a function has no object layout"@),
        TypeKind::Complex(k) => if complex_layable(k) {
            None
        } else {
            Some("extended complex types are unsupported"@)
        },
        _ => None,
    }
}

/// Refuses the kinds that have no object layout.
pub fn composite_layout_entry(kind: &TypeKind) -> (r: Result<(), Error>)
    ensures
        match layout_refusal(*kind) {
            None => r is Ok,
            Some(m) => r matches Err(e) && e.offset == 0 && e.message@ == m,
        },
{
    match kind {
        TypeKind::VariableArray { .. } => Err(Error::new(0, "variable-length array size requires a runtime bound")),
        TypeKind::Function(_) => Err(Error::new(0, "a function has no object layout")),
        TypeKind::Complex(k) => {
            let layable = match k {
                FloatKind::Float | FloatKind::Double | FloatKind::LongDouble => true,
                FloatKind::Extended { format: ExtendedFloatFormat::BinaryInterchange, width } => *width == 32 || *width
                    == 64 || *width == 128,
                FloatKind::Extended { format: ExtendedFloatFormat::BinaryExtended, width } => *width == 32 || *width
                    == 64,
                _ => false,
            };
            if layable {
                Ok(())
            } else {
                Err(Error::new(0, "extended complex types are unsupported"))
            }
        },
        _ => Ok(()),
    }
}

/// The records whose layout is being computed, outermost first: a record
/// met again while it is being laid out contains itself by value.
pub struct ActiveRecords {
    ids: Vec<usize>,
}

impl ActiveRecords {
    /// The records being laid out.
    pub closed spec fn active(&self) -> Set<usize> {
        Set::new(|id: usize| self.ids@.contains(id))
    }

    /// No record is being laid out.
    pub fn new() -> (r: Self)
        ensures
            r.active() == Set::<usize>::empty(),
    {
        let r = ActiveRecords { ids: Vec::new() };
        proof {
            assert(r.active() =~= Set::<usize>::empty());
        }
        r
    }

    fn holds(&self, id: usize) -> (r: bool)
        ensures
            r == self.ids@.contains(id),
    {
        let mut i: usize = 0;
        while i < self.ids.len()
            invariant
                i <= self.ids@.len(),
                forall|j: int| 0 <= j < i ==> self.ids@[j] != id,
            decreases self.ids.len() - i,
        {
            if self.ids[i] == id {
                return true;
            }
            i = i + 1;
        }
        false
    }

    /// Starts laying out record `id`, refusing a record already being laid
    /// out.
    pub fn enter(&mut self, id: usize) -> (r: Result<(), Error>)
        ensures
            r is Ok <==> !old(self).active().contains(id),
            r is Ok ==> final(self).active() == old(self).active().insert(id),
            r is Err ==> final(self).active() == old(self).active(),
            r matches Err(e) ==> e.offset == 0 && e.message@ == "record contains itself by value"@,
    {
        if self.holds(id) {
            return Err(Error::new(0, "record contains itself by value"));
        }
        let ghost before = self.ids@;
        self.ids.push(id);
        proof {
            assert forall|x: usize| self.ids@.contains(x) <==> (before.contains(x) || x == id) by {
                if self.ids@.contains(x) {
                    let k = choose|k: int| 0 <= k < self.ids@.len() && self.ids@[k] == x;
                    if k < before.len() {
                        assert(before[k] == x);
                    }
                }
                if before.contains(x) {
                    let k = choose|k: int| 0 <= k < before.len() && before[k] == x;
                    assert(self.ids@[k] == x);
                }
                if x == id {
                    assert(self.ids@[before.len() as int] == x);
                }
            }
            assert(self.active() =~= old(self).active().insert(id));
        }
        Ok(())
    }

    /// Finishes laying out record `id`.
    pub fn leave(&mut self, id: usize)
        ensures
            final(self).active() == old(self).active().remove(id),
    {
        let mut kept: Vec<usize> = Vec::new();
        let mut i: usize = 0;
        while i < self.ids.len()
            invariant
                i <= self.ids@.len(),
                forall|x: usize| kept@.contains(x) <==> (self.ids@.take(i as int).contains(x) && x != id),
            decreases self.ids.len() - i,
        {
            let ghost before = kept@;
            let x = self.ids[i];
            if x != id {
                kept.push(x);
            }
            proof {
                let prefix = self.ids@.take(i as int + 1);
                assert(prefix =~= self.ids@.take(i as int).push(x));
                assert forall|y: usize| kept@.contains(y) <==> (prefix.contains(y) && y != id) by {
                    if kept@.contains(y) {
                        let k = choose|k: int| 0 <= k < kept@.len() && kept@[k] == y;
                        if k < before.len() {
                            assert(before[k] == y);
                            assert(before.contains(y));
                            let m = choose|m: int| 0 <= m < self.ids@.take(i as int).len() && self.ids@.take(i as int)[m] == y;
                            assert(prefix[m] == y);
                        } else {
                            assert(prefix[i as int] == y);
                        }
                    }
                    if prefix.contains(y) && y != id {
                        let m = choose|m: int| 0 <= m < prefix.len() && prefix[m] == y;
                        if m < i {
                            assert(self.ids@.take(i as int)[m] == y);
                            assert(before.contains(y));
                            let k = choose|k: int| 0 <= k < before.len() && before[k] == y;
                            assert(kept@[k] == y);
                        } else {
                            assert(kept@[kept@.len() - 1] == y);
                        }
                    }
                }
            }
            i = i + 1;
        }
        proof {
            assert(self.ids@.take(i as int) =~= self.ids@);
        }
        self.ids = kept;
        proof {
            assert(self.active() =~= old(self).active().remove(id));
        }
    }
}

/// The fields of record `id` to lay out: the record must exist and be
/// complete.
pub fn record_layout_fields(records: &[Record], id: usize) -> (r: Result<&Vec<Field>, Error>)
    ensures
        r is Ok <==> id < records@.len() && records@[id as int].fields is Some,
        r matches Ok(f) ==> records@[id as int].fields == Some(*f),
        r matches Err(e) ==> e.offset == 0 && e.message@ == (if id >= records@.len() {
            "invalid record identity"@
        } else {
            "incomplete record has no layout"@
        }),
{
    if id >= records.len() {
        return Err(Error::new(0, "invalid record identity"));
    }
    match &records[id].fields {
        Some(fields) => Ok(fields),
        None => Err(Error::new(0, "incomplete record has no layout")),
    }
}

/// An alignment of `bytes` in bits, as a layout annotation takes it.
pub fn alignment_bits(bytes: Option<u64>, message: &str) -> (r: Result<Option<u64>, Error>)
    ensures
        match bytes {
            None => r == Ok::<Option<u64>, Error>(None),
            Some(b) => if b * 8 <= u64::MAX {
                r == Ok::<Option<u64>, Error>(Some((b * 8) as u64))
            } else {
                r matches Err(e) && e.offset == 0 && e.message@ == message@
            },
        },
{
    match bytes {
        None => Ok(None),
        Some(b) => match b.checked_mul(8) {
            Some(bits) => Ok(Some(bits)),
            None => Err(Error::new(0, message)),
        },
    }
}

/// The value an enumerator contributes to an enum's layout: its signed
/// reading, or an unsigned value that fits in `i128`; `None` for a
/// malformed value or one beyond `i128`.
pub open spec fn enumerator_layout_value(v: IntegerValue) -> Option<int> {
    if !v.well_formed() {
        None
    } else if v.signed {
        Some(v.signed_value_spec())
    } else if v.value <= i128::MAX {
        Some(v.value as int)
    } else {
        None
    }
}

/// The enumerator values of enum `id` for its layout: the enum must exist
/// and be complete, and each value be well formed and fit in `i128`.
pub fn enum_layout_values(enums: &[Enum], id: usize) -> (r: Result<Vec<i128>, Error>)
    ensures
        r is Ok <==> id < enums@.len() && enums@[id as int].complete && forall|k: int|
            0 <= k < enums@[id as int].variants@.len() ==> (#[trigger] enumerator_layout_value(
                enums@[id as int].variants@[k].value,
            )) is Some,
        r matches Ok(values) ==> values@.len() == enums@[id as int].variants@.len() && forall|k: int|
            0 <= k < values@.len() ==> enumerator_layout_value(enums@[id as int].variants@[k].value) == Some(
                #[trigger] values@[k] as int,
            ),
        r matches Err(e) ==> e.offset == 0,
        id >= enums@.len() ==> (r matches Err(e) && e.message@ == "invalid enum identity"@),
        id < enums@.len() && !enums@[id as int].complete ==> (r matches Err(e) && e.message@
            == "incomplete enum has no object layout"@),
{
    if id >= enums.len() {
        return Err(Error::new(0, "invalid enum identity"));
    }
    let enumeration = &enums[id];
    if !enumeration.complete {
        return Err(Error::new(0, "incomplete enum has no object layout"));
    }
    let mut values: Vec<i128> = Vec::new();
    let mut k: usize = 0;
    while k < enumeration.variants.len()
        invariant
            k <= enumeration.variants@.len(),
            id < enums@.len(),
            *enumeration == enums@[id as int],
            enumeration.complete,
            values@.len() == k,
            forall|j: int| 0 <= j < k ==> enumerator_layout_value(enumeration.variants@[j].value) == Some(
                #[trigger] values@[j] as int,
            ),
        decreases enumeration.variants.len() - k,
    {
        let v = enumeration.variants[k].value;
        match v.validate() {
            Ok(()) => {},
            Err(e) => {
                proof {
                    assert(enumerator_layout_value(enums@[id as int].variants@[k as int].value) is None);
                }
                return Err(e);
            },
        }
        if v.signed {
            values.push(v.signed_value());
        } else if v.value <= i128::MAX as u128 {
            values.push(v.value as i128);
        } else {
            proof {
                assert(enumerator_layout_value(enums@[id as int].variants@[k as int].value) is None);
            }
            return Err(Error::new(0, "enum value exceeds layout support"));
        }
        k = k + 1;
    }
    proof {
        assert forall|j: int| 0 <= j < enums@[id as int].variants@.len() implies (#[trigger] enumerator_layout_value(
            enums@[id as int].variants@[j].value,
        )) is Some by {
            assert(enumerator_layout_value(enumeration.variants@[j].value) == Some(values@[j] as int));
        }
    }
    Ok(values)
}

} // verus!
