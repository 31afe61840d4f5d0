//! GNU fixed-size vector types: `vector_size` on a scalar, comparison masks,
//! vector casts, and which scalar operands a vector operation accepts.

use crate::error::Error;
use crate::integer::kind_shape;
use crate::ir::{FloatKind, IntegerKind, IntegerValue, Qualifiers, Type, TypeKind, VectorKind};
use crate::profile::Target;
use crate::type_alignment::TypeAlignment;
use vstd::prelude::*;

verus! {

/// The largest vector in bytes without extra target features.
pub const MAX_VECTOR_BYTES: u64 = 16;

/// How deeply `vector_size` may descend through derived declarators.
pub const MAX_VECTOR_NESTING: usize = 128;

/// A `vector_size` byte count that is positive, a power of two and at most
/// sixteen.
pub open spec fn vector_size_valid(bytes: u64) -> bool {
    bytes == 1 || bytes == 2 || bytes == 4 || bytes == 8 || bytes == 16
}

/// Checks a `vector_size` byte count at declarator depth `depth`.
pub fn check_vector_size(bytes: u64, depth: usize, offset: usize) -> (r: Result<(), Error>)
    ensures
        r is Ok <==> depth < MAX_VECTOR_NESTING && vector_size_valid(bytes),
{
    if depth >= MAX_VECTOR_NESTING {
        return Err(Error::new(offset, "vector declarator nesting exceeds the 128-level limit"));
    }
    if bytes == 0 {
        return Err(Error::new(offset, "vector_size requires a positive byte count"));
    }
    if bytes & (bytes - 1) != 0 {
        proof {
            assert(vector_size_valid(bytes) ==> bytes & ((bytes - 1) as u64) == 0) by (bit_vector);
        }
        return Err(Error::new(offset, "non-power-of-two vector_size is unsupported"));
    }
    if bytes > MAX_VECTOR_BYTES {
        return Err(Error::new(offset, "vectors larger than 16 bytes require unsupported target-feature configuration"));
    }
    proof {
        assert(0 < bytes <= 16 && bytes & ((bytes - 1) as u64) == 0 ==> vector_size_valid(bytes)) by (bit_vector);
    }
    Ok(())
}

/// Applies `vector_size(bytes)` to a resolved scalar type carrying its
/// qualifiers, whose objects are `element_bytes` long: the element loses its
/// qualifiers and alignment, the vector takes the qualifiers, and the lane
/// count is `bytes / element_bytes`.
pub fn vector_of_scalar(element: Type, element_bytes: u64, bytes: u64, depth: usize, offset: usize) -> (r: Result<Type, Error>)
    ensures
        r is Ok <==> depth < MAX_VECTOR_NESTING && vector_size_valid(bytes)
            && (element.kind is Integer || element.kind is Float)
            && 0 < element_bytes <= bytes && bytes % element_bytes == 0,
        r matches Ok(t) ==> {
            &&& t.qualifiers == element.qualifiers
            &&& t.alignment.bytes_spec() is None
            &&& t.alignment.origin_spec() is None
            &&& t.kind matches TypeKind::Vector { element: e, lanes, kind }
            &&& kind == VectorKind::Gnu
            &&& lanes == bytes / element_bytes
            &&& e.kind == element.kind
            &&& e.qualifiers == Qualifiers::none_spec()
            &&& e.alignment.bytes_spec() is None
            &&& e.alignment.origin_spec() is None
        },
{
    check_vector_size(bytes, depth, offset)?;
    match element.kind {
        TypeKind::Integer(_) | TypeKind::Float(_) => {},
        TypeKind::Enum(_) => {
            return Err(Error::new(offset, "GNU vectors with enum elements are unsupported"));
        },
        _ => {
            return Err(Error::new(offset, "vector_size requires an integer or floating scalar element type"));
        },
    }
    if element_bytes == 0 || bytes < element_bytes || bytes % element_bytes != 0 {
        return Err(Error::new(offset, "vector_size must be a multiple of the element size"));
    }
    let qualifiers = element.qualifiers;
    let lanes = bytes / element_bytes;
    let scalar = Type::new(element.kind);
    Ok(Type {
        kind: TypeKind::Vector { kind: VectorKind::Gnu, element: Box::new(scalar), lanes },
        qualifiers,
        alignment: TypeAlignment::none(),
    })
}

/// The signed lane type of a comparison result for elements of
/// `element_bytes` bytes, if the width is supported.
pub open spec fn mask_kind(element_bytes: u64, gnu: bool) -> Option<IntegerKind> {
    if element_bytes == 1 {
        Some(if gnu { IntegerKind::SignedChar } else { IntegerKind::Char })
    } else if element_bytes == 2 {
        Some(IntegerKind::Short)
    } else if element_bytes == 4 {
        Some(IntegerKind::Int)
    } else if element_bytes == 8 {
        Some(if gnu { IntegerKind::Long } else { IntegerKind::LongLong })
    } else if element_bytes == 16 {
        Some(IntegerKind::Int128)
    } else {
        None
    }
}

/// The type of comparing two vectors of `lanes` elements, each
/// `element_bytes` long: a GNU vector of as many signed integers of the same
/// width.
pub fn vector_mask(element_bytes: u64, lanes: u64, gnu: bool, offset: usize) -> (r: Result<Type, Error>)
    ensures
        r is Ok <==> mask_kind(element_bytes, gnu) is Some,
        r matches Ok(t) ==> {
            &&& t.qualifiers == Qualifiers::none_spec()
            &&& t.kind matches TypeKind::Vector { element: e, lanes: l, kind }
            &&& kind == VectorKind::Gnu
            &&& l == lanes
            &&& e.kind == TypeKind::Integer(mask_kind(element_bytes, gnu)->0)
            &&& e.qualifiers == Qualifiers::none_spec()
        },
{
    let kind = match element_bytes {
        1 => if gnu { IntegerKind::SignedChar } else { IntegerKind::Char },
        2 => IntegerKind::Short,
        4 => IntegerKind::Int,
        8 => if gnu { IntegerKind::Long } else { IntegerKind::LongLong },
        16 => IntegerKind::Int128,
        _ => {
            return Err(Error::new(offset, "unsupported vector comparison element width"));
        },
    };
    Ok(Type::new(TypeKind::Vector {
        kind: VectorKind::Gnu,
        element: Box::new(Type::new(TypeKind::Integer(kind))),
        lanes,
    }))
}

/// A vector cast reinterprets storage: both sides are vectors or integers of
/// the same size in bits.
pub fn check_vector_cast(
    source: &TypeKind,
    destination: &TypeKind,
    source_bits: u64,
    destination_bits: u64,
    offset: usize,
) -> (r: Result<(), Error>)
    ensures
        r is Ok <==> (source is Vector || source is Integer) && (destination is Vector || destination is Integer)
            && source_bits == destination_bits,
{
    let source_allowed = match source {
        TypeKind::Vector { .. } | TypeKind::Integer(_) => true,
        _ => false,
    };
    let destination_allowed = match destination {
        TypeKind::Vector { .. } | TypeKind::Integer(_) => true,
        _ => false,
    };
    if !source_allowed || !destination_allowed || source_bits != destination_bits {
        return Err(Error::new(offset, "vector casts require vector or integer operands with equal storage size"));
    }
    Ok(())
}

/// Two vectors operate lane by lane when their lane counts agree and their
/// element types are compatible (`elements_compatible`).
pub fn compatible_vector_lanes(left: &TypeKind, right: &TypeKind, elements_compatible: bool) -> (r: bool)
    ensures
        r == (left matches TypeKind::Vector { lanes: a, .. } && right matches TypeKind::Vector { lanes: b, .. }
            && a == b && elements_compatible),
{
    match (left, right) {
        (TypeKind::Vector { lanes: a, .. }, TypeKind::Vector { lanes: b, .. }) => *a == *b && elements_compatible,
        _ => false,
    }
}

/// Significand bits of a floating vector element on a target; extended
/// formats have none for this purpose.
pub open spec fn float_precision(kind: FloatKind, target: Target) -> u32 {
    match kind {
        FloatKind::Float => 24,
        FloatKind::Double => 53,
        FloatKind::LongDouble => match target {
            Target::Aarch64UnknownLinuxGnu | Target::Aarch64UnknownLinuxMusl => 113,
            Target::I686UnknownLinuxGnu | Target::X86_64UnknownLinuxGnu
            | Target::X86_64UnknownLinuxMusl | Target::X86_64AppleDarwin => 64,
            Target::Aarch64AppleDarwin | Target::X86_64PcWindowsMsvc | Target::Aarch64PcWindowsMsvc => 53,
        },
        _ => 0,
    }
}

/// Significand bits of a floating vector element on a target.
pub fn vector_float_precision(kind: FloatKind, target: Target) -> (r: u32)
    ensures
        r == float_precision(kind, target),
{
    match kind {
        FloatKind::Float => 24,
        FloatKind::Double => 53,
        FloatKind::LongDouble => match target {
            Target::Aarch64UnknownLinuxGnu | Target::Aarch64UnknownLinuxMusl => 113,
            Target::I686UnknownLinuxGnu | Target::X86_64UnknownLinuxGnu
            | Target::X86_64UnknownLinuxMusl | Target::X86_64AppleDarwin => 64,
            Target::Aarch64AppleDarwin | Target::X86_64PcWindowsMsvc | Target::Aarch64PcWindowsMsvc => 53,
        },
        _ => 0,
    }
}

/// Whether a non-constant scalar operand splats into a vector without
/// losing values: its type is compatible with the element type
/// (`compatible`); or both are integers and the element holds every value of
/// the scalar; or the element is floating and the scalar, floating or
/// integer, fits its significand.
pub open spec fn scalar_splat_fits(
    compatible: bool,
    element_int: Option<IntegerValue>,
    scalar_int: Option<IntegerValue>,
    element_float: Option<FloatKind>,
    scalar_float: Option<FloatKind>,
    target: Target,
) -> bool {
    ||| compatible
    ||| (element_int matches Some(to) && scalar_int matches Some(from)
        && ((to.signed == from.signed && to.bits >= from.bits) || (to.signed && !from.signed && to.bits > from.bits)))
    ||| (element_float matches Some(to) && match scalar_float {
        Some(from) => float_precision(from, target) <= float_precision(to, target),
        None => scalar_int matches Some(from) && from.bits - (if from.signed { 1int } else { 0int }) <= float_precision(to, target),
    })
}

/// Decides [`scalar_splat_fits`]: `element_int` and `scalar_int` are the
/// integer readings of the element and scalar types where they have one,
/// `element_float` and `scalar_float` their floating kinds.
pub fn vector_scalar_fits(
    compatible: bool,
    element_int: Option<IntegerValue>,
    scalar_int: Option<IntegerValue>,
    element_float: Option<FloatKind>,
    scalar_float: Option<FloatKind>,
    target: Target,
) -> (r: bool)
    ensures
        r == scalar_splat_fits(compatible, element_int, scalar_int, element_float, scalar_float, target),
{
    if compatible {
        return true;
    }
    if let (Some(to), Some(from)) = (element_int, scalar_int) {
        if (to.signed == from.signed && to.bits >= from.bits) || (to.signed && !from.signed && to.bits > from.bits) {
            return true;
        }
    }
    if let Some(to) = element_float {
        let precision = vector_float_precision(to, target);
        match scalar_float {
            Some(from) => {
                return vector_float_precision(from, target) <= precision;
            },
            None => {
                if let Some(from) = scalar_int {
                    let sign: u32 = if from.signed { 1 } else { 0 };
                    return (from.bits as u32) <= precision + sign;
                }
            },
        }
    }
    false
}


/// A vector comparison's lanes are signed integers as wide as the compared
/// elements (on a target with 64-bit `long`), holding -1 or 0; only Clang's
/// one-byte lanes are plain `char`, whose signedness is the target's.
pub proof fn lemma_mask_lanes_are_signed_and_element_wide(element_bytes: u64, gnu: bool, char_signed: bool)
    ensures
        mask_kind(element_bytes, gnu) matches Some(k) ==> {
            &&& kind_shape(k, char_signed, 64).0 == 8 * element_bytes
            &&& (kind_shape(k, char_signed, 64).1 || (k == IntegerKind::Char && !gnu))
        },
        mask_kind(element_bytes, gnu) is Some <==> (element_bytes == 1 || element_bytes == 2 || element_bytes == 4
            || element_bytes == 8 || element_bytes == 16),
{
}

} // verus!
