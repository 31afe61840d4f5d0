//! Nominal C floating types: TS 18661 identities, literal suffixes, the common
//! type of mixed operands, and GNU's binary128 spellings.

use crate::error::Error;
use crate::ir::{ExtendedFloatFormat, FloatKind, TypeKind};
use crate::profile::{Compiler, Target};
use crate::text::{chars, chars_equal};
use vstd::prelude::*;

verus! {

impl FloatKind {
    /// The TS 18661 `_Float16` type, distinct from `__bf16` and ARM `__fp16`.
    pub fn float16() -> (r: Self)
        ensures
            r == (FloatKind::Extended { format: ExtendedFloatFormat::BinaryInterchange, width: 16 }),
    {
        FloatKind::Extended { format: ExtendedFloatFormat::BinaryInterchange, width: 16 }
    }

    /// The distinct TS 18661 binary32 interchange type.
    pub fn float32() -> (r: Self)
        ensures
            r == (FloatKind::Extended { format: ExtendedFloatFormat::BinaryInterchange, width: 32 }),
    {
        FloatKind::Extended { format: ExtendedFloatFormat::BinaryInterchange, width: 32 }
    }

    /// The distinct TS 18661 binary64 interchange type.
    pub fn float64() -> (r: Self)
        ensures
            r == (FloatKind::Extended { format: ExtendedFloatFormat::BinaryInterchange, width: 64 }),
    {
        FloatKind::Extended { format: ExtendedFloatFormat::BinaryInterchange, width: 64 }
    }

    /// The TS 18661 extended binary32 type, stored as binary64 on supported GNU targets.
    pub fn float32x() -> (r: Self)
        ensures
            r == (FloatKind::Extended { format: ExtendedFloatFormat::BinaryExtended, width: 32 }),
    {
        FloatKind::Extended { format: ExtendedFloatFormat::BinaryExtended, width: 32 }
    }

    /// The TS 18661 extended binary64 type: x87 on GNU x86-64 and binary128 on GNU AArch64.
    pub fn float64x() -> (r: Self)
        ensures
            r == (FloatKind::Extended { format: ExtendedFloatFormat::BinaryExtended, width: 64 }),
    {
        FloatKind::Extended { format: ExtendedFloatFormat::BinaryExtended, width: 64 }
    }

    /// The distinct IEEE binary128 interchange type (`_Float128` in GNU C).
    pub fn float128() -> (r: Self)
        ensures
            r == (FloatKind::Extended { format: ExtendedFloatFormat::BinaryInterchange, width: 128 }),
    {
        FloatKind::Extended { format: ExtendedFloatFormat::BinaryInterchange, width: 128 }
    }

    /// Whether this type stores IEEE binary16 or bfloat16 values.
    /// Its nominal type does not prescribe runtime intermediate precision.
    pub fn is_narrow(self) -> (r: bool)
        ensures
            r == (self == FloatKind::BFloat16 || self == (FloatKind::Extended {
                format: ExtendedFloatFormat::BinaryInterchange,
                width: 16,
            })),
    {
        match self {
            FloatKind::BFloat16 => true,
            FloatKind::Extended { format: ExtendedFloatFormat::BinaryInterchange, width } => width
                == 16,
            _ => false,
        }
    }
}

/// The TS 18661 families a floating suffix can name.
#[derive(Clone, Copy, Debug, PartialEq, Eq, Structural)]
pub enum FloatSuffixFormat {
    BinaryInterchange,
    BinaryExtended,
    DecimalInterchange,
    DecimalExtended,
}

/// The type a floating constant's suffix selects.
#[derive(Clone, Copy, Debug, PartialEq, Eq, Structural)]
pub enum FloatLiteralFormat {
    Float,
    Double,
    LongDouble,
    /// The GNU `q`/`Q` suffix.
    Float128,
    /// A TS 18661 suffix such as `f16`, `f32x` or `f128`.
    Suffix { format: FloatSuffixFormat, width: usize },
}

/// The type of the `q` suffix: `long double` on GNU AArch64 Linux, binary128 elsewhere.
pub open spec fn q_literal_kind_spec(target: Target, compiler: Compiler) -> FloatKind {
    if (target == Target::Aarch64UnknownLinuxGnu || target == Target::Aarch64UnknownLinuxMusl)
        && compiler == Compiler::Gnu {
        FloatKind::LongDouble
    } else {
        FloatKind::Extended { format: ExtendedFloatFormat::BinaryInterchange, width: 128 }
    }
}

/// The type of the `q` suffix: `long double` on GNU AArch64 Linux, binary128 elsewhere.
pub fn q_literal_kind(target: Target, compiler: Compiler) -> (r: FloatKind)
    ensures
        r == q_literal_kind_spec(target, compiler),
{
    let aarch64_linux = match target {
        Target::Aarch64UnknownLinuxGnu | Target::Aarch64UnknownLinuxMusl => true,
        _ => false,
    };
    if aarch64_linux && compiler == Compiler::Gnu {
        FloatKind::LongDouble
    } else {
        FloatKind::float128()
    }
}

/// The type a floating constant's suffix selects, or None when the profile
/// rejects the suffix.
pub open spec fn literal_kind_spec(format: FloatLiteralFormat, target: Target, compiler: Compiler) -> Option<FloatKind> {
    let gnu = compiler == Compiler::Gnu;
    match format {
        FloatLiteralFormat::Float128 => Some(q_literal_kind_spec(target, compiler)),
        FloatLiteralFormat::Float => Some(FloatKind::Float),
        FloatLiteralFormat::Double => Some(FloatKind::Double),
        FloatLiteralFormat::LongDouble => Some(FloatKind::LongDouble),
        FloatLiteralFormat::Suffix { format, width } => match format {
            FloatSuffixFormat::BinaryInterchange => if width == 128 || width == 32 || width == 64 {
                if gnu {
                    Some(FloatKind::Extended { format: ExtendedFloatFormat::BinaryInterchange, width })
                } else {
                    None
                }
            } else if width == 16 {
                if target == Target::I686UnknownLinuxGnu {
                    None
                } else {
                    Some(FloatKind::Extended { format: ExtendedFloatFormat::BinaryInterchange, width: 16 })
                }
            } else {
                None
            },
            FloatSuffixFormat::BinaryExtended => if (width == 32 || width == 64) && gnu {
                Some(FloatKind::Extended { format: ExtendedFloatFormat::BinaryExtended, width })
            } else {
                None
            },
            _ => None,
        },
    }
}

/// The type a floating constant's suffix selects under a compiler profile.
pub fn literal_kind(format: FloatLiteralFormat, target: Target, compiler: Compiler, offset: usize) -> (r: Result<FloatKind, Error>)
    ensures
        match r {
            Ok(kind) => literal_kind_spec(format, target, compiler) == Some(kind),
            Err(_) => literal_kind_spec(format, target, compiler) is None,
        },
{
    let gnu = compiler == Compiler::Gnu;
    match format {
        FloatLiteralFormat::Float128 => Ok(q_literal_kind(target, compiler)),
        FloatLiteralFormat::Float => Ok(FloatKind::Float),
        FloatLiteralFormat::Double => Ok(FloatKind::Double),
        FloatLiteralFormat::LongDouble => Ok(FloatKind::LongDouble),
        FloatLiteralFormat::Suffix { format: FloatSuffixFormat::BinaryInterchange, width: 128 } => {
            if !gnu {
                return Err(Error::new(offset, "the Clang profile rejects the f128 floating literal suffix"));
            }
            Ok(FloatKind::float128())
        },
        FloatLiteralFormat::Suffix { format, width } => {
            let binary = match format {
                FloatSuffixFormat::BinaryInterchange | FloatSuffixFormat::BinaryExtended => true,
                _ => false,
            };
            if binary && (width == 32 || width == 64) {
                if !gnu {
                    return Err(Error::new(offset, "the Clang profile rejects GNU f32/f64/f32x/f64x floating suffixes"));
                }
                return Ok(match (format, width) {
                    (FloatSuffixFormat::BinaryInterchange, 32) => FloatKind::float32(),
                    (FloatSuffixFormat::BinaryInterchange, _) => FloatKind::float64(),
                    (_, 32) => FloatKind::float32x(),
                    _ => FloatKind::float64x(),
                });
            }
            match format {
                FloatSuffixFormat::BinaryInterchange => {
                    if width == 16 {
                        if target == Target::I686UnknownLinuxGnu {
                            return Err(Error::new(offset, "the f16 floating literal suffix is unavailable for _Float16 on i686 GNU Linux"));
                        }
                        return Ok(FloatKind::float16());
                    }
                },
                _ => {},
            }
            Err(Error::new(offset, "extended floating literal format is unsupported"))
        },
    }
}

/// The rank of a floating type in mixed arithmetic. `_Float16` ranks above
/// `__bf16`; at equal precision GNU prefers interchange types, then standard
/// types, then extended types.
pub open spec fn float_rank(kind: FloatKind) -> Option<u8> {
    match kind {
        FloatKind::BFloat16 => Some(0u8),
        FloatKind::Float => Some(2u8),
        FloatKind::Double => Some(5u8),
        FloatKind::LongDouble => Some(8u8),
        FloatKind::Extended { format, width } => match format {
            ExtendedFloatFormat::BinaryInterchange => if width == 16 {
                Some(1u8)
            } else if width == 32 {
                Some(3u8)
            } else if width == 64 {
                Some(6u8)
            } else if width == 128 {
                Some(9u8)
            } else {
                None
            },
            ExtendedFloatFormat::BinaryExtended => if width == 32 {
                Some(4u8)
            } else if width == 64 {
                Some(7u8)
            } else {
                None
            },
            _ => None,
        },
    }
}

/// The rank of a floating type in mixed arithmetic, when it has one.
fn rank(kind: FloatKind) -> (r: Option<u8>)
    ensures
        r == float_rank(kind),
{
    match kind {
        FloatKind::BFloat16 => Some(0),
        FloatKind::Float => Some(2),
        FloatKind::Double => Some(5),
        FloatKind::LongDouble => Some(8),
        FloatKind::Extended { format: ExtendedFloatFormat::BinaryInterchange, width } => {
            if width == 16 {
                Some(1)
            } else if width == 32 {
                Some(3)
            } else if width == 64 {
                Some(6)
            } else if width == 128 {
                Some(9)
            } else {
                None
            }
        },
        FloatKind::Extended { format: ExtendedFloatFormat::BinaryExtended, width } => {
            if width == 32 {
                Some(4)
            } else if width == 64 {
                Some(7)
            } else {
                None
            }
        },
        _ => None,
    }
}

/// The common nominal floating type of two operands, each of which may be
/// absent (an integer operand); None when an operand has no rank.
pub open spec fn common_kind_spec(left: Option<FloatKind>, right: Option<FloatKind>) -> Option<Option<FloatKind>> {
    match (left, right) {
        (None, None) => Some(None),
        (Some(k), None) | (None, Some(k)) => if float_rank(k) is Some {
            Some(Some(k))
        } else {
            None
        },
        (Some(l), Some(r)) => if float_rank(l) is Some && float_rank(r) is Some {
            Some(
                Some(
                    if float_rank(l).unwrap() >= float_rank(r).unwrap() {
                        l
                    } else {
                        r
                    },
                ),
            )
        } else {
            None
        },
    }
}

/// Selects the common nominal floating type before any integer promotion.
pub fn common_kind(left: Option<FloatKind>, right: Option<FloatKind>, offset: usize) -> (r: Result<Option<FloatKind>, Error>)
    ensures
        match r {
            Ok(k) => common_kind_spec(left, right) == Some(k),
            Err(_) => common_kind_spec(left, right) is None,
        },
{
    match (left, right) {
        (None, None) => Ok(None),
        (Some(kind), None) | (None, Some(kind)) => {
            if rank(kind).is_none() {
                return Err(Error::new(offset, "extended floating arithmetic is unsupported"));
            }
            Ok(Some(kind))
        },
        (Some(l), Some(r)) => {
            match (rank(l), rank(r)) {
                (Some(a), Some(b)) => Ok(Some(if a >= b { l } else { r })),
                _ => Err(Error::new(offset, "extended floating arithmetic is unsupported")),
            }
        },
    }
}

/// Each ranked floating type has its own rank.
proof fn lemma_rank_injective(a: FloatKind, b: FloatKind)
    requires
        float_rank(a) is Some,
        float_rank(a) == float_rank(b),
    ensures
        a == b,
{
}

/// The common type does not depend on operand order.
pub proof fn lemma_common_kind_commutes(left: Option<FloatKind>, right: Option<FloatKind>)
    ensures
        common_kind_spec(left, right) == common_kind_spec(right, left),
{
    if let (Some(l), Some(r)) = (left, right) {
        if float_rank(l) is Some && float_rank(r) is Some && float_rank(l) == float_rank(r) {
            lemma_rank_injective(l, r);
        }
    }
}

/// The common type of a ranked type with itself, or with an integer operand, is that type.
pub proof fn lemma_common_kind_identity(kind: FloatKind)
    requires
        float_rank(kind) is Some,
    ensures
        common_kind_spec(Some(kind), Some(kind)) == Some(Some(kind)),
        common_kind_spec(Some(kind), None) == Some(Some(kind)),
{
}

/// GNU's predefined `__float128` typedef on x86 Linux.
pub open spec fn predefined_type_spec(name: Seq<char>, target: Target, compiler: Compiler) -> Option<FloatKind> {
    if name == "__float128"@ && (target == Target::I686UnknownLinuxGnu || target
        == Target::X86_64UnknownLinuxGnu || target == Target::X86_64UnknownLinuxMusl) && compiler
        == Compiler::Gnu {
        Some(FloatKind::Extended { format: ExtendedFloatFormat::BinaryInterchange, width: 128 })
    } else {
        None
    }
}

/// GNU's predefined typedef is shadowable and must not mutate already checked types.
pub fn predefined_type(name: &str, target: Target, compiler: Compiler) -> (r: Option<FloatKind>)
    ensures
        r == predefined_type_spec(name@, target, compiler),
{
    let x86_linux = match target {
        Target::I686UnknownLinuxGnu | Target::X86_64UnknownLinuxGnu
        | Target::X86_64UnknownLinuxMusl => true,
        _ => false,
    };
    let text = chars(name);
    if chars_equal(text.as_slice(), "__float128") && x86_linux && compiler == Compiler::Gnu {
        Some(FloatKind::float128())
    } else {
        None
    }
}

/// The floating type and complexity a GNU machine mode names: `SF`, `DF`,
/// `SC`, `DC`, and on Linux `TF`/`TC`. Ok(None) for other modes.
pub open spec fn machine_mode_spec(mode: Seq<char>, target: Target) -> Option<Option<(FloatKind, bool)>> {
    if mode == "SF"@ {
        Some(Some((FloatKind::Float, false)))
    } else if mode == "DF"@ {
        Some(Some((FloatKind::Double, false)))
    } else if mode == "SC"@ {
        Some(Some((FloatKind::Float, true)))
    } else if mode == "DC"@ {
        Some(Some((FloatKind::Double, true)))
    } else if mode == "TF"@ || mode == "TC"@ {
        let complex = mode == "TC"@;
        if target == Target::X86_64UnknownLinuxGnu || target == Target::X86_64UnknownLinuxMusl
            || target == Target::I686UnknownLinuxGnu {
            Some(Some((FloatKind::Extended { format: ExtendedFloatFormat::BinaryInterchange, width: 128 }, complex)))
        } else if target == Target::Aarch64UnknownLinuxGnu || target == Target::Aarch64UnknownLinuxMusl {
            Some(Some((FloatKind::LongDouble, complex)))
        } else {
            None
        }
    } else {
        Some(None)
    }
}

/// The floating type and complexity that a machine-mode attribute names.
pub fn floating_machine_mode(mode: &str, target: Target, offset: usize) -> (r: Result<Option<(FloatKind, bool)>, Error>)
    ensures
        match r {
            Ok(m) => machine_mode_spec(mode@, target) == Some(m),
            Err(_) => machine_mode_spec(mode@, target) is None,
        },
{
    let text = chars(mode);
    let m = text.as_slice();
    if chars_equal(m, "SF") {
        Ok(Some((FloatKind::Float, false)))
    } else if chars_equal(m, "DF") {
        Ok(Some((FloatKind::Double, false)))
    } else if chars_equal(m, "SC") {
        Ok(Some((FloatKind::Float, true)))
    } else if chars_equal(m, "DC") {
        Ok(Some((FloatKind::Double, true)))
    } else if chars_equal(m, "TF") || chars_equal(m, "TC") {
        let complex = chars_equal(m, "TC");
        match target {
            Target::X86_64UnknownLinuxGnu | Target::X86_64UnknownLinuxMusl
            | Target::I686UnknownLinuxGnu => Ok(Some((FloatKind::float128(), complex))),
            Target::Aarch64UnknownLinuxGnu | Target::Aarch64UnknownLinuxMusl => Ok(
                Some((FloatKind::LongDouble, complex)),
            ),
            _ => Err(Error::new(offset, "TF/TC floating machine modes are unavailable in this target profile")),
        }
    } else {
        Ok(None)
    }
}

/// Whether a machine mode may replace a source type: the source must be real
/// or complex floating, a complex mode needs a complex source, and GNU keeps a
/// complex source complex.
pub fn machine_mode_accepts(source: &TypeKind, complex: bool, compiler: Compiler) -> (r: bool)
    ensures
        r == ((source is Float || source is Complex) && !(complex && !(source is Complex)) && !(
        !complex && source is Complex && compiler == Compiler::Gnu)),
{
    let is_complex = match source {
        TypeKind::Complex(_) => true,
        _ => false,
    };
    let is_float = match source {
        TypeKind::Float(_) => true,
        _ => false,
    };
    (is_float || is_complex) && !(complex && !is_complex) && !(!complex && is_complex && compiler
        == Compiler::Gnu)
}

/// A predefined floating typedef name cannot name an object or function
/// with linkage.
pub fn require_linked_float_name(name: &str, target: Target, compiler: Compiler, offset: usize) -> (r: Result<(), Error>)
    ensures
        r is Ok <==> predefined_type_spec(name@, target, compiler) is None,
{
    if predefined_type(name, target, compiler).is_some() {
        return Err(Error::new(offset, "predefined typedef cannot name an object or function with linkage"));
    }
    Ok(())
}

} // verus!
