//! Alignment written on object and function declarations, separate from their C types.

use crate::arith::{is_power_of_two_upto, lemma_pow2_injective, lemma_u32_shl_one, power_of_two_exponent};
use crate::error::Error;
use crate::ir::DeclarationKind;
use crate::profile::Compiler;
use vstd::arithmetic::power2::{lemma_pow2_strictly_increases, pow2};
use vstd::bits::lemma_u32_pow2_no_overflow;
use vstd::prelude::*;

verus! {

/// The byte value an encoded exponent denotes: zero is absent, `e` is `2^(e-1)`.
pub open spec fn decode_spec(exponent: u8) -> Option<u32> {
    if exponent == 0 || exponent > 32 {
        None
    } else {
        Some(pow2((exponent - 1) as nat) as u32)
    }
}

/// The larger of two optional values, absence being the least.
pub open spec fn option_max(a: Option<u32>, b: Option<u32>) -> Option<u32> {
    match (a, b) {
        (None, b) => b,
        (a, None) => a,
        (Some(x), Some(y)) => Some(if x >= y { x } else { y }),
    }
}

/// Encodes a supported power-of-two byte count, zero meaning absent.
pub fn encode(bytes: u32) -> (r: Result<u8, Error>)
    ensures
        bytes == 0 ==> r == Ok::<u8, Error>(0),
        bytes != 0 ==> (r is Ok <==> is_power_of_two_upto(bytes as int, 28)),
        r matches Ok(e) ==> e <= 29 && decode_spec(e) == (if bytes == 0 {
            None
        } else {
            Some(bytes)
        }),
{
    if bytes == 0 {
        return Ok(0);
    }
    match power_of_two_exponent(bytes, 28) {
        Some(e) => {
            proof {
                lemma_u32_pow2_no_overflow(e as nat);
            }
            Ok((e + 1) as u8)
        },
        None => Err(Error::new(0, "declaration alignment must be a supported power of two")),
    }
}

/// Decodes an exponent produced by [`encode`].
pub fn decode(exponent: u8) -> (r: Option<u32>)
    ensures
        r == decode_spec(exponent),
        r matches Some(v) ==> v != 0,
{
    if exponent == 0 || exponent > 32 {
        None
    } else {
        proof {
            lemma_u32_shl_one((exponent - 1) as u32);
            vstd::arithmetic::power2::lemma_pow2_pos((exponent - 1) as nat);
        }
        Some(1u32 << ((exponent - 1) as u32))
    }
}

/// Decoding is monotone: a larger exponent never denotes a smaller value.
pub proof fn lemma_decode_monotone(a: u8, b: u8)
    requires
        a <= b <= 32,
    ensures
        option_max(decode_spec(a), decode_spec(b)) == decode_spec(b),
{
    if a != 0 && a < b {
        lemma_pow2_strictly_increases((a - 1) as nat, (b - 1) as nat);
        lemma_u32_pow2_no_overflow((b - 1) as nat);
    }
}

/// The larger of two encodings decodes to the larger value.
pub proof fn lemma_max_decodes(a: u8, b: u8)
    requires
        a <= 32 && b <= 32,
    ensures
        decode_spec(if a >= b {
            a
        } else {
            b
        }) == option_max(decode_spec(a), decode_spec(b)),
{
    if a <= b {
        lemma_decode_monotone(a, b);
    } else {
        lemma_decode_monotone(b, a);
    }
    if a != 0 && b != 0 {
        lemma_u32_pow2_no_overflow((a - 1) as nat);
        lemma_u32_pow2_no_overflow((b - 1) as nat);
        if a < b {
            lemma_pow2_strictly_increases((a - 1) as nat, (b - 1) as nat);
        } else if b < a {
            lemma_pow2_strictly_increases((b - 1) as nat, (a - 1) as nat);
        }
    }
}

fn max_u8(a: u8, b: u8) -> (r: u8)
    ensures
        r == if a >= b {
            a
        } else {
            b
        },
{
    if a >= b {
        a
    } else {
        b
    }
}

fn max_option(a: Option<u32>, b: Option<u32>) -> (r: Option<u32>)
    ensures
        r == option_max(a, b),
{
    match (a, b) {
        (None, b) => b,
        (a, None) => a,
        (Some(x), Some(y)) => Some(if x >= y {
            x
        } else {
            y
        }),
    }
}

/// Alignment attached to an object or function declaration, not its C type.
///
/// GNU and Microsoft attributes can decrease object alignment. C11 requirements
/// cannot, and Clang checks agreement between C11 redeclarations.
#[derive(Clone, Copy, Default, PartialEq, Eq, Debug, Structural)]
pub struct DeclarationAlignment {
    gnu: u8,
    msvc: u8,
    // The extra value 1 preserves a written _Alignas(0).
    c11: u8,
    effective: u8,
}

impl DeclarationAlignment {
    #[verifier::type_invariant]
    closed spec fn alignment_inv(self) -> bool {
        self.in_range()
    }

    /// The strongest GNU `aligned` attribute, in bytes.
    pub closed spec fn gnu_spec(self) -> Option<u32> {
        decode_spec(self.gnu)
    }

    /// The strongest Microsoft `__declspec(align)` attribute, in bytes.
    pub closed spec fn msvc_spec(self) -> Option<u32> {
        decode_spec(self.msvc)
    }

    /// The strongest written C11 requirement, including an explicit zero.
    pub closed spec fn c11_spec(self) -> Option<u32> {
        if self.c11 == 0 {
            None
        } else {
            Some(
                match decode_spec((self.c11 - 1) as u8) {
                    Some(v) => v,
                    None => 0,
                },
            )
        }
    }

    /// Effective alignment after declaration merging.
    pub closed spec fn effective_spec(self) -> Option<u32> {
        decode_spec(self.effective)
    }

    /// The stored encodings are within the supported ranges.
    pub closed spec fn in_range(self) -> bool {
        self.gnu <= 29 && self.msvc <= 14 && self.c11 <= 30 && self.effective <= 29
    }

    /// The greatest nonzero explicit alignment.
    pub open spec fn explicit_spec(self) -> Option<u32> {
        option_max(
            option_max(self.gnu_spec(), self.msvc_spec()),
            match self.c11_spec() {
                Some(v) => if v == 0 {
                    None
                } else {
                    Some(v)
                },
                None => None,
            },
        )
    }

    /// No alignment at all.
    pub fn empty() -> (r: Self)
        ensures
            r.gnu_spec() is None && r.msvc_spec() is None && r.c11_spec() is None
                && r.effective_spec() is None,
    {
        DeclarationAlignment { gnu: 0, msvc: 0, c11: 0, effective: 0 }
    }

    /// Creates declaration annotations from byte values. GNU zero is ignored;
    /// C11 zero remains explicit for redeclaration constraints.
    pub fn new(gnu: Option<u32>, c11: Option<u32>) -> (r: Result<Self, Error>)
        ensures
            r is Ok <==> (match gnu {
                Some(g) => g == 0 || is_power_of_two_upto(g as int, 28),
                None => true,
            }) && (match c11 {
                Some(c) => c == 0 || is_power_of_two_upto(c as int, 28),
                None => true,
            }),
            r matches Ok(a) ==> {
                &&& a.gnu_spec() == (match gnu {
                    Some(g) => if g == 0 {
                        None
                    } else {
                        Some(g)
                    },
                    None => None,
                })
                &&& a.c11_spec() == c11
                &&& a.msvc_spec() is None
                &&& a.effective_spec() is None
            },
    {
        let g = match gnu {
            Some(v) => v,
            None => 0,
        };
        let gnu = encode(g)?;
        let c11 = match c11 {
            Some(value) => {
                let e = encode(value)?;
                e + 1
            },
            None => 0,
        };
        Ok(DeclarationAlignment { gnu, msvc: 0, c11, effective: 0 })
    }

    /// Adds a Microsoft alignment while preserving its spelling separately.
    pub fn with_msvc(self, bytes: u32) -> (r: Result<Self, Error>)
        ensures
            r is Ok <==> is_power_of_two_upto(bytes as int, 13),
            r matches Ok(a) ==> {
                &&& a.msvc_spec() == option_max(self.msvc_spec(), Some(bytes))
                &&& a.gnu_spec() == self.gnu_spec()
                &&& a.c11_spec() == self.c11_spec()
                &&& a.effective_spec() == self.effective_spec()
            },
    {
        match power_of_two_exponent(bytes, 13) {
            None => Err(
                Error::new(0, "Microsoft alignment must be a power of two from 1 through 8192 bytes"),
            ),
            Some(e) => {
                proof {
                    lemma_u32_pow2_no_overflow(e as nat);
                    use_type_invariant(&self);
                }
                let encoded = (e + 1) as u8;
                proof {
                    if self.msvc <= 32 {
                        if self.msvc <= encoded {
                            lemma_decode_monotone(self.msvc, encoded);
                        } else {
                            lemma_decode_monotone(encoded, self.msvc);
                        }
                    }
                }
                let mut result = self;
                result.msvc = max_u8(self.msvc, encoded);
                Ok(result)
            },
        }
    }

    /// The strongest Microsoft `__declspec(align)` attribute, in bytes.
    pub fn msvc(self) -> (r: Option<u32>)
        ensures
            r == self.msvc_spec(),
    {
        decode(self.msvc)
    }

    /// The strongest GNU `aligned` attribute, in bytes.
    pub fn gnu(self) -> (r: Option<u32>)
        ensures
            r == self.gnu_spec(),
    {
        decode(self.gnu)
    }

    /// The strongest written C11 requirement, including explicit zero.
    pub fn c11(self) -> (r: Option<u32>)
        ensures
            r == self.c11_spec(),
    {
        if self.c11 == 0 {
            None
        } else {
            match decode(self.c11 - 1) {
                Some(v) => Some(v),
                None => Some(0),
            }
        }
    }

    /// Effective object, parameter or function alignment after declaration merging.
    pub fn effective(self) -> (r: Option<u32>)
        ensures
            r == self.effective_spec(),
    {
        decode(self.effective)
    }

    /// No written or inherited alignment fact.
    pub open spec fn is_empty_spec(self) -> bool {
        self.gnu_spec() is None && self.msvc_spec() is None && self.c11_spec() is None
            && self.effective_spec() is None
    }

    /// Whether this declaration has no written or inherited alignment facts.
    pub fn is_empty(&self) -> (r: bool)
        ensures
            r == self.is_empty_spec(),
    {
        proof {
            use_type_invariant(self);
        }
        self.gnu == 0 && self.msvc == 0 && self.c11 == 0 && self.effective == 0
    }

    /// The greatest nonzero explicit alignment, before the natural minimum.
    pub fn explicit(self) -> (r: Option<u32>)
        ensures
            r == self.explicit_spec(),
    {
        let c11 = match self.c11() {
            Some(v) => if v == 0 {
                None
            } else {
                Some(v)
            },
            None => None,
        };
        max_option(max_option(self.gnu(), self.msvc()), c11)
    }

    /// Merges two declarations' annotations, keeping the strongest of each kind.
    pub fn combined(self, other: Self) -> (r: Self)
        ensures
            r.gnu_spec() == option_max(self.gnu_spec(), other.gnu_spec()),
            r.msvc_spec() == option_max(self.msvc_spec(), other.msvc_spec()),
            r.c11_spec() == option_max(self.c11_spec(), other.c11_spec()),
            r.effective_spec() == option_max(self.effective_spec(), other.effective_spec()),
    {
        proof {
            use_type_invariant(&self);
            use_type_invariant(&other);
            lemma_max_decodes(self.gnu, other.gnu);
            lemma_max_decodes(self.msvc, other.msvc);
            lemma_max_decodes(self.effective, other.effective);
            if self.c11 != 0 && other.c11 != 0 {
                lemma_max_decodes((self.c11 - 1) as u8, (other.c11 - 1) as u8);
            }
        }
        DeclarationAlignment {
            gnu: max_u8(self.gnu, other.gnu),
            msvc: max_u8(self.msvc, other.msvc),
            c11: max_u8(self.c11, other.c11),
            effective: max_u8(self.effective, other.effective),
        }
    }

    /// Records the effective alignment, in bytes, after declaration merging.
    pub fn set_effective(&mut self, value: u64, offset: usize) -> (r: Result<(), Error>)
        ensures
            r is Ok <==> value <= u32::MAX && (value == 0 || is_power_of_two_upto(value as int, 28)),
            r is Ok ==> final(self).effective_spec() == (if value == 0 {
                None
            } else {
                Some(value as u32)
            }),
            r is Ok ==> final(self).gnu_spec() == old(self).gnu_spec() && final(self).msvc_spec()
                == old(self).msvc_spec() && final(self).c11_spec() == old(self).c11_spec(),
            r is Err ==> *final(self) == *old(self),
            r matches Err(e) ==> e.offset == offset,
    {
        proof {
            use_type_invariant(&*self);
        }
        if value > u32::MAX as u64 {
            return Err(Error::new(offset, "declaration alignment exceeds the supported range"));
        }
        match encode(value as u32) {
            Ok(e) => {
                self.effective = e;
                Ok(())
            },
            Err(_) => Err(
                Error::new(offset, "declaration alignment must be a supported power of two"),
            ),
        }
    }

    /// Rejects encodings outside the supported ranges; every value built by
    /// this library is within them.
    pub fn validate(self) -> (r: Result<(), Error>)
        ensures
            r is Ok,
    {
        proof {
            use_type_invariant(&self);
        }
        if self.gnu > 29 || self.msvc > 14 || self.c11 > 30 || self.effective > 29 {
            return Err(Error::new(0, "declaration alignment exceeds the supported range"));
        }
        Ok(())
    }

    /// The object alignment these annotations give a declaration whose type has
    /// the `natural` alignment: the effective value if recorded; otherwise the
    /// greatest explicit value, which C11 keeps from falling below `natural`.
    pub open spec fn object_spec(self, natural: u64) -> u64 {
        match self.effective_spec() {
            Some(e) => e as u64,
            None => {
                let explicit = match self.explicit_spec() {
                    Some(v) => v as u64,
                    None => natural,
                };
                if self.c11_spec() matches Some(v) && v != 0 {
                    if explicit >= natural {
                        explicit
                    } else {
                        natural
                    }
                } else {
                    explicit
                }
            },
        }
    }

    /// The object alignment for a declaration whose type has `natural` alignment.
    pub fn object(self, natural: u64) -> (r: Result<u64, Error>)
        ensures
            r == Ok::<u64, Error>(self.object_spec(natural)),
    {
        self.validate()?;
        if let Some(effective) = self.effective() {
            return Ok(effective as u64);
        }
        let explicit = match self.explicit() {
            Some(v) => v as u64,
            None => natural,
        };
        let c11_nonzero = match self.c11() {
            Some(v) => v != 0,
            None => false,
        };
        Ok(
            if c11_nonzero {
                if explicit >= natural {
                    explicit
                } else {
                    natural
                }
            } else {
                explicit
            },
        )
    }
}

/// What a declaration's alignment annotation is attached to.
#[derive(Clone, Copy, Debug, PartialEq, Eq, Structural)]
pub enum AlignmentSubject {
    Object { register: bool },
    Function,
    Parameter,
    Field { bitfield: bool },
}

/// The larger of two optional `u64` values, absence being the least.
pub open spec fn option_max64(a: Option<u64>, b: Option<u64>) -> Option<u64> {
    match (a, b) {
        (None, b) => b,
        (a, None) => a,
        (Some(x), Some(y)) => Some(if x >= y { x } else { y }),
    }
}

fn max_option64(a: Option<u64>, b: Option<u64>) -> (r: Option<u64>)
    ensures
        r == option_max64(a, b),
{
    match (a, b) {
        (None, b) => b,
        (a, None) => a,
        (Some(x), Some(y)) => Some(if x >= y {
            x
        } else {
            y
        }),
    }
}

/// The low 32 bits of an optional attribute value, as the attribute parser keeps them.
pub open spec fn low32(v: Option<u64>) -> Option<u32> {
    match v {
        Some(x) => Some(x as u32),
        None => None,
    }
}

fn low32_exec(v: Option<u64>) -> (r: Option<u32>)
    ensures
        r == low32(v),
{
    match v {
        Some(x) => Some(x as u32),
        None => None,
    }
}

/// A byte count `encode` accepts.
pub open spec fn encodable(bytes: u32) -> bool {
    bytes == 0 || is_power_of_two_upto(bytes as int, 28)
}

/// A value `set_effective` accepts.
pub open spec fn effective_encodable(value: u64) -> bool {
    value <= u32::MAX && (value == 0 || is_power_of_two_upto(value as int, 28))
}

/// Whether `_Alignas` may stand on this subject.
pub open spec fn c11_allowed(subject: AlignmentSubject) -> bool {
    subject == (AlignmentSubject::Object { register: false }) || subject == (AlignmentSubject::Field {
        bitfield: false,
    })
}

/// The alignment `_Alignas` would request, for the reduction check.
pub open spec fn requested_c11(gnu: Option<u64>, msvc: Option<u64>, c11: Option<u64>, compiler: Compiler) -> u64 {
    if compiler is Clang {
        match option_max64(option_max64(c11, gnu), msvc) {
            Some(v) => v,
            None => 0,
        }
    } else {
        match c11 {
            Some(v) => v,
            None => 0,
        }
    }
}

/// Whether `_Alignas` would illegally reduce a natural alignment.
pub open spec fn reduces_natural(
    gnu: Option<u64>,
    msvc: Option<u64>,
    c11: Option<u64>,
    compiler: Compiler,
    complete_object: bool,
    natural: Option<u64>,
) -> bool {
    &&& c11 is Some
    &&& (compiler is Gnu || complete_object)
    &&& natural matches Some(n) && {
        let requested = requested_c11(gnu, msvc, c11, compiler);
        requested < n && (requested != 0 || (compiler is Clang && option_max64(gnu, msvc) is Some))
    }
}

/// The object alignment of freshly written annotations, before merging.
pub open spec fn written_object(gnu: Option<u32>, msvc: Option<u32>, c11: Option<u32>, natural: u64) -> u64 {
    let c11_nonzero = match c11 {
        Some(v) => if v == 0 {
            None
        } else {
            Some(v)
        },
        None => None,
    };
    let explicit = match option_max(option_max(gnu, msvc), c11_nonzero) {
        Some(v) => v as u64,
        None => natural,
    };
    if c11 matches Some(v) && v != 0 {
        if explicit >= natural {
            explicit
        } else {
            natural
        }
    } else {
        explicit
    }
}

/// Checks the alignment written on one declaration and records its effective
/// value. `natural` is the declared type's natural alignment, when it has one,
/// and `complete_object` whether that type is a complete object type.
pub fn check_declaration_alignment(
    gnu: Option<u64>,
    msvc: Option<u64>,
    c11: Option<u64>,
    subject: AlignmentSubject,
    compiler: Compiler,
    complete_object: bool,
    natural: Option<u64>,
    offset: usize,
) -> (r: Result<DeclarationAlignment, Error>)
    ensures
        ({
            let g = low32(gnu);
            let c = low32(c11);
            let m = low32(msvc);
            let gnu_value = match g {
                Some(x) => if x == 0 {
                    None
                } else {
                    Some(x)
                },
                None => None,
            };
            let written_ok = (g matches Some(x) ==> encodable(x)) && (c matches Some(x) ==> encodable(
                x,
            )) && (m matches Some(x) ==> is_power_of_two_upto(x as int, 13));
            let placement_ok = !(c11 is Some && !c11_allowed(subject)) && !(gnu is Some && subject
                is Parameter && compiler is Gnu);
            let no_reduction = !reduces_natural(gnu, msvc, c11, compiler, complete_object, natural);
            let records = (gnu_value is Some || c is Some || m is Some) && !(subject is Field)
                && natural is Some;
            let value = written_object(gnu_value, m, c, natural->Some_0);
            &&& r is Ok <==> written_ok && placement_ok && no_reduction && (records
                ==> effective_encodable(value))
            &&& r matches Ok(a) ==> {
                &&& a.gnu_spec() == gnu_value
                &&& a.c11_spec() == c
                &&& a.msvc_spec() == m
                &&& a.effective_spec() == (if records && value != 0 {
                    Some(value as u32)
                } else {
                    None
                })
            }
        }),
{
    let mut alignment = match DeclarationAlignment::new(low32_exec(gnu), low32_exec(c11)) {
        Ok(a) => a,
        Err(error) => return Err(Error { message: error.message, offset }),
    };
    if let Some(value) = msvc {
        alignment = alignment.with_msvc(value as u32)?;
    }
    alignment.validate()?;
    let c11_allowed = match subject {
        AlignmentSubject::Object { register: false } | AlignmentSubject::Field { bitfield: false } => true,
        _ => false,
    };
    if c11.is_some() && !c11_allowed {
        return Err(Error::new(offset, "_Alignas requires an object without register storage"));
    }
    let parameter = match subject {
        AlignmentSubject::Parameter => true,
        _ => false,
    };
    let gnu_compiler = match compiler {
        Compiler::Gnu => true,
        Compiler::Clang => false,
    };
    if gnu.is_some() && parameter && gnu_compiler {
        return Err(Error::new(offset, "GNU alignment attributes are not permitted on parameters"));
    }
    if c11.is_some() && (gnu_compiler || complete_object) {
        if let Some(n) = natural {
            let requested = if !gnu_compiler {
                match max_option64(max_option64(c11, gnu), msvc) {
                    Some(v) => v,
                    None => 0,
                }
            } else {
                match c11 {
                    Some(v) => v,
                    None => 0,
                }
            };
            if requested < n && (requested != 0 || (!gnu_compiler && max_option64(gnu, msvc).is_some())) {
                return Err(Error::new(offset, "_Alignas cannot reduce the object's natural alignment"));
            }
        }
    }
    let field = match subject {
        AlignmentSubject::Field { .. } => true,
        _ => false,
    };
    if !alignment.is_empty() && !field {
        if let Some(n) = natural {
            let value = alignment.object(n)?;
            alignment.set_effective(value, offset)?;
        }
    }
    Ok(alignment)
}

/// Merges a redeclaration's alignment into the previous one. `natural` is the
/// declared type's natural alignment, when it has one.
pub fn merge_declaration_alignment(
    previous: DeclarationAlignment,
    written: DeclarationAlignment,
    previous_definition: bool,
    definition: bool,
    compiler: Compiler,
    natural: Option<u64>,
    offset: usize,
) -> (r: Result<DeclarationAlignment, Error>)
    ensures
        ({
            let both_empty = previous.is_empty_spec() && written.is_empty_spec();
            let c11_conflict = compiler is Clang && previous.c11_spec() is Some && written.c11_spec()
                is Some && (natural matches Some(n) && previous.object_spec(n) != written.object_spec(n));
            let c11_misplaced = compiler is Clang && ((definition && previous.c11_spec() is Some
                && written.c11_spec() is None) || (previous_definition && previous.c11_spec() is None
                && written.c11_spec() is Some));
            let merged = if previous.object_spec(natural->Some_0) >= written.object_spec(
                natural->Some_0,
            ) {
                previous.object_spec(natural->Some_0)
            } else {
                written.object_spec(natural->Some_0)
            };
            let gnu_effective = compiler is Gnu && natural is Some;
            &&& both_empty ==> r == Ok::<DeclarationAlignment, Error>(written)
            &&& !both_empty ==> (r is Ok <==> !c11_conflict && !c11_misplaced && (gnu_effective
                ==> effective_encodable(merged)))
            &&& !both_empty ==> (r matches Ok(a) ==> {
                &&& a.gnu_spec() == option_max(previous.gnu_spec(), written.gnu_spec())
                &&& a.msvc_spec() == option_max(previous.msvc_spec(), written.msvc_spec())
                &&& a.c11_spec() == option_max(previous.c11_spec(), written.c11_spec())
                &&& a.effective_spec() == (if gnu_effective {
                    if merged == 0 {
                        None
                    } else {
                        Some(merged as u32)
                    }
                } else {
                    option_max(previous.effective_spec(), written.effective_spec())
                })
            })
        }),
{
    if previous.is_empty() && written.is_empty() {
        return Ok(written);
    }
    let clang = match compiler {
        Compiler::Clang => true,
        Compiler::Gnu => false,
    };
    if clang {
        if previous.c11().is_some() && written.c11().is_some() {
            if let Some(n) = natural {
                if previous.object(n)? != written.object(n)? {
                    return Err(Error::new(offset, "redeclaration has a different _Alignas requirement"));
                }
            }
        }
        if (definition && previous.c11().is_some() && written.c11().is_none()) || (previous_definition
            && previous.c11().is_none() && written.c11().is_some()) {
            return Err(Error::new(offset, "_Alignas must be specified on the object definition"));
        }
    }
    let mut combined = previous.combined(written);
    if !clang {
        if let Some(n) = natural {
            let a = previous.object(n)?;
            let b = written.object(n)?;
            combined.set_effective(if a >= b { a } else { b }, offset)?;
        }
    }
    Ok(combined)
}

/// An object declaration's alignment, given its type's `natural` alignment.
/// A nonzero `_Alignas` may not request less than the natural alignment.
pub fn declaration_alignment(
    kind: DeclarationKind,
    alignment: DeclarationAlignment,
    natural: u64,
    compiler: Compiler,
) -> (r: Result<u64, Error>)
    ensures
        ({
            let gnu = match alignment.gnu_spec() {
                Some(g) => g,
                None => 0,
            };
            let too_small = (alignment.c11_spec() matches Some(c) && c != 0 && (if compiler is Clang {
                if c >= gnu {
                    c
                } else {
                    gnu
                }
            } else {
                c
            }) < natural);
            &&& r is Ok <==> kind == DeclarationKind::Variable && !too_small
            &&& r matches Ok(v) ==> v == alignment.object_spec(natural)
            &&& kind != DeclarationKind::Variable ==> (r matches Err(e) && e.message@
                == "object alignment requires an object declaration"@)
            &&& kind == DeclarationKind::Variable && too_small ==> (r matches Err(e) && e.message@
                == "_Alignas cannot reduce the object's natural alignment"@)
        }),
{
    match kind {
        DeclarationKind::Variable => {},
        _ => return Err(Error::new(0, "object alignment requires an object declaration")),
    }
    alignment.validate()?;
    if let Some(c11) = alignment.c11() {
        if c11 != 0 {
            let requested = match compiler {
                Compiler::Clang => {
                    let g = match alignment.gnu() {
                        Some(g) => g,
                        None => 0,
                    };
                    if c11 >= g {
                        c11
                    } else {
                        g
                    }
                },
                Compiler::Gnu => c11,
            };
            if (requested as u64) < natural {
                return Err(Error::new(0, "_Alignas cannot reduce the object's natural alignment"));
            }
        }
    }
    alignment.object(natural)
}

/// The alignment a declaration has before any attribute: GCC's x86-64 Linux
/// functions are byte aligned and other functions four-byte aligned; arrays
/// and complete objects have their type's alignment `type_alignment`; other
/// declarations have none.
pub fn declaration_natural_alignment(
    is_function: bool,
    is_array: bool,
    complete: bool,
    type_alignment: u64,
    compiler: Compiler,
    target: crate::profile::Target,
) -> (r: Option<u64>)
    ensures
        r == if is_function {
            Some(if compiler == Compiler::Gnu && target == crate::profile::Target::X86_64UnknownLinuxGnu {
                1u64
            } else {
                4u64
            })
        } else if is_array || complete {
            Some(type_alignment)
        } else {
            None
        },
{
    if is_function {
        let gnu_x86 = match (compiler, target) {
            (Compiler::Gnu, crate::profile::Target::X86_64UnknownLinuxGnu) => true,
            _ => false,
        };
        return Some(if gnu_x86 { 1 } else { 4 });
    }
    if is_array || complete {
        Some(type_alignment)
    } else {
        None
    }
}

} // verus!
