//! Target-specific C types, declarations and integer values.

use crate::arith::{lemma_i128_as_u128, lemma_u128_as_i128, lemma_u128_bit, lemma_u128_low_mask, lemma_u128_shl_one};
use crate::error::Error;
use crate::profile::Target;
use crate::type_alignment::TypeAlignment;
use vstd::arithmetic::div_mod::{lemma_mod_breakdown, lemma_mod_multiples_vanish, lemma_small_mod};
use vstd::arithmetic::power2::{lemma2_to64, lemma2_to64_rest, lemma_pow2_adds, lemma_pow2_pos, lemma_pow2_strictly_increases, lemma_pow2_unfold, pow2};
use vstd::prelude::*;

verus! {

/// Exact identity of a variable-length array type.
#[derive(Clone, Copy, Debug, PartialEq, Eq, Hash, Structural)]
pub struct VariableArrayId(pub u64);

/// A qualified C type. Typedefs and tags retain their declaration identities.
#[derive(Debug, PartialEq, Eq, Hash)]
pub struct Type {
    /// Typedef alignment and its owner-local ancestry.
    pub alignment: TypeAlignment,
    pub kind: TypeKind,
    pub qualifiers: Qualifiers,
}

impl Type {
    /// Constructs an unqualified type.
    pub fn new(kind: TypeKind) -> (r: Self)
        ensures
            r.kind == kind,
            r.qualifiers == Qualifiers::none_spec(),
            r.alignment.bytes_spec() is None,
            r.alignment.origin_spec() is None,
    {
        Type { alignment: TypeAlignment::none(), kind, qualifiers: Qualifiers::none() }
    }

    /// Constructs a pointer to this type, preserving the pointee's qualifiers.
    pub fn pointer(self) -> (r: Self)
        ensures
            r.kind == TypeKind::Pointer(Box::new(self)),
            r.qualifiers == Qualifiers::none_spec(),
            r.alignment.bytes_spec() is None,
            r.alignment.origin_spec() is None,
    {
        Self::new(TypeKind::Pointer(Box::new(self)))
    }
}

/// The five qualifiers a C type can carry, as plain facts.
pub struct QualifierSet {
    pub is_const: bool,
    pub is_volatile: bool,
    pub is_restrict: bool,
    pub unaligned: bool,
    pub msvc_ptr32: bool,
}

/// Top-level C qualifiers, with both Microsoft qualifiers kept in one byte.
#[derive(Clone, Copy, Debug, PartialEq, Eq, Hash, Structural)]
pub struct Qualifiers {
    pub is_const: bool,
    pub is_volatile: bool,
    pub is_restrict: bool,
    microsoft_flags: u8,
}

impl View for Qualifiers {
    type V = QualifierSet;

    closed spec fn view(&self) -> QualifierSet {
        QualifierSet {
            is_const: self.is_const,
            is_volatile: self.is_volatile,
            is_restrict: self.is_restrict,
            unaligned: self.microsoft_flags % 2 == 1,
            msvc_ptr32: (self.microsoft_flags / 2) % 2 == 1,
        }
    }
}

impl Qualifiers {
    /// No qualifier at all.
    pub closed spec fn none_spec() -> Self {
        Qualifiers { is_const: false, is_volatile: false, is_restrict: false, microsoft_flags: 0 }
    }

    /// No qualifier at all.
    pub fn none() -> (r: Self)
        ensures
            r == Self::none_spec(),
            !r@.is_const && !r@.is_volatile && !r@.is_restrict && !r@.unaligned && !r@.msvc_ptr32,
    {
        Qualifiers { is_const: false, is_volatile: false, is_restrict: false, microsoft_flags: 0 }
    }

    /// Microsoft unaligned accesses retain type identity without packing fields.
    pub fn is_unaligned(self) -> (r: bool)
        ensures
            r == self@.unaligned,
    {
        let flags = self.microsoft_flags;
        assert(flags & 1 != 0 <==> flags % 2 == 1) by (bit_vector);
        flags & 1 != 0
    }

    /// Sets the Microsoft unaligned qualifier without changing pointer width.
    pub fn set_unaligned(&mut self, enabled: bool)
        ensures
            final(self)@ == (QualifierSet { unaligned: enabled, ..old(self)@ }),
    {
        self.set_microsoft_flag(1, enabled);
    }

    /// Microsoft `__ptr32` retains distinct pointer identity on Windows.
    pub fn is_msvc_ptr32(self) -> (r: bool)
        ensures
            r == self@.msvc_ptr32,
    {
        let flags = self.microsoft_flags;
        assert(flags & 2 != 0 <==> (flags / 2) % 2 == 1) by (bit_vector);
        flags & 2 != 0
    }

    /// Sets the Microsoft pointer-width qualifier; layout depends on the target.
    pub fn set_msvc_ptr32(&mut self, enabled: bool)
        ensures
            final(self)@ == (QualifierSet { msvc_ptr32: enabled, ..old(self)@ }),
    {
        self.set_microsoft_flag(2, enabled);
    }

    fn set_microsoft_flag(&mut self, flag: u8, enabled: bool)
        requires
            flag == 1 || flag == 2,
        ensures
            flag == 1 ==> final(self)@ == (QualifierSet { unaligned: enabled, ..old(self)@ }),
            flag == 2 ==> final(self)@ == (QualifierSet { msvc_ptr32: enabled, ..old(self)@ }),
            final(self).microsoft_flags / 4 == old(self).microsoft_flags / 4,
    {
        let flags = self.microsoft_flags;
        if enabled {
            assert(flag == 1 ==> (flags | flag) % 2 == 1 && ((flags | flag) / 2) % 2 == (flags / 2)
                % 2 && (flags | flag) / 4 == flags / 4) by (bit_vector);
            assert(flag == 2 ==> ((flags | flag) / 2) % 2 == 1 && (flags | flag) % 2 == flags % 2
                && (flags | flag) / 4 == flags / 4) by (bit_vector);
            self.microsoft_flags = flags | flag;
        } else {
            assert(flag == 1 ==> (flags & !flag) % 2 == 0 && ((flags & !flag) / 2) % 2 == (flags
                / 2) % 2 && (flags & !flag) / 4 == flags / 4) by (bit_vector);
            assert(flag == 2 ==> ((flags & !flag) / 2) % 2 == 0 && (flags & !flag) % 2 == flags
                % 2 && (flags & !flag) / 4 == flags / 4) by (bit_vector);
            self.microsoft_flags = flags & !flag;
        }
    }

    /// The set with `const` added.
    pub fn with_const(self) -> (r: Self)
        ensures
            r@ == (QualifierSet { is_const: true, ..self@ }),
    {
        Qualifiers { is_const: true, ..self }
    }

    /// The union of two qualifier sets.
    pub fn union(self, other: Self) -> (r: Self)
        ensures
            r@.is_const == (self@.is_const || other@.is_const),
            r@.is_volatile == (self@.is_volatile || other@.is_volatile),
            r@.is_restrict == (self@.is_restrict || other@.is_restrict),
            r@.unaligned == (self@.unaligned || other@.unaligned),
            r@.msvc_ptr32 == (self@.msvc_ptr32 || other@.msvc_ptr32),
    {
        let mut result = self;
        result.is_const = self.is_const || other.is_const;
        result.is_volatile = self.is_volatile || other.is_volatile;
        result.is_restrict = self.is_restrict || other.is_restrict;
        result.set_unaligned(self.is_unaligned() || other.is_unaligned());
        result.set_msvc_ptr32(self.is_msvc_ptr32() || other.is_msvc_ptr32());
        result
    }

    /// The qualifiers an object-type comparison keeps, one bit each:
    /// `const`, `volatile`, `restrict` and `__unaligned`.
    pub open spec fn comparison_mask(self) -> u8 {
        (if self@.is_const { 1u8 } else { 0u8 }) | (if self@.is_volatile { 2u8 } else { 0u8 }) | (if self@.is_restrict {
            4u8
        } else {
            0u8
        }) | (if self@.unaligned { 8u8 } else { 0u8 })
    }

    /// The qualifiers an object-type comparison keeps, as bits.
    pub fn comparison_bits(self) -> (r: u8)
        ensures
            r == self.comparison_mask(),
    {
        let c: u8 = if self.is_const { 1 } else { 0 };
        let v: u8 = if self.is_volatile { 2 } else { 0 };
        let s: u8 = if self.is_restrict { 4 } else { 0 };
        let u: u8 = if self.is_unaligned() { 8 } else { 0 };
        c | v | s | u
    }

    /// Whether no qualifier is present.
    pub fn is_none(self) -> (r: bool)
        ensures
            r == (!self@.is_const && !self@.is_volatile && !self@.is_restrict && !self@.unaligned
                && !self@.msvc_ptr32),
    {
        !self.is_const && !self.is_volatile && !self.is_restrict && !self.is_unaligned()
            && !self.is_msvc_ptr32()
    }
}

#[derive(Debug, PartialEq, Eq, Hash)]
pub enum TypeKind {
    Void,
    Bool,
    Integer(IntegerKind),
    Float(FloatKind),
    /// A C complex scalar, with two components of the corresponding real type.
    Complex(FloatKind),
    Pointer(Box<Type>),
    /// C11 atomic object type.
    Atomic(Box<Type>),
    /// GNU fixed-size vector of unqualified integer or floating elements.
    Vector { element: Box<Type>, lanes: u64, kind: VectorKind },
    /// An opaque AArch64 SVE vector or predicate, with no fixed size or alignment.
    Sve(SveKind),
    Array { element: Box<Type>, length: Option<u64> },
    /// A complete array whose extent is determined at runtime.
    VariableArray { element: Box<Type>, identity: VariableArrayId },
    Function(Box<FunctionType>),
    Record(usize),
    Enum(usize),
    Typedef(String),
}

/// C identity of a fixed vector, independent of its element and lane layout.
#[derive(Clone, Copy, Debug, Default, PartialEq, Eq, Hash, Structural)]
pub enum VectorKind {
    #[default]
    Gnu,
    /// GCC's predefined AArch64 Advanced SIMD types.
    Neon,
}

impl VectorKind {
    /// Whether this is an ordinary GNU vector.
    pub fn is_gnu(&self) -> (r: bool)
        ensures
            r == (*self is Gnu),
    {
        match self {
            VectorKind::Gnu => true,
            VectorKind::Neon => false,
        }
    }
}

/// Sizeless SVE types available without a target vector-length assumption.
#[derive(Clone, Copy, Debug, PartialEq, Eq, Hash, Structural)]
pub enum SveKind {
    Float32,
    Float64,
    Predicate,
}

#[derive(Clone, Copy, Debug, PartialEq, Eq, Hash, Structural)]
pub enum IntegerKind {
    Char,
    SignedChar,
    UnsignedChar,
    Short,
    UnsignedShort,
    Int,
    UnsignedInt,
    Long,
    UnsignedLong,
    LongLong,
    UnsignedLongLong,
    Int128,
    UnsignedInt128,
}

#[derive(Clone, Copy, Debug, PartialEq, Eq, Hash, Structural)]
pub enum FloatKind {
    /// The distinct GNU/Clang bfloat16 type, with eight significant bits.
    BFloat16,
    Float,
    Double,
    LongDouble,
    Extended { format: ExtendedFloatFormat, width: usize },
}

/// The target encoding of a floating constant, without object padding.
#[derive(Clone, Copy, Debug, PartialEq, Eq, Structural)]
pub enum FloatingFormat {
    Binary16,
    BFloat16,
    Binary32,
    Binary64,
    X87,
    Binary128,
}

/// Whether `bits` lies in the low bits of `format`'s encoding: sixteen for the
/// half-precision formats, then thirty-two, sixty-four, eighty (x87) and 128.
pub open spec fn fits_encoding(bits: u128, format: FloatingFormat) -> bool {
    match format {
        FloatingFormat::Binary16 | FloatingFormat::BFloat16 => bits < 0x1_0000,
        FloatingFormat::Binary32 => bits < 0x1_0000_0000,
        FloatingFormat::Binary64 => bits < 0x1_0000_0000_0000_0000,
        FloatingFormat::X87 => bits < 0x1_0000_0000_0000_0000_0000,
        FloatingFormat::Binary128 => true,
    }
}

/// An owned C floating value in its target encoding.
#[derive(Clone, Copy, Debug, PartialEq, Eq, Structural)]
pub struct FloatingValue {
    pub(crate) kind: FloatKind,
    pub(crate) format: FloatingFormat,
    pub(crate) bits: u128,
}

impl FloatingValue {
    /// The encoding sits in the low bits of its format, without padding.
    #[verifier::type_invariant]
    spec fn encoded_in_format(self) -> bool {
        fits_encoding(self.bits, self.format)
    }

    /// The C type.
    pub closed spec fn kind_spec(self) -> FloatKind {
        self.kind
    }

    /// The target encoding.
    pub closed spec fn format_spec(self) -> FloatingFormat {
        self.format
    }

    /// The encoded bits.
    pub closed spec fn bits_spec(self) -> u128 {
        self.bits
    }

    /// Returns the C type, retaining `long double` even on binary64 targets.
    pub fn kind(self) -> (r: FloatKind)
        ensures
            r == self.kind_spec(),
    {
        self.kind
    }

    /// Returns the target encoding independently of the C type's storage padding.
    pub fn format(self) -> (r: FloatingFormat)
        ensures
            r == self.format_spec(),
    {
        self.format
    }

    /// Returns the encoding in the low bits, independent of target byte order.
    pub fn to_bits(self) -> (r: u128)
        ensures
            r == self.bits_spec(),
            fits_encoding(r, self.format_spec()),
    {
        proof {
            use_type_invariant(&self);
        }
        self.bits
    }
}

/// An owned complex constant with corresponding-real target encodings.
#[derive(Clone, Copy, Debug, PartialEq, Eq, Structural)]
pub struct ComplexValue {
    pub(crate) kind: FloatKind,
    pub(crate) format: FloatingFormat,
    pub(crate) real_bits: u128,
    pub(crate) imaginary_bits: u128,
}

impl ComplexValue {
    /// Both components sit in the low bits of the common format.
    #[verifier::type_invariant]
    spec fn components_in_format(self) -> bool {
        &&& fits_encoding(self.real_bits, self.format)
        &&& fits_encoding(self.imaginary_bits, self.format)
    }

    /// The common C type of both components.
    pub closed spec fn kind_spec(self) -> FloatKind {
        self.kind
    }

    /// The target encoding of both components.
    pub closed spec fn format_spec(self) -> FloatingFormat {
        self.format
    }

    /// The encoded real component.
    pub closed spec fn real_bits_spec(self) -> u128 {
        self.real_bits
    }

    /// The encoded imaginary component.
    pub closed spec fn imaginary_bits_spec(self) -> u128 {
        self.imaginary_bits
    }

    /// Returns the common C type of the two real components.
    pub fn kind(self) -> (r: FloatKind)
        ensures
            r == self.kind_spec(),
    {
        self.kind
    }

    /// Returns the target encoding of either component.
    pub fn format(self) -> (r: FloatingFormat)
        ensures
            r == self.format_spec(),
    {
        self.format
    }

    /// Returns the real component without changing its target representation.
    pub fn real_part(self) -> (r: FloatingValue)
        ensures
            r.kind_spec() == self.kind_spec() && r.format_spec() == self.format_spec()
                && r.bits_spec() == self.real_bits_spec(),
    {
        proof {
            use_type_invariant(&self);
        }
        FloatingValue { kind: self.kind, format: self.format, bits: self.real_bits }
    }

    /// Returns the imaginary component without changing its target representation.
    pub fn imaginary(self) -> (r: FloatingValue)
        ensures
            r.kind_spec() == self.kind_spec() && r.format_spec() == self.format_spec()
                && r.bits_spec() == self.imaginary_bits_spec(),
    {
        proof {
            use_type_invariant(&self);
        }
        FloatingValue { kind: self.kind, format: self.format, bits: self.imaginary_bits }
    }
}

/// The result of arithmetic constant evaluation.
#[derive(Clone, Copy, Debug, PartialEq, Eq, Structural)]
pub enum ArithmeticConstant {
    Integer(IntegerValue),
    Floating(FloatingValue),
    Complex(ComplexValue),
}

#[derive(Clone, Copy, Debug, PartialEq, Eq, Hash, Structural)]
pub enum ExtendedFloatFormat {
    BinaryInterchange,
    BinaryExtended,
    DecimalInterchange,
    DecimalExtended,
}

#[derive(Debug, PartialEq, Eq, Hash)]
pub struct FunctionType {
    /// Clang function-type promise from GNU `noreturn`, separate from C11 `_Noreturn`.
    pub noreturn: bool,
    /// Effective Clang parameter promises; absence means no such promises.
    pub parameter_contracts: Option<crate::noescape::ParameterContractsId>,
    pub return_type: Type,
    pub parameters: Vec<Parameter>,
    pub variadic: bool,
    /// False for the C11 non-prototype declaration `f()`.
    pub prototype: bool,
    pub calling_convention: CallingConvention,
}

#[derive(Clone, Copy, Debug, PartialEq, Eq, Hash, Structural)]
pub enum CallingConvention {
    /// The target's default C convention, with no explicit ABI attribute.
    C,
    /// An explicitly requested System V x86-64 convention.
    SysV64,
    /// An explicitly requested Microsoft x64 convention.
    Win64,
    /// Preserves the additional AArch64 Advanced SIMD registers.
    Aarch64Vector,
    /// Clang's explicit SVE register-preservation convention.
    Aarch64Sve,
}

/// The convention an explicit request denotes on a target: `None` when the
/// target does not support it, `C` when it is the target's default.
pub open spec fn convention_for_target(cc: CallingConvention, target: Target) -> Option<CallingConvention> {
    let aarch64_unix = target is Aarch64UnknownLinuxGnu || target is Aarch64UnknownLinuxMusl
        || target is Aarch64AppleDarwin;
    let x86_64_unix = target is X86_64UnknownLinuxGnu || target is X86_64UnknownLinuxMusl
        || target is X86_64AppleDarwin;
    match cc {
        CallingConvention::C => Some(CallingConvention::C),
        CallingConvention::Aarch64Vector | CallingConvention::Aarch64Sve => if aarch64_unix {
            Some(cc)
        } else {
            None
        },
        CallingConvention::SysV64 => if x86_64_unix {
            Some(CallingConvention::C)
        } else if target is X86_64PcWindowsMsvc {
            Some(cc)
        } else {
            None
        },
        CallingConvention::Win64 => if target is X86_64PcWindowsMsvc || target is Aarch64PcWindowsMsvc {
            Some(CallingConvention::C)
        } else if x86_64_unix {
            Some(cc)
        } else {
            None
        },
    }
}

impl CallingConvention {
    /// Normalizes an explicit convention that matches the target's default.
    pub fn for_target(self, target: Target) -> (r: Result<Self, Error>)
        ensures
            match convention_for_target(self, target) {
                Some(cc) => r == Ok::<Self, Error>(cc),
                None => r matches Err(e) && e.offset == 0 && e.message@
                    == "explicit calling convention is unsupported on this target"@,
            },
    {
        match (self, target) {
            (Self::C, _) => Ok(Self::C),
            (
                Self::Aarch64Vector | Self::Aarch64Sve,
                Target::Aarch64UnknownLinuxGnu | Target::Aarch64UnknownLinuxMusl
                | Target::Aarch64AppleDarwin,
            ) => Ok(self),
            (
                Self::SysV64,
                Target::X86_64UnknownLinuxGnu | Target::X86_64UnknownLinuxMusl
                | Target::X86_64AppleDarwin,
            )
            | (Self::Win64, Target::X86_64PcWindowsMsvc) => Ok(Self::C),
            (Self::SysV64, Target::X86_64PcWindowsMsvc)
            | (
                Self::Win64,
                Target::X86_64UnknownLinuxGnu | Target::X86_64UnknownLinuxMusl
                | Target::X86_64AppleDarwin,
            ) => Ok(self),
            (Self::Win64, Target::Aarch64PcWindowsMsvc) => Ok(Self::C),
            _ => Err(Error::new(0, "explicit calling convention is unsupported on this target")),
        }
    }
}

#[derive(Debug, PartialEq, Eq, Hash)]
pub struct Parameter {
    pub name: Option<String>,
    pub ty: Type,
}

/// The scope in which a tag was introduced.
#[derive(Clone, Copy, Debug, PartialEq, Eq, Structural)]
pub enum Scope {
    File,
    Prototype,
    Block,
}

#[derive(Debug)]
pub struct Record {
    /// Whether the canonical union type carries GNU transparent argument passing.
    pub transparent_union: bool,
    pub name: Option<String>,
    pub scope: Scope,
    pub kind: RecordKind,
    /// None denotes an incomplete declaration; Some([]) is an empty GNU record.
    pub fields: Option<Vec<Field>>,
    pub packed: bool,
    /// Explicit alignment in bytes.
    pub alignment: Option<u64>,
    /// Maximum field alignment in bytes from the active pack pragma.
    pub pack: Option<u64>,
}

#[derive(Clone, Copy, Debug, PartialEq, Eq, Structural)]
pub enum RecordKind {
    Struct,
    Union,
}

#[derive(Debug)]
pub struct Field {
    pub name: Option<String>,
    pub ty: Type,
    pub bit_width: Option<u64>,
    pub alignment: Option<u64>,
    pub packed: bool,
}

#[derive(Debug)]
pub struct Enum {
    /// Canonical tag packing. The MSVC ABI retains int representation.
    pub packed: bool,
    pub name: Option<String>,
    pub scope: Scope,
    /// Whether the closing brace of the definition has been reached.
    pub complete: bool,
    pub variants: Vec<EnumVariant>,
}

#[derive(Debug)]
pub struct EnumVariant {
    pub name: String,
    pub value: IntegerValue,
}

/// Object-file binding of a declaration with external C linkage.
#[derive(Clone, Copy, Debug, Default, PartialEq, Eq, Structural)]
#[non_exhaustive]
pub enum SymbolBinding {
    #[default]
    Strong,
    /// Definitions may be replaced; an unresolved declaration may have a null address.
    Weak,
}

impl SymbolBinding {
    /// Whether the binding is the ordinary strong one.
    pub fn is_strong(&self) -> (r: bool)
        ensures
            r == (*self is Strong),
    {
        match self {
            SymbolBinding::Strong => true,
            SymbolBinding::Weak => false,
        }
    }
}

#[derive(Debug)]
pub struct Declaration {
    /// Summary of file-scope inline occurrences, separate from final body ownership.
    pub inline_facts: Option<crate::inline::FunctionInlineFacts>,
    /// Ownership of a function body, independently of `is_definition`.
    pub function_definition_kind: Option<crate::inline::FunctionDefinitionKind>,
    /// Explicit object/function alignment, independent of the declared C type.
    pub alignment: crate::object_alignment::DeclarationAlignment,
    /// Whether a compatible declaration says this function may return more than once.
    pub returns_twice: bool,
    /// Promise visible in the final file declaration.
    pub noreturn: bool,
    /// Symbol binding; applies to externally linked functions and objects.
    pub symbol_binding: SymbolBinding,
    pub name: String,
    pub ty: Type,
    pub kind: DeclarationKind,
    pub link_name: Option<String>,
    /// Whether this declaration has internal linkage.
    pub is_static: bool,
    /// Whether each thread owns a distinct object.
    pub is_thread_local: bool,
    pub is_definition: bool,
    /// Storage allocated by GNU initialization of this object's flexible member.
    pub flexible_array_storage: Option<FlexibleArrayStorage>,
}

/// Additional object storage for an initialized flexible array member.
#[derive(Clone, Debug, PartialEq, Eq, Structural)]
pub struct FlexibleArrayStorage {
    pub member_index: usize,
    pub elements: u64,
    /// Total allocated storage, including the record prefix and compiler padding.
    pub size_bits: u64,
}

#[derive(Clone, Copy, Debug, PartialEq, Eq, Structural)]
pub enum DeclarationKind {
    Typedef,
    Function,
    Variable,
}

/// Whether a width is one of the supported integer widths.
pub open spec fn supported_width(bits: u8) -> bool {
    bits == 8 || bits == 16 || bits == 32 || bits == 64 || bits == 128
}

/// A C integer with its target width, signedness, and conversion rank.
#[derive(Clone, Copy, Debug, PartialEq, Eq, Structural)]
pub struct IntegerValue {
    /// The low `bits` bits of the value, including the sign bit for signed values.
    pub value: u128,
    pub bits: u8,
    pub signed: bool,
    /// C ranks: bool=0, char=1, short=2, int=3, long=4, long long=5, int128=6.
    pub rank: u8,
}

impl IntegerValue {
    /// A representation `validate` accepts.
    pub open spec fn well_formed(self) -> bool {
        &&& supported_width(self.bits)
        &&& self.rank <= 6
        &&& self.value < pow2(self.bits as nat)
    }

    /// The value denoted under the width and signedness, as `signed_value`
    /// returns it: two's complement for signed values below 128 bits, and an
    /// `i128` reinterpretation of the stored bits otherwise.
    pub open spec fn signed_value_spec(self) -> int {
        if self.signed && 0 < self.bits < 128 && (self.value as nat / pow2((self.bits - 1) as nat))
            % 2 == 1 {
            self.value as nat % pow2(self.bits as nat) - pow2(self.bits as nat)
        } else if self.value > i128::MAX {
            self.value - pow2(128)
        } else {
            self.value as int
        }
    }

    /// The mathematical integer a well-formed value denotes.
    pub open spec fn math(self) -> int {
        if self.signed && self.value >= pow2((self.bits - 1) as nat) {
            self.value - pow2(self.bits as nat)
        } else {
            self.value as int
        }
    }

    /// Returns the sign-extended integer value.
    pub fn signed_value(self) -> (r: i128)
        ensures
            r == self.signed_value_spec(),
    {
        proof {
            lemma_u128_as_i128(self.value);
        }
        if self.signed && self.bits > 0 && self.bits < 128 {
            let b = self.bits as u128;
            proof {
                lemma_u128_shl_one((b - 1) as u128);
                lemma_u128_bit(self.value, (b - 1) as u128);
            }
            if self.value & (1u128 << (self.bits - 1)) != 0 {
                let v = self.value;
                assert((v | (!0u128 << b)) as int == (v & (((1u128 << b) - 1) as u128)) as int
                    + 0x1_0000_0000_0000_0000_0000_0000_0000_0000 - (1u128 << b) as int) by (bit_vector)
                    requires
                        b < 128,
                ;
                proof {
                    let p = pow2((b - 1) as nat);
                    lemma_u128_low_mask(v, b);
                    lemma_u128_shl_one(b);
                    lemma_pow2_pos((b - 1) as nat);
                    lemma_pow2_unfold(b as nat);
                    lemma_mod_breakdown(v as int, p as int, 2);
                    assert(v as nat % pow2(b as nat) >= p);
                    lemma2_to64();
                    lemma2_to64_rest();
                    lemma_pow2_adds(64, 64);
                    lemma_pow2_strictly_increases(b as nat, 128);
                    lemma_pow2_unfold(128);
                    lemma_u128_as_i128(v | (!0u128 << b));
                }
                return (self.value | (!0u128 << self.bits)) as i128;
            }
        }
        self.value as i128
    }

    /// Converts a nonnegative integer into a layout size or array count.
    pub fn as_u64(self) -> (r: Result<u64, Error>)
        ensures
            r is Ok <==> self.well_formed() && self.signed_value_spec() >= 0 && self.value
                <= u64::MAX,
            r matches Ok(v) ==> v == self.value,
    {
        self.validate()?;
        if self.signed && self.signed_value() < 0 {
            return Err(Error::new(0, "expected a nonnegative integer"));
        }
        if self.value > u64::MAX as u128 {
            return Err(Error::new(0, "integer does not fit in 64 bits"));
        }
        Ok(self.value as u64)
    }

    /// Whether this value is representable in the target profiles' 32-bit `int`.
    pub fn fits_int(self) -> (r: bool)
        ensures
            r == if self.signed {
                i32::MIN <= self.signed_value_spec() <= i32::MAX
            } else {
                self.value <= i32::MAX
            },
    {
        if self.signed {
            let v = self.signed_value();
            v >= i32::MIN as i128 && v <= i32::MAX as i128
        } else {
            self.value <= i32::MAX as u128
        }
    }

    /// Builds a value, keeping only the low `bits` bits of `value`.
    pub fn new(value: u128, bits: u8, signed: bool, rank: u8) -> (r: Self)
        requires
            bits <= 128,
        ensures
            r.value == value as nat % pow2(bits as nat),
            r.bits == bits,
            r.signed == signed,
            r.rank == rank,
    {
        let mask = Self::mask(bits);
        proof {
            if bits < 128 {
                lemma_u128_low_mask(value, bits as u128);
                lemma_u128_shl_one(bits as u128);
            } else {
                lemma2_to64();
                lemma2_to64_rest();
                lemma_pow2_adds(64, 64);
                assert(value & mask == value) by (bit_vector)
                    requires
                        mask == 0xffff_ffff_ffff_ffff_ffff_ffff_ffff_ffffu128,
                ;
                lemma_small_mod(value as nat, pow2(128));
            }
        }
        IntegerValue { value: value & mask, bits, signed, rank }
    }

    /// Checks that a caller-built value uses a supported representation.
    pub fn validate(self) -> (r: Result<(), Error>)
        ensures
            r is Ok <==> self.well_formed(),
            r matches Err(e) ==> e.offset == 0 && e.message@ == "invalid integer value representation"@,
    {
        if !(self.bits == 8 || self.bits == 16 || self.bits == 32 || self.bits == 64 || self.bits
            == 128) || self.rank > 6 || self.value > Self::mask(self.bits) {
            return Err(Error::new(0, "invalid integer value representation"));
        }
        Ok(())
    }

    /// The largest value of `bits` unsigned bits.
    pub fn mask(bits: u8) -> (r: u128)
        requires
            bits <= 128,
        ensures
            r == pow2(bits as nat) - 1,
    {
        if bits == 128 {
            proof {
                lemma2_to64();
                lemma2_to64_rest();
                lemma_pow2_adds(64, 64);
            }
            u128::MAX
        } else {
            proof {
                lemma_u128_shl_one(bits as u128);
                lemma_pow2_pos(bits as nat);
            }
            (1u128 << bits) - 1
        }
    }

    /// A 32-bit signed `int` holding the low 32 bits of `value`.
    pub fn from_int(value: i128) -> (r: Self)
        ensures
            r.bits == 32 && r.signed && r.rank == 3,
            r.value == (value as int) % (pow2(32) as int),
            r.well_formed(),
            i32::MIN <= value <= i32::MAX ==> r.math() == value,
    {
        proof {
            lemma_i128_as_u128(value);
            lemma2_to64();
        }
        let r = Self::new(value as u128, 32, true, 3);
        proof {
            lemma2_to64_rest();
            lemma_pow2_adds(64, 64);
            lemma_pow2_adds(32, 96);
            if value < 0 {
                lemma_mod_multiples_vanish(pow2(96) as int, value as int, pow2(32) as int);
            }
        }
        r
    }

    /// C truth: any nonzero value.
    pub fn truth(self) -> (r: bool)
        ensures
            r == (self.value != 0),
    {
        self.value != 0
    }

    /// For well-formed values the two readings agree, except for unsigned
    /// 128-bit values above `i128::MAX`, which `signed_value` reinterprets.
    pub proof fn lemma_math_is_signed_value(self)
        requires
            self.well_formed(),
            self.signed || self.value <= i128::MAX,
        ensures
            self.math() == self.signed_value_spec(),
    {
        lemma2_to64();
        lemma2_to64_rest();
        lemma_pow2_adds(64, 64);
        let b = self.bits as nat;
        let p = pow2((b - 1) as nat);
        lemma_pow2_pos((b - 1) as nat);
        lemma_pow2_unfold(b);
        lemma_pow2_unfold(128);
        if b < 128 {
            lemma_pow2_strictly_increases(b, 128);
        }
        lemma_small_mod(self.value as nat, pow2(b));
        if self.signed && b < 128 {
            if self.value >= p {
                vstd::arithmetic::div_mod::lemma_fundamental_div_mod(self.value as int, p as int);
                vstd::arithmetic::div_mod::lemma_mod_bound(self.value as int, p as int);
                assert(self.value as nat / p == 1) by (nonlinear_arith)
                    requires
                        self.value as int == p * (self.value as nat / p) + self.value as nat % p,
                        self.value as nat % p < p,
                        p <= self.value < 2 * p,
                        p > 0,
                ;
            } else {
                vstd::arithmetic::div_mod::lemma_basic_div(self.value as int, p as int);
            }
        }
    }
}

/// `!value`, as a serializer's skip predicate.
pub fn is_false(value: &bool) -> (r: bool)
    ensures
        r == !*value,
{
    !*value
}

} // verus!
