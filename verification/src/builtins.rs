//! Prefetch hints, non-temporal accesses and GCC's legacy `__sync` operations.

use crate::error::Error;
use crate::ir::{QualifierSet, Qualifiers, Type, TypeKind};
use crate::profile::Compiler;
use crate::text::{chars, chars_equal};
use vstd::prelude::*;

verus! {

/// When a compiler requires an immediate operand to be a constant.
#[derive(Clone, Copy, Debug, PartialEq, Eq, Structural)]
pub enum ImmediateStage {
    /// The front end checks an integer constant expression.
    Frontend,
    /// Folding and inlining may still produce the constant.
    AfterInlining,
}

/// Optional operands of `__builtin_prefetch`. The hint does not read or write a
/// C object, imply volatile/atomic access, or authorize dropping argument effects.
/// A backend may omit the cache instruction while preserving those evaluations.
#[derive(Clone, Copy, Debug, PartialEq, Eq, Structural)]
#[non_exhaustive]
pub enum PrefetchHint {
    ReadWrite,
    Locality,
}

impl PrefetchHint {
    /// The largest value a hint accepts.
    pub open spec fn maximum_spec(self) -> u8 {
        match self {
            PrefetchHint::ReadWrite => 1,
            PrefetchHint::Locality => 3,
        }
    }

    /// What an out-of-range hint becomes: zero under GNU, rejection under Clang.
    pub open spec fn out_of_range_spec(compiler: Compiler) -> Option<u8> {
        match compiler {
            Compiler::Gnu => Some(0u8),
            Compiler::Clang => None,
        }
    }

    /// Logical argument position after any GNU variadic-pack expansion; address
    /// is argument zero.
    pub fn argument(self) -> (r: usize)
        ensures
            r == match self {
                PrefetchHint::ReadWrite => 1usize,
                PrefetchHint::Locality => 2usize,
            },
    {
        match self {
            PrefetchHint::ReadWrite => 1,
            PrefetchHint::Locality => 2,
        }
    }

    /// Value used when this optional argument was omitted.
    pub fn default_value(self) -> (r: u8)
        ensures
            r == match self {
                PrefetchHint::ReadWrite => 0u8,
                PrefetchHint::Locality => 3u8,
            },
    {
        match self {
            PrefetchHint::ReadWrite => 0,
            PrefetchHint::Locality => 3,
        }
    }

    /// Inclusive maximum; the minimum is zero. Read/write is zero for read and
    /// one for write; larger locality values request longer cache retention.
    pub fn maximum(self) -> (r: u8)
        ensures
            r == self.maximum_spec(),
    {
        match self {
            PrefetchHint::ReadWrite => 1,
            PrefetchHint::Locality => 3,
        }
    }

    /// Clang checks an integer constant expression before lowering. GNU permits
    /// folding and inlining to produce a constant.
    pub fn stage(self, compiler: Compiler) -> (r: ImmediateStage)
        ensures
            r == match compiler {
                Compiler::Gnu => ImmediateStage::AfterInlining,
                Compiler::Clang => ImmediateStage::Frontend,
            },
    {
        match compiler {
            Compiler::Gnu => ImmediateStage::AfterInlining,
            Compiler::Clang => ImmediateStage::Frontend,
        }
    }

    /// Interprets a proven constant's low 64 bits under the compiler's hint
    /// policy: an in-range value is kept, anything else is handled as
    /// `out_of_range_value` says.
    pub fn normalized_value(self, value_bits: u128, compiler: Compiler) -> (r: Option<u8>)
        ensures
            r == if (value_bits as u64) <= self.maximum_spec() {
                Some((value_bits as u64) as u8)
            } else {
                Self::out_of_range_spec(compiler)
            },
    {
        let value = value_bits as u64;
        if value <= self.maximum() as u64 {
            Some(value as u8)
        } else {
            self.out_of_range_value(compiler)
        }
    }

    /// GNU diagnoses an out-of-range lowered constant and substitutes zero.
    /// Clang rejects it.
    pub fn out_of_range_value(self, compiler: Compiler) -> (r: Option<u8>)
        ensures
            r == Self::out_of_range_spec(compiler),
    {
        match compiler {
            Compiler::Gnu => Some(0),
            Compiler::Clang => None,
        }
    }
}

/// The parameter type of a prefetch address: `const void *`.
pub fn prefetch_address_type() -> (r: Type)
    ensures
        r.kind matches TypeKind::Pointer(pointee) && pointee.kind == TypeKind::Void
            && pointee.qualifiers@ == (QualifierSet { is_const: true, ..Qualifiers::none_spec()@ }),
        r.qualifiers == Qualifiers::none_spec(),
{
    let mut pointee = Type::new(TypeKind::Void);
    pointee.qualifiers = pointee.qualifiers.with_const();
    pointee.pointer()
}

/// Only calls may use the prefetch builtin as a function designator.
pub fn check_prefetch_value_operation(is_prefetch_designator: bool, offset: usize) -> (r: Result<(), Error>)
    ensures
        r is Ok <==> !is_prefetch_designator,
{
    if is_prefetch_designator {
        Err(Error::new(offset, "prefetch builtin does not permit this direct function-designator operation"))
    } else {
        Ok(())
    }
}

/// A hint operand of a prefetch call: whether it is an integer constant
/// expression, its value's bits when it is, and where it starts.
#[derive(Clone, Copy, Debug, PartialEq, Eq, Structural)]
pub struct PrefetchOperand {
    pub integer_constant: bool,
    pub value: u128,
    pub start: usize,
}

/// Whether a hint operand passes Clang's front-end check.
pub open spec fn hint_accepted(hint: PrefetchHint, operand: Option<PrefetchOperand>) -> bool {
    match operand {
        Some(o) => o.integer_constant && (o.value as u64) <= hint.maximum_spec(),
        None => true,
    }
}

/// Checks the shape of a `__builtin_prefetch` call with `argument_count`
/// arguments and the given hint operands: one to three arguments under Clang
/// and at least one under GCC; Clang also requires each hint to be an
/// integer constant expression in range, while GCC leaves hints to folding.
pub fn check_prefetch_call(
    compiler: Compiler,
    argument_count: usize,
    read_write: Option<PrefetchOperand>,
    locality: Option<PrefetchOperand>,
    offset: usize,
) -> (r: Result<(), Error>)
    ensures
        r is Ok <==> argument_count > 0 && (compiler == Compiler::Gnu || (argument_count <= 3
            && hint_accepted(PrefetchHint::ReadWrite, read_write) && hint_accepted(PrefetchHint::Locality, locality))),
{
    let clang = match compiler {
        Compiler::Gnu => false,
        Compiler::Clang => true,
    };
    if argument_count == 0 || (clang && argument_count > 3) {
        return Err(Error::new(offset, "__builtin_prefetch requires one to three arguments on Clang, and at least one on GNU"));
    }
    if clang {
        let hints = [(PrefetchHint::ReadWrite, read_write), (PrefetchHint::Locality, locality)];
        let mut i: usize = 0;
        while i < 2
            invariant
                i <= 2,
                compiler == Compiler::Clang,
                hints@ == seq![(PrefetchHint::ReadWrite, read_write), (PrefetchHint::Locality, locality)],
                forall|j: int| 0 <= j < i ==> hint_accepted((#[trigger] hints@[j]).0, hints@[j].1),
            decreases 2 - i,
        {
            let (hint, operand) = hints[i];
            assert(hints@[i as int] == (hint, operand));
            if let Some(operand) = operand {
                if !operand.integer_constant {
                    return Err(Error::new(operand.start, "prefetch hint requires an integer constant expression"));
                }
                if hint.normalized_value(operand.value, Compiler::Clang).is_none() {
                    let message = match hint {
                        PrefetchHint::ReadWrite => "prefetch hint must be in 0..=1",
                        PrefetchHint::Locality => "prefetch hint must be in 0..=3",
                    };
                    return Err(Error::new(operand.start, message));
                }
            }
            i = i + 1;
        }
        assert(hint_accepted(hints@[0].0, hints@[0].1));
        assert(hint_accepted(hints@[1].0, hints@[1].1));
    }
    Ok(())
}

/// An ordinary memory access with a cache hint that a backend may ignore.
/// These operations are neither atomic nor volatile; no synchronization or
/// instruction-set requirement is implied by the hint.
#[derive(Clone, Copy, Debug, PartialEq, Eq, Structural)]
#[non_exhaustive]
pub enum NontemporalOperation {
    Load,
    Store,
}

/// The builtin name of a non-temporal operation.
pub open spec fn nontemporal_spelling(operation: NontemporalOperation) -> Seq<char> {
    match operation {
        NontemporalOperation::Load => "__builtin_nontemporal_load"@,
        NontemporalOperation::Store => "__builtin_nontemporal_store"@,
    }
}

impl NontemporalOperation {
    /// Position of the pointer whose pointee determines the memory access type.
    pub fn address_argument(self) -> (r: usize)
        ensures
            r == match self {
                NontemporalOperation::Load => 0usize,
                NontemporalOperation::Store => 1usize,
            },
    {
        match self {
            NontemporalOperation::Load => 0,
            NontemporalOperation::Store => 1,
        }
    }

    /// Recognizes a non-temporal builtin by name.
    pub fn from_name(name: &str) -> (r: Option<Self>)
        ensures
            r matches Some(op) ==> nontemporal_spelling(op) == name@,
            r is None ==> forall|op: Self| nontemporal_spelling(op) != name@,
    {
        let text = chars(name);
        if chars_equal(text.as_slice(), "__builtin_nontemporal_load") {
            Some(NontemporalOperation::Load)
        } else if chars_equal(text.as_slice(), "__builtin_nontemporal_store") {
            Some(NontemporalOperation::Store)
        } else {
            proof {
                assert forall|op: Self| nontemporal_spelling(op) != name@ by {
                    match op {
                        NontemporalOperation::Load => {},
                        NontemporalOperation::Store => {},
                    }
                }
            }
            None
        }
    }
}

/// What a non-temporal access's pointee is, as its checks read it.
#[derive(Clone, Copy, Debug, PartialEq, Eq, Structural)]
pub enum NontemporalValueClass {
    /// `_Bool`, an integer, floating or complex type, or a pointer.
    Scalar,
    /// An enumeration.
    Enum,
    /// A fixed-length vector.
    Vector,
    /// Anything else (records, arrays, functions, `void`).
    Other,
}

/// The facts a non-temporal call's checks read of its address argument:
/// whether it is a pointer, the class of the unqualified pointee, whether
/// an enumeration pointee is complete, and whether the pointee is a
/// complete object type.
#[derive(Clone, Copy, Debug, PartialEq, Eq, Structural)]
pub struct NontemporalAddress {
    pub pointer: bool,
    pub class: NontemporalValueClass,
    pub enum_complete: bool,
    pub complete: bool,
}

/// Whether a non-temporal call with `count` arguments is accepted.
pub open spec fn nontemporal_accepted(
    operation: NontemporalOperation,
    gnu: bool,
    windows: bool,
    count: usize,
    address: NontemporalAddress,
) -> bool {
    &&& !gnu
    &&& count == match operation {
        NontemporalOperation::Load => 1usize,
        NontemporalOperation::Store => 2usize,
    }
    &&& address.pointer
    &&& address.class != NontemporalValueClass::Other
    &&& !(windows && address.class == NontemporalValueClass::Enum && !address.enum_complete)
    &&& address.complete
}

/// Checks the operands of a non-temporal load or store: the builtins are
/// Clang's only (`gnu` refuses them), take the address last, and access an
/// integer, enumeration, floating, pointer or fixed-vector object of
/// complete type; Microsoft targets (`windows`) refuse forward-declared
/// enumerations.
pub fn check_nontemporal_access(
    operation: NontemporalOperation,
    gnu: bool,
    windows: bool,
    count: usize,
    address: NontemporalAddress,
    offset: usize,
) -> (r: Result<(), Error>)
    ensures
        r is Ok <==> nontemporal_accepted(operation, gnu, windows, count, address),
{
    if gnu {
        return Err(Error::new(offset, "non-temporal builtins require a Clang compiler profile"));
    }
    if count != operation.address_argument() + 1 {
        return Err(Error::new(offset, "argument count does not match non-temporal intrinsic"));
    }
    if !address.pointer {
        return Err(Error::new(offset, "non-temporal address must be a pointer"));
    }
    if address.class == NontemporalValueClass::Other {
        return Err(Error::new(
            offset,
            "non-temporal address must point to an integer, floating, pointer, or fixed-vector object",
        ));
    }
    if windows && address.class == NontemporalValueClass::Enum && !address.enum_complete {
        return Err(Error::new(
            offset,
            "Microsoft forward-enum non-temporal accesses require unsupported incomplete-enum layouts",
        ));
    }
    if !address.complete {
        return Err(Error::new(offset, "non-temporal access requires a complete object type"));
    }
    Ok(())
}

/// Whether a non-temporal store's value goes through the ordinary
/// assignment checks: Clang reinterprets a vector as another vector of the
/// same size without them.
pub fn nontemporal_store_checks_assignment(
    value_vector: bool,
    source_vector: bool,
    value_bits: u64,
    source_bits: u64,
) -> (r: bool)
    ensures
        r == !(value_vector && source_vector && value_bits == source_bits),
{
    !(value_vector && source_vector && value_bits == source_bits)
}

/// Legacy atomic operations. Pointer operands use byte arithmetic, without C's
/// usual pointee-size scaling. Operations provide a full barrier, except
/// `LockTestAndSet` (acquire) and `LockRelease` (release).
#[derive(Clone, Copy, Debug, PartialEq, Eq, Structural)]
#[non_exhaustive]
pub enum SyncOperation {
    FetchAdd,
    FetchSub,
    FetchOr,
    FetchAnd,
    FetchXor,
    FetchNand,
    AddFetch,
    SubFetch,
    OrFetch,
    AndFetch,
    XorFetch,
    NandFetch,
    BoolCompareAndSwap,
    ValueCompareAndSwap,
    LockTestAndSet,
    LockRelease,
    Synchronize,
}

/// The builtin name of a legacy atomic operation.
pub open spec fn sync_spelling(operation: SyncOperation) -> Seq<char> {
    match operation {
        SyncOperation::FetchAdd => "__sync_fetch_and_add"@,
        SyncOperation::FetchSub => "__sync_fetch_and_sub"@,
        SyncOperation::FetchOr => "__sync_fetch_and_or"@,
        SyncOperation::FetchAnd => "__sync_fetch_and_and"@,
        SyncOperation::FetchXor => "__sync_fetch_and_xor"@,
        SyncOperation::FetchNand => "__sync_fetch_and_nand"@,
        SyncOperation::AddFetch => "__sync_add_and_fetch"@,
        SyncOperation::SubFetch => "__sync_sub_and_fetch"@,
        SyncOperation::OrFetch => "__sync_or_and_fetch"@,
        SyncOperation::AndFetch => "__sync_and_and_fetch"@,
        SyncOperation::XorFetch => "__sync_xor_and_fetch"@,
        SyncOperation::NandFetch => "__sync_nand_and_fetch"@,
        SyncOperation::BoolCompareAndSwap => "__sync_bool_compare_and_swap"@,
        SyncOperation::ValueCompareAndSwap => "__sync_val_compare_and_swap"@,
        SyncOperation::LockTestAndSet => "__sync_lock_test_and_set"@,
        SyncOperation::LockRelease => "__sync_lock_release"@,
        SyncOperation::Synchronize => "__sync_synchronize"@,
    }
}

impl SyncOperation {
    /// Recognizes a legacy atomic builtin by name.
    pub fn from_name(name: &str) -> (r: Option<Self>)
        ensures
            r matches Some(op) ==> sync_spelling(op) == name@,
            r is None ==> forall|op: Self| sync_spelling(op) != name@,
    {
        let t = chars(name);
        let s = t.as_slice();
        if chars_equal(s, "__sync_fetch_and_add") {
            Some(SyncOperation::FetchAdd)
        } else if chars_equal(s, "__sync_fetch_and_sub") {
            Some(SyncOperation::FetchSub)
        } else if chars_equal(s, "__sync_fetch_and_or") {
            Some(SyncOperation::FetchOr)
        } else if chars_equal(s, "__sync_fetch_and_and") {
            Some(SyncOperation::FetchAnd)
        } else if chars_equal(s, "__sync_fetch_and_xor") {
            Some(SyncOperation::FetchXor)
        } else if chars_equal(s, "__sync_fetch_and_nand") {
            Some(SyncOperation::FetchNand)
        } else if chars_equal(s, "__sync_add_and_fetch") {
            Some(SyncOperation::AddFetch)
        } else if chars_equal(s, "__sync_sub_and_fetch") {
            Some(SyncOperation::SubFetch)
        } else if chars_equal(s, "__sync_or_and_fetch") {
            Some(SyncOperation::OrFetch)
        } else if chars_equal(s, "__sync_and_and_fetch") {
            Some(SyncOperation::AndFetch)
        } else if chars_equal(s, "__sync_xor_and_fetch") {
            Some(SyncOperation::XorFetch)
        } else if chars_equal(s, "__sync_nand_and_fetch") {
            Some(SyncOperation::NandFetch)
        } else if chars_equal(s, "__sync_bool_compare_and_swap") {
            Some(SyncOperation::BoolCompareAndSwap)
        } else if chars_equal(s, "__sync_val_compare_and_swap") {
            Some(SyncOperation::ValueCompareAndSwap)
        } else if chars_equal(s, "__sync_lock_test_and_set") {
            Some(SyncOperation::LockTestAndSet)
        } else if chars_equal(s, "__sync_lock_release") {
            Some(SyncOperation::LockRelease)
        } else if chars_equal(s, "__sync_synchronize") {
            Some(SyncOperation::Synchronize)
        } else {
            proof {
                assert forall|op: Self| sync_spelling(op) != name@ by {
                    match op {
                        _ => {},
                    }
                }
            }
            None
        }
    }

    /// How many arguments the operation takes, besides a GNU variadic pack.
    pub open spec fn required_spec(self) -> usize {
        match self {
            SyncOperation::Synchronize => 0usize,
            SyncOperation::LockRelease => 1usize,
            SyncOperation::BoolCompareAndSwap | SyncOperation::ValueCompareAndSwap => 3usize,
            _ => 2usize,
        }
    }

    /// Whether GNU accepts a `_Bool` object for this operation.
    pub open spec fn accepts_gnu_bool_spec(self) -> bool {
        self is LockTestAndSet || self is LockRelease || self is BoolCompareAndSwap || self is ValueCompareAndSwap
    }

    /// How many arguments the operation takes, besides a GNU variadic pack.
    pub fn required(self) -> (r: usize)
        ensures
            r == self.required_spec(),
    {
        match self {
            SyncOperation::Synchronize => 0,
            SyncOperation::LockRelease => 1,
            SyncOperation::BoolCompareAndSwap | SyncOperation::ValueCompareAndSwap => 3,
            _ => 2,
        }
    }

    /// Whether GNU accepts a `_Bool` object for this operation.
    pub fn accepts_gnu_bool(self) -> (r: bool)
        ensures
            r == self.accepts_gnu_bool_spec(),
    {
        match self {
            SyncOperation::LockTestAndSet | SyncOperation::LockRelease
            | SyncOperation::BoolCompareAndSwap | SyncOperation::ValueCompareAndSwap => true,
            _ => false,
        }
    }
}

/// What a `__sync` operation's object is, as its checks read it.
#[derive(Clone, Copy, Debug, PartialEq, Eq, Structural)]
pub enum SyncObjectClass {
    Integer,
    Enum,
    Bool,
    Pointer,
    Other,
}

/// The type a `__sync` call produces.
#[derive(Clone, Copy, Debug, PartialEq, Eq, Structural)]
pub enum SyncResult {
    Void,
    Bool,
    /// The object's value type.
    Value,
}

/// The facts a `__sync` call's checks read of its address argument: whether
/// it is a pointer, whether the pointee is a C11 atomic object, the class of
/// the object's value type, whether that type is complete, its size, and
/// whether the pointee is `const`.
#[derive(Clone, Copy, Debug, PartialEq, Eq, Structural)]
pub struct SyncAddress {
    pub pointer: bool,
    pub atomic: bool,
    pub class: SyncObjectClass,
    pub complete: bool,
    pub size_bytes: u64,
    pub pointee_const: bool,
}

/// Whether a `__sync` call with `count` arguments is accepted.
pub open spec fn sync_accepted(operation: SyncOperation, gnu: bool, count: usize, address: SyncAddress) -> bool {
    &&& count >= operation.required_spec()
    &&& operation == SyncOperation::Synchronize ==> count == 0
    &&& operation != SyncOperation::Synchronize ==> {
        &&& address.pointer
        &&& !(address.atomic && !gnu)
        &&& address.class != SyncObjectClass::Other
        &&& !(address.class == SyncObjectClass::Bool && gnu && !operation.accepts_gnu_bool_spec())
        &&& address.complete
        &&& (address.size_bytes == 1 || address.size_bytes == 2 || address.size_bytes == 4
            || address.size_bytes == 8 || address.size_bytes == 16)
        &&& !(address.pointee_const && !gnu)
    }
}

/// Checks the operands of a `__sync` call and says what it produces: no
/// value for `__sync_synchronize` and `__sync_lock_release`, `_Bool` for the
/// Boolean compare-and-swap, and the object's value type otherwise. The
/// address must point to an integer, enumeration, `_Bool` or pointer object
/// of 1, 2, 4, 8 or 16 bytes; Clang refuses atomic and `const` objects, GCC
/// refuses `_Bool` objects in arithmetic.
pub fn sync_signature(
    operation: SyncOperation,
    gnu: bool,
    count: usize,
    address: SyncAddress,
    offset: usize,
) -> (r: Result<SyncResult, Error>)
    ensures
        r is Ok <==> sync_accepted(operation, gnu, count, address),
        r matches Ok(result) ==> result == match operation {
            SyncOperation::Synchronize | SyncOperation::LockRelease => SyncResult::Void,
            SyncOperation::BoolCompareAndSwap => SyncResult::Bool,
            _ => SyncResult::Value,
        },
{
    let synchronize = match operation {
        SyncOperation::Synchronize => true,
        _ => false,
    };
    if count < operation.required() || (synchronize && count != 0) {
        return Err(Error::new(offset, "argument count does not match __sync intrinsic"));
    }
    if synchronize {
        return Ok(SyncResult::Void);
    }
    if !address.pointer {
        return Err(Error::new(offset, "__sync address must point to an integer or pointer object"));
    }
    if address.atomic && !gnu {
        return Err(Error::new(offset, "this Clang profile does not accept C11 atomic objects in GNU atomic intrinsics"));
    }
    if address.class == SyncObjectClass::Other {
        return Err(Error::new(offset, "__sync address must point to an integer or pointer object"));
    }
    if address.class == SyncObjectClass::Bool && gnu && !operation.accepts_gnu_bool() {
        return Err(Error::new(offset, "GCC __sync arithmetic operations do not accept _Bool objects"));
    }
    if !address.complete {
        return Err(Error::new(offset, "__sync object requires a complete type"));
    }
    let size = address.size_bytes;
    if !(size == 1 || size == 2 || size == 4 || size == 8 || size == 16) {
        return Err(Error::new(offset, "__sync object width must be 1, 2, 4, 8, or 16 bytes"));
    }
    if address.pointee_const && !gnu {
        return Err(Error::new(offset, "Clang __sync operations cannot modify a const-qualified object"));
    }
    Ok(match operation {
        SyncOperation::BoolCompareAndSwap => SyncResult::Bool,
        SyncOperation::LockRelease => SyncResult::Void,
        _ => SyncResult::Value,
    })
}

} // verus!
