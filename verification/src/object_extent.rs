//! Structural object provenance for `__builtin_object_size`: the extent of the
//! identified object and the compiler's scalar answer, as separate facts.

use crate::error::Error;
use crate::integer::{size_value, size_value_spec};
use crate::ir::IntegerValue;
use vstd::arithmetic::power2::{lemma2_to64, lemma2_to64_rest, pow2};
use vstd::prelude::*;

verus! {

/// When a known compiler-query value becomes available.
#[derive(Clone, Copy, Debug, PartialEq, Eq, Structural)]
#[non_exhaustive]
pub enum ObjectSizeFoldStage {
    /// Accepted by the profile's frontend constant evaluator.
    Frontend,
    /// Known during later code generation, but not a C constant expression.
    CodeGeneration,
}

/// Why no scalar answer is known.
#[derive(Clone, Copy, Debug, PartialEq, Eq, Structural)]
#[non_exhaustive]
pub enum ObjectSizeUnknown {
    /// No complete, fixed-size object was identified. Pointer aliases and
    /// runtime-sized objects are not inferred from their pointed-to types.
    Provenance,
    /// A structural extent is known, but the compiler's scalar answer depends
    /// on optimization or on unsupported effect attributes.
    CompilerBehavior,
}

/// The compiler query's scalar answer, or why it is unknown.
#[derive(Clone, Copy, Debug, PartialEq, Eq, Structural)]
#[non_exhaustive]
pub enum ObjectSizeResult {
    Constant {
        value: IntegerValue,
        stage: ObjectSizeFoldStage,
        /// This is the compiler's unknown-size sentinel, not an object extent.
        is_default: bool,
    },
    Unresolved(ObjectSizeUnknown),
}

/// What holds of every inferred object size: a subobject never extends past
/// the rest of the whole object; an unidentified object has no extent, and
/// then the answer is unknown for want of provenance or is the frontend's
/// default; and a default answer is zero or all ones in the size type.
pub open spec fn size_facts_consistent(
    whole: Option<u64>,
    subobject: Option<u64>,
    result: ObjectSizeResult,
) -> bool {
    &&& subobject matches Some(s) ==> whole matches Some(w) && s <= w
    &&& result == ObjectSizeResult::Unresolved(ObjectSizeUnknown::Provenance) ==> whole is None
    &&& whole is None ==> (result == ObjectSizeResult::Unresolved(ObjectSizeUnknown::Provenance)
        || result matches ObjectSizeResult::Constant {
        stage: ObjectSizeFoldStage::Frontend,
        is_default: true,
        ..
    })
    &&& result matches ObjectSizeResult::Constant { value, is_default: true, .. } ==> (value.value
        == 0 || value.value == pow2(value.bits as nat) - 1)
}

/// Extent proofs and the compiler query's scalar result are separate facts.
/// Pointer casts do not create storage. The subobject range uses the immediately
/// enclosing array for an element address, including string literal terminators.
#[derive(Clone, Copy, Debug, PartialEq, Eq, Structural)]
pub struct ObjectSizeProof {
    whole_bytes: Option<u64>,
    subobject_bytes: Option<u64>,
    result: ObjectSizeResult,
}

impl ObjectSizeProof {
    #[verifier::type_invariant]
    spec fn facts_consistent(self) -> bool {
        size_facts_consistent(self.whole_bytes, self.subobject_bytes, self.result)
    }

    pub closed spec fn whole_bytes_spec(&self) -> Option<u64> {
        self.whole_bytes
    }

    pub closed spec fn subobject_bytes_spec(&self) -> Option<u64> {
        self.subobject_bytes
    }

    pub closed spec fn result_spec(&self) -> ObjectSizeResult {
        self.result
    }

    /// Bytes remaining in the complete identified object, or zero outside it.
    pub fn whole_bytes(&self) -> (r: Option<u64>)
        ensures
            r == self.whole_bytes_spec(),
            size_facts_consistent(self.whole_bytes_spec(), self.subobject_bytes_spec(), self.result_spec()),
    {
        proof {
            use_type_invariant(self);
        }
        self.whole_bytes
    }

    /// Bytes remaining in the denoted subobject or immediately enclosing array.
    pub fn subobject_bytes(&self) -> (r: Option<u64>)
        ensures
            r == self.subobject_bytes_spec(),
            size_facts_consistent(self.whole_bytes_spec(), self.subobject_bytes_spec(), self.result_spec()),
    {
        proof {
            use_type_invariant(self);
        }
        self.subobject_bytes
    }

    /// The compiler result and its availability stage, separate from storage.
    pub fn result(&self) -> (r: ObjectSizeResult)
        ensures
            r == self.result_spec(),
            size_facts_consistent(self.whole_bytes_spec(), self.subobject_bytes_spec(), self.result_spec()),
    {
        proof {
            use_type_invariant(self);
        }
        self.result
    }

    /// Whether the frontend itself folds the query.
    pub fn frontend_fold(&self) -> (r: bool)
        ensures
            r == (self.result_spec() matches ObjectSizeResult::Constant { stage, .. } && stage
                == ObjectSizeFoldStage::Frontend),
    {
        match self.result {
            ObjectSizeResult::Constant { stage: ObjectSizeFoldStage::Frontend, .. } => true,
            _ => false,
        }
    }
}

/// A byte range `[start, end)` relative to an address's base.
#[derive(Clone, Copy, Debug, PartialEq, Eq, Structural)]
pub struct Range {
    pub start: i128,
    pub end: i128,
}

/// Whether the distance from an in-range offset to the range's end fits `i128`.
pub open spec fn range_measurable(range: Range, offset: i128) -> bool {
    offset < range.start || offset >= range.end || range.end - offset <= i128::MAX
}

/// Bytes from `offset` to the end of the range, or zero outside it.
pub open spec fn remaining_spec(range: Range, offset: i128) -> u64 {
    if offset < range.start || offset >= range.end {
        0
    } else {
        (range.end - offset) as u64
    }
}

impl Range {
    /// Bytes from `offset` to the end of the range, or zero outside it.
    pub fn remaining(self, offset: i128) -> (r: u64)
        requires
            range_measurable(self, offset),
        ensures
            r == remaining_spec(self, offset),
    {
        if offset < self.start || offset >= self.end {
            0
        } else {
            (self.end - offset) as u64
        }
    }
}

/// The kind of storage an address was derived from.
#[derive(Clone, Copy, Debug, PartialEq, Eq, Structural)]
pub enum ObjectOrigin {
    Object,
    String,
    Compound,
}

/// What structural provenance established about an address.
#[derive(Clone, Copy, Debug, PartialEq, Eq, Structural)]
pub struct AddressFacts {
    /// The complete identified object.
    pub whole: Range,
    /// The designated subobject, or the immediately enclosing array.
    pub subobject: Range,
    /// The subobject as GNU's designator recovers it.
    pub gnu_subobject: Range,
    /// The address's byte offset from the base.
    pub offset: i128,
    pub origin: ObjectOrigin,
    /// Pointer arithmetic contributed to the address.
    pub arithmetic: bool,
    /// The address still names a designated subobject.
    pub valid_designator: bool,
    /// The address is the object's own address.
    pub root_address: bool,
    /// A cast changed the view of the storage.
    pub uncertain_view: bool,
    /// Evaluating the argument has effects that make GNU give its default.
    pub gnu_effects: bool,
    /// Whether the argument has effects is unknown.
    pub uncertain_effects: bool,
}

/// Combines what two subexpressions are known to do: a known effect wins,
/// and only two effect-free sides are free.
pub fn combine_effects(left: Option<bool>, right: Option<bool>) -> (r: Option<bool>)
    ensures
        r == if left == Some(true) || right == Some(true) {
            Some(true)
        } else if left == Some(false) && right == Some(false) {
            Some(false)
        } else {
            None::<bool>
        },
{
    match (left, right) {
        (Some(true), _) | (_, Some(true)) => Some(true),
        (Some(false), Some(false)) => Some(false),
        _ => None,
    }
}

/// The compiler's answer for an identified address under a query `mode`:
/// the byte count, when it becomes available, and whether it is the
/// unknown-size default; or why no answer is known.
pub open spec fn size_answer(a: AddressFacts, mode: u32, gnu: bool) -> Result<(u64, ObjectSizeFoldStage, bool), ObjectSizeUnknown> {
    let whole = remaining_spec(a.whole, a.offset);
    let sub = if remaining_spec(a.subobject, a.offset) < whole {
        remaining_spec(a.subobject, a.offset)
    } else {
        whole
    };
    if a.uncertain_view || a.offset > a.whole.end {
        Err(ObjectSizeUnknown::CompilerBehavior)
    } else if gnu {
        if a.gnu_effects {
            Ok((if mode & 2 == 0 { u64::MAX } else { 0u64 }, ObjectSizeFoldStage::Frontend, true))
        } else if a.uncertain_effects || a.offset < 0 || ((a.arithmetic || !a.valid_designator) && mode
            & 1 != 0) {
            Err(ObjectSizeUnknown::CompilerBehavior)
        } else {
            Ok(
                (
                    if mode & 1 == 0 {
                        whole
                    } else {
                        remaining_spec(a.gnu_subobject, a.offset)
                    },
                    ObjectSizeFoldStage::CodeGeneration,
                    false,
                ),
            )
        }
    } else if mode & 1 != 0 && a.offset >= 0 && (a.offset < a.subobject.start || a.offset
        > a.subobject.end) {
        Err(ObjectSizeUnknown::CompilerBehavior)
    } else if mode == 3 && !a.valid_designator {
        Ok((0u64, ObjectSizeFoldStage::CodeGeneration, true))
    } else {
        let whole_view = mode & 1 == 0 || !a.valid_designator || a.root_address;
        Ok(
            (
                if whole_view {
                    whole
                } else {
                    sub
                },
                if a.offset >= 0 && a.origin == ObjectOrigin::String && whole_view {
                    ObjectSizeFoldStage::CodeGeneration
                } else {
                    ObjectSizeFoldStage::Frontend
                },
                false,
            ),
        )
    }
}

/// The result a size answer becomes, with byte counts in the size type.
pub open spec fn answer_result(
    answer: Result<(u64, ObjectSizeFoldStage, bool), ObjectSizeUnknown>,
    pointer_width: u8,
    long_width: u8,
) -> ObjectSizeResult {
    match answer {
        Ok((bytes, stage, is_default)) => ObjectSizeResult::Constant {
            value: size_value_spec(bytes, pointer_width, long_width),
            stage,
            is_default,
        },
        Err(why) => ObjectSizeResult::Unresolved(why),
    }
}

/// All three ranges of an address can measure the distance from its offset.
pub open spec fn address_measurable(a: AddressFacts) -> bool {
    &&& range_measurable(a.whole, a.offset)
    &&& range_measurable(a.subobject, a.offset)
    &&& range_measurable(a.gnu_subobject, a.offset)
}

/// Infers `__builtin_object_size` for a pointer argument whose provenance is
/// `address` (None when no complete fixed-size object was identified) and
/// whose evaluation has `argument_effects`. Without an identified object, an
/// argument with effects yields the mode's default, otherwise nothing is known.
pub fn object_size_proof(
    address: Option<AddressFacts>,
    argument_effects: Option<bool>,
    mode: u32,
    gnu: bool,
    pointer_width: u8,
    long_width: u8,
) -> (r: ObjectSizeProof)
    requires
        pointer_width == 32 || pointer_width == 64,
        address matches Some(a) ==> address_measurable(a),
    ensures
        size_facts_consistent(r.whole_bytes_spec(), r.subobject_bytes_spec(), r.result_spec()),
        match address {
            None => {
                &&& r.whole_bytes_spec() is None
                &&& r.subobject_bytes_spec() is None
                &&& r.result_spec() == if argument_effects == Some(true) {
                    answer_result(
                        Ok((if mode & 2 == 0 { u64::MAX } else { 0u64 }, ObjectSizeFoldStage::Frontend, true)),
                        pointer_width,
                        long_width,
                    )
                } else {
                    ObjectSizeResult::Unresolved(ObjectSizeUnknown::Provenance)
                }
            },
            Some(a) => {
                let whole = remaining_spec(a.whole, a.offset);
                let sub = if remaining_spec(a.subobject, a.offset) < whole {
                    remaining_spec(a.subobject, a.offset)
                } else {
                    whole
                };
                &&& r.whole_bytes_spec() == Some(whole)
                &&& r.subobject_bytes_spec() == if a.uncertain_view {
                    None::<u64>
                } else {
                    Some(sub)
                }
                &&& r.result_spec() == answer_result(size_answer(a, mode, gnu), pointer_width, long_width)
            },
        },
{
    proof {
        lemma_default_size_values(pointer_width);
    }
    let a = match address {
        None => {
            let result = if argument_effects == Some(true) {
                ObjectSizeResult::Constant {
                    value: size_value(if mode & 2 == 0 { u64::MAX } else { 0 }, pointer_width, long_width),
                    stage: ObjectSizeFoldStage::Frontend,
                    is_default: true,
                }
            } else {
                ObjectSizeResult::Unresolved(ObjectSizeUnknown::Provenance)
            };
            return ObjectSizeProof { whole_bytes: None, subobject_bytes: None, result };
        },
        Some(a) => a,
    };
    let whole = a.whole.remaining(a.offset);
    let subobject_remaining = a.subobject.remaining(a.offset);
    let subobject = if subobject_remaining < whole { subobject_remaining } else { whole };
    let mut proof = ObjectSizeProof {
        whole_bytes: Some(whole),
        subobject_bytes: if a.uncertain_view { None } else { Some(subobject) },
        result: ObjectSizeResult::Unresolved(ObjectSizeUnknown::CompilerBehavior),
    };
    if a.uncertain_view || a.offset > a.whole.end {
        return proof;
    }
    let (bytes, stage, is_default): (u64, ObjectSizeFoldStage, bool) = if gnu {
        if a.gnu_effects {
            (if mode & 2 == 0 { u64::MAX } else { 0 }, ObjectSizeFoldStage::Frontend, true)
        } else if a.uncertain_effects || a.offset < 0 || ((a.arithmetic || !a.valid_designator) && mode
            & 1 != 0) {
            return proof;
        } else {
            (
                if mode & 1 == 0 {
                    whole
                } else {
                    a.gnu_subobject.remaining(a.offset)
                },
                ObjectSizeFoldStage::CodeGeneration,
                false,
            )
        }
    } else if mode & 1 != 0 && a.offset >= 0 && (a.offset < a.subobject.start || a.offset
        > a.subobject.end) {
        return proof;
    } else if mode == 3 && !a.valid_designator {
        (0, ObjectSizeFoldStage::CodeGeneration, true)
    } else {
        let whole_view = mode & 1 == 0 || !a.valid_designator || a.root_address;
        let bytes = if whole_view { whole } else { subobject };
        let stage = if a.offset >= 0 && a.origin == ObjectOrigin::String && whole_view {
            ObjectSizeFoldStage::CodeGeneration
        } else {
            ObjectSizeFoldStage::Frontend
        };
        (bytes, stage, false)
    };
    proof.result = ObjectSizeResult::Constant {
        value: size_value(bytes, pointer_width, long_width),
        stage,
        is_default,
    };
    proof
}

/// The two default answers, all ones and zero, in a size type of 32 or 64 bits.
proof fn lemma_default_size_values(pointer_width: u8)
    requires
        pointer_width == 32 || pointer_width == 64,
    ensures
        u64::MAX as nat % pow2(pointer_width as nat) == pow2(pointer_width as nat) - 1,
        0nat % pow2(pointer_width as nat) == 0,
{
    lemma2_to64();
    lemma2_to64_rest();
}

/// The value `__builtin_object_size` has as a constant: a frontend fold, or a
/// code-generation fold where late folds are allowed.
pub fn object_size_value(proof: &ObjectSizeProof, allow_late: bool, offset: usize) -> (r: Result<IntegerValue, Error>)
    ensures
        match proof.result_spec() {
            ObjectSizeResult::Constant { value, stage, .. } => if stage == ObjectSizeFoldStage::Frontend
                || allow_late {
                r == Ok::<IntegerValue, Error>(value)
            } else {
                r is Err
            },
            ObjectSizeResult::Unresolved(_) => r is Err,
        },
{
    match proof.result {
        ObjectSizeResult::Constant { value, stage, .. } => {
            if stage == ObjectSizeFoldStage::Frontend || allow_late {
                Ok(value)
            } else {
                Err(Error::new(offset, "object-size value requires code generation and is not a frontend constant expression"))
            }
        },
        ObjectSizeResult::Unresolved(ObjectSizeUnknown::CompilerBehavior) => Err(
            Error::new(offset, "object extent is known, but the compiler query result depends on optimization or effect attributes"),
        ),
        ObjectSizeResult::Unresolved(ObjectSizeUnknown::Provenance) => Err(
            Error::new(offset, "object-size extent remains unknown: no complete fixed-size object was identified"),
        ),
    }
}

/// An identified storage location: the address facts, the bytes of the
/// object it denotes, and the array immediately enclosing an element.
#[derive(Clone, Copy, Debug, PartialEq, Eq, Structural)]
pub struct ObjectLocation {
    pub address: AddressFacts,
    pub object: Range,
    pub containing_array: Option<Range>,
}

/// An expression as object-size provenance reads it. Facts another analysis
/// computes (types, layouts, evaluations, type comparisons) are carried in
/// the node, each with its error where the analysis reports one, and are
/// consulted only where the rule reaches them. `decays` says whether the
/// expression's type is an array, which makes it a pointer to its first
/// element.
#[derive(Debug)]
pub struct SiteNode {
    pub decays: Result<bool, Error>,
    pub form: SiteForm,
}

/// The expression forms provenance distinguishes.
#[derive(Debug)]
pub enum SiteForm {
    /// An identifier, string literal or compound literal: whether its type
    /// is known, and its storage size when it has a layout (for an
    /// identifier, the allocation of an initialized flexible array member
    /// replaces the type's size).
    Object { origin: ObjectOrigin, typed: Result<(), Error>, size: Option<u64> },
    /// `base.member` (`indirect` false) or `base->member`: whether the base
    /// pointer's pointee is the type its designator names, and the member's
    /// byte offset with its size when it has a layout.
    Member { indirect: bool, base: Box<SiteNode>, view_kept: Result<bool, Error>, field: Result<(u64, Option<u64>), Error> },
    /// `lhs[rhs]`: whether the left operand is the pointer, the integer
    /// operand's value when it evaluates, the element size when it has a
    /// layout, and whether the element type is the designated type.
    Index {
        left_pointer: Result<bool, Error>,
        lhs: Box<SiteNode>,
        rhs: Box<SiteNode>,
        index: Option<IntegerValue>,
        element_size: Option<u64>,
        designator_kept: Result<bool, Error>,
    },
    /// `*operand`: whether the pointee is the designated type, and its size
    /// when it has a layout.
    Indirection { operand: Box<SiteNode>, view_kept: Result<bool, Error>, size: Option<u64> },
    /// `&operand`, and for `&*p` whether `p`'s pointee is its designated type.
    AddressOf { operand: Box<SiteNode>, designator_kept: Result<bool, Error> },
    /// A cast: `Some(variably_modified)` when its type is a pointer type.
    Cast { pointer: Result<Option<bool>, Error>, operand: Box<SiteNode> },
    /// `lhs + rhs` or `lhs - rhs` (`minus`), with the same facts as an index.
    Arithmetic {
        minus: bool,
        left_pointer: Result<bool, Error>,
        lhs: Box<SiteNode>,
        rhs: Box<SiteNode>,
        index: Option<IntegerValue>,
        element_size: Option<u64>,
        designator_kept: Result<bool, Error>,
    },
    /// `c ? t : e`, with the condition's constant truth when it has one.
    Conditional { truth: Option<bool>, then_expression: Box<SiteNode>, else_expression: Box<SiteNode> },
    /// `_Generic`, with the operand it selects.
    Selected(Result<Box<SiteNode>, Error>),
    /// A comma expression: what each discarded operand is known to do, and
    /// the last operand.
    Comma { discarded: Vec<Result<Option<bool>, Error>>, last: Option<Box<SiteNode>> },
    /// Anything else.
    Other,
}

/// `a + b` where it fits `i128`.
pub open spec fn sum_within(a: int, b: int) -> Option<int> {
    if i128::MIN <= a + b <= i128::MAX {
        Some(a + b)
    } else {
        None
    }
}

/// `a * b` where it fits `i128`.
pub open spec fn product_within(a: int, b: int) -> Option<int> {
    if i128::MIN <= a * b <= i128::MAX {
        Some(a * b)
    } else {
        None
    }
}

/// An index value as a signed byte-count factor, where it fits `i128`.
pub open spec fn index_factor(v: IntegerValue) -> Option<int> {
    if v.signed {
        Some(v.signed_value_spec())
    } else if v.value <= i128::MAX {
        Some(v.value as int)
    } else {
        None
    }
}

/// The offset an address moves to by `index` elements of `size` bytes
/// (backwards for `minus`), where every step fits and it stays in `i64`.
pub open spec fn moved_offset(offset: i128, index: Option<IntegerValue>, size: Option<u64>, minus: bool) -> Option<int> {
    match (index, size) {
        (Some(v), Some(bytes)) => match index_factor(v) {
            None => None,
            Some(i) => {
                let i = if minus { -i } else { i };
                if minus && !(i128::MIN <= i <= i128::MAX) {
                    None
                } else {
                    match product_within(i, bytes as int) {
                        None => None,
                        Some(delta) => match sum_within(offset as int, delta) {
                            None => None,
                            Some(o) => if i64::MIN <= o <= i64::MAX {
                                Some(o)
                            } else {
                                None
                            },
                        },
                    }
                }
            },
        },
        _ => None,
    }
}

/// The address facts a comma expression's discarded operands leave: a known
/// effect makes GNU give its default, an unknown one makes it uncertain; or
/// the first error.
pub open spec fn discarded_effects_into(a: AddressFacts, discarded: Seq<Result<Option<bool>, Error>>) -> Result<AddressFacts, Error>
    decreases discarded.len(),
{
    if discarded.len() == 0 {
        Ok(a)
    } else {
        match discarded[0] {
            Err(e) => Err(e),
            Ok(Some(true)) => discarded_effects_into(AddressFacts { gnu_effects: true, ..a }, discarded.drop_first()),
            Ok(None) => discarded_effects_into(AddressFacts { uncertain_effects: true, ..a }, discarded.drop_first()),
            Ok(Some(false)) => discarded_effects_into(a, discarded.drop_first()),
        }
    }
}

/// The storage a member access's base names: the base location for `.`, the
/// object its pointer addresses for `->`.
pub open spec fn member_base_spec(
    indirect: bool,
    base: SiteNode,
    view_kept: Result<bool, Error>,
    in_function_body: bool,
    gnu: bool,
    depth: nat,
) -> Result<Option<ObjectLocation>, Error>
    decreases base, 4int,
{
    if !indirect {
        location_spec(base, in_function_body, gnu, depth)
    } else {
        match pointer_spec(base, in_function_body, gnu, depth) {
            Err(e) => Err(e),
            Ok(None) => Ok(None),
            Ok(Some(a)) => match view_kept {
                Err(e) => Err(e),
                Ok(kept) => Ok(Some(ObjectLocation {
                    address: AddressFacts { uncertain_view: a.uncertain_view || !kept, ..a },
                    object: a.subobject,
                    containing_array: None,
                })),
            },
        }
    }
}

/// The storage a designator expression names at nesting `depth`: `None`
/// where no complete fixed-size object is identified (nesting of 128 or
/// more, no layout, offsets that do not fit), or a consulted fact's error.
/// A compound literal in a function body gives GNU's default; outside one,
/// an uncertain effect.
pub open spec fn location_spec(node: SiteNode, in_function_body: bool, gnu: bool, depth: nat) -> Result<Option<ObjectLocation>, Error>
    decreases node, 1int,
{
    if depth >= 128 {
        Ok(None)
    } else {
        let d = depth + 1;
        match node.form {
            SiteForm::Object { .. } => location_object_spec(node, in_function_body, gnu, d),
            SiteForm::Member { .. } => location_member_spec(node, in_function_body, gnu, d),
            SiteForm::Index { .. } => location_index_spec(node, in_function_body, gnu, d),
            SiteForm::Indirection { .. } => location_indirection_spec(node, in_function_body, gnu, d),
            _ => Ok(None),
        }
    }
}

pub open spec fn location_object_spec(node: SiteNode, in_function_body: bool, gnu: bool, d: nat) -> Result<Option<ObjectLocation>, Error>
    decreases node, 0int,
{
    match node.form {
            SiteForm::Object { origin, typed, size } => match typed {
                Err(e) => Err(e),
                Ok(()) => match size {
                    None => Ok(None),
                    Some(bytes) => {
                        let range = Range { start: 0, end: bytes as i128 };
                        let compound = origin == ObjectOrigin::Compound;
                        Ok(Some(ObjectLocation {
                            address: AddressFacts {
                                whole: range,
                                subobject: range,
                                gnu_subobject: range,
                                offset: 0,
                                origin,
                                arithmetic: false,
                                valid_designator: true,
                                root_address: true,
                                uncertain_view: false,
                                gnu_effects: compound && in_function_body,
                                uncertain_effects: compound && !in_function_body,
                            },
                            object: range,
                            containing_array: None,
                        }))
                    },
                },
            },
            _ => Ok(None),
    }
}

pub open spec fn location_member_spec(node: SiteNode, in_function_body: bool, gnu: bool, d: nat) -> Result<Option<ObjectLocation>, Error>
    decreases node, 0int,
{
    match node.form {
            SiteForm::Member { indirect, base, view_kept, field } => {
                let based = member_base_spec(indirect, *base, view_kept, in_function_body, gnu, d);
                match based {
                    Err(e) => Err(e),
                    Ok(None) => Ok(None),
                    Ok(Some(l)) => match field {
                        Err(e) => Err(e),
                        Ok((delta, size)) => match size {
                            None => Ok(None),
                            Some(bytes) => match sum_within(l.address.offset as int, delta as int) {
                                None => Ok(None),
                                Some(start) => match sum_within(start, bytes as int) {
                                    None => Ok(None),
                                    Some(end) => Ok(Some(ObjectLocation {
                                        address: AddressFacts { offset: start as i128, root_address: false, ..l.address },
                                        object: Range { start: start as i128, end: end as i128 },
                                        containing_array: None,
                                    })),
                                },
                            },
                        },
                    },
                }
            },
            _ => Ok(None),
    }
}

pub open spec fn location_index_spec(node: SiteNode, in_function_body: bool, gnu: bool, d: nat) -> Result<Option<ObjectLocation>, Error>
    decreases node, 0int,
{
    match node.form {
            SiteForm::Index { left_pointer, lhs, rhs, index, element_size, designator_kept } => match left_pointer {
                Err(e) => Err(e),
                Ok(left) => match pointer_spec(if left { *lhs } else { *rhs }, in_function_body, gnu, d) {
                    Err(e) => Err(e),
                    Ok(None) => Ok(None),
                    Ok(Some(a)) => match moved_offset(a.offset, index, element_size, false) {
                        None => Ok(None),
                        Some(start) => match sum_within(start, element_size->0 as int) {
                            None => Ok(None),
                            Some(end) => match designator_kept {
                                Err(e) => Err(e),
                                Ok(kept) => Ok(Some(ObjectLocation {
                                    address: AddressFacts {
                                        offset: start as i128,
                                        root_address: false,
                                        valid_designator: a.valid_designator && kept,
                                        ..a
                                    },
                                    object: Range { start: start as i128, end: end as i128 },
                                    containing_array: Some(a.subobject),
                                })),
                            },
                        },
                    },
                },
            },
            _ => Ok(None),
    }
}

pub open spec fn location_indirection_spec(node: SiteNode, in_function_body: bool, gnu: bool, d: nat) -> Result<Option<ObjectLocation>, Error>
    decreases node, 0int,
{
    match node.form {
            SiteForm::Indirection { operand, view_kept, size } => match pointer_spec(*operand, in_function_body, gnu, d) {
                Err(e) => Err(e),
                Ok(None) => Ok(None),
                Ok(Some(a)) => match view_kept {
                    Err(e) => Err(e),
                    Ok(kept) => match size {
                        None => Ok(None),
                        Some(bytes) => match sum_within(a.offset as int, bytes as int) {
                            None => Ok(None),
                            Some(end) => Ok(Some(ObjectLocation {
                                address: AddressFacts { uncertain_view: a.uncertain_view || !kept, ..a },
                                object: Range { start: a.offset, end: end as i128 },
                                containing_array: Some(a.subobject),
                            })),
                        },
                    },
                },
            },
            _ => Ok(None),
    }
}

/// The address a pointer expression holds at nesting `depth`, as far as its
/// provenance identifies a complete fixed-size object; or a consulted fact's
/// error. Casts keep the storage; `&*p` is `p`, losing the designator (except
/// under GNU) where the pointee is not the designated type; an array decays
/// to its first element; a comma's discarded operands contribute effects.
pub open spec fn pointer_spec(node: SiteNode, in_function_body: bool, gnu: bool, depth: nat) -> Result<Option<AddressFacts>, Error>
    decreases node, 3int,
{
    if depth >= 128 {
        Ok(None)
    } else {
        let d = depth + 1;
        match node.form {
            SiteForm::AddressOf { .. } => pointer_address_of_spec(node, in_function_body, gnu, d),
            SiteForm::Cast { .. } => pointer_cast_spec(node, in_function_body, gnu, d),
            SiteForm::Arithmetic { .. } => pointer_arithmetic_spec(node, in_function_body, gnu, d),
            SiteForm::Conditional { truth, then_expression, else_expression } => match truth {
                None => Ok(None),
                Some(true) => pointer_spec(*then_expression, in_function_body, gnu, d),
                Some(false) => pointer_spec(*else_expression, in_function_body, gnu, d),
            },
            SiteForm::Selected(selected) => match selected {
                Err(e) => Err(e),
                Ok(operand) => pointer_spec(*operand, in_function_body, gnu, d),
            },
            SiteForm::Comma { .. } => pointer_comma_spec(node, in_function_body, gnu, d),
            _ => pointer_decay_spec(node, in_function_body, gnu, d),
        }
    }
}

pub open spec fn pointer_address_of_spec(node: SiteNode, in_function_body: bool, gnu: bool, d: nat) -> Result<Option<AddressFacts>, Error>
    decreases node, 2int,
{
    match node.form {
            SiteForm::AddressOf { operand, designator_kept } => match operand.form {
                SiteForm::Indirection { operand: inner, .. } => match pointer_spec(*inner, in_function_body, gnu, d) {
                    Err(e) => Err(e),
                    Ok(None) => Ok(None),
                    Ok(Some(a)) => if gnu {
                        Ok(Some(a))
                    } else {
                        match designator_kept {
                            Err(e) => Err(e),
                            Ok(kept) => Ok(Some(AddressFacts { valid_designator: a.valid_designator && kept, ..a })),
                        }
                    },
                },
                _ => match location_spec(*operand, in_function_body, gnu, d) {
                    Err(e) => Err(e),
                    Ok(None) => Ok(None),
                    Ok(Some(l)) => {
                        let sub = match l.containing_array {
                            Some(r) => r,
                            None => l.object,
                        };
                        Ok(Some(AddressFacts { subobject: sub, gnu_subobject: sub, ..l.address }))
                    },
                },
            },
            _ => Ok(None),
    }
}

pub open spec fn pointer_cast_spec(node: SiteNode, in_function_body: bool, gnu: bool, d: nat) -> Result<Option<AddressFacts>, Error>
    decreases node, 2int,
{
    match node.form {
            SiteForm::Cast { pointer, operand } => match pointer {
                Err(e) => Err(e),
                Ok(None) => Ok(None),
                Ok(Some(variable)) => match pointer_spec(*operand, in_function_body, gnu, d) {
                    Err(e) => Err(e),
                    Ok(None) => Ok(None),
                    Ok(Some(a)) => Ok(Some(AddressFacts { gnu_effects: a.gnu_effects || variable, ..a })),
                },
            },
            _ => Ok(None),
    }
}

pub open spec fn pointer_arithmetic_spec(node: SiteNode, in_function_body: bool, gnu: bool, d: nat) -> Result<Option<AddressFacts>, Error>
    decreases node, 2int,
{
    match node.form {
            SiteForm::Arithmetic { minus, left_pointer, lhs, rhs, index, element_size, designator_kept } => match left_pointer {
                Err(e) => Err(e),
                Ok(left) => if !left && minus {
                    Ok(None)
                } else {
                    match pointer_spec(if left { *lhs } else { *rhs }, in_function_body, gnu, d) {
                        Err(e) => Err(e),
                        Ok(None) => Ok(None),
                        Ok(Some(a)) => match moved_offset(a.offset, index, element_size, minus) {
                            None => Ok(None),
                            Some(o) => match designator_kept {
                                Err(e) => Err(e),
                                Ok(kept) => Ok(Some(AddressFacts {
                                    offset: o as i128,
                                    arithmetic: true,
                                    valid_designator: a.valid_designator && kept,
                                    ..a
                                })),
                            },
                        },
                    }
                },
            },
            _ => Ok(None),
    }
}

pub open spec fn pointer_comma_spec(node: SiteNode, in_function_body: bool, gnu: bool, d: nat) -> Result<Option<AddressFacts>, Error>
    decreases node, 2int,
{
    match node.form {
            SiteForm::Comma { discarded, last } => match last {
                None => Ok(None),
                Some(last) => match pointer_spec(*last, in_function_body, gnu, d) {
                    Err(e) => Err(e),
                    Ok(None) => Ok(None),
                    Ok(Some(a)) => match discarded_effects_into(a, discarded@) {
                        Err(e) => Err(e),
                        Ok(b) => Ok(Some(b)),
                    },
                },
            },
            _ => Ok(None),
    }
}

pub open spec fn pointer_decay_spec(node: SiteNode, in_function_body: bool, gnu: bool, d: nat) -> Result<Option<AddressFacts>, Error>
    decreases node, 2int,
{
            match node.decays {
                Err(e) => Err(e),
                Ok(false) => Ok(None),
                Ok(true) => match location_spec(node, in_function_body, gnu, d) {
                    Err(e) => Err(e),
                    Ok(None) => Ok(None),
                    Ok(Some(l)) => Ok(Some(AddressFacts {
                        subobject: l.object,
                        root_address: false,
                        gnu_subobject: match l.containing_array {
                            Some(r) => r,
                            None => l.object,
                        },
                        ..l.address
                    })),
                },
            }
}

fn fact_of<T: Copy>(fact: &Result<T, Error>) -> (r: Result<T, Error>)
    ensures
        r == *fact,
{
    match fact {
        Ok(v) => Ok(*v),
        Err(e) => Err(e.duplicate()),
    }
}

fn move_offset(offset: i128, index: Option<IntegerValue>, size: Option<u64>, minus: bool) -> (r: Option<i128>)
    ensures
        match r {
            Some(o) => moved_offset(offset, index, size, minus) == Some(o as int),
            None => moved_offset(offset, index, size, minus) is None,
        },
{
    let (v, bytes) = match (index, size) {
        (Some(v), Some(bytes)) => (v, bytes),
        _ => return None,
    };
    let i: i128 = if v.signed {
        v.signed_value()
    } else if v.value <= i128::MAX as u128 {
        v.value as i128
    } else {
        return None;
    };
    let i: i128 = if minus {
        if i == i128::MIN {
            return None;
        }
        -i
    } else {
        i
    };
    let delta = match i.checked_mul(bytes as i128) {
        Some(delta) => delta,
        None => return None,
    };
    let o = match offset.checked_add(delta) {
        Some(o) => o,
        None => return None,
    };
    if o < i64::MIN as i128 || o > i64::MAX as i128 {
        return None;
    }
    Some(o)
}

fn apply_discarded(start: AddressFacts, discarded: &Vec<Result<Option<bool>, Error>>) -> (r: Result<AddressFacts, Error>)
    ensures
        r == discarded_effects_into(start, discarded@),
{
    let mut a = start;
    let mut i: usize = 0;
    proof {
        assert(discarded@.skip(0) =~= discarded@);
    }
    while i < discarded.len()
        invariant
            i <= discarded@.len(),
            discarded_effects_into(a, discarded@.skip(i as int)) == discarded_effects_into(start, discarded@),
        decreases discarded.len() - i,
    {
        proof {
            assert(discarded@.skip(i as int).drop_first() =~= discarded@.skip(i as int + 1));
        }
        match fact_of(&discarded[i])? {
            Some(true) => {
                a.gnu_effects = true;
            },
            None => {
                a.uncertain_effects = true;
            },
            Some(false) => {},
        }
        i = i + 1;
    }
    proof {
        assert(discarded@.skip(discarded@.len() as int) =~= Seq::<Result<Option<bool>, Error>>::empty());
    }
    Ok(a)
}

fn location_object(node: &SiteNode, in_function_body: bool, gnu: bool, depth: usize) -> (r: Result<Option<ObjectLocation>, Error>)
    requires
        depth < 128,
        node.form is Object,
    ensures
        r == location_object_spec(*node, in_function_body, gnu, depth as nat + 1),
    decreases node, 0int,
{
    let d = depth + 1;
    match &node.form {
        SiteForm::Object { origin, typed, size } => {
            match typed {
                Err(e) => {
                    return Err(e.duplicate());
                },
                Ok(()) => {},
            }
            let bytes = match size {
                None => return Ok(None),
                Some(bytes) => *bytes,
            };
            let range = Range { start: 0, end: bytes as i128 };
            let compound = *origin == ObjectOrigin::Compound;
            Ok(
                Some(
                    ObjectLocation {
                        address: AddressFacts {
                            whole: range,
                            subobject: range,
                            gnu_subobject: range,
                            offset: 0,
                            origin: *origin,
                            arithmetic: false,
                            valid_designator: true,
                            root_address: true,
                            uncertain_view: false,
                            gnu_effects: compound && in_function_body,
                            uncertain_effects: compound && !in_function_body,
                        },
                        object: range,
                        containing_array: None,
                    },
                ),
            )
        },
        _ => Ok(None),
    }
}

fn member_base(
    indirect: bool,
    base: &SiteNode,
    view_kept: &Result<bool, Error>,
    in_function_body: bool,
    gnu: bool,
    depth: usize,
) -> (r: Result<Option<ObjectLocation>, Error>)
    requires
        depth <= 128,
    ensures
        r == member_base_spec(indirect, *base, *view_kept, in_function_body, gnu, depth as nat),
    decreases base, 4int,
{
    if !indirect {
        return location_at(base, in_function_body, gnu, depth);
    }
    match pointer_at(base, in_function_body, gnu, depth)? {
        None => Ok(None),
        Some(a) => {
            let kept = fact_of(view_kept)?;
            Ok(
                Some(
                    ObjectLocation {
                        address: AddressFacts { uncertain_view: a.uncertain_view || !kept, ..a },
                        object: a.subobject,
                        containing_array: None,
                    },
                ),
            )
        },
    }
}

#[verifier::rlimit(100)]
#[verifier::spinoff_prover]
fn location_member(node: &SiteNode, in_function_body: bool, gnu: bool, depth: usize) -> (r: Result<Option<ObjectLocation>, Error>)
    requires
        depth < 128,
        node.form is Member,
    ensures
        r == location_member_spec(*node, in_function_body, gnu, depth as nat + 1),
    decreases node, 0int,
{
    let d = depth + 1;
    match &node.form {
        SiteForm::Member { indirect, base, view_kept, field } => {
            let l = match member_base(*indirect, base, view_kept, in_function_body, gnu, d)? {
                None => return Ok(None),
                Some(l) => l,
            };
            let (delta, size) = fact_of(field)?;
            let bytes = match size {
                None => return Ok(None),
                Some(bytes) => bytes,
            };
            let start = match l.address.offset.checked_add(delta as i128) {
                None => return Ok(None),
                Some(start) => start,
            };
            let end = match start.checked_add(bytes as i128) {
                None => return Ok(None),
                Some(end) => end,
            };
            Ok(
                Some(
                    ObjectLocation {
                        address: AddressFacts { offset: start, root_address: false, ..l.address },
                        object: Range { start, end },
                        containing_array: None,
                    },
                ),
            )
        },
        _ => Ok(None),
    }
}

fn location_index(node: &SiteNode, in_function_body: bool, gnu: bool, depth: usize) -> (r: Result<Option<ObjectLocation>, Error>)
    requires
        depth < 128,
        node.form is Index,
    ensures
        r == location_index_spec(*node, in_function_body, gnu, depth as nat + 1),
    decreases node, 0int,
{
    let d = depth + 1;
    match &node.form {
        SiteForm::Index { left_pointer, lhs, rhs, index, element_size, designator_kept } => {
            let left = fact_of(left_pointer)?;
            let a = match pointer_at(if left { lhs } else { rhs }, in_function_body, gnu, d)? {
                None => return Ok(None),
                Some(a) => a,
            };
            let start = match move_offset(a.offset, *index, *element_size, false) {
                None => return Ok(None),
                Some(start) => start,
            };
            let bytes = match element_size {
                Some(bytes) => *bytes,
                None => return Ok(None),
            };
            let end = match start.checked_add(bytes as i128) {
                None => return Ok(None),
                Some(end) => end,
            };
            let kept = fact_of(designator_kept)?;
            Ok(
                Some(
                    ObjectLocation {
                        address: AddressFacts {
                            offset: start,
                            root_address: false,
                            valid_designator: a.valid_designator && kept,
                            ..a
                        },
                        object: Range { start, end },
                        containing_array: Some(a.subobject),
                    },
                ),
            )
        },
        _ => Ok(None),
    }
}

fn location_indirection(node: &SiteNode, in_function_body: bool, gnu: bool, depth: usize) -> (r: Result<Option<ObjectLocation>, Error>)
    requires
        depth < 128,
        node.form is Indirection,
    ensures
        r == location_indirection_spec(*node, in_function_body, gnu, depth as nat + 1),
    decreases node, 0int,
{
    let d = depth + 1;
    match &node.form {
        SiteForm::Indirection { operand, view_kept, size } => {
            let a = match pointer_at(operand, in_function_body, gnu, d)? {
                None => return Ok(None),
                Some(a) => a,
            };
            let kept = fact_of(view_kept)?;
            let bytes = match size {
                None => return Ok(None),
                Some(bytes) => *bytes,
            };
            let end = match a.offset.checked_add(bytes as i128) {
                None => return Ok(None),
                Some(end) => end,
            };
            Ok(
                Some(
                    ObjectLocation {
                        address: AddressFacts { uncertain_view: a.uncertain_view || !kept, ..a },
                        object: Range { start: a.offset, end },
                        containing_array: Some(a.subobject),
                    },
                ),
            )
        },
        _ => Ok(None),
    }
}

fn location_at(node: &SiteNode, in_function_body: bool, gnu: bool, depth: usize) -> (r: Result<Option<ObjectLocation>, Error>)
    requires
        depth <= 128,
    ensures
        r == location_spec(*node, in_function_body, gnu, depth as nat),
    decreases node, 1int,
{
    if depth >= 128 {
        return Ok(None);
    }
    match &node.form {
        SiteForm::Object { .. } => location_object(node, in_function_body, gnu, depth),
        SiteForm::Member { .. } => location_member(node, in_function_body, gnu, depth),
        SiteForm::Index { .. } => location_index(node, in_function_body, gnu, depth),
        SiteForm::Indirection { .. } => location_indirection(node, in_function_body, gnu, depth),
        _ => Ok(None),
    }
}

#[verifier::rlimit(100)]
#[verifier::spinoff_prover]
fn pointer_address_of(node: &SiteNode, in_function_body: bool, gnu: bool, depth: usize) -> (r: Result<Option<AddressFacts>, Error>)
    requires
        depth < 128,
        node.form is AddressOf,
    ensures
        r == pointer_address_of_spec(*node, in_function_body, gnu, depth as nat + 1),
    decreases node, 2int,
{
    let d = depth + 1;
    match &node.form {
        SiteForm::AddressOf { operand, designator_kept } => {
            if let SiteForm::Indirection { operand: inner, .. } = &operand.form {
                let a = match pointer_at(inner, in_function_body, gnu, d)? {
                    None => return Ok(None),
                    Some(a) => a,
                };
                if gnu {
                    return Ok(Some(a));
                }
                let kept = fact_of(designator_kept)?;
                return Ok(Some(AddressFacts { valid_designator: a.valid_designator && kept, ..a }));
            }
            let l = match location_at(operand, in_function_body, gnu, d)? {
                None => return Ok(None),
                Some(l) => l,
            };
            let sub = match l.containing_array {
                Some(r) => r,
                None => l.object,
            };
            Ok(Some(AddressFacts { subobject: sub, gnu_subobject: sub, ..l.address }))
        },
        _ => Ok(None),
    }
}

fn pointer_cast(node: &SiteNode, in_function_body: bool, gnu: bool, depth: usize) -> (r: Result<Option<AddressFacts>, Error>)
    requires
        depth < 128,
        node.form is Cast,
    ensures
        r == pointer_cast_spec(*node, in_function_body, gnu, depth as nat + 1),
    decreases node, 2int,
{
    let d = depth + 1;
    match &node.form {
        SiteForm::Cast { pointer, operand } => {
            let variable = match fact_of(pointer)? {
                None => return Ok(None),
                Some(variable) => variable,
            };
            match pointer_at(operand, in_function_body, gnu, d)? {
                None => Ok(None),
                Some(a) => Ok(Some(AddressFacts { gnu_effects: a.gnu_effects || variable, ..a })),
            }
        },
        _ => Ok(None),
    }
}

fn pointer_arithmetic(node: &SiteNode, in_function_body: bool, gnu: bool, depth: usize) -> (r: Result<Option<AddressFacts>, Error>)
    requires
        depth < 128,
        node.form is Arithmetic,
    ensures
        r == pointer_arithmetic_spec(*node, in_function_body, gnu, depth as nat + 1),
    decreases node, 2int,
{
    let d = depth + 1;
    match &node.form {
        SiteForm::Arithmetic { minus, left_pointer, lhs, rhs, index, element_size, designator_kept } => {
            let left = fact_of(left_pointer)?;
            if !left && *minus {
                return Ok(None);
            }
            let a = match pointer_at(if left { lhs } else { rhs }, in_function_body, gnu, d)? {
                None => return Ok(None),
                Some(a) => a,
            };
            let o = match move_offset(a.offset, *index, *element_size, *minus) {
                None => return Ok(None),
                Some(o) => o,
            };
            let kept = fact_of(designator_kept)?;
            Ok(Some(AddressFacts { offset: o, arithmetic: true, valid_designator: a.valid_designator && kept, ..a }))
        },
        _ => Ok(None),
    }
}

fn pointer_comma(node: &SiteNode, in_function_body: bool, gnu: bool, depth: usize) -> (r: Result<Option<AddressFacts>, Error>)
    requires
        depth < 128,
        node.form is Comma,
    ensures
        r == pointer_comma_spec(*node, in_function_body, gnu, depth as nat + 1),
    decreases node, 2int,
{
    let d = depth + 1;
    match &node.form {
        SiteForm::Comma { discarded, last } => {
            let last = match last {
                None => return Ok(None),
                Some(last) => last,
            };
            let a = match pointer_at(last, in_function_body, gnu, d)? {
                None => return Ok(None),
                Some(a) => a,
            };
            Ok(Some(apply_discarded(a, discarded)?))
        },
        _ => Ok(None),
    }
}

fn pointer_decay(node: &SiteNode, in_function_body: bool, gnu: bool, depth: usize) -> (r: Result<Option<AddressFacts>, Error>)
    requires
        depth < 128,
        !(node.form is AddressOf || node.form is Cast || node.form is Arithmetic || node.form is Conditional
            || node.form is Selected || node.form is Comma),
    ensures
        r == pointer_decay_spec(*node, in_function_body, gnu, depth as nat + 1),
    decreases node, 2int,
{
    let d = depth + 1;
            if !fact_of(&node.decays)? {
                return Ok(None);
            }
            match location_at(node, in_function_body, gnu, d)? {
                None => Ok(None),
                Some(l) => Ok(
                    Some(
                        AddressFacts {
                            subobject: l.object,
                            root_address: false,
                            gnu_subobject: match l.containing_array {
                                Some(r) => r,
                                None => l.object,
                            },
                            ..l.address
                        },
                    ),
                ),
            }
}

fn pointer_at(node: &SiteNode, in_function_body: bool, gnu: bool, depth: usize) -> (r: Result<Option<AddressFacts>, Error>)
    requires
        depth <= 128,
    ensures
        r == pointer_spec(*node, in_function_body, gnu, depth as nat),
    decreases node, 3int,
{
    if depth >= 128 {
        return Ok(None);
    }
    let d = depth + 1;
    match &node.form {
        SiteForm::AddressOf { .. } => pointer_address_of(node, in_function_body, gnu, depth),
        SiteForm::Cast { .. } => pointer_cast(node, in_function_body, gnu, depth),
        SiteForm::Arithmetic { .. } => pointer_arithmetic(node, in_function_body, gnu, depth),
        SiteForm::Conditional { truth, then_expression, else_expression } => match truth {
            None => Ok(None),
            Some(true) => pointer_at(then_expression, in_function_body, gnu, d),
            Some(false) => pointer_at(else_expression, in_function_body, gnu, d),
        },
        SiteForm::Selected(selected) => match selected {
            Err(e) => Err(e.duplicate()),
            Ok(operand) => pointer_at(operand, in_function_body, gnu, d),
        },
        SiteForm::Comma { .. } => pointer_comma(node, in_function_body, gnu, depth),
        _ => pointer_decay(node, in_function_body, gnu, depth),
    }
}

/// The storage a designator expression names, as structural provenance
/// identifies it; `in_function_body` and `gnu` describe where the query
/// stands and the compiler profile. See [`location_spec`].
pub fn object_location(node: &SiteNode, in_function_body: bool, gnu: bool) -> (r: Result<Option<ObjectLocation>, Error>)
    ensures
        r == location_spec(*node, in_function_body, gnu, 0),
{
    location_at(node, in_function_body, gnu, 0)
}

/// The address a pointer argument of `__builtin_object_size` holds, as
/// structural provenance identifies it: the input of [`object_size_proof`].
/// See [`pointer_spec`].
pub fn object_pointer(node: &SiteNode, in_function_body: bool, gnu: bool) -> (r: Result<Option<AddressFacts>, Error>)
    ensures
        r == pointer_spec(*node, in_function_body, gnu, 0),
{
    pointer_at(node, in_function_body, gnu, 0)
}

} // verus!
