//! Folded fixed-size vector constants and the step budget of one fold.

use crate::error::Error;
use crate::arith::lemma_mod_pow2_shift;
use crate::integer::{
    convert, fits_signed, lemma_value_of_well_formed, signed_result, source_int, value_of,
    vector_binary_error, vector_binary_spec, vector_integer_binary, BinaryOperator, EvalFailure,
    UnaryOperator,
};
use vstd::arithmetic::power2::{lemma2_to64, lemma2_to64_rest, lemma_pow2_adds, lemma_pow2_pos, lemma_pow2_strictly_increases, pow2};
use crate::ir::{ArithmeticConstant, FloatKind, IntegerKind, IntegerValue, Qualifiers, VectorKind};
use vstd::prelude::*;

verus! {

/// The resolved scalar kind of a vector lane. Its encoded width and floating
/// format are carried by the corresponding [`ArithmeticConstant`] values.
#[derive(Clone, Copy, Debug, PartialEq, Eq, Structural)]
pub enum VectorElement {
    Integer(IntegerKind),
    Floating(FloatKind),
}

/// An owner-independent vector value/storage shape: resolved kinds,
/// qualifiers and effective alignment, without typedef ancestry.
#[derive(Clone, Copy, Debug, PartialEq, Eq, Structural)]
pub struct VectorConstantType {
    kind: VectorKind,
    element: VectorElement,
    qualifiers: Qualifiers,
    atomic: bool,
    alignment_bytes: u64,
    size_bytes: u64,
    lane_count: u64,
}

impl VectorConstantType {
    /// A folded vector has one to sixteen lanes in at most sixteen bytes.
    #[verifier::type_invariant]
    spec fn within_vector_limit(self) -> bool {
        &&& 0 < self.size_bytes <= 16
        &&& 0 < self.lane_count <= 16
    }

    pub closed spec fn kind_spec(self) -> VectorKind {
        self.kind
    }

    pub closed spec fn element_spec(self) -> VectorElement {
        self.element
    }

    pub closed spec fn qualifiers_spec(self) -> Qualifiers {
        self.qualifiers
    }

    pub closed spec fn atomic_spec(self) -> bool {
        self.atomic
    }

    pub closed spec fn alignment_bytes_spec(self) -> u64 {
        self.alignment_bytes
    }

    pub closed spec fn size_bytes_spec(self) -> u64 {
        self.size_bytes
    }

    pub closed spec fn lane_count_spec(self) -> u64 {
        self.lane_count
    }

    /// A shape from its resolved parts.
    pub fn new(
        kind: VectorKind,
        element: VectorElement,
        qualifiers: Qualifiers,
        atomic: bool,
        alignment_bytes: u64,
        size_bytes: u64,
        lane_count: u64,
    ) -> (r: Self)
        requires
            0 < size_bytes <= 16,
            0 < lane_count <= 16,
        ensures
            r.kind_spec() == kind,
            r.element_spec() == element,
            r.qualifiers_spec() == qualifiers,
            r.atomic_spec() == atomic,
            r.alignment_bytes_spec() == alignment_bytes,
            r.size_bytes_spec() == size_bytes,
            r.lane_count_spec() == lane_count,
    {
        VectorConstantType {
            kind,
            element,
            qualifiers,
            atomic,
            alignment_bytes,
            size_bytes,
            lane_count,
        }
    }

    /// Returns the GNU or nominal NEON vector flavor.
    pub fn kind(self) -> (r: VectorKind)
        ensures
            r == self.kind_spec(),
    {
        self.kind
    }

    /// Returns the resolved scalar lane kind.
    pub fn element(self) -> (r: VectorElement)
        ensures
            r == self.element_spec(),
    {
        self.element
    }

    /// Returns the expression type's outer C qualifiers.
    pub fn qualifiers(self) -> (r: Qualifiers)
        ensures
            r == self.qualifiers_spec(),
    {
        self.qualifiers
    }

    /// Reports an atomic-qualified result before value conversion.
    pub fn is_atomic(self) -> (r: bool)
        ensures
            r == self.atomic_spec(),
    {
        self.atomic
    }

    /// Returns the effective C type alignment, including typedef attributes.
    pub fn alignment_bytes(self) -> (r: u64)
        ensures
            r == self.alignment_bytes_spec(),
    {
        self.alignment_bytes
    }

    /// Returns the target storage size of the complete vector.
    pub fn size_bytes(self) -> (r: u64)
        ensures
            r == self.size_bytes_spec(),
            0 < r <= 16,
    {
        proof {
            use_type_invariant(&self);
        }
        self.size_bytes
    }

    /// Returns the number of scalar lanes.
    pub fn lane_count(self) -> (r: u64)
        ensures
            r == self.lane_count_spec(),
            0 < r <= 16,
    {
        proof {
            use_type_invariant(&self);
        }
        self.lane_count
    }
}

/// A folded fixed-size vector, with lanes in source order. Its shape and target
/// encodings remain usable after the evaluation environment is dropped.
#[derive(Debug)]
pub struct VectorConstant {
    ty: VectorConstantType,
    lanes: Vec<ArithmeticConstant>,
}

impl Clone for VectorConstant {
    fn clone(&self) -> (r: Self)
        ensures
            r.ty_spec() == self.ty_spec(),
            r.lanes_spec().len() == self.lanes_spec().len(),
    {
        proof {
            use_type_invariant(self);
        }
        VectorConstant { ty: self.ty, lanes: self.lanes.clone() }
    }
}

impl VectorConstant {
    /// Each lane of the shape holds exactly one value.
    #[verifier::type_invariant]
    spec fn one_value_per_lane(self) -> bool {
        self.lanes@.len() == self.ty.lane_count
    }

    pub closed spec fn ty_spec(&self) -> VectorConstantType {
        self.ty
    }

    pub closed spec fn lanes_spec(&self) -> Seq<ArithmeticConstant> {
        self.lanes@
    }

    /// A folded vector of a shape and its lanes.
    pub fn new(ty: VectorConstantType, lanes: Vec<ArithmeticConstant>) -> (r: Self)
        requires
            lanes@.len() == ty.lane_count_spec(),
        ensures
            r.ty_spec() == ty,
            r.lanes_spec() == lanes@,
    {
        VectorConstant { ty, lanes }
    }

    /// Returns the resolved value/storage shape, before outer value conversion.
    pub fn ty(&self) -> (r: &VectorConstantType)
        ensures
            *r == self.ty_spec(),
    {
        &self.ty
    }

    /// Returns each lane's target-encoded arithmetic value in source order.
    pub fn lanes(&self) -> (r: &[ArithmeticConstant])
        ensures
            r@ == self.lanes_spec(),
            r@.len() == self.ty_spec().lane_count_spec(),
            0 < r@.len() <= 16,
    {
        proof {
            use_type_invariant(self);
            use_type_invariant(&self.ty);
        }
        self.lanes.as_slice()
    }
}

/// The diagnostic of a fold that runs out of steps.
pub open spec fn budget_message() -> Seq<char> {
    "vector constant evaluation exceeds the 65536-step limit"@
}

/// The diagnostic of a type a fold cannot take: not a fixed vector, or a
/// vector outside the sixteen-lane, sixteen-byte limit.
pub open spec fn shape_message(is_vector: bool) -> Seq<char> {
    if !is_vector {
        "vector constant evaluation requires a fixed vector type"@
    } else {
        "vector constant evaluation exceeds the 16-byte vector limit"@
    }
}

/// How many vector expressions and lanes one fold may still visit.
pub struct Budget(pub usize);

/// The steps one fold may take.
pub const VECTOR_FOLD_STEPS: usize = 65536;

impl Budget {
    /// Spends `amount` steps, failing when fewer remain.
    pub fn charge(&mut self, amount: usize, offset: usize) -> (r: Result<(), Error>)
        ensures
            r is Ok <==> amount <= old(self).0,
            r is Ok ==> final(self).0 == old(self).0 - amount,
            r is Err ==> final(self).0 == old(self).0,
            r matches Err(e) ==> e.offset == offset && e.message@ == budget_message(),
    {
        if amount > self.0 {
            return Err(Error::new(offset, "vector constant evaluation exceeds the 65536-step limit"));
        }
        self.0 = self.0 - amount;
        Ok(())
    }
}

/// The lane count of a vector that constant evaluation folds: the type must
/// be a fixed vector (`is_vector`) of one to sixteen lanes and at most
/// sixteen bytes.
pub fn vector_constant_shape(is_vector: bool, lanes: u64, size_bytes: u64, offset: usize) -> (r: Result<usize, Error>)
    ensures
        r is Ok <==> is_vector && 0 < lanes <= 16 && size_bytes <= 16,
        r matches Ok(n) ==> n == lanes,
        r matches Err(e) ==> e.offset == offset && e.message@ == shape_message(is_vector),
{
    if !is_vector {
        return Err(Error::new(offset, "vector constant evaluation requires a fixed vector type"));
    }
    if lanes == 0 || lanes > 16 || size_bytes > 16 {
        return Err(Error::new(offset, "vector constant evaluation exceeds the 16-byte vector limit"));
    }
    Ok(lanes as usize)
}


/// The scalar type of a vector's lanes: an integer type, given by a value of
/// that type, or a floating type.
#[derive(Clone, Copy, Debug, PartialEq, Eq, Structural)]
pub enum LaneElement {
    Integer(IntegerValue),
    Floating,
}

/// What a fold reads of an expression's type: whether it is a fixed vector,
/// its lane count and storage size, and its lane type.
#[derive(Clone, Copy, Debug, PartialEq, Eq, Structural)]
pub struct VectorShape {
    pub vector: bool,
    pub lane_count: u64,
    pub size_bytes: u64,
    pub element: LaneElement,
}

/// One item of a vector compound literal, in lane order.
#[derive(Debug)]
pub enum LiteralLane {
    /// An empty initializer the parser inserted; the lane stays zero.
    Empty,
    /// The item's value converted to the lane type, or the error its
    /// evaluation or conversion gives.
    Value(Result<ArithmeticConstant, Error>),
    /// A nested brace list.
    Braced,
}

/// An operand of a vector binary operator.
#[derive(Debug)]
pub enum VectorOperand {
    /// A vector operand, folded in turn.
    Vector(Box<VectorNode>),
    /// A scalar operand written at `offset`, splat to every lane: the
    /// error that checking it as a static arithmetic constant gives, and
    /// its value converted to the lane type it joins (its own type where it
    /// is a shift count).
    Scalar { offset: usize, static_check: Result<(), Error>, value: Result<ArithmeticConstant, Error> },
}

/// A vector expression as constant folding sees it: its source offset, the
/// shape of its type (or the error its type check gives), and its form.
#[derive(Debug)]
pub struct VectorNode {
    pub offset: usize,
    pub shape: Result<VectorShape, Error>,
    pub form: VectorForm,
}

/// The forms vector constant folding distinguishes. Values the scalar
/// evaluator and floating arithmetic give enter as facts; `floating` holds,
/// lane by lane, what floating arithmetic gives where a lane is not computed
/// on integers.
#[derive(Debug)]
pub enum VectorForm {
    /// A compound literal: the outcome of checking its initializer list,
    /// zero converted to the lane type, and its items.
    Literal { checked: Result<(), Error>, zero: Result<ArithmeticConstant, Error>, items: Vec<LiteralLane> },
    /// A conditional: the static check of the condition, the condition's
    /// truth, and both branches.
    Conditional {
        static_check: Result<(), Error>,
        condition: Result<bool, Error>,
        then_expression: Box<VectorNode>,
        else_expression: Box<VectorNode>,
    },
    /// `__builtin_choose_expr` or `_Generic`, with the operand it selects.
    Selected(Result<Box<VectorNode>, Error>),
    /// A unary operator; `floating` holds the negated floating lanes.
    Unary { operator: UnaryOperator, operand: Box<VectorNode>, floating: Vec<ArithmeticConstant> },
    /// A binary operator: the shape of the vector operand's type (the left
    /// one where it is a vector) or the error the operand types give, and
    /// both operands.
    Binary {
        operator: BinaryOperator,
        source: Result<VectorShape, Error>,
        lhs: VectorOperand,
        rhs: VectorOperand,
        floating: Vec<Result<ArithmeticConstant, Error>>,
    },
    /// `__builtin_convertvector`: whether the source lane type is compatible
    /// with the result's, and the operand.
    Convert { operand: Box<VectorNode>, compatible: Result<bool, Error>, floating: Vec<Result<ArithmeticConstant, Error>> },
    /// Anything else.
    Other,
}

/// The diagnostic of an expression folding does not support.
pub open spec fn unsupported_message() -> Seq<char> {
    "expression is not a supported vector constant"@
}

/// The diagnostic of vector arithmetic in a GNU static initializer.
pub open spec fn gnu_static_message() -> Seq<char> {
    "GNU static vector arithmetic is not a constant initializer"@
}

/// The diagnostic of a numeric vector conversion in a static initializer
/// the compiler profile does not fold.
pub open spec fn conversion_static_message() -> Seq<char> {
    "numeric vector conversion is not a static initializer in this compiler profile"@
}

/// An integer lane is a well-formed integer.
pub open spec fn lane_ok(lane: ArithmeticConstant) -> bool {
    lane matches ArithmeticConstant::Integer(v) ==> v.well_formed()
}

pub open spec fn lanes_ok(lanes: Seq<ArithmeticConstant>) -> bool {
    forall|i: int| 0 <= i < lanes.len() ==> lane_ok(#[trigger] lanes[i])
}

pub open spec fn fact_lane_ok(fact: Result<ArithmeticConstant, Error>) -> bool {
    fact matches Ok(lane) ==> lane_ok(lane)
}

pub open spec fn facts_ok(facts: Seq<Result<ArithmeticConstant, Error>>) -> bool {
    forall|i: int| 0 <= i < facts.len() ==> fact_lane_ok(#[trigger] facts[i])
}

/// A child of a vector expression has as many lanes as the expression.
pub open spec fn same_count(child: Result<VectorShape, Error>, parent: Result<VectorShape, Error>) -> bool {
    (child is Ok && parent is Ok) ==> child->Ok_0.lane_count == parent->Ok_0.lane_count
}

/// Per-lane facts cover every lane of the expression.
pub open spec fn covers(len: nat, shape: Result<VectorShape, Error>) -> bool {
    shape is Ok ==> len >= shape->Ok_0.lane_count
}

/// Whether the facts of a vector expression cohere: integer values are well
/// formed, children have the expression's lane count, per-lane facts cover
/// every lane, and a checked compound literal has no more items than lanes.
pub open spec fn vector_facts_well_formed(node: VectorNode) -> bool
    decreases node,
{
    &&& (node.shape is Ok ==> (node.shape->Ok_0.element matches LaneElement::Integer(t) ==> t.well_formed()))
    &&& match node.form {
        VectorForm::Literal { checked, zero, items } => {
            &&& fact_lane_ok(zero)
            &&& (forall|i: int| 0 <= i < items@.len() ==> (#[trigger] items@[i] matches LiteralLane::Value(r) ==> fact_lane_ok(r)))
            &&& ((checked is Ok && node.shape is Ok) ==> items@.len() <= node.shape->Ok_0.lane_count)
        },
        VectorForm::Conditional { static_check: _, condition: _, then_expression, else_expression } => {
            &&& vector_facts_well_formed(*then_expression)
            &&& vector_facts_well_formed(*else_expression)
            &&& same_count(then_expression.shape, node.shape)
            &&& same_count(else_expression.shape, node.shape)
        },
        VectorForm::Selected(selected) => match selected {
            Ok(n) => vector_facts_well_formed(*n) && same_count(n.shape, node.shape),
            Err(_) => true,
        },
        VectorForm::Unary { operator: _, operand, floating } => {
            &&& vector_facts_well_formed(*operand)
            &&& same_count(operand.shape, node.shape)
            &&& lanes_ok(floating@)
            &&& covers(floating@.len(), node.shape)
        },
        VectorForm::Binary { operator: _, source: _, lhs, rhs, floating } => {
            &&& match lhs {
                VectorOperand::Vector(n) => vector_facts_well_formed(*n) && same_count(n.shape, node.shape),
                VectorOperand::Scalar { offset: _, static_check: _, value } => fact_lane_ok(value),
            }
            &&& match rhs {
                VectorOperand::Vector(n) => vector_facts_well_formed(*n) && same_count(n.shape, node.shape),
                VectorOperand::Scalar { offset: _, static_check: _, value } => fact_lane_ok(value),
            }
            &&& facts_ok(floating@)
            &&& covers(floating@.len(), node.shape)
        },
        VectorForm::Convert { operand, compatible: _, floating } => {
            &&& vector_facts_well_formed(*operand)
            &&& same_count(operand.shape, node.shape)
            &&& facts_ok(floating@)
            &&& covers(floating@.len(), node.shape)
        },
        VectorForm::Other => true,
    }
}

/// The lanes `lane(0)`, ..., `lane(n - 1)`, or the failure of the first
/// lane that has none.
pub open spec fn map_lanes(n: nat, lane: spec_fn(int) -> Result<ArithmeticConstant, EvalFailure>) -> Result<Seq<ArithmeticConstant>, EvalFailure>
    decreases n,
{
    if n == 0 {
        Ok(Seq::empty())
    } else {
        match map_lanes((n - 1) as nat, lane) {
            Err(f) => Err(f),
            Ok(s) => match lane(n - 1) {
                Err(f) => Err(f),
                Ok(v) => Ok(s.push(v)),
            },
        }
    }
}

/// A fact's lane, or its error.
pub open spec fn fact_lane(fact: Result<ArithmeticConstant, Error>) -> Result<ArithmeticConstant, EvalFailure> {
    match fact {
        Ok(v) => Ok(v),
        Err(e) => Err(EvalFailure::Fact(e)),
    }
}

/// Lane `i` of a compound literal: its item's value, zero for an empty or
/// missing item.
pub open spec fn literal_lane(items: Seq<LiteralLane>, zero: ArithmeticConstant, offset: usize) -> spec_fn(int) -> Result<ArithmeticConstant, EvalFailure> {
    |i: int| if i < items.len() {
        match items[i] {
            LiteralLane::Empty => Ok(zero),
            LiteralLane::Value(fact) => fact_lane(fact),
            LiteralLane::Braced => Err(EvalFailure::At(offset, unsupported_message())),
        }
    } else {
        Ok(zero)
    }
}

/// The negation of an integer lane at its own width; `None` where a signed
/// lane overflows.
pub open spec fn negated_lane(v: IntegerValue) -> Option<IntegerValue> {
    if v.signed {
        if fits_signed(-v.signed_value_spec(), v.bits) {
            Some(value_of(-v.signed_value_spec(), v.bits, true, v.rank))
        } else {
            None
        }
    } else {
        Some(value_of(-(v.value as int), v.bits, false, v.rank))
    }
}

/// A unary operator on one lane: `+` keeps it, `-` and `~` act on an
/// integer lane at its own width, `-` of a floating lane is the negated
/// fact, and anything else is not supported.
pub open spec fn unary_value(op: UnaryOperator, lane: ArithmeticConstant, negated_float: ArithmeticConstant, offset: usize) -> Result<ArithmeticConstant, EvalFailure> {
    if op is Plus {
        Ok(lane)
    } else {
        match lane {
            ArithmeticConstant::Integer(v) => if op is Minus {
                match negated_lane(v) {
                    Some(x) => Ok(ArithmeticConstant::Integer(x)),
                    None => Err(EvalFailure::At(offset, "signed integer overflow"@)),
                }
            } else {
                Ok(ArithmeticConstant::Integer(value_of(u128::MAX - v.value, v.bits, v.signed, v.rank)))
            },
            ArithmeticConstant::Floating(_) => if op is Minus {
                Ok(negated_float)
            } else {
                Err(EvalFailure::At(offset, unsupported_message()))
            },
            ArithmeticConstant::Complex(_) => Err(EvalFailure::At(offset, unsupported_message())),
        }
    }
}

pub open spec fn unary_lane(op: UnaryOperator, lanes: Seq<ArithmeticConstant>, floating: Seq<ArithmeticConstant>, offset: usize) -> spec_fn(int) -> Result<ArithmeticConstant, EvalFailure> {
    |i: int| unary_value(op, lanes[i], floating[i], offset)
}

/// The comparison operators, whose lanes are all ones or all zeros.
pub open spec fn is_comparison(op: BinaryOperator) -> bool {
    op is Equals || op is NotEquals || op is Less || op is LessOrEqual || op is Greater || op is GreaterOrEqual
}

/// The binary operators folding applies lane by lane.
pub open spec fn lane_operator(op: BinaryOperator) -> bool {
    ||| op is Plus || op is Minus || op is Multiply || op is Divide || op is Modulo
    ||| op is BitwiseAnd || op is BitwiseOr || op is BitwiseXor || op is ShiftLeft || op is ShiftRight
    ||| is_comparison(op)
}

/// A binary operator on one pair of lanes: integer lanes keep their width,
/// a comparison gives -1 or 0, and the value converts to the result's lane
/// type; a lane involving floating arithmetic is the fact.
pub open spec fn binary_value(op: BinaryOperator, l: ArithmeticConstant, r: ArithmeticConstant, element: LaneElement, fact: Result<ArithmeticConstant, Error>, offset: usize) -> Result<ArithmeticConstant, EvalFailure> {
    match (l, r) {
        (ArithmeticConstant::Integer(a), ArithmeticConstant::Integer(b)) => match vector_binary_spec(op, a, b) {
            None => Err(EvalFailure::At(offset, vector_binary_error(op, a, b))),
            Some(v) => match element {
                LaneElement::Integer(t) => Ok(ArithmeticConstant::Integer(value_of(
                    if is_comparison(op) {
                        if v.value != 0 { -1 } else { 0 }
                    } else {
                        source_int(v)
                    },
                    t.bits,
                    t.signed,
                    t.rank,
                ))),
                LaneElement::Floating => fact_lane(fact),
            },
        },
        _ => fact_lane(fact),
    }
}

pub open spec fn binary_lane(op: BinaryOperator, left: Seq<ArithmeticConstant>, right: Seq<ArithmeticConstant>, element: LaneElement, floating: Seq<Result<ArithmeticConstant, Error>>, offset: usize) -> spec_fn(int) -> Result<ArithmeticConstant, EvalFailure> {
    |i: int| binary_value(op, left[i], right[i], element, floating[i], offset)
}

/// One lane converted to the result's lane type: an integer lane keeps the
/// low bits of its value; other conversions are the fact.
pub open spec fn converted_value(lane: ArithmeticConstant, element: LaneElement, fact: Result<ArithmeticConstant, Error>) -> Result<ArithmeticConstant, EvalFailure> {
    match (lane, element) {
        (ArithmeticConstant::Integer(v), LaneElement::Integer(t)) => Ok(ArithmeticConstant::Integer(value_of(source_int(v), t.bits, t.signed, t.rank))),
        _ => fact_lane(fact),
    }
}

pub open spec fn convert_lane(lanes: Seq<ArithmeticConstant>, element: LaneElement, floating: Seq<Result<ArithmeticConstant, Error>>) -> spec_fn(int) -> Result<ArithmeticConstant, EvalFailure> {
    |i: int| converted_value(lanes[i], element, floating[i])
}

/// A scalar operand splat to `count` lanes, after charging them.
pub open spec fn scalar_lanes(offset: usize, static_check: Result<(), Error>, value: Result<ArithmeticConstant, Error>, count: nat, initializer: bool, budget: nat) -> Result<(Seq<ArithmeticConstant>, nat), EvalFailure> {
    if budget < count {
        Err(EvalFailure::At(offset, budget_message()))
    } else if initializer && static_check is Err {
        Err(EvalFailure::Fact(static_check->Err_0))
    } else {
        match value {
            Err(e) => Err(EvalFailure::Fact(e)),
            Ok(v) => Ok((Seq::new(count, |i: int| v), (budget - count) as nat)),
        }
    }
}

/// Attaches the remaining budget to lanes.
pub open spec fn with_budget(lanes: Result<Seq<ArithmeticConstant>, EvalFailure>, budget: nat) -> Result<(Seq<ArithmeticConstant>, nat), EvalFailure> {
    match lanes {
        Ok(l) => Ok((l, budget)),
        Err(f) => Err(f),
    }
}

/// The lanes of a vector constant expression and the steps left, folding
/// with `budget` steps: each expression costs one step and one per lane,
/// and so does each scalar operand splat across lanes. `initializer` is set
/// for a static initializer and `gnu` for the GNU compiler profile.
pub open spec fn fold_spec(node: VectorNode, initializer: bool, gnu: bool, budget: nat) -> Result<(Seq<ArithmeticConstant>, nat), EvalFailure>
    decreases node,
{
    let offset = node.offset;
    if budget < 1 {
        Err(EvalFailure::At(offset, budget_message()))
    } else {
        match node.shape {
            Err(e) => Err(EvalFailure::Fact(e)),
            Ok(s) => if !(s.vector && 0 < s.lane_count <= 16 && s.size_bytes <= 16) {
                Err(EvalFailure::At(offset, shape_message(s.vector)))
            } else if budget - 1 < s.lane_count {
                Err(EvalFailure::At(offset, budget_message()))
            } else {
                let count = s.lane_count as nat;
                let b = (budget - 1 - count) as nat;
                match node.form {
                    VectorForm::Literal { checked, zero, items } => match checked {
                        Err(e) => Err(EvalFailure::Fact(e)),
                        Ok(_) => match zero {
                            Err(e) => Err(EvalFailure::Fact(e)),
                            Ok(z) => with_budget(map_lanes(count, literal_lane(items@, z, offset)), b),
                        },
                    },
                    VectorForm::Conditional { static_check, condition, then_expression, else_expression } => {
                        if initializer && static_check is Err {
                            Err(EvalFailure::Fact(static_check->Err_0))
                        } else {
                            match condition {
                                Err(e) => Err(EvalFailure::Fact(e)),
                                Ok(c) => if c {
                                    fold_spec(*then_expression, initializer, gnu, b)
                                } else {
                                    fold_spec(*else_expression, initializer, gnu, b)
                                },
                            }
                        }
                    },
                    VectorForm::Selected(selected) => match selected {
                        Err(e) => Err(EvalFailure::Fact(e)),
                        Ok(n) => fold_spec(*n, initializer, gnu, b),
                    },
                    VectorForm::Unary { operator, operand, floating } => {
                        if !(operator is Plus || operator is Minus || operator is Complement) {
                            Err(EvalFailure::At(offset, unsupported_message()))
                        } else if initializer && gnu && !(operator is Plus) {
                            Err(EvalFailure::At(offset, gnu_static_message()))
                        } else {
                            match fold_spec(*operand, initializer, gnu, b) {
                                Err(f) => Err(f),
                                Ok((l, b2)) => with_budget(map_lanes(l.len(), unary_lane(operator, l, floating@, offset)), b2),
                            }
                        }
                    },
                    VectorForm::Binary { operator, source, lhs, rhs, floating } => {
                        if !lane_operator(operator) {
                            Err(EvalFailure::At(offset, unsupported_message()))
                        } else if initializer && gnu {
                            Err(EvalFailure::At(offset, gnu_static_message()))
                        } else {
                            match source {
                                Err(e) => Err(EvalFailure::Fact(e)),
                                Ok(src) => if !(src.vector && 0 < src.lane_count <= 16 && src.size_bytes <= 16) {
                                    Err(EvalFailure::At(offset, shape_message(src.vector)))
                                } else {
                                    let left = match lhs {
                                        VectorOperand::Vector(n) => fold_spec(*n, initializer, gnu, b),
                                        VectorOperand::Scalar { offset: o, static_check, value } => scalar_lanes(o, static_check, value, count, initializer, b),
                                    };
                                    match left {
                                        Err(f) => Err(f),
                                        Ok((l, b2)) => {
                                            let right = match rhs {
                                                VectorOperand::Vector(n) => fold_spec(*n, initializer, gnu, b2),
                                                VectorOperand::Scalar { offset: o, static_check, value } => scalar_lanes(o, static_check, value, count, initializer, b2),
                                            };
                                            match right {
                                                Err(f) => Err(f),
                                                Ok((r, b3)) => with_budget(map_lanes(l.len(), binary_lane(operator, l, r, s.element, floating@, offset)), b3),
                                            }
                                        },
                                    }
                                },
                            }
                        }
                    },
                    VectorForm::Convert { operand, compatible, floating } => match fold_spec(*operand, initializer, gnu, b) {
                        Err(f) => Err(f),
                        Ok((l, b2)) => if initializer && !gnu {
                            Err(EvalFailure::At(offset, conversion_static_message()))
                        } else if initializer && compatible is Err {
                            Err(EvalFailure::Fact(compatible->Err_0))
                        } else if initializer && !compatible->Ok_0 {
                            Err(EvalFailure::At(offset, conversion_static_message()))
                        } else {
                            with_budget(map_lanes(l.len(), convert_lane(l, s.element, floating@)), b2)
                        },
                    },
                    VectorForm::Other => Err(EvalFailure::At(offset, unsupported_message())),
                }
            },
        }
    }
}

/// The lanes of a vector constant expression folded within the step limit.
pub open spec fn vector_value(node: VectorNode, initializer: bool, gnu: bool) -> Result<Seq<ArithmeticConstant>, EvalFailure> {
    match fold_spec(node, initializer, gnu, VECTOR_FOLD_STEPS as nat) {
        Ok((lanes, _)) => Ok(lanes),
        Err(f) => Err(f),
    }
}

/// Whether an error is the failure the rules give.
pub open spec fn fails_with(e: Error, f: EvalFailure) -> bool {
    match f {
        EvalFailure::Fact(fact) => e == fact,
        EvalFailure::At(offset, message) => e.offset == offset && e.message@ == message,
    }
}

/// Whether a fold's outcome is the one the rules give.
pub open spec fn reports_vector(r: Result<Vec<ArithmeticConstant>, Error>, expected: Result<Seq<ArithmeticConstant>, EvalFailure>) -> bool {
    match (r, expected) {
        (Ok(v), Ok(w)) => v@ == w,
        (Err(e), Err(f)) => fails_with(e, f),
        _ => false,
    }
}

/// Whether one lane's outcome is the one the rules give.
pub open spec fn reports_lane(r: Result<ArithmeticConstant, Error>, expected: Result<ArithmeticConstant, EvalFailure>) -> bool {
    match (r, expected) {
        (Ok(v), Ok(w)) => v == w,
        (Err(e), Err(f)) => fails_with(e, f),
        _ => false,
    }
}

/// The first lane without a value decides the failure of all lanes.
proof fn lemma_map_lanes_stops(n: nat, lane: spec_fn(int) -> Result<ArithmeticConstant, EvalFailure>, i: nat)
    requires
        i < n,
        map_lanes(i, lane) is Ok,
        lane(i as int) is Err,
    ensures
        map_lanes(n, lane) == Err::<Seq<ArithmeticConstant>, EvalFailure>(lane(i as int)->Err_0),
    decreases n,
{
    if n > i + 1 {
        lemma_map_lanes_stops((n - 1) as nat, lane, i);
    }
}


fn fact_lane_exec(fact: &Result<ArithmeticConstant, Error>) -> (r: Result<ArithmeticConstant, Error>)
    ensures
        reports_lane(r, fact_lane(*fact)),
        r matches Ok(x) ==> *fact == Ok::<ArithmeticConstant, Error>(x),
{
    match fact {
        Ok(v) => Ok(*v),
        Err(e) => Err(e.duplicate()),
    }
}

fn unary_value_exec(op: UnaryOperator, lane: ArithmeticConstant, negated_float: ArithmeticConstant, offset: usize) -> (r: Result<ArithmeticConstant, Error>)
    requires
        lane_ok(lane),
        lane_ok(negated_float),
    ensures
        reports_lane(r, unary_value(op, lane, negated_float, offset)),
        r matches Ok(x) ==> lane_ok(x),
{
    let minus = match op {
        UnaryOperator::Plus => {
            return Ok(lane);
        },
        UnaryOperator::Minus => true,
        _ => false,
    };
    match lane {
        ArithmeticConstant::Integer(v) => {
            proof {
                lemma2_to64();
                lemma2_to64_rest();
                lemma_pow2_adds(64, 64);
                lemma_pow2_pos(v.bits as nat);
            }
            if minus {
                if v.signed {
                    let sv = v.signed_value();
                    let negated = if sv == i128::MIN {
                        None
                    } else {
                        Some(-sv)
                    };
                    proof {
                        if sv == i128::MIN {
                            lemma_pow2_adds(64, 63);
                            assert(pow2(127) == 0x8000_0000_0000_0000_0000_0000_0000_0000);
                            if v.bits < 128 {
                                lemma_pow2_strictly_increases((v.bits - 1) as nat, 127);
                            }
                        }
                        lemma_value_of_well_formed(-v.signed_value_spec(), v.bits, true, v.rank);
                    }
                    let x = signed_result(negated, v, offset)?;
                    proof {
                        assert(x == value_of(-v.signed_value_spec(), v.bits, true, v.rank));
                    }
                    Ok(ArithmeticConstant::Integer(x))
                } else {
                    let stored: u128 = if v.value == 0 {
                        0
                    } else {
                        u128::MAX - v.value + 1
                    };
                    proof {
                        if v.value != 0 {
                            lemma_mod_pow2_shift(-(v.value as int), 1, v.bits as nat, 128);
                        }
                        lemma_value_of_well_formed(-(v.value as int), v.bits, false, v.rank);
                    }
                    let x = IntegerValue::new(stored, v.bits, false, v.rank);
                    proof {
                        assert(x == value_of(-(v.value as int), v.bits, false, v.rank));
                    }
                    Ok(ArithmeticConstant::Integer(x))
                }
            } else {
                let stored = v.value;
                let flipped = !stored;
                assert(flipped == u128::MAX - stored) by (bit_vector)
                    requires
                        flipped == !stored,
                ;
                proof {
                    lemma_value_of_well_formed(u128::MAX - v.value, v.bits, v.signed, v.rank);
                }
                let x = IntegerValue::new(flipped, v.bits, v.signed, v.rank);
                proof {
                    assert(x == value_of(u128::MAX - v.value, v.bits, v.signed, v.rank));
                }
                Ok(ArithmeticConstant::Integer(x))
            }
        },
        ArithmeticConstant::Floating(_) => if minus {
            Ok(negated_float)
        } else {
            Err(Error::new(offset, "expression is not a supported vector constant"))
        },
        ArithmeticConstant::Complex(_) => Err(Error::new(offset, "expression is not a supported vector constant")),
    }
}

fn binary_value_exec(
    op: BinaryOperator,
    l: ArithmeticConstant,
    r: ArithmeticConstant,
    element: LaneElement,
    fact: &Result<ArithmeticConstant, Error>,
    offset: usize,
) -> (res: Result<ArithmeticConstant, Error>)
    requires
        lane_ok(l),
        lane_ok(r),
        element matches LaneElement::Integer(t) ==> t.well_formed(),
        fact_lane_ok(*fact),
    ensures
        reports_lane(res, binary_value(op, l, r, element, *fact, offset)),
        res matches Ok(x) ==> lane_ok(x),
{
    match (l, r) {
        (ArithmeticConstant::Integer(a), ArithmeticConstant::Integer(b)) => {
            let v = vector_integer_binary(op, a, b, offset)?;
            match element {
                LaneElement::Integer(t) => {
                    let comparison = match op {
                        BinaryOperator::Equals | BinaryOperator::NotEquals | BinaryOperator::Less
                        | BinaryOperator::LessOrEqual | BinaryOperator::Greater
                        | BinaryOperator::GreaterOrEqual => true,
                        _ => false,
                    };
                    let x = if comparison {
                        IntegerValue::from_int(if v.value != 0 {
                            -1
                        } else {
                            0
                        })
                    } else {
                        v
                    };
                    proof {
                        lemma2_to64();
                        if comparison {
                            assert(source_int(x) == if v.value != 0 { -1int } else { 0int });
                        }
                    }
                    let y = convert(x, t);
                    proof {
                        lemma_value_of_well_formed(source_int(x), t.bits, t.signed, t.rank);
                        assert(y == value_of(source_int(x), t.bits, t.signed, t.rank));
                    }
                    Ok(ArithmeticConstant::Integer(y))
                },
                LaneElement::Floating => fact_lane_exec(fact),
            }
        },
        _ => fact_lane_exec(fact),
    }
}

fn converted_value_exec(lane: ArithmeticConstant, element: LaneElement, fact: &Result<ArithmeticConstant, Error>) -> (r: Result<ArithmeticConstant, Error>)
    requires
        element matches LaneElement::Integer(t) ==> t.well_formed(),
        fact_lane_ok(*fact),
    ensures
        reports_lane(r, converted_value(lane, element, *fact)),
        r matches Ok(x) ==> lane_ok(x),
{
    match (lane, element) {
        (ArithmeticConstant::Integer(v), LaneElement::Integer(t)) => {
            proof {
                lemma2_to64();
                lemma_value_of_well_formed(source_int(v), t.bits, t.signed, t.rank);
            }
            let y = convert(v, t);
            proof {
                assert(y == value_of(source_int(v), t.bits, t.signed, t.rank));
            }
            Ok(ArithmeticConstant::Integer(y))
        },
        _ => fact_lane_exec(fact),
    }
}


fn literal_lanes(items: &Vec<LiteralLane>, zero: ArithmeticConstant, count: usize, offset: usize) -> (r: Result<Vec<ArithmeticConstant>, Error>)
    requires
        lane_ok(zero),
        forall|i: int| 0 <= i < items@.len() ==> (#[trigger] items@[i] matches LiteralLane::Value(g) ==> fact_lane_ok(g)),
    ensures
        reports_vector(r, map_lanes(count as nat, literal_lane(items@, zero, offset))),
        r matches Ok(v) ==> v@.len() == count && lanes_ok(v@),
{
    let ghost f = literal_lane(items@, zero, offset);
    let mut out: Vec<ArithmeticConstant> = Vec::new();
    let mut i: usize = 0;
    while i < count
        invariant
            i <= count,
            f == literal_lane(items@, zero, offset),
            map_lanes(i as nat, f) == Ok::<Seq<ArithmeticConstant>, EvalFailure>(out@),
            out@.len() == i,
            lanes_ok(out@),
            lane_ok(zero),
            forall|j: int| 0 <= j < items@.len() ==> (#[trigger] items@[j] matches LiteralLane::Value(g) ==> fact_lane_ok(g)),
        decreases count - i,
    {
        let lane = if i < items.len() {
            match &items[i] {
                LiteralLane::Empty => zero,
                LiteralLane::Value(fact) => match fact_lane_exec(fact) {
                    Ok(v) => v,
                    Err(e) => {
                        proof {
                            lemma_map_lanes_stops(count as nat, f, i as nat);
                        }
                        return Err(e);
                    },
                },
                LiteralLane::Braced => {
                    proof {
                        lemma_map_lanes_stops(count as nat, f, i as nat);
                    }
                    return Err(Error::new(offset, "expression is not a supported vector constant"));
                },
            }
        } else {
            zero
        };
        proof {
            assert(f(i as int) == Ok::<ArithmeticConstant, EvalFailure>(lane));
        }
        out.push(lane);
        i = i + 1;
    }
    Ok(out)
}

fn unary_lanes(op: UnaryOperator, lanes: &Vec<ArithmeticConstant>, floating: &Vec<ArithmeticConstant>, offset: usize) -> (r: Result<Vec<ArithmeticConstant>, Error>)
    requires
        lanes_ok(lanes@),
        lanes_ok(floating@),
        floating@.len() >= lanes@.len(),
    ensures
        reports_vector(r, map_lanes(lanes@.len(), unary_lane(op, lanes@, floating@, offset))),
        r matches Ok(v) ==> v@.len() == lanes@.len() && lanes_ok(v@),
{
    let ghost f = unary_lane(op, lanes@, floating@, offset);
    let mut out: Vec<ArithmeticConstant> = Vec::new();
    let mut i: usize = 0;
    while i < lanes.len()
        invariant
            i <= lanes@.len(),
            f == unary_lane(op, lanes@, floating@, offset),
            map_lanes(i as nat, f) == Ok::<Seq<ArithmeticConstant>, EvalFailure>(out@),
            out@.len() == i,
            lanes_ok(out@),
            lanes_ok(lanes@),
            lanes_ok(floating@),
            floating@.len() >= lanes@.len(),
        decreases lanes.len() - i,
    {
        let lane = match unary_value_exec(op, lanes[i], floating[i], offset) {
            Ok(v) => v,
            Err(e) => {
                proof {
                    lemma_map_lanes_stops(lanes@.len(), f, i as nat);
                }
                return Err(e);
            },
        };
        out.push(lane);
        i = i + 1;
    }
    Ok(out)
}

fn binary_lanes(
    op: BinaryOperator,
    left: &Vec<ArithmeticConstant>,
    right: &Vec<ArithmeticConstant>,
    element: LaneElement,
    floating: &Vec<Result<ArithmeticConstant, Error>>,
    offset: usize,
) -> (r: Result<Vec<ArithmeticConstant>, Error>)
    requires
        lanes_ok(left@),
        lanes_ok(right@),
        right@.len() >= left@.len(),
        floating@.len() >= left@.len(),
        facts_ok(floating@),
        element matches LaneElement::Integer(t) ==> t.well_formed(),
    ensures
        reports_vector(r, map_lanes(left@.len(), binary_lane(op, left@, right@, element, floating@, offset))),
        r matches Ok(v) ==> v@.len() == left@.len() && lanes_ok(v@),
{
    let ghost f = binary_lane(op, left@, right@, element, floating@, offset);
    let mut out: Vec<ArithmeticConstant> = Vec::new();
    let mut i: usize = 0;
    while i < left.len()
        invariant
            i <= left@.len(),
            f == binary_lane(op, left@, right@, element, floating@, offset),
            map_lanes(i as nat, f) == Ok::<Seq<ArithmeticConstant>, EvalFailure>(out@),
            out@.len() == i,
            lanes_ok(out@),
            lanes_ok(left@),
            lanes_ok(right@),
            right@.len() >= left@.len(),
            floating@.len() >= left@.len(),
            facts_ok(floating@),
            element matches LaneElement::Integer(t) ==> t.well_formed(),
        decreases left.len() - i,
    {
        let lane = match binary_value_exec(op, left[i], right[i], element, &floating[i], offset) {
            Ok(v) => v,
            Err(e) => {
                proof {
                    lemma_map_lanes_stops(left@.len(), f, i as nat);
                }
                return Err(e);
            },
        };
        out.push(lane);
        i = i + 1;
    }
    Ok(out)
}

fn convert_lanes(lanes: &Vec<ArithmeticConstant>, element: LaneElement, floating: &Vec<Result<ArithmeticConstant, Error>>) -> (r: Result<Vec<ArithmeticConstant>, Error>)
    requires
        floating@.len() >= lanes@.len(),
        facts_ok(floating@),
        element matches LaneElement::Integer(t) ==> t.well_formed(),
    ensures
        reports_vector(r, map_lanes(lanes@.len(), convert_lane(lanes@, element, floating@))),
        r matches Ok(v) ==> v@.len() == lanes@.len() && lanes_ok(v@),
{
    let ghost f = convert_lane(lanes@, element, floating@);
    let mut out: Vec<ArithmeticConstant> = Vec::new();
    let mut i: usize = 0;
    while i < lanes.len()
        invariant
            i <= lanes@.len(),
            f == convert_lane(lanes@, element, floating@),
            map_lanes(i as nat, f) == Ok::<Seq<ArithmeticConstant>, EvalFailure>(out@),
            out@.len() == i,
            lanes_ok(out@),
            floating@.len() >= lanes@.len(),
            facts_ok(floating@),
            element matches LaneElement::Integer(t) ==> t.well_formed(),
        decreases lanes.len() - i,
    {
        let lane = match converted_value_exec(lanes[i], element, &floating[i]) {
            Ok(v) => v,
            Err(e) => {
                proof {
                    lemma_map_lanes_stops(lanes@.len(), f, i as nat);
                }
                return Err(e);
            },
        };
        out.push(lane);
        i = i + 1;
    }
    Ok(out)
}

fn scalar_exec(
    offset: usize,
    static_check: &Result<(), Error>,
    value: &Result<ArithmeticConstant, Error>,
    count: usize,
    initializer: bool,
    budget: &mut Budget,
) -> (r: Result<Vec<ArithmeticConstant>, Error>)
    requires
        fact_lane_ok(*value),
    ensures
        match scalar_lanes(offset, *static_check, *value, count as nat, initializer, old(budget).0 as nat) {
            Ok((lanes, rest)) => r matches Ok(v) && v@ == lanes && final(budget).0 == rest,
            Err(f) => r matches Err(e) && fails_with(e, f),
        },
        r matches Ok(v) ==> v@.len() == count && lanes_ok(v@),
{
    budget.charge(count, offset)?;
    if initializer {
        match static_check {
            Err(e) => {
                return Err(e.duplicate());
            },
            Ok(()) => {},
        }
    }
    let v = match value {
        Ok(v) => *v,
        Err(e) => {
            return Err(e.duplicate());
        },
    };
    let mut out: Vec<ArithmeticConstant> = Vec::new();
    let mut i: usize = 0;
    while i < count
        invariant
            i <= count,
            out@ == Seq::new(i as nat, |j: int| v),
            lane_ok(v),
        decreases count - i,
    {
        out.push(v);
        i = i + 1;
        proof {
            assert(out@ =~= Seq::new(i as nat, |j: int| v));
        }
    }
    proof {
        assert(out@ =~= Seq::new(count as nat, |j: int| v));
    }
    Ok(out)
}

fn is_lane_operator(op: BinaryOperator) -> (r: bool)
    ensures
        r == lane_operator(op),
{
    match op {
        BinaryOperator::Plus | BinaryOperator::Minus | BinaryOperator::Multiply | BinaryOperator::Divide
        | BinaryOperator::Modulo | BinaryOperator::BitwiseAnd | BinaryOperator::BitwiseOr
        | BinaryOperator::BitwiseXor | BinaryOperator::ShiftLeft | BinaryOperator::ShiftRight
        | BinaryOperator::Equals | BinaryOperator::NotEquals | BinaryOperator::Less
        | BinaryOperator::LessOrEqual | BinaryOperator::Greater | BinaryOperator::GreaterOrEqual => true,
        _ => false,
    }
}


fn fold(node: &VectorNode, initializer: bool, gnu: bool, budget: &mut Budget) -> (r: Result<Vec<ArithmeticConstant>, Error>)
    requires
        vector_facts_well_formed(*node),
    ensures
        match fold_spec(*node, initializer, gnu, old(budget).0 as nat) {
            Ok((lanes, rest)) => r matches Ok(v) && v@ == lanes && final(budget).0 == rest,
            Err(f) => r matches Err(e) && fails_with(e, f),
        },
        r matches Ok(v) ==> node.shape is Ok && v@.len() == node.shape->Ok_0.lane_count && lanes_ok(v@),
    decreases node,
{
    let offset = node.offset;
    budget.charge(1, offset)?;
    let s = match &node.shape {
        Ok(s) => *s,
        Err(e) => {
            return Err(e.duplicate());
        },
    };
    let count = vector_constant_shape(s.vector, s.lane_count, s.size_bytes, offset)?;
    budget.charge(count, offset)?;
    match &node.form {
        VectorForm::Literal { checked, zero, items } => {
            match checked {
                Err(e) => {
                    return Err(e.duplicate());
                },
                Ok(()) => {},
            }
            let z = match zero {
                Ok(z) => *z,
                Err(e) => {
                    return Err(e.duplicate());
                },
            };
            literal_lanes(items, z, count, offset)
        },
        VectorForm::Conditional { static_check, condition, then_expression, else_expression } => {
            if initializer {
                match static_check {
                    Err(e) => {
                        return Err(e.duplicate());
                    },
                    Ok(()) => {},
                }
            }
            let c = match condition {
                Ok(c) => *c,
                Err(e) => {
                    return Err(e.duplicate());
                },
            };
            if c {
                fold(&**then_expression, initializer, gnu, budget)
            } else {
                fold(&**else_expression, initializer, gnu, budget)
            }
        },
        VectorForm::Selected(selected) => match selected {
            Ok(n) => fold(&**n, initializer, gnu, budget),
            Err(e) => Err(e.duplicate()),
        },
        VectorForm::Unary { operator, operand, floating } => {
            let (supported, plus) = match operator {
                UnaryOperator::Plus => (true, true),
                UnaryOperator::Minus | UnaryOperator::Complement => (true, false),
                _ => (false, false),
            };
            if !supported {
                return Err(Error::new(offset, "expression is not a supported vector constant"));
            }
            if initializer && gnu && !plus {
                return Err(Error::new(offset, "GNU static vector arithmetic is not a constant initializer"));
            }
            let lanes = fold(&**operand, initializer, gnu, budget)?;
            unary_lanes(*operator, &lanes, floating, offset)
        },
        VectorForm::Binary { operator, source, lhs, rhs, floating } => {
            if !is_lane_operator(*operator) {
                return Err(Error::new(offset, "expression is not a supported vector constant"));
            }
            if initializer && gnu {
                return Err(Error::new(offset, "GNU static vector arithmetic is not a constant initializer"));
            }
            let src = match source {
                Ok(x) => *x,
                Err(e) => {
                    return Err(e.duplicate());
                },
            };
            vector_constant_shape(src.vector, src.lane_count, src.size_bytes, offset)?;
            let left = match lhs {
                VectorOperand::Vector(n) => fold(&**n, initializer, gnu, budget)?,
                VectorOperand::Scalar { offset: o, static_check, value } => scalar_exec(*o, static_check, value, count, initializer, budget)?,
            };
            let right = match rhs {
                VectorOperand::Vector(n) => fold(&**n, initializer, gnu, budget)?,
                VectorOperand::Scalar { offset: o, static_check, value } => scalar_exec(*o, static_check, value, count, initializer, budget)?,
            };
            binary_lanes(*operator, &left, &right, s.element, floating, offset)
        },
        VectorForm::Convert { operand, compatible, floating } => {
            let lanes = fold(&**operand, initializer, gnu, budget)?;
            if initializer && !gnu {
                return Err(Error::new(offset, "numeric vector conversion is not a static initializer in this compiler profile"));
            }
            if initializer {
                match compatible {
                    Err(e) => {
                        return Err(e.duplicate());
                    },
                    Ok(false) => {
                        return Err(Error::new(offset, "numeric vector conversion is not a static initializer in this compiler profile"));
                    },
                    Ok(true) => {},
                }
            }
            convert_lanes(&lanes, s.element, floating)
        },
        VectorForm::Other => Err(Error::new(offset, "expression is not a supported vector constant")),
    }
}

/// Folds a vector constant expression within the step limit: compound
/// literals (empty initializers keep the zero lane), conditionals on their
/// condition's truth, `__builtin_choose_expr` and `_Generic` through the
/// selected operand, `+`, `-` and `~` lane by lane, binary operators lane by
/// lane with scalar operands splat across the lanes (shift counts keep
/// their own type, comparisons give all-ones or all-zero lanes), and
/// `__builtin_convertvector`. In a static initializer (`initializer`) the
/// GNU profile (`gnu`) refuses vector arithmetic, and only the GNU profile
/// folds a conversion between compatible lane types.
pub fn eval_vector(node: &VectorNode, initializer: bool, gnu: bool) -> (r: Result<Vec<ArithmeticConstant>, Error>)
    requires
        vector_facts_well_formed(*node),
    ensures
        reports_vector(r, vector_value(*node, initializer, gnu)),
        r matches Ok(v) ==> node.shape is Ok && v@.len() == node.shape->Ok_0.lane_count,
{
    let mut budget = Budget(VECTOR_FOLD_STEPS);
    fold(node, initializer, gnu, &mut budget)
}

/// Folds a vector constant expression of the resolved shape `ty` into a
/// constant: its lanes are those [`eval_vector`] gives.
pub fn vector_constant(node: &VectorNode, initializer: bool, gnu: bool, ty: VectorConstantType) -> (r: Result<VectorConstant, Error>)
    requires
        vector_facts_well_formed(*node),
        node.shape is Ok ==> node.shape->Ok_0.lane_count == ty.lane_count_spec(),
    ensures
        match vector_value(*node, initializer, gnu) {
            Ok(lanes) => r matches Ok(c) && c.ty_spec() == ty && c.lanes_spec() == lanes,
            Err(f) => r matches Err(e) && fails_with(e, f),
        },
{
    let lanes = eval_vector(node, initializer, gnu)?;
    Ok(VectorConstant::new(ty, lanes))
}

} // verus!
