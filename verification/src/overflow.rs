//! Checked integer arithmetic, before destination-width truncation.

use crate::arith::{lemma_i128_as_u128, lemma_mod_pow2_shift, lemma_mod_pow2_twice, lemma_u128_low_mask, lemma_u128_shl_one};
use crate::error::Error;
use crate::integer::{kind_shape, source_int};
use crate::ir::{IntegerKind, IntegerValue};
use vstd::arithmetic::div_mod::{lemma_mod_bound, lemma_small_mod};
use vstd::arithmetic::power2::{lemma2_to64, lemma2_to64_rest, lemma_pow2_adds, lemma_pow2_pos, lemma_pow2_strictly_increases, lemma_pow2_unfold, pow2};
use vstd::prelude::*;
use vstd::string::*;

verus! {

/// The mathematical operation performed before overflow detection.
#[derive(Clone, Copy, Debug, PartialEq, Eq, Structural)]
#[non_exhaustive]
pub enum OverflowOperation {
    Add,
    Subtract,
    Multiply,
}

/// Source-level overflow intrinsic families.
#[derive(Clone, Copy, Debug, PartialEq, Eq, Structural)]
#[non_exhaustive]
pub enum OverflowForm {
    /// Preserve each input's integer type; argument two points to the result.
    GenericStore,
    /// Convert inputs and the result pointer to this explicit prototype type.
    TypedStore(IntegerKind),
    /// GNU `_p`: discard argument two's value while preserving its effects.
    /// Its written bitfield precision, when present, replaces the type's width.
    Predicate,
}

/// Overflow checks use infinite signed precision, then truncate to the result
/// type. Generic Clang Boolean results use one-bit precision, independently of
/// their eight-bit object representation. Every operation returns C `_Bool`.
#[derive(Clone, Copy, Debug, PartialEq, Eq, Structural)]
pub struct OverflowIntrinsic {
    operation: OverflowOperation,
    form: OverflowForm,
}

impl OverflowIntrinsic {
    pub closed spec fn operation_spec(self) -> OverflowOperation {
        self.operation
    }

    pub closed spec fn form_spec(self) -> OverflowForm {
        self.form
    }

    /// Mathematical operation before conversion to the result type.
    pub fn operation(self) -> (r: OverflowOperation)
        ensures
            r == self.operation_spec(),
    {
        self.operation
    }

    /// Whether the intrinsic stores a result or only checks representability.
    pub fn form(self) -> (r: OverflowForm)
        ensures
            r == self.form_spec(),
    {
        self.form
    }

    /// Predicate forms evaluate effects in argument two without using its value.
    pub fn is_predicate(self) -> (r: bool)
        ensures
            r == (self.form_spec() == OverflowForm::Predicate),
    {
        match self.form {
            OverflowForm::Predicate => true,
            _ => false,
        }
    }
}

/// The spelling of an operation inside an intrinsic's name.
pub open spec fn operation_word(operation: OverflowOperation) -> Seq<char> {
    match operation {
        OverflowOperation::Add => "add"@,
        OverflowOperation::Subtract => "sub"@,
        OverflowOperation::Multiply => "mul"@,
    }
}

/// The sign letter and width suffix of a typed intrinsic's prototype type;
/// only `int`, `long` and `long long` in both signednesses have one.
pub open spec fn typed_affixes(kind: IntegerKind) -> Option<(Seq<char>, Seq<char>)> {
    match kind {
        IntegerKind::Int => Some(("s"@, ""@)),
        IntegerKind::UnsignedInt => Some(("u"@, ""@)),
        IntegerKind::Long => Some(("s"@, "l"@)),
        IntegerKind::UnsignedLong => Some(("u"@, "l"@)),
        IntegerKind::LongLong => Some(("s"@, "ll"@)),
        IntegerKind::UnsignedLongLong => Some(("u"@, "ll"@)),
        _ => None,
    }
}

/// The builtin name that denotes an intrinsic, if it has one:
/// `__builtin_add_overflow`, `__builtin_mul_overflow_p`, `__builtin_umulll_overflow`, ...
pub open spec fn overflow_spelling(intrinsic: OverflowIntrinsic) -> Option<Seq<char>> {
    let word = operation_word(intrinsic.operation_spec());
    match intrinsic.form_spec() {
        OverflowForm::GenericStore => Some("__builtin_"@ + word + "_overflow"@),
        OverflowForm::Predicate => Some("__builtin_"@ + word + "_overflow_p"@),
        OverflowForm::TypedStore(kind) => match typed_affixes(kind) {
            Some((sign, suffix)) => Some("__builtin_"@ + sign + word + suffix + "_overflow"@),
            None => None,
        },
    }
}

/// The operations in the order the candidates enumerate them.
spec fn operation_at(k: int) -> OverflowOperation {
    if k == 0 {
        OverflowOperation::Add
    } else if k == 1 {
        OverflowOperation::Subtract
    } else {
        OverflowOperation::Multiply
    }
}

/// The spelled forms in the order the candidates enumerate them.
spec fn form_at(k: int) -> OverflowForm {
    if k == 0 {
        OverflowForm::GenericStore
    } else if k == 1 {
        OverflowForm::Predicate
    } else if k == 2 {
        OverflowForm::TypedStore(IntegerKind::Int)
    } else if k == 3 {
        OverflowForm::TypedStore(IntegerKind::UnsignedInt)
    } else if k == 4 {
        OverflowForm::TypedStore(IntegerKind::Long)
    } else if k == 5 {
        OverflowForm::TypedStore(IntegerKind::UnsignedLong)
    } else if k == 6 {
        OverflowForm::TypedStore(IntegerKind::LongLong)
    } else {
        OverflowForm::TypedStore(IntegerKind::UnsignedLongLong)
    }
}

spec fn candidate_at(k: int) -> OverflowIntrinsic {
    OverflowIntrinsic { operation: operation_at(k % 3), form: form_at(k / 3) }
}

/// Every spelled intrinsic is one of the 24 candidates.
proof fn lemma_candidate_complete(x: OverflowIntrinsic)
    requires
        overflow_spelling(x) is Some,
    ensures
        exists|k: int| 0 <= k < 24 && #[trigger] candidate_at(k) == x,
{
    let o: int = match x.operation {
        OverflowOperation::Add => 0,
        OverflowOperation::Subtract => 1,
        OverflowOperation::Multiply => 2,
    };
    let f: int = match x.form {
        OverflowForm::GenericStore => 0,
        OverflowForm::Predicate => 1,
        OverflowForm::TypedStore(IntegerKind::Int) => 2,
        OverflowForm::TypedStore(IntegerKind::UnsignedInt) => 3,
        OverflowForm::TypedStore(IntegerKind::Long) => 4,
        OverflowForm::TypedStore(IntegerKind::UnsignedLong) => 5,
        OverflowForm::TypedStore(IntegerKind::LongLong) => 6,
        _ => 7,
    };
    assert(candidate_at(f * 3 + o) == x);
}

fn operation_name(operation: OverflowOperation) -> (r: &'static str)
    ensures
        r@ == operation_word(operation),
{
    match operation {
        OverflowOperation::Add => "add",
        OverflowOperation::Subtract => "sub",
        OverflowOperation::Multiply => "mul",
    }
}

impl OverflowIntrinsic {
    fn candidate(k: u8) -> (r: Self)
        requires
            k < 24,
        ensures
            r == candidate_at(k as int),
    {
        let operation = if k % 3 == 0 {
            OverflowOperation::Add
        } else if k % 3 == 1 {
            OverflowOperation::Subtract
        } else {
            OverflowOperation::Multiply
        };
        let f = k / 3;
        let form = if f == 0 {
            OverflowForm::GenericStore
        } else if f == 1 {
            OverflowForm::Predicate
        } else if f == 2 {
            OverflowForm::TypedStore(IntegerKind::Int)
        } else if f == 3 {
            OverflowForm::TypedStore(IntegerKind::UnsignedInt)
        } else if f == 4 {
            OverflowForm::TypedStore(IntegerKind::Long)
        } else if f == 5 {
            OverflowForm::TypedStore(IntegerKind::UnsignedLong)
        } else if f == 6 {
            OverflowForm::TypedStore(IntegerKind::LongLong)
        } else {
            OverflowForm::TypedStore(IntegerKind::UnsignedLongLong)
        };
        OverflowIntrinsic { operation, form }
    }

    /// Builds this intrinsic's builtin name, when it has one.
    fn spelling(self) -> (r: Option<String>)
        ensures
            r matches Some(s) ==> overflow_spelling(self) == Some(s@),
            r is None ==> overflow_spelling(self) is None,
    {
        let word = operation_name(self.operation);
        let mut name = String::from_str("__builtin_");
        match self.form {
            OverflowForm::GenericStore => {
                name.append(word);
                name.append("_overflow");
            },
            OverflowForm::Predicate => {
                name.append(word);
                name.append("_overflow_p");
            },
            OverflowForm::TypedStore(kind) => {
                let (sign, suffix) = match kind {
                    IntegerKind::Int => ("s", ""),
                    IntegerKind::UnsignedInt => ("u", ""),
                    IntegerKind::Long => ("s", "l"),
                    IntegerKind::UnsignedLong => ("u", "l"),
                    IntegerKind::LongLong => ("s", "ll"),
                    IntegerKind::UnsignedLongLong => ("u", "ll"),
                    _ => {
                        return None;
                    },
                };
                name.append(sign);
                name.append(word);
                name.append(suffix);
                name.append("_overflow");
            },
        }
        Some(name)
    }

    /// Recognizes an overflow intrinsic by its builtin name.
    pub fn from_name(name: &str) -> (r: Option<Self>)
        ensures
            r matches Some(x) ==> overflow_spelling(x) == Some(name@),
            r is None ==> forall|x: Self| overflow_spelling(x) != Some(name@),
    {
        let wanted = String::from_str(name);
        let mut k: u8 = 0;
        while k < 24
            invariant
                k <= 24,
                wanted@ == name@,
                forall|j: int| 0 <= j < k ==> overflow_spelling(#[trigger] candidate_at(j)) != Some(
                    name@,
                ),
            decreases 24 - k,
        {
            let candidate = Self::candidate(k);
            if let Some(spelled) = candidate.spelling() {
                if spelled == wanted {
                    return Some(candidate);
                }
            }
            k = k + 1;
        }
        proof {
            assert forall|x: Self| overflow_spelling(x) != Some(name@) by {
                if overflow_spelling(x) is Some {
                    lemma_candidate_complete(x);
                }
            }
        }
        None
    }
}

/// Only the generic GNU `_p` spellings name predicates: an intrinsic spelled
/// `name` checks representability without storing exactly when `name` is
/// `__builtin_add_overflow_p`, `__builtin_sub_overflow_p` or
/// `__builtin_mul_overflow_p`; the typed `s`/`u` forms never are.
pub proof fn lemma_predicate_iff_p_spelling(x: OverflowIntrinsic, name: Seq<char>)
    requires
        overflow_spelling(x) == Some(name),
    ensures
        (x.form_spec() == OverflowForm::Predicate) <==> (name == "__builtin_add_overflow_p"@ || name
            == "__builtin_sub_overflow_p"@ || name == "__builtin_mul_overflow_p"@),
{
    reveal_strlit("__builtin_");
    reveal_strlit("_overflow_p");
    reveal_strlit("_overflow");
    reveal_strlit("add");
    reveal_strlit("sub");
    reveal_strlit("mul");
    reveal_strlit("__builtin_add_overflow_p");
    reveal_strlit("__builtin_sub_overflow_p");
    reveal_strlit("__builtin_mul_overflow_p");
    let word = operation_word(x.operation_spec());
    if x.form_spec() == OverflowForm::Predicate {
        match x.operation_spec() {
            OverflowOperation::Add => {
                assert(name =~= "__builtin_add_overflow_p"@);
            },
            OverflowOperation::Subtract => {
                assert(name =~= "__builtin_sub_overflow_p"@);
            },
            OverflowOperation::Multiply => {
                assert(name =~= "__builtin_mul_overflow_p"@);
            },
        }
    } else {
        // Every other spelling ends in the `w` of `_overflow`.
        assert(name.last() == 'w');
        assert("__builtin_add_overflow_p"@.last() == 'p');
        assert("__builtin_sub_overflow_p"@.last() == 'p');
        assert("__builtin_mul_overflow_p"@.last() == 'p');
    }
}

/// What two subexpressions together are known to do: a known side effect
/// wins, an unknown one comes next, and only two effect-free sides are free.
pub open spec fn combined(left: Option<bool>, right: Option<bool>) -> Option<bool> {
    if left == Some(true) || right == Some(true) {
        Some(true)
    } else if left is None || right is None {
        None::<bool>
    } else {
        Some(false)
    }
}

/// Combines what two subexpressions are known to do: a known side effect
/// wins, an unknown one comes next, and only two effect-free sides are free.
pub fn combine(left: Option<bool>, right: Option<bool>) -> (r: Option<bool>)
    ensures
        r == combined(left, right),
{
    match (left, right) {
        (Some(true), _) | (_, Some(true)) => Some(true),
        (None, _) | (_, None) => None,
        _ => Some(false),
    }
}

/// How a binary operator that assigns nothing reaches its operands.
#[derive(Clone, Copy, Debug, PartialEq, Eq, Structural)]
pub enum EffectOperator {
    /// `&&`: the right operand is skipped when the left is constant false.
    LogicalAnd,
    /// `||`: the right operand is skipped when the left is constant true.
    LogicalOr,
    /// `lhs[rhs]`: both operands, then the element access.
    Index,
    /// Every other operator: both operands.
    Other,
}

/// How a call's effects are decided.
#[derive(Clone, Copy, Debug, PartialEq, Eq, Structural)]
pub enum CallEffects {
    /// `__builtin_constant_p`, `__builtin_object_size`,
    /// `__atomic_always_lock_free`: the arguments are never evaluated.
    Unevaluated,
    /// A builtin without effects of its own: its arguments decide.
    ArgumentsOnly,
    /// Any other call: its effects are unknown.
    Unknown,
}

/// An expression whose value an overflow predicate discards, as the effect
/// classification reads it. Facts another analysis computes (types,
/// qualifiers, constant truth values) are carried in the node, each with its
/// error, and consulted only where the rule reaches them. An `access` fact
/// says whether reading the denoted object is a volatile or atomic access.
#[derive(Debug)]
pub enum EffectNode {
    /// A constant, string literal, `_Alignof` or
    /// `__builtin_types_compatible_p`.
    Free,
    /// An identifier; arrays and functions are never accessed.
    Identifier { access: Result<bool, Error> },
    /// A cast to a type that may be variably modified.
    Cast { variably_modified: Result<bool, Error>, operand: Box<EffectNode> },
    /// `sizeof` of a type or an expression that may be a variable-length array.
    SizeOf { variable_length: Result<bool, Error> },
    /// An increment, a decrement or an assignment.
    Modify,
    /// `*operand`.
    Indirection { access: Result<bool, Error>, operand: Box<EffectNode> },
    /// `&operand`.
    Address(Box<EffectNode>),
    /// Any other unary operator, or a vector conversion.
    Unary(Box<EffectNode>),
    /// `base.member` (`indirect` false) or `base->member`.
    Member { indirect: bool, access: Result<bool, Error>, base: Box<EffectNode> },
    /// A binary operator that assigns nothing, with the left operand's
    /// constant truth when it has one.
    Binary {
        operator: EffectOperator,
        left_truth: Option<bool>,
        access: Result<bool, Error>,
        lhs: Box<EffectNode>,
        rhs: Box<EffectNode>,
    },
    /// `c ? t : e` (`t` absent in GNU's `c ?: e`), with the condition's
    /// constant truth when it has one.
    Conditional {
        condition_truth: Option<bool>,
        condition: Box<EffectNode>,
        then_expression: Option<Box<EffectNode>>,
        else_expression: Box<EffectNode>,
    },
    /// `__builtin_choose_expr` or `_Generic`, with the operand it selects.
    Selected(Result<Box<EffectNode>, Error>),
    /// A comma expression's operands.
    Comma(EffectList),
    /// A call and its arguments.
    Call { effects: CallEffects, arguments: EffectList },
    /// Anything else.
    Other,
}

/// Operands in source order.
#[derive(Debug)]
pub enum EffectList {
    End,
    Item(Box<EffectNode>, Box<EffectList>),
}

/// The nesting at which classification stops knowing anything.
pub const EFFECT_DEPTH_LIMIT: usize = 128;

/// A fact as the classification consults it.
pub open spec fn fact_effect(fact: Result<bool, Error>) -> Result<Option<bool>, Error> {
    match fact {
        Ok(b) => Ok(Some(b)),
        Err(e) => Err(e),
    }
}

/// What evaluating `node` at nesting `depth` is known to do: `Some(false)`
/// when it has no side effect and reads nothing volatile or atomic,
/// `Some(true)` when it has one, `None` when that is unknown (an unknown
/// call, a runtime-sized type, or nesting past the limit); or the error of a
/// consulted fact. Ignored arithmetic is not evaluated, and a `&&`, `||` or
/// conditional with a constant condition skips the operand it never runs.
pub open spec fn discarded_effects_spec(node: EffectNode, depth: nat) -> Result<Option<bool>, Error>
    decreases node, 0int,
{
    if depth >= 128 {
        Ok(None)
    } else {
        let d = depth + 1;
        match node {
            EffectNode::Free => Ok(Some(false)),
            EffectNode::Identifier { access } => fact_effect(access),
            EffectNode::Cast { variably_modified, operand } => match variably_modified {
                Err(e) => Err(e),
                Ok(true) => Ok(None),
                Ok(false) => discarded_effects_spec(*operand, d),
            },
            EffectNode::SizeOf { variable_length } => match variable_length {
                Err(e) => Err(e),
                Ok(true) => Ok(None),
                Ok(false) => Ok(Some(false)),
            },
            EffectNode::Modify => Ok(Some(true)),
            EffectNode::Indirection { access, operand } => match access {
                Err(e) => Err(e),
                Ok(a) => match discarded_effects_spec(*operand, d) {
                    Err(e) => Err(e),
                    Ok(inner) => Ok(combined(Some(a), inner)),
                },
            },
            EffectNode::Address(operand) => place_effects_spec(*operand, d),
            EffectNode::Unary(operand) => discarded_effects_spec(*operand, d),
            EffectNode::Member { indirect, access, base } => match access {
                Err(e) => Err(e),
                Ok(a) => match (if indirect {
                    discarded_effects_spec(*base, d)
                } else {
                    place_effects_spec(*base, d)
                }) {
                    Err(e) => Err(e),
                    Ok(inner) => Ok(combined(Some(a), inner)),
                },
            },
            EffectNode::Binary { operator, left_truth, access, lhs, rhs } => match discarded_effects_spec(
                *lhs,
                d,
            ) {
                Err(e) => Err(e),
                Ok(left) => if (operator == EffectOperator::LogicalAnd && left_truth == Some(false)) || (
                operator == EffectOperator::LogicalOr && left_truth == Some(true)) {
                    Ok(left)
                } else {
                    match discarded_effects_spec(*rhs, d) {
                        Err(e) => Err(e),
                        Ok(right) => if operator == EffectOperator::Index {
                            match access {
                                Err(e) => Err(e),
                                Ok(a) => Ok(combined(combined(left, right), Some(a))),
                            }
                        } else {
                            Ok(combined(left, right))
                        },
                    }
                },
            },
            EffectNode::Conditional { condition_truth, condition, then_expression, else_expression } => {
                match discarded_effects_spec(*condition, d) {
                    Err(e) => Err(e),
                    Ok(c) => {
                        let then_effects = match then_expression {
                            Some(t) => discarded_effects_spec(*t, d),
                            None => Ok(Some(false)),
                        };
                        let else_effects = discarded_effects_spec(*else_expression, d);
                        match condition_truth {
                            Some(true) => match then_effects {
                                Err(e) => Err(e),
                                Ok(b) => Ok(combined(c, b)),
                            },
                            Some(false) => match else_effects {
                                Err(e) => Err(e),
                                Ok(b) => Ok(combined(c, b)),
                            },
                            None => match then_effects {
                                Err(e) => Err(e),
                                Ok(t) => match else_effects {
                                    Err(e) => Err(e),
                                    Ok(f) => Ok(combined(c, combined(t, f))),
                                },
                            },
                        }
                    },
                }
            },
            EffectNode::Selected(selected) => match selected {
                Err(e) => Err(e),
                Ok(operand) => discarded_effects_spec(*operand, d),
            },
            EffectNode::Comma(items) => list_effects_spec(items, d, Some(false)),
            EffectNode::Call { effects, arguments } => match effects {
                CallEffects::Unevaluated => Ok(Some(false)),
                CallEffects::ArgumentsOnly => list_effects_spec(arguments, d, Some(false)),
                CallEffects::Unknown => Ok(None),
            },
            EffectNode::Other => Ok(None),
        }
    }
}

/// The operands' effects combined in order into `so_far`, each at `depth`.
pub open spec fn list_effects_spec(items: EffectList, depth: nat, so_far: Option<bool>) -> Result<Option<bool>, Error>
    decreases items, 0int,
{
    match items {
        EffectList::End => Ok(so_far),
        EffectList::Item(first, rest) => match discarded_effects_spec(*first, depth) {
            Err(e) => Err(e),
            Ok(b) => list_effects_spec(*rest, depth, combined(so_far, b)),
        },
    }
}

/// What naming the object `node` denotes, without reading it, is known to
/// do: only the pointers and indices that locate it are evaluated.
pub open spec fn place_effects_spec(node: EffectNode, depth: nat) -> Result<Option<bool>, Error>
    decreases node, 1int,
{
    if depth >= 128 {
        Ok(None)
    } else {
        let d = depth + 1;
        match node {
            EffectNode::Identifier { .. } => Ok(Some(false)),
            EffectNode::Member { indirect, base, .. } => if indirect {
                discarded_effects_spec(*base, d)
            } else {
                place_effects_spec(*base, d)
            },
            EffectNode::Binary { operator: EffectOperator::Index, lhs, rhs, .. } => match discarded_effects_spec(
                *lhs,
                d,
            ) {
                Err(e) => Err(e),
                Ok(left) => match discarded_effects_spec(*rhs, d) {
                    Err(e) => Err(e),
                    Ok(right) => Ok(combined(left, right)),
                },
            },
            EffectNode::Indirection { operand, .. } => discarded_effects_spec(*operand, d),
            _ => discarded_effects_spec(node, d),
        }
    }
}

fn fact_effect_of(fact: &Result<bool, Error>) -> (r: Result<bool, Error>)
    ensures
        match r {
            Ok(b) => *fact == Ok::<bool, Error>(b),
            Err(e) => *fact == Err::<bool, Error>(e),
        },
{
    match fact {
        Ok(b) => Ok(*b),
        Err(e) => Err(e.duplicate()),
    }
}

fn discarded_effects_at(node: &EffectNode, depth: usize) -> (r: Result<Option<bool>, Error>)
    requires
        depth <= EFFECT_DEPTH_LIMIT,
    ensures
        r == discarded_effects_spec(*node, depth as nat),
    decreases node, 0int,
{
    if depth >= EFFECT_DEPTH_LIMIT {
        return Ok(None);
    }
    let d = depth + 1;
    match node {
        EffectNode::Free => Ok(Some(false)),
        EffectNode::Identifier { access } => Ok(Some(fact_effect_of(access)?)),
        EffectNode::Cast { variably_modified, operand } => {
            if fact_effect_of(variably_modified)? {
                Ok(None)
            } else {
                discarded_effects_at(operand, d)
            }
        },
        EffectNode::SizeOf { variable_length } => {
            if fact_effect_of(variable_length)? {
                Ok(None)
            } else {
                Ok(Some(false))
            }
        },
        EffectNode::Modify => Ok(Some(true)),
        EffectNode::Indirection { access, operand } => {
            let a = fact_effect_of(access)?;
            Ok(combine(Some(a), discarded_effects_at(operand, d)?))
        },
        EffectNode::Address(operand) => place_effects_at(operand, d),
        EffectNode::Unary(operand) => discarded_effects_at(operand, d),
        EffectNode::Member { indirect, access, base } => {
            let a = fact_effect_of(access)?;
            let inner = if *indirect {
                discarded_effects_at(base, d)?
            } else {
                place_effects_at(base, d)?
            };
            Ok(combine(Some(a), inner))
        },
        EffectNode::Binary { operator, left_truth, access, lhs, rhs } => {
            let left = discarded_effects_at(lhs, d)?;
            let short = (*operator == EffectOperator::LogicalAnd && *left_truth == Some(false)) || (*operator
                == EffectOperator::LogicalOr && *left_truth == Some(true));
            if short {
                return Ok(left);
            }
            let effects = combine(left, discarded_effects_at(rhs, d)?);
            if *operator == EffectOperator::Index {
                let a = fact_effect_of(access)?;
                Ok(combine(effects, Some(a)))
            } else {
                Ok(effects)
            }
        },
        EffectNode::Conditional { condition_truth, condition, then_expression, else_expression } => {
            let c = discarded_effects_at(condition, d)?;
            let branches = match condition_truth {
                Some(true) => match then_expression {
                    Some(t) => discarded_effects_at(t, d)?,
                    None => Some(false),
                },
                Some(false) => discarded_effects_at(else_expression, d)?,
                None => {
                    let t = match then_expression {
                        Some(t) => discarded_effects_at(t, d)?,
                        None => Some(false),
                    };
                    combine(t, discarded_effects_at(else_expression, d)?)
                },
            };
            Ok(combine(c, branches))
        },
        EffectNode::Selected(selected) => match selected {
            Err(e) => Err(e.duplicate()),
            Ok(operand) => discarded_effects_at(operand, d),
        },
        EffectNode::Comma(items) => list_effects_at(items, d, Some(false)),
        EffectNode::Call { effects, arguments } => match effects {
            CallEffects::Unevaluated => Ok(Some(false)),
            CallEffects::ArgumentsOnly => list_effects_at(arguments, d, Some(false)),
            CallEffects::Unknown => Ok(None),
        },
        EffectNode::Other => Ok(None),
    }
}

fn list_effects_at(items: &EffectList, depth: usize, so_far: Option<bool>) -> (r: Result<Option<bool>, Error>)
    requires
        depth <= EFFECT_DEPTH_LIMIT,
    ensures
        r == list_effects_spec(*items, depth as nat, so_far),
    decreases items, 0int,
{
    match items {
        EffectList::End => Ok(so_far),
        EffectList::Item(first, rest) => {
            let b = discarded_effects_at(first, depth)?;
            list_effects_at(rest, depth, combine(so_far, b))
        },
    }
}

fn place_effects_at(node: &EffectNode, depth: usize) -> (r: Result<Option<bool>, Error>)
    requires
        depth <= EFFECT_DEPTH_LIMIT,
    ensures
        r == place_effects_spec(*node, depth as nat),
    decreases node, 1int,
{
    if depth >= EFFECT_DEPTH_LIMIT {
        return Ok(None);
    }
    let d = depth + 1;
    match node {
        EffectNode::Identifier { .. } => Ok(Some(false)),
        EffectNode::Member { indirect, base, .. } => {
            if *indirect {
                discarded_effects_at(base, d)
            } else {
                place_effects_at(base, d)
            }
        },
        EffectNode::Binary { operator: EffectOperator::Index, lhs, rhs, .. } => {
            let left = discarded_effects_at(lhs, d)?;
            let right = discarded_effects_at(rhs, d)?;
            Ok(combine(left, right))
        },
        EffectNode::Indirection { operand, .. } => discarded_effects_at(operand, d),
        _ => discarded_effects_at(node, d),
    }
}

/// Classifies what evaluating an expression whose value is discarded (an
/// overflow predicate's third argument) is known to do, without evaluating
/// ignored arithmetic or plain loads: `Some(false)` when it is free of
/// effects, `Some(true)` when it has one, `None` when that is unknown
/// (unknown calls, runtime-sized types, nesting of 128 or more levels); or the
/// error of a fact it consults.
pub fn discarded_effects(node: &EffectNode) -> (r: Result<Option<bool>, Error>)
    ensures
        r == discarded_effects_spec(*node, 0),
{
    discarded_effects_at(node, 0)
}

/// The exact mathematical result of an operation on two integers.
pub open spec fn overflow_math(operation: OverflowOperation, a: int, b: int) -> int {
    match operation {
        OverflowOperation::Add => a + b,
        OverflowOperation::Subtract => a - b,
        OverflowOperation::Multiply => a * b,
    }
}

/// Whether `r` fits in `precision` value bits of the given signedness.
pub open spec fn representable(r: int, precision: u8, signed: bool) -> bool {
    if signed {
        -pow2((precision - 1) as nat) <= r < pow2((precision - 1) as nat)
    } else {
        0 <= r < pow2(precision as nat)
    }
}

/// Sign and magnitude of a value's reading.
fn magnitude(value: IntegerValue) -> (r: (bool, u128))
    ensures
        source_int(value) == if r.0 { -(r.1 as int) } else { r.1 as int },
        r.0 ==> r.1 > 0,
{
    if value.signed {
        let v = value.signed_value();
        if v < 0 {
            proof {
                lemma_i128_as_u128(v);
            }
            if v == i128::MIN {
                assert((1u128 << 127u128) == 0x8000_0000_0000_0000_0000_0000_0000_0000u128) by (bit_vector);
                return (true, 1u128 << 127);
            }
            return (true, (0i128 - v) as u128);
        }
        proof {
            lemma_pow2_pos(value.bits as nat);
            lemma_mod_bound(value.value as int, pow2(value.bits as nat) as int);
            lemma_pow2_128();
            assert(v as int == value.value);
        }
    }
    (false, value.value)
}

/// The magnitude of a result: its low 128 bits and whether higher bits remain.
spec fn split_magnitude(m: nat, low: u128, high: bool) -> bool {
    &&& low == m % pow2(128)
    &&& high <==> m >= pow2(128)
}

proof fn lemma_pow2_128()
    ensures
        pow2(128) == 0x1_0000_0000_0000_0000_0000_0000_0000_0000,
{
    lemma2_to64();
    lemma2_to64_rest();
    lemma_pow2_adds(64, 64);
}

/// Infinite-precision overflow detection: the low `precision` bits of the
/// exact result, and whether the exact result is outside the representable
/// range. A sign and 128-bit magnitude plus a high-result flag suffice, since
/// every destination has at most 128 value bits.
pub fn calculate(
    operation: OverflowOperation,
    left: IntegerValue,
    right: IntegerValue,
    precision: u8,
    signed: bool,
) -> (r: (u128, bool))
    requires
        1 <= precision <= 128,
    ensures
        r.0 as int == overflow_math(operation, source_int(left), source_int(right)) % pow2(
            precision as nat,
        ) as int,
        r.1 == !representable(
            overflow_math(operation, source_int(left), source_int(right)),
            precision,
            signed,
        ),
{
    let ghost result = overflow_math(operation, source_int(left), source_int(right));
    proof {
        lemma_pow2_128();
    }
    let (left_negative, left_magnitude) = magnitude(left);
    let (right_sign, right_magnitude) = magnitude(right);
    let mut right_negative = right_sign;
    let subtract = match operation {
        OverflowOperation::Subtract => true,
        _ => false,
    };
    if subtract && right_magnitude != 0 {
        right_negative = !right_negative;
    }
    let multiply = match operation {
        OverflowOperation::Multiply => true,
        _ => false,
    };
    let ghost m: nat;
    let (negative, low, high) = if multiply {
        let low = left_magnitude.wrapping_mul(right_magnitude);
        let high = left_magnitude.checked_mul(right_magnitude).is_none();
        proof {
            m = (left_magnitude * right_magnitude) as nat;
            assert(result == if left_negative != right_negative { -(m as int) } else { m as int })
                by (nonlinear_arith)
                requires
                    result == source_int(left) * source_int(right),
                    source_int(left) == if left_negative { -(left_magnitude as int) } else { left_magnitude as int },
                    source_int(right) == if right_negative { -(right_magnitude as int) } else { right_magnitude as int },
                    m == left_magnitude * right_magnitude,
            ;
        }
        (left_negative != right_negative, low, high)
    } else if left_negative == right_negative {
        let low = left_magnitude.wrapping_add(right_magnitude);
        let high = left_magnitude.checked_add(right_magnitude).is_none();
        proof {
            m = (left_magnitude + right_magnitude) as nat;
            if high {
                lemma_small_mod((m - pow2(128)) as nat, pow2(128));
                vstd::arithmetic::div_mod::lemma_mod_multiples_vanish(1, (m - pow2(128)) as int, pow2(128) as int);
            } else {
                lemma_small_mod(m, pow2(128));
            }
        }
        (left_negative, low, high)
    } else if left_magnitude >= right_magnitude {
        proof {
            m = (left_magnitude - right_magnitude) as nat;
            lemma_small_mod(m, pow2(128));
        }
        (left_negative, left_magnitude - right_magnitude, false)
    } else {
        proof {
            m = (right_magnitude - left_magnitude) as nat;
            lemma_small_mod(m, pow2(128));
        }
        (right_negative, right_magnitude - left_magnitude, false)
    };
    assert(split_magnitude(m, low, high));
    assert(result == if negative { -(m as int) } else { m as int });
    let negative = negative && (low != 0 || high);
    proof {
        if m != 0 && !high {
            lemma_small_mod(m, pow2(128));
        }
    }
    assert(result == if negative { -(m as int) } else { m as int });
    let limit: u128 = if signed {
        proof {
            lemma_u128_shl_one((precision - 1) as u128);
            lemma_pow2_pos((precision - 1) as nat);
        }
        (1u128 << (precision - 1)) - if negative { 0u128 } else { 1u128 }
    } else if precision == 128 {
        u128::MAX
    } else {
        proof {
            lemma_u128_shl_one(precision as u128);
            lemma_pow2_pos(precision as nat);
        }
        (1u128 << precision) - 1
    };
    let overflow = high || (negative && !signed) || low > limit;
    proof {
        if !high {
            lemma_small_mod(m, pow2(128));
        }
        if precision < 128 {
            lemma_pow2_strictly_increases(precision as nat, 128);
        }
        lemma_pow2_unfold(precision as nat);
        lemma_pow2_pos((precision - 1) as nat);
    }
    let stored = if negative {
        0u128.wrapping_sub(low)
    } else {
        low
    };
    proof {
        if negative {
            if low == 0 {
                assert(stored == 0);
            } else {
                assert(stored as int == pow2(128) - low);
            }
        }
    }
    let ghost pre = stored;
    let stored = if precision == 128 {
        stored
    } else {
        proof {
            lemma_u128_low_mask(stored, precision as u128);
            lemma_u128_shl_one(precision as u128);
        }
        stored & ((1u128 << precision) - 1)
    };
    proof {
        let p = precision as nat;
        let q = pow2(128) as int;
        // `low` is the magnitude modulo 2^128, so it agrees with the result modulo 2^p.
        lemma_mod_pow2_twice(m as int, p, 128);
        if negative {
            let k = m as int / q;
            vstd::arithmetic::div_mod::lemma_fundamental_div_mod(m as int, q);
            // -m == (q - low) - (k + 1) * q
            lemma_mod_pow2_shift((q - low) as int, -(k + 1), p, 128);
            assert(-(m as int) == (q - low) + -(k + 1) * q) by (nonlinear_arith)
                requires
                    m as int == q * k + low,
            ;
            if low == 0 {
                lemma_mod_pow2_shift(0, 1, p, 128);
                lemma_small_mod(0, pow2(p));
            }
        }
        if precision == 128 {
            lemma_small_mod(stored as nat, pow2(128));
        }
    }
    (stored, overflow)
}

/// What the result operand of an overflow intrinsic is, as its checks read
/// it: for a storing form the pointee of the pointer argument, for a
/// predicate the result expression itself.
#[derive(Clone, Copy, Debug, PartialEq, Eq, Structural)]
pub enum OperandClass {
    Bool,
    Enum,
    /// Any other integer type.
    Integer,
    /// Not an integer type.
    Other,
}

/// The result operand of an overflow intrinsic.
#[derive(Clone, Copy, Debug, PartialEq, Eq, Structural)]
pub struct OverflowResultOperand {
    /// Whether the third argument has pointer type (storing forms).
    pub pointer: bool,
    /// Whether the pointee is `const`-qualified (storing forms).
    pub pointee_const: bool,
    /// The class of the pointee (storing forms) or of the expression (predicates).
    pub class: OperandClass,
    /// The integer reading of that type, when it has one.
    pub reading: Option<IntegerValue>,
    /// The declared width when a predicate's result expression is a bit-field.
    pub bitfield: Option<u64>,
}

/// The integer type of an overflow intrinsic's result and whether it is
/// `_Bool`, `None` when the operands are refused.
pub open spec fn overflow_destination(
    intrinsic: OverflowIntrinsic,
    gnu: bool,
    left: Option<IntegerValue>,
    right: Option<IntegerValue>,
    result: OverflowResultOperand,
    char_signed: bool,
    long_width: u8,
) -> Option<(IntegerValue, bool)> {
    match intrinsic.form_spec() {
        OverflowForm::TypedStore(kind) => {
            let (b, s, k) = kind_shape(kind, char_signed, long_width);
            Some((IntegerValue { value: 0, bits: b, signed: s, rank: k }, false))
        },
        OverflowForm::Predicate => if left is Some && right is Some && !(result.class == OperandClass::Bool
            || (result.class == OperandClass::Enum && result.bitfield is None)) && result.reading is Some {
            Some((result.reading->0, false))
        } else {
            None
        },
        OverflowForm::GenericStore => if left is Some && right is Some && result.pointer && !result.pointee_const
            && !(gnu && (result.class == OperandClass::Bool || result.class == OperandClass::Enum))
            && result.reading is Some {
            Some((result.reading->0, result.class == OperandClass::Bool))
        } else {
            None
        },
    }
}

/// The precision the result is checked in: a predicate's bit-field width
/// or its type's width, one bit for `_Bool`, otherwise the type's width;
/// `None` for a bit-field wider than 255 bits.
pub open spec fn overflow_precision(intrinsic: OverflowIntrinsic, destination: (IntegerValue, bool), bitfield: Option<u64>) -> Option<int> {
    if intrinsic.form_spec() == OverflowForm::Predicate {
        match bitfield {
            Some(w) => if w <= 255 { Some(w as int) } else { None },
            None => Some(destination.0.bits as int),
        }
    } else if destination.1 {
        Some(1)
    } else {
        Some(destination.0.bits as int)
    }
}

/// Checks the operands of an overflow intrinsic call with `argument_count`
/// arguments and returns the precision and signedness its result is
/// computed in. The call takes three arguments; GNU predicates need the GNU
/// profile (`gnu`); typed forms use their prototype type; generic forms need
/// integer operands (`left`, `right` are their integer readings) and a
/// pointer to a modifiable integer object (under GCC not `_Bool` or an
/// enumeration); predicates need an integer result expression that is not
/// `_Bool` or an enumeration other than a bit-field. The precision must be
/// positive and at most the result type's width.
pub fn overflow_signature(
    intrinsic: OverflowIntrinsic,
    gnu: bool,
    argument_count: usize,
    left: Option<IntegerValue>,
    right: Option<IntegerValue>,
    result: OverflowResultOperand,
    char_signed: bool,
    long_width: u8,
    offset: usize,
) -> (r: Result<(u8, bool), Error>)
    requires
        long_width == 32 || long_width == 64,
    ensures
        ({
            let destination = overflow_destination(intrinsic, gnu, left, right, result, char_signed, long_width);
            let chosen = destination->0;
            let reading = chosen.0;
            let precision = overflow_precision(intrinsic, chosen, result.bitfield);
            &&& r is Ok <==> argument_count == 3 && !(intrinsic.form_spec() == OverflowForm::Predicate && !gnu)
                && destination is Some && precision is Some && 0 < precision->0 <= reading.bits
            &&& r matches Ok((p, s)) ==> p == precision->0 && s == reading.signed
        }),
{
    if argument_count != 3 {
        return Err(Error::new(offset, "overflow intrinsic requires three arguments"));
    }
    let predicate = intrinsic.is_predicate();
    if predicate && !gnu {
        return Err(Error::new(offset, "GNU overflow predicates are unsupported by this Clang profile"));
    }
    let (value, is_bool) = match intrinsic.form() {
        OverflowForm::TypedStore(kind) => {
            let value = match crate::integer::integer_type(&crate::ir::TypeKind::Integer(kind), char_signed, long_width, None, offset) {
                Ok(v) => v,
                Err(e) => {
                    return Err(e);
                },
            };
            (value, false)
        },
        _ => {
            if left.is_none() || right.is_none() {
                return Err(Error::new(offset, "generic overflow operands must have integer types"));
            }
            if predicate {
                let refused = match result.class {
                    OperandClass::Bool => true,
                    OperandClass::Enum => result.bitfield.is_none(),
                    _ => false,
                };
                if refused {
                    return Err(Error::new(offset, "overflow predicate result expression cannot have Boolean or ordinary enum type"));
                }
                match result.reading {
                    Some(v) => (v, false),
                    None => {
                        return Err(Error::new(offset, "overflow predicate result must have an integer type"));
                    },
                }
            } else {
                if !result.pointer {
                    return Err(Error::new(offset, "overflow result must be a pointer to an integer object"));
                }
                if result.pointee_const {
                    return Err(Error::new(offset, "generic overflow result cannot be const-qualified"));
                }
                let bool_or_enum = match result.class {
                    OperandClass::Bool | OperandClass::Enum => true,
                    _ => false,
                };
                if gnu && bool_or_enum {
                    return Err(Error::new(offset, "GCC generic overflow results cannot have Boolean or enum type"));
                }
                match result.reading {
                    Some(v) => (v, result.class == OperandClass::Bool),
                    None => {
                        return Err(Error::new(offset, "overflow result must point to an integer object"));
                    },
                }
            }
        },
    };
    let precision: u8 = if predicate {
        match result.bitfield {
            Some(width) => {
                if width > 255 {
                    return Err(Error::new(offset, "overflow bitfield width exceeds 128 bits"));
                }
                width as u8
            },
            None => value.bits,
        }
    } else if is_bool {
        1
    } else {
        value.bits
    };
    if precision == 0 || precision > value.bits {
        return Err(Error::new(offset, "overflow result precision is outside its integer type"));
    }
    Ok((precision, value.signed))
}


/// A typed overflow builtin's name spells its prototype type: the letter
/// after `__builtin_` is `s` exactly for a signed type and `u` for an
/// unsigned one, and the `l`/`ll` suffix before `_overflow` raises the rank
/// from `int` to `long` and `long long`, so the name's length fixes the rank.
pub proof fn lemma_typed_spelling_fixes_prototype(x: OverflowIntrinsic, name: Seq<char>)
    requires
        overflow_spelling(x) == Some(name),
        x.form_spec() is TypedStore,
    ensures
        name.len() >= 23,
        name[10] == 's' || name[10] == 'u',
        (name[10] == 's') <==> kind_shape(x.form_spec()->TypedStore_0, false, 64).1,
        kind_shape(x.form_spec()->TypedStore_0, false, 64).2 == name.len() - 20,
{
    reveal_strlit("__builtin_");
    reveal_strlit("_overflow");
    reveal_strlit("add");
    reveal_strlit("sub");
    reveal_strlit("mul");
    reveal_strlit("s");
    reveal_strlit("u");
    reveal_strlit("");
    reveal_strlit("l");
    reveal_strlit("ll");
    let kind = x.form_spec()->TypedStore_0;
    let word = operation_word(x.operation_spec());
    assert(word.len() == 3);
    let (sign, suffix) = typed_affixes(kind)->Some_0;
    assert(name == "__builtin_"@ + sign + word + suffix + "_overflow"@);
    assert(name[10] == sign[0]);
}


/// The exact results are ordinary integer arithmetic: addition and
/// multiplication commute and have identities, subtraction adds the
/// negation, and multiplication distributes over addition.
pub proof fn lemma_overflow_math_is_integer_arithmetic(a: int, b: int, c: int)
    ensures
        overflow_math(OverflowOperation::Add, a, b) == overflow_math(OverflowOperation::Add, b, a),
        overflow_math(OverflowOperation::Add, a, 0) == a,
        overflow_math(OverflowOperation::Subtract, a, b) == overflow_math(OverflowOperation::Add, a, -b),
        overflow_math(OverflowOperation::Subtract, a, a) == 0,
        overflow_math(OverflowOperation::Multiply, a, b) == overflow_math(OverflowOperation::Multiply, b, a),
        overflow_math(OverflowOperation::Multiply, a, 1) == a,
        overflow_math(OverflowOperation::Multiply, a, overflow_math(OverflowOperation::Add, b, c))
            == overflow_math(
            OverflowOperation::Add,
            overflow_math(OverflowOperation::Multiply, a, b),
            overflow_math(OverflowOperation::Multiply, a, c),
        ),
{
    assert(a * b == b * a) by (nonlinear_arith);
    assert(a * (b + c) == a * b + a * c) by (nonlinear_arith);
}

/// A result is representable exactly when it lies in the range of the C
/// integer type of that width and signedness.
pub proof fn lemma_representable_is_type_range(r: int)
    ensures
        representable(r, 8, true) <==> i8::MIN <= r <= i8::MAX,
        representable(r, 16, true) <==> i16::MIN <= r <= i16::MAX,
        representable(r, 32, true) <==> i32::MIN <= r <= i32::MAX,
        representable(r, 64, true) <==> i64::MIN <= r <= i64::MAX,
        representable(r, 128, true) <==> i128::MIN <= r <= i128::MAX,
        representable(r, 8, false) <==> 0 <= r <= u8::MAX,
        representable(r, 16, false) <==> 0 <= r <= u16::MAX,
        representable(r, 32, false) <==> 0 <= r <= u32::MAX,
        representable(r, 64, false) <==> 0 <= r <= u64::MAX,
        representable(r, 128, false) <==> 0 <= r <= u128::MAX,
{
    lemma2_to64();
    lemma2_to64_rest();
    lemma_pow2_adds(64, 63);
    lemma_pow2_adds(64, 64);
}

} // verus!
