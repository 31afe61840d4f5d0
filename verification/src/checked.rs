//! The checked expression graph that analysis retains, as far as callers
//! look through it to find which builtin a call reaches.

use crate::error::Error;
use vstd::prelude::*;

verus! {

/// An expression of the checked graph, by position.
#[derive(Clone, Copy, Debug, PartialEq, Eq, Structural)]
pub struct ExprId(pub usize);

/// What a checked expression is, for the purpose of following a callee to
/// the function it designates.
#[derive(Debug)]
pub enum ExprKind {
    /// A call of a builtin recognized at the call itself.
    BuiltinCall { prefetch: bool, arguments: Vec<ExprId> },
    /// An ordinary call.
    Call { callee: ExprId, arguments: Vec<ExprId> },
    /// A builtin named as a function designator.
    BuiltinFunction { prefetch: bool },
    /// `*operand`.
    Indirection(ExprId),
    /// A comma expression; its value is its last operand.
    Comma(Vec<ExprId>),
    /// A GNU statement expression and its result, if it has one.
    StatementExpression(Option<ExprId>),
    /// `__builtin_choose_expr` with the branch it selected.
    Choose { then_expression: ExprId, else_expression: ExprId, then_selected: bool },
    /// `_Generic` with the arm it selected.
    Generic { arms: Vec<ExprId>, selected: usize },
    /// A call of `__builtin_va_arg_pack`.
    ArgumentPack,
    /// A cast, and whether its type resolves to plain `int`.
    Cast { to_int: bool, operand: ExprId },
    /// Unary `+operand`.
    UnaryPlus(ExprId),
    /// Anything else.
    Other,
}

/// The checked expressions of a unit.
#[derive(Debug)]
pub struct CheckedCode {
    pub expressions: Vec<ExprKind>,
}

/// The expression whose value a designator-preserving expression passes on.
pub open spec fn passes_to(kind: ExprKind) -> Option<ExprId> {
    match kind {
        ExprKind::Indirection(operand) => Some(operand),
        ExprKind::Comma(values) => if values@.len() > 0 {
            Some(values@.last())
        } else {
            None
        },
        ExprKind::StatementExpression(result) => result,
        ExprKind::Choose { then_expression, else_expression, then_selected } => Some(
            if then_selected {
                then_expression
            } else {
                else_expression
            },
        ),
        ExprKind::Generic { arms, selected } => if selected < arms@.len() {
            Some(arms@[selected as int])
        } else {
            None
        },
        _ => None,
    }
}

/// Whether expression `current` designates the prefetch builtin within
/// `fuel` steps through indirections, comma and statement-expression
/// results, and selected choose and generic branches.
pub open spec fn reaches_prefetch(expressions: Seq<ExprKind>, current: ExprId, fuel: nat) -> bool
    decreases fuel,
{
    if fuel == 0 || current.0 >= expressions.len() {
        false
    } else {
        match expressions[current.0 as int] {
            ExprKind::BuiltinFunction { prefetch } => prefetch,
            kind => match passes_to(kind) {
                Some(next) => reaches_prefetch(expressions, next, (fuel - 1) as nat),
                None => false,
            },
        }
    }
}

/// The arguments of a prefetch call, as [`CheckedCode::prefetch_arguments`]
/// finds them.
pub open spec fn prefetch_call(expressions: Seq<ExprKind>, call: ExprId) -> Option<Seq<ExprId>> {
    if call.0 >= expressions.len() {
        None
    } else {
        match expressions[call.0 as int] {
            ExprKind::BuiltinCall { prefetch, arguments } => if prefetch {
                Some(arguments@)
            } else {
                None
            },
            ExprKind::Call { callee, arguments } => if reaches_prefetch(expressions, callee, expressions.len()) {
                Some(arguments@)
            } else {
                None
            },
            _ => None,
        }
    }
}

impl CheckedCode {
    fn passes(&self, current: ExprId) -> (r: Option<ExprId>)
        requires
            current.0 < self.expressions@.len(),
        ensures
            r == passes_to(self.expressions@[current.0 as int]),
    {
        match &self.expressions[current.0] {
            ExprKind::Indirection(operand) => Some(*operand),
            ExprKind::Comma(values) => if values.len() > 0 {
                Some(values[values.len() - 1])
            } else {
                None
            },
            ExprKind::StatementExpression(result) => *result,
            ExprKind::Choose { then_expression, else_expression, then_selected } => Some(
                if *then_selected {
                    *then_expression
                } else {
                    *else_expression
                },
            ),
            ExprKind::Generic { arms, selected } => if *selected < arms.len() {
                Some(arms[*selected])
            } else {
                None
            },
            _ => None,
        }
    }

    /// The arguments of a call of the prefetch builtin: one recognized at the
    /// call, or one whose callee reaches the builtin's designator through
    /// indirections, comma or statement-expression results, or the selected
    /// branch of a choose or generic selection. Casts, address-taking and
    /// pointer variables are not followed. Expression edges are acyclic; the
    /// walk takes at most as many steps as there are expressions regardless.
    pub fn prefetch_arguments(&self, call: ExprId) -> (r: Option<&[ExprId]>)
        ensures
            match r {
                Some(a) => prefetch_call(self.expressions@, call) == Some(a@),
                None => prefetch_call(self.expressions@, call) is None,
            },
    {
        if call.0 >= self.expressions.len() {
            return None;
        }
        let (mut current, arguments) = match &self.expressions[call.0] {
            ExprKind::BuiltinCall { prefetch, arguments } => {
                if *prefetch {
                    return Some(arguments.as_slice());
                }
                return None;
            },
            ExprKind::Call { callee, arguments } => (*callee, arguments),
            _ => {
                return None;
            },
        };
        let ghost exprs = self.expressions@;
        let ghost callee = current;
        let mut steps: usize = 0;
        while steps < self.expressions.len()
            invariant
                exprs == self.expressions@,
                call.0 < exprs.len(),
                exprs[call.0 as int] matches ExprKind::Call { callee: c, arguments: a } && c == callee && a == *arguments,
                steps <= exprs.len(),
                reaches_prefetch(exprs, callee, exprs.len()) == reaches_prefetch(exprs, current, (exprs.len() - steps) as nat),
            decreases self.expressions.len() - steps,
        {
            if current.0 >= self.expressions.len() {
                return None;
            }
            match &self.expressions[current.0] {
                ExprKind::BuiltinFunction { prefetch } => {
                    if *prefetch {
                        return Some(arguments.as_slice());
                    }
                    return None;
                },
                _ => {},
            }
            match self.passes(current) {
                Some(next) => {
                    current = next;
                },
                None => {
                    return None;
                },
            }
            steps = steps + 1;
        }
        None
    }
}


/// Whether expression `current` is a GNU argument pack, within `fuel`
/// steps through `int` casts, unary plus and selected choose and generic
/// branches; `None` for an identifier outside the graph, a generic
/// selection whose arm is missing, or a walk longer than `fuel`.
pub open spec fn pack_at(expressions: Seq<ExprKind>, current: ExprId, fuel: nat) -> Option<bool>
    decreases fuel,
{
    if fuel == 0 || current.0 >= expressions.len() {
        None
    } else {
        match expressions[current.0 as int] {
            ExprKind::ArgumentPack => Some(true),
            ExprKind::Cast { to_int, operand } => if to_int {
                pack_at(expressions, operand, (fuel - 1) as nat)
            } else {
                Some(false)
            },
            ExprKind::UnaryPlus(operand) => pack_at(expressions, operand, (fuel - 1) as nat),
            ExprKind::Choose { then_expression, else_expression, then_selected } => pack_at(
                expressions,
                if then_selected {
                    then_expression
                } else {
                    else_expression
                },
                (fuel - 1) as nat,
            ),
            ExprKind::Generic { arms, selected } => if selected < arms@.len() {
                pack_at(expressions, arms@[selected as int], (fuel - 1) as nat)
            } else {
                None
            },
            _ => Some(false),
        }
    }
}

/// Whether an argument is a GNU argument pack, as [`CheckedCode::argument_pack`]
/// finds it: never in a unit without packs.
pub open spec fn argument_pack_spec(expressions: Seq<ExprKind>, has_variadic_packs: bool, expression: ExprId) -> Option<
    bool,
> {
    if !has_variadic_packs {
        Some(false)
    } else {
        pack_at(expressions, expression, expressions.len())
    }
}

impl CheckedCode {
    /// Recognizes an argument pack after its argument expression has been
    /// type-checked: a call of `__builtin_va_arg_pack`, possibly under
    /// casts to `int`, unary plus, or the selected branch of a choose or
    /// generic selection. C's `int` type describes unevaluated uses; it does
    /// not describe a runtime pack. Expression edges are acyclic; the walk
    /// takes at most as many steps as there are expressions regardless.
    pub fn argument_pack(&self, has_variadic_packs: bool, expression: ExprId) -> (r: Result<bool, Error>)
        ensures
            match r {
                Ok(b) => argument_pack_spec(self.expressions@, has_variadic_packs, expression) == Some(b),
                Err(_) => argument_pack_spec(self.expressions@, has_variadic_packs, expression) is None,
            },
    {
        if !has_variadic_packs {
            return Ok(false);
        }
        let ghost exprs = self.expressions@;
        let mut current = expression;
        let mut steps: usize = 0;
        while steps < self.expressions.len()
            invariant
                has_variadic_packs,
                exprs == self.expressions@,
                steps <= exprs.len(),
                pack_at(exprs, expression, exprs.len()) == pack_at(exprs, current, (exprs.len() - steps) as nat),
            decreases self.expressions.len() - steps,
        {
            if current.0 >= self.expressions.len() {
                return Err(Error::new(0, "invalid checked expression"));
            }
            let next = match &self.expressions[current.0] {
                ExprKind::ArgumentPack => {
                    return Ok(true);
                },
                ExprKind::Cast { to_int, operand } => {
                    if !*to_int {
                        return Ok(false);
                    }
                    *operand
                },
                ExprKind::UnaryPlus(operand) => *operand,
                ExprKind::Choose { then_expression, else_expression, then_selected } => {
                    if *then_selected {
                        *then_expression
                    } else {
                        *else_expression
                    }
                },
                ExprKind::Generic { arms, selected } => {
                    if *selected >= arms.len() {
                        return Err(Error::new(0, "argument generic selection was not checked"));
                    }
                    arms[*selected]
                },
                _ => {
                    return Ok(false);
                },
            };
            current = next;
            steps = steps + 1;
        }
        Err(Error::new(0, "expression nesting limit exceeded"))
    }

    /// A recognized expansion follows all fixed and explicit variadic
    /// arguments: argument `index` of `argument_count`, in a call of a
    /// variadic function with `fixed_count` fixed parameters, must be the
    /// last and a variadic one.
    pub fn check_argument_pack(
        &self,
        has_variadic_packs: bool,
        argument: ExprId,
        index: usize,
        argument_count: usize,
        fixed_count: usize,
        variadic: bool,
        offset: usize,
    ) -> (r: Result<(), Error>)
        ensures
            r is Ok <==> (argument_pack_spec(self.expressions@, has_variadic_packs, argument) matches Some(pack) && !(pack
                && (!variadic || index < fixed_count || index + 1 != argument_count))),
    {
        let pack = match self.argument_pack(has_variadic_packs, argument) {
            Ok(p) => p,
            Err(e) => {
                return Err(e);
            },
        };
        if pack && (!variadic || index < fixed_count || argument_count == 0 || index != argument_count - 1) {
            return Err(Error::new(offset, "variadic argument pack requires the final variadic argument position"));
        }
        Ok(())
    }
}

} // verus!
