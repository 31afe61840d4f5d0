//! Brace-enclosed initializers: which subobject each item initializes, brace
//! elision, flexible array members, and the bound an initializer gives an
//! array of unknown length.

use crate::error::Error;
use crate::subobjects::{
    designated_path, designated_subobject, designation_failure, first_index, first_subobject, flexible_in_path, flexible_step, next_path,
    next_subobject, subobject, subobject_at, Designator, ObjectShape,
};
use vstd::prelude::*;

verus! {

/// What checking an expression initializer found, relative to where the
/// expression stands. The analysis that checks expressions computes these.
#[derive(Debug)]
pub struct ExpressionFacts {
    /// Whether the expression initializes, whole, the aggregate it reaches
    /// after `k` steps into first subobjects from where it starts (entry `k`;
    /// missing entries are `false`): a string literal for a character array,
    /// or a value of a compatible structure or vector type.
    pub fills: Vec<bool>,
    /// For a string literal standing alone in the braces of a character
    /// array, the outcome of initializing that array from it: its length.
    pub braced_string: Option<Result<u64, Error>>,
    /// The outcome of initializing the subobject the expression lands on:
    /// for an array (from a string literal) its completed length.
    pub value: Result<Option<u64>, Error>,
}

/// An initializer: an expression, or a brace-enclosed list at `offset`.
#[derive(Debug)]
pub enum InitializerNode {
    Expression(ExpressionFacts),
    List { offset: usize, items: Vec<InitializerItem> },
}

/// One item of a brace-enclosed list: where it starts, its designators, and
/// its own initializer.
#[derive(Debug)]
pub struct InitializerItem {
    pub offset: usize,
    pub designation: Vec<Designator>,
    pub initializer: InitializerNode,
}

/// The rules an initializer list can break.
#[derive(Clone, Copy, Debug, PartialEq, Eq, Structural)]
pub enum InitializerRule {
    ExcessElements,
    NoObject,
    NestingLimit,
    ScalarOneValue,
    ScalarDesignator,
    VectorDesignator,
    VectorBraces,
    FlexibleStatic,
    FlexibleNested,
    FlexibleTopLevel,
    FlexibleSubobjectDesignator,
    FlexibleDesignatorWhole,
    FlexibleBoundOverflow,
    ArrayBoundOverflow,
}

/// The diagnostic of each rule.
pub open spec fn rule_message(rule: InitializerRule) -> Seq<char> {
    match rule {
        InitializerRule::ExcessElements => "excess elements in initializer"@,
        InitializerRule::NoObject => "initializer has no object to initialize"@,
        InitializerRule::NestingLimit => "initializer subobject nesting limit exceeded"@,
        InitializerRule::ScalarOneValue => "scalar initializer requires one value"@,
        InitializerRule::ScalarDesignator => "scalar initializer cannot have a designator"@,
        InitializerRule::VectorDesignator => "vector initializers cannot have designators"@,
        InitializerRule::VectorBraces => "nested braces in vector lane initializers are unsupported"@,
        InitializerRule::FlexibleStatic => "flexible array initialization requires static storage on this target"@,
        InitializerRule::FlexibleNested => "flexible-array allocation in a compound literal or nested object is unsupported"@,
        InitializerRule::FlexibleTopLevel => "nonempty flexible array initialization requires a top-level static object"@,
        InitializerRule::FlexibleSubobjectDesignator => "designator into a flexible array member subobject is unsupported by the target"@,
        InitializerRule::FlexibleDesignatorWhole => "flexible array designator requires a brace-enclosed or string initializer"@,
        InitializerRule::FlexibleBoundOverflow => "flexible array bound overflows"@,
        InitializerRule::ArrayBoundOverflow => "initializer array bound overflows"@,
    }
}

/// Why an initializer is refused: a consulted fact's error, a broken rule
/// at a source offset, a designator the object's shape refuses (with the
/// designator check's offset and diagnostic), or a path that leaves the
/// object, which a walk that follows the object's own subobjects never
/// takes.
pub enum InitializerFailure {
    Fact(Error),
    Rule(usize, InitializerRule),
    Designator(usize, Seq<char>),
    Shape,
}

/// Whether `e` is the diagnostic of a failure.
pub open spec fn reports_failure(e: Error, failure: InitializerFailure) -> bool {
    match failure {
        InitializerFailure::Fact(f) => e == f,
        InitializerFailure::Rule(offset, rule) => e.offset == offset && e.message@ == rule_message(rule),
        InitializerFailure::Designator(offset, message) => e.offset == offset && e.message@ == message,
        InitializerFailure::Shape => true,
    }
}

/// Whether an outcome is the one the rules give.
pub open spec fn reports<T>(r: Result<T, Error>, expected: Result<T, InitializerFailure>) -> bool {
    match (r, expected) {
        (Ok(a), Ok(b)) => a == b,
        (Err(e), Err(f)) => reports_failure(e, f),
        _ => false,
    }
}

/// The state of a list's walk: the subobject brace elision goes to next
/// (`None` when the object is exhausted), the array bound so far, the
/// elements given a top-level flexible array member, and each item's path.
pub struct WalkState {
    pub cursor: Option<Seq<u64>>,
    pub bound: u64,
    pub elements: Option<u64>,
    pub paths: Seq<Seq<u64>>,
}

/// What a checked initializer gives: the completed length when it
/// initializes an array, the element count of a top-level flexible array
/// member, and the subobject path each item initializes.
pub struct InitializedModel {
    pub completed: Option<u64>,
    pub elements: Option<u64>,
    pub paths: Seq<Seq<u64>>,
}

pub open spec fn is_aggregate(shape: ObjectShape) -> bool {
    shape is Array || shape is Vector || shape is Record
}

/// The length a list gives its array: the bound it reached for an array of
/// unknown length, the written bound otherwise.
pub open spec fn list_length(target: ObjectShape, bound: u64) -> Option<u64> {
    match target {
        ObjectShape::Array { length: None, .. } => Some(bound),
        ObjectShape::Array { length: Some(b), .. } => Some(b),
        _ => None,
    }
}

pub open spec fn empty_list(node: InitializerNode) -> bool {
    node matches InitializerNode::List { items, .. } && items@.len() == 0
}

/// The rule a path breaks when it crosses a flexible array member at
/// `depth`: only a top-level flexible member of a static object may be
/// initialized, except that an empty list may stand where the member starts
/// (not with GNU outside static storage); and without GNU no designator may
/// reach inside the member.
pub open spec fn flexible_rule(
    depth: int,
    path: Seq<u64>,
    flexible: Option<u64>,
    requires_constant: bool,
    gnu: bool,
    designated: bool,
    empty: bool,
) -> Option<InitializerRule> {
    let top_level = depth == 1 && path.len() > 0 && flexible == Some(path[0]);
    let permitted = top_level && requires_constant;
    let empty_here = depth == path.len() && empty;
    if !permitted && (!empty_here || (!requires_constant && gnu)) {
        Some(
            if !requires_constant {
                InitializerRule::FlexibleStatic
            } else if depth == 1 && flexible is None && gnu {
                InitializerRule::FlexibleNested
            } else {
                InitializerRule::FlexibleTopLevel
            },
        )
    } else if !gnu && designated && depth < path.len() {
        Some(InitializerRule::FlexibleSubobjectDesignator)
    } else {
        None
    }
}

/// Whether an item initializes the subobject `target` it reached after `k`
/// steps whole: a list always, an expression a scalar always and an
/// aggregate when it fills it.
pub open spec fn initializes_whole(target: ObjectShape, initializer: InitializerNode, k: nat) -> bool {
    match initializer {
        InitializerNode::List { .. } => true,
        InitializerNode::Expression(f) => !is_aggregate(target) || (k < f.fills@.len() && f.fills@[k as int]),
    }
}

/// The elements a top-level flexible member has after an item initialized
/// it whole with a completed length `length`.
pub open spec fn flexible_elements_after(elements: Option<u64>, length: Option<u64>, gnu: bool) -> Option<u64> {
    match length {
        Some(n) => if n != 0 || !gnu || elements is None {
            Some(n)
        } else {
            elements
        },
        None => elements,
    }
}

/// A string literal standing alone in the braces of an array: the outcome
/// of initializing the array from it.
pub open spec fn lone_string(target: ObjectShape, items: Seq<InitializerItem>) -> Option<Result<u64, Error>> {
    if target is Array && items.len() == 1 && items[0].designation@.len() == 0 {
        match items[0].initializer {
            InitializerNode::Expression(f) => f.braced_string,
            _ => None,
        }
    } else {
        None
    }
}

/// An initializer for `target`: the completed length when `target` is an
/// array, or why it is refused.
pub open spec fn initialize_spec(target: ObjectShape, node: InitializerNode, requires_constant: bool, gnu: bool) -> Result<
    Option<u64>,
    InitializerFailure,
>
    decreases node, 2int, 0int,
{
    match node {
        InitializerNode::Expression(f) => match f.value {
            Err(e) => Err(InitializerFailure::Fact(e)),
            Ok(length) => Ok(if target is Array {
                length
            } else {
                None
            }),
        },
        InitializerNode::List { .. } => match list_spec(target, node, requires_constant, gnu, None) {
            Err(f) => Err(f),
            Ok(m) => Ok(m.completed),
        },
    }
}

/// A brace-enclosed list for `target`; `flexible` is the index of the
/// flexible array member whose elements a top-level static object may
/// initialize. A character array may take a lone string literal; a scalar
/// takes at most one undesignated value; an aggregate is walked item by
/// item with brace elision.
pub open spec fn list_spec(
    target: ObjectShape,
    node: InitializerNode,
    requires_constant: bool,
    gnu: bool,
    flexible: Option<u64>,
) -> Result<InitializedModel, InitializerFailure>
    decreases node, 1int, 0int,
{
    match node {
        InitializerNode::Expression(_) => Err(InitializerFailure::Shape),
        InitializerNode::List { offset, items } => {
            let lone = lone_string(target, items@);
            if lone is Some {
                match lone->0 {
                    Ok(n) => Ok(InitializedModel { completed: Some(n), elements: None, paths: seq![Seq::empty()] }),
                    Err(e) => Err(InitializerFailure::Fact(e)),
                }
            } else if !is_aggregate(target) {
                if items@.len() == 0 {
                    Ok(InitializedModel { completed: None, elements: None, paths: Seq::empty() })
                } else if items@.len() > 1 {
                    Err(InitializerFailure::Rule(offset, InitializerRule::ScalarOneValue))
                } else if items@[0].designation@.len() > 0 {
                    Err(InitializerFailure::Rule(offset, InitializerRule::ScalarDesignator))
                } else {
                    match initialize_spec(target, items@[0].initializer, requires_constant, gnu) {
                        Err(f) => Err(f),
                        Ok(_) => Ok(InitializedModel { completed: None, elements: None, paths: seq![Seq::empty()] }),
                    }
                }
            } else {
                match walk_spec(target, node, items@.len(), requires_constant, gnu, flexible) {
                    Err(f) => Err(f),
                    Ok(s) => Ok(InitializedModel { completed: list_length(target, s.bound), elements: s.elements, paths: s.paths }),
                }
            }
        },
    }
}

/// The walk of an aggregate's list after its first `n` items.
pub open spec fn walk_spec(
    root: ObjectShape,
    node: InitializerNode,
    n: nat,
    requires_constant: bool,
    gnu: bool,
    flexible: Option<u64>,
) -> Result<WalkState, InitializerFailure>
    decreases node, 0int, n,
{
    if n == 0 {
        Ok(WalkState {
            cursor: match first_index(root) {
                Some(i) => Some(seq![i]),
                None => None,
            },
            bound: 0,
            elements: None,
            paths: Seq::empty(),
        })
    } else {
        match node {
            InitializerNode::List { items, .. } => if n > items@.len() {
                Err(InitializerFailure::Shape)
            } else {
                match walk_spec(root, node, (n - 1) as nat, requires_constant, gnu, flexible) {
                    Err(f) => Err(f),
                    Ok(s) => item_spec(root, items@[n - 1], s, requires_constant, gnu, flexible),
                }
            },
            _ => Err(InitializerFailure::Shape),
        }
    }
}

/// One item of an aggregate's list: a vector lane takes no designator and no
/// braces; the item starts at its designated subobject or at the cursor,
/// descends into first subobjects until it initializes one whole, extends
/// the array bound (and a top-level flexible member's elements), and moves
/// the cursor past it.
pub open spec fn item_spec(
    root: ObjectShape,
    item: InitializerItem,
    s: WalkState,
    requires_constant: bool,
    gnu: bool,
    flexible: Option<u64>,
) -> Result<WalkState, InitializerFailure>
    decreases item, 1int, 0int,
{
    let designated = item.designation@.len() > 0;
    if root is Vector && designated {
        Err(InitializerFailure::Rule(item.offset, InitializerRule::VectorDesignator))
    } else if root is Vector && item.initializer is List {
        Err(InitializerFailure::Rule(item.offset, InitializerRule::VectorBraces))
    } else {
        let start: Result<Seq<u64>, InitializerFailure> = if !designated {
            match s.cursor {
                None => Err(InitializerFailure::Rule(item.offset, InitializerRule::ExcessElements)),
                Some(c) => Ok(c),
            }
        } else {
            match designated_path(root, item.designation@, item.designation@.len() as int) {
                None => match designation_failure(root, item.designation@, item.designation@.len() as int) {
                    Some(f) => Err(InitializerFailure::Designator(f.0, f.1)),
                    None => Err(InitializerFailure::Shape),
                },
                Some(p) => Ok(p),
            }
        };
        match start {
            Err(f) => Err(f),
            Ok(path0) => match descend_spec(root, item, path0, 0, requires_constant, gnu, flexible, s.elements) {
                Err(f) => Err(f),
                Ok((path, elements)) => {
                    let flexible_step: Result<Option<u64>, InitializerFailure> = if flexible is Some && path.len() > 1
                        && path[0] == flexible->0 {
                        if path[1] == u64::MAX {
                            Err(InitializerFailure::Rule(item.offset, InitializerRule::FlexibleBoundOverflow))
                        } else {
                            let grown = (path[1] + 1) as u64;
                            Ok(Some(match elements {
                                Some(e) => if e > grown {
                                    e
                                } else {
                                    grown
                                },
                                None => grown,
                            }))
                        }
                    } else {
                        Ok(elements)
                    };
                    match flexible_step {
                        Err(f) => Err(f),
                        Ok(elements) => if path.len() > 0 && path[0] == u64::MAX {
                            Err(InitializerFailure::Rule(item.offset, InitializerRule::ArrayBoundOverflow))
                        } else {
                            let bound = if path.len() > 0 && path[0] + 1 > s.bound {
                                (path[0] + 1) as u64
                            } else {
                                s.bound
                            };
                            match next_path(root, path) {
                                None => Err(InitializerFailure::Shape),
                                Some(cursor) => Ok(WalkState { cursor, bound, elements, paths: s.paths.push(path) }),
                            }
                        },
                    }
                },
            },
        }
    }
}

/// An item's descent from `path`, `k` steps below where it started: the
/// path of the subobject it initializes whole and the flexible member's
/// elements after it.
pub open spec fn descend_spec(
    root: ObjectShape,
    item: InitializerItem,
    path: Seq<u64>,
    k: nat,
    requires_constant: bool,
    gnu: bool,
    flexible: Option<u64>,
    elements: Option<u64>,
) -> Result<(Seq<u64>, Option<u64>), InitializerFailure>
    decreases item, 0int, 128 - path.len(),
{
    match subobject_at(root, path) {
        None => Err(InitializerFailure::Shape),
        Some(target) => {
            let designated = item.designation@.len() > 0;
            let member_depth = flexible_step(root, path);
            let rule = match member_depth {
                Some(depth) => flexible_rule(
                    depth,
                    path,
                    flexible,
                    requires_constant,
                    gnu,
                    designated,
                    empty_list(item.initializer),
                ),
                None => None,
            };
            let whole = initializes_whole(target, item.initializer, k);
            if rule is Some {
                Err(InitializerFailure::Rule(item.offset, rule->0))
            } else if member_depth == Some(path.len() as int) && !gnu && designated && !whole {
                Err(InitializerFailure::Rule(item.offset, InitializerRule::FlexibleDesignatorWhole))
            } else if whole {
                match initialize_spec(target, item.initializer, requires_constant, gnu) {
                    Err(f) => Err(f),
                    Ok(length) => Ok(
                        (
                            path,
                            if member_depth == Some(1int) && path.len() == 1 && flexible is Some {
                                flexible_elements_after(elements, length, gnu)
                            } else {
                                elements
                            },
                        ),
                    ),
                }
            } else {
                match first_index(target) {
                    None => Err(InitializerFailure::Rule(item.offset, InitializerRule::NoObject)),
                    Some(first) => if path.len() >= 128 {
                        Err(InitializerFailure::Rule(item.offset, InitializerRule::NestingLimit))
                    } else {
                        descend_spec(root, item, path.push(first), k + 1, requires_constant, gnu, flexible, elements)
                    },
                }
            }
        },
    }
}

/// What an initializer gives for an object of shape `target`: for a list,
/// the walk's result; for an expression, the completed length of an array.
pub open spec fn initializer_spec(
    target: ObjectShape,
    node: InitializerNode,
    requires_constant: bool,
    gnu: bool,
    flexible: Option<u64>,
) -> Result<InitializedModel, InitializerFailure> {
    match node {
        InitializerNode::List { .. } => list_spec(target, node, requires_constant, gnu, flexible),
        InitializerNode::Expression(_) => match initialize_spec(target, node, requires_constant, gnu) {
            Err(f) => Err(f),
            Ok(completed) => Ok(InitializedModel { completed, elements: None, paths: Seq::empty() }),
        },
    }
}

/// A checked initializer's result.
#[derive(Debug)]
pub struct InitializedList {
    /// The completed length when the object is an array.
    pub completed_length: Option<u64>,
    /// The elements a top-level flexible array member is given.
    pub flexible_elements: Option<u64>,
    /// The subobject path each list item initializes, in order.
    pub paths: Vec<Vec<u64>>,
}

pub open spec fn path_views(paths: Seq<Vec<u64>>) -> Seq<Seq<u64>> {
    paths.map_values(|p: Vec<u64>| p@)
}

pub open spec fn initialized_view(l: InitializedList) -> InitializedModel {
    InitializedModel { completed: l.completed_length, elements: l.flexible_elements, paths: path_views(l.paths@) }
}

pub open spec fn cursor_view(cursor: Option<Vec<u64>>) -> Option<Seq<u64>> {
    match cursor {
        Some(c) => Some(c@),
        None => None,
    }
}

fn rule_error(offset: usize, rule: InitializerRule) -> (e: Error)
    ensures
        reports_failure(e, InitializerFailure::Rule(offset, rule)),
{
    match rule {
        InitializerRule::ExcessElements => Error::new(offset, "excess elements in initializer"),
        InitializerRule::NoObject => Error::new(offset, "initializer has no object to initialize"),
        InitializerRule::NestingLimit => Error::new(offset, "initializer subobject nesting limit exceeded"),
        InitializerRule::ScalarOneValue => Error::new(offset, "scalar initializer requires one value"),
        InitializerRule::ScalarDesignator => Error::new(offset, "scalar initializer cannot have a designator"),
        InitializerRule::VectorDesignator => Error::new(offset, "vector initializers cannot have designators"),
        InitializerRule::VectorBraces => Error::new(offset, "nested braces in vector lane initializers are unsupported"),
        InitializerRule::FlexibleStatic => Error::new(
            offset,
            "flexible array initialization requires static storage on this target",
        ),
        InitializerRule::FlexibleNested => Error::new(
            offset,
            "flexible-array allocation in a compound literal or nested object is unsupported",
        ),
        InitializerRule::FlexibleTopLevel => Error::new(
            offset,
            "nonempty flexible array initialization requires a top-level static object",
        ),
        InitializerRule::FlexibleSubobjectDesignator => Error::new(
            offset,
            "designator into a flexible array member subobject is unsupported by the target",
        ),
        InitializerRule::FlexibleDesignatorWhole => Error::new(
            offset,
            "flexible array designator requires a brace-enclosed or string initializer",
        ),
        InitializerRule::FlexibleBoundOverflow => Error::new(offset, "flexible array bound overflows"),
        InitializerRule::ArrayBoundOverflow => Error::new(offset, "initializer array bound overflows"),
    }
}

fn check_flexible(
    depth: usize,
    path: &Vec<u64>,
    flexible: Option<u64>,
    requires_constant: bool,
    gnu: bool,
    designated: bool,
    empty: bool,
) -> (r: Option<InitializerRule>)
    ensures
        r == flexible_rule(depth as int, path@, flexible, requires_constant, gnu, designated, empty),
{
    let top_level = depth == 1 && path.len() > 0 && flexible == Some(path[0]);
    let permitted = top_level && requires_constant;
    let empty_here = depth == path.len() && empty;
    if !permitted && (!empty_here || (!requires_constant && gnu)) {
        Some(
            if !requires_constant {
                InitializerRule::FlexibleStatic
            } else if depth == 1 && flexible.is_none() && gnu {
                InitializerRule::FlexibleNested
            } else {
                InitializerRule::FlexibleTopLevel
            },
        )
    } else if !gnu && designated && depth < path.len() {
        Some(InitializerRule::FlexibleSubobjectDesignator)
    } else {
        None
    }
}

fn aggregate(shape: &ObjectShape) -> (r: bool)
    ensures
        r == is_aggregate(*shape),
{
    match shape {
        ObjectShape::Scalar => false,
        _ => true,
    }
}

fn whole_at(target: &ObjectShape, initializer: &InitializerNode, k: usize) -> (r: bool)
    ensures
        r == initializes_whole(*target, *initializer, k as nat),
{
    match initializer {
        InitializerNode::List { .. } => true,
        InitializerNode::Expression(f) => !aggregate(target) || (k < f.fills.len() && f.fills[k]),
    }
}

fn initialize_at(target: &ObjectShape, node: &InitializerNode, requires_constant: bool, gnu: bool) -> (r: Result<
    Option<u64>,
    Error,
>)
    ensures
        reports(r, initialize_spec(*target, *node, requires_constant, gnu)),
    decreases node, 2int, 0int,
{
    match node {
        InitializerNode::Expression(f) => match &f.value {
            Err(e) => Err(e.duplicate()),
            Ok(length) => Ok(
                match target {
                    ObjectShape::Array { .. } => *length,
                    _ => None,
                },
            ),
        },
        InitializerNode::List { .. } => {
            let m = list_at(target, node, requires_constant, gnu, None)?;
            Ok(m.completed_length)
        },
    }
}

fn list_at(target: &ObjectShape, node: &InitializerNode, requires_constant: bool, gnu: bool, flexible: Option<u64>) -> (r:
    Result<InitializedList, Error>)
    ensures
        match (r, list_spec(*target, *node, requires_constant, gnu, flexible)) {
            (Ok(l), Ok(m)) => initialized_view(l) == m,
            (Err(e), Err(f)) => reports_failure(e, f),
            _ => false,
        },
    decreases node, 1int, 0int,
{
    let (offset, items) = match node {
        InitializerNode::List { offset, items } => (*offset, items),
        InitializerNode::Expression(_) => {
            return Err(Error::new(0, "initializer list expected"));
        },
    };
    let is_array = match target {
        ObjectShape::Array { .. } => true,
        _ => false,
    };
    if is_array && items.len() == 1 && items[0].designation.len() == 0 {
        if let InitializerNode::Expression(f) = &items[0].initializer {
            match &f.braced_string {
                Some(Ok(n)) => {
                    let mut paths: Vec<Vec<u64>> = Vec::new();
                    paths.push(Vec::new());
                    proof {
                        assert(path_views(paths@) =~= seq![Seq::<u64>::empty()]);
                    }
                    return Ok(InitializedList { completed_length: Some(*n), flexible_elements: None, paths });
                },
                Some(Err(e)) => {
                    return Err(e.duplicate());
                },
                None => {},
            }
        }
    }
    if !aggregate(target) {
        if items.len() == 0 {
            let paths: Vec<Vec<u64>> = Vec::new();
            proof {
                assert(path_views(paths@) =~= Seq::<Seq<u64>>::empty());
            }
            return Ok(InitializedList { completed_length: None, flexible_elements: None, paths });
        }
        if items.len() > 1 {
            return Err(rule_error(offset, InitializerRule::ScalarOneValue));
        }
        if items[0].designation.len() > 0 {
            return Err(rule_error(offset, InitializerRule::ScalarDesignator));
        }
        initialize_at(target, &items[0].initializer, requires_constant, gnu)?;
        let mut paths: Vec<Vec<u64>> = Vec::new();
        paths.push(Vec::new());
        proof {
            assert(path_views(paths@) =~= seq![Seq::<u64>::empty()]);
        }
        return Ok(InitializedList { completed_length: None, flexible_elements: None, paths });
    }
    let mut cursor: Option<Vec<u64>> = match first_subobject(target) {
        Some(i) => Some(vec![i]),
        None => None,
    };
    let mut bound: u64 = 0;
    let mut elements: Option<u64> = None;
    let mut paths: Vec<Vec<u64>> = Vec::new();
    proof {
        if cursor is Some {
            assert(cursor->0@ =~= seq![first_index(*target)->0]);
        }
        assert(path_views(paths@) =~= Seq::<Seq<u64>>::empty());
    }
    let mut i: usize = 0;
    while i < items.len()
        invariant
            i <= items@.len(),
            *node == (InitializerNode::List { offset, items: *items }),
            is_aggregate(*target),
            lone_string(*target, items@) is None,
            walk_spec(*target, *node, i as nat, requires_constant, gnu, flexible) == Ok::<WalkState, InitializerFailure>(
                WalkState { cursor: cursor_view(cursor), bound, elements, paths: path_views(paths@) },
            ),
        decreases items.len() - i,
    {
        match item_at(target, &items[i], cursor, bound, elements, paths, requires_constant, gnu, flexible) {
            Ok((c, b, e, p)) => {
                cursor = c;
                bound = b;
                elements = e;
                paths = p;
            },
            Err(e) => {
                proof {
                    assert(walk_spec(*target, *node, (i + 1) as nat, requires_constant, gnu, flexible) is Err);
                    lemma_walk_stays_refused(*target, *node, (i + 1) as nat, items@.len(), requires_constant, gnu, flexible);
                }
                return Err(e);
            },
        }
        i = i + 1;
    }
    let completed_length = match target {
        ObjectShape::Array { length: None, .. } => Some(bound),
        ObjectShape::Array { length: Some(b), .. } => Some(*b),
        _ => None,
    };
    Ok(InitializedList { completed_length, flexible_elements: elements, paths })
}

proof fn lemma_flexible_step_bounds(root: ObjectShape, path: Seq<u64>)
    ensures
        flexible_step(root, path) matches Some(n) ==> 1 <= n <= path.len(),
    decreases path.len(),
{
    if path.len() > 0 {
        lemma_flexible_step_bounds(root, path.drop_last());
    }
}

proof fn lemma_walk_stays_refused(
    root: ObjectShape,
    node: InitializerNode,
    n: nat,
    m: nat,
    requires_constant: bool,
    gnu: bool,
    flexible: Option<u64>,
)
    requires
        n <= m,
        node matches InitializerNode::List { items, .. } && m <= items@.len(),
        walk_spec(root, node, n, requires_constant, gnu, flexible) is Err,
    ensures
        walk_spec(root, node, m, requires_constant, gnu, flexible) == walk_spec(root, node, n, requires_constant, gnu, flexible),
    decreases m - n,
{
    if n < m {
        lemma_walk_stays_refused(root, node, n, (m - 1) as nat, requires_constant, gnu, flexible);
    }
}

#[verifier::rlimit(50)]
fn item_at(
    root: &ObjectShape,
    item: &InitializerItem,
    cursor: Option<Vec<u64>>,
    bound: u64,
    elements: Option<u64>,
    paths: Vec<Vec<u64>>,
    requires_constant: bool,
    gnu: bool,
    flexible: Option<u64>,
) -> (r: Result<(Option<Vec<u64>>, u64, Option<u64>, Vec<Vec<u64>>), Error>)
    ensures
        match (
            r,
            item_spec(
                *root,
                *item,
                WalkState { cursor: cursor_view(cursor), bound, elements, paths: path_views(paths@) },
                requires_constant,
                gnu,
                flexible,
            ),
        ) {
            (Ok((c, b, e, p)), Ok(s)) => s == (WalkState {
                cursor: cursor_view(c),
                bound: b,
                elements: e,
                paths: path_views(p@),
            }),
            (Err(e), Err(f)) => reports_failure(e, f),
            _ => false,
        },
    decreases item, 1int, 0int,
{
    let designated = item.designation.len() > 0;
    let is_vector = match root {
        ObjectShape::Vector { .. } => true,
        _ => false,
    };
    let is_list = match &item.initializer {
        InitializerNode::List { .. } => true,
        _ => false,
    };
    if is_vector && designated {
        return Err(rule_error(item.offset, InitializerRule::VectorDesignator));
    }
    if is_vector && is_list {
        return Err(rule_error(item.offset, InitializerRule::VectorBraces));
    }
    let start: Vec<u64> = if !designated {
        match cursor {
            None => {
                return Err(rule_error(item.offset, InitializerRule::ExcessElements));
            },
            Some(c) => c,
        }
    } else {
        designated_subobject(root, item.designation.as_slice())?
    };
    let (path, elements) = descend_at(root, item, start, requires_constant, gnu, flexible, elements)?;
    let mut elements = elements;
    if flexible.is_some() && path.len() > 1 && path[0] == flexible.unwrap() {
        if path[1] == u64::MAX {
            return Err(rule_error(item.offset, InitializerRule::FlexibleBoundOverflow));
        }
        let grown = path[1] + 1;
        elements = Some(
            match elements {
                Some(e) => if e > grown {
                    e
                } else {
                    grown
                },
                None => grown,
            },
        );
    }
    if path.len() > 0 && path[0] == u64::MAX {
        return Err(rule_error(item.offset, InitializerRule::ArrayBoundOverflow));
    }
    let bound = if path.len() > 0 && path[0] + 1 > bound {
        path[0] + 1
    } else {
        bound
    };
    let next = match next_subobject(root, path.as_slice(), item.offset) {
        Ok(n) => n,
        Err(e) => {
            return Err(e);
        },
    };
    let mut paths = paths;
    let ghost before = paths@;
    paths.push(path);
    proof {
        assert(path_views(paths@) =~= path_views(before).push(paths@.last()@));
        assert(cursor_view(next) == next_path(*root, paths@.last()@)->0);
    }
    Ok((next, bound, elements, paths))
}

#[verifier::rlimit(100)]
#[verifier::spinoff_prover]
fn descend_at(
    root: &ObjectShape,
    item: &InitializerItem,
    start: Vec<u64>,
    requires_constant: bool,
    gnu: bool,
    flexible: Option<u64>,
    elements: Option<u64>,
) -> (r: Result<(Vec<u64>, Option<u64>), Error>)
    ensures
        match (r, descend_spec(*root, *item, start@, 0, requires_constant, gnu, flexible, elements)) {
            (Ok((p, e)), Ok((q, f))) => p@ == q && e == f,
            (Err(e), Err(f)) => reports_failure(e, f),
            _ => false,
        },
    decreases item, 0int, 0int,
{
    let designated = item.designation.len() > 0;
    let empty = match &item.initializer {
        InitializerNode::List { items, .. } => items.len() == 0,
        _ => false,
    };
    let mut path = start;
    let mut k: usize = 0;
    loop
        invariant
            path@.len() == start@.len() + k,
            k <= 128,
            designated == (item.designation@.len() > 0),
            empty == empty_list(item.initializer),
            descend_spec(*root, *item, start@, 0, requires_constant, gnu, flexible, elements) == descend_spec(
                *root,
                *item,
                path@,
                k as nat,
                requires_constant,
                gnu,
                flexible,
                elements,
            ),
        decreases 128 - k,
    {
        let target = match subobject(root, path.as_slice(), item.offset) {
            Ok(t) => t,
            Err(e) => {
                return Err(e);
            },
        };
        let member_depth = match flexible_in_path(root, path.as_slice(), item.offset) {
            Ok(m) => m,
            Err(e) => {
                return Err(e);
            },
        };
        proof {
            lemma_flexible_step_bounds(*root, path@);
        }
        if let Some(depth) = member_depth {
            if let Some(rule) = check_flexible(depth, &path, flexible, requires_constant, gnu, designated, empty) {
                proof {
                    assert(subobject_at(*root, path@) == Some(*target));
                    assert(flexible_step(*root, path@) == Some(depth as int));
                    assert(flexible_rule(depth as int, path@, flexible, requires_constant, gnu, designated, empty) == Some(rule));
                    assert(descend_spec(*root, *item, path@, k as nat, requires_constant, gnu, flexible, elements)
                        == Err::<(Seq<u64>, Option<u64>), InitializerFailure>(InitializerFailure::Rule(item.offset, rule)));
                }
                return Err(rule_error(item.offset, rule));
            }
        }
        let whole = whole_at(target, &item.initializer, k);
        if member_depth == Some(path.len()) && !gnu && designated && !whole {
            return Err(rule_error(item.offset, InitializerRule::FlexibleDesignatorWhole));
        }
        if whole {
            let length = initialize_at(target, &item.initializer, requires_constant, gnu)?;
            let after = if member_depth == Some(1) && path.len() == 1 && flexible.is_some() {
                match length {
                    Some(n) => if n != 0 || !gnu || elements.is_none() {
                        Some(n)
                    } else {
                        elements
                    },
                    None => elements,
                }
            } else {
                elements
            };
            return Ok((path, after));
        }
        let first = match first_subobject(target) {
            Some(first) => first,
            None => {
                return Err(rule_error(item.offset, InitializerRule::NoObject));
            },
        };
        if path.len() >= 128 {
            return Err(rule_error(item.offset, InitializerRule::NestingLimit));
        }
        path.push(first);
        k = k + 1;
    }
}

/// Checks an initializer for an object of shape `shape` and says what it
/// gives: the completed length of an array (the bound a list reaches for an
/// array of unknown length, as in `int a[] = {...}`), the elements of the
/// top-level flexible array member at index `flexible_member` (of a static
/// object: `requires_constant`), and the subobject each item initializes.
/// Items take the cursor's subobject unless designated, brace elision
/// descends into first subobjects until an item initializes one whole, and
/// an item past the end is "excess elements in initializer". `gnu` selects
/// GCC's flexible-array rules.
pub fn check_initializer_list(
    shape: &ObjectShape,
    node: &InitializerNode,
    requires_constant: bool,
    gnu: bool,
    flexible_member: Option<u64>,
) -> (r: Result<InitializedList, Error>)
    ensures
        match (r, initializer_spec(*shape, *node, requires_constant, gnu, flexible_member)) {
            (Ok(l), Ok(m)) => initialized_view(l) == m,
            (Err(e), Err(f)) => reports_failure(e, f),
            _ => false,
        },
{
    match node {
        InitializerNode::List { .. } => list_at(shape, node, requires_constant, gnu, flexible_member),
        InitializerNode::Expression(_) => {
            let completed_length = initialize_at(shape, node, requires_constant, gnu)?;
            let paths: Vec<Vec<u64>> = Vec::new();
            proof {
                assert(path_views(paths@) =~= Seq::<Seq<u64>>::empty());
            }
            Ok(InitializedList { completed_length, flexible_elements: None, paths })
        },
    }
}

} // verus!
