//! Bounded comparison of object occurrence types after removing typedef
//! spelling.
//!
//! Typedef spelling and alignment provenance are not C type identity.
//! Qualifiers, array bounds, prototypes, calling conventions, and nominal
//! tag and vector identities remain significant. This is narrower than
//! general C compatibility.

use crate::error::Error;
use crate::ir::{FunctionType, Parameter, Qualifiers, Type, TypeKind};
use crate::noescape::{noescape_parameters, ParameterContracts, ParameterContractsId};
use crate::typedefs::{find_typedef, lemma_typedef_from, typedef_from, unknown_typedef};
use vstd::prelude::*;

verus! {

/// The references one comparison pass may follow.
pub const COMPARISON_LIMIT: usize = 1000000;

/// The message of the error a comparison gives when its budget runs out.
pub open spec fn budget_message() -> Seq<char> {
    "object-type comparison reference limit exceeded"@
}

/// The qualifiers a comparison keeps.
pub open spec fn qualifier_mask(q: Qualifiers) -> u8 {
    q.comparison_mask()
}

/// Follows typedef names for at most `steps` references, gathering the
/// qualifiers written on the way: the type reached and its qualifiers,
/// `None` for an unknown name or a chain longer than `steps`.
pub open spec fn resolve_steps(typedefs: Seq<(String, Type)>, ty: Type, qualifiers: u8, steps: nat) -> Option<(Type, u8)>
    decreases steps,
{
    if steps == 0 {
        None
    } else {
        let gathered = qualifiers | qualifier_mask(ty.qualifiers);
        match ty.kind {
            TypeKind::Typedef(name) => match typedef_from(typedefs, name@, 0) {
                Some(i) => resolve_steps(typedefs, typedefs[i].1, gathered, (steps - 1) as nat),
                None => None,
            },
            _ => Some((ty, gathered)),
        }
    }
}

/// How many references a resolution of at most `steps` references charges.
pub open spec fn resolve_cost(typedefs: Seq<(String, Type)>, ty: Type, steps: nat) -> nat
    decreases steps,
{
    if steps == 0 {
        0
    } else {
        match ty.kind {
            TypeKind::Typedef(name) => match typedef_from(typedefs, name@, 0) {
                Some(i) => 1 + resolve_cost(typedefs, typedefs[i].1, (steps - 1) as nat),
                None => 1,
            },
            _ => 1,
        }
    }
}

/// The `noescape` positions an optional contract identifier denotes, `None`
/// for an identifier outside the arena.
pub open spec fn contract_positions(contracts: Seq<ParameterContracts>, id: Option<ParameterContractsId>) -> Option<Seq<u32>> {
    match id {
        Some(i) => if i.index_spec() < contracts.len() {
            Some(contracts[i.index_spec()].no_escape@)
        } else {
            None
        },
        None => Some(Seq::empty()),
    }
}

/// Whether two contract identifiers denote the same positions, and what
/// the comparison charges: the number of positions of both, saturated.
pub open spec fn contracts_match(
    contracts: Seq<ParameterContracts>,
    a: Option<ParameterContractsId>,
    b: Option<ParameterContractsId>,
) -> Option<(bool, nat)> {
    match (contract_positions(contracts, a), contract_positions(contracts, b)) {
        (Some(x), Some(y)) => Some(
            (x == y, if x.len() + y.len() > usize::MAX {
                usize::MAX as nat
            } else {
                (x.len() + y.len()) as nat
            }),
        ),
        _ => None,
    }
}

/// Whether two kinds are both fixed or both variable-length arrays, whose
/// qualifiers are compared at their elements.
pub open spec fn both_arrays(a: TypeKind, b: TypeKind) -> bool {
    (a is Array && b is Array) || (a is VariableArray && b is VariableArray)
}

/// The comparison of two types, each with the qualifiers gathered above it,
/// within `fuel` nesting levels: whether they are the same object type and
/// how many references the comparison charges, `None` where a typedef is
/// unknown, a chain or the nesting is too deep, or a contract identifier is
/// invalid. `parameter` drops top-level qualifiers, as a parameter's are
/// absent from its function type; `completion` lets a first array of
/// unknown length match a second of any length.
pub open spec fn type_match(
    typedefs: Seq<(String, Type)>,
    contracts: Seq<ParameterContracts>,
    a: Type,
    b: Type,
    qa: u8,
    qb: u8,
    parameter: bool,
    completion: bool,
    fuel: nat,
) -> Option<(bool, nat)>
    decreases fuel, 2int, 0int,
{
    if fuel == 0 {
        None
    } else {
        match resolve_steps(typedefs, a, qa, 128) {
            None => None,
            Some(ra) => match resolve_steps(typedefs, b, qb, 128) {
                None => None,
                Some(rb) => match resolved_match(typedefs, contracts, ra.0, rb.0, ra.1, rb.1, parameter, completion, fuel) {
                    Some(m) => Some((m.0, resolve_cost(typedefs, a, 128) + resolve_cost(typedefs, b, 128) + m.1)),
                    None => None,
                },
            },
        }
    }
}

/// [`type_match`] of two types whose typedefs are already resolved.
pub open spec fn resolved_match(
    typedefs: Seq<(String, Type)>,
    contracts: Seq<ParameterContracts>,
    a: Type,
    b: Type,
    qa: u8,
    qb: u8,
    parameter: bool,
    completion: bool,
    fuel: nat,
) -> Option<(bool, nat)>
    decreases fuel, 1int, 0int,
{
    if fuel == 0 {
        None
    } else if !parameter && !both_arrays(a.kind, b.kind) && qa != qb {
        Some((false, 0))
    } else {
        match (a.kind, b.kind) {
            (TypeKind::Void, TypeKind::Void) => Some((true, 0)),
            (TypeKind::Bool, TypeKind::Bool) => Some((true, 0)),
            (TypeKind::Integer(x), TypeKind::Integer(y)) => Some((x == y, 0)),
            (TypeKind::Float(x), TypeKind::Float(y)) => Some((x == y, 0)),
            (TypeKind::Complex(x), TypeKind::Complex(y)) => Some((x == y, 0)),
            (TypeKind::Record(x), TypeKind::Record(y)) => Some((x == y, 0)),
            (TypeKind::Enum(x), TypeKind::Enum(y)) => Some((x == y, 0)),
            (TypeKind::Sve(x), TypeKind::Sve(y)) => Some((x == y, 0)),
            (TypeKind::Pointer(x), TypeKind::Pointer(y)) => type_match(
                typedefs,
                contracts,
                *x,
                *y,
                0,
                0,
                false,
                completion,
                (fuel - 1) as nat,
            ),
            (TypeKind::Atomic(x), TypeKind::Atomic(y)) => type_match(
                typedefs,
                contracts,
                *x,
                *y,
                0,
                0,
                false,
                completion,
                (fuel - 1) as nat,
            ),
            (TypeKind::Array { element: x, length: lx }, TypeKind::Array { element: y, length: ly }) => if lx == ly
                || (completion && lx is None) {
                type_match(typedefs, contracts, *x, *y, qa, qb, false, completion, (fuel - 1) as nat)
            } else {
                Some((false, 0))
            },
            (
                TypeKind::VariableArray { element: x, identity: ix },
                TypeKind::VariableArray { element: y, identity: iy },
            ) => if ix == iy {
                type_match(typedefs, contracts, *x, *y, qa, qb, false, completion, (fuel - 1) as nat)
            } else {
                Some((false, 0))
            },
            (
                TypeKind::Vector { element: x, lanes: lx, kind: kx },
                TypeKind::Vector { element: y, lanes: ly, kind: ky },
            ) => if lx == ly && kx == ky {
                type_match(typedefs, contracts, *x, *y, 0, 0, false, completion, (fuel - 1) as nat)
            } else {
                Some((false, 0))
            },
            (TypeKind::Function(x), TypeKind::Function(y)) => function_match(typedefs, contracts, *x, *y, completion, fuel),
            _ => Some((false, 0)),
        }
    }
}

/// The comparison of two function types: prototype, variadic, calling
/// convention, `noreturn`, parameter count and `noescape` positions, then
/// the return types, then the parameters in order.
pub open spec fn function_match(
    typedefs: Seq<(String, Type)>,
    contracts: Seq<ParameterContracts>,
    x: FunctionType,
    y: FunctionType,
    completion: bool,
    fuel: nat,
) -> Option<(bool, nat)>
    decreases fuel, 0int, x.parameters@.len() + 1,
{
    if fuel == 0 {
        None
    } else if x.prototype != y.prototype || x.variadic != y.variadic || x.calling_convention != y.calling_convention
        || x.noreturn != y.noreturn || x.parameters@.len() != y.parameters@.len() {
        Some((false, 0))
    } else {
        match contracts_match(contracts, x.parameter_contracts, y.parameter_contracts) {
            None => None,
            Some(k) => if !k.0 {
                Some((false, k.1))
            } else {
                match type_match(
                    typedefs,
                    contracts,
                    x.return_type,
                    y.return_type,
                    0,
                    0,
                    false,
                    completion,
                    (fuel - 1) as nat,
                ) {
                    None => None,
                    Some(r) => if !r.0 {
                        Some((false, k.1 + r.1))
                    } else {
                        match parameters_match(typedefs, contracts, x.parameters@, y.parameters@, 0, completion, fuel) {
                            None => None,
                            Some(p) => Some((p.0, k.1 + r.1 + p.1)),
                        }
                    },
                }
            },
        }
    }
}

/// The comparison of the parameters of two functions from position `i`,
/// in order, stopping at the first that differs. Parameter top-level
/// qualifiers are absent from a C function type.
pub open spec fn parameters_match(
    typedefs: Seq<(String, Type)>,
    contracts: Seq<ParameterContracts>,
    pa: Seq<Parameter>,
    pb: Seq<Parameter>,
    i: int,
    completion: bool,
    fuel: nat,
) -> Option<(bool, nat)>
    decreases fuel, 0int, pa.len() - i,
{
    if fuel == 0 {
        None
    } else if i < 0 || i >= pa.len() || i >= pb.len() {
        Some((true, 0))
    } else {
        match type_match(typedefs, contracts, pa[i].ty, pb[i].ty, 0, 0, true, completion, (fuel - 1) as nat) {
            None => None,
            Some(m) => if !m.0 {
                Some((false, m.1))
            } else {
                match parameters_match(typedefs, contracts, pa, pb, i + 1, completion, fuel) {
                    None => None,
                    Some(p) => Some((p.0, m.1 + p.1)),
                }
            },
        }
    }
}

/// The answer of a comparison, without its charge.
pub open spec fn match_value(m: Option<(bool, nat)>) -> Option<bool> {
    match m {
        Some(p) => Some(p.0),
        None => None,
    }
}

/// Whether the comparison of two types answers `x` at some nesting depth.
pub open spec fn type_settles(
    typedefs: Seq<(String, Type)>,
    contracts: Seq<ParameterContracts>,
    a: Type,
    b: Type,
    qa: u8,
    qb: u8,
    parameter: bool,
    completion: bool,
    x: bool,
) -> bool {
    exists|f: nat| match_value(#[trigger] type_match(typedefs, contracts, a, b, qa, qb, parameter, completion, f)) == Some(x)
}

/// Whether the comparison of two resolved types answers `x` at some depth.
pub open spec fn resolved_settles(
    typedefs: Seq<(String, Type)>,
    contracts: Seq<ParameterContracts>,
    a: Type,
    b: Type,
    qa: u8,
    qb: u8,
    parameter: bool,
    completion: bool,
    x: bool,
) -> bool {
    exists|f: nat| match_value(#[trigger] resolved_match(typedefs, contracts, a, b, qa, qb, parameter, completion, f)) == Some(x)
}

/// Whether the comparison of two function types answers `x` at some depth.
pub open spec fn function_settles(
    typedefs: Seq<(String, Type)>,
    contracts: Seq<ParameterContracts>,
    a: FunctionType,
    b: FunctionType,
    completion: bool,
    x: bool,
) -> bool {
    exists|f: nat| match_value(#[trigger] function_match(typedefs, contracts, a, b, completion, f)) == Some(x)
}

/// Whether two types are the same object type: they compare equal, with
/// their typedefs removed, at some nesting depth.
pub open spec fn same_object_type(
    typedefs: Seq<(String, Type)>,
    contracts: Seq<ParameterContracts>,
    a: Type,
    b: Type,
) -> bool {
    type_settles(typedefs, contracts, a, b, 0, 0, false, false, true)
}

/// Whether an earlier occurrence of type `a` matches a later declaration
/// of type `b`, an array of unknown length in `a` matching one of any
/// length in `b`.
pub open spec fn matches_declaration_type(
    typedefs: Seq<(String, Type)>,
    contracts: Seq<ParameterContracts>,
    a: Type,
    b: Type,
) -> bool {
    type_settles(typedefs, contracts, a, b, 0, 0, false, true, true)
}

/// A remembered pair: the two resolved types, by object, their gathered
/// qualifiers, the `parameter` and `completion` flags, and, for a type
/// reached through a typedef name, the index of the typedef whose
/// definition it is.
pub type MatchKey<'a> = (&'a Type, &'a Type, u8, u8, bool, bool, Option<usize>, Option<usize>);

/// Whether every remembered pair compares equal at some nesting depth, and
/// each recorded typedef index names the definition remembered.
pub open spec fn memo_sound<'a>(
    typedefs: Seq<(String, Type)>,
    contracts: Seq<ParameterContracts>,
    matched: Seq<MatchKey<'a>>,
) -> bool {
    forall|k: int|
        0 <= k < matched.len() ==> #[trigger] entry_settles(typedefs, contracts, matched[k]) && entry_indexed(
            typedefs,
            matched[k],
        )
}

/// Whether an index names typedef definition `ty`.
pub open spec fn defines(typedefs: Seq<(String, Type)>, index: Option<usize>, ty: Type) -> bool {
    index matches Some(i) ==> i < typedefs.len() && typedefs[i as int].1 == ty
}

/// Whether a remembered pair's typedef indices name its types.
pub open spec fn entry_indexed<'a>(typedefs: Seq<(String, Type)>, e: MatchKey<'a>) -> bool {
    defines(typedefs, e.6, *e.0) && defines(typedefs, e.7, *e.1)
}

/// The index of the typedef whose definition resolving `ty` reaches, within
/// `steps` references; `None` for a type that names no typedef.
pub open spec fn resolve_index(typedefs: Seq<(String, Type)>, ty: Type, steps: nat) -> Option<int>
    decreases steps,
{
    if steps == 0 {
        None
    } else {
        match ty.kind {
            TypeKind::Typedef(name) => match typedef_from(typedefs, name@, 0) {
                Some(i) => if typedefs[i].1.kind is Typedef {
                    resolve_index(typedefs, typedefs[i].1, (steps - 1) as nat)
                } else {
                    Some(i)
                },
                None => None,
            },
            _ => None,
        }
    }
}

/// Whether the memo holds a pair by typedef indices, with its qualifiers
/// and flags.
pub open spec fn indexed_entry<'a>(
    matched: Seq<MatchKey<'a>>,
    ia: usize,
    ib: usize,
    qa: u8,
    qb: u8,
    parameter: bool,
    completion: bool,
) -> bool {
    exists|k: int|
        0 <= k < matched.len() && (#[trigger] matched[k]).6 == Some(ia) && matched[k].7 == Some(ib) && matched[k].2
            == qa && matched[k].3 == qb && matched[k].4 == parameter && matched[k].5 == completion
}

/// Whether the memo holds the pair two typedef-named types resolve to, with
/// the qualifiers their resolution gathers.
pub open spec fn pair_remembered<'a>(
    matched: Seq<MatchKey<'a>>,
    typedefs: Seq<(String, Type)>,
    first: Type,
    second: Type,
    first_qualifiers: u8,
    second_qualifiers: u8,
    parameter: bool,
    completion: bool,
) -> bool {
    match (
        resolve_index(typedefs, first, 128),
        resolve_index(typedefs, second, 128),
        resolve_steps(typedefs, first, first_qualifiers, 128),
        resolve_steps(typedefs, second, second_qualifiers, 128),
    ) {
        (Some(i), Some(j), Some(x), Some(y)) => indexed_entry(matched, i as usize, j as usize, x.1, y.1, parameter, completion),
        _ => false,
    }
}

/// Whether both types name typedefs.
pub open spec fn typedef_pair(typedefs: Seq<(String, Type)>, first: Type, second: Type) -> bool {
    resolve_index(typedefs, first, 128) is Some && resolve_index(typedefs, second, 128) is Some
}

/// Whether a remembered pair compares equal at some nesting depth.
pub open spec fn entry_settles<'a>(typedefs: Seq<(String, Type)>, contracts: Seq<ParameterContracts>, e: MatchKey<'a>) -> bool {
    resolved_settles(typedefs, contracts, *e.0, *e.1, e.2, e.3, e.4, e.5, true)
}

proof fn lemma_resolve_steps(typedefs: Seq<(String, Type)>, ty: Type, q: u8, steps: nat)
    ensures
        resolve_steps(typedefs, ty, q, steps) matches Some(r) ==> !(r.0.kind is Typedef),
        steps > 0 ==> resolve_cost(typedefs, ty, steps) >= 1,
    decreases steps,
{
    if steps > 0 {
        let gathered = q | qualifier_mask(ty.qualifiers);
        match ty.kind {
            TypeKind::Typedef(name) => {
                lemma_typedef_from(typedefs, name@, 0);
                match typedef_from(typedefs, name@, 0) {
                    Some(i) => lemma_resolve_steps(typedefs, typedefs[i].1, gathered, (steps - 1) as nat),
                    None => {},
                }
            },
            _ => {},
        }
    }
}

proof fn lemma_type_match_monotone(
    td: Seq<(String, Type)>,
    cs: Seq<ParameterContracts>,
    a: Type,
    b: Type,
    qa: u8,
    qb: u8,
    p: bool,
    c: bool,
    f: nat,
    g: nat,
)
    requires
        f <= g,
        type_match(td, cs, a, b, qa, qb, p, c, f) is Some,
    ensures
        type_match(td, cs, a, b, qa, qb, p, c, g) == type_match(td, cs, a, b, qa, qb, p, c, f),
    decreases f, 2int, 0int,
{
    let ra = resolve_steps(td, a, qa, 128)->0;
    let rb = resolve_steps(td, b, qb, 128)->0;
    lemma_resolved_match_monotone(td, cs, ra.0, rb.0, ra.1, rb.1, p, c, f, g);
}

proof fn lemma_resolved_match_monotone(
    td: Seq<(String, Type)>,
    cs: Seq<ParameterContracts>,
    a: Type,
    b: Type,
    qa: u8,
    qb: u8,
    p: bool,
    c: bool,
    f: nat,
    g: nat,
)
    requires
        f <= g,
        resolved_match(td, cs, a, b, qa, qb, p, c, f) is Some,
    ensures
        resolved_match(td, cs, a, b, qa, qb, p, c, g) == resolved_match(td, cs, a, b, qa, qb, p, c, f),
    decreases f, 1int, 0int,
{
    if !p && !both_arrays(a.kind, b.kind) && qa != qb {
    } else {
        match (a.kind, b.kind) {
            (TypeKind::Pointer(x), TypeKind::Pointer(y)) => {
                lemma_type_match_monotone(td, cs, *x, *y, 0, 0, false, c, (f - 1) as nat, (g - 1) as nat);
            },
            (TypeKind::Atomic(x), TypeKind::Atomic(y)) => {
                lemma_type_match_monotone(td, cs, *x, *y, 0, 0, false, c, (f - 1) as nat, (g - 1) as nat);
            },
            (TypeKind::Array { element: x, length: lx }, TypeKind::Array { element: y, length: ly }) => {
                if lx == ly || (c && lx is None) {
                    lemma_type_match_monotone(td, cs, *x, *y, qa, qb, false, c, (f - 1) as nat, (g - 1) as nat);
                }
            },
            (
                TypeKind::VariableArray { element: x, identity: ix },
                TypeKind::VariableArray { element: y, identity: iy },
            ) => {
                if ix == iy {
                    lemma_type_match_monotone(td, cs, *x, *y, qa, qb, false, c, (f - 1) as nat, (g - 1) as nat);
                }
            },
            (
                TypeKind::Vector { element: x, lanes: lx, kind: kx },
                TypeKind::Vector { element: y, lanes: ly, kind: ky },
            ) => {
                if lx == ly && kx == ky {
                    lemma_type_match_monotone(td, cs, *x, *y, 0, 0, false, c, (f - 1) as nat, (g - 1) as nat);
                }
            },
            (TypeKind::Function(x), TypeKind::Function(y)) => {
                lemma_function_match_monotone(td, cs, *x, *y, c, f, g);
            },
            _ => {},
        }
    }
}

proof fn lemma_function_match_monotone(
    td: Seq<(String, Type)>,
    cs: Seq<ParameterContracts>,
    x: FunctionType,
    y: FunctionType,
    c: bool,
    f: nat,
    g: nat,
)
    requires
        f <= g,
        function_match(td, cs, x, y, c, f) is Some,
    ensures
        function_match(td, cs, x, y, c, g) == function_match(td, cs, x, y, c, f),
    decreases f, 0int, x.parameters@.len() + 1,
{
    if x.prototype != y.prototype || x.variadic != y.variadic || x.calling_convention != y.calling_convention
        || x.noreturn != y.noreturn || x.parameters@.len() != y.parameters@.len() {
    } else {
        let k = contracts_match(cs, x.parameter_contracts, y.parameter_contracts)->0;
        if k.0 {
            lemma_type_match_monotone(td, cs, x.return_type, y.return_type, 0, 0, false, c, (f - 1) as nat, (g - 1) as nat);
            let r = type_match(td, cs, x.return_type, y.return_type, 0, 0, false, c, (f - 1) as nat)->0;
            if r.0 {
                lemma_parameters_match_monotone(td, cs, x.parameters@, y.parameters@, 0, c, f, g);
            }
        }
    }
}

proof fn lemma_parameters_match_monotone(
    td: Seq<(String, Type)>,
    cs: Seq<ParameterContracts>,
    pa: Seq<Parameter>,
    pb: Seq<Parameter>,
    i: int,
    c: bool,
    f: nat,
    g: nat,
)
    requires
        f <= g,
        parameters_match(td, cs, pa, pb, i, c, f) is Some,
    ensures
        parameters_match(td, cs, pa, pb, i, c, g) == parameters_match(td, cs, pa, pb, i, c, f),
    decreases f, 0int, pa.len() - i,
{
    if i < 0 || i >= pa.len() || i >= pb.len() {
    } else {
        lemma_type_match_monotone(td, cs, pa[i].ty, pb[i].ty, 0, 0, true, c, (f - 1) as nat, (g - 1) as nat);
        let m = type_match(td, cs, pa[i].ty, pb[i].ty, 0, 0, true, c, (f - 1) as nat)->0;
        if m.0 {
            lemma_parameters_match_monotone(td, cs, pa, pb, i + 1, c, f, g);
        }
    }
}

/// A comparison that settles on `x` answers `x` at every depth where it
/// answers at all.
proof fn lemma_settled_agrees(
    td: Seq<(String, Type)>,
    cs: Seq<ParameterContracts>,
    a: Type,
    b: Type,
    qa: u8,
    qb: u8,
    p: bool,
    c: bool,
    x: bool,
    f0: nat,
)
    requires
        type_settles(td, cs, a, b, qa, qb, p, c, x),
        type_match(td, cs, a, b, qa, qb, p, c, f0) is Some,
    ensures
        (type_match(td, cs, a, b, qa, qb, p, c, f0)->0).0 == x,
{
    let f = choose|f: nat| match_value(#[trigger] type_match(td, cs, a, b, qa, qb, p, c, f)) == Some(x);
    if f <= f0 {
        lemma_type_match_monotone(td, cs, a, b, qa, qb, p, c, f, f0);
    } else {
        lemma_type_match_monotone(td, cs, a, b, qa, qb, p, c, f0, f);
    }
}

proof fn lemma_parameters_prefix(
    td: Seq<(String, Type)>,
    cs: Seq<ParameterContracts>,
    pa: Seq<Parameter>,
    pb: Seq<Parameter>,
    c: bool,
    f: nat,
    i: int,
)
    requires
        f > 0,
        0 <= i <= pa.len(),
        pa.len() == pb.len(),
        forall|k: int|
            0 <= k < i ==> match_value(#[trigger] type_match(td, cs, pa[k].ty, pb[k].ty, 0, 0, true, c, (f - 1) as nat))
                == Some(true),
    ensures
        match_value(parameters_match(td, cs, pa, pb, 0, c, f)) == match_value(parameters_match(td, cs, pa, pb, i, c, f)),
    decreases i,
{
    if i > 0 {
        lemma_parameters_prefix(td, cs, pa, pb, c, f, i - 1);
        assert(match_value(type_match(td, cs, pa[i - 1].ty, pb[i - 1].ty, 0, 0, true, c, (f - 1) as nat)) == Some(true));
    }
}

proof fn lemma_type_match_reflexive(
    td: Seq<(String, Type)>,
    cs: Seq<ParameterContracts>,
    a: Type,
    q: u8,
    p: bool,
    c: bool,
    f: nat,
)
    requires
        type_match(td, cs, a, a, q, q, p, c, f) is Some,
    ensures
        match_value(type_match(td, cs, a, a, q, q, p, c, f)) == Some(true),
    decreases f, 2int, 0int,
{
    lemma_resolve_steps(td, a, q, 128);
    let ra = resolve_steps(td, a, q, 128)->0;
    lemma_resolved_match_reflexive(td, cs, ra.0, ra.1, p, c, f);
}

proof fn lemma_resolved_match_reflexive(
    td: Seq<(String, Type)>,
    cs: Seq<ParameterContracts>,
    a: Type,
    q: u8,
    p: bool,
    c: bool,
    f: nat,
)
    requires
        resolved_match(td, cs, a, a, q, q, p, c, f) is Some,
    ensures
        match_value(resolved_match(td, cs, a, a, q, q, p, c, f)) == Some(true) || a.kind is Typedef,
    decreases f, 1int, 0int,
{
    match a.kind {
        TypeKind::Pointer(x) => lemma_type_match_reflexive(td, cs, *x, 0, false, c, (f - 1) as nat),
        TypeKind::Atomic(x) => lemma_type_match_reflexive(td, cs, *x, 0, false, c, (f - 1) as nat),
        TypeKind::Array { element: x, length: _ } => lemma_type_match_reflexive(td, cs, *x, q, false, c, (f - 1) as nat),
        TypeKind::VariableArray { element: x, identity: _ } => lemma_type_match_reflexive(
            td,
            cs,
            *x,
            q,
            false,
            c,
            (f - 1) as nat,
        ),
        TypeKind::Vector { element: x, lanes: _, kind: _ } => lemma_type_match_reflexive(td, cs, *x, 0, false, c, (f - 1) as nat),
        TypeKind::Function(x) => lemma_function_match_reflexive(td, cs, *x, c, f),
        _ => {},
    }
}

proof fn lemma_function_match_reflexive(
    td: Seq<(String, Type)>,
    cs: Seq<ParameterContracts>,
    x: FunctionType,
    c: bool,
    f: nat,
)
    requires
        function_match(td, cs, x, x, c, f) is Some,
    ensures
        match_value(function_match(td, cs, x, x, c, f)) == Some(true),
    decreases f, 0int, x.parameters@.len() + 1,
{
    lemma_type_match_reflexive(td, cs, x.return_type, 0, false, c, (f - 1) as nat);
    lemma_parameters_match_reflexive(td, cs, x.parameters@, 0, c, f);
}

proof fn lemma_parameters_match_reflexive(
    td: Seq<(String, Type)>,
    cs: Seq<ParameterContracts>,
    pa: Seq<Parameter>,
    i: int,
    c: bool,
    f: nat,
)
    requires
        parameters_match(td, cs, pa, pa, i, c, f) is Some,
    ensures
        match_value(parameters_match(td, cs, pa, pa, i, c, f)) == Some(true),
    decreases f, 0int, pa.len() - i,
{
    if 0 <= i < pa.len() {
        lemma_type_match_reflexive(td, cs, pa[i].ty, 0, true, c, (f - 1) as nat);
        lemma_parameters_match_reflexive(td, cs, pa, i + 1, c, f);
    }
}

proof fn lemma_type_match_symmetric(
    td: Seq<(String, Type)>,
    cs: Seq<ParameterContracts>,
    a: Type,
    b: Type,
    qa: u8,
    qb: u8,
    p: bool,
    f: nat,
)
    ensures
        type_match(td, cs, a, b, qa, qb, p, false, f) == type_match(td, cs, b, a, qb, qa, p, false, f),
    decreases f, 2int, 0int,
{
    if f > 0 {
        match resolve_steps(td, a, qa, 128) {
            Some(ra) => match resolve_steps(td, b, qb, 128) {
                Some(rb) => lemma_resolved_match_symmetric(td, cs, ra.0, rb.0, ra.1, rb.1, p, f),
                None => {},
            },
            None => {},
        }
    }
}

proof fn lemma_resolved_match_symmetric(
    td: Seq<(String, Type)>,
    cs: Seq<ParameterContracts>,
    a: Type,
    b: Type,
    qa: u8,
    qb: u8,
    p: bool,
    f: nat,
)
    ensures
        resolved_match(td, cs, a, b, qa, qb, p, false, f) == resolved_match(td, cs, b, a, qb, qa, p, false, f),
    decreases f, 1int, 0int,
{
    if f > 0 && !(!p && !both_arrays(a.kind, b.kind) && qa != qb) {
        match (a.kind, b.kind) {
            (TypeKind::Pointer(x), TypeKind::Pointer(y)) => lemma_type_match_symmetric(td, cs, *x, *y, 0, 0, false, (f - 1) as nat),
            (TypeKind::Atomic(x), TypeKind::Atomic(y)) => lemma_type_match_symmetric(td, cs, *x, *y, 0, 0, false, (f - 1) as nat),
            (TypeKind::Array { element: x, length: _ }, TypeKind::Array { element: y, length: _ }) => {
                lemma_type_match_symmetric(td, cs, *x, *y, qa, qb, false, (f - 1) as nat)
            },
            (TypeKind::VariableArray { element: x, identity: _ }, TypeKind::VariableArray { element: y, identity: _ }) => {
                lemma_type_match_symmetric(td, cs, *x, *y, qa, qb, false, (f - 1) as nat)
            },
            (TypeKind::Vector { element: x, lanes: _, kind: _ }, TypeKind::Vector { element: y, lanes: _, kind: _ }) => {
                lemma_type_match_symmetric(td, cs, *x, *y, 0, 0, false, (f - 1) as nat)
            },
            (TypeKind::Function(x), TypeKind::Function(y)) => lemma_function_match_symmetric(td, cs, *x, *y, f),
            _ => {},
        }
    }
}

proof fn lemma_function_match_symmetric(
    td: Seq<(String, Type)>,
    cs: Seq<ParameterContracts>,
    x: FunctionType,
    y: FunctionType,
    f: nat,
)
    ensures
        function_match(td, cs, x, y, false, f) == function_match(td, cs, y, x, false, f),
    decreases f, 0int, x.parameters@.len() + 1,
{
    if f > 0 && x.parameters@.len() == y.parameters@.len() {
        lemma_type_match_symmetric(td, cs, x.return_type, y.return_type, 0, 0, false, (f - 1) as nat);
        lemma_parameters_match_symmetric(td, cs, x.parameters@, y.parameters@, 0, f);
    }
}

proof fn lemma_parameters_match_symmetric(
    td: Seq<(String, Type)>,
    cs: Seq<ParameterContracts>,
    pa: Seq<Parameter>,
    pb: Seq<Parameter>,
    i: int,
    f: nat,
)
    requires
        pa.len() == pb.len(),
    ensures
        parameters_match(td, cs, pa, pb, i, false, f) == parameters_match(td, cs, pb, pa, i, false, f),
    decreases f, 0int, pa.len() - i,
{
    if f > 0 && 0 <= i < pa.len() {
        lemma_type_match_symmetric(td, cs, pa[i].ty, pb[i].ty, 0, 0, true, (f - 1) as nat);
        lemma_parameters_match_symmetric(td, cs, pa, pb, i + 1, f);
    }
}

proof fn lemma_type_match_completion(
    td: Seq<(String, Type)>,
    cs: Seq<ParameterContracts>,
    a: Type,
    b: Type,
    qa: u8,
    qb: u8,
    p: bool,
    f: nat,
)
    requires
        match_value(type_match(td, cs, a, b, qa, qb, p, false, f)) == Some(true),
    ensures
        type_match(td, cs, a, b, qa, qb, p, true, f) == type_match(td, cs, a, b, qa, qb, p, false, f),
    decreases f, 2int, 0int,
{
    let ra = resolve_steps(td, a, qa, 128)->0;
    let rb = resolve_steps(td, b, qb, 128)->0;
    lemma_resolved_match_completion(td, cs, ra.0, rb.0, ra.1, rb.1, p, f);
}

proof fn lemma_resolved_match_completion(
    td: Seq<(String, Type)>,
    cs: Seq<ParameterContracts>,
    a: Type,
    b: Type,
    qa: u8,
    qb: u8,
    p: bool,
    f: nat,
)
    requires
        match_value(resolved_match(td, cs, a, b, qa, qb, p, false, f)) == Some(true),
    ensures
        resolved_match(td, cs, a, b, qa, qb, p, true, f) == resolved_match(td, cs, a, b, qa, qb, p, false, f),
    decreases f, 1int, 0int,
{
    match (a.kind, b.kind) {
        (TypeKind::Pointer(x), TypeKind::Pointer(y)) => lemma_type_match_completion(td, cs, *x, *y, 0, 0, false, (f - 1) as nat),
        (TypeKind::Atomic(x), TypeKind::Atomic(y)) => lemma_type_match_completion(td, cs, *x, *y, 0, 0, false, (f - 1) as nat),
        (TypeKind::Array { element: x, length: _ }, TypeKind::Array { element: y, length: _ }) => {
            lemma_type_match_completion(td, cs, *x, *y, qa, qb, false, (f - 1) as nat)
        },
        (TypeKind::VariableArray { element: x, identity: _ }, TypeKind::VariableArray { element: y, identity: _ }) => {
            lemma_type_match_completion(td, cs, *x, *y, qa, qb, false, (f - 1) as nat)
        },
        (TypeKind::Vector { element: x, lanes: _, kind: _ }, TypeKind::Vector { element: y, lanes: _, kind: _ }) => {
            lemma_type_match_completion(td, cs, *x, *y, 0, 0, false, (f - 1) as nat)
        },
        (TypeKind::Function(x), TypeKind::Function(y)) => lemma_function_match_completion(td, cs, *x, *y, f),
        _ => {},
    }
}

proof fn lemma_function_match_completion(
    td: Seq<(String, Type)>,
    cs: Seq<ParameterContracts>,
    x: FunctionType,
    y: FunctionType,
    f: nat,
)
    requires
        match_value(function_match(td, cs, x, y, false, f)) == Some(true),
    ensures
        function_match(td, cs, x, y, true, f) == function_match(td, cs, x, y, false, f),
    decreases f, 0int, x.parameters@.len() + 1,
{
    lemma_type_match_completion(td, cs, x.return_type, y.return_type, 0, 0, false, (f - 1) as nat);
    lemma_parameters_match_completion(td, cs, x.parameters@, y.parameters@, 0, f);
}

proof fn lemma_parameters_match_completion(
    td: Seq<(String, Type)>,
    cs: Seq<ParameterContracts>,
    pa: Seq<Parameter>,
    pb: Seq<Parameter>,
    i: int,
    f: nat,
)
    requires
        match_value(parameters_match(td, cs, pa, pb, i, false, f)) == Some(true),
    ensures
        parameters_match(td, cs, pa, pb, i, true, f) == parameters_match(td, cs, pa, pb, i, false, f),
    decreases f, 0int, pa.len() - i,
{
    if 0 <= i < pa.len() && i < pb.len() {
        lemma_type_match_completion(td, cs, pa[i].ty, pb[i].ty, 0, 0, true, (f - 1) as nat);
        lemma_parameters_match_completion(td, cs, pa, pb, i + 1, f);
    }
}

/// A type compared with itself is the same object type wherever the
/// comparison answers.
pub proof fn lemma_same_type_reflexive(td: Seq<(String, Type)>, cs: Seq<ParameterContracts>, a: Type, f: nat)
    requires
        type_match(td, cs, a, a, 0, 0, false, false, f) is Some,
    ensures
        same_object_type(td, cs, a, a),
{
    lemma_type_match_reflexive(td, cs, a, 0, false, false, f);
}

/// Being the same object type is symmetric, and so is what the comparison
/// charges.
pub proof fn lemma_same_type_symmetric(td: Seq<(String, Type)>, cs: Seq<ParameterContracts>, a: Type, b: Type)
    ensures
        forall|f: nat| #[trigger] type_match(td, cs, a, b, 0, 0, false, false, f) == type_match(td, cs, b, a, 0, 0, false, false, f),
        same_object_type(td, cs, a, b) ==> same_object_type(td, cs, b, a),
{
    assert forall|f: nat| #[trigger] type_match(td, cs, a, b, 0, 0, false, false, f) == type_match(td, cs, b, a, 0, 0, false, false, f) by {
        lemma_type_match_symmetric(td, cs, a, b, 0, 0, false, f);
    }
    if same_object_type(td, cs, a, b) {
        let f = choose|f: nat| match_value(#[trigger] type_match(td, cs, a, b, 0, 0, false, false, f)) == Some(true);
        assert(match_value(type_match(td, cs, b, a, 0, 0, false, false, f)) == Some(true));
    }
}

/// An occurrence of the same object type as a declaration matches that
/// declaration: completion only adds matches.
pub proof fn lemma_same_type_matches_declaration(td: Seq<(String, Type)>, cs: Seq<ParameterContracts>, a: Type, b: Type)
    requires
        same_object_type(td, cs, a, b),
    ensures
        matches_declaration_type(td, cs, a, b),
{
    let f = choose|f: nat| match_value(#[trigger] type_match(td, cs, a, b, 0, 0, false, false, f)) == Some(true);
    lemma_type_match_completion(td, cs, a, b, 0, 0, false, f);
    assert(match_value(type_match(td, cs, a, b, 0, 0, false, true, f)) == Some(true));
}

/// A pair the memo holds by typedef indices settles true, so its
/// qualifiers pass the comparison's first check.
proof fn lemma_remembered_qualifiers<'a>(
    td: Seq<(String, Type)>,
    cs: Seq<ParameterContracts>,
    matched: Seq<MatchKey<'a>>,
    a: Type,
    b: Type,
    ia: usize,
    ib: usize,
    qa: u8,
    qb: u8,
    parameter: bool,
    completion: bool,
)
    requires
        memo_sound(td, cs, matched),
        indexed_entry(matched, ia, ib, qa, qb, parameter, completion),
        defines(td, Some(ia), a),
        defines(td, Some(ib), b),
    ensures
        resolved_settles(td, cs, a, b, qa, qb, parameter, completion, true),
        parameter || both_arrays(a.kind, b.kind) || qa == qb,
{
    let k = choose|k: int|
        0 <= k < matched.len() && (#[trigger] matched[k]).6 == Some(ia) && matched[k].7 == Some(ib) && matched[k].2
            == qa && matched[k].3 == qb && matched[k].4 == parameter && matched[k].5 == completion;
    assert(0 <= k < matched.len());
    assert(entry_settles(td, cs, matched[k]));
    assert(entry_indexed(td, matched[k]));
    assert(*matched[k].0 == a && *matched[k].1 == b);
    let f = choose|f: nat| match_value(#[trigger] resolved_match(td, cs, a, b, qa, qb, parameter, completion, f)) == Some(true);
    assert(match_value(resolved_match(td, cs, a, b, qa, qb, parameter, completion, f)) == Some(true));
}

proof fn lemma_memo_push<'a>(
    td: Seq<(String, Type)>,
    cs: Seq<ParameterContracts>,
    before: Seq<MatchKey<'a>>,
    key: MatchKey<'a>,
)
    requires
        memo_sound(td, cs, before),
        resolved_settles(td, cs, *key.0, *key.1, key.2, key.3, key.4, key.5, true),
        entry_indexed(td, key),
    ensures
        memo_sound(td, cs, before.push(key)),
{
    let after = before.push(key);
    assert forall|k: int| 0 <= k < after.len() implies #[trigger] entry_settles(td, cs, after[k]) && entry_indexed(
        td,
        after[k],
    ) by {
        if k < before.len() {
            assert(after[k] == before[k]);
            assert(entry_settles(td, cs, before[k]) && entry_indexed(td, before[k]));
        } else {
            assert(after[k] == key);
        }
    }
}

fn positions_equal(a: &[u32], b: &[u32]) -> (r: bool)
    ensures
        r == (a@ == b@),
{
    if a.len() != b.len() {
        return false;
    }
    let mut i: usize = 0;
    while i < a.len()
        invariant
            a@.len() == b@.len(),
            i <= a@.len(),
            forall|j: int| 0 <= j < i ==> a@[j] == b@[j],
        decreases a.len() - i,
    {
        if a[i] != b[i] {
            return false;
        }
        i = i + 1;
    }
    assert(a@ =~= b@);
    true
}

/// A bounded comparison pass over one unit's typedefs and parameter
/// contracts. One comparator shared across a binding pass shares its
/// reference budget and the pairs it has found equal.
pub struct ObjectTypeComparison<'a> {
    typedefs: &'a [(String, Type)],
    contracts: &'a [ParameterContracts],
    remaining: usize,
    matched: Vec<MatchKey<'a>>,
}

impl<'a> ObjectTypeComparison<'a> {
    /// The typedef definitions, by name.
    pub closed spec fn typedefs_spec(&self) -> Seq<(String, Type)> {
        self.typedefs@
    }

    /// The parameter-contract arena.
    pub closed spec fn contracts_spec(&self) -> Seq<ParameterContracts> {
        self.contracts@
    }

    /// The references this pass may still follow.
    pub closed spec fn remaining_spec(&self) -> nat {
        self.remaining as nat
    }

    /// Whether the pass remembers two types that name typedefs as equal:
    /// the definitions they resolve to, with the qualifiers resolution
    /// gathers, compared with array `completion` or without. A remembered
    /// pair is answered again by resolving the two names alone.
    pub closed spec fn remembers(&self, first: Type, second: Type, completion: bool) -> bool {
        pair_remembered(self.matched@, self.typedefs@, first, second, 0, 0, false, completion)
    }

    /// Every pair the pass remembers as equal is equal.
    pub closed spec fn wf(&self) -> bool {
        memo_sound(self.typedefs@, self.contracts@, self.matched@)
    }

    /// Starts one bounded comparison pass, with the full budget.
    pub fn new(typedefs: &'a [(String, Type)], contracts: &'a [ParameterContracts]) -> (r: Self)
        ensures
            r.wf(),
            r.typedefs_spec() == typedefs@,
            r.contracts_spec() == contracts@,
            r.remaining_spec() == COMPARISON_LIMIT,
    {
        Self::with_remaining(typedefs, contracts, COMPARISON_LIMIT)
    }

    /// Starts a pass that may follow `remaining` references.
    pub fn with_remaining(
        typedefs: &'a [(String, Type)],
        contracts: &'a [ParameterContracts],
        remaining: usize,
    ) -> (r: Self)
        ensures
            r.wf(),
            r.typedefs_spec() == typedefs@,
            r.contracts_spec() == contracts@,
            r.remaining_spec() == remaining,
    {
        ObjectTypeComparison { typedefs, contracts, remaining, matched: Vec::new() }
    }

    /// The references this pass may still follow.
    pub fn remaining(&self) -> (r: usize)
        ensures
            r == self.remaining_spec(),
    {
        self.remaining
    }

    fn charge(&mut self, amount: usize) -> (r: Result<(), Error>)
        ensures
            final(self).typedefs == old(self).typedefs,
            final(self).contracts == old(self).contracts,
            final(self).matched == old(self).matched,
            r is Ok <==> old(self).remaining >= amount,
            r is Ok ==> final(self).remaining == old(self).remaining - amount,
            r is Err ==> final(self).remaining == old(self).remaining,
            r matches Err(e) ==> e.message@ == budget_message(),
    {
        if self.remaining >= amount {
            self.remaining = self.remaining - amount;
            Ok(())
        } else {
            Err(Error::new(0, "object-type comparison reference limit exceeded"))
        }
    }

    fn remembered(&self, a: &'a Type, b: &'a Type, qa: u8, qb: u8, parameter: bool, completion: bool) -> (r: bool)
        requires
            self.wf(),
        ensures
            r ==> resolved_settles(self.typedefs@, self.contracts@, *a, *b, qa, qb, parameter, completion, true),
            r ==> exists|k: int|
                0 <= k < self.matched@.len() && (#[trigger] self.matched@[k]).2 == qa && self.matched@[k].3 == qb
                    && self.matched@[k].4 == parameter && self.matched@[k].5 == completion && *self.matched@[k].0 == *a
                    && *self.matched@[k].1 == *b,
    {
        let mut i: usize = 0;
        while i < self.matched.len()
            invariant
                self.wf(),
                i <= self.matched@.len(),
            decreases self.matched.len() - i,
        {
            let e = self.matched[i];
            if e.2 == qa && e.3 == qb && e.4 == parameter && e.5 == completion && same_object(e.0, a) && same_object(
                e.1,
                b,
            ) {
                proof {
                    assert(entry_settles(self.typedefs@, self.contracts@, self.matched@[i as int]));
                    assert(self.matched@[i as int] == e);
                }
                return true;
            }
            i = i + 1;
        }
        false
    }

    fn remembered_by_index(&self, ia: usize, ib: usize, qa: u8, qb: u8, parameter: bool, completion: bool) -> (r: Option<(&'a Type, &'a Type)>)
        requires
            self.wf(),
        ensures
            r is Some <==> indexed_entry(self.matched@, ia, ib, qa, qb, parameter, completion),
            r matches Some(p) ==> resolved_settles(self.typedefs@, self.contracts@, *p.0, *p.1, qa, qb, parameter, completion, true)
                && defines(self.typedefs@, Some(ia), *p.0) && defines(self.typedefs@, Some(ib), *p.1),
    {
        let mut i: usize = 0;
        while i < self.matched.len()
            invariant
                self.wf(),
                i <= self.matched@.len(),
                forall|j: int| 0 <= j < i ==> !(#[trigger] self.matched@[j].6 == Some(ia) && self.matched@[j].7 == Some(ib)
                    && self.matched@[j].2 == qa && self.matched@[j].3 == qb && self.matched@[j].4 == parameter
                    && self.matched@[j].5 == completion),
            decreases self.matched.len() - i,
        {
            let e = self.matched[i];
            if e.6 == Some(ia) && e.7 == Some(ib) && e.2 == qa && e.3 == qb && e.4 == parameter && e.5 == completion {
                proof {
                    assert(entry_settles(self.typedefs@, self.contracts@, self.matched@[i as int]));
                    assert(entry_indexed(self.typedefs@, self.matched@[i as int]));
                    assert(self.matched@[i as int] == e);
                }
                return Some((e.0, e.1));
            }
            i = i + 1;
        }
        None
    }

    fn remember(
        &mut self,
        a: &'a Type,
        b: &'a Type,
        qa: u8,
        qb: u8,
        parameter: bool,
        completion: bool,
        ia: Option<usize>,
        ib: Option<usize>,
    )
        requires
            old(self).wf(),
            resolved_settles(old(self).typedefs@, old(self).contracts@, *a, *b, qa, qb, parameter, completion, true),
            defines(old(self).typedefs@, ia, *a),
            defines(old(self).typedefs@, ib, *b),
        ensures
            final(self).wf(),
            final(self).typedefs == old(self).typedefs,
            final(self).contracts == old(self).contracts,
            final(self).remaining == old(self).remaining,
            final(self).matched@ == old(self).matched@.push((a, b, qa, qb, parameter, completion, ia, ib)),
    {
        let ghost td = self.typedefs@;
        let ghost cs = self.contracts@;
        let ghost before = self.matched@;
        let key: MatchKey<'a> = (a, b, qa, qb, parameter, completion, ia, ib);
        proof {
            lemma_memo_push(td, cs, before, key);
        }
        self.matched.push(key);
    }

    fn same_parameter_contracts(
        &mut self,
        a: Option<ParameterContractsId>,
        b: Option<ParameterContractsId>,
    ) -> (r: Result<bool, Error>)
        ensures
            final(self).typedefs == old(self).typedefs,
            final(self).contracts == old(self).contracts,
            final(self).matched == old(self).matched,
            final(self).remaining <= old(self).remaining,
            contracts_match(old(self).contracts@, a, b) matches Some(k) ==> old(self).remaining >= k.1 ==> r == Ok::<
                bool,
                Error,
            >(k.0) && final(self).remaining == old(self).remaining - k.1,
            r matches Ok(x) ==> contracts_match(old(self).contracts@, a, b) matches Some(k) && k.0 == x,
            r matches Err(e) ==> e.message@ == budget_message() || contracts_match(old(self).contracts@, a, b) is None,
    {
        let table: &'a [ParameterContracts] = self.contracts;
        let first = match noescape_parameters(table, a) {
            Ok(p) => p,
            Err(e) => {
                return Err(e);
            },
        };
        let second = match noescape_parameters(table, b) {
            Ok(p) => p,
            Err(e) => {
                return Err(e);
            },
        };
        let needed = if first.len() > usize::MAX - second.len() {
            usize::MAX
        } else {
            first.len() + second.len()
        };
        match self.charge(needed) {
            Ok(()) => {},
            Err(e) => {
                return Err(e);
            },
        }
        Ok(positions_equal(first, second))
    }

    #[verifier::rlimit(50)]
    fn compare(
        &mut self,
        first: &'a Type,
        second: &'a Type,
        first_qualifiers: u8,
        second_qualifiers: u8,
        parameter: bool,
        completion: bool,
        depth: usize,
    ) -> (r: Result<bool, Error>)
        requires
            old(self).wf(),
            depth <= 128,
        ensures
            final(self).wf(),
            final(self).typedefs == old(self).typedefs,
            final(self).contracts == old(self).contracts,
            final(self).remaining <= old(self).remaining,
            r == Ok::<bool, Error>(true) && typedef_pair(old(self).typedefs@, *first, *second) ==> pair_remembered(
                final(self).matched@,
                old(self).typedefs@,
                *first,
                *second,
                first_qualifiers,
                second_qualifiers,
                parameter,
                completion,
            ),
            depth < 128 && pair_remembered(
                old(self).matched@,
                old(self).typedefs@,
                *first,
                *second,
                first_qualifiers,
                second_qualifiers,
                parameter,
                completion,
            ) && old(self).remaining >= resolve_cost(old(self).typedefs@, *first, 128) + resolve_cost(
                old(self).typedefs@,
                *second,
                128,
            ) ==> r == Ok::<bool, Error>(true) && final(self).remaining == old(self).remaining - (resolve_cost(
                old(self).typedefs@,
                *first,
                128,
            ) + resolve_cost(old(self).typedefs@, *second, 128)) && final(self).matched == old(self).matched,
            r matches Ok(x) ==> type_settles(
                old(self).typedefs@,
                old(self).contracts@,
                *first,
                *second,
                first_qualifiers,
                second_qualifiers,
                parameter,
                completion,
                x,
            ),
            type_match(
                old(self).typedefs@,
                old(self).contracts@,
                *first,
                *second,
                first_qualifiers,
                second_qualifiers,
                parameter,
                completion,
                (128 - depth) as nat,
            ) matches Some(m) ==> old(self).remaining >= m.1 ==> r == Ok::<bool, Error>(m.0) && old(self).remaining
                - final(self).remaining <= m.1,
            r matches Err(e) ==> e.message@ == budget_message() || type_match(
                old(self).typedefs@,
                old(self).contracts@,
                *first,
                *second,
                first_qualifiers,
                second_qualifiers,
                parameter,
                completion,
                (128 - depth) as nat,
            ) is None,
            depth < 128 && resolve_steps(old(self).typedefs@, *first, first_qualifiers, 128) is Some && resolve_steps(
                old(self).typedefs@,
                *second,
                second_qualifiers,
                128,
            ) is Some && old(self).remaining < resolve_cost(old(self).typedefs@, *first, 128) + resolve_cost(
                old(self).typedefs@,
                *second,
                128,
            ) ==> (r matches Err(e) && e.message@ == budget_message()),
        decreases 128 - depth, 2int,
    {
        let ghost td = self.typedefs@;
        let ghost cs = self.contracts@;
        if depth >= 128 {
            return Err(Error::new(0, "object-type comparison nesting limit exceeded"));
        }
        let ghost fuel = (128 - depth) as nat;
        let ghost old_matched = self.matched@;
        let (a, qa, ia) = match self.resolve(first, first_qualifiers) {
            Ok(t) => t,
            Err(e) => {
                return Err(e);
            },
        };
        let (b, qb, ib) = match self.resolve(second, second_qualifiers) {
            Ok(t) => t,
            Err(e) => {
                return Err(e);
            },
        };
        proof {
            lemma_resolve_steps(td, *first, first_qualifiers, 128);
            lemma_resolve_steps(td, *second, second_qualifiers, 128);
        }
        let arrays = match (&a.kind, &b.kind) {
            (TypeKind::Array { .. }, TypeKind::Array { .. }) => true,
            (TypeKind::VariableArray { .. }, TypeKind::VariableArray { .. }) => true,
            _ => false,
        };
        if !parameter && !arrays && qa != qb {
            proof {
                assert(match_value(type_match(td, cs, *first, *second, first_qualifiers, second_qualifiers, parameter, completion, fuel)) == Some(false));
                if pair_remembered(old_matched, td, *first, *second, first_qualifiers, second_qualifiers, parameter, completion) {
                    lemma_remembered_qualifiers(td, cs, old_matched, *a, *b, ia->Some_0, ib->Some_0, qa, qb, parameter, completion);
                }
            }
            return Ok(false);
        }
        let indexed = match (ia, ib) {
            (Some(x), Some(y)) => self.remembered_by_index(x, y, qa, qb, parameter, completion),
            _ => None,
        };
        if let Some(p) = indexed {
            proof {
                assert(*p.0 == *a && *p.1 == *b);
                let f = choose|f: nat| match_value(#[trigger] resolved_match(td, cs, *a, *b, qa, qb, parameter, completion, f)) == Some(true);
                assert(match_value(type_match(td, cs, *first, *second, first_qualifiers, second_qualifiers, parameter, completion, f)) == Some(true));
                let m = type_match(td, cs, *first, *second, first_qualifiers, second_qualifiers, parameter, completion, fuel);
                if m is Some {
                    lemma_settled_agrees(td, cs, *first, *second, first_qualifiers, second_qualifiers, parameter, completion, true, fuel);
                }
            }
            return Ok(true);
        }
        proof {
            if pair_remembered(old_matched, td, *first, *second, first_qualifiers, second_qualifiers, parameter, completion) {
                assert(indexed_entry(self.matched@, ia->Some_0, ib->Some_0, qa, qb, parameter, completion));
            }
        }
        if self.remembered(a, b, qa, qb, parameter, completion) {
            proof {
                let f = choose|f: nat| match_value(#[trigger] resolved_match(td, cs, *a, *b, qa, qb, parameter, completion, f)) == Some(true);
                assert(match_value(type_match(td, cs, *first, *second, first_qualifiers, second_qualifiers, parameter, completion, f)) == Some(true));
                let m = type_match(td, cs, *first, *second, first_qualifiers, second_qualifiers, parameter, completion, fuel);
                if m is Some {
                    lemma_settled_agrees(td, cs, *first, *second, first_qualifiers, second_qualifiers, parameter, completion, true, fuel);
                }
            }
            if ia.is_some() && ib.is_some() {
                self.remember(a, b, qa, qb, parameter, completion, ia, ib);
                proof {
                    let last = self.matched@.len() - 1;
                    assert(self.matched@[last].6 == ia && self.matched@[last].7 == ib);
                }
            }
            return Ok(true);
        }
        let same = match self.compare_kinds(a, b, qa, qb, parameter, completion, depth) {
            Ok(v) => v,
            Err(e) => {
                return Err(e);
            },
        };
        let ghost fr = choose|f: nat| match_value(#[trigger] resolved_match(td, cs, *a, *b, qa, qb, parameter, completion, f)) == Some(same);
        proof {
            assert(match_value(type_match(td, cs, *first, *second, first_qualifiers, second_qualifiers, parameter, completion, fr)) == Some(same));
        }
        if same {
            self.remember(a, b, qa, qb, parameter, completion, ia, ib);
            proof {
                let last = self.matched@.len() - 1;
                assert(self.matched@[last].6 == ia && self.matched@[last].7 == ib);
            }
        }
        Ok(same)
    }

    #[verifier::rlimit(50)]
    fn compare_kinds(
        &mut self,
        a: &'a Type,
        b: &'a Type,
        qa: u8,
        qb: u8,
        parameter: bool,
        completion: bool,
        depth: usize,
    ) -> (r: Result<bool, Error>)
        requires
            old(self).wf(),
            depth < 128,
            parameter || both_arrays(a.kind, b.kind) || qa == qb,
        ensures
            final(self).wf(),
            final(self).typedefs == old(self).typedefs,
            final(self).contracts == old(self).contracts,
            final(self).remaining <= old(self).remaining,
            r matches Ok(x) ==> resolved_settles(old(self).typedefs@, old(self).contracts@, *a, *b, qa, qb, parameter, completion, x),
            resolved_match(old(self).typedefs@, old(self).contracts@, *a, *b, qa, qb, parameter, completion, (128 - depth) as nat)
                matches Some(m) ==> old(self).remaining >= m.1 ==> r == Ok::<bool, Error>(m.0) && old(self).remaining
                - final(self).remaining <= m.1,
            r matches Err(e) ==> e.message@ == budget_message() || resolved_match(
                old(self).typedefs@,
                old(self).contracts@,
                *a,
                *b,
                qa,
                qb,
                parameter,
                completion,
                (128 - depth) as nat,
            ) is None,
        decreases 128 - depth, 1int,
    {
        let ghost td = self.typedefs@;
        let ghost cs = self.contracts@;
        let ghost fuel = (128 - depth) as nat;
        let result: bool = match (&a.kind, &b.kind) {
            (TypeKind::Void, TypeKind::Void) => true,
            (TypeKind::Bool, TypeKind::Bool) => true,
            (TypeKind::Integer(x), TypeKind::Integer(y)) => *x == *y,
            (TypeKind::Float(x), TypeKind::Float(y)) => *x == *y,
            (TypeKind::Complex(x), TypeKind::Complex(y)) => *x == *y,
            (TypeKind::Record(x), TypeKind::Record(y)) => *x == *y,
            (TypeKind::Enum(x), TypeKind::Enum(y)) => *x == *y,
            (TypeKind::Sve(x), TypeKind::Sve(y)) => *x == *y,
            (TypeKind::Pointer(x), TypeKind::Pointer(y)) | (TypeKind::Atomic(x), TypeKind::Atomic(y)) => {
                let xt: &'a Type = &**x;
                let yt: &'a Type = &**y;
                let v = match self.compare(xt, yt, 0, 0, false, completion, depth + 1) {
                    Ok(v) => v,
                    Err(e) => {
                        return Err(e);
                    },
                };
                proof {
                    let f = choose|f: nat| match_value(#[trigger] type_match(td, cs, *xt, *yt, 0, 0, false, completion, f)) == Some(v);
                    assert(match_value(resolved_match(td, cs, *a, *b, qa, qb, parameter, completion, f + 1)) == Some(v));
                }
                return Ok(v);
            },
            (TypeKind::Array { element: x, length: lx }, TypeKind::Array { element: y, length: ly }) => {
                let lengths = match (lx, ly) {
                    (Some(m), Some(n)) => *m == *n,
                    (None, None) => true,
                    (None, Some(_)) => completion,
                    (Some(_), None) => false,
                };
                if !lengths {
                    false
                } else {
                    let xt: &'a Type = &**x;
                    let yt: &'a Type = &**y;
                    let v = match self.compare(xt, yt, qa, qb, false, completion, depth + 1) {
                        Ok(v) => v,
                        Err(e) => {
                            return Err(e);
                        },
                    };
                    proof {
                        let f = choose|f: nat| match_value(#[trigger] type_match(td, cs, *xt, *yt, qa, qb, false, completion, f)) == Some(v);
                        assert(match_value(resolved_match(td, cs, *a, *b, qa, qb, parameter, completion, f + 1)) == Some(v));
                    }
                    return Ok(v);
                }
            },
            (
                TypeKind::VariableArray { element: x, identity: ix },
                TypeKind::VariableArray { element: y, identity: iy },
            ) => {
                if *ix != *iy {
                    false
                } else {
                    let xt: &'a Type = &**x;
                    let yt: &'a Type = &**y;
                    let v = match self.compare(xt, yt, qa, qb, false, completion, depth + 1) {
                        Ok(v) => v,
                        Err(e) => {
                            return Err(e);
                        },
                    };
                    proof {
                        let f = choose|f: nat| match_value(#[trigger] type_match(td, cs, *xt, *yt, qa, qb, false, completion, f)) == Some(v);
                        assert(match_value(resolved_match(td, cs, *a, *b, qa, qb, parameter, completion, f + 1)) == Some(v));
                    }
                    return Ok(v);
                }
            },
            (
                TypeKind::Vector { element: x, lanes: lx, kind: kx },
                TypeKind::Vector { element: y, lanes: ly, kind: ky },
            ) => {
                if !(*lx == *ly && *kx == *ky) {
                    false
                } else {
                    let xt: &'a Type = &**x;
                    let yt: &'a Type = &**y;
                    let v = match self.compare(xt, yt, 0, 0, false, completion, depth + 1) {
                        Ok(v) => v,
                        Err(e) => {
                            return Err(e);
                        },
                    };
                    proof {
                        let f = choose|f: nat| match_value(#[trigger] type_match(td, cs, *xt, *yt, 0, 0, false, completion, f)) == Some(v);
                        assert(match_value(resolved_match(td, cs, *a, *b, qa, qb, parameter, completion, f + 1)) == Some(v));
                    }
                    return Ok(v);
                }
            },
            (TypeKind::Function(x), TypeKind::Function(y)) => {
                let xf: &'a FunctionType = &**x;
                let yf: &'a FunctionType = &**y;
                let v = match self.compare_functions(xf, yf, completion, depth) {
                    Ok(v) => v,
                    Err(e) => {
                        return Err(e);
                    },
                };
                proof {
                    let f = choose|f: nat| match_value(#[trigger] function_match(td, cs, *xf, *yf, completion, f)) == Some(v);
                    assert(match_value(resolved_match(td, cs, *a, *b, qa, qb, parameter, completion, f)) == Some(v));
                }
                return Ok(v);
            },
            _ => false,
        };
        proof {
            assert(match_value(resolved_match(td, cs, *a, *b, qa, qb, parameter, completion, fuel)) == Some(result));
        }
        Ok(result)
    }

    #[verifier::rlimit(80)]
    fn compare_functions(
        &mut self,
        x: &'a FunctionType,
        y: &'a FunctionType,
        completion: bool,
        depth: usize,
    ) -> (r: Result<bool, Error>)
        requires
            old(self).wf(),
            depth < 128,
        ensures
            final(self).wf(),
            final(self).typedefs == old(self).typedefs,
            final(self).contracts == old(self).contracts,
            final(self).remaining <= old(self).remaining,
            r matches Ok(v) ==> function_settles(old(self).typedefs@, old(self).contracts@, *x, *y, completion, v),
            function_match(old(self).typedefs@, old(self).contracts@, *x, *y, completion, (128 - depth) as nat) matches Some(
                m
            ) ==> old(self).remaining >= m.1 ==> r == Ok::<bool, Error>(m.0) && old(self).remaining - final(self).remaining
                <= m.1,
            r matches Err(e) ==> e.message@ == budget_message() || function_match(
                old(self).typedefs@,
                old(self).contracts@,
                *x,
                *y,
                completion,
                (128 - depth) as nat,
            ) is None,
        decreases 128 - depth, 0int,
    {
        let ghost td = self.typedefs@;
        let ghost cs = self.contracts@;
        let ghost fuel = (128 - depth) as nat;
        let ghost start = self.remaining;
        if x.prototype != y.prototype || x.variadic != y.variadic || x.calling_convention != y.calling_convention
            || x.noreturn != y.noreturn || x.parameters.len() != y.parameters.len() {
            proof {
                assert(match_value(function_match(td, cs, *x, *y, completion, fuel)) == Some(false));
            }
            return Ok(false);
        }
        let same = match self.same_parameter_contracts(x.parameter_contracts, y.parameter_contracts) {
            Ok(s) => s,
            Err(e) => {
                return Err(e);
            },
        };
        if !same {
            proof {
                assert(match_value(function_match(td, cs, *x, *y, completion, fuel)) == Some(false));
            }
            return Ok(false);
        }
        let ghost k = contracts_match(cs, x.parameter_contracts, y.parameter_contracts)->0;
        let return_same = match self.compare(&x.return_type, &y.return_type, 0, 0, false, completion, depth + 1) {
            Ok(v) => v,
            Err(e) => {
                return Err(e);
            },
        };
        let ghost fr = choose|f: nat|
            match_value(#[trigger] type_match(td, cs, x.return_type, y.return_type, 0, 0, false, completion, f)) == Some(
                return_same,
            );
        proof {
            if type_match(td, cs, x.return_type, y.return_type, 0, 0, false, completion, (fuel - 1) as nat) is Some {
                lemma_settled_agrees(
                    td,
                    cs,
                    x.return_type,
                    y.return_type,
                    0,
                    0,
                    false,
                    completion,
                    return_same,
                    (fuel - 1) as nat,
                );
            }
        }
        if !return_same {
            proof {
                assert(match_value(function_match(td, cs, *x, *y, completion, fr + 1)) == Some(false));
            }
            return Ok(false);
        }
        let ghost pa = x.parameters@;
        let ghost pb = y.parameters@;
        let ghost mut fw: nat = fr;
        let mut i: usize = 0;
        while i < x.parameters.len()
            invariant
                self.wf(),
                self.typedefs == old(self).typedefs,
                self.contracts == old(self).contracts,
                td == self.typedefs@,
                cs == self.contracts@,
                self.remaining <= start,
                start == old(self).remaining,
                depth < 128,
                fuel == 128 - depth,
                pa == x.parameters@,
                pb == y.parameters@,
                pa.len() == pb.len(),
                i <= pa.len(),
                x.prototype == y.prototype,
                x.variadic == y.variadic,
                x.calling_convention == y.calling_convention,
                x.noreturn == y.noreturn,
                contracts_match(cs, x.parameter_contracts, y.parameter_contracts) == Some(k),
                k.0,
                match_value(type_match(td, cs, x.return_type, y.return_type, 0, 0, false, completion, fw)) == Some(true),
                forall|n: int|
                    0 <= n < i ==> match_value(#[trigger] type_match(td, cs, pa[n].ty, pb[n].ty, 0, 0, true, completion, fw))
                        == Some(true),
                function_match(td, cs, *x, *y, completion, fuel) matches Some(m) ==> (parameters_match(
                    td,
                    cs,
                    pa,
                    pb,
                    i as int,
                    completion,
                    fuel,
                ) matches Some(pm) && pm.0 == m.0),
                function_match(td, cs, *x, *y, completion, fuel) matches Some(m) ==> start >= m.1 ==> start - self.remaining
                    + (parameters_match(td, cs, pa, pb, i as int, completion, fuel)->0).1 <= m.1,
            decreases pa.len() - i,
        {
            let pt: &'a Type = &x.parameters[i].ty;
            let qt: &'a Type = &y.parameters[i].ty;
            let ghost before = self.remaining;
            let v = match self.compare(pt, qt, 0, 0, true, completion, depth + 1) {
                Ok(v) => v,
                Err(e) => {
                    return Err(e);
                },
            };
            let ghost fi = choose|f: nat| match_value(#[trigger] type_match(td, cs, *pt, *qt, 0, 0, true, completion, f)) == Some(v);
            let ghost fw2: nat = if fw >= fi { fw } else { fi };
            proof {
                if type_match(td, cs, *pt, *qt, 0, 0, true, completion, (fuel - 1) as nat) is Some {
                    lemma_settled_agrees(td, cs, *pt, *qt, 0, 0, true, completion, v, (fuel - 1) as nat);
                }
                lemma_type_match_monotone(td, cs, *pt, *qt, 0, 0, true, completion, fi, fw2);
                lemma_type_match_monotone(td, cs, x.return_type, y.return_type, 0, 0, false, completion, fw, fw2);
                assert forall|n: int| 0 <= n < i implies match_value(
                    #[trigger] type_match(td, cs, pa[n].ty, pb[n].ty, 0, 0, true, completion, fw2),
                ) == Some(true) by {
                    lemma_type_match_monotone(td, cs, pa[n].ty, pb[n].ty, 0, 0, true, completion, fw, fw2);
                }
            }
            if !v {
                proof {
                    lemma_parameters_prefix(td, cs, pa, pb, completion, fw2 + 1, i as int);
                    assert(match_value(parameters_match(td, cs, pa, pb, i as int, completion, fw2 + 1)) == Some(false));
                    assert(match_value(function_match(td, cs, *x, *y, completion, fw2 + 1)) == Some(false));
                }
                return Ok(false);
            }
            proof {
                fw = fw2;
            }
            i = i + 1;
        }
        proof {
            lemma_parameters_prefix(td, cs, pa, pb, completion, fw + 1, pa.len() as int);
            assert(match_value(function_match(td, cs, *x, *y, completion, fw + 1)) == Some(true));
        }
        Ok(true)
    }

    /// Whether both types carry the same complete information after
    /// typedefs are removed. An answer is the comparison's at some nesting
    /// depth; where the comparison answers within 128 levels and the
    /// budget covers what it charges, that answer comes. An error is the
    /// budget running out, or a comparison that gives no answer within 128
    /// levels (an unknown typedef, a chain of more than 128, an invalid
    /// contract identifier). Two typedef names found equal are remembered:
    /// the pass answers them again by resolving the two names alone.
    pub fn same_type(&mut self, first: &'a Type, second: &'a Type) -> (r: Result<bool, Error>)
        requires
            old(self).wf(),
        ensures
            final(self).wf(),
            final(self).typedefs_spec() == old(self).typedefs_spec(),
            final(self).contracts_spec() == old(self).contracts_spec(),
            final(self).remaining_spec() <= old(self).remaining_spec(),
            r matches Ok(x) ==> type_settles(
                old(self).typedefs_spec(),
                old(self).contracts_spec(),
                *first,
                *second,
                0,
                0,
                false,
                false,
                x,
            ),
            type_match(old(self).typedefs_spec(), old(self).contracts_spec(), *first, *second, 0, 0, false, false, 128)
                matches Some(m) ==> old(self).remaining_spec() >= m.1 ==> r == Ok::<bool, Error>(m.0)
                && old(self).remaining_spec() - final(self).remaining_spec() <= m.1,
            r matches Err(e) ==> e.message@ == budget_message() || type_match(
                old(self).typedefs_spec(),
                old(self).contracts_spec(),
                *first,
                *second,
                0,
                0,
                false,
                false,
                128,
            ) is None,
            resolve_steps(old(self).typedefs_spec(), *first, 0, 128) is Some && resolve_steps(
                old(self).typedefs_spec(),
                *second,
                0,
                128,
            ) is Some && old(self).remaining_spec() < resolve_cost(old(self).typedefs_spec(), *first, 128)
                + resolve_cost(old(self).typedefs_spec(), *second, 128) ==> (r matches Err(e) && e.message@
                == budget_message()),
            r == Ok::<bool, Error>(true) && typedef_pair(old(self).typedefs_spec(), *first, *second) ==> final(self).remembers(
                *first,
                *second,
                false,
            ),
            old(self).remembers(*first, *second, false) && old(self).remaining_spec() >= resolve_cost(
                old(self).typedefs_spec(),
                *first,
                128,
            ) + resolve_cost(old(self).typedefs_spec(), *second, 128) ==> r == Ok::<bool, Error>(true)
                && final(self).remaining_spec() == old(self).remaining_spec() - (resolve_cost(
                old(self).typedefs_spec(),
                *first,
                128,
            ) + resolve_cost(old(self).typedefs_spec(), *second, 128)) && final(self).remembers(
                *first,
                *second,
                false,
            ),
    {
        self.compare(first, second, 0, 0, false, false, 0)
    }

    /// Matches an earlier occurrence against a later declaration, an array
    /// of unknown length in the occurrence matching one of any length in
    /// the declaration; otherwise as [`Self::same_type`].
    pub fn matches_declaration(&mut self, first: &'a Type, second: &'a Type) -> (r: Result<bool, Error>)
        requires
            old(self).wf(),
        ensures
            final(self).wf(),
            final(self).typedefs_spec() == old(self).typedefs_spec(),
            final(self).contracts_spec() == old(self).contracts_spec(),
            final(self).remaining_spec() <= old(self).remaining_spec(),
            r matches Ok(x) ==> type_settles(
                old(self).typedefs_spec(),
                old(self).contracts_spec(),
                *first,
                *second,
                0,
                0,
                false,
                true,
                x,
            ),
            type_match(old(self).typedefs_spec(), old(self).contracts_spec(), *first, *second, 0, 0, false, true, 128)
                matches Some(m) ==> old(self).remaining_spec() >= m.1 ==> r == Ok::<bool, Error>(m.0)
                && old(self).remaining_spec() - final(self).remaining_spec() <= m.1,
            r matches Err(e) ==> e.message@ == budget_message() || type_match(
                old(self).typedefs_spec(),
                old(self).contracts_spec(),
                *first,
                *second,
                0,
                0,
                false,
                true,
                128,
            ) is None,
            resolve_steps(old(self).typedefs_spec(), *first, 0, 128) is Some && resolve_steps(
                old(self).typedefs_spec(),
                *second,
                0,
                128,
            ) is Some && old(self).remaining_spec() < resolve_cost(old(self).typedefs_spec(), *first, 128)
                + resolve_cost(old(self).typedefs_spec(), *second, 128) ==> (r matches Err(e) && e.message@
                == budget_message()),
            r == Ok::<bool, Error>(true) && typedef_pair(old(self).typedefs_spec(), *first, *second) ==> final(self).remembers(
                *first,
                *second,
                true,
            ),
            old(self).remembers(*first, *second, true) && old(self).remaining_spec() >= resolve_cost(
                old(self).typedefs_spec(),
                *first,
                128,
            ) + resolve_cost(old(self).typedefs_spec(), *second, 128) ==> r == Ok::<bool, Error>(true)
                && final(self).remaining_spec() == old(self).remaining_spec() - (resolve_cost(
                old(self).typedefs_spec(),
                *first,
                128,
            ) + resolve_cost(old(self).typedefs_spec(), *second, 128)) && final(self).remembers(
                *first,
                *second,
                true,
            ),
    {
        self.compare(first, second, 0, 0, false, true, 0)
    }

    fn resolve(&mut self, ty: &'a Type, qualifiers: u8) -> (r: Result<(&'a Type, u8, Option<usize>), Error>)
        ensures
            r matches Ok(t) ==> t.2 == match resolve_index(old(self).typedefs@, *ty, 128) {
                Some(i) => Some(i as usize),
                None => None::<usize>,
            } && defines(old(self).typedefs@, t.2, *t.0),
            final(self).typedefs == old(self).typedefs,
            final(self).contracts == old(self).contracts,
            final(self).matched == old(self).matched,
            final(self).remaining == if old(self).remaining >= resolve_cost(old(self).typedefs@, *ty, 128) {
                old(self).remaining - resolve_cost(old(self).typedefs@, *ty, 128)
            } else {
                0
            },
            r is Ok <==> resolve_steps(old(self).typedefs@, *ty, qualifiers, 128) is Some && old(self).remaining
                >= resolve_cost(old(self).typedefs@, *ty, 128),
            r matches Ok(t) ==> resolve_steps(old(self).typedefs@, *ty, qualifiers, 128) == Some((*t.0, t.1)),
            r matches Err(e) ==> e.message@ == budget_message() || resolve_steps(old(self).typedefs@, *ty, qualifiers, 128)
                is None,
    {
        let ghost td = self.typedefs@;
        let table: &'a [(String, Type)] = self.typedefs;
        let mut current: &'a Type = ty;
        let mut gathered = qualifiers;
        let mut last: Option<usize> = None;
        let mut step: usize = 0;
        while step < 128
            invariant
                (if current.kind is Typedef {
                    resolve_index(td, *current, (128 - step) as nat)
                } else {
                    match last {
                        Some(i) => Some(i as int),
                        None => None::<int>,
                    }
                }) == resolve_index(td, *ty, 128),
                defines(td, last, *current),
                td == self.typedefs@,
                table == self.typedefs,
                self.typedefs == old(self).typedefs,
                self.contracts == old(self).contracts,
                self.matched == old(self).matched,
                step <= 128,
                resolve_steps(td, *ty, qualifiers, 128) == resolve_steps(td, *current, gathered, (128 - step) as nat),
                resolve_cost(td, *ty, 128) == step + resolve_cost(td, *current, (128 - step) as nat),
                old(self).remaining >= step,
                self.remaining == old(self).remaining - step,
            decreases 128 - step,
        {
            proof {
                lemma_resolve_steps(td, *current, gathered, (128 - step) as nat);
            }
            if self.remaining == 0 {
                return Err(Error::new(0, "object-type comparison reference limit exceeded"));
            }
            self.remaining = self.remaining - 1;
            gathered = gathered | current.qualifiers.comparison_bits();
            match &current.kind {
                TypeKind::Typedef(name) => {
                    proof {
                        lemma_typedef_from(td, name@, 0);
                    }
                    match find_typedef(table, name) {
                        Some(i) => {
                            current = &table[i].1;
                            last = Some(i);
                        },
                        None => {
                            return Err(unknown_typedef(name));
                        },
                    }
                },
                _ => {
                    return Ok((current, gathered, last));
                },
            }
            step = step + 1;
        }
        Err(Error::new(0, "object-type comparison nesting limit exceeded"))
    }
}

/// Whether two references designate the same object, by address
/// (`std::ptr::eq`). A `true` answer means one object, so one value;
/// references to distinct objects may hold equal values, and the answer is
/// then `false`, which nothing here claims otherwise.
#[verifier::external_body]
fn same_object(a: &Type, b: &Type) -> (r: bool)
    ensures
        r ==> *a == *b,
{
    std::ptr::eq(a, b)
}

} // verus!
