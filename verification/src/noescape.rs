//! Clang parameter promises, separate from C compatibility and proven escape behavior.

use crate::error::Error;
use crate::ir::{FunctionType, Parameter, Type, TypeKind};
use crate::typedefs::{resolve, resolved_type};
use vstd::prelude::*;

verus! {

/// Index into one translation unit's sparse parameter-contract arena.
#[derive(Clone, Copy, Debug, PartialEq, Eq, Hash, Structural)]
pub struct ParameterContractsId(u32);

impl ParameterContractsId {
    #[verifier::type_invariant]
    spec fn stored_nonzero(self) -> bool {
        self.0 > 0
    }

    /// The zero-based arena index this identifier denotes.
    pub closed spec fn index_spec(self) -> int {
        self.0 - 1
    }

    /// Constructs an owner-local index; the owning unit validates its existence.
    pub fn new(index: usize) -> (r: Option<Self>)
        ensures
            r is Some <==> index < u32::MAX,
            r matches Some(id) ==> id.index_spec() == index,
    {
        if index < u32::MAX as usize {
            Some(ParameterContractsId((index + 1) as u32))
        } else {
            None
        }
    }

    /// Returns the zero-based arena index.
    pub fn index(self) -> (r: usize)
        ensures
            r == self.index_spec(),
            r < u32::MAX,
    {
        proof {
            use_type_invariant(&self);
        }
        (self.0 - 1) as usize
    }
}

/// Promises on fixed parameters, in ascending zero-based parameter order.
///
/// `no_escape` promises that references derived from the pointer do not survive
/// the call. It does not prohibit freeing the pointer and is not an escape-analysis
/// verdict. The physical calling convention is unchanged.
#[derive(Clone, Debug)]
pub struct ParameterContracts {
    pub no_escape: Vec<u32>,
}

/// The most contract sets one unit holds.
pub const MAX_SETS: usize = 65536;

/// The most parameter positions all of one unit's sets hold together.
pub const MAX_POSITIONS: usize = 1048576;

/// The position lists of an arena.
pub open spec fn arena_view(contracts: Seq<ParameterContracts>) -> Seq<Seq<u32>> {
    contracts.map_values(|c: ParameterContracts| c.no_escape@)
}

/// The total number of positions in the first `n` sets.
pub open spec fn total_positions(sets: Seq<Seq<u32>>, n: int) -> nat
    decreases n,
{
    if n <= 0 || n > sets.len() {
        0
    } else {
        total_positions(sets, n - 1) + sets[n - 1].len()
    }
}

/// No set occurs twice in the arena, so a set has at most one identifier.
pub open spec fn arena_distinct(sets: Seq<Seq<u32>>) -> bool {
    forall|i: int, j: int| 0 <= i < j < sets.len() ==> sets[i] != sets[j]
}

/// Whether a list of positions is strictly increasing.
pub open spec fn strictly_increasing(s: Seq<u32>) -> bool {
    forall|i: int, j: int| 0 <= i < j < s.len() ==> s[i] < s[j]
}

/// What validation accepts of a unit's contract table.
pub open spec fn contract_table_valid(sets: Seq<Seq<u32>>) -> bool {
    &&& sets.len() <= MAX_SETS
    &&& forall|k: int| 0 <= k < sets.len() ==> #[trigger] sets[k].len() > 0 && strictly_increasing(sets[k])
    &&& total_positions(sets, sets.len() as int) <= MAX_POSITIONS
}

proof fn lemma_total_monotone(sets: Seq<Seq<u32>>, a: int, b: int)
    requires
        0 <= a <= b <= sets.len(),
    ensures
        total_positions(sets, a) <= total_positions(sets, b),
    decreases b - a,
{
    if a < b {
        lemma_total_monotone(sets, a, b - 1);
    }
}

fn equal_positions(a: &[u32], b: &[u32]) -> (r: bool)
    ensures
        r == (a@ == b@),
{
    if a.len() != b.len() {
        return false;
    }
    let mut i: usize = 0;
    while i < a.len()
        invariant
            a@.len() == b@.len(),
            i <= a@.len(),
            forall|j: int| 0 <= j < i ==> a@[j] == b@[j],
        decreases a.len() - i,
    {
        if a[i] != b[i] {
            return false;
        }
        i = i + 1;
    }
    assert(a@ =~= b@);
    true
}

fn contains_position(s: &[u32], v: u32) -> (r: bool)
    ensures
        r == s@.contains(v),
{
    let mut i: usize = 0;
    while i < s.len()
        invariant
            i <= s@.len(),
            forall|j: int| 0 <= j < i ==> s@[j] != v,
        decreases s.len() - i,
    {
        if s[i] == v {
            return true;
        }
        i = i + 1;
    }
    false
}

/// Checks a caller-built contract table: at most 65536 sets, each nonempty
/// and strictly increasing, with at most 1048576 positions in all.
pub fn validate_contract_table(contracts: &[ParameterContracts]) -> (r: Result<(), Error>)
    ensures
        r is Ok <==> contract_table_valid(arena_view(contracts@)),
{
    let ghost sets = arena_view(contracts@);
    if contracts.len() > MAX_SETS {
        return Err(Error::new(0, "parameter-contract set count exceeds the 65536 limit"));
    }
    let mut positions: usize = 0;
    let mut k: usize = 0;
    while k < contracts.len()
        invariant
            sets == arena_view(contracts@),
            k <= contracts@.len(),
            positions == total_positions(sets, k as int),
            positions <= MAX_POSITIONS,
            forall|j: int| 0 <= j < k ==> #[trigger] sets[j].len() > 0 && strictly_increasing(sets[j]),
        decreases contracts.len() - k,
    {
        let set = contracts[k].no_escape.as_slice();
        assert(set@ == sets[k as int]);
        if set.len() > MAX_POSITIONS - positions {
            proof {
                lemma_total_monotone(sets, k + 1, sets.len() as int);
            }
            return Err(Error::new(0, "parameter-contract payload exceeds the 1048576-position limit"));
        }
        positions = positions + set.len();
        if set.len() == 0 {
            return Err(Error::new(0, "parameter contracts must contain sorted unique parameter positions"));
        }
        let mut i: usize = 1;
        while i < set.len()
            invariant
                sets == arena_view(contracts@),
                k < contracts@.len(),
                set@ == sets[k as int],
                1 <= i <= set@.len(),
                forall|a: int, b: int| 0 <= a < b < i ==> set@[a] < set@[b],
            decreases set.len() - i,
        {
            if set[i - 1] >= set[i] {
                assert(!strictly_increasing(sets[k as int]));
                return Err(Error::new(0, "parameter contracts must contain sorted unique parameter positions"));
            }
            i = i + 1;
        }
        k = k + 1;
    }
    Ok(())
}

/// An arena within its limits, with no set twice.
pub open spec fn arena_valid(sets: Seq<Seq<u32>>) -> bool {
    &&& sets.len() <= MAX_SETS
    &&& total_positions(sets, sets.len() as int) <= MAX_POSITIONS
    &&& arena_distinct(sets)
}

/// Returns the identifier of a nonempty position set, adding the set to the
/// arena when it is new. An empty set has no identifier. Fails when the arena
/// would exceed its set or position limits.
pub fn intern(contracts: &mut Vec<ParameterContracts>, parameters: &[u32], offset: usize) -> (r: Result<
    Option<ParameterContractsId>,
    Error,
>)
    requires
        arena_valid(arena_view(old(contracts)@)),
    ensures
        arena_valid(arena_view(final(contracts)@)),
        parameters@.len() == 0 ==> r == Ok::<Option<ParameterContractsId>, Error>(None)
            && final(contracts)@ == old(contracts)@,
        parameters@.len() > 0 && arena_view(old(contracts)@).contains(parameters@) ==> {
            &&& final(contracts)@ == old(contracts)@
            &&& (r matches Ok(Some(id)) && 0 <= id.index_spec() < old(contracts)@.len()
                && arena_view(old(contracts)@)[id.index_spec()] == parameters@)
        },
        parameters@.len() > 0 && !arena_view(old(contracts)@).contains(parameters@) ==> {
            let full = old(contracts)@.len() >= MAX_SETS || total_positions(
                arena_view(old(contracts)@),
                old(contracts)@.len() as int,
            ) + parameters@.len() > MAX_POSITIONS;
            &&& full ==> (r is Err && final(contracts)@ == old(contracts)@)
            &&& !full ==> (r matches Ok(Some(id)) && id.index_spec() == old(contracts)@.len()
                && arena_view(final(contracts)@) == arena_view(old(contracts)@).push(parameters@))
        },
{
    let ghost before = arena_view(contracts@);
    if parameters.len() == 0 {
        return Ok(None);
    }
    let mut positions: usize = 0;
    let mut k: usize = 0;
    while k < contracts.len()
        invariant
            before == arena_view(contracts@),
            contracts@ == old(contracts)@,
            parameters@.len() > 0,
            arena_valid(before),
            k <= contracts@.len(),
            positions == total_positions(before, k as int),
            forall|j: int| 0 <= j < k ==> before[j] != parameters@,
        decreases contracts.len() - k,
    {
        proof {
            lemma_total_monotone(before, k + 1, before.len() as int);
        }
        if equal_positions(contracts[k].no_escape.as_slice(), parameters) {
            return Ok(ParameterContractsId::new(k));
        }
        positions = positions + contracts[k].no_escape.len();
        k = k + 1;
    }
    if contracts.len() >= MAX_SETS || parameters.len() > MAX_POSITIONS - positions {
        return Err(Error::new(offset, "parameter-contract arena limit exceeded"));
    }
    let id = ParameterContractsId::new(contracts.len());
    contracts.push(ParameterContracts { no_escape: vstd::slice::slice_to_vec(parameters) });
    proof {
        let after = arena_view(contracts@);
        assert(after =~= before.push(parameters@));
        assert(after.drop_last() =~= before);
        assert forall|n: int| 0 <= n <= before.len() implies total_positions(after, n) == total_positions(before, n) by {
            lemma_total_prefix(after, before, n);
        }
    }
    Ok(id)
}

proof fn lemma_total_prefix(a: Seq<Seq<u32>>, b: Seq<Seq<u32>>, n: int)
    requires
        0 <= n <= b.len(),
        b.len() <= a.len(),
        forall|i: int| 0 <= i < b.len() ==> a[i] == b[i],
    ensures
        total_positions(a, n) == total_positions(b, n),
    decreases n,
{
    if n > 0 {
        lemma_total_prefix(a, b, n - 1);
    }
}

/// Interning never changes what an existing identifier denotes, and a set
/// that is already in the arena keeps its identifier.
pub proof fn lemma_intern_stable(sets: Seq<Seq<u32>>, parameters: Seq<u32>, i: int, j: int)
    requires
        arena_distinct(sets),
        0 <= i < sets.len(),
        0 <= j < sets.len(),
        sets[i] == parameters,
        sets[j] == parameters,
    ensures
        i == j,
{
}

/// The positions of `a` that `b` also holds, in `a`'s order.
pub open spec fn common_positions(a: Seq<u32>, b: Seq<u32>) -> Seq<u32> {
    a.filter(|v: u32| b.contains(v))
}

/// Whether an identifier denotes a set of the arena.
pub open spec fn id_valid(sets: Seq<Seq<u32>>, id: ParameterContractsId) -> bool {
    0 <= id.index_spec() < sets.len()
}

fn is_subset(a: &[u32], b: &[u32]) -> (r: bool)
    ensures
        r == (forall|k: int| 0 <= k < a@.len() ==> b@.contains(#[trigger] a@[k])),
{
    let mut i: usize = 0;
    while i < a.len()
        invariant
            i <= a@.len(),
            forall|k: int| 0 <= k < i ==> b@.contains(#[trigger] a@[k]),
        decreases a.len() - i,
    {
        if !contains_position(b, a[i]) {
            return false;
        }
        i = i + 1;
    }
    true
}

fn common(a: &[u32], b: &[u32]) -> (r: Vec<u32>)
    ensures
        r@ == common_positions(a@, b@),
{
    let mut r: Vec<u32> = Vec::new();
    let mut i: usize = 0;
    while i < a.len()
        invariant
            i <= a@.len(),
            r@ == a@.subrange(0, i as int).filter(|v: u32| b@.contains(v)),
        decreases a.len() - i,
    {
        proof {
            assert(a@.subrange(0, i + 1).drop_last() =~= a@.subrange(0, i as int));
            reveal(Seq::filter);
        }
        if contains_position(b, a[i]) {
            r.push(a[i]);
        }
        i = i + 1;
    }
    proof {
        assert(a@.subrange(0, i as int) =~= a@);
    }
    r
}

/// The contracts that hold for both of two compatible declarations: the
/// positions both promise. A missing contract promises nothing.
pub fn intersection(
    contracts: &mut Vec<ParameterContracts>,
    a: Option<ParameterContractsId>,
    b: Option<ParameterContractsId>,
) -> (r: Result<Option<ParameterContractsId>, Error>)
    requires
        arena_valid(arena_view(old(contracts)@)),
    ensures
        arena_valid(arena_view(final(contracts)@)),
        final(contracts)@.len() >= old(contracts)@.len(),
        forall|i: int| 0 <= i < old(contracts)@.len() ==> arena_view(final(contracts)@)[i]
            == arena_view(old(contracts)@)[i],
        match (a, b) {
            (Some(x), Some(y)) => {
                let sets = arena_view(old(contracts)@);
                if id_valid(sets, x) && id_valid(sets, y) {
                    let meet = sets[x.index_spec()].to_set().intersect(sets[y.index_spec()].to_set());
                    &&& r matches Ok(Some(id)) ==> id_valid(arena_view(final(contracts)@), id)
                        && arena_view(final(contracts)@)[id.index_spec()].to_set() == meet
                    &&& r matches Ok(None) ==> meet.is_empty()
                } else {
                    x != y ==> r is Err
                }
            },
            _ => r == Ok::<Option<ParameterContractsId>, Error>(None),
        },
{
    let ghost sets = arena_view(contracts@);
    let (x, y) = match (a, b) {
        (Some(x), Some(y)) => (x, y),
        _ => {
            return Ok(None);
        },
    };
    if x == y {
        proof {
            if id_valid(sets, x) {
                assert(sets[x.index_spec()].to_set().intersect(sets[x.index_spec()].to_set()) =~= sets[x.index_spec()].to_set());
            }
        }
        return Ok(Some(x));
    }
    let xi = x.index();
    let yi = y.index();
    if xi >= contracts.len() || yi >= contracts.len() {
        return Err(Error::new(0, "invalid parameter-contract ID"));
    }
    let a_set = contracts[xi].no_escape.clone();
    let b_set = contracts[yi].no_escape.clone();
    let ghost sa = sets[xi as int];
    let ghost sb = sets[yi as int];
    assert(a_set@ == sa && b_set@ == sb);
    if is_subset(a_set.as_slice(), b_set.as_slice()) {
        proof {
            assert(sa.to_set().intersect(sb.to_set()) =~= sa.to_set()) by {
                assert forall|v: u32| sa.to_set().contains(v) implies sb.to_set().contains(v) by {
                    let k = choose|k: int| 0 <= k < sa.len() && sa[k] == v;
                    assert(sb.contains(sa[k]));
                }
            }
        }
        return Ok(Some(x));
    }
    if is_subset(b_set.as_slice(), a_set.as_slice()) {
        proof {
            assert(sa.to_set().intersect(sb.to_set()) =~= sb.to_set()) by {
                assert forall|v: u32| sb.to_set().contains(v) implies sa.to_set().contains(v) by {
                    let k = choose|k: int| 0 <= k < sb.len() && sb[k] == v;
                    assert(sa.contains(sb[k]));
                }
            }
        }
        return Ok(Some(y));
    }
    let values = common(a_set.as_slice(), b_set.as_slice());
    proof {
        let meet = sa.to_set().intersect(sb.to_set());
        assert(values@.to_set() =~= meet) by {
            assert forall|v: u32| values@.to_set().contains(v) <==> meet.contains(v) by {
                if values@.contains(v) {
                    sa.lemma_filter_contains_rev(|v: u32| sb.contains(v), v);
                    let i = choose|i: int| 0 <= i < values@.len() && values@[i] == v;
                    sa.lemma_filter_pred(|v: u32| sb.contains(v), i);
                }
                if sa.contains(v) && sb.contains(v) {
                    let i = choose|i: int| 0 <= i < sa.len() && sa[i] == v;
                    sa.lemma_filter_contains(|v: u32| sb.contains(v), i);
                }
            }
        }
        if values@.len() == 0 {
            assert(values@.to_set() =~= Set::<u32>::empty());
        }
    }
    intern(contracts, values.as_slice(), 0)
}

/// Whether `noescape` annotations, each a start offset and whether it was
/// written with arguments, apply to a parameter: they must take no arguments,
/// and only a pointer parameter receives the promise.
pub fn noescape_parameter(prefix: &[(usize, bool)], suffix: &[(usize, bool)], pointer: bool) -> (r: Result<bool, Error>)
    ensures
        r is Err <==> exists|k: int| 0 <= k < (prefix@ + suffix@).len() && (#[trigger] (prefix@ + suffix@)[k]).1,
        r matches Ok(b) ==> b == ((prefix@.len() > 0 || suffix@.len() > 0) && pointer),
{
    let ghost all = prefix@ + suffix@;
    let mut i: usize = 0;
    while i < prefix.len()
        invariant
            all == prefix@ + suffix@,
            i <= prefix@.len(),
            forall|k: int| 0 <= k < i ==> !(#[trigger] all[k]).1,
        decreases prefix.len() - i,
    {
        if prefix[i].1 {
            assert(all[i as int].1);
            return Err(Error::new(prefix[i].0, "noescape takes no arguments"));
        }
        i = i + 1;
    }
    let mut j: usize = 0;
    while j < suffix.len()
        invariant
            all == prefix@ + suffix@,
            j <= suffix@.len(),
            forall|k: int| 0 <= k < prefix@.len() + j ==> !(#[trigger] all[k]).1,
        decreases suffix.len() - j,
    {
        if suffix[j].1 {
            assert(all[prefix@.len() + j].1);
            return Err(Error::new(suffix[j].0, "noescape takes no arguments"));
        }
        j = j + 1;
    }
    Ok((prefix.len() > 0 || suffix.len() > 0) && pointer)
}

/// The contract set an identifier denotes in an arena.
pub fn parameter_contracts(contracts: &[ParameterContracts], id: ParameterContractsId) -> (r: Result<&ParameterContracts, Error>)
    ensures
        r is Ok <==> id.index_spec() < contracts@.len(),
        r matches Ok(c) ==> *c == contracts@[id.index_spec()],
{
    let i = id.index();
    if i < contracts.len() {
        Ok(&contracts[i])
    } else {
        Err(Error::new(0, "invalid parameter-contract ID"))
    }
}

/// The positions of the `noescape` parameters an optional identifier
/// denotes; none without one.
pub fn noescape_parameters(contracts: &[ParameterContracts], id: Option<ParameterContractsId>) -> (r: Result<&[u32], Error>)
    ensures
        r is Ok <==> (id matches Some(i) ==> i.index_spec() < contracts@.len()),
        r matches Ok(p) ==> p@ == match id {
            Some(i) => contracts@[i.index_spec()].no_escape@,
            None => Seq::<u32>::empty(),
        },
{
    match id {
        Some(id) => {
            let c = parameter_contracts(contracts, id)?;
            Ok(c.no_escape.as_slice())
        },
        None => {
            let empty: &[u32] = &[];
            assert(empty@ =~= Seq::<u32>::empty());
            Ok(empty)
        },
    }
}

/// Whether two optional identifiers denote the same `noescape` positions.
pub fn same_parameter_contracts(
    contracts: &[ParameterContracts],
    a: Option<ParameterContractsId>,
    b: Option<ParameterContractsId>,
) -> (r: Result<bool, Error>)
    ensures
        r is Ok <==> (a matches Some(i) ==> i.index_spec() < contracts@.len()) && (b matches Some(i) ==> i.index_spec()
            < contracts@.len()),
        r matches Ok(same) ==> same == (match a {
            Some(i) => contracts@[i.index_spec()].no_escape@,
            None => Seq::<u32>::empty(),
        } == match b {
            Some(i) => contracts@[i.index_spec()].no_escape@,
            None => Seq::<u32>::empty(),
        }),
{
    let left = noescape_parameters(contracts, a)?;
    let right = noescape_parameters(contracts, b)?;
    if left.len() != right.len() {
        return Ok(false);
    }
    let ghost la = left@;
    let ghost lb = right@;
    let mut i: usize = 0;
    while i < left.len()
        invariant
            left@ == la,
            right@ == lb,
            left@.len() == right@.len(),
            (a matches Some(x) ==> x.index_spec() < contracts@.len()),
            (b matches Some(x) ==> x.index_spec() < contracts@.len()),
            la == match a {
                Some(x) => contracts@[x.index_spec()].no_escape@,
                None => Seq::<u32>::empty(),
            },
            lb == match b {
                Some(x) => contracts@[x.index_spec()].no_escape@,
                None => Seq::<u32>::empty(),
            },
            i <= left@.len(),
            forall|j: int| 0 <= j < i ==> left@[j] == right@[j],
        decreases left.len() - i,
    {
        if left[i] != right[i] {
            assert(la[i as int] != lb[i as int]);
            return Ok(false);
        }
        i = i + 1;
    }
    assert(left@ =~= right@);
    Ok(true)
}


/// The most types one validation of a unit's contracts visits.
pub const CONTRACT_WORK_LIMIT: usize = 4000000;

/// Whether every `noescape` position lies within the parameters and names
/// a parameter of pointer type, typedefs resolved.
pub open spec fn contract_positions_valid(typedefs: Seq<(String, Type)>, parameters: Seq<Parameter>, positions: Seq<u32>) -> bool {
    forall|k: int| 0 <= k < positions.len() ==> pointer_parameter(typedefs, parameters, #[trigger] positions[k])
}

/// Whether position `p` lies within the parameters and names a parameter
/// of pointer type, typedefs resolved.
pub open spec fn pointer_parameter(typedefs: Seq<(String, Type)>, parameters: Seq<Parameter>, p: u32) -> bool {
    p < parameters.len() && match resolved_type(typedefs, parameters[p as int].ty) {
        Some(t) => t.kind is Pointer,
        None => false,
    }
}

/// Whether a function type's contracts are acceptable: only on a Clang
/// prototype, naming a set of the arena whose positions are valid.
pub open spec fn function_contracts_valid(
    typedefs: Seq<(String, Type)>,
    contracts: Seq<ParameterContracts>,
    clang: bool,
    f: FunctionType,
) -> bool {
    match f.parameter_contracts {
        None => true,
        Some(id) => clang && f.prototype && id.index_spec() < contracts.len() && contract_positions_valid(
            typedefs,
            f.parameters@,
            contracts[id.index_spec()].no_escape@,
        ),
    }
}

/// Validates the contracts of a type and of the types it owns, at nesting
/// depth `depth`, with `work` types visited before it: the work after it,
/// `None` where a contract is invalid, the nesting reaches 128 levels, or
/// the work exceeds the limit. Typedef and tag names are not followed.
pub open spec fn contract_type_work(
    typedefs: Seq<(String, Type)>,
    contracts: Seq<ParameterContracts>,
    clang: bool,
    ty: Type,
    depth: nat,
    work: nat,
) -> Option<nat>
    decreases 128 - depth, 1int, 0int,
{
    if depth >= 128 || work + 1 > CONTRACT_WORK_LIMIT {
        None
    } else {
        let w = (work + 1) as nat;
        match ty.kind {
            TypeKind::Pointer(t) => contract_type_work(typedefs, contracts, clang, *t, depth + 1, w),
            TypeKind::Atomic(t) => contract_type_work(typedefs, contracts, clang, *t, depth + 1, w),
            TypeKind::Vector { element, lanes: _, kind: _ } => contract_type_work(
                typedefs,
                contracts,
                clang,
                *element,
                depth + 1,
                w,
            ),
            TypeKind::Array { element, length: _ } => contract_type_work(typedefs, contracts, clang, *element, depth + 1, w),
            TypeKind::VariableArray { element, identity: _ } => contract_type_work(
                typedefs,
                contracts,
                clang,
                *element,
                depth + 1,
                w,
            ),
            TypeKind::Function(f) => if !function_contracts_valid(typedefs, contracts, clang, *f) {
                None
            } else {
                match contract_type_work(typedefs, contracts, clang, f.return_type, depth + 1, w) {
                    None => None,
                    Some(after) => contract_parameters_work(typedefs, contracts, clang, f.parameters@, 0, depth, after),
                }
            },
            _ => Some(w),
        }
    }
}

/// [`contract_type_work`] of the parameters of a function at `depth`, from
/// position `i`.
pub open spec fn contract_parameters_work(
    typedefs: Seq<(String, Type)>,
    contracts: Seq<ParameterContracts>,
    clang: bool,
    parameters: Seq<Parameter>,
    i: int,
    depth: nat,
    work: nat,
) -> Option<nat>
    decreases 128 - depth, 0int, parameters.len() - i,
{
    if depth >= 128 {
        None
    } else if i < 0 || i >= parameters.len() {
        Some(work)
    } else {
        match contract_type_work(typedefs, contracts, clang, parameters[i].ty, depth + 1, work) {
            None => None,
            Some(after) => contract_parameters_work(typedefs, contracts, clang, parameters, i + 1, depth, after),
        }
    }
}

/// [`contract_type_work`] of a list of types from position `i`.
pub open spec fn contract_types_work(
    typedefs: Seq<(String, Type)>,
    contracts: Seq<ParameterContracts>,
    clang: bool,
    types: Seq<Type>,
    i: int,
    work: nat,
) -> Option<nat>
    decreases types.len() - i,
{
    if i < 0 || i >= types.len() {
        Some(work)
    } else {
        match contract_type_work(typedefs, contracts, clang, types[i], 0, work) {
            None => None,
            Some(after) => contract_types_work(typedefs, contracts, clang, types, i + 1, after),
        }
    }
}

/// The types the typedefs stand for.
pub open spec fn typedef_types(typedefs: Seq<(String, Type)>) -> Seq<Type> {
    typedefs.map_values(|e: (String, Type)| e.1)
}

/// Whether a unit's contracts are valid: the table itself, then the types
/// of its declarations, its typedefs and its record fields, with one work
/// budget for all.
pub open spec fn unit_contracts_valid(
    clang: bool,
    contracts: Seq<ParameterContracts>,
    typedefs: Seq<(String, Type)>,
    declarations: Seq<Type>,
    fields: Seq<Type>,
) -> bool {
    &&& contract_table_valid(arena_view(contracts))
    &&& match contract_types_work(typedefs, contracts, clang, declarations, 0, 0) {
        None => false,
        Some(w1) => match contract_types_work(typedefs, contracts, clang, typedef_types(typedefs), 0, w1) {
            None => false,
            Some(w2) => contract_types_work(typedefs, contracts, clang, fields, 0, w2) is Some,
        },
    }
}

fn check_contract_positions(typedefs: &[(String, Type)], f: &FunctionType, positions: &[u32]) -> (r: Result<(), Error>)
    ensures
        r is Ok <==> contract_positions_valid(typedefs@, f.parameters@, positions@),
{
    let mut k: usize = 0;
    while k < positions.len()
        invariant
            k <= positions@.len(),
            forall|j: int| 0 <= j < k ==> pointer_parameter(typedefs@, f.parameters@, #[trigger] positions@[j]),
        decreases positions.len() - k,
    {
        let position = positions[k] as usize;
        if position >= f.parameters.len() {
            return Err(Error::new(0, "parameter-contract position is outside the function signature"));
        }
        let resolved = match resolve(typedefs, &f.parameters[position].ty) {
            Ok(t) => t,
            Err(e) => {
                return Err(e);
            },
        };
        match &resolved.kind {
            TypeKind::Pointer(_) => {},
            _ => {
                return Err(Error::new(0, "noescape parameter contract requires a pointer parameter"));
            },
        }
        k = k + 1;
    }
    Ok(())
}

fn validate_contract_type(
    clang: bool,
    contracts: &[ParameterContracts],
    typedefs: &[(String, Type)],
    ty: &Type,
    depth: usize,
    work: &mut usize,
) -> (r: Result<(), Error>)
    requires
        *old(work) <= CONTRACT_WORK_LIMIT,
    ensures
        *final(work) <= CONTRACT_WORK_LIMIT,
        match r {
            Ok(()) => contract_type_work(typedefs@, contracts@, clang, *ty, depth as nat, *old(work) as nat) == Some(
                *final(work) as nat,
            ),
            Err(_) => contract_type_work(typedefs@, contracts@, clang, *ty, depth as nat, *old(work) as nat) is None,
        },
    decreases 128 - depth, 1int,
{
    if depth >= 128 || *work >= CONTRACT_WORK_LIMIT {
        return Err(Error::new(0, "parameter-contract type nesting or work limit exceeded"));
    }
    *work = *work + 1;
    match &ty.kind {
        TypeKind::Pointer(t) => validate_contract_type(clang, contracts, typedefs, &**t, depth + 1, work),
        TypeKind::Atomic(t) => validate_contract_type(clang, contracts, typedefs, &**t, depth + 1, work),
        TypeKind::Vector { element, .. } => validate_contract_type(clang, contracts, typedefs, &**element, depth + 1, work),
        TypeKind::Array { element, .. } => validate_contract_type(clang, contracts, typedefs, &**element, depth + 1, work),
        TypeKind::VariableArray { element, .. } => validate_contract_type(
            clang,
            contracts,
            typedefs,
            &**element,
            depth + 1,
            work,
        ),
        TypeKind::Function(f) => {
            match f.parameter_contracts {
                Some(id) => {
                    if !clang || !f.prototype {
                        return Err(Error::new(0, "parameter contracts require a Clang function prototype"));
                    }
                    let set = match parameter_contracts(contracts, id) {
                        Ok(c) => c,
                        Err(e) => {
                            return Err(e);
                        },
                    };
                    match check_contract_positions(typedefs, &**f, set.no_escape.as_slice()) {
                        Ok(()) => {},
                        Err(e) => {
                            return Err(e);
                        },
                    }
                },
                None => {},
            }
            match validate_contract_type(clang, contracts, typedefs, &f.return_type, depth + 1, work) {
                Ok(()) => {},
                Err(e) => {
                    return Err(e);
                },
            }
            let ghost after = *work as nat;
            let mut i: usize = 0;
            while i < f.parameters.len()
                invariant
                    depth < 128,
                    *work <= CONTRACT_WORK_LIMIT,
                    i <= f.parameters@.len(),
                    contract_type_work(typedefs@, contracts@, clang, *ty, depth as nat, *old(work) as nat)
                        == contract_parameters_work(typedefs@, contracts@, clang, f.parameters@, 0, depth as nat, after),
                    contract_parameters_work(typedefs@, contracts@, clang, f.parameters@, 0, depth as nat, after)
                        == contract_parameters_work(
                        typedefs@,
                        contracts@,
                        clang,
                        f.parameters@,
                        i as int,
                        depth as nat,
                        *work as nat,
                    ),
                decreases f.parameters.len() - i,
            {
                match validate_contract_type(clang, contracts, typedefs, &f.parameters[i].ty, depth + 1, work) {
                    Ok(()) => {},
                    Err(e) => {
                        return Err(e);
                    },
                }
                i = i + 1;
            }
            Ok(())
        },
        _ => Ok(()),
    }
}

fn validate_contract_types(
    clang: bool,
    contracts: &[ParameterContracts],
    typedefs: &[(String, Type)],
    types: &[Type],
    work: &mut usize,
) -> (r: Result<(), Error>)
    requires
        *old(work) <= CONTRACT_WORK_LIMIT,
    ensures
        *final(work) <= CONTRACT_WORK_LIMIT,
        match r {
            Ok(()) => contract_types_work(typedefs@, contracts@, clang, types@, 0, *old(work) as nat) == Some(
                *final(work) as nat,
            ),
            Err(_) => contract_types_work(typedefs@, contracts@, clang, types@, 0, *old(work) as nat) is None,
        },
{
    let mut i: usize = 0;
    while i < types.len()
        invariant
            *work <= CONTRACT_WORK_LIMIT,
            i <= types@.len(),
            contract_types_work(typedefs@, contracts@, clang, types@, 0, *old(work) as nat) == contract_types_work(
                typedefs@,
                contracts@,
                clang,
                types@,
                i as int,
                *work as nat,
            ),
        decreases types.len() - i,
    {
        match validate_contract_type(clang, contracts, typedefs, &types[i], 0, work) {
            Ok(()) => {},
            Err(e) => {
                return Err(e);
            },
        }
        i = i + 1;
    }
    Ok(())
}

fn validate_typedef_types(
    clang: bool,
    contracts: &[ParameterContracts],
    typedefs: &[(String, Type)],
    work: &mut usize,
) -> (r: Result<(), Error>)
    requires
        *old(work) <= CONTRACT_WORK_LIMIT,
    ensures
        *final(work) <= CONTRACT_WORK_LIMIT,
        match r {
            Ok(()) => contract_types_work(typedefs@, contracts@, clang, typedef_types(typedefs@), 0, *old(work) as nat)
                == Some(*final(work) as nat),
            Err(_) => contract_types_work(typedefs@, contracts@, clang, typedef_types(typedefs@), 0, *old(work) as nat) is None,
        },
{
    let ghost types = typedef_types(typedefs@);
    let mut i: usize = 0;
    while i < typedefs.len()
        invariant
            types == typedef_types(typedefs@),
            *work <= CONTRACT_WORK_LIMIT,
            i <= typedefs@.len(),
            contract_types_work(typedefs@, contracts@, clang, types, 0, *old(work) as nat) == contract_types_work(
                typedefs@,
                contracts@,
                clang,
                types,
                i as int,
                *work as nat,
            ),
        decreases typedefs.len() - i,
    {
        assert(types[i as int] == typedefs@[i as int].1);
        match validate_contract_type(clang, contracts, typedefs, &typedefs[i].1, 0, work) {
            Ok(()) => {},
            Err(e) => {
                return Err(e);
            },
        }
        i = i + 1;
    }
    Ok(())
}

/// Validates caller-built contract tables and every structurally owned
/// type: the types of a unit's declarations, its typedef definitions and
/// its record fields. Contracts belong to Clang prototypes; each position
/// lies within the signature and names a pointer parameter. Typedef and tag
/// names are visited through their owning tables, not followed; nesting
/// stops at 128 levels and the whole walk at four million types.
pub fn validate_parameter_contracts(
    clang: bool,
    contracts: &[ParameterContracts],
    typedefs: &[(String, Type)],
    declarations: &[Type],
    fields: &[Type],
) -> (r: Result<(), Error>)
    ensures
        r is Ok <==> unit_contracts_valid(clang, contracts@, typedefs@, declarations@, fields@),
{
    match validate_contract_table(contracts) {
        Ok(()) => {},
        Err(e) => {
            return Err(e);
        },
    }
    let mut work: usize = 0;
    match validate_contract_types(clang, contracts, typedefs, declarations, &mut work) {
        Ok(()) => {},
        Err(e) => {
            return Err(e);
        },
    }
    match validate_typedef_types(clang, contracts, typedefs, &mut work) {
        Ok(()) => {},
        Err(e) => {
            return Err(e);
        },
    }
    validate_contract_types(clang, contracts, typedefs, fields, &mut work)
}

} // verus!
