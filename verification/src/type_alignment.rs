//! Compact alignment snapshots and the type ancestry used by Clang's common-type rule.

use crate::arith::{is_power_of_two_upto, lemma_pow2_injective, lemma_u32_shl_one, power_of_two_exponent};
use crate::error::Error;
use vstd::arithmetic::power2::*;
use vstd::bits::lemma_u32_pow2_no_overflow;
use vstd::prelude::*;

verus! {

/// Largest number of alignment origins one translation unit may own.
pub const MAX_ORIGINS: usize = 65536;

/// An owner-local index into a translation unit's alignment-origin table.
#[derive(Clone, Copy, Debug, PartialEq, Eq, Hash)]
pub struct AlignmentOriginId(u32);

impl AlignmentOriginId {
    #[verifier::type_invariant]
    closed spec fn id_inv(self) -> bool {
        0 < self.0 < 0x800_0000
    }

    /// The zero-based table index this identifier denotes.
    pub closed spec fn index_spec(self) -> int {
        self.0 - 1
    }

    /// Constructs an index. The owning translation unit validates its existence.
    pub fn new(index: usize) -> (r: Option<Self>)
        ensures
            r is Some <==> index < 0x7ff_ffff,
            r matches Some(id) ==> id.index_spec() == index,
    {
        if index < 0x7ff_ffff {
            Some(AlignmentOriginId((index + 1) as u32))
        } else {
            None
        }
    }

    /// Returns the zero-based table index.
    pub fn index(self) -> (r: usize)
        ensures
            r == self.index_spec(),
    {
        proof {
            use_type_invariant(&self);
        }
        (self.0 - 1) as usize
    }

    /// Compares two identifiers by value.
    pub fn same(self, other: Self) -> (r: bool)
        ensures
            r == (self == other),
            r == (self.index_spec() == other.index_spec()),
    {
        self.0 == other.0
    }
}

/// A typedef alignment snapshot, with optional owner-local type ancestry.
///
/// The low five bits hold the exponent plus one (zero: no alignment); the
/// remaining bits hold the origin identifier, zero when there is none.
#[derive(Clone, Copy, Debug, Default, PartialEq, Eq, Hash)]
pub struct TypeAlignment(u32);

impl TypeAlignment {
    /// The explicit alignment in bytes, if any.
    pub closed spec fn bytes_spec(self) -> Option<u32> {
        let exponent = self.0 % 32;
        if exponent == 0 {
            None
        } else {
            Some(pow2((exponent - 1) as nat) as u32)
        }
    }

    /// The retained ancestry identifier, if any.
    pub closed spec fn origin_spec(self) -> Option<AlignmentOriginId> {
        if self.0 / 32 == 0 {
            None
        } else {
            Some(AlignmentOriginId((self.0 / 32) as u32))
        }
    }

    /// The snapshot with neither an alignment nor an origin.
    pub fn none() -> (r: Self)
        ensures
            r.bytes_spec() is None,
            r.origin_spec() is None,
    {
        TypeAlignment(0)
    }

    /// Constructs a byte alignment without claiming a typedef identity.
    pub fn new(bytes: u32) -> (r: Option<Self>)
        ensures
            r is Some <==> is_power_of_two_upto(bytes as int, 28),
            r matches Some(a) ==> a.bytes_spec() == Some(bytes) && a.origin_spec() is None,
    {
        match power_of_two_exponent(bytes, 28) {
            Some(e) => {
                let r = TypeAlignment(e + 1);
                assert(r.0 % 32 == e + 1);
                assert(r.0 / 32 == 0);
                Some(r)
            },
            None => None,
        }
    }

    /// Converts an optional byte count, rejecting unsupported values.
    pub fn from_bytes(bytes: Option<u32>) -> (r: Result<Self, Error>)
        ensures
            match bytes {
                None => r matches Ok(a) && a.bytes_spec() is None && a.origin_spec() is None,
                Some(b) => {
                    &&& r is Ok <==> is_power_of_two_upto(b as int, 28)
                    &&& r matches Ok(a) ==> a.bytes_spec() == Some(b) && a.origin_spec() is None
                },
            },
            r matches Err(e) ==> e.message@ == "typedef alignment must be a supported power of two"@,
    {
        match bytes {
            None => Ok(TypeAlignment::none()),
            Some(b) => match TypeAlignment::new(b) {
                Some(a) => Ok(a),
                None => Err(Error::new(0, "typedef alignment must be a supported power of two")),
            },
        }
    }

    /// The optional explicit alignment in bytes.
    pub fn bytes(self) -> (r: Option<u32>)
        ensures
            r == self.bytes_spec(),
    {
        let raw = self.0;
        let exponent = raw & 31;
        assert(raw & 31 == raw % 32) by (bit_vector);
        if exponent == 0 {
            None
        } else {
            proof {
                lemma_u32_shl_one((exponent - 1) as u32);
            }
            Some(1u32 << (exponent - 1))
        }
    }

    /// The optional ancestry identifier.
    pub fn origin(self) -> (r: Option<AlignmentOriginId>)
        ensures
            r == self.origin_spec(),
    {
        let whole = self.0;
        let raw = whole >> 5;
        assert(whole >> 5 == whole / 32) by (bit_vector);
        assert(whole / 32 < 0x800_0000);
        if raw == 0 {
            None
        } else {
            Some(AlignmentOriginId(raw))
        }
    }

    /// Attaches an ancestry identifier while preserving the byte value.
    pub fn with_origin(self, origin: AlignmentOriginId) -> (r: Self)
        ensures
            r.bytes_spec() == self.bytes_spec(),
            r.origin_spec() == Some(origin),
    {
        proof {
            use_type_invariant(&origin);
        }
        let id = origin.0;
        let old = self.0;
        let raw = (old & 31) | (id << 5);
        assert(((old & 31) | (id << 5)) % 32 == old % 32) by (bit_vector)
            requires
                id < 0x800_0000,
        ;
        assert(((old & 31) | (id << 5)) / 32 == id) by (bit_vector)
            requires
                id < 0x800_0000,
        ;
        TypeAlignment(raw)
    }

    /// Whether this snapshot carries an alignment or an origin.
    pub fn has_metadata(self) -> (r: bool)
        ensures
            r == (self.bytes_spec() is Some || self.origin_spec() is Some),
    {
        self.0 != 0
    }

    /// Compares two snapshots by value.
    pub fn same(self, other: Self) -> (r: bool)
        ensures
            r == (self.bytes_spec() == other.bytes_spec() && self.origin_spec()
                == other.origin_spec()),
    {
        proof {
            self.lemma_determined(other);
        }
        self.0 == other.0
    }

    /// A snapshot is determined by its alignment and origin.
    pub proof fn lemma_determined(self, other: Self)
        ensures
            (self.bytes_spec() == other.bytes_spec() && self.origin_spec() == other.origin_spec())
                <==> self == other,
    {
        let (a, b) = (self.0, other.0);
        if self.bytes_spec() == other.bytes_spec() && self.origin_spec() == other.origin_spec() {
            if a % 32 != 0 && b % 32 != 0 {
                lemma_u32_pow2_no_overflow((a % 32 - 1) as nat);
                lemma_u32_pow2_no_overflow((b % 32 - 1) as nat);
                lemma_pow2_injective((a % 32 - 1) as nat, (b % 32 - 1) as nat);
            }
            assert(a % 32 == b % 32);
            assert(a / 32 == b / 32);
            assert(a == 32 * (a / 32) + a % 32);
            assert(b == 32 * (b / 32) + b % 32);
        }
    }
}

/// A preserved layer of type sugar that can affect an expression's alignment.
#[derive(Clone, Copy, Debug, PartialEq, Eq, Hash)]
#[non_exhaustive]
pub enum AlignmentOriginKind {
    /// Typedef declarations share a canonical ID while retaining separate values.
    Typedef { canonical: AlignmentOriginId, previous: Option<AlignmentOriginId> },
    TypeOfType,
    /// Distinct written typeof expressions do not acquire a shared identity.
    TypeOfExpression,
}

/// Immutable ancestry used by Clang's common-sugared-type conversion rule.
#[derive(Clone, Copy, Debug, PartialEq, Eq, Hash)]
pub struct AlignmentOrigin {
    pub kind: AlignmentOriginKind,
    pub parent: Option<AlignmentOriginId>,
    pub alignment: Option<u32>,
}

/// Whether an identifier names a row of the table.
pub open spec fn origin_valid(origins: Seq<AlignmentOrigin>, id: AlignmentOriginId) -> bool {
    0 <= id.index_spec() < origins.len()
}

/// An optional alignment that `TypeAlignment::from_bytes` accepts.
pub open spec fn bytes_supported(bytes: Option<u32>) -> bool {
    bytes matches Some(b) ==> is_power_of_two_upto(b as int, 28)
}

/// What row validation accepts of the row at `index`: a supported alignment,
/// a parent before it, and typedef links to earlier rows that share the
/// canonical first declaration, which links to itself.
pub open spec fn origin_row_valid(origins: Seq<AlignmentOrigin>, index: int) -> bool {
    let origin = origins[index];
    &&& bytes_supported(origin.alignment)
    &&& origin.parent matches Some(p) ==> p.index_spec() < index
    &&& origin.kind matches AlignmentOriginKind::Typedef { canonical, previous } ==> {
        &&& canonical.index_spec() <= index
        &&& previous matches Some(p) ==> p.index_spec() < index
        &&& origins[canonical.index_spec()].kind == (AlignmentOriginKind::Typedef {
            canonical,
            previous: None,
        })
        &&& previous matches Some(p) ==> (origins[p.index_spec()].kind matches AlignmentOriginKind::Typedef {
            canonical: first,
            ..
        } && first == canonical)
    }
}

/// What row validation accepts of a whole table.
pub open spec fn origin_rows_valid(origins: Seq<AlignmentOrigin>) -> bool {
    &&& origins.len() <= MAX_ORIGINS
    &&& forall|index: int| 0 <= index < origins.len() ==> origin_row_valid(origins, index)
}

/// The row an identifier names.
pub fn alignment_origin(origins: &[AlignmentOrigin], id: AlignmentOriginId) -> (r: Result<AlignmentOrigin, Error>)
    ensures
        r is Ok <==> origin_valid(origins@, id),
        r matches Ok(o) ==> o == origins@[id.index_spec()],
{
    let index = id.index();
    if index >= origins.len() {
        return Err(Error::new(0, "invalid type-alignment origin ID"));
    }
    Ok(origins[index])
}

fn same_origin_id(a: Option<AlignmentOriginId>, b: Option<AlignmentOriginId>) -> (r: bool)
    ensures
        r == (a == b),
{
    match (a, b) {
        (Some(x), Some(y)) => x.same(y),
        (None, None) => true,
        _ => false,
    }
}

/// Checks one row of the ancestry table.
fn check_origin_row(origins: &[AlignmentOrigin], index: usize) -> (r: Result<(), Error>)
    requires
        index < origins@.len(),
    ensures
        r is Ok <==> origin_row_valid(origins@, index as int),
{
    let origin = origins[index];
    TypeAlignment::from_bytes(origin.alignment)?;
    if let Some(parent) = origin.parent {
        if parent.index() >= index {
            return Err(Error::new(0, "type-alignment parent must precede its child"));
        }
    }
    if let AlignmentOriginKind::Typedef { canonical, previous } = origin.kind {
        if canonical.index() > index {
            return Err(Error::new(0, "invalid typedef alignment redeclaration links"));
        }
        if let Some(p) = previous {
            if p.index() >= index {
                return Err(Error::new(0, "invalid typedef alignment redeclaration links"));
            }
        }
        let first = alignment_origin(origins, canonical)?;
        let canonical_ok = match first.kind {
            AlignmentOriginKind::Typedef { canonical: c, previous: None } => c.same(canonical),
            _ => false,
        };
        if !canonical_ok {
            return Err(Error::new(0, "typedef alignment canonical ID must name its first declaration"));
        }
        if let Some(p) = previous {
            let earlier = alignment_origin(origins, p)?;
            let shared = match earlier.kind {
                AlignmentOriginKind::Typedef { canonical: c, .. } => c.same(canonical),
                _ => false,
            };
            if !shared {
                return Err(Error::new(0, "typedef alignment redeclarations must share a canonical ID"));
            }
        }
    }
    Ok(())
}

/// Validates the sparse ancestry table of a caller-built unit.
pub fn validate_alignment_origin_rows(origins: &[AlignmentOrigin]) -> (r: Result<(), Error>)
    ensures
        r is Ok <==> origin_rows_valid(origins@),
{
    if origins.len() > MAX_ORIGINS {
        return Err(Error::new(0, "type-alignment origins exceed the 65536-entry limit"));
    }
    let mut index: usize = 0;
    while index < origins.len()
        invariant
            origins@.len() <= MAX_ORIGINS,
            index <= origins@.len(),
            forall|k: int| 0 <= k < index ==> origin_row_valid(origins@, k),
        decreases origins.len() - index,
    {
        match check_origin_row(origins, index) {
            Ok(()) => {},
            Err(e) => {
                assert(!origin_row_valid(origins@, index as int));
                return Err(e);
            },
        }
        index = index + 1;
    }
    Ok(())
}

/// A snapshot with an origin must carry its origin's alignment.
pub open spec fn snapshot_valid(origins: Seq<AlignmentOrigin>, value: TypeAlignment) -> bool {
    value.origin_spec() matches Some(id) ==> origin_valid(origins, id)
        && origins[id.index_spec()].alignment == value.bytes_spec()
}

/// Checks that a snapshot agrees with its origin.
pub fn validate_alignment_snapshot(origins: &[AlignmentOrigin], value: TypeAlignment) -> (r: Result<(), Error>)
    ensures
        r is Ok <==> snapshot_valid(origins@, value),
{
    if let Some(origin) = value.origin() {
        let row = alignment_origin(origins, origin)?;
        let same = match (row.alignment, value.bytes()) {
            (Some(x), Some(y)) => x == y,
            (None, None) => true,
            _ => false,
        };
        if !same {
            return Err(Error::new(0, "type-alignment snapshot disagrees with its origin"));
        }
    }
    Ok(())
}

/// Appends a row, returning its identifier.
pub fn push_alignment_origin(origins: &mut Vec<AlignmentOrigin>, origin: AlignmentOrigin, offset: usize) -> (r: Result<AlignmentOriginId, Error>)
    ensures
        r is Ok <==> old(origins)@.len() < MAX_ORIGINS,
        r matches Ok(id) ==> id.index_spec() == old(origins)@.len() && final(origins)@ == old(origins)@.push(origin),
        r is Err ==> final(origins)@ == old(origins)@,
{
    if origins.len() >= MAX_ORIGINS {
        return Err(Error::new(offset, "type-alignment origins exceed the 65536-entry limit"));
    }
    let id = match AlignmentOriginId::new(origins.len()) {
        Some(id) => id,
        None => {
            return Err(Error::new(offset, "type-alignment origin ID range exhausted"));
        },
    };
    origins.push(origin);
    Ok(id)
}

/// The ancestry of an origin: the origin, its parent, and so on to a root,
/// at most `budget` rows; None when a row is missing or the chain is longer.
pub open spec fn origin_path(origins: Seq<AlignmentOrigin>, id: Option<AlignmentOriginId>, budget: nat) -> Option<Seq<AlignmentOriginId>>
    decreases budget,
{
    match id {
        None => Some(Seq::empty()),
        Some(c) => if budget == 0 || !origin_valid(origins, c) {
            None
        } else {
            match origin_path(origins, origins[c.index_spec()].parent, (budget - 1) as nat) {
                Some(rest) => Some(seq![c] + rest),
                None => None,
            }
        },
    }
}

/// The larger of two optional alignments; no alignment is the smallest.
pub open spec fn max_alignment(x: Option<u32>, y: Option<u32>) -> Option<u32> {
    match (x, y) {
        (Some(a), Some(b)) => Some(if a >= b { a } else { b }),
        (Some(a), None) => Some(a),
        (None, b) => b,
    }
}

/// The state of the common-type walk: the origin table, the cache of
/// synthesized common rows, and the alignment and origin found so far.
pub struct CommonWalk {
    pub origins: Seq<AlignmentOrigin>,
    pub cache: Seq<(AlignmentOrigin, AlignmentOriginId)>,
    pub bytes: Option<u32>,
    pub origin: Option<AlignmentOriginId>,
}

/// The first cached identifier for a row, searching from `j`.
pub open spec fn cache_find(cache: Seq<(AlignmentOrigin, AlignmentOriginId)>, origin: AlignmentOrigin, j: int) -> Option<AlignmentOriginId>
    decreases cache.len() - j,
{
    if j < 0 || j >= cache.len() {
        None
    } else if cache[j].0 == origin {
        Some(cache[j].1)
    } else {
        cache_find(cache, origin, j + 1)
    }
}

/// The shared layer of two different ancestry rows, if they have one: the
/// canonical typedef with the larger alignment, or a `typeof(type)` layer
/// keeping the alignment so far.
pub open spec fn shared_layer(x: AlignmentOrigin, y: AlignmentOrigin, bytes: Option<u32>) -> Option<(AlignmentOriginKind, Option<u32>)> {
    match (x.kind, y.kind) {
        (
            AlignmentOriginKind::Typedef { canonical: cx, .. },
            AlignmentOriginKind::Typedef { canonical: cy, .. },
        ) => if cx == cy {
            Some((AlignmentOriginKind::Typedef { canonical: cx, previous: None }, max_alignment(x.alignment, y.alignment)))
        } else {
            None
        },
        (AlignmentOriginKind::TypeOfType, AlignmentOriginKind::TypeOfType) => Some((AlignmentOriginKind::TypeOfType, bytes)),
        _ => None,
    }
}

/// One step of the walk from the roots: the same row is kept; two rows with
/// a shared layer get a (cached) synthesized row; otherwise the walk stops.
/// The outer None is a failure, the inner None a stop.
pub open spec fn common_step(w: CommonWalk, a: AlignmentOriginId, b: AlignmentOriginId) -> Option<Option<CommonWalk>> {
    let x = w.origins[a.index_spec()];
    let y = w.origins[b.index_spec()];
    if a == b {
        if bytes_supported(x.alignment) {
            Some(Some(CommonWalk { bytes: x.alignment, origin: Some(a), ..w }))
        } else {
            None
        }
    } else {
        match shared_layer(x, y, w.bytes) {
            None => Some(None),
            Some((kind, bytes)) => {
                let row = AlignmentOrigin { kind, parent: w.origin, alignment: bytes };
                match cache_find(w.cache, row, 0) {
                    Some(id) => if bytes_supported(bytes) {
                        Some(Some(CommonWalk { bytes, origin: Some(id), ..w }))
                    } else {
                        None
                    },
                    None => if w.origins.len() >= MAX_ORIGINS || !bytes_supported(bytes) {
                        None
                    } else {
                        let id = choose|id: AlignmentOriginId| id.index_spec() == w.origins.len();
                        Some(Some(CommonWalk {
                            origins: w.origins.push(row),
                            cache: w.cache.push((row, id)),
                            bytes,
                            origin: Some(id),
                        }))
                    },
                }
            },
        }
    }
}

/// The walk over two root-first ancestries from position `k`.
pub open spec fn common_walk(w: CommonWalk, left: Seq<AlignmentOriginId>, right: Seq<AlignmentOriginId>, k: int) -> Option<CommonWalk>
    decreases (if k < left.len() && k < right.len() { left.len() - k } else { 0 }),
{
    if k < 0 || k >= left.len() || k >= right.len() {
        Some(w)
    } else {
        match common_step(w, left[k], right[k]) {
            None => None,
            Some(None) => Some(w),
            Some(Some(next)) => common_walk(next, left, right, k + 1),
        }
    }
}

/// The ancestry of an origin, nearest row first.
fn ancestry(origins: &[AlignmentOrigin], id: Option<AlignmentOriginId>) -> (r: Result<Vec<AlignmentOriginId>, Error>)
    ensures
        match r {
            Ok(path) => origin_path(origins@, id, 128) == Some(path@),
            Err(_) => origin_path(origins@, id, 128) is None,
        },
{
    let mut path: Vec<AlignmentOriginId> = Vec::new();
    let mut current = id;
    while current.is_some()
        invariant
            path@.len() <= 128,
            origin_path(origins@, id, 128) == match origin_path(origins@, current, (128 - path@.len()) as nat) {
                Some(rest) => Some(path@ + rest),
                None => None::<Seq<AlignmentOriginId>>,
            },
        decreases 128 - path@.len(),
    {
        let c = current.unwrap();
        if path.len() == 128 {
            return Err(Error::new(0, "type-alignment ancestry exceeds 128 levels"));
        }
        let row = match alignment_origin(origins, c) {
            Ok(row) => row,
            Err(e) => {
                return Err(e);
            },
        };
        let ghost before = path@;
        path.push(c);
        proof {
            let rest = origin_path(origins@, row.parent, (128 - path@.len()) as nat);
            if let Some(tail) = rest {
                assert(before + (seq![c] + tail) =~= path@ + tail);
            }
        }
        current = row.parent;
    }
    proof {
        assert(path@ + Seq::<AlignmentOriginId>::empty() =~= path@);
    }
    Ok(path)
}

fn same_kind(x: AlignmentOriginKind, y: AlignmentOriginKind) -> (r: bool)
    ensures
        r == (x == y),
{
    match (x, y) {
        (
            AlignmentOriginKind::Typedef { canonical: a, previous: p },
            AlignmentOriginKind::Typedef { canonical: b, previous: q },
        ) => a.same(b) && same_origin_id(p, q),
        (AlignmentOriginKind::TypeOfType, AlignmentOriginKind::TypeOfType) => true,
        (AlignmentOriginKind::TypeOfExpression, AlignmentOriginKind::TypeOfExpression) => true,
        _ => false,
    }
}

fn same_row(x: AlignmentOrigin, y: AlignmentOrigin) -> (r: bool)
    ensures
        r == (x == y),
{
    same_kind(x.kind, y.kind) && same_origin_id(x.parent, y.parent) && match (x.alignment, y.alignment) {
        (Some(a), Some(b)) => a == b,
        (None, None) => true,
        _ => false,
    }
}

fn cache_lookup(cache: &[(AlignmentOrigin, AlignmentOriginId)], row: AlignmentOrigin) -> (r: Option<AlignmentOriginId>)
    ensures
        r == cache_find(cache@, row, 0),
{
    let mut j: usize = 0;
    while j < cache.len()
        invariant
            j <= cache@.len(),
            cache_find(cache@, row, 0) == cache_find(cache@, row, j as int),
        decreases cache.len() - j,
    {
        if same_row(cache[j].0, row) {
            return Some(cache[j].1);
        }
        j = j + 1;
    }
    None
}

/// Identifiers with the same index are the same identifier.
proof fn lemma_id_index(a: AlignmentOriginId, b: AlignmentOriginId)
    requires
        a.index_spec() == b.index_spec(),
    ensures
        a == b,
{
}

/// Clang's common type of two aligned integer operands: their ancestries are
/// walked from the roots while they agree, and each layer the two share
/// becomes a synthesized row (shared through `cache`); the alignment of the
/// last shared layer is the result's.
pub fn common_type_alignment(
    origins: &mut Vec<AlignmentOrigin>,
    cache: &mut Vec<(AlignmentOrigin, AlignmentOriginId)>,
    a: TypeAlignment,
    b: TypeAlignment,
    offset: usize,
) -> (r: Result<TypeAlignment, Error>)
    ensures
        final(origins)@.len() >= old(origins)@.len(),
        final(origins)@.subrange(0, old(origins)@.len() as int) == old(origins)@,
        ({
            let o = old(origins)@;
            let snapshots_ok = snapshot_valid(o, a) && snapshot_valid(o, b) && !(a.bytes_spec() is Some
                && a.origin_spec() is None) && !(b.bytes_spec() is Some && b.origin_spec() is None);
            let same = a.bytes_spec() == b.bytes_spec() && a.origin_spec() == b.origin_spec();
            let pa = origin_path(o, a.origin_spec(), 128);
            let pb = origin_path(o, b.origin_spec(), 128);
            let walk = if pa is Some && pb is Some {
                common_walk(
                    CommonWalk { origins: o, cache: old(cache)@, bytes: None, origin: None },
                    pa.unwrap().reverse(),
                    pb.unwrap().reverse(),
                    0,
                )
            } else {
                None::<CommonWalk>
            };
            &&& r is Ok <==> snapshots_ok && (same || walk is Some)
            &&& r matches Ok(t) ==> if same {
                t == a && final(origins)@ == o && final(cache)@ == old(cache)@
            } else {
                &&& t.bytes_spec() == walk.unwrap().bytes
                &&& t.origin_spec() == walk.unwrap().origin
                &&& final(origins)@ == walk.unwrap().origins
                &&& final(cache)@ == walk.unwrap().cache
            }
        }),
{
    let ghost o = origins@;
    validate_alignment_snapshot(origins.as_slice(), a)?;
    validate_alignment_snapshot(origins.as_slice(), b)?;
    if a.bytes().is_some() && a.origin().is_none() {
        return Err(Error::new(offset, "aligned arithmetic requires retained typedef ancestry"));
    }
    if b.bytes().is_some() && b.origin().is_none() {
        return Err(Error::new(offset, "aligned arithmetic requires retained typedef ancestry"));
    }
    if a.same(b) {
        proof {
            a.lemma_determined(b);
        }
        return Ok(a);
    }
    let left = ancestry(origins.as_slice(), a.origin())?;
    let right = ancestry(origins.as_slice(), b.origin())?;
    let ghost l = left@.reverse();
    let ghost rr = right@.reverse();
    let mut result = TypeAlignment::none();
    let mut k: usize = 0;
    let n = if left.len() < right.len() { left.len() } else { right.len() };
    proof {
        lemma_path_valid(o, a.origin_spec(), 128);
        lemma_path_valid(o, b.origin_spec(), 128);
    }
    while k < n
        invariant
            o == old(origins)@,
            origin_path(o, a.origin_spec(), 128) == Some(left@),
            origin_path(o, b.origin_spec(), 128) == Some(right@),
            snapshot_valid(o, a) && snapshot_valid(o, b),
            !(a.bytes_spec() is Some && a.origin_spec() is None),
            !(b.bytes_spec() is Some && b.origin_spec() is None),
            !(a.bytes_spec() == b.bytes_spec() && a.origin_spec() == b.origin_spec()),
            o.len() <= origins@.len(),
            origins@.subrange(0, o.len() as int) == o,
            l == left@.reverse(),
            rr == right@.reverse(),
            n <= left@.len() && n <= right@.len(),
            n == left@.len() || n == right@.len(),
            k <= n,
            forall|i: int| 0 <= i < left@.len() ==> origin_valid(o, #[trigger] left@[i]),
            forall|i: int| 0 <= i < right@.len() ==> origin_valid(o, #[trigger] right@[i]),
            common_walk(CommonWalk { origins: o, cache: old(cache)@, bytes: None, origin: None }, l, rr, 0)
                == common_walk(CommonWalk { origins: origins@, cache: cache@, bytes: result.bytes_spec(), origin: result.origin_spec() }, l, rr, k as int),
        ensures
            common_walk(CommonWalk { origins: o, cache: old(cache)@, bytes: None, origin: None }, l, rr, 0)
                == Some(CommonWalk { origins: origins@, cache: cache@, bytes: result.bytes_spec(), origin: result.origin_spec() }),
        decreases n - k,
    {
        let ai = left[left.len() - 1 - k];
        let bi = right[right.len() - 1 - k];
        assert(ai == l[k as int] && bi == rr[k as int]);
        let ghost w = CommonWalk { origins: origins@, cache: cache@, bytes: result.bytes_spec(), origin: result.origin_spec() };
        assert(origins@[ai.index_spec()] == o[ai.index_spec()]);
        assert(origins@[bi.index_spec()] == o[bi.index_spec()]);
        let x = origins[ai.index()];
        let y = origins[bi.index()];
        if ai.same(bi) {
            result = TypeAlignment::from_bytes(x.alignment)?.with_origin(ai);
            k = k + 1;
            continue;
        }
        let layer = match (x.kind, y.kind) {
            (
                AlignmentOriginKind::Typedef { canonical: cx, .. },
                AlignmentOriginKind::Typedef { canonical: cy, .. },
            ) => {
                if cx.same(cy) {
                    let bytes = match (x.alignment, y.alignment) {
                        (Some(p), Some(q)) => Some(if p >= q { p } else { q }),
                        (Some(p), None) => Some(p),
                        (None, q) => q,
                    };
                    Some((AlignmentOriginKind::Typedef { canonical: cx, previous: None }, bytes))
                } else {
                    None
                }
            },
            (AlignmentOriginKind::TypeOfType, AlignmentOriginKind::TypeOfType) => Some(
                (AlignmentOriginKind::TypeOfType, result.bytes()),
            ),
            _ => None,
        };
        let (kind, bytes) = match layer {
            Some(layer) => layer,
            None => {
                break;
            },
        };
        let row = AlignmentOrigin { kind, parent: result.origin(), alignment: bytes };
        let id = match cache_lookup(cache.as_slice(), row) {
            Some(id) => id,
            None => {
                if origins.len() >= MAX_ORIGINS {
                    return Err(Error::new(offset, "type-alignment origins exceed the 65536-entry limit"));
                }
                TypeAlignment::from_bytes(bytes)?;
                let id = push_alignment_origin(origins, row, offset)?;
                cache.push((row, id));
                proof {
                    let chosen = choose|c: AlignmentOriginId| c.index_spec() == w.origins.len();
                    lemma_id_index(chosen, id);
                    assert(origins@.subrange(0, o.len() as int) =~= o);
                }
                id
            },
        };
        result = TypeAlignment::from_bytes(bytes)?.with_origin(id);
        k = k + 1;
    }
    Ok(result)
}

/// Every row on a path exists in the table.
proof fn lemma_path_valid(origins: Seq<AlignmentOrigin>, id: Option<AlignmentOriginId>, budget: nat)
    ensures
        origin_path(origins, id, budget) matches Some(path) ==> forall|i: int| 0 <= i < path.len() ==> origin_valid(origins, #[trigger] path[i]),
    decreases budget,
{
    if let Some(c) = id {
        if budget > 0 && origin_valid(origins, c) {
            lemma_path_valid(origins, origins[c.index_spec()].parent, (budget - 1) as nat);
        }
    }
}

} // verus!
