//! Subobjects of an object being initialized: the shape of its type, which
//! subobject a designator path names, where brace elision goes next, and
//! which path a member designator spells.

use crate::error::Error;
use vstd::prelude::*;

verus! {

/// How deeply designators and anonymous members may nest.
pub const MAX_DESIGNATOR_DEPTH: usize = 128;

/// The shape of a resolved object type, as initialization walks it.
#[derive(Debug)]
pub enum ObjectShape {
    /// Any type without subobjects.
    Scalar,
    /// An array, with its length when known.
    Array { element: Box<ObjectShape>, length: Option<u64> },
    /// A fixed-size vector.
    Vector { element: Box<ObjectShape>, lanes: u64 },
    /// A structure or union; `fields` is `None` while it is incomplete.
    Record { union: bool, fields: Option<Vec<MemberShape>> },
}

/// One member of a record.
#[derive(Debug)]
pub struct MemberShape {
    pub name: Option<String>,
    pub bit_field: bool,
    pub shape: ObjectShape,
}

/// A member takes part in initialization unless it is an unnamed bit-field.
pub open spec fn initializable(member: MemberShape) -> bool {
    member.name is Some || !member.bit_field
}

/// The first member at or after `k` that takes part in initialization.
pub open spec fn first_member_from(fields: Seq<MemberShape>, k: int) -> Option<int>
    decreases fields.len() - k,
{
    if k < 0 || k >= fields.len() {
        None
    } else if initializable(fields[k]) {
        Some(k)
    } else {
        first_member_from(fields, k + 1)
    }
}

/// The subobject at `index` of a shape, if there is one.
pub open spec fn child(shape: ObjectShape, index: u64) -> Option<ObjectShape> {
    match shape {
        ObjectShape::Array { element, length } => if length is None || index < length->0 {
            Some(*element)
        } else {
            None
        },
        ObjectShape::Vector { element, lanes } => if index < lanes {
            Some(*element)
        } else {
            None
        },
        ObjectShape::Record { fields: Some(fields), .. } => if index < fields@.len() {
            Some(fields@[index as int].shape)
        } else {
            None
        },
        _ => None,
    }
}

/// The subobject a path of indices names, if every step exists.
pub open spec fn subobject_at(root: ObjectShape, path: Seq<u64>) -> Option<ObjectShape>
    decreases path.len(),
{
    if path.len() == 0 {
        Some(root)
    } else {
        match subobject_at(root, path.drop_last()) {
            Some(parent) => child(parent, path.last()),
            None => None,
        }
    }
}

/// The first subobject a braced initializer of a shape starts with.
pub open spec fn first_index(shape: ObjectShape) -> Option<u64> {
    match shape {
        ObjectShape::Array { length, .. } => if length == Some(0u64) {
            None
        } else {
            Some(0)
        },
        ObjectShape::Vector { .. } => Some(0),
        ObjectShape::Record { fields: Some(fields), .. } => match first_member_from(fields@, 0) {
            Some(k) => Some(k as u64),
            None => None,
        },
        _ => None,
    }
}

/// The subobject after `index` within `parent`, at the same level.
pub open spec fn sibling(parent: ObjectShape, index: u64) -> Option<u64> {
    match parent {
        ObjectShape::Vector { lanes, .. } => if index < u64::MAX && index + 1 < lanes {
            Some((index + 1) as u64)
        } else {
            None
        },
        ObjectShape::Array { length, .. } => if index < u64::MAX && (length is None || index + 1 < length->0) {
            Some((index + 1) as u64)
        } else {
            None
        },
        ObjectShape::Record { union, fields: Some(fields) } => if union {
            None
        } else {
            match first_member_from(fields@, index + 1) {
                Some(k) => Some(k as u64),
                None => None,
            }
        },
        _ => None,
    }
}

/// Where brace elision continues after `path`: the next sibling of the
/// innermost level that has one, or `Some(None)` when the object is
/// exhausted; `None` when a parent path names no subobject.
pub open spec fn next_path(root: ObjectShape, path: Seq<u64>) -> Option<Option<Seq<u64>>>
    decreases path.len(),
{
    if path.len() == 0 {
        Some(None)
    } else {
        let parent_path = path.drop_last();
        match subobject_at(root, parent_path) {
            None => None,
            Some(parent) => match sibling(parent, path.last()) {
                Some(s) => Some(Some(parent_path.push(s))),
                None => next_path(root, parent_path),
            },
        }
    }
}

/// The index of the first member at or after `start` that takes part in
/// initialization.
fn first_member(fields: &Vec<MemberShape>, start: usize) -> (r: Option<usize>)
    ensures
        r matches Some(k) ==> first_member_from(fields@, start as int) == Some(k as int) && k < fields@.len(),
        r is None ==> first_member_from(fields@, start as int) is None,
{
    let mut k = start;
    while k < fields.len()
        invariant
            start <= k,
            first_member_from(fields@, start as int) == first_member_from(fields@, k as int),
        decreases fields.len() - k,
    {
        if fields[k].name.is_some() || !fields[k].bit_field {
            return Some(k);
        }
        k = k + 1;
    }
    None
}

/// The first subobject a braced initializer of `shape` starts with: element
/// zero of a vector or of an array that is not known to be empty, or the
/// first record member that is not an unnamed bit-field.
pub fn first_subobject(shape: &ObjectShape) -> (r: Option<u64>)
    ensures
        r == first_index(*shape),
{
    match shape {
        ObjectShape::Array { length: Some(n), .. } if *n == 0 => None,
        ObjectShape::Array { .. } | ObjectShape::Vector { .. } => Some(0),
        ObjectShape::Record { fields: Some(fields), .. } => match first_member(fields, 0) {
            Some(k) => Some(k as u64),
            None => None,
        },
        _ => None,
    }
}

/// The diagnostic of an index that names no member or element of `shape`.
pub open spec fn child_message(shape: ObjectShape) -> Seq<char> {
    if shape is Record {
        "invalid record initializer designator"@
    } else {
        "initializer designator is outside the object"@
    }
}

/// The diagnostic of a path that leaves `root`: that of its first step
/// that names nothing.
pub open spec fn subobject_message(root: ObjectShape, path: Seq<u64>) -> Seq<char>
    decreases path.len(),
{
    if path.len() == 0 {
        Seq::empty()
    } else {
        match subobject_at(root, path.drop_last()) {
            None => subobject_message(root, path.drop_last()),
            Some(parent) => child_message(parent),
        }
    }
}

fn child_of(shape: &ObjectShape, index: u64, offset: usize) -> (r: Result<&ObjectShape, Error>)
    ensures
        r is Ok <==> child(*shape, index) is Some,
        r matches Ok(c) ==> child(*shape, index) == Some(*c),
        r matches Err(e) ==> e.offset == offset && e.message@ == child_message(*shape),
{
    match shape {
        ObjectShape::Array { element, length } => {
            match length {
                Some(n) if index >= *n => {},
                _ => {
                    return Ok(&**element);
                },
            }
        },
        ObjectShape::Vector { element, lanes } => {
            if index < *lanes {
                return Ok(&**element);
            }
        },
        ObjectShape::Record { fields, .. } => {
            return match fields {
                Some(fields) => {
                    if index < fields.len() as u64 {
                        Ok(&fields[index as usize].shape)
                    } else {
                        Err(Error::new(offset, "invalid record initializer designator"))
                    }
                },
                None => Err(Error::new(offset, "invalid record initializer designator")),
            };
        },
        ObjectShape::Scalar => {},
    }
    Err(Error::new(offset, "initializer designator is outside the object"))
}

/// The subobject of `root` that `path` names, step by step.
pub fn subobject<'a>(root: &'a ObjectShape, path: &[u64], offset: usize) -> (r: Result<&'a ObjectShape, Error>)
    ensures
        r is Ok <==> subobject_at(*root, path@) is Some,
        r matches Ok(s) ==> subobject_at(*root, path@) == Some(*s),
        r matches Err(e) ==> e.offset == offset && e.message@ == subobject_message(*root, path@),
{
    let mut current = root;
    let mut i: usize = 0;
    while i < path.len()
        invariant
            i <= path@.len(),
            subobject_at(*root, path@.take(i as int)) == Some(*current),
        decreases path.len() - i,
    {
        proof {
            assert(path@.take(i as int + 1).drop_last() =~= path@.take(i as int));
        }
        match child_of(current, path[i], offset) {
            Ok(next) => {
                current = next;
            },
            Err(e) => {
                proof {
                    lemma_invalid_prefix(*root, path@, i as int + 1);
                    assert(path@.take(i as int + 1).drop_last() =~= path@.take(i as int));
                    lemma_failure_message_stays(*root, path@, i as int + 1);
                }
                return Err(e);
            },
        }
        i = i + 1;
    }
    proof {
        assert(path@.take(i as int) =~= path@);
    }
    Ok(current)
}

/// A path with an invalid prefix is invalid.
/// Once a prefix of a path names nothing, the path keeps its diagnostic.
proof fn lemma_failure_message_stays(root: ObjectShape, path: Seq<u64>, n: int)
    requires
        0 < n <= path.len(),
        subobject_at(root, path.take(n)) is None,
    ensures
        subobject_message(root, path) == subobject_message(root, path.take(n)),
    decreases path.len() - n,
{
    if n < path.len() {
        let longer = path.take(n + 1);
        assert(longer.drop_last() =~= path.take(n));
        lemma_failure_message_stays(root, path, n + 1);
    } else {
        assert(path.take(n) =~= path);
    }
}

proof fn lemma_invalid_prefix(root: ObjectShape, path: Seq<u64>, n: int)
    requires
        0 <= n <= path.len(),
        subobject_at(root, path.take(n)) is None,
    ensures
        subobject_at(root, path) is None,
    decreases path.len() - n,
{
    if n < path.len() {
        assert(path.take(n + 1).drop_last() =~= path.take(n));
        lemma_invalid_prefix(root, path, n + 1);
    } else {
        assert(path.take(n) =~= path);
    }
}

fn sibling_of(parent: &ObjectShape, index: u64) -> (r: Option<u64>)
    ensures
        r == sibling(*parent, index),
{
    match parent {
        ObjectShape::Vector { lanes, .. } => {
            if index < u64::MAX && index + 1 < *lanes {
                assert(sibling(*parent, index) == Some((index + 1) as u64));
                Some(index + 1)
            } else {
                assert(sibling(*parent, index) is None);
                None
            }
        },
        ObjectShape::Array { length, .. } => {
            if index == u64::MAX {
                return None;
            }
            match length {
                Some(n) => if index + 1 < *n {
                    Some(index + 1)
                } else {
                    None
                },
                None => Some(index + 1),
            }
        },
        ObjectShape::Record { union, fields: Some(fields) } => {
            if *union || index >= fields.len() as u64 {
                proof {
                    if !*union {
                        assert(first_member_from(fields@, index + 1) is None);
                    }
                }
                None
            } else {
                match first_member(fields, (index + 1) as usize) {
                    Some(k) => Some(k as u64),
                    None => None,
                }
            }
        },
        _ => None,
    }
}

/// Where brace elision continues after the subobject at `path`: the next
/// sibling at the innermost level that has one (array elements and vector
/// lanes in order, the next structure member that is not an unnamed
/// bit-field; a union has none), or `None` when the whole object is done.
pub fn next_subobject(root: &ObjectShape, path: &[u64], offset: usize) -> (r: Result<Option<Vec<u64>>, Error>)
    ensures
        r is Ok <==> next_path(*root, path@) is Some,
        r matches Ok(n) ==> next_path(*root, path@) == Some(match n {
            Some(v) => Some(v@),
            None => None::<Seq<u64>>,
        }),
        subobject_at(*root, path@) is Some ==> r is Ok,
{
    proof {
        lemma_valid_next(*root, path@);
    }
    let mut next: Vec<u64> = Vec::new();
    let mut i: usize = 0;
    while i < path.len()
        invariant
            i <= path@.len(),
            next@ == path@.take(i as int),
        decreases path.len() - i,
    {
        next.push(path[i]);
        i = i + 1;
    }
    proof {
        assert(path@.take(i as int) =~= path@);
    }
    while next.len() > 0
        invariant
            next_path(*root, path@) == next_path(*root, next@),
            subobject_at(*root, path@) is Some ==> subobject_at(*root, next@) is Some,
        decreases next.len(),
    {
        let ghost old_next = next@;
        let index = next.pop().unwrap();
        let ghost popped = next@.push(index);
        proof {
            assert(popped.drop_last() =~= next@);
            assert(popped == old_next);
        }
        let parent = subobject(root, next.as_slice(), offset)?;
        match sibling_of(parent, index) {
            Some(s) => {
                next.push(s);
                return Ok(Some(next));
            },
            None => {},
        }
    }
    Ok(None)
}

/// Every parent of a valid path is valid, so brace elision never fails on it.
proof fn lemma_valid_next(root: ObjectShape, path: Seq<u64>)
    ensures
        subobject_at(root, path) is Some ==> next_path(root, path) is Some,
    decreases path.len(),
{
    if path.len() > 0 {
        lemma_valid_next(root, path.drop_last());
    }
}

/// The deepest flexible array member crossed along `path`: the position
/// after the last step from a record into an array of unknown length.
pub open spec fn flexible_step(root: ObjectShape, path: Seq<u64>) -> Option<int>
    decreases path.len(),
{
    if path.len() == 0 {
        None
    } else {
        let parent = subobject_at(root, path.drop_last());
        let here = subobject_at(root, path);
        if parent matches Some(ObjectShape::Record { .. }) && here matches Some(ObjectShape::Array { length: None, .. }) {
            Some(path.len() as int)
        } else {
            flexible_step(root, path.drop_last())
        }
    }
}

/// The innermost flexible array member that a designator path crosses, as
/// the length of the path prefix that ends at it.
pub fn flexible_in_path(root: &ObjectShape, path: &[u64], offset: usize) -> (r: Result<Option<usize>, Error>)
    ensures
        r is Ok <==> subobject_at(*root, path@) is Some,
        r matches Ok(f) ==> f == match flexible_step(*root, path@) {
            Some(n) => Some(n as usize),
            None => None::<usize>,
        },
{
    let mut current = root;
    let mut flexible: Option<usize> = None;
    let mut i: usize = 0;
    while i < path.len()
        invariant
            i <= path@.len(),
            subobject_at(*root, path@.take(i as int)) == Some(*current),
            flexible == match flexible_step(*root, path@.take(i as int)) {
                Some(n) => Some(n as usize),
                None => None::<usize>,
            },
        decreases path.len() - i,
    {
        proof {
            assert(path@.take(i as int + 1).drop_last() =~= path@.take(i as int));
        }
        let record = match current {
            ObjectShape::Record { .. } => true,
            _ => false,
        };
        match child_of(current, path[i], offset) {
            Ok(next) => {
                current = next;
            },
            Err(e) => {
                proof {
                    lemma_invalid_prefix(*root, path@, i as int + 1);
                }
                return Err(e);
            },
        }
        if record {
            match current {
                ObjectShape::Array { length: None, .. } => {
                    flexible = Some(i + 1);
                },
                _ => {},
            }
        }
        i = i + 1;
    }
    proof {
        assert(path@.take(i as int) =~= path@);
    }
    Ok(flexible)
}

/// Whether a member is named `name`.
pub open spec fn named(member: MemberShape, name: Seq<char>) -> bool {
    match member.name {
        Some(n) => n@ == name,
        None => false,
    }
}

/// The index path of member `name` in a shape, looking through anonymous
/// structure and union members; `Some(None)` when there is no such member,
/// `None` when anonymous members nest too deeply.
pub open spec fn member_path(shape: ObjectShape, name: Seq<char>, depth: int) -> Option<Option<Seq<u64>>>
    decreases 128 - depth, 1int, 0int,
{
    if depth >= 128 {
        None
    } else {
        match shape {
            ObjectShape::Record { fields: Some(fields), .. } => member_search(fields@, name, depth, 0),
            _ => Some(None),
        }
    }
}

/// The search of [`member_path`] over the members from `k` on.
pub open spec fn member_search(fields: Seq<MemberShape>, name: Seq<char>, depth: int, k: int) -> Option<Option<Seq<u64>>>
    decreases 128 - depth, 0int, fields.len() - k,
{
    if k < 0 || k >= fields.len() || depth >= 128 {
        Some(None)
    } else if named(fields[k], name) {
        Some(Some(seq![k as u64]))
    } else if fields[k].name is None && !fields[k].bit_field {
        match member_path(fields[k].shape, name, depth + 1) {
            None => None,
            Some(Some(nested)) => Some(Some(seq![k as u64] + nested)),
            Some(None) => member_search(fields, name, depth, k + 1),
        }
    } else {
        member_search(fields, name, depth, k + 1)
    }
}

fn is_named(member: &MemberShape, name: &str) -> (r: bool)
    ensures
        r == named(*member, name@),
{
    match &member.name {
        Some(n) => {
            let t = crate::text::chars(n.as_str());
            crate::text::chars_equal(t.as_slice(), name)
        },
        None => false,
    }
}

/// The index path that a member designator `.name` spells in `shape`:
/// the named member itself, or, through an anonymous structure or union
/// member, the path into it. Anonymous members nest at most 128 deep.
pub fn member_designator(shape: &ObjectShape, name: &str, depth: usize) -> (r: Result<Option<Vec<u64>>, Error>)
    ensures
        r is Ok <==> member_path(*shape, name@, depth as int) is Some,
        r matches Ok(p) ==> member_path(*shape, name@, depth as int) == Some(match p {
            Some(v) => Some(v@),
            None => None::<Seq<u64>>,
        }),
        r matches Err(e) ==> e.offset == 0 && e.message@ == "anonymous member nesting limit exceeded"@,
    decreases 128 - depth,
{
    if depth >= MAX_DESIGNATOR_DEPTH {
        return Err(Error::new(0, "anonymous member nesting limit exceeded"));
    }
    let fields = match shape {
        ObjectShape::Record { fields: Some(fields), .. } => fields,
        _ => {
            return Ok(None);
        },
    };
    let mut k: usize = 0;
    while k < fields.len()
        invariant
            depth < 128,
            *shape matches ObjectShape::Record { fields: Some(f), .. } && f == *fields,
            member_search(fields@, name@, depth as int, 0) == member_search(fields@, name@, depth as int, k as int),
        decreases fields.len() - k,
    {
        let member = &fields[k];
        if is_named(member, name) {
            let path = vec![k as u64];
            proof {
                assert(path@ =~= seq![k as u64]);
            }
            return Ok(Some(path));
        }
        if member.name.is_none() && !member.bit_field {
            match member_designator(&member.shape, name, depth + 1)? {
                Some(mut nested) => {
                    let ghost inner = nested@;
                    nested.insert(0, k as u64);
                    proof {
                        assert(nested@ =~= seq![k as u64] + inner);
                    }
                    return Ok(Some(nested));
                },
                None => {},
            }
        }
        k = k + 1;
    }
    Ok(None)
}

/// One designator of a designated initializer, with its index values
/// already evaluated.
#[derive(Debug)]
pub enum Designator {
    /// `[index]`
    Index { index: u64, start: usize },
    /// GNU `[from ... to]`
    Range { from: u64, to: u64, start: usize },
    /// `.name`
    Member { name: String, start: usize },
}

/// The path a designator list names in `root` after its first `n`
/// designators, or `None` when one of them is refused.
pub open spec fn designated_path(root: ObjectShape, designators: Seq<Designator>, n: int) -> Option<Seq<u64>>
    decreases n,
{
    if n == 0 {
        Some(Seq::empty())
    } else if n < 0 || n > designators.len() {
        None
    } else {
        match designated_path(root, designators, n - 1) {
            None => None,
            Some(path) => designate_step(root, path, designators[n - 1]),
        }
    }
}

/// The path after one more designator, as [`designated_path`] takes it.
pub open spec fn designate_step(root: ObjectShape, path: Seq<u64>, designator: Designator) -> Option<Seq<u64>> {
    match subobject_at(root, path) {
        None => None,
        Some(current) => {
            let extended = match designator {
                Designator::Index { index, .. } => if current is Array {
                    Some(path.push(index))
                } else {
                    None
                },
                Designator::Range { from, to, .. } => if current is Array && from <= to && subobject_at(
                    root,
                    path.push(from),
                ) is Some {
                    Some(path.push(to))
                } else {
                    None
                },
                Designator::Member { name, .. } => match member_path(current, name@, 0) {
                    Some(Some(members)) => Some(path + members),
                    _ => None,
                },
            };
            match extended {
                Some(p) => if p.len() < 128 && subobject_at(root, p) is Some {
                    Some(p)
                } else {
                    None
                },
                None => None,
            }
        },
    }
}

proof fn lemma_designated_unfold(root: ObjectShape, designators: Seq<Designator>, n: int)
    requires
        0 < n <= designators.len(),
    ensures
        designated_path(root, designators, n) == match designated_path(root, designators, n - 1) {
            None => None,
            Some(path) => designate_step(root, path, designators[n - 1]),
        },
{
}

/// The first refused designator stays the one reported as more follow.
proof fn lemma_failure_stays(root: ObjectShape, designators: Seq<Designator>, n: int, m: int)
    requires
        0 < n <= m <= designators.len(),
        designated_path(root, designators, n - 1) is Some,
        designated_path(root, designators, n) is None,
    ensures
        designation_failure(root, designators, m) == designation_failure(root, designators, n),
    decreases m - n,
{
    if n < m {
        lemma_failure_stays(root, designators, n, m - 1);
        lemma_designated_stays_refused(root, designators, n, m - 1);
    }
}

proof fn lemma_designated_stays_refused(root: ObjectShape, designators: Seq<Designator>, n: int, m: int)
    requires
        0 <= n <= m <= designators.len(),
        designated_path(root, designators, n) is None,
    ensures
        designated_path(root, designators, m) is None,
    decreases m - n,
{
    if n < m {
        lemma_designated_unfold(root, designators, n + 1);
        lemma_designated_stays_refused(root, designators, n + 1, m);
    }
}

/// The source offset of a designator.
pub open spec fn designator_start(designator: Designator) -> usize {
    match designator {
        Designator::Index { start, .. } => start,
        Designator::Range { start, .. } => start,
        Designator::Member { start, .. } => start,
    }
}

/// The diagnostic of a designated path `p`, at `offset`: too deep, or
/// leaving the object.
pub open spec fn designated_end(root: ObjectShape, p: Seq<u64>, offset: usize) -> (usize, Seq<char>) {
    if p.len() >= 128 {
        (offset, "initializer designator nesting limit exceeded"@)
    } else {
        (offset, subobject_message(root, p))
    }
}

/// Where and why `designator` is refused after `path`: an index or range
/// on something other than an array, a reversed range, a range whose first
/// element is outside the array, anonymous members nested too deeply, an
/// unknown member, or a path too deep or outside the object.
pub open spec fn designate_failure(root: ObjectShape, path: Seq<u64>, designator: Designator) -> (usize, Seq<char>) {
    let offset = designator_start(designator);
    match subobject_at(root, path) {
        None => (offset, subobject_message(root, path)),
        Some(current) => match designator {
            Designator::Index { index, start } => if !(current is Array) {
                (start, "array designator requires an array"@)
            } else {
                designated_end(root, path.push(index), offset)
            },
            Designator::Range { from, to, start } => if !(current is Array) {
                (start, "array range designator requires an array"@)
            } else if from > to {
                (start, "array designator range is reversed"@)
            } else if subobject_at(root, path.push(from)) is None {
                (start, subobject_message(root, path.push(from)))
            } else {
                designated_end(root, path.push(to), offset)
            },
            Designator::Member { name, start } => match member_path(current, name@, 0) {
                None => (0, "anonymous member nesting limit exceeded"@),
                Some(None) => (start, "unknown initializer member"@),
                Some(Some(members)) => designated_end(root, path + members, offset),
            },
        },
    }
}

/// Where and why the first refused designator among the first `n` is
/// refused, `None` when none is.
pub open spec fn designation_failure(root: ObjectShape, designators: Seq<Designator>, n: int) -> Option<(usize, Seq<char>)>
    decreases n,
{
    if n <= 0 || n > designators.len() {
        None
    } else {
        match designated_path(root, designators, n - 1) {
            None => designation_failure(root, designators, n - 1),
            Some(path) => if designate_step(root, path, designators[n - 1]) is None {
                Some(designate_failure(root, path, designators[n - 1]))
            } else {
                None
            },
        }
    }
}

fn designate(root: &ObjectShape, path: Vec<u64>, designator: &Designator) -> (r: Result<Vec<u64>, Error>)
    ensures
        r is Ok <==> designate_step(*root, path@, *designator) is Some,
        r matches Ok(p) ==> designate_step(*root, path@, *designator) == Some(p@),
        r matches Err(e) ==> (e.offset, e.message@) == designate_failure(*root, path@, *designator),
{
    let mut path = path;
    let ghost original = path@;
    let offset = match designator {
        Designator::Index { start, .. } => *start,
        Designator::Range { start, .. } => *start,
        Designator::Member { start, .. } => *start,
    };
    let current = subobject(root, path.as_slice(), offset)?;
    match designator {
        Designator::Index { index, start } => {
            match current {
                ObjectShape::Array { .. } => {},
                _ => {
                    return Err(Error::new(*start, "array designator requires an array"));
                },
            }
            path.push(*index);
        },
        Designator::Range { from, to, start } => {
            match current {
                ObjectShape::Array { .. } => {},
                _ => {
                    return Err(Error::new(*start, "array range designator requires an array"));
                },
            }
            if *from > *to {
                return Err(Error::new(*start, "array designator range is reversed"));
            }
            let mut first = Vec::new();
            let mut k: usize = 0;
            while k < path.len()
                invariant
                    k <= path@.len(),
                    first@ == path@.take(k as int),
                decreases path.len() - k,
            {
                first.push(path[k]);
                k = k + 1;
            }
            first.push(*from);
            proof {
                assert(path@.take(k as int) =~= path@);
            }
            subobject(root, first.as_slice(), *start)?;
            path.push(*to);
        },
        Designator::Member { name, start } => {
            let members = match member_designator(current, name.as_str(), 0)? {
                Some(members) => members,
                None => {
                    return Err(Error::new(*start, "unknown initializer member"));
                },
            };
            let ghost before = path@;
            let mut k: usize = 0;
            while k < members.len()
                invariant
                    k <= members@.len(),
                    path@ == before + members@.take(k as int),
                decreases members.len() - k,
            {
                path.push(members[k]);
                proof {
                    assert(members@.take(k as int + 1) =~= members@.take(k as int).push(members@[k as int]));
                }
                k = k + 1;
            }
            proof {
                assert(members@.take(k as int) =~= members@);
            }
        },
    }
    if path.len() >= MAX_DESIGNATOR_DEPTH {
        return Err(Error::new(offset, "initializer designator nesting limit exceeded"));
    }
    subobject(root, path.as_slice(), offset)?;
    Ok(path)
}

/// The subobject path a designator list names, checking each step: an
/// index or range designates an array element (a range's ends in order and
/// both in bounds, continuing after its last element), a member designator a
/// member reached possibly through anonymous members, and the path stays
/// under 128 steps and inside the object.
pub fn designated_subobject(root: &ObjectShape, designators: &[Designator]) -> (r: Result<Vec<u64>, Error>)
    ensures
        r is Ok <==> designated_path(*root, designators@, designators@.len() as int) is Some,
        r matches Ok(p) ==> designated_path(*root, designators@, designators@.len() as int) == Some(p@),
        r matches Err(e) ==> designation_failure(*root, designators@, designators@.len() as int) == Some(
            (e.offset, e.message@),
        ),
{
    let mut path: Vec<u64> = Vec::new();
    let mut i: usize = 0;
    while i < designators.len()
        invariant
            i <= designators@.len(),
            designated_path(*root, designators@, i as int) == Some(path@),
        decreases designators.len() - i,
    {
        proof {
            lemma_designated_unfold(*root, designators@, i as int + 1);
        }
        match designate(root, path, &designators[i]) {
            Ok(next) => {
                path = next;
            },
            Err(e) => {
                proof {
                    lemma_designated_stays_refused(*root, designators@, i as int + 1, designators@.len() as int);
                    lemma_failure_stays(*root, designators@, i as int + 1, designators@.len() as int);
                }
                return Err(e);
            },
        }
        i = i + 1;
    }
    Ok(path)
}

/// The sibling brace elision moves to exists in the parent.
proof fn lemma_sibling_exists(parent: ObjectShape, index: u64)
    ensures
        sibling(parent, index) matches Some(s) ==> child(parent, s) is Some,
{
    match parent {
        ObjectShape::Record { union, fields: Some(fields) } => {
            if !union {
                lemma_first_member_bounds(fields@, index + 1);
            }
        },
        _ => {},
    }
}

proof fn lemma_first_member_bounds(fields: Seq<MemberShape>, k: int)
    ensures
        first_member_from(fields, k) matches Some(j) ==> k <= j < fields.len() && initializable(fields[j]),
    decreases fields.len() - k,
{
    if 0 <= k < fields.len() && !initializable(fields[k]) {
        lemma_first_member_bounds(fields, k + 1);
    }
}

/// Brace elision never leaves the object: from a subobject of `root`, the
/// next position it moves to is again a subobject of `root`.
pub proof fn lemma_next_stays_inside(root: ObjectShape, path: Seq<u64>)
    requires
        subobject_at(root, path) is Some,
    ensures
        next_path(root, path) matches Some(Some(n)) ==> subobject_at(root, n) is Some,
    decreases path.len(),
{
    if path.len() > 0 {
        let parent_path = path.drop_last();
        let parent = subobject_at(root, parent_path)->0;
        lemma_sibling_exists(parent, path.last());
        match sibling(parent, path.last()) {
            Some(s) => {
                assert(parent_path.push(s).drop_last() =~= parent_path);
            },
            None => {
                lemma_next_stays_inside(root, parent_path);
            },
        }
    }
}

/// A designator list names a subobject of the object it initializes.
pub proof fn lemma_designated_inside(root: ObjectShape, designators: Seq<Designator>)
    ensures
        designated_path(root, designators, designators.len() as int) matches Some(p) ==> subobject_at(root, p) is Some,
{
    if designators.len() > 0 {
        lemma_designated_unfold(root, designators, designators.len() as int);
    }
}

/// The member at the end of a member designator's path has the designated
/// name: following the path from `shape` ends in a member named `name`.
pub open spec fn member_at_path(shape: ObjectShape, path: Seq<u64>, name: Seq<char>) -> bool
    decreases path.len(),
{
    if path.len() == 0 {
        false
    } else {
        match shape {
            ObjectShape::Record { fields: Some(fields), .. } => path[0] < fields@.len() && if path.len() == 1 {
                named(fields@[path[0] as int], name)
            } else {
                member_at_path(fields@[path[0] as int].shape, path.drop_first(), name)
            },
            _ => false,
        }
    }
}

/// A member designator's path leads to a member with the designated name.
pub proof fn lemma_member_path_names(shape: ObjectShape, name: Seq<char>, depth: int)
    ensures
        member_path(shape, name, depth) matches Some(Some(p)) ==> member_at_path(shape, p, name),
    decreases 128 - depth, 1int, 0int,
{
    if depth < 128 {
        match shape {
            ObjectShape::Record { fields: Some(fields), .. } => {
                assert(fields@.len() == fields.len());
                lemma_member_search_names(fields@, name, depth, 0, shape);
            },
            _ => {},
        }
    }
}

proof fn lemma_member_search_names(fields: Seq<MemberShape>, name: Seq<char>, depth: int, k: int, shape: ObjectShape)
    requires
        shape matches ObjectShape::Record { fields: Some(f), .. } && f@ == fields,
        fields.len() <= usize::MAX,
        depth < 128,
    ensures
        member_search(fields, name, depth, k) matches Some(Some(p)) ==> member_at_path(shape, p, name),
    decreases 128 - depth, 0int, fields.len() - k,
{
    if 0 <= k < fields.len() && depth < 128 {
        if named(fields[k], name) {
            let p = seq![k as u64];
            assert(p.len() == 1 && p[0] == k as u64);
        } else if fields[k].name is None && !fields[k].bit_field {
            lemma_member_path_names(fields[k].shape, name, depth + 1);
            match member_path(fields[k].shape, name, depth + 1) {
                Some(Some(nested)) => {
                    let p = seq![k as u64] + nested;
                    assert(p.drop_first() =~= nested);
                    assert(p[0] == k as u64);
                    lemma_member_nonempty(fields[k].shape, name, depth + 1);
                },
                Some(None) => {
                    lemma_member_search_names(fields, name, depth, k + 1, shape);
                },
                None => {},
            }
        } else {
            lemma_member_search_names(fields, name, depth, k + 1, shape);
        }
    }
}

/// A found member path is never empty.
proof fn lemma_member_nonempty(shape: ObjectShape, name: Seq<char>, depth: int)
    ensures
        member_path(shape, name, depth) matches Some(Some(p)) ==> p.len() > 0,
    decreases 128 - depth, 1int, 0int,
{
    if depth < 128 {
        match shape {
            ObjectShape::Record { fields: Some(fields), .. } => {
                lemma_member_search_nonempty(fields@, name, depth, 0);
            },
            _ => {},
        }
    }
}

proof fn lemma_member_search_nonempty(fields: Seq<MemberShape>, name: Seq<char>, depth: int, k: int)
    ensures
        member_search(fields, name, depth, k) matches Some(Some(p)) ==> p.len() > 0,
    decreases 128 - depth, 0int, fields.len() - k,
{
    if 0 <= k < fields.len() && depth < 128 {
        if !named(fields[k], name) {
            if fields[k].name is None && !fields[k].bit_field {
                lemma_member_nonempty(fields[k].shape, name, depth + 1);
                if member_path(fields[k].shape, name, depth + 1) == Some(None::<Seq<u64>>) {
                    lemma_member_search_nonempty(fields, name, depth, k + 1);
                }
            } else {
                lemma_member_search_nonempty(fields, name, depth, k + 1);
            }
        }
    }
}

} // verus!
