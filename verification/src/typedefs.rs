//! A unit's typedef definitions and the queries that see through them.

use crate::error::Error;
use crate::ir::{QualifierSet, Qualifiers, Record, RecordKind, Type, TypeKind};
use crate::type_alignment::{snapshot_valid, validate_alignment_snapshot, AlignmentOrigin, AlignmentOriginId, TypeAlignment};
use vstd::prelude::*;
use vstd::string::StringExecFns;

verus! {

/// The first typedef at or after `i` with the given name.
pub open spec fn typedef_from(typedefs: Seq<(String, Type)>, name: Seq<char>, i: int) -> Option<int>
    decreases typedefs.len() - i,
{
    if i < 0 || i >= typedefs.len() {
        None
    } else if typedefs[i].0@ == name {
        Some(i)
    } else {
        typedef_from(typedefs, name, i + 1)
    }
}

pub proof fn lemma_typedef_from(typedefs: Seq<(String, Type)>, name: Seq<char>, i: int)
    ensures
        typedef_from(typedefs, name, i) matches Some(k) ==> i <= k < typedefs.len() && 0 <= k
            && typedefs[k].0@ == name,
    decreases typedefs.len() - i,
{
    if 0 <= i < typedefs.len() && typedefs[i].0@ != name {
        lemma_typedef_from(typedefs, name, i + 1);
    }
}

pub open spec fn position_of(o: Option<usize>) -> Option<int> {
    match o {
        Some(i) => Some(i as int),
        None => None,
    }
}

/// The position of the definition of a typedef name.
pub fn find_typedef(typedefs: &[(String, Type)], name: &String) -> (r: Option<usize>)
    ensures
        position_of(r) == typedef_from(typedefs@, name@, 0),
{
    let mut i: usize = 0;
    while i < typedefs.len()
        invariant
            i <= typedefs@.len(),
            typedef_from(typedefs@, name@, 0) == typedef_from(typedefs@, name@, i as int),
        decreases typedefs.len() - i,
    {
        if typedefs[i].0 == *name {
            return Some(i);
        }
        i = i + 1;
    }
    None
}

/// Follows typedef names from `ty`, refusing a name already `visited` and
/// more than `fuel` names: the type reached, `None` on an unknown name, a
/// cycle, or too long a chain.
pub open spec fn resolve_chain(typedefs: Seq<(String, Type)>, ty: Type, visited: Seq<Seq<char>>, fuel: nat) -> Option<Type>
    decreases fuel,
{
    match ty.kind {
        TypeKind::Typedef(name) => if fuel == 0 || visited.contains(name@) {
            None
        } else {
            match typedef_from(typedefs, name@, 0) {
                Some(i) => resolve_chain(typedefs, typedefs[i].1, visited.push(name@), (fuel - 1) as nat),
                None => None,
            }
        },
        _ => Some(ty),
    }
}

/// The type a type denotes with its typedef names resolved, through at
/// most 128 distinct names; tag identities are kept.
pub open spec fn resolved_type(typedefs: Seq<(String, Type)>, ty: Type) -> Option<Type> {
    resolve_chain(typedefs, ty, Seq::empty(), 128)
}

fn seen_before(visited: &Vec<&String>, name: &String) -> (r: bool)
    ensures
        r == visited@.map_values(|s: &String| s@).contains(name@),
{
    let ghost seen = visited@.map_values(|s: &String| s@);
    let mut j: usize = 0;
    while j < visited.len()
        invariant
            seen == visited@.map_values(|s: &String| s@),
            j <= visited@.len(),
            forall|k: int| 0 <= k < j ==> seen[k] != name@,
        decreases visited.len() - j,
    {
        if *visited[j] == *name {
            assert(seen[j as int] == name@);
            return true;
        }
        j = j + 1;
    }
    false
}

/// The message of an unknown typedef name.
pub open spec fn unknown_typedef_message(name: Seq<char>) -> Seq<char> {
    "unknown typedef `"@ + name + "`"@
}

/// The diagnostic a failed resolution gives, in the order [`resolve_chain`]
/// meets the failure: too long a chain, a name met again, or an unknown
/// name.
pub open spec fn resolve_error(typedefs: Seq<(String, Type)>, ty: Type, visited: Seq<Seq<char>>, fuel: nat) -> Seq<char>
    decreases fuel,
{
    match ty.kind {
        TypeKind::Typedef(name) => if fuel == 0 {
            "typedef resolution exceeds the 128-level limit"@
        } else if visited.contains(name@) {
            "cyclic typedef"@
        } else {
            match typedef_from(typedefs, name@, 0) {
                Some(i) => resolve_error(typedefs, typedefs[i].1, visited.push(name@), (fuel - 1) as nat),
                None => unknown_typedef_message(name@),
            }
        },
        _ => Seq::empty(),
    }
}

/// The error for an unknown typedef name, naming it.
pub fn unknown_typedef(name: &String) -> (e: Error)
    ensures
        e.message@ == unknown_typedef_message(name@),
        e.offset == 0,
{
    let message = String::from_str("unknown typedef `").concat(name.as_str()).concat("`");
    Error { message, offset: 0 }
}

/// Resolves typedefs while retaining tag identities. Qualifiers on
/// aliases remain on the original type. Unknown names, cycles and chains
/// of more than 128 names are errors, each with its own diagnostic.
pub fn resolve<'a>(typedefs: &'a [(String, Type)], ty: &'a Type) -> (r: Result<&'a Type, Error>)
    ensures
        match r {
            Ok(t) => resolved_type(typedefs@, *ty) == Some(*t),
            Err(e) => resolved_type(typedefs@, *ty) is None && e.message@ == resolve_error(
                typedefs@,
                *ty,
                Seq::empty(),
                128,
            ),
        },
{
    let mut current: &'a Type = ty;
    let mut visited: Vec<&'a String> = Vec::new();
    assert(visited@.map_values(|s: &String| s@) =~= Seq::<Seq<char>>::empty());
    loop
        invariant
            visited@.len() <= 128,
            resolved_type(typedefs@, *ty) == resolve_chain(
                typedefs@,
                *current,
                visited@.map_values(|s: &String| s@),
                (128 - visited@.len()) as nat,
            ),
            resolve_error(typedefs@, *ty, Seq::empty(), 128) == resolve_error(
                typedefs@,
                *current,
                visited@.map_values(|s: &String| s@),
                (128 - visited@.len()) as nat,
            ),
        decreases 128 - visited@.len(),
    {
        match &current.kind {
            TypeKind::Typedef(name) => {
                if visited.len() >= 128 {
                    return Err(Error::new(0, "typedef resolution exceeds the 128-level limit"));
                }
                if seen_before(&visited, name) {
                    return Err(Error::new(0, "cyclic typedef"));
                }
                proof {
                    lemma_typedef_from(typedefs@, name@, 0);
                }
                match find_typedef(typedefs, name) {
                    Some(i) => {
                        let ghost before = visited@;
                        visited.push(name);
                        proof {
                            assert(visited@.map_values(|s: &String| s@) =~= before.map_values(|s: &String| s@).push(
                                name@,
                            ));
                        }
                        current = &typedefs[i].1;
                    },
                    None => {
                        return Err(unknown_typedef(name));
                    },
                }
            },
            _ => {
                return Ok(current);
            },
        }
    }
}

/// The union of two qualifier sets.
pub open spec fn qualifier_union(a: QualifierSet, b: QualifierSet) -> QualifierSet {
    QualifierSet {
        is_const: a.is_const || b.is_const,
        is_volatile: a.is_volatile || b.is_volatile,
        is_restrict: a.is_restrict || b.is_restrict,
        unaligned: a.unaligned || b.unaligned,
        msvc_ptr32: a.msvc_ptr32 || b.msvc_ptr32,
    }
}

/// The qualifiers written on a type and on every typedef its name leads
/// through, within `steps` types, added to `gathered`.
pub open spec fn chain_qualifiers(typedefs: Seq<(String, Type)>, ty: Type, gathered: QualifierSet, steps: nat) -> Option<
    QualifierSet,
>
    decreases steps,
{
    if steps == 0 {
        None
    } else {
        let with = qualifier_union(gathered, ty.qualifiers@);
        match ty.kind {
            TypeKind::Typedef(name) => match typedef_from(typedefs, name@, 0) {
                Some(i) => chain_qualifiers(typedefs, typedefs[i].1, with, (steps - 1) as nat),
                None => None,
            },
            _ => Some(with),
        }
    }
}

/// Collects the top-level qualifiers contributed by every typedef in the
/// chain, through at most 128 types.
pub fn qualifiers(typedefs: &[(String, Type)], ty: &Type) -> (r: Result<Qualifiers, Error>)
    ensures
        match r {
            Ok(q) => chain_qualifiers(typedefs@, *ty, Qualifiers::none_spec()@, 128) == Some(q@),
            Err(_) => chain_qualifiers(typedefs@, *ty, Qualifiers::none_spec()@, 128) is None,
        },
{
    let mut current: &Type = ty;
    let mut result = Qualifiers::none();
    let mut step: usize = 0;
    while step < 128
        invariant
            step <= 128,
            chain_qualifiers(typedefs@, *ty, Qualifiers::none_spec()@, 128) == chain_qualifiers(
                typedefs@,
                *current,
                result@,
                (128 - step) as nat,
            ),
        decreases 128 - step,
    {
        result = result.union(current.qualifiers);
        match &current.kind {
            TypeKind::Typedef(name) => {
                proof {
                    lemma_typedef_from(typedefs@, name@, 0);
                }
                match find_typedef(typedefs, name) {
                    Some(i) => {
                        current = &typedefs[i].1;
                    },
                    None => {
                        return Err(unknown_typedef(name));
                    },
                }
            },
            _ => {
                return Ok(result);
            },
        }
        step = step + 1;
    }
    Err(Error::new(0, "typedef qualifier resolution exceeds the 128-level limit"))
}

/// Whether an array type, through at most `steps` array levels, ends in a
/// variable-length array.
pub open spec fn variable_length_steps(typedefs: Seq<(String, Type)>, ty: Type, steps: nat) -> Option<bool>
    decreases steps,
{
    if steps == 0 {
        None
    } else {
        match resolved_type(typedefs, ty) {
            None => None,
            Some(r) => match r.kind {
                TypeKind::VariableArray { .. } => Some(true),
                TypeKind::Array { element, length: _ } => variable_length_steps(typedefs, *element, (steps - 1) as nat),
                _ => Some(false),
            },
        }
    }
}

/// Whether this array's size depends on a runtime bound. Pointers to such
/// arrays still have a constant pointer size.
pub fn is_variable_length_array(typedefs: &[(String, Type)], ty: &Type) -> (r: Result<bool, Error>)
    ensures
        match r {
            Ok(b) => variable_length_steps(typedefs@, *ty, 128) == Some(b),
            Err(_) => variable_length_steps(typedefs@, *ty, 128) is None,
        },
{
    let mut current: &Type = ty;
    let mut step: usize = 0;
    while step < 128
        invariant
            step <= 128,
            variable_length_steps(typedefs@, *ty, 128) == variable_length_steps(typedefs@, *current, (128 - step) as nat),
        decreases 128 - step,
    {
        let resolved = match resolve(typedefs, current) {
            Ok(t) => t,
            Err(e) => {
                return Err(e);
            },
        };
        match &resolved.kind {
            TypeKind::VariableArray { .. } => {
                return Ok(true);
            },
            TypeKind::Array { element, .. } => {
                current = &**element;
            },
            _ => {
                return Ok(false);
            },
        }
        step = step + 1;
    }
    Err(Error::new(0, "array type nesting exceeds the 128-level limit"))
}

/// Whether a type, through at most `steps` array, pointer, atomic and
/// function-return levels, reaches a variable-length array.
pub open spec fn variably_modified_steps(typedefs: Seq<(String, Type)>, ty: Type, steps: nat) -> Option<bool>
    decreases steps,
{
    if steps == 0 {
        None
    } else {
        match resolved_type(typedefs, ty) {
            None => None,
            Some(r) => match r.kind {
                TypeKind::VariableArray { .. } => Some(true),
                TypeKind::Array { element, length: _ } => variably_modified_steps(typedefs, *element, (steps - 1) as nat),
                TypeKind::Pointer(element) => variably_modified_steps(typedefs, *element, (steps - 1) as nat),
                TypeKind::Atomic(element) => variably_modified_steps(typedefs, *element, (steps - 1) as nat),
                TypeKind::Function(function) => variably_modified_steps(
                    typedefs,
                    function.return_type,
                    (steps - 1) as nat,
                ),
                _ => Some(false),
            },
        }
    }
}

/// Whether an array bound contributes a variably modified type. Function
/// parameter types do not make the containing function variably modified.
pub fn is_variably_modified(typedefs: &[(String, Type)], ty: &Type) -> (r: Result<bool, Error>)
    ensures
        match r {
            Ok(b) => variably_modified_steps(typedefs@, *ty, 128) == Some(b),
            Err(_) => variably_modified_steps(typedefs@, *ty, 128) is None,
        },
{
    let mut current: &Type = ty;
    let mut step: usize = 0;
    while step < 128
        invariant
            step <= 128,
            variably_modified_steps(typedefs@, *ty, 128) == variably_modified_steps(
                typedefs@,
                *current,
                (128 - step) as nat,
            ),
        decreases 128 - step,
    {
        let resolved = match resolve(typedefs, current) {
            Ok(t) => t,
            Err(e) => {
                return Err(e);
            },
        };
        match &resolved.kind {
            TypeKind::VariableArray { .. } => {
                return Ok(true);
            },
            TypeKind::Array { element, .. } => {
                current = &**element;
            },
            TypeKind::Pointer(element) => {
                current = &**element;
            },
            TypeKind::Atomic(element) => {
                current = &**element;
            },
            TypeKind::Function(function) => {
                current = &function.return_type;
            },
            _ => {
                return Ok(false);
            },
        }
        step = step + 1;
    }
    Err(Error::new(0, "type nesting exceeds the 128-level limit"))
}


/// Whether an alignment snapshot is within what a typedef may carry: at
/// most 2^28 bytes.
pub open spec fn snapshot_within_limit(bytes: Option<u32>) -> bool {
    match bytes {
        Some(b) => b <= 268435456,
        None => true,
    }
}

/// The outermost alignment snapshot of a type, through at most `steps`
/// types: the first that carries an alignment or an origin, as its bytes
/// and origin, or neither where the chain ends without one; `None` for an
/// unknown name, a snapshot that disagrees with its origin or is too
/// large, or too long a chain.
pub open spec fn alignment_metadata_steps(
    typedefs: Seq<(String, Type)>,
    origins: Seq<AlignmentOrigin>,
    ty: Type,
    steps: nat,
) -> Option<(Option<u32>, Option<AlignmentOriginId>)>
    decreases steps,
{
    if steps == 0 {
        None
    } else if ty.alignment.bytes_spec() is Some || ty.alignment.origin_spec() is Some {
        if snapshot_valid(origins, ty.alignment) && snapshot_within_limit(ty.alignment.bytes_spec()) {
            Some((ty.alignment.bytes_spec(), ty.alignment.origin_spec()))
        } else {
            None
        }
    } else {
        match ty.kind {
            TypeKind::Typedef(name) => match typedef_from(typedefs, name@, 0) {
                Some(i) => alignment_metadata_steps(typedefs, origins, typedefs[i].1, (steps - 1) as nat),
                None => None,
            },
            _ => Some((None, None)),
        }
    }
}

/// Returns the outermost alignment snapshot, including its optional
/// ancestry, without applying it to a pointee or a referenced record.
pub fn typedef_alignment_metadata(
    typedefs: &[(String, Type)],
    origins: &[AlignmentOrigin],
    ty: &Type,
) -> (r: Result<TypeAlignment, Error>)
    ensures
        match r {
            Ok(a) => alignment_metadata_steps(typedefs@, origins@, *ty, 128) == Some((a.bytes_spec(), a.origin_spec())),
            Err(_) => alignment_metadata_steps(typedefs@, origins@, *ty, 128) is None,
        },
{
    let mut current: &Type = ty;
    let mut step: usize = 0;
    while step < 128
        invariant
            step <= 128,
            alignment_metadata_steps(typedefs@, origins@, *ty, 128) == alignment_metadata_steps(
                typedefs@,
                origins@,
                *current,
                (128 - step) as nat,
            ),
        decreases 128 - step,
    {
        if current.alignment.has_metadata() {
            let alignment = current.alignment;
            match validate_alignment_snapshot(origins, alignment) {
                Ok(()) => {},
                Err(e) => {
                    return Err(e);
                },
            }
            match alignment.bytes() {
                Some(b) => {
                    if b > 268435456 {
                        return Err(Error::new(0, "typedef alignment must be a supported power of two"));
                    }
                },
                None => {},
            }
            return Ok(alignment);
        }
        match &current.kind {
            TypeKind::Typedef(name) => {
                proof {
                    lemma_typedef_from(typedefs@, name@, 0);
                }
                match find_typedef(typedefs, name) {
                    Some(i) => {
                        current = &typedefs[i].1;
                    },
                    None => {
                        return Err(unknown_typedef(name));
                    },
                }
            },
            _ => {
                return Ok(TypeAlignment::none());
            },
        }
        step = step + 1;
    }
    Err(Error::new(0, "typedef alignment resolution exceeds the 128-level limit"))
}

/// Returns the outermost vendor typedef alignment override in bytes.
pub fn typedef_alignment(typedefs: &[(String, Type)], origins: &[AlignmentOrigin], ty: &Type) -> (r: Result<
    Option<u32>,
    Error,
>)
    ensures
        match r {
            Ok(b) => alignment_metadata_steps(typedefs@, origins@, *ty, 128) matches Some(m) && m.0 == b,
            Err(_) => alignment_metadata_steps(typedefs@, origins@, *ty, 128) is None,
        },
{
    match typedef_alignment_metadata(typedefs, origins, ty) {
        Ok(a) => Ok(a.bytes()),
        Err(e) => Err(e),
    }
}

/// The type a chain of typedef names ends at, through at most `steps`
/// names, `None` for an unknown name or a longer chain.
pub open spec fn typedef_target(typedefs: Seq<(String, Type)>, ty: Type, steps: nat) -> Option<Type>
    decreases steps,
{
    match ty.kind {
        TypeKind::Typedef(name) => if steps == 0 {
            None
        } else {
            match typedef_from(typedefs, name@, 0) {
                Some(i) => typedef_target(typedefs, typedefs[i].1, (steps - 1) as nat),
                None => None,
            }
        },
        _ => Some(ty),
    }
}

/// The union a type denotes when it carries GNU transparent argument
/// passing: `Some(None)` for any other type, `None` for an unknown name,
/// too long a chain, an invalid record identity or a transparent record
/// that is not a union.
pub open spec fn transparent_union_of(typedefs: Seq<(String, Type)>, records: Seq<Record>, ty: Type) -> Option<
    Option<usize>,
> {
    match typedef_target(typedefs, ty, 128) {
        None => None,
        Some(t) => match t.kind {
            TypeKind::Record(id) => if id >= records.len() {
                None
            } else if !records[id as int].transparent_union {
                Some(None)
            } else if records[id as int].kind != RecordKind::Union {
                None
            } else {
                Some(Some(id))
            },
            _ => Some(None),
        },
    }
}

/// Returns the union carrying GNU transparent argument passing. GNU direct
/// attributed typedefs have distinct nominal record identities; Clang
/// profiles apply the annotation to the existing union identity.
pub fn transparent_union(typedefs: &[(String, Type)], records: &[Record], ty: &Type) -> (r: Result<Option<usize>, Error>)
    ensures
        match r {
            Ok(x) => transparent_union_of(typedefs@, records@, *ty) == Some(x),
            Err(_) => transparent_union_of(typedefs@, records@, *ty) is None,
        },
{
    let mut current: &Type = ty;
    let mut depth: usize = 0;
    loop
        invariant
            depth <= 128,
            typedef_target(typedefs@, *ty, 128) == typedef_target(typedefs@, *current, (128 - depth) as nat),
        ensures
            typedef_target(typedefs@, *ty, 128) == Some(*current),
            !(current.kind is Typedef),
        decreases 128 - depth,
    {
        match &current.kind {
            TypeKind::Typedef(name) => {
                if depth >= 128 {
                    return Err(Error::new(0, "typedef resolution exceeds the 128-level limit"));
                }
                depth = depth + 1;
                proof {
                    lemma_typedef_from(typedefs@, name@, 0);
                }
                match find_typedef(typedefs, name) {
                    Some(i) => {
                        current = &typedefs[i].1;
                    },
                    None => {
                        return Err(unknown_typedef(name));
                    },
                }
            },
            _ => {
                break ;
            },
        }
    }
    let id = match current.kind {
        TypeKind::Record(id) => id,
        _ => {
            return Ok(None);
        },
    };
    if id >= records.len() {
        return Err(Error::new(0, "invalid record identity"));
    }
    let record = &records[id];
    if record.transparent_union {
        if record.kind != RecordKind::Union {
            return Err(Error::new(0, "transparent_union requires a union type"));
        }
        Ok(Some(id))
    } else {
        Ok(None)
    }
}


/// A variable-length array type is variably modified: wherever
/// [`is_variable_length_array`] answers yes, [`is_variably_modified`] does.
pub proof fn lemma_variable_length_is_variably_modified(typedefs: Seq<(String, Type)>, ty: Type, steps: nat)
    requires
        variable_length_steps(typedefs, ty, steps) == Some(true),
    ensures
        variably_modified_steps(typedefs, ty, steps) == Some(true),
    decreases steps,
{
    if steps > 0 {
        match resolved_type(typedefs, ty) {
            Some(r) => match r.kind {
                TypeKind::Array { element, length: _ } => lemma_variable_length_is_variably_modified(
                    typedefs,
                    *element,
                    (steps - 1) as nat,
                ),
                _ => {},
            },
            None => {},
        }
    }
}

/// Resolution is idempotent: a resolved type resolves to itself.
pub proof fn lemma_resolve_idempotent(typedefs: Seq<(String, Type)>, ty: Type)
    requires
        resolved_type(typedefs, ty) is Some,
    ensures
        resolved_type(typedefs, resolved_type(typedefs, ty)->0) == resolved_type(typedefs, ty),
{
    lemma_resolve_chain_ends(typedefs, ty, Seq::empty(), 128);
}

proof fn lemma_resolve_chain_ends(typedefs: Seq<(String, Type)>, ty: Type, visited: Seq<Seq<char>>, fuel: nat)
    ensures
        resolve_chain(typedefs, ty, visited, fuel) matches Some(t) ==> !(t.kind is Typedef),
    decreases fuel,
{
    match ty.kind {
        TypeKind::Typedef(name) => if fuel > 0 && !visited.contains(name@) {
            match typedef_from(typedefs, name@, 0) {
                Some(i) => lemma_resolve_chain_ends(typedefs, typedefs[i].1, visited.push(name@), (fuel - 1) as nat),
                None => {},
            }
        },
        _ => {},
    }
}

} // verus!
