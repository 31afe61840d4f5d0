//! Identifier-list (old-style) function definitions: every listed name is
//! declared exactly once in the declaration list that follows, and the
//! declarations are matched back to the list's order.

use crate::error::Error;
use vstd::prelude::*;

verus! {

/// The most identifiers an identifier list may hold.
pub const MAX_PARAMETERS: usize = 65536;

/// One name of the identifier list, as written.
#[derive(Clone, Debug)]
pub struct OldStyleIdentifier {
    pub name: String,
    pub start: usize,
    /// Whether the name is a visible typedef name.
    pub is_typedef: bool,
}

/// One declarator of the parameter declaration list, with the facts its
/// declared type gives.
#[derive(Clone, Debug)]
pub struct OldStyleItem {
    /// The declared identifier; `None` for an abstract declarator.
    pub name: Option<String>,
    pub start: usize,
    pub has_initializer: bool,
    /// Whether the declared type is a sizeless (SVE) value type.
    pub sizeless: bool,
    /// Whether the declared type is a complete object type.
    pub complete: bool,
}

/// One declaration of the parameter declaration list.
#[derive(Clone, Debug)]
pub struct OldStyleDeclaration {
    pub start: usize,
    /// Whether its first specifier is an attribute.
    pub starts_with_attribute: bool,
    pub items: Vec<OldStyleItem>,
}

/// Whether the item declares the identifier `name`.
pub open spec fn declares(item: OldStyleItem, name: Seq<char>) -> bool {
    match item.name {
        Some(n) => n@ == name,
        None => false,
    }
}

/// Whether two items declare the same identifier.
pub open spec fn same_name(a: OldStyleItem, b: OldStyleItem) -> bool {
    match (a.name, b.name) {
        (Some(x), Some(y)) => x@ == y@,
        _ => false,
    }
}

/// The declarators of a declaration list, in source order.
pub open spec fn flat_items(decls: Seq<OldStyleDeclaration>) -> Seq<OldStyleItem>
    decreases decls.len(),
{
    if decls.len() == 0 {
        Seq::empty()
    } else {
        flat_items(decls.drop_last()) + decls.last().items@
    }
}

/// The names of an identifier list.
pub open spec fn id_names(ids: Seq<OldStyleIdentifier>) -> Seq<Seq<char>> {
    ids.map_values(|x: OldStyleIdentifier| x.name@)
}

/// The identifier list is within the limit, names no typedef, and names
/// nothing twice.
pub open spec fn identifiers_valid(ids: Seq<OldStyleIdentifier>) -> bool {
    let names = id_names(ids);
    &&& ids.len() <= MAX_PARAMETERS
    &&& forall|i: int| 0 <= i < ids.len() ==> !(#[trigger] ids[i]).is_typedef
    &&& forall|i: int, j: int| 0 <= i < j < ids.len() ==> #[trigger] names[i] != #[trigger] names[j]
}

/// Each declaration declares something and, under the GNU profile, does not
/// start with an attribute.
pub open spec fn declarations_valid(decls: Seq<OldStyleDeclaration>, gnu: bool) -> bool {
    forall|d: int| 0 <= d < decls.len() ==> !(gnu && (#[trigger] decls[d]).starts_with_attribute) && decls[d].items.len() > 0
}

/// The item declares one of the listed names, without an initializer, as a
/// complete object type that is not sizeless.
pub open spec fn item_valid(item: OldStyleItem, names: Seq<Seq<char>>) -> bool {
    &&& exists|i: int| 0 <= i < names.len() && declares(item, #[trigger] names[i])
    &&& !item.has_initializer
    &&& !item.sizeless
    &&& item.complete
}

/// Every item is valid and no name is declared twice.
pub open spec fn items_valid(items: Seq<OldStyleItem>, names: Seq<Seq<char>>) -> bool {
    &&& forall|k: int| 0 <= k < items.len() ==> item_valid(#[trigger] items[k], names)
    &&& forall|k: int, l: int| 0 <= k < l < items.len() ==> !same_name(#[trigger] items[k], #[trigger] items[l])
}

/// Every listed name has a declaration.
pub open spec fn all_declared(items: Seq<OldStyleItem>, names: Seq<Seq<char>>) -> bool {
    forall|i: int| 0 <= i < names.len() ==> is_declared(items, #[trigger] names[i])
}

/// Some item declares `name`.
pub open spec fn is_declared(items: Seq<OldStyleItem>, name: Seq<char>) -> bool {
    exists|k: int| 0 <= k < items.len() && declares(#[trigger] items[k], name)
}

/// Whether an identifier-list definition's parameters are well declared.
pub open spec fn old_style_accepted(ids: Seq<OldStyleIdentifier>, decls: Seq<OldStyleDeclaration>, gnu: bool) -> bool {
    &&& identifiers_valid(ids)
    &&& declarations_valid(decls, gnu)
    &&& items_valid(flat_items(decls), id_names(ids))
    &&& all_declared(flat_items(decls), id_names(ids))
}

/// The first identifier at or after `i` that the list refuses: a typedef
/// name, or a name an earlier identifier already has.
pub open spec fn identifier_fault(ids: Seq<OldStyleIdentifier>, i: int) -> Option<(usize, Seq<char>)>
    decreases ids.len() - i,
{
    if i < 0 || i >= ids.len() {
        None
    } else if ids[i].is_typedef {
        Some((ids[i].start, "a typedef name cannot appear in an identifier-list definition"@))
    } else if exists|j: int| 0 <= j < i && (#[trigger] ids[j]).name@ == ids[i].name@ {
        Some((ids[i].start, "duplicate identifier in function parameter list"@))
    } else {
        identifier_fault(ids, i + 1)
    }
}

/// What is wrong with one declarator, given the declarators before it.
pub open spec fn item_fault(item: OldStyleItem, names: Seq<Seq<char>>, earlier: Seq<OldStyleItem>) -> Option<(usize, Seq<char>)> {
    match item.name {
        None => Some((item.start, "old-style parameter requires an identifier"@)),
        Some(n) => if !(exists|i: int| 0 <= i < names.len() && #[trigger] names[i] == n@) {
            Some((item.start, "declaration names a parameter absent from the identifier list"@))
        } else if item.has_initializer {
            Some((item.start, "function parameters cannot have initializers"@))
        } else if exists|k: int| 0 <= k < earlier.len() && declares(#[trigger] earlier[k], n@) {
            Some((item.start, "duplicate parameter declaration"@))
        } else if item.sizeless {
            Some((item.start, "SVE value definitions require unsupported target-feature configuration"@))
        } else if !item.complete {
            Some((item.start, "function definition parameter requires a complete object type"@))
        } else {
            None
        },
    }
}

/// The first faulty declarator of a declaration from position `m`, after
/// the declarators `earlier` of the declarations before it.
pub open spec fn items_fault(items: Seq<OldStyleItem>, m: int, earlier: Seq<OldStyleItem>, names: Seq<Seq<char>>) -> Option<(usize, Seq<char>)>
    decreases items.len() - m,
{
    if m < 0 || m >= items.len() {
        None
    } else {
        match item_fault(items[m], names, earlier + items.take(m)) {
            Some(f) => Some(f),
            None => items_fault(items, m + 1, earlier, names),
        }
    }
}

/// The first fault of the declarations from position `d`: a GNU declaration
/// that starts with an attribute, one that declares nothing, or a faulty
/// declarator.
pub open spec fn declarations_fault(decls: Seq<OldStyleDeclaration>, gnu: bool, names: Seq<Seq<char>>, d: int) -> Option<(usize, Seq<char>)>
    decreases decls.len() - d,
{
    if d < 0 || d >= decls.len() {
        None
    } else if gnu && decls[d].starts_with_attribute {
        Some((decls[d].start, "GNU identifier-list parameter declarations cannot start with attributes"@))
    } else if decls[d].items.len() == 0 {
        Some((decls[d].start, "an old-style parameter declaration must declare a parameter"@))
    } else {
        match items_fault(decls[d].items@, 0, flat_items(decls.take(d)), names) {
            Some(f) => Some(f),
            None => declarations_fault(decls, gnu, names, d + 1),
        }
    }
}

/// The first listed name from position `i` that no declarator declares.
pub open spec fn undeclared_fault(items: Seq<OldStyleItem>, ids: Seq<OldStyleIdentifier>, i: int) -> Option<(usize, Seq<char>)>
    decreases ids.len() - i,
{
    if i < 0 || i >= ids.len() {
        None
    } else if !is_declared(items, ids[i].name@) {
        Some((ids[i].start, "C11 requires a declaration for every identifier-list parameter"@))
    } else {
        undeclared_fault(items, ids, i + 1)
    }
}

/// The offset and diagnostic of the first fault of an identifier-list
/// definition, in the order the checks run.
pub open spec fn old_style_fault(ids: Seq<OldStyleIdentifier>, decls: Seq<OldStyleDeclaration>, gnu: bool, offset: usize) -> Option<(usize, Seq<char>)> {
    if ids.len() > MAX_PARAMETERS {
        Some((offset, "old-style definition exceeds the 65536-parameter limit"@))
    } else {
        match identifier_fault(ids, 0) {
            Some(f) => Some(f),
            None => match declarations_fault(decls, gnu, id_names(ids), 0) {
                Some(f) => Some(f),
                None => undeclared_fault(flat_items(decls), ids, 0),
            },
        }
    }
}

proof fn lemma_flat_append(a: Seq<OldStyleDeclaration>, b: Seq<OldStyleDeclaration>)
    ensures
        flat_items(a + b) == flat_items(a) + flat_items(b),
    decreases b.len(),
{
    if b.len() == 0 {
        assert(a + b =~= a);
        assert(flat_items(a) + flat_items(b) =~= flat_items(a));
    } else {
        assert((a + b).drop_last() =~= a + b.drop_last());
        assert((a + b).last() == b.last());
        lemma_flat_append(a, b.drop_last());
        assert(flat_items(a + b) =~= flat_items(a) + flat_items(b));
    }
}

proof fn lemma_flat_step(decls: Seq<OldStyleDeclaration>, d: int)
    requires
        0 <= d < decls.len(),
    ensures
        flat_items(decls.take(d + 1)) == flat_items(decls.take(d)) + decls[d].items@,
{
    assert(decls.take(d + 1).drop_last() =~= decls.take(d));
}

/// The declarators before item `m` of declaration `d` are a prefix of all
/// declarators, and that item follows them.
proof fn lemma_flat_position(decls: Seq<OldStyleDeclaration>, d: int, m: int)
    requires
        0 <= d < decls.len(),
        0 <= m < decls[d].items@.len(),
    ensures
        ({
            let done = flat_items(decls.take(d)) + decls[d].items@.take(m);
            &&& done.len() < flat_items(decls).len()
            &&& forall|j: int| 0 <= j < done.len() ==> flat_items(decls)[j] == done[j]
            &&& flat_items(decls)[done.len() as int] == decls[d].items@[m]
        }),
{
    lemma_flat_step(decls, d);
    assert(decls =~= decls.take(d + 1) + decls.skip(d + 1));
    lemma_flat_append(decls.take(d + 1), decls.skip(d + 1));
}

fn names_equal(a: &String, b: &String) -> (r: bool)
    ensures
        r == (a@ == b@),
{
    let t = crate::text::chars(a.as_str());
    crate::text::chars_equal(t.as_slice(), b.as_str())
}

/// The first of the first `limit` identifiers named `name`.
fn find_identifier(ids: &[OldStyleIdentifier], limit: usize, name: &String) -> (r: Option<usize>)
    requires
        limit <= ids@.len(),
    ensures
        match r {
            Some(i) => i < limit && ids@[i as int].name@ == name@,
            None => forall|i: int| 0 <= i < limit ==> (#[trigger] ids@[i]).name@ != name@,
        },
{
    let mut i: usize = 0;
    while i < limit
        invariant
            i <= limit <= ids@.len(),
            forall|j: int| 0 <= j < i ==> (#[trigger] ids@[j]).name@ != name@,
        decreases limit - i,
    {
        if names_equal(&ids[i].name, name) {
            return Some(i);
        }
        i = i + 1;
    }
    None
}

fn check_identifiers(identifiers: &[OldStyleIdentifier], offset: usize) -> (r: Result<(), Error>)
    ensures
        r is Ok <==> identifiers_valid(identifiers@),
        r is Ok ==> identifier_fault(identifiers@, 0) is None,
        r matches Err(e) ==> (if identifiers@.len() > MAX_PARAMETERS {
            (offset, "old-style definition exceeds the 65536-parameter limit"@)
        } else {
            identifier_fault(identifiers@, 0)->0
        }) == (e.offset, e.message@) && (identifiers@.len() > MAX_PARAMETERS || identifier_fault(identifiers@, 0) is Some),
{
    if identifiers.len() > MAX_PARAMETERS {
        return Err(Error::new(offset, "old-style definition exceeds the 65536-parameter limit"));
    }
    let mut i: usize = 0;
    while i < identifiers.len()
        invariant
            i <= identifiers@.len() <= MAX_PARAMETERS,
            forall|j: int| 0 <= j < i ==> !(#[trigger] identifiers@[j]).is_typedef,
            forall|j: int, l: int| 0 <= j < l < i ==> #[trigger] id_names(identifiers@)[j] != #[trigger] id_names(identifiers@)[l],
            identifier_fault(identifiers@, 0) == identifier_fault(identifiers@, i as int),
        decreases identifiers.len() - i,
    {
        let identifier = &identifiers[i];
        if identifier.is_typedef {
            return Err(Error::new(identifier.start, "a typedef name cannot appear in an identifier-list definition"));
        }
        match find_identifier(identifiers, i, &identifier.name) {
            Some(j) => {
                proof {
                    assert(identifiers@[j as int].name@ == identifiers@[i as int].name@);
                    assert(id_names(identifiers@)[j as int] == identifiers@[j as int].name@);
                    assert(id_names(identifiers@)[i as int] == identifiers@[i as int].name@);
                }
                return Err(Error::new(identifier.start, "duplicate identifier in function parameter list"));
            },
            None => {},
        }
        proof {
            assert(!(exists|j: int| 0 <= j < i && (#[trigger] identifiers@[j]).name@ == identifiers@[i as int].name@));
        }
        i = i + 1;
    }
    Ok(())
}

/// Matches the declaration list of an identifier-list definition to its
/// identifiers: the result gives, for each listed name in order, the
/// position among all declarators of the one that declares it.
///
/// The list must stay within the parameter limit and name neither a typedef
/// nor any name twice; under the GNU profile no declaration may start with an
/// attribute; each declaration declares something; each declarator names a
/// listed identifier that no earlier declarator named, with no initializer,
/// as a complete object type that is not sizeless; and every listed name is
/// declared.
pub fn order_old_style_parameters(
    identifiers: &[OldStyleIdentifier],
    declarations: &[OldStyleDeclaration],
    gnu: bool,
    offset: usize,
) -> (r: Result<Vec<usize>, Error>)
    ensures
        r is Ok <==> old_style_accepted(identifiers@, declarations@, gnu),
        r matches Err(e) ==> old_style_fault(identifiers@, declarations@, gnu, offset) == Some((e.offset, e.message@)),
        r matches Ok(order) ==> {
            let items = flat_items(declarations@);
            let names = id_names(identifiers@);
            &&& order@.len() == identifiers@.len()
            &&& forall|i: int| 0 <= i < order@.len() ==> (#[trigger] order@[i]) < items.len()
                && declares(items[order@[i] as int], names[i])
            &&& forall|i: int, j: int| 0 <= i < j < order@.len() ==> (#[trigger] order@[i]) != (#[trigger] order@[j])
            &&& forall|k: usize| k < items.len() ==> #[trigger] order@.contains(k)
        },
{
    check_identifiers(identifiers, offset)?;
    let ghost ids = identifiers@;
    let ghost names = id_names(ids);
    let ghost decls = declarations@;
    let mut order: Vec<Option<usize>> = Vec::new();
    let mut i: usize = 0;
    while i < identifiers.len()
        invariant
            i <= ids.len(),
            ids == identifiers@,
            names == id_names(ids),
            order@.len() == i,
            forall|j: int| 0 <= j < i ==> (#[trigger] order@[j]) is None,
        decreases identifiers.len() - i,
    {
        order.push(None);
        i = i + 1;
    }
    proof {
        assert(filled(order@) == 0) by {
            lemma_filled_zero(order@);
        }
    }
    let ghost mut done: Seq<OldStyleItem> = Seq::empty();
    let mut count: usize = 0;
    let mut d: usize = 0;
    while d < declarations.len()
        invariant
            identifiers_valid(ids),
            ids == identifiers@,
            names == id_names(ids),
            decls == declarations@,
            d <= decls.len(),
            done == flat_items(decls.take(d as int)),
            count == done.len(),
            count == filled(order@),
            order@.len() == ids.len(),
            forall|e: int| 0 <= e < d ==> !(gnu && (#[trigger] decls[e]).starts_with_attribute) && decls[e].items.len() > 0,
            items_valid(done, names),
            old_style_fault(ids, decls, gnu, offset) == match declarations_fault(decls, gnu, names, d as int) {
                Some(f) => Some(f),
                None => undeclared_fault(flat_items(decls), ids, 0),
            },
            forall|j: int| 0 <= j < ids.len() ==> match #[trigger] order@[j] {
                Some(k) => k < done.len() && declares(done[k as int], names[j]),
                None => forall|k: int| #![trigger done[k]] 0 <= k < done.len() ==> !declares(done[k], names[j]),
            },
        decreases declarations.len() - d,
    {
        let declaration = &declarations[d];
        if gnu && declaration.starts_with_attribute {
            return Err(Error::new(declaration.start, "GNU identifier-list parameter declarations cannot start with attributes"));
        }
        if declaration.items.len() == 0 {
            return Err(Error::new(declaration.start, "an old-style parameter declaration must declare a parameter"));
        }
        let ghost start = done;
        proof {
            assert(decls[d as int] == *declaration);
        }
        let mut m: usize = 0;
        while m < declaration.items.len()
            invariant
                identifiers_valid(ids),
                ids == identifiers@,
                names == id_names(ids),
            names == id_names(ids),
                decls == declarations@,
                d < decls.len(),
                *declaration == decls[d as int],
                start == flat_items(decls.take(d as int)),
                m <= declaration.items@.len(),
                old_style_fault(ids, decls, gnu, offset) == match declarations_fault(decls, gnu, names, d as int) {
                    Some(f) => Some(f),
                    None => undeclared_fault(flat_items(decls), ids, 0),
                },
                declarations_fault(decls, gnu, names, d as int) == match items_fault(declaration.items@, 0, start, names) {
                    Some(f) => Some(f),
                    None => declarations_fault(decls, gnu, names, d as int + 1),
                },
                items_fault(declaration.items@, 0, start, names) == items_fault(declaration.items@, m as int, start, names),
                done == start + declaration.items@.take(m as int),
                count == done.len(),
                count == filled(order@),
                order@.len() == ids.len(),
                items_valid(done, names),
                forall|j: int| 0 <= j < ids.len() ==> match #[trigger] order@[j] {
                    Some(k) => k < done.len() && declares(done[k as int], names[j]),
                    None => forall|k: int| #![trigger done[k]] 0 <= k < done.len() ==> !declares(done[k], names[j]),
                },
            decreases declaration.items.len() - m,
        {
            let item = &declaration.items[m];
            proof {
                lemma_flat_position(decls, d as int, m as int);
            }
            let ghost items = flat_items(decls);
            let ghost at = done.len() as int;
            assert(items[at] == *item);
            let name = match &item.name {
                Some(name) => name,
                None => {
                    proof {
                        assert(!item_valid(items[at], names));
                    }
                    return Err(Error::new(item.start, "old-style parameter requires an identifier"));
                },
            };
            let index = match find_identifier(identifiers, identifiers.len(), name) {
                Some(index) => index,
                None => {
                    proof {
                        assert(!item_valid(items[at], names));
                        assert forall|i: int| 0 <= i < names.len() implies #[trigger] names[i] != name@ by {
                            assert(names[i] == ids[i].name@);
                        }
                    }
                    return Err(Error::new(item.start, "declaration names a parameter absent from the identifier list"));
                },
            };
            proof {
                assert(names[index as int] == name@);
            }
            if item.has_initializer {
                return Err(Error::new(item.start, "function parameters cannot have initializers"));
            }
            match order[index] {
                Some(k) => {
                    proof {
                        assert(items[k as int] == done[k as int]);
                        assert(same_name(items[k as int], items[at]));
                        assert(declares(done[k as int], name@));
                    }
                    return Err(Error::new(item.start, "duplicate parameter declaration"));
                },
                None => {},
            }
            proof {
                assert(forall|k: int| 0 <= k < done.len() ==> !declares(#[trigger] done[k], name@));
            }
            if item.sizeless {
                return Err(Error::new(item.start, "SVE value definitions require unsupported target-feature configuration"));
            }
            if !item.complete {
                return Err(Error::new(item.start, "function definition parameter requires a complete object type"));
            }
            proof {
                assert(declares(*item, names[index as int]));
                assert(forall|k: int| 0 <= k < done.len() ==> !same_name(#[trigger] done[k], *item));
                lemma_filled_none(order@, index as int);
                lemma_filled_update(order@, index as int, count);
            }
            order.set(index, Some(count));
            proof {
                let before = done;
                done = done.push(*item);
                assert(done =~= start + declaration.items@.take(m as int + 1));
                assert forall|k: int, l: int| 0 <= k < l < done.len() implies !same_name(#[trigger] done[k], #[trigger] done[l]) by {
                    if l < before.len() {
                        assert(done[k] == before[k] && done[l] == before[l]);
                    } else {
                        assert(done[k] == before[k]);
                    }
                }
                assert forall|k: int| 0 <= k < done.len() implies item_valid(#[trigger] done[k], names) by {
                    if k < before.len() {
                        assert(done[k] == before[k]);
                    }
                }
                assert forall|j: int| 0 <= j < ids.len() implies match #[trigger] order@[j] {
                    Some(k) => k < done.len() && declares(done[k as int], names[j]),
                    None => forall|k: int| #![trigger done[k]] 0 <= k < done.len() ==> !declares(done[k], names[j]),
                } by {
                    if j != index as int {
                        if names[j] == names[index as int] {
                            if j < index {
                                assert(names[j] != names[index as int]);
                            } else {
                                assert(names[index as int] != names[j]);
                            }
                        }
                        match order@[j] {
                            Some(k) => {
                                assert(done[k as int] == before[k as int]);
                            },
                            None => {
                                assert forall|k: int| 0 <= k < done.len() implies !declares(#[trigger] done[k], names[j]) by {
                                    if k < before.len() {
                                        assert(done[k] == before[k]);
                                    }
                                }
                            },
                        }
                    }
                }
            }
            count = count + 1;
            m = m + 1;
        }
        proof {
            assert(declaration.items@.take(m as int) =~= declaration.items@);
            lemma_flat_step(decls, d as int);
            assert(items_fault(declaration.items@, m as int, start, names) is None);
        }
        d = d + 1;
    }
    proof {
        assert(decls.take(d as int) =~= decls);
    }
    assert(old_style_fault(ids, decls, gnu, offset) == undeclared_fault(done, ids, 0));
    let mut result: Vec<usize> = Vec::new();
    let mut i: usize = 0;
    while i < identifiers.len()
        invariant
            identifiers_valid(ids),
            ids == identifiers@,
            names == id_names(ids),
            decls == declarations@,
            done == flat_items(decls),
            declarations_valid(decls, gnu),
            items_valid(done, names),
            order@.len() == ids.len(),
            forall|j: int| 0 <= j < ids.len() ==> match #[trigger] order@[j] {
                Some(k) => k < done.len() && declares(done[k as int], names[j]),
                None => forall|k: int| #![trigger done[k]] 0 <= k < done.len() ==> !declares(done[k], names[j]),
            },
            i <= ids.len(),
            result@.len() == i,
            forall|j: int| 0 <= j < i ==> order@[j] == Some(#[trigger] result@[j]),
            old_style_fault(ids, decls, gnu, offset) == undeclared_fault(done, ids, i as int),
        decreases identifiers.len() - i,
    {
        match order[i] {
            Some(k) => {
                proof {
                    assert(names[i as int] == ids[i as int].name@);
                    assert(declares(done[k as int], names[i as int]));
                }
                result.push(k);
            },
            None => {
                proof {
                    assert(!is_declared(done, names[i as int]));
                    assert(!all_declared(done, names));
                    assert(names[i as int] == ids[i as int].name@);
                }
                return Err(Error::new(identifiers[i].start, "C11 requires a declaration for every identifier-list parameter"));
            },
        }
        i = i + 1;
    }
    proof {
        assert forall|j: int| 0 <= j < ids.len() implies ((#[trigger] order@[j]) matches Some(k) && k < done.len()
            && declares(done[k as int], names[j])) by {
            assert(order@[j] == Some(result@[j]));
        }
        lemma_declared_from_order(done, names, order@);
        assert forall|a: int, b: int| 0 <= a < b < result@.len() implies (#[trigger] result@[a]) != (#[trigger] result@[b]) by {
            assert(order@[a] == Some(result@[a]));
            assert(order@[b] == Some(result@[b]));
            if result@[a] == result@[b] {
                assert(names[a] != names[b]);
            }
        }
        assert forall|k: usize| k < done.len() implies #[trigger] result@.contains(k) by {
            assert(item_valid(done[k as int], names));
            let a = choose|a: int| 0 <= a < ids.len() && declares(done[k as int], #[trigger] names[a]);
            assert(order@[a] == Some(result@[a]));
            let kk = result@[a] as int;
            if kk != k {
                assert(same_name(done[kk], done[k as int]));
                if kk < k {
                    assert(!same_name(done[kk], done[k as int]));
                } else {
                    assert(!same_name(done[k as int], done[kk]));
                }
            }
            assert(result@[a] == k);
        }
        assert forall|a: int| 0 <= a < result@.len() implies (#[trigger] result@[a]) < done.len()
            && declares(done[result@[a] as int], names[a]) by {
            assert(order@[a] == Some(result@[a]));
        }
    }
    Ok(result)
}

proof fn lemma_declared_from_order(done: Seq<OldStyleItem>, names: Seq<Seq<char>>, order: Seq<Option<usize>>)
    requires
        order.len() == names.len(),
        forall|j: int| 0 <= j < names.len() ==> ((#[trigger] order[j]) matches Some(k) && k < done.len()
            && declares(done[k as int], names[j])),
    ensures
        all_declared(done, names),
{
    assert forall|j: int| 0 <= j < names.len() implies is_declared(done, #[trigger] names[j]) by {
        let k = order[j]->0 as int;
        assert(declares(done[k], names[j]));
    }
}

/// How many slots of `s` are filled.
spec fn filled(s: Seq<Option<usize>>) -> nat
    decreases s.len(),
{
    if s.len() == 0 {
        0
    } else {
        filled(s.drop_last()) + if s.last() is Some { 1nat } else { 0nat }
    }
}

proof fn lemma_filled_none(s: Seq<Option<usize>>, i: int)
    requires
        0 <= i < s.len(),
        s[i] is None,
    ensures
        filled(s) < s.len(),
    decreases s.len(),
{
    if i == s.len() - 1 {
        lemma_filled_bound(s.drop_last());
    } else {
        lemma_filled_none(s.drop_last(), i);
    }
}

proof fn lemma_filled_zero(s: Seq<Option<usize>>)
    requires
        forall|j: int| 0 <= j < s.len() ==> (#[trigger] s[j]) is None,
    ensures
        filled(s) == 0,
    decreases s.len(),
{
    if s.len() > 0 {
        lemma_filled_zero(s.drop_last());
    }
}

proof fn lemma_filled_bound(s: Seq<Option<usize>>)
    ensures
        filled(s) <= s.len(),
    decreases s.len(),
{
    if s.len() > 0 {
        lemma_filled_bound(s.drop_last());
    }
}

proof fn lemma_filled_update(s: Seq<Option<usize>>, i: int, x: usize)
    requires
        0 <= i < s.len(),
        s[i] is None,
    ensures
        filled(s.update(i, Some(x))) == filled(s) + 1,
    decreases s.len(),
{
    let t = s.update(i, Some(x));
    if i == s.len() - 1 {
        assert(t.drop_last() =~= s.drop_last());
    } else {
        assert(t.drop_last() =~= s.drop_last().update(i, Some(x)));
        lemma_filled_update(s.drop_last(), i, x);
    }
}

} // verus!
