//! Lexical record containment without introducing a C tag namespace.

use crate::error::Error;
use std::collections::BTreeMap;
use vstd::prelude::*;

verus! {

/// A tag's definition location, or its first declaration while incomplete.
#[derive(Clone, Copy, Debug, PartialEq, Eq, Structural)]
pub struct TagLexicalOrigin {
    /// Nearest lexically enclosing record definition, in the same unit.
    /// This does not change the tag's C scope or canonical identity.
    pub record: Option<usize>,
    /// Relative order in the parser input. This is not a diagnostic source offset.
    pub order: usize,
    /// A file-scope declaration outside a record preceded this definition.
    /// Later references to a completed tag do not change this fact.
    pub prior_file_declaration: bool,
    /// First direct typedef naming this anonymous definition.
    pub typedef_declaration: Option<usize>,
}

/// Sparse origins for nested and anonymous tags. Ordinary named file tags need
/// no entry. Record and enum origins share the same source-order coordinates.
#[derive(Clone, Debug)]
pub struct TagLexicalOrigins {
    pub records: BTreeMap<usize, TagLexicalOrigin>,
    pub enums: BTreeMap<usize, TagLexicalOrigin>,
}

/// A record or enum tag, by its table index.
#[derive(Clone, Copy, Debug, PartialEq, Eq, Structural)]
pub enum LexicalTag {
    Record(usize),
    Enum(usize),
}

/// The most origins one unit holds.
pub const MAX_LEXICAL_TAGS: usize = 1000000;

/// What noting a tag occurrence does to a table of origins of one kind, or
/// None when the table is full. `id` is the tag's index; `nested` is the
/// nearest enclosing record definition.
pub open spec fn noted_entries(
    entries: Map<usize, TagLexicalOrigin>,
    count: nat,
    id: usize,
    introduced: bool,
    definition: bool,
    complete: bool,
    anonymous: bool,
    order: usize,
    file_scope: bool,
    nested: Option<usize>,
) -> Option<Map<usize, TagLexicalOrigin>> {
    if complete || (!definition && !introduced) {
        Some(entries)
    } else if nested is None && !anonymous {
        Some(entries.remove(id))
    } else if !entries.contains_key(id) && count >= MAX_LEXICAL_TAGS {
        None
    } else {
        let prior = file_scope && !introduced && (!entries.contains_key(id)
            || entries[id].prior_file_declaration);
        Some(
            entries.insert(
                id,
                TagLexicalOrigin {
                    record: nested,
                    order,
                    prior_file_declaration: prior,
                    typedef_declaration: None,
                },
            ),
        )
    }
}

impl TagLexicalOrigins {
    /// No origins at all.
    pub fn new() -> (r: Self)
        ensures
            r.records@ == Map::<usize, TagLexicalOrigin>::empty(),
            r.enums@ == Map::<usize, TagLexicalOrigin>::empty(),
    {
        TagLexicalOrigins { records: BTreeMap::new(), enums: BTreeMap::new() }
    }

    /// Whether no tag has a recorded origin.
    pub fn is_empty(&self) -> (r: bool)
        ensures
            r == (self.records@.is_empty() && self.enums@.is_empty()),
    {
        self.records.is_empty() && self.enums.is_empty()
    }

    /// Retains lexical nesting of a tag occurrence separately from prior
    /// standalone declarations: nested or anonymous definitions and first
    /// declarations get an entry, a named tag outside any record loses its entry,
    /// and a completed tag keeps what it has.
    pub fn note(
        &mut self,
        tag: LexicalTag,
        introduced: bool,
        definition: bool,
        complete: bool,
        anonymous: bool,
        order: usize,
        file_scope: bool,
        nested: Option<usize>,
    ) -> (r: Result<(), Error>)
        ensures
            ({
                let count = old(self).records@.len() + old(self).enums@.len();
                match tag {
                    LexicalTag::Record(id) => {
                        let next = noted_entries(old(self).records@, count, id, introduced, definition, complete, anonymous, order, file_scope, nested);
                        &&& r is Ok <==> next is Some
                        &&& r is Ok ==> final(self).records@ == next.unwrap()
                        &&& r is Err ==> final(self).records@ == old(self).records@
                        &&& final(self).enums@ == old(self).enums@
                    },
                    LexicalTag::Enum(id) => {
                        let next = noted_entries(old(self).enums@, count, id, introduced, definition, complete, anonymous, order, file_scope, nested);
                        &&& r is Ok <==> next is Some
                        &&& r is Ok ==> final(self).enums@ == next.unwrap()
                        &&& r is Err ==> final(self).enums@ == old(self).enums@
                        &&& final(self).records@ == old(self).records@
                    },
                }
            }),
    {
        broadcast use vstd::laws_cmp::group_laws_cmp, vstd::std_specs::btree::group_btree_axioms;

        if complete || (!definition && !introduced) {
            return Ok(());
        }
        let records_len = self.records.len();
        let enums_len = self.enums.len();
        let full = records_len >= MAX_LEXICAL_TAGS || enums_len >= MAX_LEXICAL_TAGS - records_len;
        match tag {
            LexicalTag::Record(id) => {
                note_entry(&mut self.records, full, id, introduced, anonymous, order, file_scope, nested)
            },
            LexicalTag::Enum(id) => {
                note_entry(&mut self.enums, full, id, introduced, anonymous, order, file_scope, nested)
            },
        }
    }
}

/// Notes a definition or first declaration in one table; `full` says whether
/// the unit already holds the most origins.
fn note_entry(
    entries: &mut BTreeMap<usize, TagLexicalOrigin>,
    full: bool,
    id: usize,
    introduced: bool,
    anonymous: bool,
    order: usize,
    file_scope: bool,
    nested: Option<usize>,
) -> (r: Result<(), Error>)
    ensures
        ({
            let count: nat = if full { 1000000nat } else { 0nat };
            let next = noted_entries(old(entries)@, count, id, introduced, true, false, anonymous, order, file_scope, nested);
            &&& r is Ok <==> next is Some
            &&& r is Ok ==> final(entries)@ == next.unwrap()
            &&& r is Err ==> final(entries)@ == old(entries)@
        }),
{
    broadcast use vstd::laws_cmp::group_laws_cmp, vstd::std_specs::btree::group_btree_axioms;

    if nested.is_none() && !anonymous {
        entries.remove(&id);
        return Ok(());
    }
    let existing = entries.get(&id);
    let present = existing.is_some();
    let prior = file_scope && !introduced && match existing {
        None => true,
        Some(origin) => origin.prior_file_declaration,
    };
    if !present && full {
        return Err(Error::new(order, "lexical tag origins exceed the 1000000-entry limit"));
    }
    entries.insert(
        id,
        TagLexicalOrigin {
            record: nested,
            order,
            prior_file_declaration: prior,
            typedef_declaration: None,
        },
    );
    Ok(())
}

} // verus!
