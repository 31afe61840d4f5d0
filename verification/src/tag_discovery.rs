//! Header cursor discovery facts, independent of C scope and lexical containment.

use std::collections::BTreeMap;
use vstd::prelude::*;

verus! {

/// First header-cursor discovery when it differs from C lexical containment.
#[derive(Clone, Copy, Debug, PartialEq, Eq, Structural)]
pub enum TagDiscovery {
    /// Enum values and enum attributes do not expose nested declaration cursors.
    Hidden,
    /// A declaration type or a visited record exposes this tag.
    Discovered {
        /// Record that supplies the generated naming context, if any.
        record: Option<usize>,
        /// Relative parser-input order of the discovering declaration.
        order: usize,
        /// Source offset of the discovering declaration, before parser rewriting.
        offset: usize,
    },
}

/// Sparse facts for enum-cursor descendants and trailing record attributes.
/// These do not change C lookup, type identity, layout, or constant evaluation.
#[derive(Clone, Debug)]
pub struct TagDiscoveries {
    pub records: BTreeMap<usize, TagDiscovery>,
    pub enums: BTreeMap<usize, TagDiscovery>,
}

impl TagDiscoveries {
    /// No discovery facts.
    pub fn new() -> (r: Self)
        ensures
            r.records@ == Map::<usize, TagDiscovery>::empty(),
            r.enums@ == Map::<usize, TagDiscovery>::empty(),
    {
        TagDiscoveries { records: BTreeMap::new(), enums: BTreeMap::new() }
    }

    /// Whether there is no fact at all.
    pub fn is_empty(&self) -> (r: bool)
        ensures
            r == (self.records@.is_empty() && self.enums@.is_empty()),
    {
        self.records.is_empty() && self.enums.is_empty()
    }
}

} // verus!
