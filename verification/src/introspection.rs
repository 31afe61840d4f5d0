//! Compile-time selections: `__builtin_choose_expr` and
//! `__builtin_types_compatible_p`, decided once per source site.

use crate::error::Error;
use crate::ir::IntegerValue;
use vstd::prelude::*;

verus! {

/// The most decisions of each kind a unit records.
pub const MAX_SELECTIONS: usize = 65536;

/// The decision recorded for each source site, by its start and end offset.
pub open spec fn decisions(entries: Seq<(usize, usize, bool)>) -> Map<(usize, usize), bool> {
    Map::new(
        |k: (usize, usize)| exists|i: int| 0 <= i < entries.len() && (#[trigger] entries[i]).0 == k.0 && entries[i].1 == k.1,
        |k: (usize, usize)| {
            let i = choose|i: int| 0 <= i < entries.len() && (#[trigger] entries[i]).0 == k.0 && entries[i].1 == k.1;
            entries[i].2
        },
    )
}

/// No site has two entries.
pub open spec fn distinct_sites(entries: Seq<(usize, usize, bool)>) -> bool {
    forall|i: int, j: int| 0 <= i < j < entries.len() ==> !((#[trigger] entries[i]).0 == (#[trigger] entries[j]).0
        && entries[i].1 == entries[j].1)
}

/// The decisions made so far.
#[derive(Debug)]
pub struct CompileTimeSelections {
    choose: Vec<(usize, usize, bool)>,
    compatibility: Vec<(usize, usize, bool)>,
}

fn find(entries: &Vec<(usize, usize, bool)>, key: (usize, usize)) -> (r: Option<bool>)
    requires
        distinct_sites(entries@),
    ensures
        r == (if decisions(entries@).contains_key(key) { Some(decisions(entries@)[key]) } else { None }),
{
    let mut i: usize = 0;
    while i < entries.len()
        invariant
            i <= entries@.len(),
            distinct_sites(entries@),
            forall|j: int| 0 <= j < i ==> !((#[trigger] entries@[j]).0 == key.0 && entries@[j].1 == key.1),
        decreases entries.len() - i,
    {
        let (start, end, value) = entries[i];
        if start == key.0 && end == key.1 {
            proof {
                let m = decisions(entries@);
                assert(m.contains_key(key));
                let k = choose|k: int| 0 <= k < entries@.len() && (#[trigger] entries@[k]).0 == key.0 && entries@[k].1 == key.1;
                if k != i as int {
                    if k < i {
                        assert(!(entries@[k].0 == entries@[i as int].0 && entries@[k].1 == entries@[i as int].1));
                    } else {
                        assert(!(entries@[i as int].0 == entries@[k].0 && entries@[i as int].1 == entries@[k].1));
                    }
                }
            }
            return Some(value);
        }
        i = i + 1;
    }
    None
}

proof fn lemma_push_decision(entries: Seq<(usize, usize, bool)>, key: (usize, usize), value: bool)
    requires
        distinct_sites(entries),
        !decisions(entries).contains_key(key),
    ensures
        distinct_sites(entries.push((key.0, key.1, value))),
        decisions(entries.push((key.0, key.1, value))) == decisions(entries).insert(key, value),
{
    let after = entries.push((key.0, key.1, value));
    assert forall|i: int, j: int| 0 <= i < j < after.len() implies !((#[trigger] after[i]).0 == (#[trigger] after[j]).0
        && after[i].1 == after[j].1) by {
        if j < entries.len() {
            assert(after[i] == entries[i] && after[j] == entries[j]);
        } else {
            assert(after[i] == entries[i]);
        }
    }
    let m = decisions(after);
    let n = decisions(entries).insert(key, value);
    assert forall|k: (usize, usize)| m.contains_key(k) <==> n.contains_key(k) by {
        if decisions(entries).contains_key(k) {
            let i = choose|i: int| 0 <= i < entries.len() && (#[trigger] entries[i]).0 == k.0 && entries[i].1 == k.1;
            assert(after[i] == entries[i]);
        }
        if k == key {
            assert(after[entries.len() as int] == (key.0, key.1, value));
        }
        if m.contains_key(k) {
            let i = choose|i: int| 0 <= i < after.len() && (#[trigger] after[i]).0 == k.0 && after[i].1 == k.1;
            if i < entries.len() {
                assert(after[i] == entries[i]);
            }
        }
    }
    assert forall|k: (usize, usize)| #[trigger] m.contains_key(k) implies m[k] == n[k] by {
        let i = choose|i: int| 0 <= i < after.len() && (#[trigger] after[i]).0 == k.0 && after[i].1 == k.1;
        if i < entries.len() {
            assert(after[i] == entries[i]);
            let j = choose|j: int| 0 <= j < entries.len() && (#[trigger] entries[j]).0 == k.0 && entries[j].1 == k.1;
            if i != j {
                if i < j {
                    assert(!(entries[i].0 == entries[j].0 && entries[i].1 == entries[j].1));
                } else {
                    assert(!(entries[j].0 == entries[i].0 && entries[j].1 == entries[i].1));
                }
            }
        } else {
            assert(k == key);
        }
    }
    assert(m =~= n);
}

impl CompileTimeSelections {
    /// Which branch each `__builtin_choose_expr` site selected.
    pub closed spec fn choices(&self) -> Map<(usize, usize), bool> {
        decisions(self.choose@)
    }

    /// What each `__builtin_types_compatible_p` site answered.
    pub closed spec fn answers(&self) -> Map<(usize, usize), bool> {
        decisions(self.compatibility@)
    }

    /// The tables hold each site once and stay within the limit.
    pub closed spec fn well_formed(&self) -> bool {
        &&& distinct_sites(self.choose@)
        &&& distinct_sites(self.compatibility@)
        &&& self.choose@.len() == self.choices().dom().len()
        &&& self.compatibility@.len() == self.answers().dom().len()
        &&& self.choices().dom().finite()
        &&& self.answers().dom().finite()
    }

    /// No decision yet.
    pub fn new() -> (r: Self)
        ensures
            r.well_formed(),
            r.choices() == Map::<(usize, usize), bool>::empty(),
            r.answers() == Map::<(usize, usize), bool>::empty(),
    {
        let r = CompileTimeSelections { choose: Vec::new(), compatibility: Vec::new() };
        assert(r.choices() =~= Map::<(usize, usize), bool>::empty());
        assert(r.answers() =~= Map::<(usize, usize), bool>::empty());
        r
    }

    /// Decides the `__builtin_choose_expr` at `site` once, and says whether
    /// it selects its first branch. On first sight the condition must be an
    /// integer constant expression (`integer_constant`), whose truth is
    /// `condition`; a later visit reuses the decision.
    pub fn choose_expression(
        &mut self,
        site: (usize, usize),
        integer_constant: bool,
        condition: bool,
        condition_start: usize,
    ) -> (r: Result<bool, Error>)
        requires
            old(self).well_formed(),
        ensures
            final(self).well_formed(),
            final(self).answers() == old(self).answers(),
            old(self).choices().contains_key(site) ==> r == Ok::<bool, Error>(old(self).choices()[site])
                && final(self).choices() == old(self).choices(),
            !old(self).choices().contains_key(site) ==> {
                &&& r is Ok <==> integer_constant && old(self).choices().len() < MAX_SELECTIONS
                &&& r is Ok ==> r == Ok::<bool, Error>(condition)
                    && final(self).choices() == old(self).choices().insert(site, condition)
                &&& r is Err ==> final(self).choices() == old(self).choices()
            },
    {
        if let Some(selected) = find(&self.choose, site) {
            return Ok(selected);
        }
        if !integer_constant {
            return Err(Error::new(condition_start, "__builtin_choose_expr condition requires an integer constant expression"));
        }
        if self.choose.len() >= MAX_SELECTIONS {
            return Err(Error::new(site.0, "compile-time selection count exceeds the 65536-entry limit"));
        }
        proof {
            lemma_push_decision(self.choose@, site, condition);
        }
        self.choose.push((site.0, site.1, condition));
        proof {
            assert(self.choices().dom() =~= old(self).choices().dom().insert(site));
        }
        Ok(condition)
    }

    /// Reads the decision made for the `__builtin_choose_expr` at `site`
    /// without checking its branches again.
    pub fn checked_choose_expression(&self, site: (usize, usize)) -> (r: Result<bool, Error>)
        requires
            self.well_formed(),
        ensures
            r is Ok <==> self.choices().contains_key(site),
            r is Ok ==> r == Ok::<bool, Error>(self.choices()[site]),
    {
        match find(&self.choose, site) {
            Some(selected) => Ok(selected),
            None => Err(Error::new(site.0, "compile-time selection was not checked")),
        }
    }

    /// Answers the `__builtin_types_compatible_p` at `site` once as an
    /// `int` one or zero; `compatible` is whether its two types, with
    /// top-level and array qualifiers removed, are compatible.
    pub fn eval_types_compatible(&mut self, site: (usize, usize), compatible: bool) -> (r: Result<IntegerValue, Error>)
        requires
            old(self).well_formed(),
        ensures
            final(self).well_formed(),
            final(self).choices() == old(self).choices(),
            ({
                let known = old(self).answers().contains_key(site);
                let answer = if known { old(self).answers()[site] } else { compatible };
                &&& r is Ok <==> known || old(self).answers().len() < MAX_SELECTIONS
                &&& r matches Ok(v) ==> v.value == (if answer { 1u128 } else { 0u128 }) && v.bits == 32 && v.signed
                    && v.rank == 3
                &&& r is Ok && !known ==> final(self).answers() == old(self).answers().insert(site, compatible)
                &&& (known || r is Err) ==> final(self).answers() == old(self).answers()
            }),
    {
        let value = match find(&self.compatibility, site) {
            Some(value) => value,
            None => {
                if self.compatibility.len() >= MAX_SELECTIONS {
                    return Err(Error::new(site.0, "type compatibility query count exceeds the 65536-entry limit"));
                }
                proof {
                    lemma_push_decision(self.compatibility@, site, compatible);
                }
                self.compatibility.push((site.0, site.1, compatible));
                proof {
                    assert(self.answers().dom() =~= old(self).answers().dom().insert(site));
                }
                compatible
            },
        };
        Ok(IntegerValue::from_int(if value { 1 } else { 0 }))
    }
}

} // verus!
