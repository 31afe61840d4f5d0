//! Declaration-level non-return promises without changing C function types.

use crate::error::Error;
use vstd::prelude::*;

verus! {

/// The most non-return bindings a unit holds at once.
pub const MAX_BINDINGS: usize = 65536;

/// Which names carry a visible non-return promise: file-scope names, and
/// names declared in a block at some lexical depth.
#[derive(Clone, Debug)]
pub struct NoreturnRegistry {
    file: Vec<String>,
    scoped: Vec<(usize, String)>,
}

fn same_name(a: &String, b: &str) -> (r: bool)
    ensures
        r == (a@ == b@),
{
    let t = crate::text::chars(a.as_str());
    crate::text::chars_equal(t.as_slice(), b)
}

impl NoreturnRegistry {
    /// File-scope names with the promise.
    pub closed spec fn file_names(&self) -> Set<Seq<char>> {
        Set::new(|n: Seq<char>| exists|i: int| 0 <= i < self.file@.len() && (#[trigger] self.file@[i])@ == n)
    }

    /// Block-scope names with the promise, with their lexical depth.
    pub closed spec fn scoped_names(&self) -> Set<(usize, Seq<char>)> {
        Set::new(|p: (usize, Seq<char>)| exists|i: int| 0 <= i < self.scoped@.len() && (#[trigger] self.scoped@[i]).0 == p.0 && self.scoped@[i].1@ == p.1)
    }

    /// How many bindings the registry holds.
    pub closed spec fn bindings(&self) -> nat {
        self.file@.len() + self.scoped@.len()
    }

    /// No promise at all.
    pub fn new() -> (r: Self)
        ensures
            r.file_names() == Set::<Seq<char>>::empty(),
            r.scoped_names() == Set::<(usize, Seq<char>)>::empty(),
            r.bindings() == 0,
    {
        let r = NoreturnRegistry { file: Vec::new(), scoped: Vec::new() };
        assert(r.file_names() =~= Set::<Seq<char>>::empty());
        assert(r.scoped_names() =~= Set::<(usize, Seq<char>)>::empty());
        r
    }

    fn file_contains(&self, name: &str) -> (r: bool)
        ensures
            r == self.file_names().contains(name@),
    {
        let mut i: usize = 0;
        while i < self.file.len()
            invariant
                i <= self.file@.len(),
                forall|j: int| 0 <= j < i ==> (#[trigger] self.file@[j])@ != name@,
            decreases self.file.len() - i,
        {
            if same_name(&self.file[i], name) {
                return true;
            }
            i = i + 1;
        }
        false
    }

    fn scoped_contains(&self, name: &str, low: usize, high: usize) -> (r: bool)
        ensures
            r == exists|d: usize| low <= d <= high && #[trigger] self.scoped_names().contains((d, name@)),
    {
        let mut i: usize = 0;
        while i < self.scoped.len()
            invariant
                i <= self.scoped@.len(),
                forall|j: int| 0 <= j < i ==> !(low <= (#[trigger] self.scoped@[j]).0 <= high && self.scoped@[j].1@ == name@),
            decreases self.scoped.len() - i,
        {
            let d = self.scoped[i].0;
            if low <= d && d <= high && same_name(&self.scoped[i].1, name) {
                assert(self.scoped_names().contains((d, name@)));
                return true;
            }
            i = i + 1;
        }
        false
    }

    /// A lexical promise at block depth `depth`, not a whole-program proof
    /// that a call cannot return: a file-scope promise, or one in a block
    /// at depth `1..=depth`.
    pub fn visible_noreturn(&self, name: &str, depth: usize) -> (r: bool)
        ensures
            r == (self.file_names().contains(name@) || exists|d: usize| 1 <= d <= depth && #[trigger] self.scoped_names().contains((d, name@))),
    {
        self.file_contains(name) || (depth >= 1 && self.scoped_contains(name, 1, depth))
    }

    /// Records a written or inherited promise for `name`, at file scope or
    /// in the block at `depth`. A name already promised there is not
    /// recorded again.
    pub fn record_noreturn(&mut self, name: &str, value: bool, file: bool, depth: usize, offset: usize) -> (r: Result<(), Error>)
        ensures
            ({
                let known = !value || old(self).file_names().contains(name@) || (!file
                    && old(self).scoped_names().contains((depth, name@)));
                &&& known ==> r is Ok && final(self).file_names() == old(self).file_names()
                    && final(self).scoped_names() == old(self).scoped_names()
                    && final(self).bindings() == old(self).bindings()
                &&& !known ==> (r is Ok <==> old(self).bindings() < MAX_BINDINGS)
                &&& !known && r is Err ==> final(self).file_names() == old(self).file_names()
                    && final(self).scoped_names() == old(self).scoped_names()
                    && final(self).bindings() == old(self).bindings()
                &&& !known && r is Ok ==> final(self).bindings() == old(self).bindings() + 1 && if file {
                    final(self).file_names() == old(self).file_names().insert(name@)
                        && final(self).scoped_names() == old(self).scoped_names()
                } else {
                    final(self).scoped_names() == old(self).scoped_names().insert((depth, name@))
                        && final(self).file_names() == old(self).file_names()
                }
            }),
    {
        if !value || self.file_contains(name) {
            return Ok(());
        }
        if !file && self.scoped_contains(name, depth, depth) {
            return Ok(());
        }
        if self.file.len() >= MAX_BINDINGS || self.scoped.len() >= MAX_BINDINGS - self.file.len() {
            return Err(Error::new(offset, "noreturn declaration bindings exceed the 65536-entry limit"));
        }
        let ghost before = *self;
        let owned = String::from_str(name);
        if file {
            self.file.push(owned);
            proof {
                assert(self.file_names() =~= before.file_names().insert(name@)) by {
                    assert forall|n: Seq<char>| self.file_names().contains(n) <==> before.file_names().insert(name@).contains(n) by {
                        if before.file_names().contains(n) {
                            let i = choose|i: int| 0 <= i < before.file@.len() && (#[trigger] before.file@[i])@ == n;
                            assert(self.file@[i] == before.file@[i]);
                        }
                        if n == name@ {
                            assert(self.file@[self.file@.len() - 1]@ == n);
                        }
                    }
                }
                assert(self.scoped_names() =~= before.scoped_names());
            }
        } else {
            self.scoped.push((depth, owned));
            proof {
                assert(self.scoped_names() =~= before.scoped_names().insert((depth, name@))) by {
                    assert forall|p: (usize, Seq<char>)| self.scoped_names().contains(p) <==> before.scoped_names().insert((depth, name@)).contains(p) by {
                        if before.scoped_names().contains(p) {
                            let i = choose|i: int| 0 <= i < before.scoped@.len() && (#[trigger] before.scoped@[i]).0 == p.0 && before.scoped@[i].1@ == p.1;
                            assert(self.scoped@[i] == before.scoped@[i]);
                        }
                        if p == (depth, name@) {
                            assert(self.scoped@[self.scoped@.len() - 1].1@ == p.1);
                        }
                    }
                }
                assert(self.file_names() =~= before.file_names());
            }
        }
        Ok(())
    }

    /// Whether a declaration of `name` at block depth `depth` carries the
    /// promise: never for a non-function; otherwise when it is written on
    /// the declaration, carried by the function type, visible lexically,
    /// inherited from the file-scope declaration it redeclares, or, with no
    /// such declaration, from an earlier block-scope extern of the name.
    pub fn declaration_noreturn(
        &self,
        name: &str,
        depth: usize,
        is_function: bool,
        type_noreturn: bool,
        written: bool,
        previous_file: Option<bool>,
        block_extern: Option<bool>,
    ) -> (r: bool)
        ensures
            r == (is_function && (written || type_noreturn
                || self.file_names().contains(name@)
                || (exists|d: usize| 1 <= d <= depth && #[trigger] self.scoped_names().contains((d, name@)))
                || previous_file == Some(true)
                || (previous_file is None && block_extern == Some(true)))),
    {
        if !is_function {
            return false;
        }
        written || type_noreturn || self.visible_noreturn(name, depth) || match previous_file {
            Some(inherited) => inherited,
            None => match block_extern {
                Some(inherited) => inherited,
                None => false,
            },
        }
    }

    /// Forgets the promises of the block at `depth` when it ends.
    pub fn leave_noreturn_scope(&mut self, depth: usize)
        ensures
            final(self).file_names() == old(self).file_names(),
            final(self).scoped_names() == old(self).scoped_names().filter(|p: (usize, Seq<char>)| p.0 != depth),
            final(self).bindings() <= old(self).bindings(),
    {
        let ghost before = *self;
        let mut kept: Vec<(usize, String)> = Vec::new();
        let mut i: usize = 0;
        while i < self.scoped.len()
            invariant
                i <= self.scoped@.len(),
                self.scoped@ == before.scoped@,
                kept@.len() <= i,
                forall|j: int| 0 <= j < kept@.len() ==> (#[trigger] kept@[j]).0 != depth,
                forall|p: (usize, Seq<char>)| (exists|j: int| 0 <= j < kept@.len() && (#[trigger] kept@[j]).0 == p.0 && kept@[j].1@ == p.1)
                    <==> (p.0 != depth && exists|j: int| 0 <= j < i && (#[trigger] self.scoped@[j]).0 == p.0 && self.scoped@[j].1@ == p.1),
            decreases self.scoped.len() - i,
        {
            if self.scoped[i].0 != depth {
                let entry = (self.scoped[i].0, self.scoped[i].1.clone());
                let ghost old_kept = kept@;
                kept.push(entry);
                proof {
                    assert forall|p: (usize, Seq<char>)| (exists|j: int| 0 <= j < kept@.len() && (#[trigger] kept@[j]).0 == p.0 && kept@[j].1@ == p.1)
                        <==> (p.0 != depth && exists|j: int| 0 <= j < i + 1 && (#[trigger] self.scoped@[j]).0 == p.0 && self.scoped@[j].1@ == p.1) by {
                        if exists|j: int| 0 <= j < kept@.len() && (#[trigger] kept@[j]).0 == p.0 && kept@[j].1@ == p.1 {
                            let j = choose|j: int| 0 <= j < kept@.len() && (#[trigger] kept@[j]).0 == p.0 && kept@[j].1@ == p.1;
                            if j < old_kept.len() {
                                assert(old_kept[j] == kept@[j]);
                            } else {
                                assert(self.scoped@[i as int].0 == p.0);
                            }
                        }
                        if p.0 != depth && exists|j: int| 0 <= j < i + 1 && (#[trigger] self.scoped@[j]).0 == p.0 && self.scoped@[j].1@ == p.1 {
                            let j = choose|j: int| 0 <= j < i + 1 && (#[trigger] self.scoped@[j]).0 == p.0 && self.scoped@[j].1@ == p.1;
                            if j < i {
                                let m = choose|m: int| 0 <= m < old_kept.len() && (#[trigger] old_kept[m]).0 == p.0 && old_kept[m].1@ == p.1;
                                assert(kept@[m] == old_kept[m]);
                            } else {
                                assert(kept@[kept@.len() - 1].1@ == p.1);
                            }
                        }
                    }
                }
            } else {
                proof {
                    assert forall|p: (usize, Seq<char>)| (exists|j: int| 0 <= j < kept@.len() && (#[trigger] kept@[j]).0 == p.0 && kept@[j].1@ == p.1)
                        <==> (p.0 != depth && exists|j: int| 0 <= j < i + 1 && (#[trigger] self.scoped@[j]).0 == p.0 && self.scoped@[j].1@ == p.1) by {
                        if p.0 != depth && exists|j: int| 0 <= j < i + 1 && (#[trigger] self.scoped@[j]).0 == p.0 && self.scoped@[j].1@ == p.1 {
                            let j = choose|j: int| 0 <= j < i + 1 && (#[trigger] self.scoped@[j]).0 == p.0 && self.scoped@[j].1@ == p.1;
                            assert(j < i);
                        }
                    }
                }
            }
            i = i + 1;
        }
        self.scoped = kept;
        proof {
            assert(self.scoped_names() =~= before.scoped_names().filter(|p: (usize, Seq<char>)| p.0 != depth));
            assert(self.file_names() =~= before.file_names());
        }
    }
}

} // verus!
