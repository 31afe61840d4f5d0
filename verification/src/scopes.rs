//! The stack of block scopes of a function body: which names each scope
//! binds, their storage, and the ancestry of variably modified declarations
//! that jumps into a scope must not skip.

use crate::error::Error;
use crate::object_alignment::DeclarationAlignment;
use crate::symbol_effects::NameTable;
use vstd::prelude::*;

verus! {

/// How deeply lexical scopes may nest.
pub const MAX_SCOPE_DEPTH: usize = 128;

/// The names of a list of strings.
pub open spec fn name_set(names: Seq<String>) -> Set<Seq<char>> {
    Set::new(|n: Seq<char>| exists|i: int| 0 <= i < names.len() && (#[trigger] names[i])@ == n)
}

proof fn lemma_name_set_push(names: Seq<String>, s: String)
    ensures
        name_set(names.push(s)) == name_set(names).insert(s@),
{
    let after = names.push(s);
    assert forall|n: Seq<char>| name_set(after).contains(n) <==> name_set(names).insert(s@).contains(n) by {
        if name_set(names).contains(n) {
            let i = choose|i: int| 0 <= i < names.len() && (#[trigger] names[i])@ == n;
            assert(after[i] == names[i]);
        }
        if n == s@ {
            assert(after[names.len() as int]@ == n);
        }
        if name_set(after).contains(n) {
            let i = choose|i: int| 0 <= i < after.len() && (#[trigger] after[i])@ == n;
            if i < names.len() {
                assert(after[i] == names[i]);
            }
        }
    }
    assert(name_set(after) =~= name_set(names).insert(s@));
}

fn contains_name(names: &Vec<String>, name: &str) -> (r: bool)
    ensures
        r == name_set(names@).contains(name@),
{
    let mut i: usize = 0;
    while i < names.len()
        invariant
            i <= names@.len(),
            forall|j: int| 0 <= j < i ==> (#[trigger] names@[j])@ != name@,
        decreases names.len() - i,
    {
        let t = crate::text::chars(names[i].as_str());
        if crate::text::chars_equal(t.as_slice(), name) {
            return true;
        }
        i = i + 1;
    }
    false
}

/// One lexical scope: a block, or a prototype or parameter scope.
#[derive(Debug)]
pub struct LocalScope {
    is_block: bool,
    names: Vec<String>,
    static_storage: Vec<String>,
    register: Vec<String>,
    variably_modified: Option<usize>,
    linked: Vec<String>,
    alignments: NameTable<DeclarationAlignment>,
    flexible: NameTable<u64>,
}

/// What a scope holds, as sets of names.
pub struct ScopeView {
    pub is_block: bool,
    pub names: Set<Seq<char>>,
    pub static_storage: Set<Seq<char>>,
    pub register: Set<Seq<char>>,
    /// The innermost variably modified declaration of this scope.
    pub variably_modified: Option<usize>,
    /// Names declared here with linkage (block-scope `extern` declarations).
    pub linked: Set<Seq<char>>,
    /// Declaration alignments of this scope's names that have one.
    pub alignments: Map<Seq<char>, DeclarationAlignment>,
    /// Storage sizes in bits of objects with initialized flexible array members.
    pub flexible: Map<Seq<char>, u64>,
}

/// The view of a scope.
spec fn scope_view(scope: LocalScope) -> ScopeView {
    ScopeView {
        is_block: scope.is_block,
        names: name_set(scope.names@),
        static_storage: name_set(scope.static_storage@),
        register: name_set(scope.register@),
        variably_modified: scope.variably_modified,
        linked: name_set(scope.linked@),
        alignments: scope.alignments.map(),
        flexible: scope.flexible.map(),
    }
}

/// The innermost scope that binds `name`.
pub open spec fn innermost(scopes: Seq<ScopeView>, name: Seq<char>) -> Option<int>
    decreases scopes.len(),
{
    if scopes.len() == 0 {
        None
    } else if scopes.last().names.contains(name) {
        Some(scopes.len() - 1)
    } else {
        innermost(scopes.drop_last(), name)
    }
}

/// The variably modified declaration whose scope is innermost.
pub open spec fn active_vm(scopes: Seq<ScopeView>) -> Option<usize>
    decreases scopes.len(),
{
    if scopes.len() == 0 {
        None
    } else {
        match scopes.last().variably_modified {
            Some(id) => Some(id),
            None => active_vm(scopes.drop_last()),
        }
    }
}

/// The open lexical scopes, innermost last, and the parent of each variably
/// modified declaration in the ancestry.
#[derive(Debug)]
pub struct LexicalScopes {
    scopes: Vec<LocalScope>,
    variably_modified_parents: Vec<Option<usize>>,
}

impl LexicalScopes {
    /// The open scopes, innermost last.
    pub closed spec fn scopes_spec(&self) -> Seq<ScopeView> {
        self.scopes@.map_values(|s: LocalScope| scope_view(s))
    }

    /// The parent of each variably modified declaration, by identity.
    pub closed spec fn parents_spec(&self) -> Seq<Option<usize>> {
        self.variably_modified_parents@
    }

    /// No scope open and no variably modified declaration.
    pub fn new() -> (r: Self)
        ensures
            r.scopes_spec().len() == 0,
            r.parents_spec().len() == 0,
    {
        LexicalScopes { scopes: Vec::new(), variably_modified_parents: Vec::new() }
    }

    /// How many scopes are open.
    pub fn depth(&self) -> (r: usize)
        ensures
            r == self.scopes_spec().len(),
    {
        self.scopes.len()
    }

    /// Whether some open scope is a block, that is, whether checking is
    /// inside a function body.
    pub fn in_function_body(&self) -> (r: bool)
        ensures
            r == exists|i: int| 0 <= i < self.scopes_spec().len() && (#[trigger] self.scopes_spec()[i]).is_block,
    {
        let mut i: usize = 0;
        while i < self.scopes.len()
            invariant
                i <= self.scopes@.len(),
                forall|j: int| 0 <= j < i ==> !(#[trigger] self.scopes_spec()[j]).is_block,
            decreases self.scopes.len() - i,
        {
            if self.scopes[i].is_block {
                assert(self.scopes_spec()[i as int].is_block);
                return true;
            }
            i = i + 1;
        }
        false
    }

    /// The innermost open scope that binds `name`, by position.
    fn find(&self, name: &str) -> (r: Option<usize>)
        ensures
            r matches Some(i) ==> innermost(self.scopes_spec(), name@) == Some(i as int) && i < self.scopes@.len(),
            r is None ==> innermost(self.scopes_spec(), name@) is None,
    {
        let mut i: usize = self.scopes.len();
        assert(self.scopes_spec().take(i as int) =~= self.scopes_spec());
        while i > 0
            invariant
                i <= self.scopes@.len(),
                innermost(self.scopes_spec(), name@) == innermost(self.scopes_spec().take(i as int), name@),
            decreases i,
        {
            let ghost s = self.scopes_spec();
            assert(s.take(i as int).drop_last() =~= s.take(i as int - 1));
            assert(s.take(i as int).last() == s[i - 1]);
            if contains_name(&self.scopes[i - 1].names, name) {
                return Some(i - 1);
            }
            i = i - 1;
        }
        assert(self.scopes_spec().take(0) =~= Seq::<ScopeView>::empty());
        None
    }

    /// Whether `name` denotes an object with static storage: as bound by the
    /// innermost scope binding it, or else at file scope, where
    /// `file_object` says whether a non-typedef file declaration has the name.
    pub fn object_has_static_storage(&self, name: &str, file_object: bool) -> (r: bool)
        ensures
            r == match innermost(self.scopes_spec(), name@) {
                Some(i) => self.scopes_spec()[i].static_storage.contains(name@),
                None => file_object,
            },
    {
        match self.find(name) {
            Some(i) => {
                assert(self.scopes_spec()[i as int] == scope_view(self.scopes@[i as int]));
                contains_name(&self.scopes[i].static_storage, name)
            },
            None => file_object,
        }
    }

    /// Whether `name` denotes a `register` object of the innermost scope
    /// binding it.
    pub fn is_register_object(&self, name: &str) -> (r: bool)
        ensures
            r == match innermost(self.scopes_spec(), name@) {
                Some(i) => self.scopes_spec()[i].register.contains(name@),
                None => false,
            },
    {
        match self.find(name) {
            Some(i) => {
                assert(self.scopes_spec()[i as int] == scope_view(self.scopes@[i as int]));
                contains_name(&self.scopes[i].register, name)
            },
            None => false,
        }
    }

    /// Opens a scope, up to the nesting limit: a block (`is_block`) or a
    /// prototype or parameter scope.
    pub fn enter(&mut self, is_block: bool) -> (r: Result<(), Error>)
        ensures
            r is Ok <==> old(self).scopes_spec().len() < MAX_SCOPE_DEPTH,
            r is Ok ==> final(self).scopes_spec() == old(self).scopes_spec().push(ScopeView {
                is_block,
                names: Set::empty(),
                static_storage: Set::empty(),
                register: Set::empty(),
                variably_modified: None,
                linked: Set::empty(),
                alignments: Map::empty(),
                flexible: Map::empty(),
            }),
            r is Err ==> final(self).scopes_spec() == old(self).scopes_spec(),
            final(self).parents_spec() == old(self).parents_spec(),
    {
        if self.scopes.len() >= MAX_SCOPE_DEPTH {
            return Err(Error::new(0, "lexical scope nesting exceeds the 128-level limit"));
        }
        let scope = LocalScope {
            is_block,
            names: Vec::new(),
            static_storage: Vec::new(),
            register: Vec::new(),
            variably_modified: None,
            linked: Vec::new(),
            alignments: NameTable::new(),
            flexible: NameTable::new(),
        };
        let ghost before = self.scopes@;
        self.scopes.push(scope);
        proof {
            assert(name_set(Seq::<String>::empty()) =~= Set::<Seq<char>>::empty());
            assert(self.scopes_spec() =~= old(self).scopes_spec().push(scope_view(scope)));
        }
        Ok(())
    }

    /// Closes the innermost scope.
    pub fn leave(&mut self)
        requires
            old(self).scopes_spec().len() > 0,
        ensures
            final(self).scopes_spec() == old(self).scopes_spec().drop_last(),
            final(self).parents_spec() == old(self).parents_spec(),
    {
        self.scopes.pop();
        proof {
            assert(self.scopes_spec() =~= old(self).scopes_spec().drop_last());
        }
    }

    /// Binds a local `name` in the innermost scope, with static or register
    /// storage as given; a name the scope already binds is a duplicate.
    pub fn bind_local(&mut self, name: &str, static_storage: bool, register: bool, offset: usize) -> (r: Result<(), Error>)
        requires
            old(self).scopes_spec().len() > 0,
        ensures
            ({
                let before = old(self).scopes_spec();
                let top = before.last();
                &&& r is Ok <==> !top.names.contains(name@)
                &&& r is Ok ==> final(self).scopes_spec() == before.update(before.len() - 1, ScopeView {
                    names: top.names.insert(name@),
                    static_storage: if static_storage { top.static_storage.insert(name@) } else { top.static_storage },
                    register: if register { top.register.insert(name@) } else { top.register },
                    ..top
                })
                &&& r is Err ==> final(self).scopes_spec() == before
                &&& final(self).parents_spec() == old(self).parents_spec()
            }),
    {
        let last = self.scopes.len() - 1;
        if contains_name(&self.scopes[last].names, name) {
            return Err(Error::new(offset, "duplicate local declaration"));
        }
        let mut scope = self.scopes.pop().unwrap();
        let ghost old_scope = scope;
        scope.names.push(String::from_str(name));
        if static_storage {
            scope.static_storage.push(String::from_str(name));
        }
        if register {
            scope.register.push(String::from_str(name));
        }
        proof {
            lemma_name_set_push(old_scope.names@, scope.names@.last());
            assert(old_scope.names@.push(scope.names@.last()) =~= scope.names@);
            if static_storage {
                lemma_name_set_push(old_scope.static_storage@, scope.static_storage@.last());
                assert(old_scope.static_storage@.push(scope.static_storage@.last()) =~= scope.static_storage@);
            }
            if register {
                lemma_name_set_push(old_scope.register@, scope.register@.last());
                assert(old_scope.register@.push(scope.register@.last()) =~= scope.register@);
            }
        }
        self.scopes.push(scope);
        proof {
            let before = old(self).scopes_spec();
            assert(old(self).scopes@.last() == old_scope);
            assert(self.scopes_spec() =~= before.update(before.len() - 1, scope_view(scope)));
        }
        Ok(())
    }

    /// The variably modified declaration whose scope is innermost, if any.
    pub fn active_variably_modified(&self) -> (r: Option<usize>)
        ensures
            r == active_vm(self.scopes_spec()),
    {
        let mut i: usize = self.scopes.len();
        assert(self.scopes_spec().take(i as int) =~= self.scopes_spec());
        while i > 0
            invariant
                i <= self.scopes@.len(),
                active_vm(self.scopes_spec()) == active_vm(self.scopes_spec().take(i as int)),
            decreases i,
        {
            let ghost s = self.scopes_spec();
            assert(s.take(i as int).drop_last() =~= s.take(i as int - 1));
            assert(s.take(i as int).last() == s[i - 1]);
            match self.scopes[i - 1].variably_modified {
                Some(id) => {
                    return Some(id);
                },
                None => {},
            }
            i = i - 1;
        }
        assert(self.scopes_spec().take(0) =~= Seq::<ScopeView>::empty());
        None
    }

    /// Records a variably modified declaration in the innermost scope: a new
    /// ancestry node whose parent is the previously active one.
    pub fn declare_variably_modified(&mut self)
        requires
            old(self).scopes_spec().len() > 0,
            old(self).parents_spec().len() < usize::MAX,
        ensures
            ({
                let before = old(self).scopes_spec();
                let top = before.last();
                let id = old(self).parents_spec().len() as usize;
                &&& final(self).parents_spec() == old(self).parents_spec().push(active_vm(before))
                &&& final(self).scopes_spec() == before.update(before.len() - 1, ScopeView {
                    variably_modified: Some(id),
                    ..top
                })
                &&& active_vm(final(self).scopes_spec()) == Some(id)
            }),
    {
        let parent = self.active_variably_modified();
        let id = self.variably_modified_parents.len();
        self.variably_modified_parents.push(parent);
        let mut scope = self.scopes.pop().unwrap();
        let ghost old_scope = scope;
        scope.variably_modified = Some(id);
        self.scopes.push(scope);
        proof {
            let before = old(self).scopes_spec();
            assert(old(self).scopes@.last() == old_scope);
            assert(self.scopes_spec() =~= before.update(before.len() - 1, scope_view(scope)));
        }
    }
}

/// A local just bound in the innermost scope is the binding its name finds:
/// it shadows every binding of the name in enclosing scopes.
pub proof fn lemma_bound_local_is_innermost(scopes: Seq<ScopeView>, top: ScopeView, name: Seq<char>)
    requires
        scopes.len() > 0,
        top.names.contains(name),
    ensures
        innermost(scopes.update(scopes.len() - 1, top), name) == Some(scopes.len() - 1),
{
    assert(scopes.update(scopes.len() - 1, top).last() == top);
}

/// Leaving a scope just entered restores the enclosing scopes, and with
/// them every name's binding and the active variably modified declaration.
pub proof fn lemma_leave_restores(scopes: Seq<ScopeView>, entered: ScopeView, name: Seq<char>)
    ensures
        scopes.push(entered).drop_last() == scopes,
        innermost(scopes.push(entered).drop_last(), name) == innermost(scopes, name),
        active_vm(scopes.push(entered).drop_last()) == active_vm(scopes),
{
    assert(scopes.push(entered).drop_last() =~= scopes);
}

/// The innermost scope that binds `name` and declares it with linkage.
pub open spec fn innermost_linked(scopes: Seq<ScopeView>, name: Seq<char>) -> Option<int>
    decreases scopes.len(),
{
    if scopes.len() == 0 {
        None
    } else if scopes.last().names.contains(name) && scopes.last().linked.contains(name) {
        Some(scopes.len() - 1)
    } else {
        innermost_linked(scopes.drop_last(), name)
    }
}

impl LexicalScopes {
    /// Marks `name` as declared with linkage in the innermost scope.
    pub fn mark_linked(&mut self, name: &str)
        requires
            old(self).scopes_spec().len() > 0,
        ensures
            ({
                let before = old(self).scopes_spec();
                let top = before.last();
                &&& final(self).scopes_spec() == before.update(before.len() - 1, ScopeView {
                    linked: top.linked.insert(name@),
                    ..top
                })
                &&& final(self).parents_spec() == old(self).parents_spec()
            }),
    {
        let mut scope = self.scopes.pop().unwrap();
        let ghost old_scope = scope;
        scope.linked.push(String::from_str(name));
        proof {
            lemma_name_set_push(old_scope.linked@, scope.linked@.last());
            assert(old_scope.linked@.push(scope.linked@.last()) =~= scope.linked@);
        }
        self.scopes.push(scope);
        proof {
            let before = old(self).scopes_spec();
            assert(old(self).scopes@.last() == old_scope);
            assert(self.scopes_spec() =~= before.update(before.len() - 1, scope_view(scope)));
        }
    }

    /// Keeps a local declaration's alignment in the innermost scope, when it
    /// has one.
    pub fn retain_local_alignment(&mut self, name: &str, alignment: DeclarationAlignment)
        requires
            old(self).scopes_spec().len() > 0,
        ensures
            ({
                let before = old(self).scopes_spec();
                let top = before.last();
                &&& alignment.is_empty_spec() ==> final(self).scopes_spec() == before
                &&& !alignment.is_empty_spec() ==> final(self).scopes_spec() == before.update(
                    before.len() - 1,
                    ScopeView { alignments: top.alignments.insert(name@, alignment), ..top },
                )
                &&& final(self).parents_spec() == old(self).parents_spec()
            }),
    {
        if alignment.is_empty() {
            return;
        }
        let mut scope = self.scopes.pop().unwrap();
        let ghost old_scope = scope;
        scope.alignments.insert(name, alignment);
        self.scopes.push(scope);
        proof {
            let before = old(self).scopes_spec();
            assert(old(self).scopes@.last() == old_scope);
            assert(self.scopes_spec() =~= before.update(before.len() - 1, scope_view(scope)));
        }
    }

    /// Keeps the storage size in bits of a local object whose flexible array
    /// member was initialized.
    pub fn retain_flexible_storage(&mut self, name: &str, size_bits: u64)
        requires
            old(self).scopes_spec().len() > 0,
        ensures
            ({
                let before = old(self).scopes_spec();
                let top = before.last();
                &&& final(self).scopes_spec() == before.update(
                    before.len() - 1,
                    ScopeView { flexible: top.flexible.insert(name@, size_bits), ..top },
                )
                &&& final(self).parents_spec() == old(self).parents_spec()
            }),
    {
        let mut scope = self.scopes.pop().unwrap();
        let ghost old_scope = scope;
        scope.flexible.insert(name, size_bits);
        self.scopes.push(scope);
        proof {
            let before = old(self).scopes_spec();
            assert(old(self).scopes@.last() == old_scope);
            assert(self.scopes_spec() =~= before.update(before.len() - 1, scope_view(scope)));
        }
    }

    /// The alignment of the linked declaration `name` denotes: that of the
    /// innermost scope declaring it with linkage (no alignment when the scope
    /// kept none), or else the file-scope declaration's, `file`.
    pub fn visible_linked_alignment(&self, name: &str, file: Option<DeclarationAlignment>) -> (r: Option<DeclarationAlignment>)
        ensures
            match innermost_linked(self.scopes_spec(), name@) {
                Some(i) => {
                    let scope = self.scopes_spec()[i];
                    if scope.alignments.contains_key(name@) {
                        r == Some(scope.alignments[name@])
                    } else {
                        r matches Some(a) && a.is_empty_spec()
                    }
                },
                None => r == file,
            },
    {
        let mut i: usize = self.scopes.len();
        assert(self.scopes_spec().take(i as int) =~= self.scopes_spec());
        while i > 0
            invariant
                i <= self.scopes@.len(),
                innermost_linked(self.scopes_spec(), name@) == innermost_linked(self.scopes_spec().take(i as int), name@),
            decreases i,
        {
            let ghost s = self.scopes_spec();
            assert(s.take(i as int).drop_last() =~= s.take(i as int - 1));
            assert(s.take(i as int).last() == s[i - 1]);
            assert(s[i - 1] == scope_view(self.scopes@[i - 1]));
            let scope = &self.scopes[i - 1];
            if contains_name(&scope.names, name) && contains_name(&scope.linked, name) {
                return match scope.alignments.get(name) {
                    Some(a) => Some(a),
                    None => Some(DeclarationAlignment::empty()),
                };
            }
            i = i - 1;
        }
        assert(self.scopes_spec().take(0) =~= Seq::<ScopeView>::empty());
        file
    }

    /// The allocated size in bytes of the object `name` denotes, when an
    /// initialized flexible array member gave it one: as kept by the innermost
    /// scope binding the name, or else by its file-scope declaration
    /// (`file_bits`, in bits).
    pub fn object_allocation_size(&self, name: &str, file_bits: Option<u64>) -> (r: Option<u64>)
        ensures
            r == match innermost(self.scopes_spec(), name@) {
                Some(i) => if self.scopes_spec()[i].flexible.contains_key(name@) {
                    Some((self.scopes_spec()[i].flexible[name@] / 8) as u64)
                } else {
                    None
                },
                None => match file_bits {
                    Some(b) => Some((b / 8) as u64),
                    None => None,
                },
            },
    {
        match self.find(name) {
            Some(i) => {
                assert(self.scopes_spec()[i as int] == scope_view(self.scopes@[i as int]));
                match self.scopes[i].flexible.get(name) {
                    Some(bits) => Some(bits / 8),
                    None => None,
                }
            },
            None => match file_bits {
                Some(b) => Some(b / 8),
                None => None,
            },
        }
    }
}

} // verus!
