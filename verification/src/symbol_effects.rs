//! Declaration facts kept by symbol name across a unit: GNU `weak` binding
//! and the `returns_twice` / `noreturn` control-flow attributes.

use crate::error::Error;
use crate::ir::SymbolBinding;
use crate::profile::Compiler;
use vstd::prelude::*;

verus! {

/// The map a list of entries describes; a later entry for a name replaces
/// an earlier one.
pub open spec fn table_map<V>(entries: Seq<(String, V)>) -> Map<Seq<char>, V>
    decreases entries.len(),
{
    if entries.len() == 0 {
        Map::empty()
    } else {
        table_map(entries.drop_last()).insert(entries.last().0@, entries.last().1)
    }
}

/// The last entry named `name` in the first `n` entries, if any.
spec fn last_named<V>(entries: Seq<(String, V)>, name: Seq<char>, n: int) -> Option<int>
    decreases n,
{
    if n <= 0 {
        None
    } else if entries[n - 1].0@ == name {
        Some(n - 1)
    } else {
        last_named(entries, name, n - 1)
    }
}

proof fn lemma_last_named<V>(entries: Seq<(String, V)>, name: Seq<char>, n: int)
    requires
        0 <= n <= entries.len(),
    ensures
        ({
            let m = table_map(entries.take(n));
            match last_named(entries, name, n) {
                Some(i) => 0 <= i < n && entries[i].0@ == name && m.contains_key(name) && m[name] == entries[i].1,
                None => !m.contains_key(name),
            }
        }),
    decreases n,
{
    if n > 0 {
        assert(entries.take(n).drop_last() =~= entries.take(n - 1));
        lemma_last_named(entries, name, n - 1);
    } else {
        assert(entries.take(0) =~= Seq::<(String, V)>::empty());
    }
}

proof fn lemma_table_update<V>(entries: Seq<(String, V)>, i: int, name: Seq<char>, value: V, replacement: String)
    requires
        0 <= i < entries.len(),
        entries[i].0@ == name,
        replacement@ == name,
        forall|j: int| i < j < entries.len() ==> (#[trigger] entries[j]).0@ != name,
    ensures
        table_map(entries.update(i, (replacement, value))) == table_map(entries).insert(name, value),
    decreases entries.len(),
{
    let after = entries.update(i, (replacement, value));
    if i == entries.len() - 1 {
        assert(after.drop_last() =~= entries.drop_last());
        assert(table_map(after) =~= table_map(entries).insert(name, value));
    } else {
        assert(after.drop_last() =~= entries.drop_last().update(i, (replacement, value)));
        lemma_table_update(entries.drop_last(), i, name, value, replacement);
        assert(entries.last().0@ != name);
        assert(table_map(after) =~= table_map(entries).insert(name, value));
    }
}

/// A table of facts by symbol name.
#[derive(Debug)]
pub struct NameTable<V> {
    entries: Vec<(String, V)>,
}

impl<V: Copy> NameTable<V> {
    /// The facts by name.
    pub closed spec fn map(&self) -> Map<Seq<char>, V> {
        table_map(self.entries@)
    }

    /// No facts at all.
    pub fn new() -> (r: Self)
        ensures
            r.map() == Map::<Seq<char>, V>::empty(),
    {
        NameTable { entries: Vec::new() }
    }

    fn position(&self, name: &str) -> (r: Option<usize>)
        ensures
            r matches Some(i) ==> last_named(self.entries@, name@, self.entries@.len() as int) == Some(i as int),
            r is None ==> last_named(self.entries@, name@, self.entries@.len() as int) is None,
    {
        let mut i: usize = self.entries.len();
        while i > 0
            invariant
                i <= self.entries@.len(),
                last_named(self.entries@, name@, self.entries@.len() as int) == last_named(self.entries@, name@, i as int),
            decreases i,
        {
            let t = crate::text::chars(self.entries[i - 1].0.as_str());
            if crate::text::chars_equal(t.as_slice(), name) {
                return Some(i - 1);
            }
            i = i - 1;
        }
        None
    }

    /// The facts recorded for `name`.
    pub fn get(&self, name: &str) -> (r: Option<V>)
        ensures
            r == (if self.map().contains_key(name@) { Some(self.map()[name@]) } else { None }),
    {
        proof {
            lemma_last_named(self.entries@, name@, self.entries@.len() as int);
            assert(self.entries@.take(self.entries@.len() as int) =~= self.entries@);
        }
        match self.position(name) {
            Some(i) => {
                let value = self.entries[i].1;
                assert(value == self.entries@[i as int].1);
                Some(value)
            },
            None => None,
        }
    }

    /// Records `value` for `name`, replacing what it had.
    pub fn insert(&mut self, name: &str, value: V)
        ensures
            final(self).map() == old(self).map().insert(name@, value),
    {
        proof {
            lemma_last_named(self.entries@, name@, self.entries@.len() as int);
            assert(self.entries@.take(self.entries@.len() as int) =~= self.entries@);
        }
        match self.position(name) {
            Some(i) => {
                proof {
                    lemma_last_after(self.entries@, name@, self.entries@.len() as int);
                }
                let owned = String::from_str(name);
                let ghost key = owned;
                self.entries.set(i, (owned, value));
                proof {
                    lemma_table_update(old(self).entries@, i as int, name@, value, key);
                }
            },
            None => {
                self.entries.push((String::from_str(name), value));
                proof {
                    assert(self.entries@.drop_last() =~= old(self).entries@);
                }
            },
        }
    }
}

/// No entry after the last one named `name` has that name.
proof fn lemma_last_after<V>(entries: Seq<(String, V)>, name: Seq<char>, n: int)
    requires
        0 <= n <= entries.len(),
        last_named(entries, name, n) is Some,
    ensures
        forall|j: int| last_named(entries, name, n)->0 < j < n ==> (#[trigger] entries[j]).0@ != name,
    decreases n,
{
    if entries[n - 1].0@ != name {
        lemma_last_after(entries, name, n - 1);
    }
}

/// The GNU `weak` attributes seen so far, by symbol name, with where each
/// was written.
#[derive(Debug)]
pub struct WeakSymbols {
    pub table: NameTable<usize>,
}

impl WeakSymbols {
    /// No weak symbol.
    pub fn new() -> (r: Self)
        ensures
            r.table.map() == Map::<Seq<char>, usize>::empty(),
    {
        WeakSymbols { table: NameTable::new() }
    }

    /// Merges a declaration of `name`, with the `weak` attribute written at
    /// `attribute` if any, and returns its binding: weak when it is external
    /// and the name is weak. The attribute needs an external declaration,
    /// and, except under GCC, must come before the symbol's definition.
    pub fn check_symbol_binding(
        &mut self,
        name: &str,
        attribute: Option<usize>,
        external: bool,
        previous_definition: bool,
        compiler: Compiler,
    ) -> (r: Result<SymbolBinding, Error>)
        ensures
            ({
                let before = old(self).table.map();
                let known = before.contains_key(name@);
                &&& r is Ok <==> (attribute is None || (external && !(previous_definition && !known
                    && compiler != Compiler::Gnu)))
                &&& r is Ok ==> final(self).table.map() == (match attribute {
                    Some(start) => before.insert(name@, start),
                    None => before,
                })
                &&& r is Err ==> final(self).table.map() == before
                &&& r matches Ok(binding) ==> binding == (if external && final(self).table.map().contains_key(name@) {
                    SymbolBinding::Weak
                } else {
                    SymbolBinding::Strong
                })
            }),
    {
        if let Some(start) = attribute {
            if !external {
                return Err(Error::new(start, "weak requires an external function or object declaration"));
            }
            let gnu = match compiler {
                Compiler::Gnu => true,
                Compiler::Clang => false,
            };
            if previous_definition && self.table.get(name).is_none() && !gnu {
                return Err(Error::new(start, "weak must precede the symbol definition on this target"));
            }
            self.table.insert(name, start);
        }
        if external && self.table.get(name).is_some() {
            Ok(SymbolBinding::Weak)
        } else {
            Ok(SymbolBinding::Strong)
        }
    }
}

/// Where a function's `returns_twice` and `noreturn` attributes were
/// written, merged across its declarations.
#[derive(Clone, Copy, Debug, PartialEq, Eq, Structural)]
pub struct FunctionEffects {
    pub returns_twice: Option<usize>,
    pub noreturn: Option<usize>,
}

/// The first of two optional positions that is present.
pub open spec fn or_else(a: Option<usize>, b: Option<usize>) -> Option<usize> {
    if a is Some { a } else { b }
}

/// The control-flow attributes of functions, by name.
#[derive(Debug)]
pub struct FunctionEffectsTable {
    pub table: NameTable<FunctionEffects>,
}

impl FunctionEffectsTable {
    /// No attribute yet.
    pub fn new() -> (r: Self)
        ensures
            r.table.map() == Map::<Seq<char>, FunctionEffects>::empty(),
    {
        FunctionEffectsTable { table: NameTable::new() }
    }

    /// Merges a declaration of `name` with the attributes written on it and
    /// says whether the function returns twice. The two attributes cannot be
    /// combined across the declarations. `declaration` describes the
    /// function's earlier file declaration, if any: whether it is a
    /// definition and whether it already returns twice; except under GCC, a
    /// new `returns_twice` cannot follow the definition.
    pub fn check_returns_twice(
        &mut self,
        name: &str,
        returns_twice: Option<usize>,
        noreturn: Option<usize>,
        declaration: Option<(bool, bool)>,
        compiler: Compiler,
    ) -> (r: Result<bool, Error>)
        ensures
            ({
                let before = old(self).table.map();
                let previous = if before.contains_key(name@) {
                    before[name@]
                } else {
                    FunctionEffects { returns_twice: None, noreturn: None }
                };
                let merged = FunctionEffects {
                    returns_twice: or_else(returns_twice, previous.returns_twice),
                    noreturn: or_else(noreturn, previous.noreturn),
                };
                let late = returns_twice is Some && (declaration matches Some((definition, already))
                    && definition && !already && compiler != Compiler::Gnu);
                &&& r is Ok <==> !(merged.returns_twice is Some && merged.noreturn is Some) && !late
                &&& r matches Ok(b) ==> b == merged.returns_twice is Some
                &&& r is Ok ==> final(self).table.map() == if returns_twice is Some || noreturn is Some {
                    before.insert(name@, merged)
                } else {
                    before
                }
                &&& r is Err ==> final(self).table.map() == before
            }),
    {
        let previous = match self.table.get(name) {
            Some(effects) => effects,
            None => FunctionEffects { returns_twice: None, noreturn: None },
        };
        let effects = FunctionEffects {
            returns_twice: match returns_twice {
                Some(start) => Some(start),
                None => previous.returns_twice,
            },
            noreturn: match noreturn {
                Some(start) => Some(start),
                None => previous.noreturn,
            },
        };
        if let (Some(a), Some(b)) = (effects.returns_twice, effects.noreturn) {
            let offset = if a < b { b } else { a };
            return Err(Error::new(offset, "combining returns_twice and noreturn is unsupported"));
        }
        if let Some(start) = returns_twice {
            if let Some((definition, already)) = declaration {
                let gnu = match compiler {
                    Compiler::Gnu => true,
                    Compiler::Clang => false,
                };
                if definition && !already && !gnu {
                    return Err(Error::new(start, "returns_twice must precede the function definition on this target"));
                }
            }
        }
        if returns_twice.is_some() || noreturn.is_some() {
            self.table.insert(name, effects);
        }
        Ok(effects.returns_twice.is_some())
    }
}

/// Once a name is weak it stays weak: every later accepted declaration
/// keeps it in the table, so an external declaration of it binds weakly.
pub proof fn lemma_weak_persists(before: Map<Seq<char>, usize>, name: Seq<char>, attribute: Option<usize>, other: Seq<char>)
    requires
        before.contains_key(name),
    ensures
        (match attribute {
            Some(start) => before.insert(other, start),
            None => before,
        }).contains_key(name),
{
}

} // verus!
