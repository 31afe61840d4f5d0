//! Function body ownership, independently of inlining decisions and C type identity.

use crate::error::Error;
use crate::ir::{Declaration, DeclarationKind, SymbolBinding};
use crate::profile::{Compiler, Target};
use vstd::prelude::*;

verus! {

/// Which definition a checked function body contributes to the program.
#[derive(Clone, Copy, Debug, Eq, PartialEq, Structural)]
#[non_exhaustive]
pub enum FunctionDefinitionKind {
    /// An ordinary definition of an externally linked function.
    External,
    /// A definition whose name has internal linkage in this translation unit.
    Internal,
    /// A body available for inline expansion; another unit supplies the external definition.
    InlineOnly,
    /// A Clang inline body that can supply a weak external definition when referenced.
    WeakInline,
    /// An earlier GNU extern-inline body replaced by a later body.
    Superseded,
    /// A Microsoft inline definition the linker may coalesce.
    MicrosoftInline,
    /// A Microsoft inline definition with an explicit `extern` declaration.
    MicrosoftExternInline,
}

/// Declaration-time inline facts for a function with recorded inline syntax.
#[derive(Clone, Copy, Debug, Eq, PartialEq, Structural)]
pub struct FunctionInlineFacts {
    /// A file-scope occurrence was not inline when it was checked.
    pub has_non_inline_declaration: bool,
    /// A checked file-scope body was inline, including a replaced GNU body.
    pub has_inline_definition: bool,
}

impl Declaration {
    /// Rejects inconsistent inline facts supplied by a caller-built unit.
    pub fn validate_inline_facts(&self) -> (r: Result<(), Error>)
        ensures
            r is Err <==> (self.inline_facts matches Some(facts) && (self.kind != DeclarationKind::Function
                || (facts.has_inline_definition && !self.is_definition))),
    {
        if let Some(facts) = self.inline_facts {
            let function = match self.kind {
                DeclarationKind::Function => true,
                _ => false,
            };
            if !function || (facts.has_inline_definition && !self.is_definition) {
                return Err(Error::new(
                    0,
                    "inline facts require a function; an inline definition requires a checked body",
                ));
            }
        }
        Ok(())
    }
}

impl FunctionDefinitionKind {
    /// Clang can materialize an otherwise inline-only body as a weak definition.
    pub fn with_symbol_binding(self, compiler: Compiler, binding: SymbolBinding) -> (r: Self)
        ensures
            r == if self == FunctionDefinitionKind::InlineOnly && compiler == Compiler::Clang
                && binding == SymbolBinding::Weak {
                FunctionDefinitionKind::WeakInline
            } else {
                self
            },
    {
        if self == FunctionDefinitionKind::InlineOnly && compiler == Compiler::Clang && binding
            == SymbolBinding::Weak {
            FunctionDefinitionKind::WeakInline
        } else {
            self
        }
    }
}

/// The kind of a checked function body before inline rules apply: internal
/// for a `static` function, external otherwise.
pub fn plain_definition_kind(is_static: bool) -> (r: FunctionDefinitionKind)
    ensures
        r == if is_static {
            FunctionDefinitionKind::Internal
        } else {
            FunctionDefinitionKind::External
        },
{
    if is_static {
        FunctionDefinitionKind::Internal
    } else {
        FunctionDefinitionKind::External
    }
}

/// Source facts of one checked declaration of a function with inline syntax.
#[derive(Clone, Copy, Debug, PartialEq, Eq, Structural)]
pub struct DeclarationFacts {
    pub offset: usize,
    pub file_scope: bool,
    pub written_inline: bool,
    pub written_extern: bool,
    pub written_gnu_inline: bool,
    pub body: bool,
    pub internal: bool,
    /// Clang can inherit the inline promise from an earlier declaration.
    pub inlined: bool,
    /// A later GNU-inline attribute does not rewrite an earlier Clang body.
    pub gnu_inline: bool,
}

/// GNU's inline state of a name in one scope.
#[derive(Clone, Copy, Debug, PartialEq, Eq, Structural)]
pub struct GnuDeclaration {
    pub inlined: bool,
    pub attribute: bool,
}

/// The GNU state after a declaration, given the state the same scope holds
/// (`previous`) and the state inherited from outer scopes or the file. A
/// written `inline` must agree with the scope's `gnu_inline` spelling.
pub fn gnu_declaration_state(
    previous: Option<GnuDeclaration>,
    inherited: Option<GnuDeclaration>,
    declaration: DeclarationFacts,
) -> (r: Result<GnuDeclaration, Error>)
    ensures
        r is Err <==> (declaration.written_inline && (previous matches Some(p) && p.inlined
            && p.attribute != declaration.written_gnu_inline)),
        r matches Ok(state) ==> {
            let base = match previous {
                Some(p) => p,
                None => match inherited {
                    Some(i) => i,
                    None => GnuDeclaration { inlined: false, attribute: false },
                },
            };
            state == (GnuDeclaration {
                inlined: base.inlined || declaration.written_inline,
                attribute: base.attribute || declaration.written_gnu_inline,
            })
        },
{
    if declaration.written_inline {
        if let Some(p) = previous {
            if p.inlined && p.attribute != declaration.written_gnu_inline {
                return Err(Error::new(declaration.offset, "gnu_inline must be consistent across GNU inline declarations in the same scope"));
            }
        }
    }
    let base = match previous {
        Some(p) => p,
        None => match inherited {
            Some(i) => i,
            None => GnuDeclaration { inlined: false, attribute: false },
        },
    };
    Ok(GnuDeclaration {
        inlined: base.inlined || declaration.written_inline,
        attribute: base.attribute || declaration.written_gnu_inline,
    })
}

/// Every checked declaration of one function name with inline syntax.
#[derive(Clone, Debug)]
pub struct History {
    pub declarations: Vec<DeclarationFacts>,
    pub file_declaration: Option<usize>,
    pub last_body: Option<usize>,
    pub any_inline: bool,
    pub any_gnu_inline: bool,
    pub requires_c11_definition: bool,
    pub file_nonextern_inline: bool,
    pub any_nonextern_inline: bool,
    pub any_extern: bool,
}

/// A declaration with the inline promises it inherits: under Clang an earlier
/// `inline` or `gnu_inline` carries over to later declarations.
pub open spec fn effective_facts(d: DeclarationFacts, h: History, gnu: bool) -> DeclarationFacts {
    DeclarationFacts {
        inlined: d.written_inline || (!gnu && h.any_inline),
        gnu_inline: d.written_gnu_inline || (!gnu && h.any_gnu_inline),
        ..d
    }
}

/// Whether a body may follow an earlier body: the earlier one must be an
/// `extern inline` body under C90 or GNU inline rules (and, under GNU, not
/// internal, with no file-scope non-extern inline declaration, and the new
/// body not itself `extern inline`).
pub open spec fn repeated_body_spec(h: History, d: DeclarationFacts, gnu: bool, c90: bool) -> bool {
    d.body && (h.last_body matches Some(i) && {
        let p = h.declarations@[i as int];
        &&& c90 || p.gnu_inline
        &&& !gnu || !p.internal
        &&& p.written_inline
        &&& p.written_extern
        &&& !gnu || (!h.file_nonextern_inline && (!d.written_inline || !d.written_extern))
    })
}

impl History {
    /// An empty history.
    pub fn new() -> (r: Self)
        ensures
            r.well_formed(),
            r.declarations@.len() == 0,
            r.file_declaration is None && r.last_body is None,
            !r.any_inline && !r.any_gnu_inline && !r.requires_c11_definition,
            !r.file_nonextern_inline && !r.any_nonextern_inline && !r.any_extern,
    {
        History {
            declarations: Vec::new(),
            file_declaration: None,
            last_body: None,
            any_inline: false,
            any_gnu_inline: false,
            requires_c11_definition: false,
            file_nonextern_inline: false,
            any_nonextern_inline: false,
            any_extern: false,
        }
    }

    /// The last body is one of the recorded declarations.
    pub open spec fn well_formed(&self) -> bool {
        self.last_body matches Some(i) ==> i < self.declarations@.len()
    }

    /// Records one checked declaration's source facts and answers whether a
    /// second body is permitted by GNU inline redeclaration rules.
    pub fn record(&mut self, declaration: DeclarationFacts, gnu: bool, c90: bool) -> (repeated: bool)
        requires
            old(self).well_formed(),
        ensures
            final(self).well_formed(),
            ({
                let h = *old(self);
                let d = effective_facts(declaration, h, gnu);
                &&& repeated == repeated_body_spec(h, d, gnu, c90)
                &&& final(self).declarations@ == h.declarations@.push(d)
                &&& final(self).file_declaration == h.file_declaration
                &&& final(self).last_body == if d.body {
                    Some(h.declarations@.len() as usize)
                } else {
                    h.last_body
                }
                &&& final(self).any_inline == (h.any_inline || d.written_inline)
                &&& final(self).any_gnu_inline == (h.any_gnu_inline || d.written_gnu_inline)
                &&& final(self).any_extern == (h.any_extern || d.written_extern)
                &&& final(self).any_nonextern_inline == (h.any_nonextern_inline || (d.written_inline
                    && !d.written_extern))
                &&& final(self).file_nonextern_inline == (h.file_nonextern_inline || (d.file_scope
                    && d.written_inline && !d.written_extern))
                &&& final(self).requires_c11_definition == (h.requires_c11_definition || (d.file_scope
                    && (!d.written_inline || d.written_extern)) || (gnu && h.file_declaration is None
                    && !d.written_inline))
            }),
    {
        let mut d = declaration;
        d.inlined = declaration.written_inline || (!gnu && self.any_inline);
        d.gnu_inline = declaration.written_gnu_inline || (!gnu && self.any_gnu_inline);
        let repeated = d.body && match self.last_body {
            Some(index) => {
                let p = self.declarations[index];
                (c90 || p.gnu_inline) && (!gnu || !p.internal) && p.written_inline
                    && p.written_extern && (!gnu || (!self.file_nonextern_inline && (
                !d.written_inline || !d.written_extern)))
            },
            None => false,
        };
        self.any_inline = self.any_inline || d.written_inline;
        self.any_gnu_inline = self.any_gnu_inline || d.written_gnu_inline;
        self.any_extern = self.any_extern || d.written_extern;
        self.any_nonextern_inline = self.any_nonextern_inline || (d.written_inline
            && !d.written_extern);
        self.file_nonextern_inline = self.file_nonextern_inline || (d.file_scope && d.written_inline
            && !d.written_extern);
        self.requires_c11_definition = self.requires_c11_definition || (d.file_scope && (
        !d.written_inline || d.written_extern)) || (gnu && self.file_declaration.is_none()
            && !d.written_inline);
        if d.body {
            self.last_body = Some(self.declarations.len());
        }
        self.declarations.push(d);
        repeated
    }

    /// Applies the compiler's source rules after all relevant declarations have
    /// been checked: which definition the final body supplies.
    pub fn ownership(&self, body: DeclarationFacts, compiler: Compiler, target: Target, c90: bool) -> (r: FunctionDefinitionKind)
        ensures
            r == if body.internal {
                FunctionDefinitionKind::Internal
            } else if target == Target::X86_64PcWindowsMsvc && body.inlined && !body.gnu_inline {
                if self.any_extern {
                    FunctionDefinitionKind::MicrosoftExternInline
                } else {
                    FunctionDefinitionKind::MicrosoftInline
                }
            } else if (if c90 || body.gnu_inline {
                !body.written_inline || !body.written_extern || if compiler == Compiler::Clang {
                    self.any_nonextern_inline
                } else {
                    self.file_nonextern_inline
                }
            } else {
                self.requires_c11_definition
            }) {
                FunctionDefinitionKind::External
            } else {
                FunctionDefinitionKind::InlineOnly
            },
    {
        if body.internal {
            return FunctionDefinitionKind::Internal;
        }
        if target == Target::X86_64PcWindowsMsvc && body.inlined && !body.gnu_inline {
            return if self.any_extern {
                FunctionDefinitionKind::MicrosoftExternInline
            } else {
                FunctionDefinitionKind::MicrosoftInline
            };
        }
        let externally_defined = if c90 || body.gnu_inline {
            !body.written_inline || !body.written_extern || match compiler {
                Compiler::Clang => self.any_nonextern_inline,
                Compiler::Gnu => self.file_nonextern_inline,
            }
        } else {
            self.requires_c11_definition
        };
        if externally_defined {
            FunctionDefinitionKind::External
        } else {
            FunctionDefinitionKind::InlineOnly
        }
    }

    /// The file declaration's inline facts: whether some file-scope
    /// declaration was not inline, and whether a file-scope body was inline.
    pub fn inline_facts(&self) -> (r: FunctionInlineFacts)
        ensures
            r.has_non_inline_declaration == exists|k: int| 0 <= k < self.declarations@.len()
                && (#[trigger] self.declarations@[k]).file_scope && !self.declarations@[k].inlined,
            r.has_inline_definition == exists|k: int| 0 <= k < self.declarations@.len()
                && (#[trigger] self.declarations@[k]).file_scope && self.declarations@[k].body
                && self.declarations@[k].inlined,
    {
        let mut non_inline = false;
        let mut inline_definition = false;
        let mut k: usize = 0;
        while k < self.declarations.len()
            invariant
                k <= self.declarations@.len(),
                non_inline == exists|j: int| 0 <= j < k && (#[trigger] self.declarations@[j]).file_scope
                    && !self.declarations@[j].inlined,
                inline_definition == exists|j: int| 0 <= j < k
                    && (#[trigger] self.declarations@[j]).file_scope && self.declarations@[j].body
                    && self.declarations@[j].inlined,
            decreases self.declarations.len() - k,
        {
            let d = self.declarations[k];
            if d.file_scope && !d.inlined {
                non_inline = true;
            }
            if d.file_scope && d.body && d.inlined {
                inline_definition = true;
            }
            k = k + 1;
        }
        FunctionInlineFacts {
            has_non_inline_declaration: non_inline,
            has_inline_definition: inline_definition,
        }
    }
}

} // verus!
