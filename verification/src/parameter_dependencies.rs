//! Optional source dependencies erased by C's array-parameter adjustment.

use crate::error::Error;
use std::collections::{BTreeMap, BTreeSet};
use vstd::prelude::*;
use vstd::string::StringSliceAdditionalSpecFns;

verus! {

/// The most typedef references one analysis captures.
pub const MAX_REFERENCES: usize = 1000000;

/// The most bytes of typedef names one analysis captures.
pub const MAX_BYTES: usize = 67108864;

/// The declaration or record that owns a signature occurrence.
#[derive(Clone, Copy, Debug, PartialEq, Eq, Structural)]
pub enum DeclarationTarget {
    Declaration(usize),
    Record(usize),
}

/// A byte range of the analyzed source.
#[derive(Clone, Copy, Debug, PartialEq, Eq, Structural)]
pub struct SourceSpan {
    pub start: usize,
    pub end: usize,
}

/// Typedef dependencies of one written function-type cursor.
///
/// An inline or internal function can contribute this type occurrence even when
/// a binding generator omits the function itself.
#[derive(Debug)]
pub struct ParameterTypeOccurrence {
    owner: DeclarationTarget,
    source: SourceSpan,
    owner_source: Option<SourceSpan>,
    typedefs: BTreeSet<String>,
}

impl ParameterTypeOccurrence {
    /// An occurrence records at least one typedef name: a signature written
    /// without aliases records none.
    #[verifier::type_invariant]
    spec fn names_something(self) -> bool {
        self.typedefs@ != Set::<String>::empty()
    }

    pub closed spec fn owner_spec(&self) -> DeclarationTarget {
        self.owner
    }

    pub closed spec fn source_spec(&self) -> SourceSpan {
        self.source
    }

    /// The declaration or field cursor of this occurrence.
    pub closed spec fn owner_source_spec(&self) -> SourceSpan {
        match self.owner_source {
            Some(s) => s,
            None => self.source,
        }
    }

    pub closed spec fn typedefs_spec(&self) -> Set<String> {
        self.typedefs@
    }

    /// An occurrence at `source`, inside the declaration or field at
    /// `owner_source` (the same span for a top-level signature), naming at
    /// least one typedef.
    pub fn new(owner: DeclarationTarget, owner_source: SourceSpan, source: SourceSpan, typedefs: BTreeSet<String>) -> (r: Self)
        requires
            typedefs@ != Set::<String>::empty(),
        ensures
            r.owner_spec() == owner,
            r.source_spec() == source,
            r.owner_source_spec() == owner_source,
            r.typedefs_spec() == typedefs@,
    {
        let owner_source = if owner_source == source {
            None
        } else {
            Some(owner_source)
        };
        ParameterTypeOccurrence { owner, source, owner_source, typedefs }
    }

    /// Declaration or record containing this signature occurrence.
    pub fn owner(&self) -> (r: DeclarationTarget)
        ensures
            r == self.owner_spec(),
    {
        self.owner
    }

    /// The function, field, typedef, or parameter cursor anchoring this occurrence.
    pub fn source(&self) -> (r: &SourceSpan)
        ensures
            *r == self.source_spec(),
    {
        &self.source
    }

    /// The declaration or field cursor for this particular source occurrence.
    /// Compatible redeclarations share an owner identity but have different
    /// source anchors. Nested parameter cursors retain that outer anchor.
    pub fn owner_source(&self) -> (r: &SourceSpan)
        ensures
            *r == self.owner_source_spec(),
    {
        match &self.owner_source {
            Some(s) => s,
            None => &self.source,
        }
    }

    /// File-scope typedef names erased from adjusted parameter types.
    pub fn typedefs(&self) -> (r: &BTreeSet<String>)
        ensures
            r@ == self.typedefs_spec(),
            r@ != Set::<String>::empty(),
    {
        proof {
            use_type_invariant(self);
        }
        &self.typedefs
    }
}

/// Source-only dependencies owned by an analysis: located type occurrences,
/// and the extra dependencies of reachable records and typedefs.
#[derive(Debug)]
pub struct ParameterTypeDependencies {
    occurrences: Vec<ParameterTypeOccurrence>,
    records: BTreeMap<usize, BTreeSet<String>>,
    typedefs: BTreeMap<String, BTreeSet<String>>,
}

impl ParameterTypeDependencies {
    pub closed spec fn occurrences_spec(&self) -> Seq<ParameterTypeOccurrence> {
        self.occurrences@
    }

    pub closed spec fn records_spec(&self) -> Map<usize, BTreeSet<String>> {
        self.records@
    }

    pub closed spec fn typedefs_spec(&self) -> Map<String, BTreeSet<String>> {
        self.typedefs@
    }

    /// Dependencies from their captured parts.
    pub fn new(
        occurrences: Vec<ParameterTypeOccurrence>,
        records: BTreeMap<usize, BTreeSet<String>>,
        typedefs: BTreeMap<String, BTreeSet<String>>,
    ) -> (r: Self)
        ensures
            r.occurrences_spec() == occurrences@,
            r.records_spec() == records@,
            r.typedefs_spec() == typedefs@,
    {
        ParameterTypeDependencies { occurrences, records, typedefs }
    }

    /// Located type occurrences, including compatible redeclarations.
    pub fn occurrences(&self) -> (r: &[ParameterTypeOccurrence])
        ensures
            r@ == self.occurrences_spec(),
    {
        self.occurrences.as_slice()
    }

    /// Additional dependencies of callback fields in a reachable record.
    pub fn records(&self) -> (r: &BTreeMap<usize, BTreeSet<String>>)
        ensures
            r@ == self.records_spec(),
    {
        &self.records
    }

    /// Additional dependencies of a reachable function or callback typedef.
    pub fn typedefs(&self) -> (r: &BTreeMap<String, BTreeSet<String>>)
        ensures
            r@ == self.typedefs_spec(),
    {
        &self.typedefs
    }
}

/// The diagnostic of a charge past a limit: the storage limit where the
/// references fit, the reference limit otherwise.
pub open spec fn limit_message(references_fit: bool) -> Seq<char> {
    if references_fit {
        "parameter-type dependency storage limit exceeded"@
    } else {
        "parameter-type dependency reference limit exceeded"@
    }
}

/// What capture has used of its reference and byte budgets.
#[derive(Clone, Copy, Debug, PartialEq, Eq, Structural)]
pub struct CaptureBudget {
    pub references: usize,
    pub bytes: usize,
}

impl CaptureBudget {
    /// Accounts for `references` more names of `bytes` total length, before
    /// anything is copied: each total must stay within its limit.
    pub fn charge(&mut self, references: usize, bytes: usize, offset: usize) -> (r: Result<(), Error>)
        ensures
            r is Ok <==> old(self).references + references <= MAX_REFERENCES && old(self).bytes
                + bytes <= MAX_BYTES,
            r is Ok ==> final(self).references == old(self).references + references
                && final(self).bytes == old(self).bytes + bytes,
            r is Err ==> final(self).bytes == old(self).bytes && final(self).references == if old(
                self,
            ).references + references <= MAX_REFERENCES {
                old(self).references + references
            } else {
                old(self).references as int
            },
            r matches Err(e) ==> e.offset == offset && e.message@ == limit_message(old(self).references + references <= MAX_REFERENCES),
    {
        if references > MAX_REFERENCES || self.references > MAX_REFERENCES - references {
            return Err(Error::new(offset, "parameter-type dependency reference limit exceeded"));
        }
        self.references = self.references + references;
        if bytes > MAX_BYTES || self.bytes > MAX_BYTES - bytes {
            return Err(Error::new(offset, "parameter-type dependency storage limit exceeded"));
        }
        self.bytes = self.bytes + bytes;
        Ok(())
    }
}

/// The bytes of a name's UTF-8 spelling.
pub open spec fn name_length(name: Seq<char>) -> nat {
    vstd::utf8::encode_utf8(name).len()
}

/// The total spelling length of some names.
pub open spec fn names_length(names: Seq<Seq<char>>) -> nat
    decreases names.len(),
{
    if names.len() == 0 {
        0
    } else {
        names_length(names.drop_last()) + name_length(names.last())
    }
}

/// The names of some strings.
pub open spec fn names_view(names: Seq<String>) -> Seq<Seq<char>> {
    names.map_values(|n: String| n@)
}

/// Where aliases go: the declaration or field being captured, or the
/// parameter of a nested function declarator written at `source`.
#[derive(Clone, Copy, Debug, PartialEq, Eq, Structural)]
pub struct CaptureCursor {
    pub source: SourceSpan,
    pub parameter: bool,
}

/// The aliases captured for one nested parameter.
#[derive(Debug)]
pub struct ParameterAliases {
    pub source: SourceSpan,
    pub names: Vec<String>,
}

/// One declaration or record field being captured.
#[derive(Debug)]
struct CaptureFrame {
    source: SourceSpan,
    previous_cursor: Option<CaptureCursor>,
    previous_suspended: bool,
    direct: Vec<String>,
    parameters: Vec<ParameterAliases>,
}

/// A capture frame as values: its source, the cursor and suspension to
/// restore, its direct aliases and its nested parameters' aliases.
pub struct FrameView {
    pub source: SourceSpan,
    pub previous_cursor: Option<CaptureCursor>,
    pub previous_suspended: bool,
    pub direct: Seq<Seq<char>>,
    pub parameters: Seq<(SourceSpan, Seq<Seq<char>>)>,
}

pub open spec fn parameters_view(parameters: Seq<ParameterAliases>) -> Seq<(SourceSpan, Seq<Seq<char>>)> {
    parameters.map_values(|p: ParameterAliases| (p.source, names_view(p.names@)))
}

spec fn frame_view(f: CaptureFrame) -> FrameView {
    FrameView {
        source: f.source,
        previous_cursor: f.previous_cursor,
        previous_suspended: f.previous_suspended,
        direct: names_view(f.direct@),
        parameters: parameters_view(f.parameters@),
    }
}

/// How many aliases the parameters hold.
pub open spec fn parameters_count(parameters: Seq<(SourceSpan, Seq<Seq<char>>)>) -> nat
    decreases parameters.len(),
{
    if parameters.len() == 0 {
        0
    } else {
        parameters_count(parameters.drop_last()) + parameters.last().1.len()
    }
}

/// The total spelling length of the parameters' aliases.
pub open spec fn parameters_length(parameters: Seq<(SourceSpan, Seq<Seq<char>>)>) -> nat
    decreases parameters.len(),
{
    if parameters.len() == 0 {
        0
    } else {
        parameters_length(parameters.drop_last()) + names_length(parameters.last().1)
    }
}

/// The position of the parameter written at `start`, searching from `i`.
pub open spec fn parameter_at(parameters: Seq<(SourceSpan, Seq<Seq<char>>)>, start: usize, i: int) -> Option<int>
    decreases parameters.len() - i,
{
    if i < 0 || i >= parameters.len() {
        None
    } else if parameters[i].0.start == start {
        Some(i)
    } else {
        parameter_at(parameters, start, i + 1)
    }
}

/// Whether the frame already holds `name` where the cursor points.
pub open spec fn alias_present(f: FrameView, c: CaptureCursor, name: Seq<char>) -> bool {
    if c.parameter {
        match parameter_at(f.parameters, c.source.start, 0) {
            Some(i) => f.parameters[i].1.contains(name),
            None => false,
        }
    } else {
        f.direct.contains(name)
    }
}

/// The frame after `name` is added where the cursor points.
pub open spec fn with_alias(f: FrameView, c: CaptureCursor, name: Seq<char>) -> FrameView {
    if c.parameter {
        match parameter_at(f.parameters, c.source.start, 0) {
            Some(i) => FrameView {
                parameters: f.parameters.update(i, (f.parameters[i].0, f.parameters[i].1.push(name))),
                ..f
            },
            None => FrameView { parameters: f.parameters.push((c.source, seq![name])), ..f },
        }
    } else {
        FrameView { direct: f.direct.push(name), ..f }
    }
}

/// What charging `references` names of `bytes` total length does to a
/// budget: whether it succeeds, and the budget after.
pub open spec fn charge_outcome(b: CaptureBudget, references: int, bytes: int) -> (bool, CaptureBudget) {
    if b.references + references <= MAX_REFERENCES && b.bytes + bytes <= MAX_BYTES {
        (true, CaptureBudget { references: (b.references + references) as usize, bytes: (b.bytes + bytes) as usize })
    } else if b.references + references <= MAX_REFERENCES {
        (false, CaptureBudget { references: (b.references + references) as usize, ..b })
    } else {
        (false, b)
    }
}

fn holds_name(names: &Vec<String>, name: &str) -> (r: bool)
    ensures
        r == names_view(names@).contains(name@),
{
    let mut i: usize = 0;
    while i < names.len()
        invariant
            i <= names@.len(),
            forall|j: int| 0 <= j < i ==> (#[trigger] names@[j])@ != name@,
        decreases names.len() - i,
    {
        let t = crate::text::chars(names[i].as_str());
        if crate::text::chars_equal(t.as_slice(), name) {
            proof {
                assert(names_view(names@)[i as int] == name@);
            }
            return true;
        }
        i = i + 1;
    }
    proof {
        if names_view(names@).contains(name@) {
            let j = choose|j: int| 0 <= j < names_view(names@).len() && names_view(names@)[j] == name@;
            assert(names@[j]@ == name@);
        }
    }
    false
}

fn find_parameter(parameters: &Vec<ParameterAliases>, start: usize) -> (r: Option<usize>)
    ensures
        match r {
            Some(i) => parameter_at(parameters_view(parameters@), start, 0) == Some(i as int) && i < parameters@.len(),
            None => parameter_at(parameters_view(parameters@), start, 0) is None,
        },
{
    let mut i: usize = 0;
    while i < parameters.len()
        invariant
            i <= parameters@.len(),
            parameter_at(parameters_view(parameters@), start, 0) == parameter_at(parameters_view(parameters@), start, i as int),
        decreases parameters.len() - i,
    {
        if parameters[i].source.start == start {
            return Some(i);
        }
        i = i + 1;
    }
    None
}

/// Counts some names and their total length, each capped one past its limit.
fn names_totals(names: &Vec<String>) -> (r: (usize, usize))
    ensures
        r.0 == if names@.len() > MAX_REFERENCES { MAX_REFERENCES + 1 } else { names@.len() as int },
        r.1 == if names_length(names_view(names@)) > MAX_BYTES { MAX_BYTES + 1 } else { names_length(names_view(names@)) as int },
{
    let mut bytes: usize = 0;
    let mut i: usize = 0;
    while i < names.len()
        invariant
            i <= names@.len(),
            bytes == if names_length(names_view(names@.take(i as int))) > MAX_BYTES {
                MAX_BYTES + 1
            } else {
                names_length(names_view(names@.take(i as int))) as int
            },
        decreases names.len() - i,
    {
        proof {
            assert(names_view(names@.take(i as int + 1)).drop_last() =~= names_view(names@.take(i as int)));
            assert(names_view(names@.take(i as int + 1)).last() == names@[i as int]@);
        }
        let text = names[i].as_str();
        let length = text.as_bytes().len();
        proof {
            assert(text@ == names@[i as int]@);
            assert(length == name_length(names@[i as int]@));
            assert(names_length(names_view(names@.take(i as int + 1))) == names_length(names_view(names@.take(i as int)))
                + name_length(names@[i as int]@));
        }
        if bytes > MAX_BYTES || length > MAX_BYTES - bytes {
            bytes = MAX_BYTES + 1;
        } else {
            bytes = bytes + length;
        }
        i = i + 1;
    }
    proof {
        assert(names@.take(i as int) =~= names@);
    }
    let count = if names.len() > MAX_REFERENCES { MAX_REFERENCES + 1 } else { names.len() };
    (count, bytes)
}

/// Counts the aliases of some parameters and their total length, each
/// capped one past its limit.
fn parameters_totals(parameters: &Vec<ParameterAliases>) -> (r: (usize, usize))
    ensures
        r.0 == if parameters_count(parameters_view(parameters@)) > MAX_REFERENCES {
            MAX_REFERENCES + 1
        } else {
            parameters_count(parameters_view(parameters@)) as int
        },
        r.1 == if parameters_length(parameters_view(parameters@)) > MAX_BYTES {
            MAX_BYTES + 1
        } else {
            parameters_length(parameters_view(parameters@)) as int
        },
{
    let mut count: usize = 0;
    let mut bytes: usize = 0;
    let mut i: usize = 0;
    while i < parameters.len()
        invariant
            i <= parameters@.len(),
            count == if parameters_count(parameters_view(parameters@.take(i as int))) > MAX_REFERENCES {
                MAX_REFERENCES + 1
            } else {
                parameters_count(parameters_view(parameters@.take(i as int))) as int
            },
            bytes == if parameters_length(parameters_view(parameters@.take(i as int))) > MAX_BYTES {
                MAX_BYTES + 1
            } else {
                parameters_length(parameters_view(parameters@.take(i as int))) as int
            },
        decreases parameters.len() - i,
    {
        proof {
            assert(parameters_view(parameters@.take(i as int + 1)).drop_last() =~= parameters_view(parameters@.take(i as int)));
            assert(parameters_view(parameters@.take(i as int + 1)).last() == (parameters@[i as int].source, names_view(parameters@[i as int].names@)));
        }
        let (c, b) = names_totals(&parameters[i].names);
        count = if count > MAX_REFERENCES || c > MAX_REFERENCES - count { MAX_REFERENCES + 1 } else { count + c };
        bytes = if bytes > MAX_BYTES || b > MAX_BYTES - bytes { MAX_BYTES + 1 } else { bytes + b };
        i = i + 1;
    }
    proof {
        assert(parameters@.take(i as int) =~= parameters@);
    }
    (count, bytes)
}

fn copy_names(names: &Vec<String>) -> (r: Vec<String>)
    ensures
        names_view(r@) == names_view(names@),
{
    let mut r: Vec<String> = Vec::new();
    let mut i: usize = 0;
    while i < names.len()
        invariant
            i <= names@.len(),
            names_view(r@) == names_view(names@.take(i as int)),
        decreases names.len() - i,
    {
        let copy = names[i].clone();
        let ghost before = r@;
        r.push(copy);
        proof {
            assert(copy == names@[i as int]);
            assert(r@ == before.push(copy));
            assert(names@.take(i as int + 1) =~= names@.take(i as int).push(names@[i as int]));
            assert(names_view(before.push(copy)) =~= names_view(before).push(copy@));
            assert(names_view(names@.take(i as int).push(names@[i as int])) =~= names_view(names@.take(i as int)).push(names@[i as int]@));
            assert(names_view(r@) =~= names_view(names@.take(i as int + 1)));
        }
        i = i + 1;
    }
    proof {
        assert(names@.take(i as int) =~= names@);
    }
    r
}

fn copy_parameters(parameters: &Vec<ParameterAliases>) -> (r: Vec<ParameterAliases>)
    ensures
        parameters_view(r@) == parameters_view(parameters@),
{
    let mut r: Vec<ParameterAliases> = Vec::new();
    let mut i: usize = 0;
    while i < parameters.len()
        invariant
            i <= parameters@.len(),
            parameters_view(r@) == parameters_view(parameters@.take(i as int)),
        decreases parameters.len() - i,
    {
        let names = copy_names(&parameters[i].names);
        let ghost before = r@;
        let entry = ParameterAliases { source: parameters[i].source, names };
        let ghost copied = entry;
        r.push(entry);
        proof {
            assert(r@ == before.push(copied));
            assert(parameters@.take(i as int + 1) == parameters@.take(i as int).push(parameters@[i as int]));
            assert(parameters_view(before.push(copied)) =~= parameters_view(before).push((copied.source, names_view(copied.names@))));
            assert(parameters_view(parameters@.take(i as int).push(parameters@[i as int])) =~= parameters_view(parameters@.take(i as int)).push((parameters@[i as int].source, names_view(parameters@[i as int].names@))));
            assert(parameters_view(r@) =~= parameters_view(parameters@.take(i as int + 1)));
        }
        i = i + 1;
    }
    proof {
        assert(parameters@.take(i as int) =~= parameters@);
    }
    r
}

/// Captures the typedef aliases a declaration's parameter types are
/// written with, frame by frame, within the capture budget.
#[derive(Debug)]
pub struct DependencyCapture {
    frames: Vec<CaptureFrame>,
    cursor: Option<CaptureCursor>,
    suspended: bool,
    expression_suspensions: Vec<bool>,
    budget: CaptureBudget,
}

impl DependencyCapture {
    pub closed spec fn frames_spec(&self) -> Seq<FrameView> {
        self.frames@.map_values(|f: CaptureFrame| frame_view(f))
    }

    pub closed spec fn cursor_spec(&self) -> Option<CaptureCursor> {
        self.cursor
    }

    pub closed spec fn suspended_spec(&self) -> bool {
        self.suspended
    }

    pub closed spec fn saved_spec(&self) -> Seq<bool> {
        self.expression_suspensions@
    }

    pub closed spec fn budget_spec(&self) -> CaptureBudget {
        self.budget
    }

    /// A capture with nothing captured and `budget` already used.
    pub fn with_budget(budget: CaptureBudget) -> (r: Self)
        ensures
            r.frames_spec().len() == 0,
            r.cursor_spec() is None,
            !r.suspended_spec(),
            r.budget_spec() == budget,
            r.saved_spec() == Seq::new(128, |i: int| false),
    {
        let mut saved: Vec<bool> = Vec::new();
        let mut i: usize = 0;
        while i < 128
            invariant
                i <= 128,
                saved@ == Seq::new(i as nat, |j: int| false),
            decreases 128 - i,
        {
            saved.push(false);
            i = i + 1;
        }
        let r = DependencyCapture { frames: Vec::new(), cursor: None, suspended: false, expression_suspensions: saved, budget };
        proof {
            assert(r.frames_spec() =~= Seq::<FrameView>::empty());
        }
        r
    }

    /// A capture with nothing captured or charged.
    pub fn new() -> (r: Self)
        ensures
            r.frames_spec().len() == 0,
            r.cursor_spec() is None,
            !r.suspended_spec(),
            r.budget_spec() == (CaptureBudget { references: 0, bytes: 0 }),
    {
        Self::with_budget(CaptureBudget { references: 0, bytes: 0 })
    }

    /// The budget used so far.
    pub fn budget(&self) -> (r: CaptureBudget)
        ensures
            r == self.budget_spec(),
    {
        self.budget
    }

    /// How many frames are open.
    pub fn depth(&self) -> (r: usize)
        ensures
            r == self.frames_spec().len(),
    {
        self.frames.len()
    }

    /// Whether a declaration or field is being captured.
    pub fn active(&self) -> (r: bool)
        ensures
            r == (self.frames_spec().len() > 0),
    {
        self.frames.len() > 0
    }

    /// The aliases the innermost frame captured directly.
    pub fn direct_aliases(&self) -> (r: Option<&Vec<String>>)
        ensures
            match r {
                Some(v) => self.frames_spec().len() > 0 && names_view(v@) == self.frames_spec().last().direct,
                None => self.frames_spec().len() == 0,
            },
    {
        if self.frames.len() == 0 {
            None
        } else {
            Some(&self.frames[self.frames.len() - 1].direct)
        }
    }

    /// The aliases the innermost frame captured for nested parameters.
    pub fn parameter_aliases(&self) -> (r: Option<&Vec<ParameterAliases>>)
        ensures
            match r {
                Some(v) => self.frames_spec().len() > 0 && parameters_view(v@) == self.frames_spec().last().parameters,
                None => self.frames_spec().len() == 0,
            },
    {
        if self.frames.len() == 0 {
            None
        } else {
            Some(&self.frames[self.frames.len() - 1].parameters)
        }
    }

    /// Suspends capture (an expression's type operands are no binding
    /// roots), returning whether it was already suspended.
    pub fn suspend(&mut self) -> (r: bool)
        ensures
            r == old(self).suspended_spec(),
            final(self).suspended_spec(),
            final(self).frames_spec() == old(self).frames_spec(),
            final(self).cursor_spec() == old(self).cursor_spec(),
            final(self).budget_spec() == old(self).budget_spec(),
            final(self).saved_spec() == old(self).saved_spec(),
    {
        let previous = self.suspended;
        self.suspended = true;
        previous
    }

    /// Restores the suspension `previous` that [`Self::suspend`] returned.
    pub fn restore_suspension(&mut self, previous: bool)
        ensures
            final(self).suspended_spec() == previous,
            final(self).frames_spec() == old(self).frames_spec(),
            final(self).cursor_spec() == old(self).cursor_spec(),
            final(self).budget_spec() == old(self).budget_spec(),
            final(self).saved_spec() == old(self).saved_spec(),
    {
        self.suspended = previous;
    }

    /// Enters an expression at nesting `depth`, suspending capture and
    /// remembering the suspension it replaces.
    pub fn enter_expression(&mut self, depth: usize)
        requires
            depth < old(self).saved_spec().len(),
        ensures
            final(self).suspended_spec(),
            final(self).saved_spec() == old(self).saved_spec().update(depth as int, old(self).suspended_spec()),
            final(self).frames_spec() == old(self).frames_spec(),
            final(self).cursor_spec() == old(self).cursor_spec(),
            final(self).budget_spec() == old(self).budget_spec(),
    {
        let previous = self.suspended;
        self.suspended = true;
        self.expression_suspensions.set(depth, previous);
    }

    /// Leaves the expression at nesting `depth`, restoring its suspension.
    pub fn leave_expression(&mut self, depth: usize)
        requires
            depth < old(self).saved_spec().len(),
        ensures
            final(self).suspended_spec() == old(self).saved_spec()[depth as int],
            final(self).saved_spec() == old(self).saved_spec(),
            final(self).frames_spec() == old(self).frames_spec(),
            final(self).cursor_spec() == old(self).cursor_spec(),
            final(self).budget_spec() == old(self).budget_spec(),
    {
        self.suspended = self.expression_suspensions[depth];
    }

    /// Points aliases at the nested function declarator's parameter written
    /// at `source`, returning the cursor to restore.
    pub fn parameter_cursor(&mut self, source: SourceSpan) -> (r: Option<CaptureCursor>)
        ensures
            r == old(self).cursor_spec(),
            final(self).cursor_spec() == Some(CaptureCursor { source, parameter: true }),
            final(self).frames_spec() == old(self).frames_spec(),
            final(self).suspended_spec() == old(self).suspended_spec(),
            final(self).budget_spec() == old(self).budget_spec(),
            final(self).saved_spec() == old(self).saved_spec(),
    {
        let previous = self.cursor;
        self.cursor = Some(CaptureCursor { source, parameter: true });
        previous
    }

    /// Restores the cursor [`Self::parameter_cursor`] returned.
    pub fn restore_cursor(&mut self, previous: Option<CaptureCursor>)
        ensures
            final(self).cursor_spec() == previous,
            final(self).frames_spec() == old(self).frames_spec(),
            final(self).suspended_spec() == old(self).suspended_spec(),
            final(self).budget_spec() == old(self).budget_spec(),
            final(self).saved_spec() == old(self).saved_spec(),
    {
        self.cursor = previous;
    }
    /// Opens a frame for a declaration or record field written at `source`:
    /// at most 128 may be open. An inheriting frame (a further declarator of
    /// the same declaration) starts with the current frame's aliases, which
    /// are charged before they are copied.
    pub fn begin(&mut self, source: SourceSpan, inherit: bool) -> (r: Result<(), Error>)
        requires
            inherit ==> old(self).frames_spec().len() > 0,
        ensures
            final(self).saved_spec() == old(self).saved_spec(),
            old(self).frames_spec().len() >= 128 ==> {
                &&& r matches Err(e) && e.offset == source.start && e.message@
                    == "parameter-type dependency nesting limit exceeded"@
                &&& final(self).frames_spec() == old(self).frames_spec()
                &&& final(self).budget_spec() == old(self).budget_spec()
                &&& final(self).cursor_spec() == old(self).cursor_spec()
                &&& final(self).suspended_spec() == old(self).suspended_spec()
            },
            old(self).frames_spec().len() < 128 ==> {
                let previous = old(self).frames_spec().last();
                let charged = if inherit {
                    charge_outcome(
                        old(self).budget_spec(),
                        (previous.direct.len() + parameters_count(previous.parameters)) as int,
                        (names_length(previous.direct) + parameters_length(previous.parameters)) as int,
                    )
                } else {
                    (true, old(self).budget_spec())
                };
                let frame = FrameView {
                    source,
                    previous_cursor: old(self).cursor_spec(),
                    previous_suspended: old(self).suspended_spec(),
                    direct: if inherit { previous.direct } else { Seq::empty() },
                    parameters: if inherit { previous.parameters } else { Seq::empty() },
                };
                &&& r is Ok <==> charged.0
                &&& final(self).budget_spec() == charged.1
                &&& r matches Err(e) ==> e.offset == source.start && e.message@ == limit_message(
                    old(self).budget_spec().references + previous.direct.len() + parameters_count(previous.parameters)
                        <= MAX_REFERENCES,
                )
                &&& r is Ok ==> final(self).frames_spec() == old(self).frames_spec().push(frame)
                    && final(self).cursor_spec() == Some(CaptureCursor { source, parameter: false })
                    && !final(self).suspended_spec()
                &&& r is Err ==> final(self).frames_spec() == old(self).frames_spec() && final(self).cursor_spec()
                    == old(self).cursor_spec() && final(self).suspended_spec() == old(self).suspended_spec()
            },
    {
        if self.frames.len() >= 128 {
            return Err(Error::new(source.start, "parameter-type dependency nesting limit exceeded"));
        }
        let ghost before = self.frames_spec();
        let (direct, parameters) = if inherit {
            let last = self.frames.len() - 1;
            let (dc, db) = names_totals(&self.frames[last].direct);
            let (pc, pb) = parameters_totals(&self.frames[last].parameters);
            let references = if dc + pc > MAX_REFERENCES { MAX_REFERENCES + 1 } else { dc + pc };
            let bytes = if db + pb > MAX_BYTES { MAX_BYTES + 1 } else { db + pb };
            proof {
                assert(before.last() == frame_view(self.frames@[last as int]));
            }
            self.budget.charge(references, bytes, source.start)?;
            (copy_names(&self.frames[last].direct), copy_parameters(&self.frames[last].parameters))
        } else {
            proof {
                assert(names_view(Seq::<String>::empty()) =~= Seq::<Seq<char>>::empty());
                assert(parameters_view(Seq::<ParameterAliases>::empty()) =~= Seq::<(SourceSpan, Seq<Seq<char>>)>::empty());
            }
            (Vec::new(), Vec::new())
        };
        self.frames.push(
            CaptureFrame { source, previous_cursor: self.cursor, previous_suspended: self.suspended, direct, parameters },
        );
        proof {
            assert(self.frames_spec() =~= before.push(frame_view(self.frames@.last())));
        }
        self.suspended = false;
        self.cursor = Some(CaptureCursor { source, parameter: false });
        Ok(())
    }

    /// Records the typedef alias `name` where the cursor points, unless
    /// capture is suspended, nothing is open, or the name is already there;
    /// a new name is charged before it is stored.
    pub fn alias(&mut self, name: &str) -> (r: Result<(), Error>)
        ensures
            final(self).saved_spec() == old(self).saved_spec(),
            final(self).cursor_spec() == old(self).cursor_spec(),
            final(self).suspended_spec() == old(self).suspended_spec(),
            ({
                let frames = old(self).frames_spec();
                let skip = old(self).suspended_spec() || old(self).cursor_spec() is None || frames.len() == 0;
                if skip || alias_present(frames.last(), old(self).cursor_spec()->0, name@) {
                    &&& r is Ok
                    &&& final(self).frames_spec() == frames
                    &&& final(self).budget_spec() == old(self).budget_spec()
                } else {
                    let charged = charge_outcome(old(self).budget_spec(), 1, name_length(name@) as int);
                    &&& r is Ok <==> charged.0
                    &&& final(self).budget_spec() == charged.1
                    &&& r matches Err(e) ==> e.offset == old(self).cursor_spec()->0.source.start && e.message@
                        == limit_message(old(self).budget_spec().references + 1 <= MAX_REFERENCES)
                    &&& final(self).frames_spec() == if charged.0 {
                        frames.update(
                            frames.len() - 1,
                            with_alias(frames.last(), old(self).cursor_spec()->0, name@),
                        )
                    } else {
                        frames
                    }
                }
            }),
    {
        if self.suspended || self.frames.len() == 0 {
            return Ok(());
        }
        let cursor = match self.cursor {
            None => {
                return Ok(());
            },
            Some(c) => c,
        };
        let last = self.frames.len() - 1;
        let ghost frames = self.frames_spec();
        proof {
            assert(frames.last() == frame_view(self.frames@[last as int]));
        }
        let index = if cursor.parameter {
            find_parameter(&self.frames[last].parameters, cursor.source.start)
        } else {
            None
        };
        let present = if cursor.parameter {
            match index {
                Some(i) => holds_name(&self.frames[last].parameters[i].names, name),
                None => false,
            }
        } else {
            holds_name(&self.frames[last].direct, name)
        };
        proof {
            if cursor.parameter {
                match index {
                    Some(i) => {
                        assert(frames.last().parameters[i as int].1 == names_view(self.frames@[last as int].parameters@[i as int].names@));
                    },
                    None => {},
                }
            }
            assert(present == alias_present(frames.last(), cursor, name@));
        }
        if present {
            return Ok(());
        }
        let name_bytes = name.as_bytes().len();
        self.budget.charge(1, name_bytes, cursor.source.start)?;
        let mut frame = self.frames.pop().unwrap();
        let ghost old_frame = frame;
        proof {
            assert(frame_view(old_frame) == frames.last());
        }
        let owned = String::from_str(name);
        if cursor.parameter {
            match index {
                Some(i) => {
                    let mut entry = frame.parameters.remove(i);
                    entry.names.push(owned);
                    frame.parameters.insert(i, entry);
                },
                None => {
                    let mut names: Vec<String> = Vec::new();
                    names.push(owned);
                    frame.parameters.push(ParameterAliases { source: cursor.source, names });
                },
            }
        } else {
            frame.direct.push(owned);
        }
        proof {
            assert(names_view(frame.direct@) =~= frame_view(frame).direct);
            let expected = with_alias(frame_view(old_frame), cursor, name@);
            if cursor.parameter {
                match index {
                    Some(i) => {
                        assert(frame.parameters@ =~= old_frame.parameters@.update(i as int, frame.parameters@[i as int]));
                        assert(names_view(frame.parameters@[i as int].names@) =~= names_view(old_frame.parameters@[i as int].names@).push(name@));
                        assert(parameters_view(frame.parameters@) =~= expected.parameters);
                    },
                    None => {
                        assert(names_view(seq![owned]) =~= seq![name@]);
                        assert(parameters_view(frame.parameters@) =~= expected.parameters);
                    },
                }
            } else {
                assert(names_view(frame.direct@) =~= names_view(old_frame.direct@).push(name@));
            }
            assert(frame_view(frame) == expected);
        }
        self.frames.push(frame);
        proof {
            assert(self.frames_spec() =~= frames.update(frames.len() - 1, frame_view(frame)));
        }
        Ok(())
    }

    /// Closes the innermost frame without keeping its aliases, restoring
    /// the cursor and suspension from before it was opened.
    pub fn discard(&mut self)
        requires
            old(self).frames_spec().len() > 0,
        ensures
            final(self).frames_spec() == old(self).frames_spec().drop_last(),
            final(self).cursor_spec() == old(self).frames_spec().last().previous_cursor,
            final(self).suspended_spec() == old(self).frames_spec().last().previous_suspended,
            final(self).budget_spec() == old(self).budget_spec(),
            final(self).saved_spec() == old(self).saved_spec(),
    {
        let ghost frames = self.frames_spec();
        let frame = self.frames.pop().unwrap();
        proof {
            assert(self.frames_spec() =~= frames.drop_last());
        }
        self.cursor = frame.previous_cursor;
        self.suspended = frame.previous_suspended;
    }
}

} // verus!
