//! Per-function compilation options, separate from C type compatibility.

use crate::error::Error;
use crate::ir::{Declaration, DeclarationKind};
use crate::profile::{is_x86, is_x86_spec, Compiler, Target};
use crate::text::{split_commas, trim};
use vstd::prelude::*;
use vstd::string::*;

verus! {

/// Supported x86 `target` options, in the compiler's written order.
#[derive(Clone, Copy, Debug, PartialEq, Eq, Structural)]
#[non_exhaustive]
pub enum X86TargetOption {
    Mmx,
    NoMmx,
    Sse,
    Sse2,
    NoEvex512,
    Lzcnt,
    NoLzcnt,
    Bmi,
    NoBmi,
    Bmi2,
    NoBmi2,
}

/// The x86 instruction sets that the intrinsic table and inlining checks track.
#[derive(Clone, Copy, Debug, PartialEq, Eq, Structural)]
pub enum X86Feature {
    Mmx,
    Sse,
    Sse2,
    Lzcnt,
    Bmi,
    Bmi2,
}

/// A feature's bit in a compact feature set.
pub open spec fn feature_bit(feature: X86Feature) -> u8 {
    match feature {
        X86Feature::Mmx => 1,
        X86Feature::Sse => 2,
        X86Feature::Sse2 => 4,
        X86Feature::Lzcnt => 8,
        X86Feature::Bmi => 16,
        X86Feature::Bmi2 => 32,
    }
}

impl X86Feature {
    /// This feature's bit in a compact feature set.
    pub fn bit(self) -> (r: u8)
        ensures
            r == feature_bit(self),
    {
        match self {
            X86Feature::Mmx => 1,
            X86Feature::Sse => 2,
            X86Feature::Sse2 => 4,
            X86Feature::Lzcnt => 8,
            X86Feature::Bmi => 16,
            X86Feature::Bmi2 => 32,
        }
    }
}

/// Which tracked instruction sets are enabled.
#[derive(Clone, Copy, Debug, PartialEq, Eq, Structural)]
pub struct FeatureState {
    pub mmx: bool,
    pub sse: bool,
    pub sse2: bool,
    pub lzcnt: bool,
    pub bmi: bool,
    pub bmi2: bool,
}

/// Whether a state enables a feature.
pub open spec fn state_enables(state: FeatureState, feature: X86Feature) -> bool {
    match feature {
        X86Feature::Mmx => state.mmx,
        X86Feature::Sse => state.sse,
        X86Feature::Sse2 => state.sse2,
        X86Feature::Lzcnt => state.lzcnt,
        X86Feature::Bmi => state.bmi,
        X86Feature::Bmi2 => state.bmi2,
    }
}

/// The profile's baseline before any option: MMX and SSE through SSE2 on
/// 64-bit x86, nothing on i686.
pub open spec fn baseline_state(target: Target) -> FeatureState {
    let base = !(target is I686UnknownLinuxGnu);
    FeatureState { mmx: base, sse: base, sse2: base, lzcnt: false, bmi: false, bmi2: false }
}

/// One option applied to a state. `sse` and `sse2` also enable MMX unless
/// `no-mmx` is in force (`no_mmx`).
pub open spec fn apply_option(state: FeatureState, option: X86TargetOption, no_mmx: bool) -> FeatureState {
    match option {
        X86TargetOption::Mmx => FeatureState { mmx: true, ..state },
        X86TargetOption::NoMmx => FeatureState { mmx: false, ..state },
        X86TargetOption::Sse => FeatureState { mmx: state.mmx || !no_mmx, sse: true, ..state },
        X86TargetOption::Sse2 => FeatureState {
            mmx: state.mmx || !no_mmx,
            sse: true,
            sse2: true,
            ..state
        },
        X86TargetOption::NoEvex512 => state,
        X86TargetOption::Lzcnt => FeatureState { lzcnt: true, ..state },
        X86TargetOption::NoLzcnt => FeatureState { lzcnt: false, ..state },
        X86TargetOption::Bmi => FeatureState { bmi: true, ..state },
        X86TargetOption::NoBmi => FeatureState { bmi: false, ..state },
        X86TargetOption::Bmi2 => FeatureState { bmi2: true, ..state },
        X86TargetOption::NoBmi2 => FeatureState { bmi2: false, ..state },
    }
}

/// The state after the first `n` options, as an attribute is parsed: `no-mmx`
/// suppresses the MMX implied by a later `sse` or `sse2`.
pub open spec fn parsed_state(options: Seq<X86TargetOption>, n: nat, start: FeatureState) -> FeatureState
    decreases n,
{
    if n == 0 || n > options.len() {
        start
    } else {
        apply_option(
            parsed_state(options, (n - 1) as nat, start),
            options[n - 1],
            options.subrange(0, n - 1).contains(X86TargetOption::NoMmx),
        )
    }
}

/// The state after the first `n` options as validation recomputes it: a
/// `no-mmx` anywhere in the list suppresses the MMX implied by SSE options.
pub open spec fn validated_state(options: Seq<X86TargetOption>, n: nat, start: FeatureState) -> FeatureState
    decreases n,
{
    if n == 0 || n > options.len() {
        start
    } else {
        apply_option(
            validated_state(options, (n - 1) as nat, start),
            options[n - 1],
            options.contains(X86TargetOption::NoMmx),
        )
    }
}

/// The bits of the enabled features.
pub open spec fn state_bits(state: FeatureState) -> u8 {
    ((if state.mmx { 1int } else { 0 }) + (if state.sse { 2int } else { 0 }) + (if state.sse2 {
        4int
    } else {
        0
    }) + (if state.lzcnt { 8int } else { 0 }) + (if state.bmi { 16int } else { 0 }) + (
    if state.bmi2 {
        32int
    } else {
        0
    })) as u8
}

/// A target attribute's identity and its supported feature overrides.
/// Other CPU features retain the profile's baseline; this is not a full CPU model.
#[derive(Clone, Debug)]
pub struct FunctionTarget {
    clang_spelling: Option<String>,
    options: Vec<X86TargetOption>,
    mmx: bool,
    sse: bool,
    sse2: bool,
    lzcnt: bool,
    bmi: bool,
    bmi2: bool,
}

/// The positive options' feature set, if every option is positive.
pub open spec fn positive_set(options: Seq<X86TargetOption>) -> Option<u8>
    decreases options.len(),
{
    if options.len() == 0 {
        Some(0u8)
    } else {
        match positive_set(options.drop_last()) {
            None => None,
            Some(bits) => match options.last() {
                X86TargetOption::Mmx => Some(bits | 1),
                X86TargetOption::Sse => Some(bits | 2),
                X86TargetOption::Sse2 => Some(bits | 4),
                X86TargetOption::Lzcnt => Some(bits | 8),
                X86TargetOption::Bmi => Some(bits | 16),
                X86TargetOption::Bmi2 => Some(bits | 32),
                _ => None,
            },
        }
    }
}

impl FunctionTarget {
    pub closed spec fn spelling_spec(&self) -> Option<Seq<char>> {
        match self.clang_spelling {
            Some(s) => Some(s@),
            None => None,
        }
    }

    pub closed spec fn options_spec(&self) -> Seq<X86TargetOption> {
        self.options@
    }

    pub closed spec fn state(&self) -> FeatureState {
        FeatureState {
            mmx: self.mmx,
            sse: self.sse,
            sse2: self.sse2,
            lzcnt: self.lzcnt,
            bmi: self.bmi,
            bmi2: self.bmi2,
        }
    }

    /// Two attributes name the same function version: equal Clang spellings,
    /// equal option lists, or equal sets of only positive options.
    pub open spec fn same_identity_spec(&self, other: &Self) -> bool {
        if self.spelling_spec() is Some || other.spelling_spec() is Some {
            self.spelling_spec() == other.spelling_spec()
        } else {
            self.options_spec() == other.options_spec() || (positive_set(self.options_spec()) is Some
                && positive_set(self.options_spec()) == positive_set(other.options_spec()))
        }
    }

    /// Ordered options distinguish attributes even when their effective features match.
    pub fn options(&self) -> (r: &[X86TargetOption])
        ensures
            r@ == self.options_spec(),
    {
        self.options.as_slice()
    }

    /// Clang's decoded attribute string, including identity-significant whitespace.
    pub fn clang_spelling(&self) -> (r: Option<&str>)
        ensures
            r matches Some(s) ==> self.spelling_spec() == Some(s@),
            r is None ==> self.spelling_spec() is None,
    {
        match &self.clang_spelling {
            Some(s) => Some(s.as_str()),
            None => None,
        }
    }

    fn positive_bits(options: &[X86TargetOption]) -> (r: Option<u8>)
        ensures
            r == positive_set(options@),
    {
        let mut bits: u8 = 0;
        let mut i: usize = 0;
        while i < options.len()
            invariant
                i <= options@.len(),
                positive_set(options@.subrange(0, i as int)) == Some(bits),
            decreases options.len() - i,
        {
            proof {
                assert(options@.subrange(0, i + 1).drop_last() =~= options@.subrange(0, i as int));
            }
            let bit: u8 = match options[i] {
                X86TargetOption::Mmx => 1,
                X86TargetOption::Sse => 2,
                X86TargetOption::Sse2 => 4,
                X86TargetOption::Lzcnt => 8,
                X86TargetOption::Bmi => 16,
                X86TargetOption::Bmi2 => 32,
                _ => {
                    proof {
                        lemma_positive_set_none(options@, i as int);
                    }
                    return None;
                },
            };
            bits = bits | bit;
            i = i + 1;
        }
        proof {
            assert(options@.subrange(0, options@.len() as int) =~= options@);
        }
        Some(bits)
    }

    fn same_options(a: &[X86TargetOption], b: &[X86TargetOption]) -> (r: bool)
        ensures
            r == (a@ == b@),
    {
        if a.len() != b.len() {
            return false;
        }
        let mut i: usize = 0;
        while i < a.len()
            invariant
                a@.len() == b@.len(),
                i <= a@.len(),
                forall|j: int| 0 <= j < i ==> a@[j] == b@[j],
            decreases a.len() - i,
        {
            if a[i] != b[i] {
                return false;
            }
            i = i + 1;
        }
        assert(a@ =~= b@);
        true
    }

    /// Whether two target attributes select the same function version.
    pub fn same_identity(&self, other: &Self) -> (r: bool)
        ensures
            r == self.same_identity_spec(other),
    {
        match (&self.clang_spelling, &other.clang_spelling) {
            (Some(a), Some(b)) => return a.eq(b),
            (Some(_), None) | (None, Some(_)) => return false,
            (None, None) => {},
        }
        if Self::same_options(self.options.as_slice(), other.options.as_slice()) {
            return true;
        }
        match Self::positive_bits(self.options.as_slice()) {
            Some(set) => match Self::positive_bits(other.options.as_slice()) {
                Some(other_set) => set == other_set,
                None => false,
            },
            None => false,
        }
    }

    /// Whether an instruction set in the x86 intrinsic table is enabled.
    pub fn enables(&self, feature: X86Feature) -> (r: bool)
        ensures
            r == state_enables(self.state(), feature),
    {
        match feature {
            X86Feature::Mmx => self.mmx,
            X86Feature::Sse => self.sse,
            X86Feature::Sse2 => self.sse2,
            X86Feature::Lzcnt => self.lzcnt,
            X86Feature::Bmi => self.bmi,
            X86Feature::Bmi2 => self.bmi2,
        }
    }

    /// An explicit encoding restriction, not a claim that other EVEX options are supported.
    pub fn disables_evex512(&self) -> (r: bool)
        ensures
            r == self.options_spec().contains(X86TargetOption::NoEvex512),
    {
        let mut i: usize = 0;
        while i < self.options.len()
            invariant
                i <= self.options@.len(),
                forall|j: int| 0 <= j < i ==> self.options@[j] != X86TargetOption::NoEvex512,
            decreases self.options.len() - i,
        {
            if self.options[i] == X86TargetOption::NoEvex512 {
                return true;
            }
            i = i + 1;
        }
        false
    }
}

proof fn lemma_positive_set_none(options: Seq<X86TargetOption>, i: int)
    requires
        0 <= i < options.len(),
        positive_set(options.subrange(0, i + 1)) is None,
    ensures
        positive_set(options) is None,
    decreases options.len(),
{
    if i + 1 < options.len() {
        assert(options.drop_last().subrange(0, i + 1) =~= options.subrange(0, i + 1));
        lemma_positive_set_none(options.drop_last(), i);
    } else {
        assert(options.subrange(0, i + 1) =~= options);
    }
}

/// Effective function declaration properties, separate from its C type and ABI.
#[derive(Clone, Debug)]
pub struct FunctionOptions {
    target: Option<FunctionTarget>,
    always_inline: bool,
    no_inline: bool,
    minimum_vector_width: Option<u32>,
}

impl Default for FunctionOptions {
    fn default() -> (r: Self)
        ensures
            r.target_spec() is None,
            !r.always_inline_spec(),
            !r.no_inline_spec(),
            r.minimum_vector_width_spec() is None,
    {
        FunctionOptions { target: None, always_inline: false, no_inline: false, minimum_vector_width: None }
    }
}

/// The feature state a function runs with: its target attribute's, or the
/// profile's baseline without one.
pub open spec fn effective_state(target: Option<FunctionTarget>, physical_target: Target) -> FeatureState {
    match target {
        Some(t) => t.state(),
        None => baseline_state(physical_target),
    }
}

impl FunctionOptions {
    pub closed spec fn target_spec(&self) -> Option<FunctionTarget> {
        self.target
    }

    pub closed spec fn always_inline_spec(&self) -> bool {
        self.always_inline
    }

    pub closed spec fn no_inline_spec(&self) -> bool {
        self.no_inline
    }

    pub closed spec fn minimum_vector_width_spec(&self) -> Option<u32> {
        self.minimum_vector_width
    }

    /// None selects the compiler profile's baseline without a written target override.
    pub fn target(&self) -> (r: Option<&FunctionTarget>)
        ensures
            r matches Some(t) ==> self.target_spec() == Some(*t),
            r is None ==> self.target_spec() is None,
    {
        match &self.target {
            Some(t) => Some(t),
            None => None,
        }
    }

    /// An accepted always_inline annotation. Clang checks its feature requirements
    /// even with noinline; this flag does not prove that a call is inlined.
    pub fn always_inline(&self) -> (r: bool)
        ensures
            r == self.always_inline_spec(),
    {
        self.always_inline
    }

    /// The declaration requests that the function remain out of line.
    pub fn no_inline(&self) -> (r: bool)
        ensures
            r == self.no_inline_spec(),
    {
        self.no_inline
    }

    /// Explicit Clang optimization hint, in bits. This does not enable an ISA or
    /// predict LLVM's computed width, which types and inlining can increase.
    pub fn minimum_vector_width(&self) -> (r: Option<u32>)
        ensures
            r == self.minimum_vector_width_spec(),
    {
        self.minimum_vector_width
    }

    /// Compact enabled feature set for deferred inlining checks.
    pub fn x86_features(&self, physical_target: Target) -> (r: u8)
        ensures
            r == state_bits(effective_state(self.target_spec(), physical_target)),
    {
        let state = match &self.target {
            Some(target) => target.feature_state(),
            None => baseline(physical_target),
        };
        features_bits(state)
    }

    /// Whether nothing distinguishes these options from a plain declaration.
    pub fn is_default(&self) -> (r: bool)
        ensures
            r == (self.target_spec() is None && !self.always_inline_spec() && !self.no_inline_spec()
                && self.minimum_vector_width_spec() is None),
    {
        self.target.is_none() && !self.always_inline && !self.no_inline
            && self.minimum_vector_width.is_none()
    }
}

impl FunctionTarget {
    fn feature_state(&self) -> (r: FeatureState)
        ensures
            r == self.state(),
    {
        FeatureState {
            mmx: self.mmx,
            sse: self.sse,
            sse2: self.sse2,
            lzcnt: self.lzcnt,
            bmi: self.bmi,
            bmi2: self.bmi2,
        }
    }
}

/// The profile's baseline feature state.
pub fn baseline(target: Target) -> (r: FeatureState)
    ensures
        r == baseline_state(target),
{
    let base = match target {
        Target::I686UnknownLinuxGnu => false,
        _ => true,
    };
    FeatureState { mmx: base, sse: base, sse2: base, lzcnt: false, bmi: false, bmi2: false }
}

/// The bits of a state's enabled features.
pub fn features_bits(state: FeatureState) -> (r: u8)
    ensures
        r == state_bits(state),
{
    let mut bits: u8 = 0;
    if state.mmx {
        bits = bits + 1;
    }
    if state.sse {
        bits = bits + 2;
    }
    if state.sse2 {
        bits = bits + 4;
    }
    if state.lzcnt {
        bits = bits + 8;
    }
    if state.bmi {
        bits = bits + 16;
    }
    if state.bmi2 {
        bits = bits + 32;
    }
    bits
}

/// The caller lacks a feature that an always-inline callee enables.
pub fn inline_feature_mismatch(callee: &FunctionOptions, physical_target: Target, caller_features: u8) -> (r: bool)
    ensures
        r == (callee.always_inline_spec() && state_bits(
            effective_state(callee.target_spec(), physical_target),
        ) & !caller_features != 0),
{
    callee.always_inline && callee.x86_features(physical_target) & !caller_features != 0
}

/// One option applied to a state.
fn apply(state: FeatureState, option: X86TargetOption, no_mmx: bool) -> (r: FeatureState)
    ensures
        r == apply_option(state, option, no_mmx),
{
    match option {
        X86TargetOption::Mmx => FeatureState { mmx: true, ..state },
        X86TargetOption::NoMmx => FeatureState { mmx: false, ..state },
        X86TargetOption::Sse => FeatureState { mmx: state.mmx || !no_mmx, sse: true, ..state },
        X86TargetOption::Sse2 => FeatureState {
            mmx: state.mmx || !no_mmx,
            sse: true,
            sse2: true,
            ..state
        },
        X86TargetOption::NoEvex512 => state,
        X86TargetOption::Lzcnt => FeatureState { lzcnt: true, ..state },
        X86TargetOption::NoLzcnt => FeatureState { lzcnt: false, ..state },
        X86TargetOption::Bmi => FeatureState { bmi: true, ..state },
        X86TargetOption::NoBmi => FeatureState { bmi: false, ..state },
        X86TargetOption::Bmi2 => FeatureState { bmi2: true, ..state },
        X86TargetOption::NoBmi2 => FeatureState { bmi2: false, ..state },
    }
}

/// Whether `option` occurs in `options`.
fn contains_option(options: &[X86TargetOption], option: X86TargetOption) -> (r: bool)
    ensures
        r == options@.contains(option),
{
    let mut i: usize = 0;
    while i < options.len()
        invariant
            i <= options@.len(),
            forall|j: int| 0 <= j < i ==> options@[j] != option,
        decreases options.len() - i,
    {
        if options[i] == option {
            return true;
        }
        i = i + 1;
    }
    false
}

/// Recomputes the state that a list of options yields from `start`.
fn recomputed_state(options: &[X86TargetOption], start: FeatureState) -> (r: FeatureState)
    ensures
        r == validated_state(options@, options@.len(), start),
{
    let no_mmx = contains_option(options, X86TargetOption::NoMmx);
    let mut state = start;
    let mut i: usize = 0;
    while i < options.len()
        invariant
            i <= options@.len(),
            no_mmx == options@.contains(X86TargetOption::NoMmx),
            state == validated_state(options@, i as nat, start),
        decreases options.len() - i,
    {
        state = apply(state, options[i], no_mmx);
        i = i + 1;
    }
    state
}

/// What validation accepts of a function's target attribute.
pub open spec fn target_valid(t: FunctionTarget, compiler: Compiler, target: Target) -> bool {
    &&& is_x86_spec(target)
    &&& t.options_spec().len() <= 256
    &&& !(compiler == Compiler::Gnu && t.options_spec().contains(X86TargetOption::NoEvex512))
    &&& (t.spelling_spec() is Some) == (compiler == Compiler::Clang)
    &&& t.state() == validated_state(t.options_spec(), t.options_spec().len(), baseline_state(target))
}

/// Whether two states differ at most in MMX.
spec fn agree_except_mmx(a: FeatureState, b: FeatureState) -> bool {
    a.sse == b.sse && a.sse2 == b.sse2 && a.lzcnt == b.lzcnt && a.bmi == b.bmi && a.bmi2 == b.bmi2
}

proof fn lemma_states_agree(options: Seq<X86TargetOption>, n: nat, start: FeatureState)
    requires
        n <= options.len(),
    ensures
        options.subrange(0, n as int).contains(X86TargetOption::NoMmx) || !options.contains(
            X86TargetOption::NoMmx,
        ) ==> parsed_state(options, n, start) == validated_state(options, n, start),
        agree_except_mmx(parsed_state(options, n, start), validated_state(options, n, start)),
    decreases n,
{
    if n > 0 {
        lemma_states_agree(options, (n - 1) as nat, start);
        let prefix = options.subrange(0, n - 1);
        let o = options[n - 1];
        if prefix.contains(X86TargetOption::NoMmx) {
            let k = choose|k: int| 0 <= k < prefix.len() && prefix[k] == X86TargetOption::NoMmx;
            assert(options[k] == X86TargetOption::NoMmx);
            assert(options.subrange(0, n as int)[k] == X86TargetOption::NoMmx);
        }
        if options.subrange(0, n as int).contains(X86TargetOption::NoMmx) && !prefix.contains(
            X86TargetOption::NoMmx,
        ) {
            let k = choose|k: int|
                0 <= k < n && options.subrange(0, n as int)[k] == X86TargetOption::NoMmx;
            if k < n - 1 {
                assert(prefix[k] == X86TargetOption::NoMmx);
            }
            assert(o == X86TargetOption::NoMmx);
        }
        if !options.contains(X86TargetOption::NoMmx) && prefix.contains(X86TargetOption::NoMmx) {
            let k = choose|k: int| 0 <= k < prefix.len() && prefix[k] == X86TargetOption::NoMmx;
            assert(options[k] == X86TargetOption::NoMmx);
        }
    }
}

/// Parsing and validation compute one feature state: whether `no-mmx` is
/// read before a later `sse`, or seen anywhere in the list, the result is the same.
pub proof fn lemma_parsed_state_validates(options: Seq<X86TargetOption>, start: FeatureState)
    ensures
        parsed_state(options, options.len(), start) == validated_state(options, options.len(), start),
{
    lemma_states_agree(options, options.len(), start);
    assert(options.subrange(0, options.len() as int) =~= options);
}

/// Whether the last of `on` and `off` in `options` is `on`; false when
/// neither occurs.
pub open spec fn last_toggle(options: Seq<X86TargetOption>, on: X86TargetOption, off: X86TargetOption) -> bool
    decreases options.len(),
{
    if options.len() == 0 {
        false
    } else if options.last() == on {
        true
    } else if options.last() == off {
        false
    } else {
        last_toggle(options.drop_last(), on, off)
    }
}

proof fn lemma_validated_toggles(options: Seq<X86TargetOption>, n: nat, start: FeatureState)
    requires
        n <= options.len(),
        !start.lzcnt && !start.bmi && !start.bmi2,
        start.sse2 ==> start.sse,
    ensures
        validated_state(options, n, start).lzcnt == last_toggle(
            options.subrange(0, n as int),
            X86TargetOption::Lzcnt,
            X86TargetOption::NoLzcnt,
        ),
        validated_state(options, n, start).bmi == last_toggle(
            options.subrange(0, n as int),
            X86TargetOption::Bmi,
            X86TargetOption::NoBmi,
        ),
        validated_state(options, n, start).bmi2 == last_toggle(
            options.subrange(0, n as int),
            X86TargetOption::Bmi2,
            X86TargetOption::NoBmi2,
        ),
        validated_state(options, n, start).sse2 ==> validated_state(options, n, start).sse,
    decreases n,
{
    if n > 0 {
        lemma_validated_toggles(options, (n - 1) as nat, start);
        let prefix = options.subrange(0, n as int);
        assert(prefix.drop_last() =~= options.subrange(0, n - 1));
        assert(prefix.last() == options[n - 1]);
    }
}

/// In an accepted target attribute the last of `lzcnt` and `no-lzcnt`
/// decides LZCNT, which is off when neither is written; likewise BMI and
/// BMI2. And SSE2 never stands without SSE.
pub proof fn lemma_target_toggles(t: FunctionTarget, compiler: Compiler, target: Target)
    requires
        target_valid(t, compiler, target),
    ensures
        state_enables(t.state(), X86Feature::Lzcnt) == last_toggle(
            t.options_spec(),
            X86TargetOption::Lzcnt,
            X86TargetOption::NoLzcnt,
        ),
        state_enables(t.state(), X86Feature::Bmi) == last_toggle(
            t.options_spec(),
            X86TargetOption::Bmi,
            X86TargetOption::NoBmi,
        ),
        state_enables(t.state(), X86Feature::Bmi2) == last_toggle(
            t.options_spec(),
            X86TargetOption::Bmi2,
            X86TargetOption::NoBmi2,
        ),
        state_enables(t.state(), X86Feature::Sse2) ==> state_enables(t.state(), X86Feature::Sse),
{
    let options = t.options_spec();
    lemma_validated_toggles(options, options.len(), baseline_state(target));
    assert(options.subrange(0, options.len() as int) =~= options);
}

/// What `validate_function_options` accepts of one function's options.
pub open spec fn function_options_valid(
    options: FunctionOptions,
    declaration: Option<DeclarationKind>,
    compiler: Compiler,
    target: Target,
) -> bool {
    &&& !(compiler != Compiler::Clang && options.minimum_vector_width_spec() is Some)
    &&& !(compiler == Compiler::Gnu && options.always_inline_spec() && options.no_inline_spec())
    &&& declaration == Some(DeclarationKind::Function)
    &&& match options.target_spec() {
        None => true,
        Some(t) => target_valid(t, compiler, target),
    }
}

/// Checks one function's sparse options against its declaration and the
/// unit's compiler and target.
pub fn validate_function_option(
    options: &FunctionOptions,
    declaration: Option<DeclarationKind>,
    compiler: Compiler,
    target: Target,
) -> (r: Result<(), Error>)
    ensures
        r is Ok <==> function_options_valid(*options, declaration, compiler, target),
{
    let clang = match compiler {
        Compiler::Clang => true,
        Compiler::Gnu => false,
    };
    if !clang && options.minimum_vector_width.is_some() {
        return Err(Error::new(0, "minimum vector width requires the Clang compiler profile"));
    }
    if !clang && options.always_inline && options.no_inline {
        return Err(Error::new(0, "conflicting effective GNU inline options"));
    }
    match declaration {
        Some(DeclarationKind::Function) => {},
        _ => {
            return Err(Error::new(0, "function options refer to an invalid function declaration"));
        },
    }
    if let Some(function_target) = &options.target {
        if !is_x86(target) {
            return Err(Error::new(0, "x86 function options require an x86 target"));
        }
        if function_target.options.len() > 256 {
            return Err(Error::new(0, "function target exceeds the 256-option limit"));
        }
        if !clang && function_target.disables_evex512() {
            return Err(Error::new(0, "no-evex512 is unavailable in the GNU compiler profile"));
        }
        if function_target.clang_spelling.is_some() != clang {
            return Err(Error::new(0, "function target identity does not match its compiler profile"));
        }
        let state = recomputed_state(function_target.options.as_slice(), baseline(target));
        if state != function_target.feature_state() {
            return Err(Error::new(0, "inconsistent function target feature state"));
        }
    }
    Ok(())
}

/// The kind of the declaration at `index`, if there is one.
pub open spec fn declaration_kind_at(declarations: Seq<Declaration>, index: usize) -> Option<DeclarationKind> {
    if index < declarations.len() {
        Some(declarations[index as int].kind)
    } else {
        None
    }
}

/// Checks sparse per-function options, keyed by declaration index, before
/// analysis or generation.
pub fn validate_function_options(
    entries: &[(usize, FunctionOptions)],
    declarations: &[Declaration],
    compiler: Compiler,
    target: Target,
) -> (r: Result<(), Error>)
    ensures
        r is Ok <==> entries@.len() <= 65536 && forall|i: int|
            0 <= i < entries@.len() ==> function_options_valid(
                #[trigger] entries@[i].1,
                declaration_kind_at(declarations@, entries@[i].0),
                compiler,
                target,
            ),
{
    if entries.len() > 65536 {
        return Err(Error::new(0, "function option count exceeds the 65536-entry limit"));
    }
    let mut i: usize = 0;
    while i < entries.len()
        invariant
            i <= entries@.len(),
            forall|j: int|
                0 <= j < i ==> function_options_valid(
                    #[trigger] entries@[j].1,
                    declaration_kind_at(declarations@, entries@[j].0),
                    compiler,
                    target,
                ),
        decreases entries.len() - i,
    {
        let index = entries[i].0;
        let kind = if index < declarations.len() {
            Some(declarations[index].kind)
        } else {
            None
        };
        validate_function_option(&entries[i].1, kind, compiler, target)?;
        i = i + 1;
    }
    Ok(())
}

/// A written `target` attribute before its options are interpreted.
#[derive(Clone, Debug)]
pub struct ParsedTarget {
    /// Where the attribute starts.
    pub span_start: usize,
    /// Whether Clang's single-string spelling rules apply.
    pub clang: bool,
    /// The decoded argument strings, without their terminators.
    pub arguments: Vec<String>,
    /// A deferred diagnostic found while reading the arguments.
    pub error: Option<(usize, String)>,
}

/// The characters of each argument.
pub open spec fn argument_views(arguments: Seq<String>) -> Seq<Seq<char>> {
    arguments.map_values(|a: String| a@)
}

/// The option words of one argument: its comma-separated pieces, trimmed
/// under Clang. An empty argument contributes no word.
pub open spec fn argument_words(argument: Seq<char>, clang: bool) -> Seq<Seq<char>> {
    if argument.len() == 0 {
        Seq::empty()
    } else {
        split_commas(argument).map_values(|p: Seq<char>| if clang { trim(p) } else { p })
    }
}

/// The option words of all arguments, in written order.
pub open spec fn target_words(arguments: Seq<Seq<char>>, clang: bool) -> Seq<Seq<char>>
    decreases arguments.len(),
{
    if arguments.len() == 0 {
        Seq::empty()
    } else {
        target_words(arguments.drop_last(), clang) + argument_words(arguments.last(), clang)
    }
}

/// The option a word names.
pub open spec fn option_named(word: Seq<char>) -> Option<X86TargetOption> {
    if word == "mmx"@ {
        Some(X86TargetOption::Mmx)
    } else if word == "no-mmx"@ {
        Some(X86TargetOption::NoMmx)
    } else if word == "lzcnt"@ {
        Some(X86TargetOption::Lzcnt)
    } else if word == "no-lzcnt"@ {
        Some(X86TargetOption::NoLzcnt)
    } else if word == "bmi"@ {
        Some(X86TargetOption::Bmi)
    } else if word == "no-bmi"@ {
        Some(X86TargetOption::NoBmi)
    } else if word == "bmi2"@ {
        Some(X86TargetOption::Bmi2)
    } else if word == "no-bmi2"@ {
        Some(X86TargetOption::NoBmi2)
    } else if word == "sse"@ {
        Some(X86TargetOption::Sse)
    } else if word == "sse2"@ {
        Some(X86TargetOption::Sse2)
    } else if word == "no-evex512"@ {
        Some(X86TargetOption::NoEvex512)
    } else {
        None
    }
}

/// A word the profile accepts: a supported option, with `no-evex512` only under Clang.
pub open spec fn word_accepted(word: Seq<char>, clang: bool) -> bool {
    option_named(word) matches Some(o) && (o != X86TargetOption::NoEvex512 || clang)
}

/// What `validate_target_arguments` accepts.
pub open spec fn target_arguments_valid(parsed: ParsedTarget) -> bool {
    &&& parsed.error is None
    &&& parsed.arguments@.len() > 0
    &&& (!parsed.clang || parsed.arguments@.len() == 1)
}

/// The words of an accepted attribute, and whether all of them are accepted.
pub open spec fn words_accepted(words: Seq<Seq<char>>, clang: bool) -> bool {
    forall|k: int| 0 <= k < words.len() ==> word_accepted(#[trigger] words[k], clang)
}

/// The options that accepted words name.
pub open spec fn named_options(words: Seq<Seq<char>>) -> Seq<X86TargetOption> {
    words.map_values(|w: Seq<char>| option_named(w).unwrap())
}

/// When `target_attribute` accepts an attribute.
pub open spec fn target_attribute_accepted(parsed: ParsedTarget, target: Target) -> bool {
    let words = target_words(argument_views(parsed.arguments@), parsed.clang);
    &&& is_x86_spec(target)
    &&& target_arguments_valid(parsed)
    &&& words_accepted(words, parsed.clang)
    &&& words.len() <= 256
}

impl ParsedTarget {
    /// Whether the attribute is a present but empty request that the compiler ignores.
    pub open spec fn ignored_empty_spec(self) -> bool {
        &&& self.error is None
        &&& self.arguments@.len() > 0
        &&& if self.clang {
            &&& self.arguments@.len() == 1
            &&& exists|k: int|
                0 <= k < split_commas(self.arguments@[0]@).len() && #[trigger] trim(
                    split_commas(self.arguments@[0]@)[k],
                ).len() == 0
        } else {
            forall|k: int| 0 <= k < self.arguments@.len() ==> #[trigger] self.arguments@[k]@.len() == 0
        }
    }

    /// An empty request that the compiler ignores.
    pub fn ignored_empty(&self) -> (r: bool)
        ensures
            r == self.ignored_empty_spec(),
    {
        if self.error.is_some() || self.arguments.len() == 0 {
            return false;
        }
        if self.clang {
            if self.arguments.len() != 1 {
                return false;
            }
            let text = crate::text::chars(self.arguments[0].as_str());
            let pieces = crate::text::split_at_commas(text.as_slice());
            let mut k: usize = 0;
            while k < pieces.len()
                invariant
                    self.clang,
                    self.error is None,
                    self.arguments@.len() == 1,
                    text@ == self.arguments@[0]@,
                    pieces@.len() == split_commas(text@).len(),
                    forall|i: int| 0 <= i < pieces@.len() ==> (#[trigger] pieces@[i])@ == split_commas(text@)[i],
                    k <= pieces@.len(),
                    forall|i: int| 0 <= i < k ==> #[trigger] trim(split_commas(text@)[i]).len() != 0,
                decreases pieces.len() - k,
            {
                let t = crate::text::trimmed(pieces[k].as_slice());
                if t.len() == 0 {
                    assert(trim(split_commas(self.arguments@[0]@)[k as int]).len() == 0);
                    return true;
                }
                k = k + 1;
            }
            false
        } else {
            let mut k: usize = 0;
            while k < self.arguments.len()
                invariant
                    !self.clang,
                    self.error is None,
                    self.arguments@.len() > 0,
                    k <= self.arguments@.len(),
                    forall|i: int| 0 <= i < k ==> #[trigger] self.arguments@[i]@.len() == 0,
                decreases self.arguments.len() - k,
            {
                if self.arguments[k].as_str().unicode_len() != 0 {
                    assert(self.arguments@[k as int]@.len() != 0);
                    return false;
                }
                k = k + 1;
            }
            true
        }
    }

    /// Checks the argument shape: one string under Clang, at least one
    /// otherwise, and no deferred diagnostic.
    pub fn validate_target_arguments(&self) -> (r: Result<(), Error>)
        ensures
            r is Ok <==> target_arguments_valid(*self),
    {
        if self.clang && self.arguments.len() != 1 && self.error.is_none() {
            return Err(Error::new(self.span_start, "Clang target attributes require exactly one string"));
        }
        if let Some((offset, message)) = &self.error {
            return Err(Error::new(*offset, message.as_str()));
        }
        if self.arguments.len() == 0 {
            return Err(Error::new(self.span_start, "target attribute requires a string literal"));
        }
        Ok(())
    }
}

/// The option a word names.
fn option_for(word: &[char]) -> (r: Option<X86TargetOption>)
    ensures
        r == option_named(word@),
{
    if crate::text::chars_equal(word, "mmx") {
        Some(X86TargetOption::Mmx)
    } else if crate::text::chars_equal(word, "no-mmx") {
        Some(X86TargetOption::NoMmx)
    } else if crate::text::chars_equal(word, "lzcnt") {
        Some(X86TargetOption::Lzcnt)
    } else if crate::text::chars_equal(word, "no-lzcnt") {
        Some(X86TargetOption::NoLzcnt)
    } else if crate::text::chars_equal(word, "bmi") {
        Some(X86TargetOption::Bmi)
    } else if crate::text::chars_equal(word, "no-bmi") {
        Some(X86TargetOption::NoBmi)
    } else if crate::text::chars_equal(word, "bmi2") {
        Some(X86TargetOption::Bmi2)
    } else if crate::text::chars_equal(word, "no-bmi2") {
        Some(X86TargetOption::NoBmi2)
    } else if crate::text::chars_equal(word, "sse") {
        Some(X86TargetOption::Sse)
    } else if crate::text::chars_equal(word, "sse2") {
        Some(X86TargetOption::Sse2)
    } else if crate::text::chars_equal(word, "no-evex512") {
        Some(X86TargetOption::NoEvex512)
    } else {
        None
    }
}

/// The words of the first `k` arguments come first among all words.
proof fn lemma_target_words_prefix(arguments: Seq<Seq<char>>, k: int, clang: bool)
    requires
        0 <= k <= arguments.len(),
    ensures
        target_words(arguments.subrange(0, k), clang).len() <= target_words(arguments, clang).len(),
        target_words(arguments, clang).subrange(
            0,
            target_words(arguments.subrange(0, k), clang).len() as int,
        ) == target_words(arguments.subrange(0, k), clang),
    decreases arguments.len(),
{
    if k == arguments.len() {
        assert(arguments.subrange(0, k) =~= arguments);
        assert(target_words(arguments, clang).subrange(0, target_words(arguments, clang).len() as int)
            =~= target_words(arguments, clang));
    } else {
        let d = arguments.drop_last();
        assert(d.subrange(0, k) =~= arguments.subrange(0, k));
        lemma_target_words_prefix(d, k, clang);
        let w = target_words(arguments, clang);
        let wd = target_words(d, clang);
        let wk = target_words(arguments.subrange(0, k), clang);
        assert(w == wd + argument_words(arguments.last(), clang));
        assert(w.subrange(0, wk.len() as int) =~= wd.subrange(0, wk.len() as int));
    }
}

/// The parsed state depends only on the options it has read.
proof fn lemma_parsed_state_prefix(a: Seq<X86TargetOption>, b: Seq<X86TargetOption>, n: nat, start: FeatureState)
    requires
        n <= a.len(),
        n <= b.len(),
        a.subrange(0, n as int) == b.subrange(0, n as int),
    ensures
        parsed_state(a, n, start) == parsed_state(b, n, start),
    decreases n,
{
    if n > 0 {
        assert(a.subrange(0, n - 1) =~= a.subrange(0, n as int).subrange(0, n - 1));
        assert(b.subrange(0, n - 1) =~= b.subrange(0, n as int).subrange(0, n - 1));
        assert(a[n - 1] == a.subrange(0, n as int)[n - 1]);
        assert(b[n - 1] == b.subrange(0, n as int)[n - 1]);
        lemma_parsed_state_prefix(a, b, (n - 1) as nat, start);
    }
}

/// Interprets a `target` attribute's options on an x86 target: the options
/// in written order, and the feature state they leave from the profile's baseline.
pub fn target_attribute(parsed: &ParsedTarget, target: Target) -> (r: Result<FunctionTarget, Error>)
    ensures
        r is Ok <==> target_attribute_accepted(*parsed, target),
        r matches Ok(t) ==> {
            let words = target_words(argument_views(parsed.arguments@), parsed.clang);
            &&& t.options_spec() == named_options(words)
            &&& t.state() == parsed_state(
                t.options_spec(),
                t.options_spec().len(),
                baseline_state(target),
            )
            &&& t.spelling_spec() == if parsed.clang {
                Some(parsed.arguments@[0]@)
            } else {
                None::<Seq<char>>
            }
            &&& target_valid(t, if parsed.clang { Compiler::Clang } else { Compiler::Gnu }, target)
        },
{
    if !is_x86(target) {
        return Err(Error::new(parsed.span_start, "per-function target options on Arm are unsupported"));
    }
    parsed.validate_target_arguments()?;
    let ghost arguments = argument_views(parsed.arguments@);
    let ghost clang = parsed.clang;
    let ghost start = baseline_state(target);
    let mut options: Vec<X86TargetOption> = Vec::new();
    let mut state = baseline(target);
    let mut i: usize = 0;
    while i < parsed.arguments.len()
        invariant
            arguments == argument_views(parsed.arguments@),
            clang == parsed.clang,
            start == baseline_state(target),
            i <= parsed.arguments@.len(),
            options@.len() <= 256,
            words_accepted(target_words(arguments.subrange(0, i as int), clang), clang),
            options@ == named_options(target_words(arguments.subrange(0, i as int), clang)),
            state == parsed_state(options@, options@.len(), start),
        decreases parsed.arguments.len() - i,
    {
        let ghost done = target_words(arguments.subrange(0, i as int), clang);
        let text = crate::text::chars(parsed.arguments[i].as_str());
        let ghost argw = argument_words(text@, clang);
        proof {
            assert(arguments.subrange(0, i + 1).drop_last() =~= arguments.subrange(0, i as int));
            assert(arguments[i as int] == parsed.arguments@[i as int]@);
            lemma_target_words_prefix(arguments, i + 1, clang);
        }
        assert(target_words(arguments.subrange(0, i + 1), clang) == done + argw);
        if text.len() != 0 {
            let pieces = crate::text::split_at_commas(text.as_slice());
            let mut j: usize = 0;
            while j < pieces.len()
                invariant
                    arguments == argument_views(parsed.arguments@),
                    clang == parsed.clang,
                    start == baseline_state(target),
                    i < parsed.arguments@.len(),
                    text@.len() > 0,
                    argw == argument_words(text@, clang),
                    done == target_words(arguments.subrange(0, i as int), clang),
                    target_words(arguments.subrange(0, i + 1), clang) == done + argw,
                    target_words(arguments.subrange(0, i + 1), clang).len() <= target_words(arguments, clang).len(),
                    target_words(arguments, clang).subrange(0, target_words(arguments.subrange(0, i + 1), clang).len() as int)
                        == target_words(arguments.subrange(0, i + 1), clang),
                    pieces@.len() == split_commas(text@).len(),
                    forall|k: int| 0 <= k < pieces@.len() ==> (#[trigger] pieces@[k])@ == split_commas(text@)[k],
                    j <= pieces@.len(),
                    options@.len() <= 256,
                    words_accepted(done + argw.subrange(0, j as int), clang),
                    options@ == named_options(done + argw.subrange(0, j as int)),
                    state == parsed_state(options@, options@.len(), start),
                decreases pieces.len() - j,
            {
                let word = if parsed.clang {
                    crate::text::trimmed(pieces[j].as_slice())
                } else {
                    pieces[j].clone()
                };
                let ghost sofar = done + argw.subrange(0, j as int);
                assert(word@ == argw[j as int]);
                assert(sofar.push(word@) =~= done + argw.subrange(0, j + 1));
                proof {
                    let all = target_words(arguments, clang);
                    let here = target_words(arguments.subrange(0, i + 1), clang);
                    assert(here[sofar.len() as int] == word@);
                    assert(all[sofar.len() as int] == here[sofar.len() as int]);
                }
                let option = match option_for(word.as_slice()) {
                    Some(X86TargetOption::NoEvex512) if !parsed.clang => {
                        return Err(Error::new(parsed.span_start, "no-evex512 is unavailable in the GNU compiler profile"));
                    },
                    Some(option) => option,
                    None => {
                        return Err(Error::new(parsed.span_start, "function target option is unsupported"));
                    },
                };
                if options.len() >= 256 {
                    return Err(Error::new(parsed.span_start, "function target exceeds the 256-option limit"));
                }
                let no_mmx = contains_option(options.as_slice(), X86TargetOption::NoMmx);
                let ghost before = options@;
                state = apply(state, option, no_mmx);
                options.push(option);
                proof {
                    assert(options@.subrange(0, before.len() as int) =~= before);
                    assert(before.subrange(0, before.len() as int) =~= before);
                    lemma_parsed_state_prefix(options@, before, before.len(), start);
                    assert(named_options(sofar.push(word@)) =~= before.push(option));
                }
                j = j + 1;
            }
            proof {
                assert(argw.subrange(0, j as int) =~= argw);
            }
        } else {
            assert(argw =~= Seq::<Seq<char>>::empty());
            assert(done + argw =~= done);
        }
        i = i + 1;
    }
    proof {
        assert(arguments.subrange(0, i as int) =~= arguments);
    }
    proof {
        lemma_parsed_state_validates(options@, start);
        if !parsed.clang && options@.contains(X86TargetOption::NoEvex512) {
            let words = target_words(arguments, clang);
            let k = choose|k: int| 0 <= k < options@.len() && options@[k] == X86TargetOption::NoEvex512;
            assert(word_accepted(words[k], clang));
        }
    }
    let clang_spelling = if parsed.clang {
        Some(parsed.arguments[0].clone())
    } else {
        None
    };
    Ok(FunctionTarget {
        clang_spelling,
        options,
        mmx: state.mmx,
        sse: state.sse,
        sse2: state.sse2,
        lzcnt: state.lzcnt,
        bmi: state.bmi,
        bmi2: state.bmi2,
    })
}

/// Of two inline annotations, each a start offset and whether it was written
/// with arguments, keeps a malformed one for validation, otherwise the first written.
pub fn merge_inline(left: Option<(usize, bool)>, right: Option<(usize, bool)>) -> (r: Option<(usize, bool)>)
    ensures
        r == match (left, right) {
            (Some(l), Some(k)) => Some(
                if (!l.1 && k.1) || (l.1 == k.1 && k.0 < l.0) {
                    k
                } else {
                    l
                },
            ),
            (Some(l), None) => Some(l),
            (None, k) => k,
        },
{
    match (left, right) {
        (Some(l), Some(k)) => Some(
            if (!l.1 && k.1) || (l.1 == k.1 && k.0 < l.0) {
                k
            } else {
                l
            },
        ),
        (Some(l), None) => Some(l),
        (None, k) => k,
    }
}

/// A written `min_vector_width` attribute: where it starts and its value.
#[derive(Clone, Copy, Debug, PartialEq, Eq, Structural)]
pub struct MinimumVectorWidth {
    pub start: usize,
    pub value: u32,
}

/// The function attributes of one declaration that bear on its options:
/// its `target` attributes in written order, its inline annotations (each a
/// start offset and whether it was written with arguments), and its
/// `min_vector_width` attributes.
#[derive(Clone, Debug)]
pub struct FunctionAttributes {
    pub target_attributes: Vec<ParsedTarget>,
    pub always_inline: Option<(usize, bool)>,
    pub no_inline: Option<(usize, bool)>,
    pub minimum_vector_width: Vec<MinimumVectorWidth>,
}

/// Whether `t` is what [`target_attribute`] makes of `parsed` on `target`.
pub open spec fn interprets(t: FunctionTarget, parsed: ParsedTarget, target: Target) -> bool {
    let words = target_words(argument_views(parsed.arguments@), parsed.clang);
    &&& t.options_spec() == named_options(words)
    &&& t.state() == parsed_state(t.options_spec(), t.options_spec().len(), baseline_state(target))
    &&& t.spelling_spec() == if parsed.clang {
        Some(parsed.arguments@[0]@)
    } else {
        None::<Seq<char>>
    }
    &&& target_valid(t, if parsed.clang { Compiler::Clang } else { Compiler::Gnu }, target)
}

/// Whether an earlier target names the same function version as the one a
/// written attribute asks for.
pub open spec fn same_identity_as(previous: FunctionTarget, parsed: ParsedTarget) -> bool {
    let spelling = if parsed.clang { Some(parsed.arguments@[0]@) } else { None::<Seq<char>> };
    let options = named_options(target_words(argument_views(parsed.arguments@), parsed.clang));
    if previous.spelling_spec() is Some || spelling is Some {
        previous.spelling_spec() == spelling
    } else {
        previous.options_spec() == options || (positive_set(previous.options_spec()) is Some
            && positive_set(previous.options_spec()) == positive_set(options))
    }
}

/// The attribute that decides among the first `n`: of those not ignored as
/// empty, the earliest under Clang (the first of equals), the latest under
/// GCC (the last of equals).
pub open spec fn selected_target(attributes: Seq<ParsedTarget>, clang: bool, n: int) -> Option<int>
    decreases n,
{
    if n <= 0 || n > attributes.len() {
        None
    } else {
        let best = selected_target(attributes, clang, n - 1);
        let here = attributes[n - 1];
        if here.ignored_empty_spec() {
            best
        } else {
            match best {
                None => Some(n - 1),
                Some(j) => if (clang && here.span_start < attributes[j].span_start) || (!clang
                    && here.span_start >= attributes[j].span_start) {
                    Some(n - 1)
                } else {
                    Some(j)
                },
            }
        }
    }
}

/// The earliest of the first `n` `min_vector_width` attributes, the first of equals.
pub open spec fn first_width(widths: Seq<MinimumVectorWidth>, n: int) -> Option<int>
    decreases n,
{
    if n <= 0 || n > widths.len() {
        None
    } else {
        match first_width(widths, n - 1) {
            None => Some(n - 1),
            Some(j) => if widths[n - 1].start < widths[j].start {
                Some(n - 1)
            } else {
                Some(j)
            },
        }
    }
}

/// Every `target` attribute has a valid argument shape, and those that are
/// interpreted (all but ignored empty ones; none after a definition under
/// Clang) are accepted.
pub open spec fn targets_accepted(attributes: Seq<ParsedTarget>, interpret: bool, target: Target) -> bool {
    forall|i: int| 0 <= i < attributes.len() ==> target_arguments_valid(#[trigger] attributes[i]) && (!interpret
        || attributes[i].ignored_empty_spec() || target_attribute_accepted(attributes[i], target))
}

/// When [`merge_function_options`] accepts a declaration's attributes.
pub open spec fn merge_accepted(
    options: FunctionOptions,
    attributes: FunctionAttributes,
    defined: bool,
    compiler: Compiler,
    target: Target,
) -> bool {
    let clang = compiler == Compiler::Clang;
    let targets = attributes.target_attributes@;
    let interpret = !defined || !clang;
    let selected = selected_target(targets, clang, targets.len() as int);
    &&& targets_accepted(targets, interpret, target)
    &&& (interpret && selected is Some) ==> match options.target_spec() {
        Some(previous) => same_identity_as(previous, targets[selected->0]),
        None => !defined,
    }
    &&& !(attributes.always_inline matches Some((_, true)))
    &&& !(attributes.no_inline matches Some((_, true)))
}

/// The attribute whose target the declaration takes, if any.
fn select_target(attributes: &Vec<ParsedTarget>, clang: bool) -> (r: Option<usize>)
    ensures
        r matches Some(i) ==> selected_target(attributes@, clang, attributes@.len() as int) == Some(i as int)
            && i < attributes@.len(),
        r is None ==> selected_target(attributes@, clang, attributes@.len() as int) is None,
{
    let mut best: Option<usize> = None;
    let mut i: usize = 0;
    while i < attributes.len()
        invariant
            i <= attributes@.len(),
            best matches Some(j) ==> selected_target(attributes@, clang, i as int) == Some(j as int) && j < i,
            best is None ==> selected_target(attributes@, clang, i as int) is None,
        decreases attributes.len() - i,
    {
        let here = &attributes[i];
        if !here.ignored_empty() {
            best = match best {
                None => Some(i),
                Some(j) => {
                    let earlier = attributes[j].span_start;
                    if (clang && here.span_start < earlier) || (!clang && here.span_start >= earlier) {
                        Some(i)
                    } else {
                        Some(j)
                    }
                },
            };
        }
        i = i + 1;
    }
    best
}

/// The `min_vector_width` attribute that counts: the earliest written.
fn select_width(widths: &Vec<MinimumVectorWidth>) -> (r: Option<usize>)
    ensures
        r matches Some(i) ==> first_width(widths@, widths@.len() as int) == Some(i as int) && i < widths@.len(),
        r is None ==> first_width(widths@, widths@.len() as int) is None,
{
    let mut best: Option<usize> = None;
    let mut i: usize = 0;
    while i < widths.len()
        invariant
            i <= widths@.len(),
            best matches Some(j) ==> first_width(widths@, i as int) == Some(j as int) && j < i,
            best is None ==> first_width(widths@, i as int) is None,
        decreases widths.len() - i,
    {
        best = match best {
            None => Some(i),
            Some(j) => if widths[i].start < widths[j].start {
                Some(i)
            } else {
                Some(j)
            },
        };
        i = i + 1;
    }
    best
}

/// Merges one declaration's attributes into the options it inherits.
///
/// Every `target` attribute must have a valid shape; unless the function is
/// already `defined` under Clang (which ignores later target annotations),
/// those that are not ignored as empty must be accepted, and the deciding
/// one (the earliest under Clang, the latest under GCC) replaces the target,
/// which must name the same version as an inherited one and cannot first
/// appear after a definition. Inline annotations take no arguments. Before a
/// definition the earliest `min_vector_width` replaces the inherited one.
/// Clang accumulates both inline annotations before a definition; GCC keeps
/// the first inline annotation it ever saw, the earlier one when a
/// declaration has both.
pub fn merge_function_options(
    options: FunctionOptions,
    attributes: &FunctionAttributes,
    defined: bool,
    compiler: Compiler,
    target: Target,
) -> (r: Result<FunctionOptions, Error>)
    ensures
        ({
            let clang = compiler == Compiler::Clang;
            let targets = attributes.target_attributes@;
            let interpret = !defined || !clang;
            let selected = selected_target(targets, clang, targets.len() as int);
            let apply = interpret && selected is Some;
            let sel = targets[selected->0];
            &&& r is Ok <==> merge_accepted(options, *attributes, defined, compiler, target)
            &&& r matches Ok(merged) ==> {
                &&& apply ==> (merged.target_spec() matches Some(t) && interprets(t, sel, target))
                &&& !apply ==> merged.target_spec() == options.target_spec()
                &&& merged.minimum_vector_width_spec() == match first_width(
                    attributes.minimum_vector_width@,
                    attributes.minimum_vector_width@.len() as int,
                ) {
                    Some(k) if !defined => Some(attributes.minimum_vector_width@[k].value),
                    _ => options.minimum_vector_width_spec(),
                }
                &&& clang ==> merged.always_inline_spec() == (options.always_inline_spec() || (!defined
                    && attributes.always_inline is Some))
                &&& clang ==> merged.no_inline_spec() == (options.no_inline_spec() || (!defined
                    && attributes.no_inline is Some))
                &&& !clang && (options.always_inline_spec() || options.no_inline_spec()) ==> merged.always_inline_spec()
                    == options.always_inline_spec() && merged.no_inline_spec() == options.no_inline_spec()
                &&& !clang && !options.always_inline_spec() && !options.no_inline_spec() ==> match (
                    attributes.always_inline,
                    attributes.no_inline,
                ) {
                    (Some(a), Some(n)) => merged.always_inline_spec() == (a.0 < n.0) && merged.no_inline_spec()
                        == !(a.0 < n.0),
                    (Some(_), None) => merged.always_inline_spec() && !merged.no_inline_spec(),
                    (None, Some(_)) => !merged.always_inline_spec() && merged.no_inline_spec(),
                    (None, None) => !merged.always_inline_spec() && !merged.no_inline_spec(),
                }
            }
        }),
{
    let clang = match compiler {
        Compiler::Gnu => false,
        Compiler::Clang => true,
    };
    let interpret = !defined || !clang;
    let targets = &attributes.target_attributes;
    let selected = select_target(targets, clang);
    proof {
        lemma_selected_eligible(targets@, clang, targets@.len() as int);
    }
    let mut selected_target: Option<FunctionTarget> = None;
    let mut i: usize = 0;
    while i < targets.len()
        invariant
            i <= targets@.len(),
            targets@ == attributes.target_attributes@,
            interpret == (!defined || !clang),
            clang == (compiler == Compiler::Clang),
            forall|j: int| 0 <= j < i ==> target_arguments_valid(#[trigger] targets@[j]) && (!interpret
                || targets@[j].ignored_empty_spec() || target_attribute_accepted(targets@[j], target)),
            match selected {
                Some(s) => s < targets@.len() && !targets@[s as int].ignored_empty_spec() && match selected_target {
                    Some(t) => s < i && interpret && interprets(t, targets@[s as int], target),
                    None => i <= s || !interpret,
                },
                None => selected_target is None,
            },
        decreases targets.len() - i,
    {
        let attribute = &targets[i];
        match attribute.validate_target_arguments() {
            Ok(()) => {},
            Err(e) => {
                assert(!targets_accepted(targets@, interpret, target)) by {
                    assert(!target_arguments_valid(targets@[i as int]));
                }
                assert(!merge_accepted(options, *attributes, defined, compiler, target));
                return Err(e);
            },
        }
        if interpret && !attribute.ignored_empty() {
            let t = match target_attribute(attribute, target) {
                Ok(t) => t,
                Err(e) => {
                    assert(!targets_accepted(targets@, interpret, target)) by {
                        assert(!target_attribute_accepted(targets@[i as int], target));
                    }
                    assert(!merge_accepted(options, *attributes, defined, compiler, target));
                    return Err(e);
                },
            };
            if selected == Some(i) {
                selected_target = Some(t);
            }
        }
        i = i + 1;
    }
    proof {
        lemma_selected_eligible(targets@, clang, targets@.len() as int);
    }
    let mut options = options;
    if let (Some(s), Some(t)) = (selected, selected_target) {
        let start = targets[s].span_start;
        match &options.target {
            Some(previous) => {
                if !previous.same_identity(&t) {
                    let message = if clang {
                        "different target attributes require unsupported function multiversioning"
                    } else {
                        "merging different GNU target attribute histories is unsupported"
                    };
                    return Err(Error::new(start, message));
                }
            },
            None => {
                if defined {
                    return Err(Error::new(start, "GNU target attributes added after a definition are unsupported"));
                }
            },
        }
        options.target = Some(t);
    }
    if let Some((start, true)) = attributes.always_inline {
        return Err(Error::new(start, "always_inline takes no arguments"));
    }
    if let Some((start, true)) = attributes.no_inline {
        return Err(Error::new(start, "noinline takes no arguments"));
    }
    if !defined {
        if let Some(k) = select_width(&attributes.minimum_vector_width) {
            options.minimum_vector_width = Some(attributes.minimum_vector_width[k].value);
        }
    }
    if clang {
        if !defined {
            options.always_inline = options.always_inline || attributes.always_inline.is_some();
            options.no_inline = options.no_inline || attributes.no_inline.is_some();
        }
    } else if !options.always_inline && !options.no_inline {
        match (attributes.always_inline, attributes.no_inline) {
            (Some((always, _)), Some((never, _))) => {
                options.always_inline = always < never;
                options.no_inline = !options.always_inline;
            },
            (Some(_), None) => {
                options.always_inline = true;
            },
            (None, Some(_)) => {
                options.no_inline = true;
            },
            (None, None) => {},
        }
    }
    Ok(options)
}

/// The deciding attribute is one that is not ignored as empty.
proof fn lemma_selected_eligible(attributes: Seq<ParsedTarget>, clang: bool, n: int)
    ensures
        selected_target(attributes, clang, n) matches Some(j) ==> 0 <= j < n && j < attributes.len()
            && !attributes[j].ignored_empty_spec(),
    decreases n,
{
    if 0 < n <= attributes.len() {
        lemma_selected_eligible(attributes, clang, n - 1);
    }
}

/// The x86 features in force in the current function: those of its options,
/// or the profile's baseline outside any function with options.
pub fn current_x86_features(options: Option<&FunctionOptions>, physical_target: Target) -> (r: u8)
    ensures
        r == match options {
            Some(o) => state_bits(effective_state(o.target_spec(), physical_target)),
            None => state_bits(baseline_state(physical_target)),
        },
{
    match options {
        Some(o) => o.x86_features(physical_target),
        None => features_bits(baseline(physical_target)),
    }
}

/// A pending target-feature diagnostic, reported only if the code that
/// needs the feature is not discarded.
#[derive(Clone, Debug)]
pub enum FeatureUse {
    /// An SVE value at this offset.
    Sve(usize),
    /// An x86 intrinsic used without a feature it needs.
    X86 { offset: usize, intrinsic: String, feature: X86Feature },
    /// A call that may inline a function needing features the caller lacks.
    Inline { offset: usize, callee: String, declaration_time: bool, caller_features: u8 },
}

/// The most pending feature uses a unit holds.
pub const MAX_FEATURE_USES: usize = 65536;

/// The pending feature uses, in the order they were found.
#[derive(Debug)]
pub struct FeatureUses {
    uses: Vec<FeatureUse>,
}

impl FeatureUses {
    /// The uses recorded so far.
    pub closed spec fn uses_spec(&self) -> Seq<FeatureUse> {
        self.uses@
    }

    /// No use yet.
    pub fn new() -> (r: Self)
        ensures
            r.uses_spec().len() == 0,
    {
        FeatureUses { uses: Vec::new() }
    }

    /// Records a use, up to the limit.
    pub fn push_feature_use(&mut self, usage: FeatureUse, offset: usize) -> (r: Result<(), Error>)
        ensures
            r is Ok <==> old(self).uses_spec().len() < MAX_FEATURE_USES,
            r is Ok ==> final(self).uses_spec() == old(self).uses_spec().push(usage),
            r is Err ==> final(self).uses_spec() == old(self).uses_spec(),
    {
        if self.uses.len() >= MAX_FEATURE_USES {
            return Err(Error::new(offset, "target feature-use count exceeds the 65536-entry limit"));
        }
        self.uses.push(usage);
        Ok(())
    }

    /// Under Clang, unless feature checks are suppressed, records the first
    /// of an intrinsic's `required` features that the caller lacks.
    pub fn require_x86_features(
        &mut self,
        compiler: Compiler,
        suppressed: bool,
        caller_features: u8,
        intrinsic: &str,
        required: &[X86Feature],
        offset: usize,
    ) -> (r: Result<(), Error>)
        ensures
            ({
                let missing = exists|i: int| 0 <= i < required@.len() && caller_features & feature_bit(#[trigger] required@[i]) == 0;
                let records = compiler == Compiler::Clang && !suppressed && missing;
                &&& !records ==> r is Ok && final(self).uses_spec() == old(self).uses_spec()
                &&& records ==> (r is Ok <==> old(self).uses_spec().len() < MAX_FEATURE_USES)
                &&& records && r is Ok ==> final(self).uses_spec().len() == old(self).uses_spec().len() + 1
                    && final(self).uses_spec().drop_last() == old(self).uses_spec()
                    && (final(self).uses_spec().last() matches FeatureUse::X86 { offset: o, intrinsic: name, feature }
                        && o == offset && name@ == intrinsic@ && caller_features & feature_bit(feature) == 0
                        && (exists|i: int| 0 <= i < required@.len() && required@[i] == feature
                            && forall|j: int| 0 <= j < i ==> caller_features & feature_bit(#[trigger] required@[j]) != 0))
                &&& records && r is Err ==> final(self).uses_spec() == old(self).uses_spec()
            }),
    {
        let clang = match compiler {
            Compiler::Gnu => false,
            Compiler::Clang => true,
        };
        if !clang || suppressed {
            return Ok(());
        }
        let mut i: usize = 0;
        while i < required.len()
            invariant
                i <= required@.len(),
                compiler == Compiler::Clang,
                !suppressed,
                self.uses_spec() == old(self).uses_spec(),
                forall|j: int| 0 <= j < i ==> caller_features & feature_bit(#[trigger] required@[j]) != 0,
            decreases required.len() - i,
        {
            let feature = required[i];
            if caller_features & feature.bit() == 0 {
                assert(required@[i as int] == feature);
                assert(caller_features & feature_bit(required@[i as int]) == 0);
                let usage = FeatureUse::X86 { offset, intrinsic: String::from_str(intrinsic), feature };
                let ghost before = self.uses_spec();
                let r = self.push_feature_use(usage, offset);
                proof {
                    if r is Ok {
                        assert(self.uses_spec().drop_last() =~= before);
                    }
                }
                return r;
            }
            i = i + 1;
        }
        Ok(())
    }
}

impl FeatureUses {
    /// Records a call that may inline a function needing x86 features its
    /// caller lacks. Nothing is recorded when checks are suppressed, off x86,
    /// or for a call not naming a function (`callee`). Clang decides at the
    /// call from the callee's visible options (`visible`); GCC may inline
    /// later, so it also records calls from callers without MMX and calls of
    /// names that get a target attribute later (`late_target`).
    pub fn require_inline_features(
        &mut self,
        suppressed: bool,
        physical_target: Target,
        compiler: Compiler,
        callee: Option<&str>,
        caller_features: u8,
        visible: Option<&FunctionOptions>,
        late_target: bool,
        offset: usize,
    ) -> (r: Result<(), Error>)
        ensures
            ({
                let clang = compiler == Compiler::Clang;
                let mismatch = visible matches Some(o) && o.always_inline_spec() && state_bits(
                    effective_state(o.target_spec(), physical_target),
                ) & !caller_features != 0;
                let records = !suppressed && is_x86_spec(physical_target) && callee is Some && if clang {
                    mismatch
                } else {
                    caller_features & 1 == 0 || mismatch || late_target
                };
                &&& !records ==> r is Ok && final(self).uses_spec() == old(self).uses_spec()
                &&& records ==> (r is Ok <==> old(self).uses_spec().len() < MAX_FEATURE_USES)
                &&& records && r is Ok ==> final(self).uses_spec() == old(self).uses_spec().push(FeatureUse::Inline {
                    offset,
                    callee: final(self).uses_spec().last()->Inline_callee,
                    declaration_time: clang,
                    caller_features,
                }) && final(self).uses_spec().last()->Inline_callee@ == callee->0@
                &&& records && r is Err ==> final(self).uses_spec() == old(self).uses_spec()
            }),
    {
        if suppressed || !is_x86(physical_target) {
            return Ok(());
        }
        let name = match callee {
            Some(name) => name,
            None => {
                return Ok(());
            },
        };
        let declaration_time = match compiler {
            Compiler::Gnu => false,
            Compiler::Clang => true,
        };
        let visible_mismatch = match visible {
            Some(options) => inline_feature_mismatch(options, physical_target, caller_features),
            None => false,
        };
        if declaration_time {
            if !visible_mismatch {
                return Ok(());
            }
        } else if caller_features & X86Feature::Mmx.bit() != 0 && !visible_mismatch && !late_target {
            return Ok(());
        }
        let usage = FeatureUse::Inline { offset, callee: String::from_str(name), declaration_time, caller_features };
        self.push_feature_use(usage, offset)
    }
}

} // verus!
