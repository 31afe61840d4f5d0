//! Narrow GNU grammar adapters for a C parser, with original-source diagnostics.

use crate::error::Error;
use vstd::prelude::*;

verus! {

/// The most edits one source may need.
pub const MAX_ADAPTATIONS: usize = 100000;

/// The most bytes the adapted parser input may hold.
pub const MAX_ADAPTED_BYTES: usize = 16777216;

/// Where a run of parser input starts, and what it came from: the original
/// offset of its first byte (`copied`), or of the token it was inserted before.
#[derive(Clone, Copy, Debug, PartialEq, Eq, Structural)]
pub struct Segment {
    pub parsed: usize,
    pub original: usize,
    pub copied: bool,
}

/// Maps copied/reordered source runs and inserted tokens back to the original text.
#[derive(Clone, Debug)]
pub struct SourceMap {
    pub segments: Vec<Segment>,
    /// Original offsets before which an empty pair of braces was inserted.
    pub insertions: Vec<usize>,
}

/// Whether `b` is ASCII white space as `u8::is_ascii_whitespace` reads it.
pub open spec fn ascii_space(b: u8) -> bool {
    b == 0x20 || b == 0x09 || b == 0x0a || b == 0x0c || b == 0x0d
}

/// How many segments start at or before `offset`.
pub open spec fn segments_before(segments: Seq<Segment>, offset: usize) -> int
    decreases segments.len(),
{
    if segments.len() == 0 {
        0
    } else {
        segments_before(segments.drop_last(), offset) + if segments.last().parsed <= offset {
            1int
        } else {
            0int
        }
    }
}

/// How many insertions happened at or before `offset`.
pub open spec fn insertions_before(insertions: Seq<usize>, offset: usize) -> int
    decreases insertions.len(),
{
    if insertions.len() == 0 {
        0
    } else {
        insertions_before(insertions.drop_last(), offset) + if insertions.last() <= offset {
            1int
        } else {
            0int
        }
    }
}

/// The original offset of a parser offset: within a copied run, the same
/// distance from the run's original start; within an insertion, the token
/// it precedes; before any run, the offset itself.
pub open spec fn original_offset_spec(segments: Seq<Segment>, offset: usize) -> int {
    let index = segments_before(segments, offset);
    if index == 0 {
        offset as int
    } else {
        let segment = segments[index - 1];
        segment.original + if segment.copied {
            offset - segment.parsed
        } else {
            0
        }
    }
}

/// Segments in nondecreasing parser order.
pub open spec fn segments_sorted(segments: Seq<Segment>) -> bool {
    forall|i: int, j: int| 0 <= i < j < segments.len() ==> (#[trigger] segments[i]).parsed <= (#[trigger] segments[j]).parsed
}

/// Insertions in nondecreasing original order.
pub open spec fn insertions_sorted(insertions: Seq<usize>) -> bool {
    forall|i: int, j: int| 0 <= i < j < insertions.len() ==> insertions[i] <= insertions[j]
}

proof fn lemma_segments_before_sorted(segments: Seq<Segment>, offset: usize, k: int)
    requires
        segments_sorted(segments),
        0 <= k <= segments.len(),
        forall|i: int| 0 <= i < k ==> (#[trigger] segments[i]).parsed <= offset,
        k == segments.len() || segments[k].parsed > offset,
    ensures
        segments_before(segments, offset) == k,
    decreases segments.len(),
{
    if segments.len() > 0 {
        if k == segments.len() {
            lemma_segments_before_sorted(segments.drop_last(), offset, k - 1);
        } else {
            assert(segments.last().parsed > offset) by {
                if k < segments.len() - 1 {
                    assert(segments[k].parsed <= segments[segments.len() - 1].parsed);
                }
            }
            lemma_segments_before_sorted(segments.drop_last(), offset, k);
        }
    }
}

proof fn lemma_insertions_before_sorted(insertions: Seq<usize>, offset: usize, k: int)
    requires
        insertions_sorted(insertions),
        0 <= k <= insertions.len(),
        forall|i: int| 0 <= i < k ==> insertions[i] <= offset,
        k == insertions.len() || insertions[k] > offset,
    ensures
        insertions_before(insertions, offset) == k,
    decreases insertions.len(),
{
    if insertions.len() > 0 {
        if k == insertions.len() {
            lemma_insertions_before_sorted(insertions.drop_last(), offset, k - 1);
        } else {
            assert(insertions.last() > offset) by {
                if k < insertions.len() - 1 {
                    assert(insertions[k] <= insertions[insertions.len() - 1]);
                }
            }
            lemma_insertions_before_sorted(insertions.drop_last(), offset, k);
        }
    }
}

impl SourceMap {
    /// The original offset of a parser offset.
    pub fn original_offset(&self, offset: usize) -> (r: usize)
        requires
            segments_sorted(self.segments@),
            original_offset_spec(self.segments@, offset) <= usize::MAX,
        ensures
            r == original_offset_spec(self.segments@, offset),
    {
        let mut low: usize = 0;
        let mut high: usize = self.segments.len();
        while low < high
            invariant
                segments_sorted(self.segments@),
                0 <= low <= high <= self.segments@.len(),
                forall|i: int| 0 <= i < low ==> (#[trigger] self.segments@[i]).parsed <= offset,
                forall|i: int| high <= i < self.segments@.len() ==> (#[trigger] self.segments@[i]).parsed > offset,
            decreases high - low,
        {
            let middle = low + (high - low) / 2;
            if self.segments[middle].parsed <= offset {
                proof {
                    assert forall|i: int| 0 <= i < middle + 1 implies (#[trigger] self.segments@[i]).parsed <= offset by {
                        if i < middle {
                            assert(self.segments@[i].parsed <= self.segments@[middle as int].parsed);
                        }
                    }
                }
                low = middle + 1;
            } else {
                proof {
                    assert forall|i: int| middle <= i < self.segments@.len() implies (#[trigger] self.segments@[i]).parsed > offset by {
                        if i > middle {
                            assert(self.segments@[middle as int].parsed <= self.segments@[i].parsed);
                        }
                    }
                }
                high = middle;
            }
        }
        proof {
            lemma_segments_before_sorted(self.segments@, offset, low as int);
        }
        if low == 0 {
            return offset;
        }
        let segment = self.segments[low - 1];
        segment.original + if segment.copied {
            offset - segment.parsed
        } else {
            0
        }
    }

    /// Pragma locations are outside reordered attribute tokens, so only insertions
    /// affect their parser offsets. Each insertion adds one empty pair of braces.
    pub fn pragma_offset(&self, offset: usize) -> (r: usize)
        requires
            insertions_sorted(self.insertions@),
            offset + 2 * insertions_before(self.insertions@, offset) <= usize::MAX,
        ensures
            r == offset + 2 * insertions_before(self.insertions@, offset),
    {
        let mut low: usize = 0;
        let mut high: usize = self.insertions.len();
        while low < high
            invariant
                insertions_sorted(self.insertions@),
                0 <= low <= high <= self.insertions@.len(),
                forall|i: int| 0 <= i < low ==> self.insertions@[i] <= offset,
                forall|i: int| high <= i < self.insertions@.len() ==> self.insertions@[i] > offset,
            decreases high - low,
        {
            let middle = low + (high - low) / 2;
            if self.insertions[middle] <= offset {
                low = middle + 1;
            } else {
                high = middle;
            }
        }
        proof {
            lemma_insertions_before_sorted(self.insertions@, offset, low as int);
        }
        offset + 2 * low
    }
}

/// The first index at or after `i` that is not white space, or `i` when `i`
/// is past the end.
pub open spec fn skip_space_spec(bytes: Seq<u8>, i: int) -> int
    decreases bytes.len() - i,
{
    if 0 <= i < bytes.len() && ascii_space(bytes[i]) {
        skip_space_spec(bytes, i + 1)
    } else {
        i
    }
}

/// Skips white space.
pub fn skip_space(bytes: &[u8], index: usize) -> (r: usize)
    ensures
        r == skip_space_spec(bytes@, index as int),
{
    let mut i = index;
    while i < bytes.len() && (bytes[i] == 0x20 || bytes[i] == 0x09 || bytes[i] == 0x0a || bytes[i]
        == 0x0c || bytes[i] == 0x0d)
        invariant
            index <= i,
            i <= bytes@.len() || i == index,
            skip_space_spec(bytes@, index as int) == skip_space_spec(bytes@, i as int),
        decreases bytes.len() - i,
    {
        i = i + 1;
    }
    i
}

/// Where a quoted run that started before `i` ends: after its closing quote,
/// or at the end of the input. A backslash escapes the next byte.
pub open spec fn quoted_scan(bytes: Seq<u8>, quote: u8, i: int) -> int
    decreases bytes.len() + 1 - i,
{
    if i < 0 || i >= bytes.len() {
        bytes.len() as int
    } else if bytes[i] == quote {
        i + 1
    } else if bytes[i] == 0x5c {
        quoted_scan(bytes, quote, i + 2)
    } else {
        quoted_scan(bytes, quote, i + 1)
    }
}

proof fn lemma_quoted_scan_bounds(bytes: Seq<u8>, quote: u8, i: int)
    requires
        0 <= i,
    ensures
        i <= quoted_scan(bytes, quote, i) <= bytes.len() || (i > bytes.len() && quoted_scan(bytes, quote, i) == bytes.len()),
        quoted_scan(bytes, quote, i) <= bytes.len(),
    decreases bytes.len() + 1 - i,
{
    if 0 <= i < bytes.len() && bytes[i] != quote {
        if bytes[i] == 0x5c {
            lemma_quoted_scan_bounds(bytes, quote, i + 2);
        } else {
            lemma_quoted_scan_bounds(bytes, quote, i + 1);
        }
    }
}

/// The end of the quoted literal that starts at `index`.
pub fn quoted_end(bytes: &[u8], index: usize) -> (r: usize)
    requires
        index < bytes@.len(),
        bytes@.len() < usize::MAX,
    ensures
        r == quoted_scan(bytes@, bytes@[index as int], index + 1),
        index < r <= bytes@.len(),
{
    let quote = bytes[index];
    let mut i = index + 1;
    proof {
        lemma_quoted_scan_bounds(bytes@, quote, i as int);
    }
    while i < bytes.len()
        invariant
            index < i <= bytes@.len() + 1,
            bytes@.len() < usize::MAX,
            quote == bytes@[index as int],
            quoted_scan(bytes@, quote, index + 1) == quoted_scan(bytes@, quote, i as int),
            index + 1 <= quoted_scan(bytes@, quote, index + 1) <= bytes@.len(),
        decreases bytes.len() + 1 - i,
    {
        if bytes[i] == quote {
            return i + 1;
        }
        if bytes[i] == 0x5c {
            i = i + 1;
        }
        i = i + 1;
    }
    bytes.len()
}

/// Where the parenthesized run that is open `depth` deep before `i` closes,
/// skipping quoted literals; None when it does not close.
pub open spec fn paren_scan(bytes: Seq<u8>, i: int, depth: int) -> Option<int>
    decreases (if 0 <= i < bytes.len() { bytes.len() - i } else { 0 }),
{
    if i < 0 || i >= bytes.len() {
        None
    } else if bytes[i] == 0x27 || bytes[i] == 0x22 {
        let next = quoted_scan(bytes, bytes[i], i + 1);
        if next > i {
            paren_scan(bytes, next, depth)
        } else {
            None
        }
    } else if bytes[i] == 0x28 {
        paren_scan(bytes, i + 1, depth + 1)
    } else if bytes[i] == 0x29 {
        if depth - 1 == 0 {
            Some(i + 1)
        } else {
            paren_scan(bytes, i + 1, depth - 1)
        }
    } else {
        paren_scan(bytes, i + 1, depth)
    }
}

/// Whether `bytes[start..]` begins with `prefix`.
pub open spec fn starts_with(bytes: Seq<u8>, start: int, prefix: Seq<u8>) -> bool {
    0 <= start && start + prefix.len() <= bytes.len() && bytes.subrange(start, start + prefix.len())
        == prefix
}

/// The spelling `__attribute`.
pub open spec fn attribute_word() -> Seq<u8> {
    seq![0x5fu8, 0x5f, 0x61, 0x74, 0x74, 0x72, 0x69, 0x62, 0x75, 0x74, 0x65]
}

/// The spelling `__attribute__`.
pub open spec fn attribute_word_long() -> Seq<u8> {
    attribute_word() + seq![0x5fu8, 0x5f]
}

/// The end of a complete GNU attribute specifier `__attribute__((...))` at
/// `start`, including nested argument lists.
pub open spec fn attribute_end_spec(bytes: Seq<u8>, start: int) -> Option<int> {
    let length: int = if starts_with(bytes, start, attribute_word_long()) {
        13
    } else if starts_with(bytes, start, attribute_word()) {
        11
    } else {
        0
    };
    if length == 0 {
        None
    } else {
        let opening = skip_space_spec(bytes, start + length);
        if !(0 <= opening < bytes.len() && bytes[opening] == 0x28) {
            None
        } else {
            let second = skip_space_spec(bytes, opening + 1);
            if !(0 <= second < bytes.len() && bytes[second] == 0x28) {
                None
            } else {
                paren_scan(bytes, second + 1, 2)
            }
        }
    }
}

/// Byte `k` of `__attribute__`.
fn word_byte(k: usize) -> (r: u8)
    requires
        k < 13,
    ensures
        r == attribute_word_long()[k as int],
{
    if k < 2 || k >= 11 {
        0x5f
    } else if k == 2 {
        0x61
    } else if k == 3 || k == 4 || k == 9 {
        0x74
    } else if k == 5 {
        0x72
    } else if k == 6 {
        0x69
    } else if k == 7 {
        0x62
    } else if k == 8 {
        0x75
    } else {
        0x65
    }
}

fn starts_with_word(bytes: &[u8], start: usize, long: bool) -> (r: bool)
    ensures
        r == starts_with(bytes@, start as int, if long { attribute_word_long() } else { attribute_word() }),
{
    let n: usize = if long { 13 } else { 11 };
    let ghost w = if long { attribute_word_long() } else { attribute_word() };
    assert(forall|j: int| 0 <= j < n ==> attribute_word_long()[j] == #[trigger] w[j]);
    if start > bytes.len() || bytes.len() - start < n {
        return false;
    }
    let mut k: usize = 0;
    let end: usize = start + n;
    while k < n
        invariant
            w == if long { attribute_word_long() } else { attribute_word() },
            n == w.len(),
            n <= 13,
            end == start + n,
            end <= bytes@.len(),
            k <= n,
            forall|j: int| 0 <= j < n ==> attribute_word_long()[j] == #[trigger] w[j],
            forall|j: int| 0 <= j < k ==> bytes@[start + j] == w[j],
        decreases n - k,
    {
        let at: usize = start + k;
        if bytes[at] != word_byte(k) {
            proof {
                assert(bytes@.subrange(start as int, start + n)[k as int] != w[k as int]);
            }
            return false;
        }
        k = k + 1;
    }
    assert(bytes@.subrange(start as int, start + n) =~= w);
    true
}

/// Returns the end of a complete GNU attribute specifier, including nested argument lists.
pub fn attribute_end(bytes: &[u8], start: usize) -> (r: Option<usize>)
    requires
        bytes@.len() < usize::MAX,
    ensures
        match r {
            Some(e) => attribute_end_spec(bytes@, start as int) == Some(e as int),
            None => attribute_end_spec(bytes@, start as int) is None,
        },
{
    let length: usize = if starts_with_word(bytes, start, true) {
        13
    } else if starts_with_word(bytes, start, false) {
        11
    } else {
        return None;
    };
    let opening = skip_space(bytes, start + length);
    if !(opening < bytes.len() && bytes[opening] == 0x28) {
        return None;
    }
    let second = skip_space(bytes, opening + 1);
    if !(second < bytes.len() && bytes[second] == 0x28) {
        return None;
    }
    let mut index = second + 1;
    let mut depth: usize = 2;
    while index < bytes.len()
        invariant
            second < index <= bytes@.len(),
            1 <= depth,
            depth <= index - second + 1,
            bytes@.len() < usize::MAX,
            attribute_end_spec(bytes@, start as int) == paren_scan(bytes@, index as int, depth as int),
        decreases bytes.len() - index,
    {
        let b = bytes[index];
        if b == 0x27 || b == 0x22 {
            let next = quoted_end(bytes, index);
            index = next;
            continue;
        }
        if b == 0x28 {
            depth = depth + 1;
        } else if b == 0x29 {
            if depth - 1 == 0 {
                return Some(index + 1);
            }
            depth = depth - 1;
        }
        index = index + 1;
    }
    None
}

/// Counts one more edit, failing past the edit limit.
pub fn check_adaptations(count: &mut usize, offset: usize) -> (r: Result<(), Error>)
    requires
        *old(count) <= MAX_ADAPTATIONS,
    ensures
        *final(count) == *old(count) + 1,
        r is Ok <==> *old(count) + 1 <= MAX_ADAPTATIONS,
{
    *count = *count + 1;
    if *count > MAX_ADAPTATIONS {
        return Err(Error::new(offset, "GNU parser adapters exceed the 100000-edit limit"));
    }
    Ok(())
}

/// Where the run of segment `k` ends: at the next segment, or at the end of
/// the parser input.
pub open spec fn segment_end(segments: Seq<Segment>, k: int, output_len: int) -> int {
    if k + 1 < segments.len() {
        segments[k + 1].parsed as int
    } else {
        output_len
    }
}

/// Whether the run of segment `k` is what it claims: a copy of the original
/// bytes at its original offset, or an inserted `{}`.
pub open spec fn run_matches(segments: Seq<Segment>, k: int, source: Seq<u8>, output: Seq<u8>) -> bool {
    let s = segments[k];
    let length = segment_end(segments, k, output.len() as int) - s.parsed;
    if s.copied {
        &&& s.original + length <= source.len()
        &&& forall|d: int| 0 <= d < length ==> output[s.parsed + d] == #[trigger] source[s.original + d]
    } else {
        &&& length == 2
        &&& output[s.parsed as int] == 0x7b
        &&& output[s.parsed + 1] == 0x7d
    }
}

/// A source map that describes parser input exactly: sorted runs from the
/// start of the input to its end, each a copy of original bytes or an
/// inserted `{}`.
pub open spec fn map_describes(segments: Seq<Segment>, source: Seq<u8>, output: Seq<u8>) -> bool {
    &&& segments_sorted(segments)
    &&& segments.len() == 0 ==> output.len() == 0
    &&& segments.len() > 0 ==> segments[0].parsed == 0 && segments.last().parsed <= output.len()
    &&& forall|k: int| 0 <= k < segments.len() ==> run_matches(segments, k, source, output)
}

/// Every parser byte maps back to the original text: a copied byte to the
/// original byte at `original_offset`, an inserted one to an inserted brace.
pub proof fn lemma_original_offset(segments: Seq<Segment>, source: Seq<u8>, output: Seq<u8>, offset: usize)
    requires
        map_describes(segments, source, output),
        offset < output.len(),
    ensures
        ({
            let k = segments_before(segments, offset) - 1;
            &&& 0 <= k < segments.len()
            &&& segments[k].copied ==> 0 <= original_offset_spec(segments, offset) < source.len()
                && source[original_offset_spec(segments, offset)] == output[offset as int]
            &&& !segments[k].copied ==> output[offset as int] == 0x7b || output[offset as int] == 0x7d
        }),
{
    lemma_segments_before_props(segments, offset);
    let n = segments_before(segments, offset);
    assert(segments[0].parsed <= offset);
    let k = n - 1;
    assert(run_matches(segments, k, source, output));
    let d = offset - segments[k].parsed;
    assert(segments[k].copied ==> output[segments[k].parsed + d] == source[segments[k].original + d]);
}

/// What a rewrite produced: parser input, its source map, and where empty
/// initializers were inserted.
#[derive(Clone, Debug)]
pub struct Adapted {
    pub source: Vec<u8>,
    pub offsets: SourceMap,
    pub empty_initializers: Vec<usize>,
}

/// Appends original bytes `start..end` as one copied run.
fn copy_run(source: &[u8], output: &mut Vec<u8>, segments: &mut Vec<Segment>, start: usize, end: usize)
    requires
        start <= end <= source@.len(),
        map_describes(old(segments)@, source@, old(output)@),
    ensures
        map_describes(final(segments)@, source@, final(output)@),
        final(output)@ == old(output)@ + source@.subrange(start as int, end as int),
        final(segments)@ == copy_segments(old(segments)@, old(output)@.len() as int, start as int, end as int),
        final(segments)@.len() >= old(segments)@.len(),
        forall|k: int| 0 <= k < old(segments)@.len() ==> final(segments)@[k] == old(segments)@[k],
        forall|k: int| old(segments)@.len() <= k < final(segments)@.len() ==> (#[trigger] final(segments)@[k]).copied,
{
    if start == end {
        assert(source@.subrange(start as int, end as int) =~= Seq::<u8>::empty());
        assert(output@ + Seq::<u8>::empty() =~= output@);
        return;
    }
    let ghost before = output@;
    let ghost segs = segments@;
    segments.push(Segment { parsed: output.len(), original: start, copied: true });
    let mut i = start;
    while i < end
        invariant
            start <= i <= end <= source@.len(),
            output@ == before + source@.subrange(start as int, i as int),
        decreases end - i,
    {
        output.push(source[i]);
        i = i + 1;
    }
    proof {
        let after = segments@;
        assert forall|k: int| 0 <= k < after.len() implies run_matches(after, k, source@, output@) by {
            if k < segs.len() {
                assert(run_matches(segs, k, source@, before));
                assert(segment_end(after, k, output@.len() as int) == segment_end(segs, k, before.len() as int));
                let s = after[k];
                let length = segment_end(after, k, output@.len() as int) - s.parsed;
                assert forall|d: int| 0 <= d < length implies output@[s.parsed + d] == #[trigger] before[s.parsed + d] by {}
            } else {
                let length = end - start;
                assert forall|d: int| 0 <= d < length implies output@[before.len() + d] == #[trigger] source@[start + d] by {}
            }
        }
    }
}

/// Appends an empty `{}` inserted before original offset `original`,
/// returning its parser offset.
fn insert_braces(output: &mut Vec<u8>, segments: &mut Vec<Segment>, insertions: &mut Vec<usize>, source: &[u8], original: usize) -> (parsed: usize)
    requires
        map_describes(old(segments)@, source@, old(output)@),
    ensures
        parsed == old(output)@.len(),
        map_describes(final(segments)@, source@, final(output)@),
        final(output)@ == old(output)@.push(0x7b).push(0x7d),
        final(segments)@ == old(segments)@.push(Segment { parsed, original, copied: false }),
        final(insertions)@ == old(insertions)@.push(original),
{
    let ghost before = output@;
    let ghost segs = segments@;
    let parsed = output.len();
    segments.push(Segment { parsed, original, copied: false });
    insertions.push(original);
    output.push(0x7b);
    output.push(0x7d);
    proof {
        let after = segments@;
        assert forall|k: int| 0 <= k < after.len() implies run_matches(after, k, source@, output@) by {
            if k < segs.len() {
                assert(run_matches(segs, k, source@, before));
                let s = after[k];
                let length = segment_end(after, k, output@.len() as int) - s.parsed;
                assert forall|d: int| 0 <= d < length implies output@[s.parsed + d] == #[trigger] before[s.parsed + d] by {}
            }
        }
    }
    parsed
}

proof fn lemma_paren_scan_after(bytes: Seq<u8>, i: int, depth: int)
    ensures
        paren_scan(bytes, i, depth) matches Some(e) ==> i < e <= bytes.len(),
    decreases (if 0 <= i < bytes.len() { bytes.len() - i } else { 0 }),
{
    if 0 <= i < bytes.len() {
        if bytes[i] == 0x27 || bytes[i] == 0x22 {
            let next = quoted_scan(bytes, bytes[i], i + 1);
            if next > i {
                lemma_paren_scan_after(bytes, next, depth);
            }
        } else if bytes[i] == 0x28 {
            lemma_paren_scan_after(bytes, i + 1, depth + 1);
        } else if bytes[i] == 0x29 {
            if depth - 1 != 0 {
                lemma_paren_scan_after(bytes, i + 1, depth - 1);
            }
        } else {
            lemma_paren_scan_after(bytes, i + 1, depth);
        }
    }
}

proof fn lemma_skip_space_ge(bytes: Seq<u8>, i: int)
    ensures
        skip_space_spec(bytes, i) >= i,
        0 <= i <= bytes.len() ==> skip_space_spec(bytes, i) <= bytes.len(),
    decreases bytes.len() - i,
{
    if 0 <= i < bytes.len() && ascii_space(bytes[i]) {
        lemma_skip_space_ge(bytes, i + 1);
    }
}

/// The spellings `asm` (0), `__asm` (1) and `__asm__` (2).
pub open spec fn asm_spelling(k: int) -> Seq<u8> {
    if k == 0 {
        seq![0x61u8, 0x73, 0x6d]
    } else if k == 1 {
        seq![0x5fu8, 0x5f, 0x61, 0x73, 0x6d]
    } else {
        seq![0x5fu8, 0x5f, 0x61, 0x73, 0x6d, 0x5f, 0x5f]
    }
}

/// Whether `bytes[start..end]` is `asm`, `__asm` or `__asm__`.
pub open spec fn asm_keyword(bytes: Seq<u8>, start: int, end: int) -> bool {
    let word = bytes.subrange(start, end);
    word == asm_spelling(0) || word == asm_spelling(1) || word == asm_spelling(2)
}

fn asm_spelling_len(k: usize) -> (r: usize)
    requires
        k < 3,
    ensures
        r == asm_spelling(k as int).len(),
{
    if k == 0 {
        3
    } else if k == 1 {
        5
    } else {
        7
    }
}

fn asm_spelling_byte(k: usize, i: usize) -> (r: u8)
    requires
        k < 3,
        i < asm_spelling(k as int).len(),
    ensures
        r == asm_spelling(k as int)[i as int],
{
    let offset: usize = if k == 0 { 2 } else { 0 };
    let j = i + offset;
    if j < 2 || j >= 5 {
        0x5f
    } else if j == 2 {
        0x61
    } else if j == 3 {
        0x73
    } else {
        0x6d
    }
}

fn is_asm_spelling(bytes: &[u8], start: usize, end: usize, k: usize) -> (r: bool)
    requires
        start <= end <= bytes@.len(),
        k < 3,
    ensures
        r == (bytes@.subrange(start as int, end as int) == asm_spelling(k as int)),
{
    let ghost word = bytes@.subrange(start as int, end as int);
    let n = asm_spelling_len(k);
    if end - start != n {
        return false;
    }
    let mut i: usize = 0;
    while i < n
        invariant
            start <= end <= bytes@.len(),
            end - start == n,
            n == asm_spelling(k as int).len(),
            k < 3,
            word == bytes@.subrange(start as int, end as int),
            i <= n,
            forall|j: int| 0 <= j < i ==> word[j] == asm_spelling(k as int)[j],
        decreases n - i,
    {
        if bytes[start + i] != asm_spelling_byte(k, i) {
            assert(word[i as int] != asm_spelling(k as int)[i as int]);
            return false;
        }
        i = i + 1;
    }
    assert(word =~= asm_spelling(k as int));
    true
}

fn is_asm_keyword(bytes: &[u8], start: usize, end: usize) -> (r: bool)
    requires
        start <= end <= bytes@.len(),
    ensures
        r == asm_keyword(bytes@, start as int, end as int),
{
    is_asm_spelling(bytes, start, end, 0) || is_asm_spelling(bytes, start, end, 1) || is_asm_spelling(bytes, start, end, 2)
}

/// Whether `b` may continue an identifier.
fn identifier_byte(b: u8) -> (r: bool)
    ensures
        r == ((0x30 <= b <= 0x39) || (0x41 <= b <= 0x5a) || (0x61 <= b <= 0x7a) || b == 0x5f),
{
    (0x30 <= b && b <= 0x39) || (0x41 <= b && b <= 0x5a) || (0x61 <= b && b <= 0x7a) || b == 0x5f
}

/// Whether `b` may continue an identifier.
pub open spec fn identifier_continue(b: u8) -> bool {
    (0x30 <= b <= 0x39) || (0x41 <= b <= 0x5a) || (0x61 <= b <= 0x7a) || b == 0x5f
}

/// Where the identifier bytes from `i` end.
pub open spec fn identifier_end(bytes: Seq<u8>, i: int) -> int
    decreases bytes.len() - i,
{
    if 0 <= i < bytes.len() && identifier_continue(bytes[i]) {
        identifier_end(bytes, i + 1)
    } else {
        i
    }
}

/// Where a run of attribute specifiers starting at `i`, each followed by
/// white space, ends.
pub open spec fn attributes_end(bytes: Seq<u8>, i: int) -> int
    decreases bytes.len() - i,
{
    match attribute_end_spec(bytes, i) {
        Some(next) => {
            let j = skip_space_spec(bytes, next);
            if i < j <= bytes.len() {
                attributes_end(bytes, j)
            } else {
                i
            }
        },
        None => i,
    }
}

/// The parser input, the positions of inserted `{}` pairs, the source-map
/// runs and the original offsets of the insertions that adapting `bytes`
/// gives, scanning from `index` with the bytes before `copied` already
/// emitted as `out` (described by `segs`, with insertions `ins`), `previous` the last significant byte (none
/// after a quoted literal). White space is skipped; quoted literals are
/// passed over whole. `{` after `)` and before `}` (white space between
/// allowed) gets a marked `{}` inserted before the `}`; attribute specifiers
/// right after `(` and before `*` move after the `*`. Identifiers are read
/// whole.
pub open spec fn adapt_run(
    bytes: Seq<u8>,
    index: int,
    copied: int,
    previous: Option<u8>,
    out: Seq<u8>,
    empties: Seq<usize>,
    segs: Seq<Segment>,
    ins: Seq<usize>,
) -> (Seq<u8>, Seq<usize>, Seq<Segment>, Seq<usize>)
    decreases bytes.len() - index,
{
    if index < 0 || index >= bytes.len() {
        let last = out + bytes.subrange(copied, bytes.len() as int);
        (
            last,
            empties,
            copy_segments(segs, out.len() as int, copied, bytes.len() as int).push(
                Segment { parsed: last.len() as usize, original: bytes.len() as usize, copied: true },
            ),
            ins,
        )
    } else {
        let b = bytes[index];
        if ascii_space(b) {
            adapt_run(bytes, index + 1, copied, previous, out, empties, segs, ins)
        } else if b == 0x27 || b == 0x22 {
            let q = quoted_scan(bytes, b, index + 1);
            if index < q <= bytes.len() {
                adapt_run(bytes, q, copied, None, out, empties, segs, ins)
            } else {
                (out, empties, segs, ins)
            }
        } else {
            let closing = skip_space_spec(bytes, index + 1);
            let end = attributes_end(bytes, index);
            if b == 0x7b && previous == Some(0x29u8) && index < closing < bytes.len() && bytes[closing] == 0x7d {
                let before = out + bytes.subrange(copied, closing);
                adapt_run(
                    bytes,
                    closing + 1,
                    closing,
                    Some(0x7du8),
                    before.push(0x7b).push(0x7d),
                    empties.push(before.len() as usize),
                    copy_segments(segs, out.len() as int, copied, closing).push(
                        Segment { parsed: before.len() as usize, original: closing as usize, copied: false },
                    ),
                    ins.push(closing as usize),
                )
            } else if previous == Some(0x28u8) && attribute_end_spec(bytes, index) is Some && index <= end < bytes.len()
                && bytes[end] == 0x2a {
                adapt_run(
                    bytes,
                    end + 1,
                    end + 1,
                    Some(0x2au8),
                    out + bytes.subrange(copied, index) + bytes.subrange(end, end + 1) + bytes.subrange(index, end),
                    empties,
                    copy_segments(
                        copy_segments(
                            copy_segments(segs, out.len() as int, copied, index),
                            out.len() + (index - copied),
                            end,
                            end + 1,
                        ),
                        out.len() + (index - copied) + 1,
                        index,
                        end,
                    ),
                    ins,
                )
            } else if (0x41 <= b <= 0x5a) || (0x61 <= b <= 0x7a) || b == 0x5f {
                let k = identifier_end(bytes, index);
                if index < k <= bytes.len() {
                    adapt_run(bytes, k, copied, Some(bytes[k - 1]), out, empties, segs, ins)
                } else {
                    (out, empties, segs, ins)
                }
            } else {
                adapt_run(bytes, index + 1, copied, Some(b), out, empties, segs, ins)
            }
        }
    }
}

/// A copied run of original bytes `start..end` appended at parser offset
/// `at`: a new run unless it is empty.
pub open spec fn copy_segments(segs: Seq<Segment>, at: int, start: int, end: int) -> Seq<Segment> {
    if start == end {
        segs
    } else {
        segs.push(Segment { parsed: at as usize, original: start as usize, copied: true })
    }
}

/// The parser input, marked `{}` positions, source-map runs and insertion
/// offsets that adapting `bytes` gives.
pub open spec fn adapted(bytes: Seq<u8>) -> (Seq<u8>, Seq<usize>, Seq<Segment>, Seq<usize>) {
    adapt_run(bytes, 0, 0, None, Seq::empty(), Seq::empty(), Seq::empty(), Seq::empty())
}

/// Rewrites GNU constructs that the C parser rejects: an empty `{}` is
/// inserted into otherwise unparseable compound literals `(type){ }` (in an
/// empty body it adds an empty nested block, which has no effect), and
/// attribute lists before a nested pointer declarator's `*` move after the
/// star. `check_asm` checks the qualifiers after each `asm` keyword, given the
/// keyword's end. The source map relates every parser byte to the original text.
/// Each edit lies at a distinct source byte and adds at most two bytes, so an
/// input of at most 100000 bytes, and at most a third of 16 MiB, is always
/// adapted where `check_asm` refuses nothing.
pub fn adapt<F: Fn(usize) -> Result<(), Error>>(source: &[u8], check_asm: F) -> (r: Result<Adapted, Error>)
    requires
        source@.len() < usize::MAX,
        forall|i: usize| check_asm.requires((i,)),
    ensures
        r matches Ok(a) ==> {
            &&& map_describes(a.offsets.segments@, source@, a.source@)
            &&& a.source@.len() <= MAX_ADAPTED_BYTES
            &&& a.source@.len() == source@.len() + 2 * a.offsets.insertions@.len()
            &&& insertions_sorted(a.offsets.insertions@)
            &&& forall|k: int| 0 <= k < a.empty_initializers@.len() ==> {
                let e = #[trigger] a.empty_initializers@[k];
                e + 2 <= a.source@.len() && a.source@[e as int] == 0x7b && a.source@[e + 1] == 0x7d
            }
        },
        r matches Ok(a) ==> (a.source@, a.empty_initializers@, a.offsets.segments@, a.offsets.insertions@) == adapted(source@),
        (forall|i: usize, e: Error| !#[trigger] check_asm.ensures((i,), Err::<(), Error>(e))) ==> (source@.len()
            <= MAX_ADAPTATIONS && 3 * source@.len() <= MAX_ADAPTED_BYTES ==> r is Ok),
{
    let n = source.len();
    let mut output: Vec<u8> = Vec::new();
    let mut segments: Vec<Segment> = Vec::new();
    let mut insertions: Vec<usize> = Vec::new();
    let mut empty_initializers: Vec<usize> = Vec::new();
    let mut index: usize = 0;
    let mut copied: usize = 0;
    let mut previous: Option<u8> = None;
    let mut adaptations: usize = 0;
    while index < n
        invariant
            n == source@.len(),
            n < usize::MAX,
            forall|i: usize| check_asm.requires((i,)),
            copied <= index <= n,
            adaptations <= MAX_ADAPTATIONS,
            adaptations <= index,
            insertions@.len() <= adaptations,
            adapted(source@) == adapt_run(source@, index as int, copied as int, previous, output@, empty_initializers@, segments@, insertions@),
            map_describes(segments@, source@, output@),
            output@.len() == copied + 2 * insertions@.len(),
            insertions_sorted(insertions@),
            forall|k: int| 0 <= k < insertions@.len() ==> insertions@[k] <= copied,
            forall|k: int| 0 <= k < empty_initializers@.len() ==> {
                let e = #[trigger] empty_initializers@[k];
                e + 2 <= output@.len() && output@[e as int] == 0x7b && output@[e + 1] == 0x7d
            },
        decreases n - index,
    {
        let b = source[index];
        if b == 0x20 || b == 0x09 || b == 0x0a || b == 0x0c || b == 0x0d {
            index = index + 1;
            continue;
        }
        if b == 0x27 || b == 0x22 {
            index = quoted_end(source, index);
            previous = None;
            continue;
        }
        if b == 0x7b && previous == Some(0x29u8) {
            let closing = skip_space(source, index + 1);
            proof {
                lemma_skip_space_ge(source@, index + 1);
            }
            if closing < n && source[closing] == 0x7d {
                check_adaptations(&mut adaptations, index)?;
                let ghost before = output@;
                copy_run(source, &mut output, &mut segments, copied, closing);
                let ghost middle = output@;
                let parsed = insert_braces(&mut output, &mut segments, &mut insertions, source, closing);
                empty_initializers.push(parsed);
                proof {
                    assert forall|k: int| 0 <= k < empty_initializers@.len() implies {
                        let e = #[trigger] empty_initializers@[k];
                        e + 2 <= output@.len() && output@[e as int] == 0x7b && output@[e + 1] == 0x7d
                    } by {
                        if k < empty_initializers@.len() - 1 {
                            let e = empty_initializers@[k];
                            assert(output@[e as int] == before[e as int]);
                            assert(output@[e + 1] == before[e + 1]);
                        }
                    }
                }
                copied = closing;
                index = closing + 1;
                previous = Some(0x7d);
                continue;
            }
        }
        if previous == Some(0x28u8) && attribute_end(source, index).is_some() {
            let start = index;
            let mut end = index;
            loop
                invariant
                    n == source@.len(),
                    n < usize::MAX,
                    start <= end <= n,
                    attributes_end(source@, start as int) == attributes_end(source@, end as int),
                ensures
                    start <= end <= n,
                    attributes_end(source@, start as int) == end,
                decreases n - end,
            {
                match attribute_end(source, end) {
                    Some(next) => {
                        proof {
                            lemma_paren_scan_bounds_attribute(source@, end as int);
                            lemma_skip_space_ge(source@, next as int);
                        }
                        end = skip_space(source, next);
                    },
                    None => {
                        break;
                    },
                }
            }
            if end < n && source[end] == 0x2a {
                check_adaptations(&mut adaptations, index)?;
                let ghost before = output@;
                let ghost grow = empty_initializers@;
                copy_run(source, &mut output, &mut segments, copied, start);
                copy_run(source, &mut output, &mut segments, end, end + 1);
                copy_run(source, &mut output, &mut segments, start, end);
                proof {
                    assert(output@ =~= before + source@.subrange(copied as int, start as int) + source@.subrange(
                        end as int,
                        end + 1,
                    ) + source@.subrange(start as int, end as int));
                    assert forall|k: int| 0 <= k < empty_initializers@.len() implies {
                        let e = #[trigger] empty_initializers@[k];
                        e + 2 <= output@.len() && output@[e as int] == 0x7b && output@[e + 1] == 0x7d
                    } by {
                        let e = empty_initializers@[k];
                        assert(output@[e as int] == before[e as int]);
                        assert(output@[e + 1] == before[e + 1]);
                    }
                }
                copied = end + 1;
                index = end + 1;
                previous = Some(0x2a);
                continue;
            }
        }
        if (0x41 <= b && b <= 0x5a) || (0x61 <= b && b <= 0x7a) || b == 0x5f {
            let start = index;
            while index < n && identifier_byte(source[index])
                invariant
                    n == source@.len(),
                    start < index <= n || index == start,
                    start <= index <= n,
                    identifier_end(source@, start as int) == identifier_end(source@, index as int),
                decreases n - index,
            {
                index = index + 1;
            }
            if is_asm_keyword(source, start, index) {
                check_asm(index)?;
            }
            previous = Some(source[index - 1]);
            continue;
        }
        previous = Some(b);
        index = index + 1;
    }
    let ghost before = output@;
    copy_run(source, &mut output, &mut segments, copied, n);
    let ghost segs = segments@;
    segments.push(Segment { parsed: output.len(), original: n, copied: true });
    proof {
        let after = segments@;
        assert forall|k: int| 0 <= k < after.len() implies run_matches(after, k, source@, output@) by {
            if k < segs.len() {
                assert(run_matches(segs, k, source@, output@));
                assert(segment_end(after, k, output@.len() as int) == segment_end(segs, k, output@.len() as int));
            }
        }
        assert forall|k: int| 0 <= k < empty_initializers@.len() implies {
            let e = #[trigger] empty_initializers@[k];
            e + 2 <= output@.len() && output@[e as int] == 0x7b && output@[e + 1] == 0x7d
        } by {
            let e = empty_initializers@[k];
            assert(output@[e as int] == before[e as int]);
            assert(output@[e + 1] == before[e + 1]);
        }
    }
    if output.len() > MAX_ADAPTED_BYTES {
        return Err(Error::new(0, "adapted parser input exceeds the 16 MiB limit"));
    }
    Ok(Adapted {
        source: output,
        offsets: SourceMap { segments, insertions },
        empty_initializers,
    })
}

/// An attribute specifier ends after it starts, within the input.
proof fn lemma_paren_scan_bounds_attribute(bytes: Seq<u8>, start: int)
    requires
        0 <= start,
    ensures
        attribute_end_spec(bytes, start) matches Some(e) ==> start < e <= bytes.len(),
{
    let length: int = if starts_with(bytes, start, attribute_word_long()) {
        13
    } else if starts_with(bytes, start, attribute_word()) {
        11
    } else {
        0
    };
    if length != 0 {
        let opening = skip_space_spec(bytes, start + length);
        lemma_skip_space_ge(bytes, start + length);
        if 0 <= opening < bytes.len() && bytes[opening] == 0x28 {
            let second = skip_space_spec(bytes, opening + 1);
            lemma_skip_space_ge(bytes, opening + 1);
            lemma_paren_scan_after(bytes, second + 1, 2);
        }
    }
}

/// In sorted segments, exactly the first `segments_before` start at or before `offset`.
proof fn lemma_segments_before_props(segments: Seq<Segment>, offset: usize)
    requires
        segments_sorted(segments),
    ensures
        0 <= segments_before(segments, offset) <= segments.len(),
        forall|i: int| 0 <= i < segments_before(segments, offset) ==> (#[trigger] segments[i]).parsed <= offset,
        forall|i: int| segments_before(segments, offset) <= i < segments.len() ==> (#[trigger] segments[i]).parsed > offset,
    decreases segments.len(),
{
    if segments.len() > 0 {
        let d = segments.drop_last();
        assert(segments_sorted(d));
        lemma_segments_before_props(d, offset);
        assert forall|i: int| 0 <= i < d.len() implies #[trigger] d[i] == segments[i] by {}
        if segments.last().parsed <= offset {
            assert forall|i: int| 0 <= i < d.len() implies (#[trigger] d[i]).parsed <= offset by {
                assert(segments[i].parsed <= segments[segments.len() - 1].parsed);
            }
            if segments_before(d, offset) < d.len() {
                let i = segments_before(d, offset);
                assert(d[i].parsed > offset);
            }
            assert(segments_before(segments, offset) == segments.len());
        } else {
            assert(segments_before(segments, offset) == segments_before(d, offset));
            assert forall|i: int| segments_before(segments, offset) <= i < segments.len() implies (#[trigger] segments[i]).parsed > offset by {
                if i < segments.len() - 1 {
                    assert(d[i].parsed > offset);
                }
            }
            assert forall|i: int| 0 <= i < segments_before(segments, offset) implies (#[trigger] segments[i]).parsed <= offset by {
                assert(d[i].parsed <= offset);
            }
        }
    }
}

} // verus!
