//! Decoding of C11 string and character literal tokens into code units.

use crate::error::Error;
use crate::ir::{IntegerKind, IntegerValue};
use crate::profile::{Compiler, Target};
use vstd::arithmetic::power2::{lemma2_to64, lemma_pow2_adds, lemma_pow2_pos, lemma_pow2_strictly_increases, pow2};
use vstd::prelude::*;
use vstd::utf8::{encode_scalar, has_width_1_encoding, is_scalar};

verus! {

/// The most source bytes that one literal, or one run of adjacent string
/// literals, may hold.
pub const MAX_LITERAL_BYTES: usize = 16777216;

/// The encoding selected by C11 string-literal prefixes and concatenation.
#[derive(Clone, Copy, Debug, PartialEq, Eq, Structural)]
pub enum StringEncoding {
    Ordinary,
    Utf8,
    Utf16,
    Utf32,
    Wide,
}

/// A C string object's code units, including its implicit terminating NUL.
/// Numeric escapes retain their code-unit values even when they do not form valid
/// Unicode. The target determines the width and signedness of wide characters.
#[derive(Clone, Debug)]
pub struct DecodedString {
    pub encoding: StringEncoding,
    pub element_type: IntegerKind,
    pub code_units: Vec<u32>,
}

/// The bytes of a string whose code units all fit in a byte.
pub open spec fn units_as_bytes(units: Seq<u32>) -> Option<Seq<u8>> {
    if forall|k: int| 0 <= k < units.len() ==> #[trigger] units[k] < 256 {
        Some(units.map_values(|u: u32| u as u8))
    } else {
        None
    }
}

impl DecodedString {
    /// Copies ordinary/UTF-8 code units as bytes, including the final NUL.
    /// Returns None for wide encodings or code units outside the byte range.
    pub fn to_bytes(&self) -> (r: Option<Vec<u8>>)
        ensures
            match r {
                Some(bytes) => (self.encoding == StringEncoding::Ordinary || self.encoding
                    == StringEncoding::Utf8) && units_as_bytes(self.code_units@) == Some(bytes@),
                None => !(self.encoding == StringEncoding::Ordinary || self.encoding
                    == StringEncoding::Utf8) || units_as_bytes(self.code_units@) is None,
            },
    {
        match self.encoding {
            StringEncoding::Ordinary | StringEncoding::Utf8 => {},
            _ => {
                return None;
            },
        }
        let mut bytes: Vec<u8> = Vec::new();
        let mut i: usize = 0;
        while i < self.code_units.len()
            invariant
                i <= self.code_units@.len(),
                forall|k: int| 0 <= k < i ==> #[trigger] self.code_units@[k] < 256,
                bytes@ =~= self.code_units@.subrange(0, i as int).map_values(|u: u32| u as u8),
            decreases self.code_units.len() - i,
        {
            let unit = self.code_units[i];
            if unit > 255 {
                return None;
            }
            bytes.push(unit as u8);
            i = i + 1;
        }
        proof {
            assert(self.code_units@.subrange(0, i as int) =~= self.code_units@);
        }
        Some(bytes)
    }
}

/// The character properties of a compiler profile that literal decoding reads.
#[derive(Clone, Copy, Debug, PartialEq, Eq, Structural)]
pub struct CharacterProfile {
    pub target: Target,
    pub compiler: Compiler,
    /// Whether plain `char` is signed.
    pub char_signed: bool,
    /// The width of `wchar_t` in bits: 16 or 32.
    pub wchar_width: u32,
    /// Whether `wchar_t` is signed.
    pub wchar_signed: bool,
}

/// A profile whose wide characters are 16 or 32 bits wide.
pub open spec fn profile_valid(profile: CharacterProfile) -> bool {
    profile.wchar_width == 16 || profile.wchar_width == 32
}

/// The integer type of one element of a literal in an encoding.
pub open spec fn element_type_spec(encoding: StringEncoding, profile: CharacterProfile) -> IntegerKind {
    match encoding {
        StringEncoding::Ordinary | StringEncoding::Utf8 => IntegerKind::Char,
        StringEncoding::Utf16 => IntegerKind::UnsignedShort,
        StringEncoding::Utf32 => IntegerKind::UnsignedInt,
        StringEncoding::Wide => if profile.wchar_width == 16 {
            IntegerKind::UnsignedShort
        } else if profile.target == Target::I686UnknownLinuxGnu && profile.compiler
            == Compiler::Gnu {
            IntegerKind::Long
        } else if profile.wchar_signed {
            IntegerKind::Int
        } else {
            IntegerKind::UnsignedInt
        },
    }
}

/// The integer type of one element of a literal in an encoding.
pub fn element_type(encoding: StringEncoding, profile: CharacterProfile) -> (r: IntegerKind)
    ensures
        r == element_type_spec(encoding, profile),
{
    match encoding {
        StringEncoding::Ordinary | StringEncoding::Utf8 => IntegerKind::Char,
        StringEncoding::Utf16 => IntegerKind::UnsignedShort,
        StringEncoding::Utf32 => IntegerKind::UnsignedInt,
        StringEncoding::Wide => {
            if profile.wchar_width == 16 {
                IntegerKind::UnsignedShort
            } else if profile.target == Target::I686UnknownLinuxGnu && profile.compiler
                == Compiler::Gnu {
                IntegerKind::Long
            } else if profile.wchar_signed {
                IntegerKind::Int
            } else {
                IntegerKind::UnsignedInt
            }
        },
    }
}

/// The width in bits of one code unit of an encoding.
pub open spec fn unit_width_spec(encoding: StringEncoding, profile: CharacterProfile) -> u32 {
    match encoding {
        StringEncoding::Ordinary | StringEncoding::Utf8 => 8,
        StringEncoding::Utf16 => 16,
        StringEncoding::Utf32 => 32,
        StringEncoding::Wide => profile.wchar_width,
    }
}

/// The width in bits of one code unit of an encoding.
pub fn unit_width(encoding: StringEncoding, profile: CharacterProfile) -> (r: u32)
    ensures
        r == unit_width_spec(encoding, profile),
{
    match encoding {
        StringEncoding::Ordinary | StringEncoding::Utf8 => 8,
        StringEncoding::Utf16 => 16,
        StringEncoding::Utf32 => 32,
        StringEncoding::Wide => profile.wchar_width,
    }
}

/// The value of a digit in radix 8 or 16, as `char::to_digit` gives it.
pub open spec fn digit_of(c: char, radix: u32) -> Option<u32> {
    let v = c as u32;
    if radix == 8 {
        if 0x30 <= v <= 0x37 {
            Some((v - 0x30) as u32)
        } else {
            None
        }
    } else if 0x30 <= v <= 0x39 {
        Some((v - 0x30) as u32)
    } else if 0x61 <= v <= 0x66 {
        Some((v - 0x61 + 10) as u32)
    } else if 0x41 <= v <= 0x46 {
        Some((v - 0x41 + 10) as u32)
    } else {
        None
    }
}

/// The number the digits `s[start..end]` spell in `radix`.
pub open spec fn digits_value(s: Seq<char>, start: int, end: int, radix: u32) -> nat
    decreases end - start,
{
    if end <= start {
        0
    } else {
        digits_value(s, start, end - 1, radix) * (radix as nat) + (digit_of(s[end - 1], radix).unwrap() as nat)
    }
}

/// Where a run of digits that starts at `k` ends, reading at most up to `limit`.
pub open spec fn run_end(s: Seq<char>, k: int, radix: u32, limit: int) -> int
    decreases limit - k,
{
    if k < limit && 0 <= k < s.len() && digit_of(s[k], radix) is Some {
        run_end(s, k + 1, radix, limit)
    } else {
        k
    }
}

/// The scalar a single-character escape denotes.
pub open spec fn simple_escape(e: char) -> Option<u32> {
    if e == '\\' {
        Some(0x5cu32)
    } else if e == '\'' {
        Some(0x27u32)
    } else if e == '"' {
        Some(0x22u32)
    } else if e == '?' {
        Some(0x3fu32)
    } else if e == 'a' {
        Some(0x07u32)
    } else if e == 'b' {
        Some(0x08u32)
    } else if e == 'e' || e == 'E' {
        Some(0x1bu32)
    } else if e == 'f' {
        Some(0x0cu32)
    } else if e == 'n' {
        Some(0x0au32)
    } else if e == 'r' {
        Some(0x0du32)
    } else if e == 't' {
        Some(0x09u32)
    } else if e == 'v' {
        Some(0x0bu32)
    } else {
        None
    }
}

/// The UTF-16 code units of a scalar.
pub open spec fn utf16_units(v: u32) -> Seq<u32> {
    if v < 0x10000 {
        seq![v]
    } else {
        seq![(0xD800 + (v - 0x10000) / 0x400) as u32, (0xDC00 + (v - 0x10000) % 0x400) as u32]
    }
}

/// The code units of a scalar in a unit width: UTF-8 bytes, UTF-16 units, or the
/// scalar itself. Under Clang a character constant rejects a character that
/// needs more than one byte.
pub open spec fn encode_units(v: u32, width: u32, quote: char, gnu: bool) -> Option<Seq<u32>> {
    if width == 8 {
        if quote == '\'' && !has_width_1_encoding(v) && !gnu {
            None
        } else {
            Some(encode_scalar(v).map_values(|b: u8| b as u32))
        }
    } else if width == 16 {
        Some(utf16_units(v))
    } else {
        Some(seq![v])
    }
}

/// A universal character name's value that C11 accepts.
pub open spec fn ucn_allowed(v: nat) -> bool {
    &&& v <= u32::MAX
    &&& is_scalar(v as u32)
    &&& (v >= 0xa0 || v == 0x24 || v == 0x40 || v == 0x60)
}

/// Whether `s[start..start + n]` are all hexadecimal digits.
pub open spec fn hex_run(s: Seq<char>, start: int, n: int) -> bool {
    &&& start + n <= s.len()
    &&& forall|j: int| start <= j < start + n ==> #[trigger] digit_of(s[j], 16) is Some
}

/// A numeric escape `\ooo` or `\xh...` at `s[i]`: its code unit and how many
/// more characters it spans. Octal escapes read at most three digits; the
/// value must fit in a code unit of `width` bits.
pub open spec fn numeric_escape_spec(s: Seq<char>, i: int, width: u32) -> Option<(u32, nat)> {
    let e = s[i + 1];
    let radix: u32 = if e == 'x' { 16 } else { 8 };
    let first = if e == 'x' { i + 2 } else { i + 1 };
    let limit = if e == 'x' { s.len() as int } else { i + 4 };
    let end = run_end(s, i + 2, radix, limit);
    let value = digits_value(s, first, end, radix);
    if end == first || value >= pow2(width as nat) {
        None
    } else {
        Some((value as u32, (end - i - 1) as nat))
    }
}

/// A universal character name `\uXXXX` or `\UXXXXXXXX` at `s[i]`: its scalar
/// and how many more characters it spans.
pub open spec fn ucn_spec(s: Seq<char>, i: int) -> Option<(u32, nat)> {
    let n: int = if s[i + 1] == 'u' { 4 } else { 8 };
    let value = digits_value(s, i + 2, i + 2 + n, 16);
    if hex_run(s, i + 2, n) && ucn_allowed(value) {
        Some((value as u32, (n + 1) as nat))
    } else {
        None
    }
}

/// The code units of the token at `s[i]` and how many more characters it
/// spans, or None when the token is invalid.
pub open spec fn token_at(s: Seq<char>, i: int, quote: char, width: u32, gnu: bool) -> Option<(Seq<u32>, nat)> {
    let c = s[i];
    if c == '\\' {
        if i + 1 >= s.len() {
            None
        } else {
            let e = s[i + 1];
            if simple_escape(e) is Some {
                match encode_units(simple_escape(e).unwrap(), width, quote, gnu) {
                    Some(u) => Some((u, 1nat)),
                    None => None,
                }
            } else if digit_of(e, 8) is Some || e == 'x' {
                match numeric_escape_spec(s, i, width) {
                    Some((v, extra)) => Some((seq![v], extra)),
                    None => None,
                }
            } else if e == 'u' || e == 'U' {
                match ucn_spec(s, i) {
                    Some((v, extra)) => match encode_units(v, width, quote, gnu) {
                        Some(u) => Some((u, extra)),
                        None => None,
                    },
                    None => None,
                }
            } else {
                None
            }
        }
    } else if c == quote || c == '\n' || c == '\r' || c == '\0' {
        None
    } else {
        match encode_units(c as u32, width, quote, gnu) {
            Some(u) => Some((u, 0nat)),
            None => None,
        }
    }
}

/// The code units of `s[i..]`, or None when a token there is invalid.
pub open spec fn decode_units(s: Seq<char>, i: int, quote: char, width: u32, gnu: bool) -> Option<Seq<u32>>
    decreases (if 0 <= i < s.len() { s.len() - i } else { 0 }),
{
    if i < 0 || i >= s.len() {
        Some(Seq::empty())
    } else {
        match token_at(s, i, quote, width, gnu) {
            None => None,
            Some((u, extra)) => match decode_units(s, i + extra + 1, quote, width, gnu) {
                None => None,
                Some(rest) => Some(u + rest),
            },
        }
    }
}

/// `units` followed by what `rest` decodes to.
pub open spec fn prepend(units: Seq<u32>, rest: Option<Seq<u32>>) -> Option<Seq<u32>> {
    match rest {
        Some(r) => Some(units + r),
        None => None,
    }
}

/// The value of a digit in radix 8 or 16.
fn digit(c: char, radix: u32) -> (r: Option<u32>)
    ensures
        r == digit_of(c, radix),
{
    let v = c as u32;
    if radix == 8 {
        if 0x30 <= v && v <= 0x37 {
            Some(v - 0x30)
        } else {
            None
        }
    } else if 0x30 <= v && v <= 0x39 {
        Some(v - 0x30)
    } else if 0x61 <= v && v <= 0x66 {
        Some(v - 0x61 + 10)
    } else if 0x41 <= v && v <= 0x46 {
        Some(v - 0x41 + 10)
    } else {
        None
    }
}

/// The scalar a single-character escape denotes.
fn simple(e: char) -> (r: Option<u32>)
    ensures
        r == simple_escape(e),
{
    match e {
        '\\' => Some(0x5c),
        '\'' => Some(0x27),
        '"' => Some(0x22),
        '?' => Some(0x3f),
        'a' => Some(0x07),
        'b' => Some(0x08),
        'e' | 'E' => Some(0x1b),
        'f' => Some(0x0c),
        'n' => Some(0x0a),
        'r' => Some(0x0d),
        't' => Some(0x09),
        'v' => Some(0x0b),
        _ => None,
    }
}

/// Appends a scalar's code units in a unit width, unless a character
/// constant cannot hold it.
fn push_encoded(v: u32, width: u32, quote: char, gnu: bool, output: &mut Vec<u32>) -> (ok: bool)
    requires
        is_scalar(v),
        width == 8 || width == 16 || width == 32,
    ensures
        ok == encode_units(v, width, quote, gnu) is Some,
        ok ==> final(output)@ == old(output)@ + encode_units(v, width, quote, gnu).unwrap(),
        !ok ==> final(output)@ == old(output)@,
{
    let ghost before = output@;
    if width == 8 {
        if quote == '\'' && v > 0x7f && !gnu {
            return false;
        }
        let ghost bytes = encode_scalar(v).map_values(|b: u8| b as u32);
        if v <= 0x7f {
            output.push(((v & 0x7F) as u8) as u32);
        } else if v <= 0x7ff {
            output.push((0xC0u8 | ((v >> 6) & 0x1F) as u8) as u32);
            output.push((0x80u8 | (v & 0x3F) as u8) as u32);
        } else if v <= 0xffff {
            output.push((0xE0u8 | ((v >> 12) & 0x0F) as u8) as u32);
            output.push((0x80u8 | ((v >> 6) & 0x3F) as u8) as u32);
            output.push((0x80u8 | (v & 0x3F) as u8) as u32);
        } else {
            output.push((0xF0u8 | ((v >> 18) & 0x7) as u8) as u32);
            output.push((0x80u8 | ((v >> 12) & 0x3F) as u8) as u32);
            output.push((0x80u8 | ((v >> 6) & 0x3F) as u8) as u32);
            output.push((0x80u8 | (v & 0x3F) as u8) as u32);
        }
        assert(output@ =~= before + bytes);
    } else if width == 16 {
        if v < 0x10000 {
            output.push(v);
        } else {
            output.push(0xD800 + (v - 0x10000) / 0x400);
            output.push(0xDC00 + (v - 0x10000) % 0x400);
        }
        assert(output@ =~= before + utf16_units(v));
    } else {
        output.push(v);
        assert(output@ =~= before + seq![v]);
    }
    true
}

/// Reading more digits never lowers the value.
proof fn lemma_digits_monotone(s: Seq<char>, start: int, a: int, b: int, radix: u32)
    requires
        start <= a <= b,
        radix >= 1,
    ensures
        digits_value(s, start, a, radix) <= digits_value(s, start, b, radix),
    decreases b - a,
{
    if a < b {
        lemma_digits_monotone(s, start, a, b - 1, radix);
        let v = digits_value(s, start, b - 1, radix);
        assert(v * (radix as nat) >= v) by (nonlinear_arith)
            requires
                radix >= 1,
        ;
    }
}

/// `prepend` composes.
proof fn lemma_prepend_assoc(a: Seq<u32>, b: Seq<u32>, rest: Option<Seq<u32>>)
    ensures
        prepend(a, prepend(b, rest)) == prepend(a + b, rest),
{
    if let Some(r) = rest {
        assert(a + (b + r) =~= (a + b) + r);
    }
}

/// Reads a numeric escape whose backslash is at `body[i]`.
#[verifier::spinoff_prover]
fn numeric_escape(body: &[char], i: usize, width: u32, offset: usize) -> (r: Result<(u32, usize), Error>)
    requires
        i + 1 < body@.len(),
        digit_of(body@[i + 1], 8) is Some || body@[i + 1] == 'x',
        width == 8 || width == 16 || width == 32,
    ensures
        match r {
            Ok((v, next)) => numeric_escape_spec(body@, i as int, width) == Some((v, (next - i - 1) as nat))
                && i < next <= body@.len(),
            Err(_) => numeric_escape_spec(body@, i as int, width) is None,
        },
{
    let ghost s = body@;
    let n = body.len();
    let e = body[i + 1];
    let hex = e == 'x';
    let radix: u32 = if hex { 16 } else { 8 };
    let ghost first: int = if hex { i + 2 } else { i + 1 };
    let ghost spec_limit: int = if hex { n as int } else { i + 4 };
    let limit: usize = if hex { n } else if n - i > 4 { i + 4 } else { n };
    let mut value: u32 = if hex { 0 } else { digit(e, 8).unwrap() };
    let mut k: usize = i + 2;
    while k < limit && digit(body[k], radix).is_some()
        invariant
            s == body@,
            n == s.len(),
            e == s[i + 1],
            hex == (e == 'x'),
            width == 8 || width == 16 || width == 32,
            i + 2 <= k <= limit <= n,
            hex ==> limit == n && first == i + 2 && radix == 16 && spec_limit == n,
            !hex ==> first == i + 1 && radix == 8 && spec_limit == i + 4 && limit == (if spec_limit
                < n { spec_limit } else { n as int }),
            run_end(s, i + 2, radix, spec_limit) == run_end(s, k as int, radix, spec_limit),
            value == digits_value(s, first, k as int, radix),
        decreases limit - k,
    {
        let d = digit(body[k], radix).unwrap();
        let m = value.checked_mul(radix);
        let sum = match m {
            Some(m) => m.checked_add(d),
            None => None,
        };
        match sum {
            Some(next_value) => {
                value = next_value;
            },
            None => {
                proof {
                    let end = run_end(s, k as int, radix, spec_limit);
                    lemma_run_end_ge(s, k + 1, radix, spec_limit);
                    lemma_digits_monotone(s, first, k + 1, end, radix);
                    lemma_pow2_width(width);
                }
                return Err(Error::new(offset, "numeric escape exceeds the code-unit range"));
            },
        }
        k = k + 1;
    }
    if hex && k == i + 2 {
        return Err(Error::new(offset, "hexadecimal escape requires a digit"));
    }
    proof {
        lemma_pow2_width(width);
        vstd::bits::lemma_u64_shl_is_mul(1, width as u64);
        lemma_pow2_le_64(width as nat);
    }
    if value as u64 >= (1u64 << width) {
        return Err(Error::new(offset, "numeric escape exceeds the code-unit range"));
    }
    Ok((value, k))
}

/// Reads a universal character name whose backslash is at `body[i]`.
fn universal_character(body: &[char], i: usize, offset: usize) -> (r: Result<(u32, usize), Error>)
    requires
        i + 1 < body@.len(),
        body@[i + 1] == 'u' || body@[i + 1] == 'U',
    ensures
        match r {
            Ok((v, next)) => ucn_spec(body@, i as int) == Some((v, (next - i - 1) as nat)) && i
                < next <= body@.len() && is_scalar(v),
            Err(_) => ucn_spec(body@, i as int) is None,
        },
{
    let ghost s = body@;
    let n = body.len();
    let count: usize = if body[i + 1] == 'u' { 4 } else { 8 };
    if n - i - 2 < count {
        return Err(Error::new(offset, "invalid universal character name"));
    }
    let mut value: u32 = 0;
    let mut j: usize = 0;
    proof {
        lemma2_to64();
    }
    while j < count
        invariant
            s == body@,
            n == s.len(),
            count == (if s[i + 1] == 'u' { 4usize } else { 8usize }),
            i + 2 + count <= n,
            j <= count,
            value == digits_value(s, i + 2, i + 2 + j, 16),
            value < pow2(4 * j as nat),
            forall|jj: int| i + 2 <= jj < i + 2 + j ==> #[trigger] digit_of(s[jj], 16) is Some,
        decreases count - j,
    {
        match digit(body[i + 2 + j], 16) {
            Some(d) => {
                proof {
                    lemma_pow2_adds(4 * j as nat, 4);
                    lemma2_to64();
                    lemma_pow2_le_32(4 * (j + 1) as nat);
                    assert(value * 16 + d < pow2(4 * (j + 1) as nat)) by (nonlinear_arith)
                        requires
                            value < pow2(4 * j as nat),
                            d < 16,
                            pow2(4 * (j + 1) as nat) == pow2(4 * j as nat) * 16,
                    ;
                }
                value = value * 16 + d;
            },
            None => {
                proof {
                    assert(!hex_run(s, i + 2, count as int));
                }
                return Err(Error::new(offset, "invalid universal character name"));
            },
        }
        j = j + 1;
    }
    let scalar = value < 0xD800 || (0xE000 <= value && value <= 0x10FFFF);
    if !(scalar && (value >= 0xa0 || value == 0x24 || value == 0x40 || value == 0x60)) {
        return Err(Error::new(offset, "invalid universal character name"));
    }
    Ok((value, i + 2 + count))
}

/// Decodes the token at `body[i]`, appending its code units, and returns
/// where the next token starts.
fn decode_token(
    body: &[char],
    i: usize,
    quote: char,
    width: u32,
    gnu: bool,
    offset: usize,
    output: &mut Vec<u32>,
) -> (r: Result<usize, Error>)
    requires
        i < body@.len(),
        width == 8 || width == 16 || width == 32,
    ensures
        final(output)@.len() >= old(output)@.len(),
        final(output)@.subrange(0, old(output)@.len() as int) == old(output)@,
        match r {
            Ok(next) => token_at(body@, i as int, quote, width, gnu) == Some(
                (
                    final(output)@.subrange(old(output)@.len() as int, final(output)@.len() as int),
                    (next - i - 1) as nat,
                ),
            ) && i < next <= body@.len(),
            Err(_) => token_at(body@, i as int, quote, width, gnu) is None,
        },
{
    let ghost before = output@;
    let n = body.len();
    let c = body[i];
    let next: usize;
    if c == '\\' {
        if i + 1 >= n {
            return Err(Error::new(offset, "incomplete literal escape"));
        }
        let e = body[i + 1];
        if let Some(v) = simple(e) {
            if !push_encoded(v, width, quote, gnu, output) {
                return Err(Error::new(offset, "character is not representable in one execution byte"));
            }
            next = i + 2;
        } else if digit(e, 8).is_some() || e == 'x' {
            let (v, k) = numeric_escape(body, i, width, offset)?;
            output.push(v);
            next = k;
        } else if e == 'u' || e == 'U' {
            let (v, k) = universal_character(body, i, offset)?;
            if !push_encoded(v, width, quote, gnu, output) {
                return Err(Error::new(offset, "character is not representable in one execution byte"));
            }
            next = k;
        } else {
            return Err(Error::new(offset, "unsupported literal escape"));
        }
    } else {
        if c == quote || c == '\n' || c == '\r' || c == '\0' {
            return Err(Error::new(offset, "unescaped quote, newline, or NUL in literal"));
        }
        proof {
            vstd::utf8::char_is_scalar(c);
        }
        if !push_encoded(c as u32, width, quote, gnu, output) {
            return Err(Error::new(offset, "character is not representable in one execution byte"));
        }
        next = i + 1;
    }
    proof {
        assert(output@.subrange(0, before.len() as int) =~= before);
        let units = output@.subrange(before.len() as int, output@.len() as int);
        if c == '\\' && !(simple_escape(body@[i + 1]) is Some) && (digit_of(body@[i + 1], 8) is Some
            || body@[i + 1] == 'x') {
            assert(units =~= seq![output@.last()]);
        } else {
            assert(output@ =~= before + units);
        }
    }
    Ok(next)
}

/// Decodes a literal body's characters into code units of `width` bits,
/// appending them to `output`. Numeric escapes denote code units; source
/// characters and universal character names denote scalars that are encoded.
pub fn decode_body(
    body: &[char],
    quote: char,
    width: u32,
    gnu: bool,
    offset: usize,
    output: &mut Vec<u32>,
) -> (r: Result<(), Error>)
    requires
        width == 8 || width == 16 || width == 32,
    ensures
        r is Ok <==> decode_units(body@, 0, quote, width, gnu) is Some,
        r is Ok ==> final(output)@ == old(output)@ + decode_units(body@, 0, quote, width, gnu).unwrap(),
        final(output)@.len() >= old(output)@.len(),
        final(output)@.subrange(0, old(output)@.len() as int) == old(output)@,
{
    let ghost s = body@;
    let ghost base = output@;
    let n = body.len();
    let mut i: usize = 0;
    proof {
        assert(output@.subrange(base.len() as int, output@.len() as int) =~= Seq::<u32>::empty());
        match decode_units(s, 0, quote, width, gnu) {
            Some(all) => {
                assert(Seq::<u32>::empty() + all =~= all);
            },
            None => {},
        }
        assert(output@.subrange(0, base.len() as int) =~= base);
    }
    while i < n
        invariant
            s == body@,
            n == s.len(),
            width == 8 || width == 16 || width == 32,
            i <= n,
            base == old(output)@,
            output@.len() >= base.len(),
            output@.subrange(0, base.len() as int) == base,
            decode_units(s, 0, quote, width, gnu) == prepend(
                output@.subrange(base.len() as int, output@.len() as int),
                decode_units(s, i as int, quote, width, gnu),
            ),
        decreases n - i,
    {
        let ghost produced = output@.subrange(base.len() as int, output@.len() as int);
        let ghost before = output@;
        let next = match decode_token(body, i, quote, width, gnu, offset, output) {
            Ok(next) => next,
            Err(error) => {
                proof {
                    assert(output@.subrange(0, base.len() as int) =~= output@.subrange(0, before.len() as int).subrange(0, base.len() as int));
                }
                return Err(error);
            },
        };
        proof {
            let units = output@.subrange(before.len() as int, output@.len() as int);
            assert(decode_units(s, i as int, quote, width, gnu) == prepend(units, decode_units(s, next as int, quote, width, gnu)));
            lemma_prepend_assoc(produced, units, decode_units(s, next as int, quote, width, gnu));
            assert(output@.subrange(base.len() as int, output@.len() as int) =~= produced + units);
            assert(output@.subrange(0, base.len() as int) =~= output@.subrange(0, before.len() as int).subrange(0, base.len() as int));
        }
        i = next;
    }
    proof {
        assert(output@ =~= base + output@.subrange(base.len() as int, output@.len() as int));
        assert(output@.subrange(base.len() as int, output@.len() as int) + Seq::<u32>::empty() =~= output@.subrange(base.len() as int, output@.len() as int));
    }
    Ok(())
}

proof fn lemma_run_end_ge(s: Seq<char>, k: int, radix: u32, limit: int)
    ensures
        run_end(s, k, radix, limit) >= k,
    decreases limit - k,
{
    if k < limit && 0 <= k < s.len() && digit_of(s[k], radix) is Some {
        lemma_run_end_ge(s, k + 1, radix, limit);
    }
}

proof fn lemma_pow2_width(width: u32)
    requires
        width == 8 || width == 16 || width == 32,
    ensures
        pow2(width as nat) <= pow2(32),
        pow2(32) == 0x1_0000_0000,
{
    lemma2_to64();
    if width < 32 {
        lemma_pow2_strictly_increases(width as nat, 32);
    }
}

proof fn lemma_pow2_le_32(e: nat)
    requires
        e <= 32,
    ensures
        pow2(e) <= 0x1_0000_0000,
{
    lemma2_to64();
    if e < 32 {
        lemma_pow2_strictly_increases(e, 32);
    }
}

proof fn lemma_pow2_le_64(e: nat)
    requires
        e <= 32,
    ensures
        pow2(e) < 0x1_0000_0000_0000_0000,
{
    lemma_pow2_le_32(e);
}

/// The encoding prefix of a literal token and how many characters it spans.
pub open spec fn literal_prefix(literal: Seq<char>) -> (StringEncoding, int) {
    if literal.len() >= 2 && literal[0] == 'u' && literal[1] == '8' {
        (StringEncoding::Utf8, 2)
    } else if literal.len() >= 1 && literal[0] == 'u' {
        (StringEncoding::Utf16, 1)
    } else if literal.len() >= 1 && literal[0] == 'U' {
        (StringEncoding::Utf32, 1)
    } else if literal.len() >= 1 && literal[0] == 'L' {
        (StringEncoding::Wide, 1)
    } else {
        (StringEncoding::Ordinary, 0)
    }
}

/// A literal token's encoding and the bounds of its body between the quotes.
pub open spec fn literal_parts(literal: Seq<char>, quote: char) -> Option<(StringEncoding, int, int)> {
    let (encoding, p) = literal_prefix(literal);
    if literal.len() - p >= 2 && literal[p] == quote && literal[literal.len() - 1] == quote {
        Some((encoding, p + 1, literal.len() - 1))
    } else {
        None
    }
}

/// Splits a literal token into its encoding prefix and the bounds of its body.
pub fn literal_body(literal: &[char], quote: char, offset: usize) -> (r: Result<(StringEncoding, usize, usize), Error>)
    ensures
        match r {
            Ok((encoding, start, end)) => literal_parts(literal@, quote) == Some(
                (encoding, start as int, end as int),
            ),
            Err(_) => literal_parts(literal@, quote) is None,
        },
{
    let n = literal.len();
    let (encoding, p): (StringEncoding, usize) = if n >= 2 && literal[0] == 'u' && literal[1] == '8' {
        (StringEncoding::Utf8, 2)
    } else if n >= 1 && literal[0] == 'u' {
        (StringEncoding::Utf16, 1)
    } else if n >= 1 && literal[0] == 'U' {
        (StringEncoding::Utf32, 1)
    } else if n >= 1 && literal[0] == 'L' {
        (StringEncoding::Wide, 1)
    } else {
        (StringEncoding::Ordinary, 0)
    };
    if n - p >= 2 && literal[p] == quote && literal[n - 1] == quote {
        Ok((encoding, p + 1, n - 1))
    } else {
        Err(Error::new(offset, "invalid string or character literal"))
    }
}

/// The characters of `s[start..end]`.
fn slice_chars(s: &[char], start: usize, end: usize) -> (r: Vec<char>)
    requires
        start <= end <= s@.len(),
    ensures
        r@ == s@.subrange(start as int, end as int),
{
    let mut r: Vec<char> = Vec::new();
    let mut i: usize = start;
    while i < end
        invariant
            start <= i <= end <= s@.len(),
            r@ == s@.subrange(start as int, i as int),
        decreases end - i,
    {
        r.push(s[i]);
        i = i + 1;
    }
    r
}

/// The encoding of adjacent literals: unprefixed literals take any other
/// prefix, and two different prefixes are incompatible. None when a token is
/// not a string literal or prefixes conflict.
pub open spec fn combined_encoding(literals: Seq<Seq<char>>) -> Option<StringEncoding>
    decreases literals.len(),
{
    if literals.len() == 0 {
        Some(StringEncoding::Ordinary)
    } else {
        match (combined_encoding(literals.drop_last()), literal_parts(literals.last(), '"')) {
            (Some(encoding), Some((prefix, _, _))) => if prefix == StringEncoding::Ordinary {
                Some(encoding)
            } else if encoding != StringEncoding::Ordinary && encoding != prefix {
                None
            } else {
                Some(prefix)
            },
            _ => None,
        }
    }
}

/// The body of a string literal token.
pub open spec fn string_body(literal: Seq<char>) -> Seq<char> {
    let (_, start, end) = literal_parts(literal, '"').unwrap();
    literal.subrange(start, end)
}

/// The code units of adjacent string literals' bodies, concatenated.
pub open spec fn decoded_strings(literals: Seq<Seq<char>>, width: u32, gnu: bool) -> Option<Seq<u32>>
    decreases literals.len(),
{
    if literals.len() == 0 {
        Some(Seq::empty())
    } else {
        match (
            decoded_strings(literals.drop_last(), width, gnu),
            decode_units(string_body(literals.last()), 0, '"', width, gnu),
        ) {
            (Some(before), Some(last)) => Some(before + last),
            _ => None,
        }
    }
}

/// The UTF-8 source bytes of the first `n` tokens, each length as `str::len` reports it.
pub open spec fn source_bytes(strings: Seq<String>, n: int) -> nat
    decreases n,
{
    if n <= 0 || n > strings.len() {
        0
    } else {
        source_bytes(strings, n - 1) + (vstd::utf8::encode_utf8(strings[n - 1]@).len() as usize) as nat
    }
}

proof fn lemma_source_bytes_monotone(strings: Seq<String>, a: int, b: int)
    requires
        0 <= a <= b <= strings.len(),
    ensures
        source_bytes(strings, a) <= source_bytes(strings, b),
    decreases b - a,
{
    if a < b {
        lemma_source_bytes_monotone(strings, a, b - 1);
    }
}

/// The characters of each token.
pub open spec fn token_views(strings: Seq<String>) -> Seq<Seq<char>> {
    strings.map_values(|s: String| s@)
}

/// When adjacent string literals decode, and what they decode to: their
/// code units in the combined encoding, followed by a terminating NUL.
pub open spec fn decoded_string_spec(strings: Seq<String>, profile: CharacterProfile) -> Option<DecodedStringView> {
    let literals = token_views(strings);
    if strings.len() == 0 || source_bytes(strings, strings.len() as int) > MAX_LITERAL_BYTES {
        None
    } else {
        match combined_encoding(literals) {
            None => None,
            Some(encoding) => match decoded_strings(
                literals,
                unit_width_spec(encoding, profile),
                profile.compiler == Compiler::Gnu,
            ) {
                None => None,
                Some(units) => Some(
                    DecodedStringView {
                        encoding,
                        element_type: element_type_spec(encoding, profile),
                        code_units: units.push(0),
                    },
                ),
            },
        }
    }
}

/// The contents of a decoded string.
pub struct DecodedStringView {
    pub encoding: StringEncoding,
    pub element_type: IntegerKind,
    pub code_units: Seq<u32>,
}

impl DecodedString {
    pub open spec fn view_spec(&self) -> DecodedStringView {
        DecodedStringView {
            encoding: self.encoding,
            element_type: self.element_type,
            code_units: self.code_units@,
        }
    }
}

/// Decodes adjacent preprocessed C11 string tokens with the profile's
/// character types, using UTF-8 for the execution character set.
/// `offset` anchors diagnostics in the caller's source.
pub fn decode_string_literals_with_profile(
    strings: &[String],
    profile: CharacterProfile,
    offset: usize,
) -> (r: Result<DecodedString, Error>)
    requires
        profile_valid(profile),
    ensures
        match r {
            Ok(d) => decoded_string_spec(strings@, profile) == Some(d.view_spec()),
            Err(_) => decoded_string_spec(strings@, profile) is None,
        },
{
    if strings.len() == 0 {
        return Err(Error::new(offset, "expected a string literal"));
    }
    let ghost literals = token_views(strings@);
    let mut bytes: usize = 0;
    let mut encoding = StringEncoding::Ordinary;
    let mut i: usize = 0;
    while i < strings.len()
        invariant
            literals == token_views(strings@),
            i <= strings@.len(),
            bytes == source_bytes(strings@, i as int),
            bytes <= MAX_LITERAL_BYTES,
            combined_encoding(literals.subrange(0, i as int)) == Some(encoding),
        decreases strings.len() - i,
    {
        proof {
            assert(literals.subrange(0, i + 1).drop_last() =~= literals.subrange(0, i as int));
        }
        bytes = bytes.saturating_add(strings[i].as_str().len());
        if bytes > MAX_LITERAL_BYTES {
            proof {
                lemma_source_bytes_monotone(strings@, i + 1, strings@.len() as int);
            }
            return Err(Error::new(offset, "string literals exceed the 16 MiB limit"));
        }
        let text = crate::text::chars(strings[i].as_str());
        let (prefix, _, _) = match literal_body(text.as_slice(), '"', offset) {
            Ok(parts) => parts,
            Err(error) => {
                proof {
                    lemma_combined_prefix(literals, i + 1);
                }
                return Err(error);
            },
        };
        if prefix != StringEncoding::Ordinary {
            if encoding != StringEncoding::Ordinary && encoding != prefix {
                proof {
                    lemma_combined_prefix(literals, i + 1);
                }
                return Err(Error::new(offset, "incompatible adjacent string literal prefixes"));
            }
            encoding = prefix;
        }
        i = i + 1;
    }
    proof {
        assert(literals.subrange(0, i as int) =~= literals);
    }
    let width = unit_width(encoding, profile);
    let gnu = match profile.compiler {
        Compiler::Gnu => true,
        Compiler::Clang => false,
    };
    let mut code_units: Vec<u32> = Vec::new();
    let mut i: usize = 0;
    while i < strings.len()
        invariant
            literals == token_views(strings@),
            combined_encoding(literals) == Some(encoding),
            width == unit_width_spec(encoding, profile),
            width == 8 || width == 16 || width == 32,
            gnu == (profile.compiler == Compiler::Gnu),
            i <= strings@.len(),
            decoded_strings(literals.subrange(0, i as int), width, gnu) == Some(code_units@),
        decreases strings.len() - i,
    {
        proof {
            assert(literals.subrange(0, i + 1).drop_last() =~= literals.subrange(0, i as int));
            lemma_combined_all_parse(literals, i as int);
        }
        let text = crate::text::chars(strings[i].as_str());
        let (_, start, end) = literal_body(text.as_slice(), '"', offset)?;
        let body = slice_chars(text.as_slice(), start, end);
        let ghost before = code_units@;
        match decode_body(body.as_slice(), '"', width, gnu, offset, &mut code_units) {
            Ok(()) => {},
            Err(error) => {
                proof {
                    lemma_decoded_prefix_none(literals, i + 1, width, gnu);
                }
                return Err(error);
            },
        }
        i = i + 1;
    }
    proof {
        assert(literals.subrange(0, i as int) =~= literals);
    }
    code_units.push(0);
    Ok(DecodedString { encoding, element_type: element_type(encoding, profile), code_units })
}

/// A token that fails to parse, or prefixes that conflict, fail the whole run.
proof fn lemma_combined_prefix(literals: Seq<Seq<char>>, k: int)
    requires
        0 <= k <= literals.len(),
        combined_encoding(literals.subrange(0, k)) is None,
    ensures
        combined_encoding(literals) is None,
    decreases literals.len() - k,
{
    if k < literals.len() {
        assert(literals.subrange(0, k + 1).drop_last() =~= literals.subrange(0, k));
        lemma_combined_prefix(literals, k + 1);
    } else {
        assert(literals.subrange(0, k) =~= literals);
    }
}

/// When adjacent literals combine, every token is a string literal.
proof fn lemma_combined_all_parse(literals: Seq<Seq<char>>, k: int)
    requires
        0 <= k < literals.len(),
        combined_encoding(literals) is Some,
    ensures
        literal_parts(literals[k], '"') is Some,
    decreases literals.len(),
{
    if k < literals.len() - 1 {
        lemma_combined_all_parse(literals.drop_last(), k);
    }
}

/// A body that fails to decode fails the whole run.
proof fn lemma_decoded_prefix_none(literals: Seq<Seq<char>>, k: int, width: u32, gnu: bool)
    requires
        0 <= k <= literals.len(),
        decoded_strings(literals.subrange(0, k), width, gnu) is None,
    ensures
        decoded_strings(literals, width, gnu) is None,
    decreases literals.len() - k,
{
    if k < literals.len() {
        assert(literals.subrange(0, k + 1).drop_last() =~= literals.subrange(0, k));
        lemma_decoded_prefix_none(literals, k + 1, width, gnu);
    } else {
        assert(literals.subrange(0, k) =~= literals);
    }
}

/// Multicharacter constants shift each code unit into the low byte of a
/// 32-bit accumulator, as GCC and Clang evaluate them.
pub open spec fn multichar_value(units: Seq<u32>) -> u32
    decreases units.len(),
{
    if units.len() == 0 {
        0
    } else {
        (multichar_value(units.drop_last()) << 8u32) | units.last()
    }
}

/// A signed 32-bit `int` holding the low 32 bits of `x`.
pub open spec fn int_value(x: int) -> IntegerValue {
    IntegerValue { value: (x % pow2(32) as int) as u128, bits: 32, signed: true, rank: 3 }
}

/// The width, signedness and rank of a wide character constant's type.
pub open spec fn wide_shape(kind: IntegerKind) -> (u8, bool, u8) {
    match kind {
        IntegerKind::UnsignedShort => (16, false, 2),
        IntegerKind::Int => (32, true, 3),
        IntegerKind::Long => (32, true, 4),
        _ => (32, false, 3),
    }
}

/// The value of a character constant token, or None when it is rejected.
pub open spec fn character_value_spec(literal: Seq<char>, profile: CharacterProfile) -> Option<IntegerValue> {
    let gnu = profile.compiler == Compiler::Gnu;
    if (vstd::utf8::encode_utf8(literal).len() as usize) > MAX_LITERAL_BYTES {
        None
    } else {
        match literal_parts(literal, '\'') {
            None => None,
            Some((encoding, start, end)) => if encoding == StringEncoding::Utf8 {
                None
            } else {
                match decode_units(
                    literal.subrange(start, end),
                    0,
                    '\'',
                    unit_width_spec(encoding, profile),
                    gnu,
                ) {
                    None => None,
                    Some(units) => if units.len() == 0 {
                        None
                    } else if encoding == StringEncoding::Ordinary {
                        if units.len() == 1 {
                            Some(
                                int_value(
                                    if profile.char_signed {
                                        ((units[0] as u8) as i8) as int
                                    } else {
                                        (units[0] as u8) as int
                                    },
                                ),
                            )
                        } else {
                            Some(int_value((multichar_value(units) as i32) as int))
                        }
                    } else if units.len() != 1 && !gnu {
                        None
                    } else {
                        let (bits, signed, rank) = wide_shape(element_type_spec(encoding, profile));
                        Some(
                            IntegerValue {
                                value: (units.last() as nat % pow2(bits as nat)) as u128,
                                bits,
                                signed,
                                rank,
                            },
                        )
                    },
                }
            },
        }
    }
}

/// Evaluates a C11 character token under the profile's execution character
/// rules. GNU retains GCC's implementation-defined multicharacter values; the
/// Clang profiles reject wide characters that require more than one code unit.
pub fn decode_character_literal_with_profile(
    literal: &str,
    profile: CharacterProfile,
    offset: usize,
) -> (r: Result<IntegerValue, Error>)
    requires
        profile_valid(profile),
    ensures
        match r {
            Ok(v) => character_value_spec(literal@, profile) == Some(v),
            Err(_) => character_value_spec(literal@, profile) is None,
        },
{
    let gnu = match profile.compiler {
        Compiler::Gnu => true,
        Compiler::Clang => false,
    };
    if literal.len() > MAX_LITERAL_BYTES {
        return Err(Error::new(offset, "character literal exceeds the 16 MiB limit"));
    }
    let text = crate::text::chars(literal);
    let (encoding, start, end) = literal_body(text.as_slice(), '\'', offset)?;
    if encoding == StringEncoding::Utf8 {
        return Err(Error::new(offset, "UTF-8 character literals are not part of C11"));
    }
    let body = slice_chars(text.as_slice(), start, end);
    let width = unit_width(encoding, profile);
    let mut units: Vec<u32> = Vec::new();
    decode_body(body.as_slice(), '\'', width, gnu, offset, &mut units)?;
    proof {
        assert(units@ =~= decode_units(body@, 0, '\'', width, gnu).unwrap());
    }
    if units.len() == 0 {
        return Err(Error::new(offset, "empty character constant"));
    }
    if encoding == StringEncoding::Ordinary {
        if units.len() == 1 {
            let byte = units[0] as u8;
            let value: i128 = if profile.char_signed {
                (byte as i8) as i128
            } else {
                byte as i128
            };
            return Ok(IntegerValue::from_int(value));
        }
        let mut value: u32 = 0;
        let mut k: usize = 0;
        while k < units.len()
            invariant
                k <= units@.len(),
                value == multichar_value(units@.subrange(0, k as int)),
            decreases units.len() - k,
        {
            proof {
                assert(units@.subrange(0, k + 1).drop_last() =~= units@.subrange(0, k as int));
            }
            value = value.wrapping_shl(8) | units[k];
            k = k + 1;
        }
        proof {
            assert(units@.subrange(0, k as int) =~= units@);
        }
        return Ok(IntegerValue::from_int((value as i32) as i128));
    }
    if units.len() != 1 && !gnu {
        return Err(Error::new(offset, "wide character constant requires exactly one code unit"));
    }
    let value = units[units.len() - 1] as u128;
    let (bits, signed, rank): (u8, bool, u8) = match element_type(encoding, profile) {
        IntegerKind::UnsignedShort => (16, false, 2),
        IntegerKind::Int => (32, true, 3),
        IntegerKind::Long => (32, true, 4),
        _ => (32, false, 3),
    };
    Ok(IntegerValue::new(value, bits, signed, rank))
}


/// Each simple escape sequence denotes the character C11 6.4.4.4 gives it:
/// `\\`, `\'`, `\"` and `\?` the character escaped, `\a` alert, `\b`
/// backspace, `\f` form feed, `\n` new line, `\r` carriage return, `\t`
/// horizontal tab, `\v` vertical tab, and GNU `\e` / `\E` escape; no other
/// letter is a simple escape.
pub proof fn lemma_simple_escapes_name_their_characters(e: char)
    ensures
        simple_escape(e) is Some <==> (e == '\\' || e == '\'' || e == '"' || e == '?' || e == 'a' || e == 'b'
            || e == 'e' || e == 'E' || e == 'f' || e == 'n' || e == 'r' || e == 't' || e == 'v'),
        (e == '\\' || e == '\'' || e == '"' || e == '?') ==> simple_escape(e) == Some(e as u32),
        e == 'a' ==> simple_escape(e) == Some('\u{7}' as u32),
        e == 'b' ==> simple_escape(e) == Some('\u{8}' as u32),
        e == 'f' ==> simple_escape(e) == Some('\u{c}' as u32),
        e == 'n' ==> simple_escape(e) == Some('\n' as u32),
        e == 'r' ==> simple_escape(e) == Some('\r' as u32),
        e == 't' ==> simple_escape(e) == Some('\t' as u32),
        e == 'v' ==> simple_escape(e) == Some('\u{b}' as u32),
        (e == 'e' || e == 'E') ==> simple_escape(e) == Some('\u{1b}' as u32),
{
}


/// A simple escape in a literal of 32-bit units decodes to exactly one
/// unit, the value of the character it names.
pub proof fn lemma_simple_escape_decodes_to_its_character(e: char, gnu: bool)
    requires
        simple_escape(e) is Some,
    ensures
        decode_units(seq!['\\', e], 0, '"', 32, gnu) == Some(seq![simple_escape(e)->Some_0]),
{
    let s = seq!['\\', e];
    assert(token_at(s, 0, '"', 32, gnu) == Some((seq![simple_escape(e)->Some_0], 1nat)));
    assert(decode_units(s, 2, '"', 32, gnu) == Some(Seq::<u32>::empty()));
    assert(seq![simple_escape(e)->Some_0] + Seq::<u32>::empty() =~= seq![simple_escape(e)->Some_0]);
}


/// UTF-16 code units decode back to the scalar they encode: a scalar below
/// 0x10000 is one unit holding it, and any other is a high surrogate and a
/// low surrogate whose ten-bit payloads, above 0x10000, spell it.
pub proof fn lemma_utf16_units_decode_back(v: u32)
    requires
        v <= 0x10FFFF,
    ensures
        v < 0x10000 ==> utf16_units(v) == seq![v],
        v >= 0x10000 ==> {
            let u = utf16_units(v);
            &&& u.len() == 2
            &&& 0xD800 <= u[0] < 0xDC00
            &&& 0xDC00 <= u[1] < 0xE000
            &&& (u[0] - 0xD800) * 0x400 + (u[1] - 0xDC00) + 0x10000 == v
        },
{
    if v >= 0x10000 {
        let m = (v - 0x10000) as int;
        vstd::arithmetic::div_mod::lemma_fundamental_div_mod(m, 0x400);
        vstd::arithmetic::div_mod::lemma_mod_bound(m, 0x400);
        assert(m / 0x400 < 0x400) by (nonlinear_arith)
            requires
                0 <= m < 0x100000,
        ;
        assert(m / 0x400 >= 0) by (nonlinear_arith)
            requires
                0 <= m,
        ;
    }
}

} // verus!
