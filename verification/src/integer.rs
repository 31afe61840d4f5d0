//! Integer constant evaluation: promotions, conversions and binary operators.

use crate::arith::{lemma_i128_as_u128, lemma_mod_pow2_shift, lemma_mod_pow2_twice};
use crate::error::Error;
use crate::ir::{IntegerKind, IntegerValue, Type, TypeKind, supported_width};
use vstd::arithmetic::div_mod::{lemma_small_mod};
use vstd::arithmetic::power2::{lemma2_to64, lemma2_to64_rest, lemma_pow2_adds, lemma_pow2_pos, lemma_pow2_strictly_increases, lemma_pow2_unfold, pow2};
use vstd::prelude::*;
use vstd::string::StringExecFns;

verus! {

/// The integer a value contributes to a conversion: its signed reading for
/// signed values and its stored bits otherwise.
pub open spec fn source_int(value: IntegerValue) -> int {
    if value.signed {
        value.signed_value_spec()
    } else {
        value.value as int
    }
}

/// Whether `v` is representable in a signed integer of `bits` bits.
pub open spec fn fits_signed(v: int, bits: u8) -> bool {
    -pow2((bits - 1) as nat) <= v < pow2((bits - 1) as nat)
}

/// Converts `value` to the width, signedness and rank of `destination`,
/// keeping the low bits of its two's-complement representation.
pub fn convert(value: IntegerValue, destination: IntegerValue) -> (r: IntegerValue)
    requires
        destination.bits <= 128,
    ensures
        r.value == source_int(value) % pow2(destination.bits as nat) as int,
        r.bits == destination.bits,
        r.signed == destination.signed,
        r.rank == destination.rank,
{
    let raw = if value.signed {
        value.signed_value() as u128
    } else {
        value.value
    };
    proof {
        let b = destination.bits as nat;
        lemma2_to64();
        lemma2_to64_rest();
        lemma_pow2_adds(64, 64);
        if value.signed {
            let sv = value.signed_value_spec();
            lemma_i128_as_u128(sv as i128);
            if sv < 0 {
                lemma_mod_pow2_shift(sv, 1, b, 128);
            }
        }
    }
    IntegerValue::new(raw, destination.bits, destination.signed, destination.rank)
}

/// The promoted type of an operand: ranks below `int` become `int`.
pub fn promote(value: IntegerValue) -> (r: IntegerValue)
    ensures
        value.rank < 3 ==> r.bits == 32 && r.signed && r.rank == 3 && r.value == source_int(value)
            % pow2(32) as int,
        value.rank >= 3 ==> r == value,
{
    if value.rank < 3 {
        convert(value, IntegerValue::from_int(0))
    } else {
        value
    }
}

/// The type the usual arithmetic conversions select for two operands, after
/// promotion: the higher rank among equal signedness; otherwise the unsigned
/// type when its rank is not lower, the signed type when it is wider, and
/// else the unsigned type of the signed operand's width and rank.
pub open spec fn common_type(left: IntegerValue, right: IntegerValue) -> (bool, u8, u8) {
    let (l_signed, l_bits, l_rank) = if left.rank < 3 { (true, 32u8, 3u8) } else { (left.signed, left.bits, left.rank) };
    let (r_signed, r_bits, r_rank) = if right.rank < 3 { (true, 32u8, 3u8) } else { (right.signed, right.bits, right.rank) };
    if l_signed == r_signed {
        if l_rank >= r_rank { (l_signed, l_bits, l_rank) } else { (r_signed, r_bits, r_rank) }
    } else {
        let (s_bits, s_rank, u_bits, u_rank) = if l_signed {
            (l_bits, l_rank, r_bits, r_rank)
        } else {
            (r_bits, r_rank, l_bits, l_rank)
        };
        if u_rank >= s_rank {
            (false, u_bits, u_rank)
        } else if s_bits > u_bits {
            (true, s_bits, s_rank)
        } else {
            (false, s_bits, s_rank)
        }
    }
}

proof fn lemma_promoted_value(v: IntegerValue, p: IntegerValue)
    requires
        v.rank < 3 ==> p.bits == 32 && p.signed && p.rank == 3 && p.value == source_int(v) % pow2(32) as int,
        v.rank >= 3 ==> p == v,
    ensures
        p == promoted(v),
{
    if v.rank < 3 {
        lemma_value_of_well_formed(source_int(v), 32, true, 3);
    }
}

/// The operand [`common`] returns: the promoted operand whose type is the
/// common type, or, where the signed operand's rank is higher but its width
/// no greater, a zero of the unsigned type of the signed operand's rank.
#[verifier::opaque]
pub open spec fn common_value(left: IntegerValue, right: IntegerValue) -> IntegerValue {
    let l = promoted(left);
    let r = promoted(right);
    if l.signed == r.signed {
        if l.rank >= r.rank {
            l
        } else {
            r
        }
    } else {
        let (s, u) = if l.signed {
            (l, r)
        } else {
            (r, l)
        };
        if u.rank >= s.rank {
            u
        } else if s.bits > u.bits {
            s
        } else {
            IntegerValue { value: 0, bits: s.bits, signed: false, rank: s.rank }
        }
    }
}

/// Selects the common type of two integer operands.
pub fn common(left: IntegerValue, right: IntegerValue) -> (r: IntegerValue)
    ensures
        (r.signed, r.bits, r.rank) == common_type(left, right),
        r == common_value(left, right),
{
    let ghost (l0, r0) = (left, right);
    let left = promote(left);
    let right = promote(right);
    proof {
        lemma_promoted_value(l0, left);
        lemma_promoted_value(r0, right);
        reveal(common_value);
    }
    if left.signed == right.signed {
        return if left.rank >= right.rank {
            left
        } else {
            right
        };
    }
    let (signed, unsigned) = if left.signed {
        (left, right)
    } else {
        (right, left)
    };
    if unsigned.rank >= signed.rank {
        unsigned
    } else if signed.bits > unsigned.bits {
        signed
    } else {
        IntegerValue { value: 0, bits: signed.bits, signed: false, rank: signed.rank }
    }
}

/// The least value of a signed integer of `bits` bits.
pub fn signed_minimum(bits: u8) -> (r: i128)
    requires
        1 <= bits <= 128,
    ensures
        r == -pow2((bits - 1) as nat),
{
    proof {
        lemma2_to64();
        lemma2_to64_rest();
        lemma_pow2_adds(64, 63);
        if bits < 128 {
            lemma_pow2_strictly_increases((bits - 1) as nat, 127);
        }
        crate::arith::lemma_u128_shl_one((bits - 1) as u128);
    }
    if bits == 128 {
        i128::MIN
    } else {
        -((1u128 << (bits - 1)) as i128)
    }
}

/// The largest value of a signed integer of `bits` bits.
fn signed_maximum(bits: u8) -> (r: i128)
    requires
        1 <= bits <= 128,
    ensures
        r == pow2((bits - 1) as nat) - 1,
{
    proof {
        lemma2_to64();
        lemma2_to64_rest();
        lemma_pow2_adds(64, 63);
        if bits < 128 {
            lemma_pow2_strictly_increases((bits - 1) as nat, 127);
        }
        lemma_pow2_pos((bits - 1) as nat);
        crate::arith::lemma_u128_shl_one((bits - 1) as u128);
    }
    if bits == 128 {
        i128::MAX
    } else {
        ((1u128 << (bits - 1)) - 1) as i128
    }
}

/// Builds a signed value of `ty`'s width and rank from an exact result,
/// rejecting a missing (overflowed) or unrepresentable result.
pub fn signed_result(value: Option<i128>, ty: IntegerValue, offset: usize) -> (r: Result<IntegerValue, Error>)
    requires
        1 <= ty.bits <= 128,
    ensures
        r is Ok <==> (value matches Some(v) && fits_signed(v as int, ty.bits)),
        r matches Ok(result) ==> result.bits == ty.bits && result.signed && result.rank == ty.rank
            && result.value == (value->Some_0 as int) % pow2(ty.bits as nat) as int,
        r matches Err(e) ==> e.offset == offset && e.message@ == "signed integer overflow"@,
{
    let value = match value {
        Some(v) => v,
        None => return Err(Error::new(offset, "signed integer overflow")),
    };
    let maximum = signed_maximum(ty.bits);
    let minimum = signed_minimum(ty.bits);
    if value < minimum || value > maximum {
        return Err(Error::new(offset, "signed integer overflow"));
    }
    proof {
        lemma2_to64();
        lemma2_to64_rest();
        lemma_pow2_adds(64, 64);
        lemma_i128_as_u128(value);
        if value < 0 {
            lemma_mod_pow2_shift(value as int, 1, ty.bits as nat, 128);
        }
    }
    Ok(IntegerValue::new(value as u128, ty.bits, true, ty.rank))
}

/// The integer kind of a value's rank and signedness.
pub open spec fn kind_for(rank: u8, signed: bool) -> IntegerKind {
    if rank <= 1 {
        if signed { IntegerKind::SignedChar } else { IntegerKind::UnsignedChar }
    } else if rank == 2 {
        if signed { IntegerKind::Short } else { IntegerKind::UnsignedShort }
    } else if rank == 3 {
        if signed { IntegerKind::Int } else { IntegerKind::UnsignedInt }
    } else if rank == 4 {
        if signed { IntegerKind::Long } else { IntegerKind::UnsignedLong }
    } else if rank == 6 {
        if signed { IntegerKind::Int128 } else { IntegerKind::UnsignedInt128 }
    } else {
        if signed { IntegerKind::LongLong } else { IntegerKind::UnsignedLongLong }
    }
}

/// The C type named by a value's rank and signedness.
pub fn integer_to_type(value: IntegerValue) -> (r: Type)
    ensures
        r.kind == TypeKind::Integer(kind_for(value.rank, value.signed)),
{
    let kind = match (value.rank, value.signed) {
        (0 | 1, true) => IntegerKind::SignedChar,
        (0 | 1, false) => IntegerKind::UnsignedChar,
        (2, true) => IntegerKind::Short,
        (2, false) => IntegerKind::UnsignedShort,
        (3, true) => IntegerKind::Int,
        (3, false) => IntegerKind::UnsignedInt,
        (4, true) => IntegerKind::Long,
        (4, false) => IntegerKind::UnsignedLong,
        (6, true) => IntegerKind::Int128,
        (6, false) => IntegerKind::UnsignedInt128,
        (_, true) => IntegerKind::LongLong,
        (_, false) => IntegerKind::UnsignedLongLong,
    };
    Type::new(TypeKind::Integer(kind))
}

/// A binary operator of a C expression.
#[derive(Clone, Copy, Debug, PartialEq, Eq, Structural)]
pub enum BinaryOperator {
    Index,
    Multiply,
    Divide,
    Modulo,
    Plus,
    Minus,
    ShiftLeft,
    ShiftRight,
    Less,
    Greater,
    LessOrEqual,
    GreaterOrEqual,
    Equals,
    NotEquals,
    BitwiseAnd,
    BitwiseXor,
    BitwiseOr,
    LogicalAnd,
    LogicalOr,
    Assign,
    AssignMultiply,
    AssignDivide,
    AssignModulo,
    AssignPlus,
    AssignMinus,
    AssignShiftLeft,
    AssignShiftRight,
    AssignBitwiseAnd,
    AssignBitwiseXor,
    AssignBitwiseOr,
}

/// The reading of the low `bits` bits of `x`: two's complement when `signed`.
pub open spec fn wrapped(x: int, bits: u8, signed: bool) -> int {
    let low = x % pow2(bits as nat) as int;
    if signed && low >= pow2((bits - 1) as nat) {
        low - pow2(bits as nat)
    } else {
        low
    }
}

/// Quotient truncated toward zero, as C division computes it.
pub open spec fn c_div(a: int, b: int) -> int {
    let q = abs(a) / abs(b);
    if (a < 0) == (b < 0) {
        q
    } else {
        -q
    }
}

/// Remainder with the sign of the dividend, as C computes it.
pub open spec fn c_rem(a: int, b: int) -> int {
    if a < 0 {
        -(abs(a) % abs(b))
    } else {
        abs(a) % abs(b)
    }
}

/// Absolute value.
pub open spec fn abs(a: int) -> int {
    if a < 0 {
        -a
    } else {
        a
    }
}

/// The `int` result 1 or 0 of a comparison or logical operator.
pub open spec fn int_bool(b: bool) -> IntegerValue {
    IntegerValue { value: if b { 1 } else { 0 }, bits: 32, signed: true, rank: 3 }
}

/// A value of the given type whose stored bits are `x` reduced modulo `2^bits`.
pub open spec fn value_of(x: int, bits: u8, signed: bool, rank: u8) -> IntegerValue {
    IntegerValue { value: (x % pow2(bits as nat) as int) as u128, bits, signed, rank }
}

/// The promoted operand `promote` returns.
pub open spec fn promoted(v: IntegerValue) -> IntegerValue {
    if v.rank < 3 {
        value_of(source_int(v), 32, true, 3)
    } else {
        v
    }
}

/// The result of a shift on promoted operands, `None` when C leaves it undefined.
pub open spec fn shift_spec(left_shift: bool, l: IntegerValue, r: IntegerValue) -> Option<IntegerValue> {
    let count_ok = r.well_formed() && r.signed_value_spec() >= 0 && r.value <= u64::MAX;
    let count = r.value as nat;
    if !count_ok || count >= l.bits {
        None
    } else if !left_shift {
        Some(value_of(
            if l.signed {
                l.signed_value_spec() / pow2(count) as int
            } else {
                l.value as int / pow2(count) as int
            },
            l.bits,
            l.signed,
            l.rank,
        ))
    } else if l.signed {
        if l.signed_value_spec() < 0 || l.value * pow2(count) >= pow2((l.bits - 1) as nat) {
            None
        } else {
            Some(value_of(l.value * pow2(count), l.bits, true, l.rank))
        }
    } else {
        Some(value_of(l.value * pow2(count), l.bits, false, l.rank))
    }
}

/// The result of an arithmetic, bitwise or comparison operator on operands
/// already converted to a common type, `None` when the constant is invalid.
pub open spec fn arithmetic_spec(op: BinaryOperator, a: int, c: int, signed: bool, bits: u8, rank: u8) -> Option<IntegerValue> {
    let ua = (a % pow2(bits as nat) as int) as u128;
    let uc = (c % pow2(bits as nat) as int) as u128;
    let arithmetic = op is Plus || op is Minus || op is Multiply || op is Divide || op is Modulo;
    if op is Equals {
        Some(int_bool(a == c))
    } else if op is NotEquals {
        Some(int_bool(a != c))
    } else if op is Less {
        Some(int_bool(a < c))
    } else if op is LessOrEqual {
        Some(int_bool(a <= c))
    } else if op is Greater {
        Some(int_bool(a > c))
    } else if op is GreaterOrEqual {
        Some(int_bool(a >= c))
    } else if (op is Divide || op is Modulo) && c == 0 {
        None
    } else if arithmetic && signed {
        if (op is Divide || op is Modulo) && a == -pow2((bits - 1) as nat) && c == -1 {
            None
        } else {
            let x = if op is Plus {
                a + c
            } else if op is Minus {
                a - c
            } else if op is Multiply {
                a * c
            } else if op is Divide {
                c_div(a, c)
            } else {
                c_rem(a, c)
            };
            if fits_signed(x, bits) {
                Some(value_of(x, bits, true, rank))
            } else {
                None
            }
        }
    } else if op is Plus {
        Some(value_of(a + c, bits, false, rank))
    } else if op is Minus {
        Some(value_of(a - c, bits, false, rank))
    } else if op is Multiply {
        Some(value_of(a * c, bits, false, rank))
    } else if op is Divide {
        Some(value_of(a / c, bits, false, rank))
    } else if op is Modulo {
        Some(value_of(a % c, bits, false, rank))
    } else if op is BitwiseAnd {
        Some(value_of((ua & uc) as int, bits, signed, rank))
    } else if op is BitwiseOr {
        Some(value_of((ua | uc) as int, bits, signed, rank))
    } else if op is BitwiseXor {
        Some(value_of((ua ^ uc) as int, bits, signed, rank))
    } else {
        None
    }
}

/// The diagnostic of a shift without a value: a count that is negative or
/// beyond 64 bits, a count not below the width, a negative signed left
/// operand, or a signed result that overflows.
pub open spec fn shift_error(left_shift: bool, l: IntegerValue, r: IntegerValue) -> Seq<char> {
    if !(r.well_formed() && r.signed_value_spec() >= 0 && r.value <= u64::MAX) {
        "negative shift count"@
    } else if r.value >= l.bits {
        "shift count exceeds integer width"@
    } else if l.signed_value_spec() < 0 {
        "left shift of a negative signed integer"@
    } else {
        "signed left shift overflows"@
    }
}

/// The diagnostic of an arithmetic operator without a value: division by
/// zero, the one signed division that overflows, other signed overflow, or
/// an operator an integer constant expression does not permit.
pub open spec fn arithmetic_error(op: BinaryOperator, a: int, c: int, signed: bool, bits: u8) -> Seq<char> {
    let arithmetic = op is Plus || op is Minus || op is Multiply || op is Divide || op is Modulo;
    if (op is Divide || op is Modulo) && c == 0 {
        "division by zero in constant expression"@
    } else if arithmetic && signed {
        if (op is Divide || op is Modulo) && a == -pow2((bits - 1) as nat) && c == -1 {
            "signed integer division overflows"@
        } else {
            "signed integer overflow"@
        }
    } else {
        "operator is not permitted in an integer constant expression"@
    }
}

/// The diagnostic of `left op right` where it has no value.
pub open spec fn binary_error(op: BinaryOperator, left: IntegerValue, right: IntegerValue) -> Seq<char> {
    match op {
        BinaryOperator::ShiftLeft => shift_error(true, promoted(left), promoted(right)),
        BinaryOperator::ShiftRight => shift_error(false, promoted(left), promoted(right)),
        _ => {
            let (signed, bits, rank) = common_type(left, right);
            arithmetic_error(op, wrapped(source_int(left), bits, signed), wrapped(source_int(right), bits, signed), signed, bits)
        },
    }
}

/// The diagnostic of a unary operator without a value: signed negation
/// that overflows, or an operator not permitted.
pub open spec fn unary_error(op: UnaryOperator) -> Seq<char> {
    if op is Minus {
        "signed integer overflow"@
    } else {
        "operator is not permitted in an integer constant expression"@
    }
}

/// The value of `left op right` in an integer constant expression, `None`
/// when the expression is not a valid constant.
pub open spec fn binary_spec(op: BinaryOperator, left: IntegerValue, right: IntegerValue) -> Option<IntegerValue> {
    match op {
        BinaryOperator::LogicalAnd => Some(int_bool(left.value != 0 && right.value != 0)),
        BinaryOperator::LogicalOr => Some(int_bool(left.value != 0 || right.value != 0)),
        BinaryOperator::ShiftLeft => shift_spec(true, promoted(left), promoted(right)),
        BinaryOperator::ShiftRight => shift_spec(false, promoted(left), promoted(right)),
        _ => {
            let (signed, bits, rank) = common_type(left, right);
            arithmetic_spec(
                op,
                wrapped(source_int(left), bits, signed),
                wrapped(source_int(right), bits, signed),
                signed,
                bits,
                rank,
            )
        },
    }
}

/// A value's reading is the two's-complement (or plain) reading of its bits.
pub proof fn lemma_reading(v: IntegerValue)
    requires
        supported_width(v.bits),
        v.value < pow2(v.bits as nat),
    ensures
        source_int(v) == wrapped(v.value as int, v.bits, v.signed),
        wrapped(v.value as int, v.bits, v.signed) % pow2(v.bits as nat) as int == v.value,
{
    let w = IntegerValue { rank: 0, ..v };
    lemma_small_mod(v.value as nat, pow2(v.bits as nat));
    lemma_pow2_pos(v.bits as nat);
    if v.signed {
        w.lemma_math_is_signed_value();
        assert(w.signed_value_spec() == v.signed_value_spec());
        if v.value >= pow2((v.bits - 1) as nat) {
            vstd::arithmetic::div_mod::lemma_mod_multiples_vanish(-1, v.value as int, pow2(v.bits as nat) as int);
        }
    }
}

/// Reduction modulo `2^bits` forgets the wrapping.
pub proof fn lemma_wrapped_mod(x: int, bits: u8, signed: bool)
    requires
        1 <= bits <= 128,
    ensures
        wrapped(x, bits, signed) % pow2(bits as nat) as int == x % pow2(bits as nat) as int,
        -pow2((bits - 1) as nat) <= wrapped(x, bits, signed) < pow2(bits as nat),
        signed ==> fits_signed(wrapped(x, bits, signed), bits),
        !signed ==> wrapped(x, bits, signed) == x % pow2(bits as nat) as int,
        signed && fits_signed(x, bits) ==> wrapped(x, bits, signed) == x,
        !signed && 0 <= x < pow2(bits as nat) ==> wrapped(x, bits, signed) == x,
        wrapped(x % pow2(bits as nat) as int, bits, signed) == wrapped(x, bits, signed),
{
    let p = pow2(bits as nat) as int;
    lemma_pow2_pos(bits as nat);
    lemma_pow2_unfold(bits as nat);
    vstd::arithmetic::div_mod::lemma_mod_bound(x, p);
    vstd::arithmetic::div_mod::lemma_mod_mod(x, p, 1);
    lemma_small_mod((x % p) as nat, p as nat);
    if signed && x % p >= pow2((bits - 1) as nat) {
        vstd::arithmetic::div_mod::lemma_mod_multiples_vanish(-1, x % p, p);
    }
    if 0 <= x < p {
        lemma_small_mod(x as nat, p as nat);
    }
    if signed && fits_signed(x, bits) && x < 0 {
        vstd::arithmetic::div_mod::lemma_mod_multiples_vanish(1, x, p);
        lemma_small_mod((x + p) as nat, p as nat);
    }
}

/// `v <= floor(m / p)` exactly when `v * p <= m`, for positive `p`.
pub proof fn lemma_le_div(v: int, m: int, p: int)
    requires
        p > 0,
        v >= 0,
        m >= 0,
    ensures
        (v <= m / p) <==> v * p <= m,
{
    vstd::arithmetic::div_mod::lemma_fundamental_div_mod(m, p);
    vstd::arithmetic::div_mod::lemma_mod_bound(m, p);
    if v <= m / p {
        vstd::arithmetic::mul::lemma_mul_inequality(v, m / p, p);
        vstd::arithmetic::mul::lemma_mul_is_commutative(m / p, p);
    } else {
        vstd::arithmetic::mul::lemma_mul_inequality(m / p + 1, v, p);
        vstd::arithmetic::mul::lemma_mul_is_distributive_add_other_way(p, m / p, 1);
        vstd::arithmetic::mul::lemma_mul_is_commutative(m / p, p);
    }
}

/// Floor division of a negative value by a power of two.
pub proof fn lemma_negative_floor(sv: int, p: int)
    requires
        sv < 0,
        p > 0,
    ensures
        sv / p == -((-sv - 1) / p) - 1,
{
    let m = -sv - 1;
    vstd::arithmetic::div_mod::lemma_fundamental_div_mod(m, p);
    vstd::arithmetic::div_mod::lemma_mod_bound(m, p);
    let q = m / p;
    let r = m % p;
    assert(sv == (-q - 1) * p + (p - r - 1)) by (nonlinear_arith)
        requires
            m == p * q + r,
            sv == -m - 1,
    ;
    vstd::arithmetic::div_mod::lemma_fundamental_div_mod_converse(sv, p, -q - 1, p - r - 1);
}

/// Evaluates a shift on promoted operands.
fn shift(left_shift: bool, left: IntegerValue, right: IntegerValue, offset: usize) -> (r: Result<IntegerValue, Error>)
    requires
        left.well_formed(),
    ensures
        match shift_spec(left_shift, left, right) {
            Some(v) => r == Ok::<IntegerValue, Error>(v),
            None => (r matches Err(e) && e.offset == offset && e.message@ == shift_error(left_shift, left, right)),
        },
{
    let count = match right.as_u64() {
        Ok(c) => c,
        Err(_) => return Err(Error::new(offset, "negative shift count")),
    };
    if count >= left.bits as u64 {
        return Err(Error::new(offset, "shift count exceeds integer width"));
    }
    let c = count as u128;
    let ghost b = left.bits as nat;
    proof {
        lemma2_to64();
        lemma2_to64_rest();
        lemma_pow2_adds(64, 64);
        lemma_pow2_pos(count as nat);
        vstd::bits::lemma_u128_shr_is_div(left.value, c);
    }
    if !left_shift {
        if left.signed {
            let sv = left.signed_value();
            let shifted: i128 = if sv >= 0 {
                proof {
                    vstd::bits::lemma_u128_shr_is_div(sv as u128, c);
                }
                ((sv as u128) >> c) as i128
            } else {
                let m = (-(sv + 1)) as u128;
                proof {
                    vstd::bits::lemma_u128_shr_is_div(m, c);
                    lemma_negative_floor(sv as int, pow2(count as nat) as int);
                    vstd::arithmetic::div_mod::lemma_div_is_ordered(m as int, i128::MAX as int, pow2(count as nat) as int);
                    vstd::arithmetic::div_mod::lemma_div_by_multiple(1, pow2(count as nat) as int);
                    vstd::arithmetic::div_mod::lemma_div_is_ordered_by_denominator(i128::MAX as int, 1, pow2(count as nat) as int);
                }
                -((m >> c) as i128) - 1
            };
            proof {
                lemma_i128_as_u128(shifted);
                if shifted < 0 {
                    lemma_mod_pow2_shift(shifted as int, 1, b, 128);
                }
            }
            Ok(IntegerValue::new(shifted as u128, left.bits, true, left.rank))
        } else {
            proof {
                vstd::arithmetic::div_mod::lemma_div_is_ordered(left.value as int, u128::MAX as int, pow2(count as nat) as int);
                vstd::arithmetic::div_mod::lemma_div_is_ordered_by_denominator(u128::MAX as int, 1, pow2(count as nat) as int);
            }
            Ok(IntegerValue::new(left.value >> c, left.bits, false, left.rank))
        }
    } else if left.signed {
        if left.signed_value() < 0 {
            return Err(Error::new(offset, "left shift of a negative signed integer"));
        }
        let all = IntegerValue::mask(left.bits);
        let maximum = all >> 1;
        proof {
            vstd::bits::lemma_u128_shr_is_div(all, 1);
            vstd::bits::lemma_u128_shr_is_div(maximum, c);
            lemma_pow2_unfold(b);
            lemma_pow2_pos((b - 1) as nat);
            lemma_le_div(left.value as int, maximum as int, pow2(count as nat) as int);
            assert(maximum == pow2((b - 1) as nat) - 1) by (nonlinear_arith)
                requires
                    maximum == (2 * pow2((b - 1) as nat) - 1) / 2,
            ;
        }
        if left.value > (maximum >> c) {
            return Err(Error::new(offset, "signed left shift overflows"));
        }
        proof {
            crate::arith::lemma_u128_shl(left.value, c);
            lemma_pow2_strictly_increases((b - 1) as nat, 128);
            lemma_small_mod((left.value * pow2(count as nat)) as nat, pow2(128));
        }
        Ok(IntegerValue::new(left.value << c, left.bits, true, left.rank))
    } else {
        proof {
            crate::arith::lemma_u128_shl(left.value, c);
            lemma_mod_pow2_twice((left.value * pow2(count as nat)) as int, b, 128);
        }
        Ok(IntegerValue::new(left.value << c, left.bits, false, left.rank))
    }
}

/// C's truncating quotient agrees with `i128::checked_div` where both are defined.
proof fn lemma_c_div_rem(a: int, c: int)
    requires
        c != 0,
    ensures
        c_div(a, c) == (if a == 0 {
            0
        } else if a > 0 && c > 0 {
            a / c
        } else if a < 0 && c < 0 {
            (a * -1) / (c * -1)
        } else if a < 0 {
            ((a * -1) / c) * -1
        } else {
            (a / (c * -1)) * -1
        }),
        c_rem(a, c) == (if a == 0 {
            0
        } else if a > 0 && c > 0 {
            a % c
        } else if a < 0 && c < 0 {
            ((a * -1) % (c * -1)) * -1
        } else if a < 0 {
            ((a * -1) % c) * -1
        } else {
            a % (c * -1)
        }),
{
    if a == 0 {
        vstd::arithmetic::div_mod::lemma_basic_div(0, abs(c));
        vstd::arithmetic::div_mod::lemma_small_mod(0, abs(c) as nat);
    }
}

/// Operands already converted to their common type.
pub open spec fn converted_pair(l: IntegerValue, r: IntegerValue, signed: bool, bits: u8) -> bool {
    &&& supported_width(bits)
    &&& l.bits == bits && r.bits == bits
    &&& l.signed == signed && r.signed == signed
    &&& l.value < pow2(bits as nat) && r.value < pow2(bits as nat)
}

fn compare(op: BinaryOperator, l: IntegerValue, r: IntegerValue, signed: bool, bits: u8) -> (res: Option<bool>)
    requires
        converted_pair(l, r, signed, bits),
    ensures
        ({
            let a = source_int(l);
            let c = source_int(r);
            match op {
                BinaryOperator::Equals => res == Some(a == c),
                BinaryOperator::NotEquals => res == Some(a != c),
                BinaryOperator::Less => res == Some(a < c),
                BinaryOperator::LessOrEqual => res == Some(a <= c),
                BinaryOperator::Greater => res == Some(a > c),
                BinaryOperator::GreaterOrEqual => res == Some(a >= c),
                _ => res is None,
            }
        }),
{
    proof {
        lemma_reading(l);
        lemma_reading(r);
        lemma_small_mod(l.value as nat, pow2(bits as nat));
        lemma_small_mod(r.value as nat, pow2(bits as nat));
        lemma_pow2_unfold(bits as nat);
    }
    match op {
        BinaryOperator::Equals => Some(l.value == r.value),
        BinaryOperator::NotEquals => Some(l.value != r.value),
        BinaryOperator::Less => Some(if signed {
            l.signed_value() < r.signed_value()
        } else {
            l.value < r.value
        }),
        BinaryOperator::LessOrEqual => Some(if signed {
            l.signed_value() <= r.signed_value()
        } else {
            l.value <= r.value
        }),
        BinaryOperator::Greater => Some(if signed {
            l.signed_value() > r.signed_value()
        } else {
            l.value > r.value
        }),
        BinaryOperator::GreaterOrEqual => Some(if signed {
            l.signed_value() >= r.signed_value()
        } else {
            l.value >= r.value
        }),
        _ => None,
    }
}

fn signed_arithmetic(op: BinaryOperator, l: IntegerValue, r: IntegerValue, bits: u8, rank: u8, offset: usize) -> (res: Result<IntegerValue, Error>)
    requires
        converted_pair(l, r, true, bits),
        op is Plus || op is Minus || op is Multiply || op is Divide || op is Modulo,
        (op is Divide || op is Modulo) ==> source_int(r) != 0,
    ensures
        match arithmetic_spec(op, source_int(l), source_int(r), true, bits, rank) {
            Some(v) => res == Ok::<IntegerValue, Error>(v),
            None => (res matches Err(e) && e.offset == offset && e.message@ == arithmetic_error(
                op,
                source_int(l),
                source_int(r),
                true,
                bits,
            )),
        },
{
    let x = l.signed_value();
    let y = r.signed_value();
    proof {
        lemma_reading(l);
        lemma_reading(r);
        lemma_wrapped_mod(l.value as int, bits, true);
        lemma_wrapped_mod(r.value as int, bits, true);
        lemma2_to64();
        lemma2_to64_rest();
        lemma_pow2_adds(64, 63);
        if bits < 128 {
            lemma_pow2_strictly_increases((bits - 1) as nat, 127);
        }
    }
    let divide = match op {
        BinaryOperator::Divide | BinaryOperator::Modulo => true,
        _ => false,
    };
    if divide && x == signed_minimum(bits) && y == -1 {
        return Err(Error::new(offset, "signed integer division overflows"));
    }
    proof {
        if divide {
            lemma_c_div_rem(x as int, y as int);
        }
    }
    let result = match op {
        BinaryOperator::Plus => x.checked_add(y),
        BinaryOperator::Minus => x.checked_sub(y),
        BinaryOperator::Multiply => x.checked_mul(y),
        BinaryOperator::Divide => x.checked_div(y),
        _ => x.checked_rem(y),
    };
    signed_result(result, IntegerValue { value: 0, bits, signed: true, rank }, offset)
}

fn unsigned_arithmetic(op: BinaryOperator, l: IntegerValue, r: IntegerValue, signed: bool, bits: u8, rank: u8, offset: usize) -> (res: Result<IntegerValue, Error>)
    requires
        converted_pair(l, r, signed, bits),
        !(signed && (op is Plus || op is Minus || op is Multiply || op is Divide || op is Modulo)),
        (op is Divide || op is Modulo) ==> r.value != 0,
        !(op is Equals || op is NotEquals || op is Less || op is LessOrEqual || op is Greater
            || op is GreaterOrEqual),
    ensures
        match arithmetic_spec(op, source_int(l), source_int(r), signed, bits, rank) {
            Some(v) => res == Ok::<IntegerValue, Error>(v),
            None => (res matches Err(e) && e.offset == offset && e.message@
                == "operator is not permitted in an integer constant expression"@),
        },
{
    proof {
        lemma_reading(l);
        lemma_reading(r);
        lemma_small_mod(l.value as nat, pow2(bits as nat));
        lemma_small_mod(r.value as nat, pow2(bits as nat));
        lemma2_to64();
        lemma2_to64_rest();
        lemma_pow2_adds(64, 64);
        lemma_pow2_pos(bits as nat);
    }
    let value = match op {
        BinaryOperator::Plus => {
            proof {
                if l.value + r.value > u128::MAX {
                    lemma_mod_pow2_shift(l.value + r.value - pow2(128), 1, bits as nat, 128);
                }
            }
            l.value.wrapping_add(r.value)
        },
        BinaryOperator::Minus => {
            proof {
                if l.value - r.value < 0 {
                    lemma_mod_pow2_shift(l.value - r.value, 1, bits as nat, 128);
                }
            }
            l.value.wrapping_sub(r.value)
        },
        BinaryOperator::Multiply => {
            proof {
                lemma_mod_pow2_twice(l.value * r.value, bits as nat, 128);
            }
            l.value.wrapping_mul(r.value)
        },
        BinaryOperator::Divide => {
            proof {
                vstd::arithmetic::div_mod::lemma_div_is_ordered_by_denominator(l.value as int, 1, r.value as int);
                vstd::arithmetic::div_mod::lemma_small_mod((l.value / r.value) as nat, pow2(bits as nat));
            }
            l.value / r.value
        },
        BinaryOperator::Modulo => {
            proof {
                vstd::arithmetic::div_mod::lemma_mod_bound(l.value as int, r.value as int);
                vstd::arithmetic::div_mod::lemma_small_mod((l.value % r.value) as nat, pow2(bits as nat));
            }
            l.value % r.value
        },
        BinaryOperator::BitwiseAnd => {
            proof {
                lemma_wrapped_mod(l.value as int, bits, signed);
                lemma_wrapped_mod(r.value as int, bits, signed);
            }
            l.value & r.value
        },
        BinaryOperator::BitwiseOr => {
            proof {
                lemma_wrapped_mod(l.value as int, bits, signed);
                lemma_wrapped_mod(r.value as int, bits, signed);
            }
            l.value | r.value
        },
        BinaryOperator::BitwiseXor => {
            proof {
                lemma_wrapped_mod(l.value as int, bits, signed);
                lemma_wrapped_mod(r.value as int, bits, signed);
            }
            l.value ^ r.value
        },
        _ => {
            return Err(Error::new(offset, "operator is not permitted in an integer constant expression"));
        },
    };
    Ok(IntegerValue::new(value, bits, signed, rank))
}

/// Evaluates a binary operator of an integer constant expression.
#[verifier::rlimit(60)]
pub fn binary(op: BinaryOperator, left: IntegerValue, right: IntegerValue, offset: usize) -> (r: Result<IntegerValue, Error>)
    requires
        left.well_formed(),
        right.well_formed(),
    ensures
        match binary_spec(op, left, right) {
            Some(v) => r == Ok::<IntegerValue, Error>(v),
            None => (r matches Err(e) && e.offset == offset && e.message@ == binary_error(op, left, right)),
        },
{
    match op {
        BinaryOperator::LogicalAnd => {
            let truth = left.truth() && right.truth();
            let r = IntegerValue::from_int(if truth { 1 } else { 0 });
            proof { lemma2_to64(); lemma_small_mod(r.value as nat, pow2(32)); }
            return Ok(r);
        },
        BinaryOperator::LogicalOr => {
            let truth = left.truth() || right.truth();
            let r = IntegerValue::from_int(if truth { 1 } else { 0 });
            proof { lemma2_to64(); lemma_small_mod(r.value as nat, pow2(32)); }
            return Ok(r);
        },
        BinaryOperator::ShiftLeft | BinaryOperator::ShiftRight => {
            let l = promote(left);
            let r = promote(right);
            proof {
                lemma2_to64();
                lemma_pow2_pos(32);
                vstd::arithmetic::div_mod::lemma_mod_bound(source_int(left), pow2(32) as int);
                vstd::arithmetic::div_mod::lemma_mod_bound(source_int(right), pow2(32) as int);
                assert(l == promoted(left));
                assert(r == promoted(right));
            }
            let left_shift = match op {
                BinaryOperator::ShiftLeft => true,
                _ => false,
            };
            return shift(left_shift, l, r, offset);
        },
        _ => {},
    }
    let ty = common(left, right);
    let ghost (gs, gb, gk) = common_type(left, right);
    proof {
        assert(supported_width(gb));
    }
    let l = convert(left, ty);
    let r = convert(right, ty);
    proof {
        lemma_pow2_pos(ty.bits as nat);
        vstd::arithmetic::div_mod::lemma_mod_bound(source_int(left), pow2(ty.bits as nat) as int);
        vstd::arithmetic::div_mod::lemma_mod_bound(source_int(right), pow2(ty.bits as nat) as int);
        lemma_reading(l);
        lemma_reading(r);
        lemma_small_mod(l.value as nat, pow2(ty.bits as nat));
        lemma_small_mod(r.value as nat, pow2(ty.bits as nat));
        assert(source_int(l) == wrapped(source_int(left), ty.bits, ty.signed));
        assert(source_int(r) == wrapped(source_int(right), ty.bits, ty.signed));
    }
    if let Some(result) = compare(op, l, r, ty.signed, ty.bits) {
        let v = IntegerValue::from_int(if result { 1 } else { 0 });
        proof { lemma2_to64(); lemma_small_mod(v.value as nat, pow2(32)); }
        return Ok(v);
    }
    let divide = match op {
        BinaryOperator::Divide | BinaryOperator::Modulo => true,
        _ => false,
    };
    if divide && r.value == 0 {
        proof {
            if r.bits > 0 {
                lemma_pow2_pos((r.bits - 1) as nat);
                vstd::arithmetic::div_mod::lemma_div_of0(pow2((r.bits - 1) as nat) as int);
            }
            assert(source_int(r) == 0);
        }
        return Err(Error::new(offset, "division by zero in constant expression"));
    }
    let arithmetic = match op {
        BinaryOperator::Plus | BinaryOperator::Minus | BinaryOperator::Multiply
        | BinaryOperator::Divide | BinaryOperator::Modulo => true,
        _ => false,
    };
    if ty.signed && arithmetic {
        return signed_arithmetic(op, l, r, ty.bits, ty.rank, offset);
    }
    unsigned_arithmetic(op, l, r, ty.signed, ty.bits, ty.rank, offset)
}

/// The wider type an enumerator widens to when incrementing would overflow:
/// the first of `long`, `long long` and `__int128` that is wider, with
/// `__int128` only in the GNU profile.
pub open spec fn wider_type(bits: u8, long_width: u8, gnu: bool) -> Option<(u8, u8)> {
    if long_width > bits && (long_width <= 64 || gnu) {
        Some((long_width, 4u8))
    } else if 64 > bits {
        Some((64u8, 5u8))
    } else if 128 > bits && gnu {
        Some((128u8, 6u8))
    } else {
        None
    }
}

/// Adds one for an implicit enumerator, widening on overflow while preserving
/// signedness.
pub fn integer_add_one(value: IntegerValue, long_width: u8, gnu: bool, offset: usize) -> (r: Result<IntegerValue, Error>)
    requires
        value.well_formed(),
        long_width == 32 || long_width == 64,
    ensures
        ({
            let at_max = value.value == (if value.signed {
                pow2((value.bits - 1) as nat) - 1
            } else {
                pow2(value.bits as nat) - 1
            });
            let target = if at_max {
                wider_type(value.bits, long_width, gnu)
            } else {
                Some((value.bits, value.rank))
            };
            &&& r is Ok <==> target is Some
            &&& r matches Ok(v) ==> {
                &&& v.signed == value.signed
                &&& (v.bits, v.rank) == target->Some_0
                &&& v.well_formed()
                &&& source_int(v) == source_int(value) + 1
            }
        }),
{
    let all = IntegerValue::mask(value.bits);
    let maximum = if value.signed { all >> 1 } else { all };
    proof {
        lemma2_to64();
        vstd::bits::lemma_u128_shr_is_div(all, 1);
        lemma_pow2_pos((value.bits - 1) as nat);
        lemma_pow2_unfold(value.bits as nat);
        assert(value.signed ==> maximum == pow2((value.bits - 1) as nat) - 1) by (nonlinear_arith)
            requires
                value.signed ==> maximum == (2 * pow2((value.bits - 1) as nat) - 1) / 2,
        ;
        lemma_reading(value);
        lemma_wrapped_mod(value.value as int, value.bits, value.signed);
        lemma_small_mod(value.value as nat, pow2(value.bits as nat));
        lemma2_to64();
        lemma2_to64_rest();
        lemma_pow2_adds(64, 64);
    }
    let mut value = value;
    if value.value == maximum {
        let wider = if long_width > value.bits && (long_width <= 64 || gnu) {
            (long_width, 4u8)
        } else if 64 > value.bits {
            (64u8, 5u8)
        } else if 128 > value.bits && gnu {
            (128u8, 6u8)
        } else {
            return Err(Error::new(offset, "enumerator increment exceeds supported integer types"));
        };
        let old = value;
        value = convert(value, IntegerValue { value: 0, bits: wider.0, signed: value.signed, rank: wider.1 });
        proof {
            lemma_pow2_strictly_increases(old.bits as nat, wider.0 as nat);
            lemma_pow2_strictly_increases((old.bits - 1) as nat, (wider.0 - 1) as nat);
            lemma_pow2_pos(wider.0 as nat);
            lemma_pow2_unfold(wider.0 as nat);
            if old.signed {
                lemma_small_mod(old.value as nat, pow2(wider.0 as nat));
            } else {
                lemma_small_mod(old.value as nat, pow2(wider.0 as nat));
            }
            lemma_reading(value);
            lemma_small_mod(value.value as nat, pow2(wider.0 as nat));
        }
    }
    proof {
        lemma_reading(value);
        lemma_small_mod(value.value as nat, pow2(value.bits as nat));
        lemma_pow2_unfold(value.bits as nat);
        lemma_pow2_pos((value.bits - 1) as nat);
        if value.bits < 128 {
            lemma_pow2_strictly_increases(value.bits as nat, 128);
            lemma_pow2_strictly_increases((value.bits - 1) as nat, 127);
        }
        lemma_pow2_adds(64, 63);
    }
    if value.signed {
        let r = signed_result(value.signed_value().checked_add(1), value, offset);
        proof {
            assert(source_int(value) < pow2((value.bits - 1) as nat) - 1);
            assert(r is Ok);
            if let Ok(v) = r {
                lemma_pow2_unfold(v.bits as nat);
                lemma_wrapped_mod(source_int(value) + 1, v.bits, true);
                vstd::arithmetic::div_mod::lemma_mod_bound(source_int(value) + 1, pow2(v.bits as nat) as int);
                lemma_reading(v);
                lemma_small_mod(v.value as nat, pow2(v.bits as nat));
                assert(source_int(v) == source_int(value) + 1);
            }
        }
        r
    } else {
        let r = IntegerValue::new(value.value + 1, value.bits, false, value.rank);
        proof {
            lemma_small_mod((value.value + 1) as nat, pow2(value.bits as nat));
        }
        Ok(r)
    }
}

/// The size type's value for a byte count.
pub open spec fn size_value_spec(value: u64, pointer_width: u8, long_width: u8) -> IntegerValue {
    IntegerValue {
        value: (value as nat % pow2(pointer_width as nat)) as u128,
        bits: pointer_width,
        signed: false,
        rank: if pointer_width == 32 {
            3u8
        } else if long_width == pointer_width {
            4u8
        } else {
            5u8
        },
    }
}

/// The size type's value for a byte count: unsigned, of pointer width, with
/// the rank of `unsigned int` on 32-bit targets, else of `unsigned long` when
/// that is as wide as a pointer, else of `unsigned long long`.
pub fn size_value(value: u64, pointer_width: u8, long_width: u8) -> (r: IntegerValue)
    requires
        pointer_width == 32 || pointer_width == 64,
    ensures
        r == size_value_spec(value, pointer_width, long_width),
        r.bits == pointer_width && !r.signed,
        r.rank == (if pointer_width == 32 {
            3u8
        } else if long_width == pointer_width {
            4u8
        } else {
            5u8
        }),
        r.value == value as nat % pow2(pointer_width as nat),
{
    IntegerValue::new(
        value as u128,
        pointer_width,
        false,
        if pointer_width == 32 {
            3
        } else if long_width == pointer_width {
            4
        } else {
            5
        },
    )
}

/// The width, signedness and rank of an integer kind; `char_signed` and
/// `long_width` are the target's.
pub open spec fn kind_shape(kind: IntegerKind, char_signed: bool, long_width: u8) -> (u8, bool, u8) {
    match kind {
        IntegerKind::Char => (8u8, char_signed, 1u8),
        IntegerKind::SignedChar => (8u8, true, 1u8),
        IntegerKind::UnsignedChar => (8u8, false, 1u8),
        IntegerKind::Short => (16u8, true, 2u8),
        IntegerKind::UnsignedShort => (16u8, false, 2u8),
        IntegerKind::Int => (32u8, true, 3u8),
        IntegerKind::UnsignedInt => (32u8, false, 3u8),
        IntegerKind::Long => (long_width, true, 4u8),
        IntegerKind::UnsignedLong => (long_width, false, 4u8),
        IntegerKind::LongLong => (64u8, true, 5u8),
        IntegerKind::UnsignedLongLong => (64u8, false, 5u8),
        IntegerKind::Int128 => (128u8, true, 6u8),
        IntegerKind::UnsignedInt128 => (128u8, false, 6u8),
    }
}

/// The zero value of an integer-like type: `_Bool`, an integer kind, or an
/// enumeration whose underlying kind is `enum_kind`.
pub fn integer_type(kind: &TypeKind, char_signed: bool, long_width: u8, enum_kind: Option<IntegerKind>, offset: usize) -> (r: Result<IntegerValue, Error>)
    requires
        long_width == 32 || long_width == 64,
    ensures
        match kind {
            TypeKind::Bool => r == Ok::<IntegerValue, Error>(IntegerValue { value: 0, bits: 8, signed: false, rank: 0 }),
            TypeKind::Integer(k) => r == Ok::<IntegerValue, Error>({
                let (b, s, k) = kind_shape(*k, char_signed, long_width);
                IntegerValue { value: 0, bits: b, signed: s, rank: k }
            }),
            TypeKind::Enum(_) => match enum_kind {
                Some(k) => r == Ok::<IntegerValue, Error>({
                    let (b, s, k) = kind_shape(k, char_signed, long_width);
                    IntegerValue { value: 0, bits: b, signed: s, rank: k }
                }),
                None => r is Err,
            },
            _ => r is Err,
        },
{
    let k = match kind {
        TypeKind::Bool => return Ok(IntegerValue { value: 0, bits: 8, signed: false, rank: 0 }),
        TypeKind::Integer(k) => *k,
        TypeKind::Enum(_) => match enum_kind {
            Some(k) => k,
            None => return Err(Error::new(offset, "enumeration has no known integer type")),
        },
        _ => return Err(Error::new(offset, "expected an integer type")),
    };
    let (bits, signed, rank) = match k {
        IntegerKind::Char => (8u8, char_signed, 1u8),
        IntegerKind::SignedChar => (8, true, 1),
        IntegerKind::UnsignedChar => (8, false, 1),
        IntegerKind::Short => (16, true, 2),
        IntegerKind::UnsignedShort => (16, false, 2),
        IntegerKind::Int => (32, true, 3),
        IntegerKind::UnsignedInt => (32, false, 3),
        IntegerKind::Long => (long_width, true, 4),
        IntegerKind::UnsignedLong => (long_width, false, 4),
        IntegerKind::LongLong => (64, true, 5),
        IntegerKind::UnsignedLongLong => (64, false, 5),
        IntegerKind::Int128 => (128, true, 6),
        IntegerKind::UnsignedInt128 => (128, false, 6),
    };
    Ok(IntegerValue { value: 0, bits, signed, rank })
}

/// The value of a vector lane operation, which keeps the lane width instead
/// of promoting: `None` when the lane constant is invalid.
pub open spec fn vector_binary_spec(op: BinaryOperator, l: IntegerValue, r: IntegerValue) -> Option<IntegerValue> {
    let a = source_int(l);
    let c = r.signed_value_spec();
    let ring = op is Plus || op is Minus || op is Multiply;
    if ring && l.signed {
        let x = if op is Plus {
            a + c
        } else if op is Minus {
            a - c
        } else {
            a * c
        };
        if fits_signed(x, l.bits) {
            Some(value_of(x, l.bits, true, l.rank))
        } else {
            None
        }
    } else if ring {
        Some(value_of(if op is Plus {
            l.value + r.value
        } else if op is Minus {
            l.value - r.value
        } else {
            l.value * r.value
        }, l.bits, l.signed, l.rank))
    } else if op is BitwiseAnd {
        Some(value_of((l.value & r.value) as int, l.bits, l.signed, l.rank))
    } else if op is BitwiseOr {
        Some(value_of((l.value | r.value) as int, l.bits, l.signed, l.rank))
    } else if op is BitwiseXor {
        Some(value_of((l.value ^ r.value) as int, l.bits, l.signed, l.rank))
    } else if op is ShiftLeft || op is ShiftRight {
        shift_spec(op is ShiftLeft, l, r)
    } else if op is Divide || op is Modulo {
        if r.value == 0 {
            None
        } else if l.signed {
            if c == -1 && a == -pow2((l.bits - 1) as nat) {
                None
            } else {
                let x = if op is Divide { c_div(a, c) } else { c_rem(a, c) };
                if fits_signed(x, l.bits) {
                    Some(value_of(x, l.bits, true, l.rank))
                } else {
                    None
                }
            }
        } else {
            Some(value_of(if op is Divide { (l.value / r.value) as int } else { (l.value % r.value) as int }, l.bits, false, l.rank))
        }
    } else {
        binary_spec(op, l, r)
    }
}

/// The diagnostic of a vector lane operation without a value: a shift count
/// that is negative or not below the lane width, a signed left shift that
/// overflows or shifts a negative lane, a zero divisor, the one signed
/// division that overflows, other signed overflow, or the scalar rule's
/// diagnostic for a comparison.
pub open spec fn vector_binary_error(op: BinaryOperator, l: IntegerValue, r: IntegerValue) -> Seq<char> {
    if op is ShiftLeft || op is ShiftRight {
        if !(r.well_formed() && r.signed_value_spec() >= 0 && r.value <= u64::MAX) {
            "negative vector shift count"@
        } else if r.value >= l.bits {
            "vector shift count exceeds lane width"@
        } else {
            "signed vector left shift overflows or has a negative operand"@
        }
    } else if (op is Plus || op is Minus || op is Multiply) && l.signed {
        "signed integer overflow"@
    } else if op is Divide || op is Modulo {
        if r.value == 0 {
            "division by zero in vector constant"@
        } else if l.signed && r.signed_value_spec() == -1 && source_int(l) == -pow2((l.bits - 1) as nat) {
            "signed vector division overflows"@
        } else {
            "signed integer overflow"@
        }
    } else {
        binary_error(op, l, r)
    }
}

/// Shifts one vector lane, with the lane diagnostics.
fn vector_shift(left_shift: bool, left: IntegerValue, right: IntegerValue, offset: usize) -> (r: Result<IntegerValue, Error>)
    requires
        left.well_formed(),
    ensures
        match shift_spec(left_shift, left, right) {
            Some(v) => r == Ok::<IntegerValue, Error>(v),
            None => r matches Err(e) && e.offset == offset && e.message@ == vector_binary_error(
                if left_shift { BinaryOperator::ShiftLeft } else { BinaryOperator::ShiftRight },
                left,
                right,
            ),
        },
{
    let count = match right.as_u64() {
        Ok(c) => c,
        Err(_) => return Err(Error::new(offset, "negative vector shift count")),
    };
    if count >= left.bits as u64 {
        return Err(Error::new(offset, "vector shift count exceeds lane width"));
    }
    match shift(left_shift, left, right, offset) {
        Ok(v) => Ok(v),
        Err(_) => Err(Error::new(offset, "signed vector left shift overflows or has a negative operand")),
    }
}

fn vector_divide(op: BinaryOperator, left: IntegerValue, right: IntegerValue, offset: usize) -> (r: Result<IntegerValue, Error>)
    requires
        left.well_formed(),
        right.well_formed(),
        op is Divide || op is Modulo,
    ensures
        match vector_binary_spec(op, left, right) {
            Some(v) => r == Ok::<IntegerValue, Error>(v),
            None => r matches Err(e) && e.offset == offset && e.message@ == vector_binary_error(op, left, right),
        },
{
    proof {
        lemma2_to64();
        lemma2_to64_rest();
        lemma_pow2_adds(64, 64);
        lemma_pow2_adds(64, 63);
        lemma_reading(left);
        lemma_reading(right);
        lemma_small_mod(left.value as nat, pow2(left.bits as nat));
        lemma_small_mod(right.value as nat, pow2(right.bits as nat));
        lemma_wrapped_mod(left.value as int, left.bits, left.signed);
        lemma_wrapped_mod(right.value as int, right.bits, right.signed);
        lemma_pow2_unfold(left.bits as nat);
        lemma_pow2_pos((left.bits - 1) as nat);
        if left.bits < 128 {
            lemma_pow2_strictly_increases((left.bits - 1) as nat, 127);
            lemma_pow2_strictly_increases(left.bits as nat, 128);
        }
    }
    if right.value == 0 {
        return Err(Error::new(offset, "division by zero in vector constant"));
    }
    let divide = match op {
        BinaryOperator::Divide => true,
        _ => false,
    };
    if left.signed {
        let (x, y) = (left.signed_value(), right.signed_value());
        proof {
            crate::arith::lemma_u128_shl_one((left.bits - 1) as u128);
        }
        if y == -1 && left.value == (1u128 << (left.bits - 1)) {
            return Err(Error::new(offset, "signed vector division overflows"));
        }
        proof {
            lemma_c_div_rem(x as int, y as int);
        }
        let v = if divide {
            x.checked_div(y)
        } else {
            x.checked_rem(y)
        };
        return signed_result(v, left, offset);
    }
    let value = if divide {
        proof {
            vstd::arithmetic::div_mod::lemma_div_is_ordered_by_denominator(left.value as int, 1, right.value as int);
            lemma_small_mod((left.value / right.value) as nat, pow2(left.bits as nat));
        }
        left.value / right.value
    } else {
        proof {
            vstd::arithmetic::div_mod::lemma_mod_decreases(left.value as nat, right.value as nat);
            lemma_small_mod((left.value % right.value) as nat, pow2(left.bits as nat));
        }
        left.value % right.value
    };
    Ok(IntegerValue::new(value, left.bits, false, left.rank))
}

/// Evaluates one lane of a vector integer operator. Lanes keep their width:
/// scalar promotions would change narrow shifts and signed overflow decisions.
pub fn vector_integer_binary(op: BinaryOperator, left: IntegerValue, right: IntegerValue, offset: usize) -> (r: Result<IntegerValue, Error>)
    requires
        left.well_formed(),
        right.well_formed(),
    ensures
        match vector_binary_spec(op, left, right) {
            Some(v) => r == Ok::<IntegerValue, Error>(v),
            None => r matches Err(e) && e.offset == offset && e.message@ == vector_binary_error(op, left, right),
        },
{
    proof {
        lemma2_to64();
        lemma2_to64_rest();
        lemma_pow2_adds(64, 64);
        lemma_pow2_adds(64, 63);
        lemma_reading(left);
        lemma_reading(right);
        lemma_small_mod(left.value as nat, pow2(left.bits as nat));
        lemma_small_mod(right.value as nat, pow2(right.bits as nat));
        lemma_wrapped_mod(left.value as int, left.bits, left.signed);
        lemma_wrapped_mod(right.value as int, right.bits, right.signed);
        lemma_pow2_unfold(left.bits as nat);
        lemma_pow2_pos((left.bits - 1) as nat);
        if left.bits < 128 {
            lemma_pow2_strictly_increases((left.bits - 1) as nat, 127);
            lemma_pow2_strictly_increases(left.bits as nat, 128);
        }
    }
    let ring = match op {
        BinaryOperator::Plus | BinaryOperator::Minus | BinaryOperator::Multiply => true,
        _ => false,
    };
    if ring && left.signed {
        let (x, y) = (left.signed_value(), right.signed_value());
        let v = match op {
            BinaryOperator::Plus => x.checked_add(y),
            BinaryOperator::Minus => x.checked_sub(y),
            _ => x.checked_mul(y),
        };
        return signed_result(v, left, offset);
    }
    let value = match op {
        BinaryOperator::Plus => {
            proof {
                if left.value + right.value > u128::MAX {
                    lemma_mod_pow2_shift(left.value + right.value - pow2(128), 1, left.bits as nat, 128);
                }
            }
            left.value.wrapping_add(right.value)
        },
        BinaryOperator::Minus => {
            proof {
                if left.value - right.value < 0 {
                    lemma_mod_pow2_shift(left.value - right.value, 1, left.bits as nat, 128);
                }
            }
            left.value.wrapping_sub(right.value)
        },
        BinaryOperator::Multiply => {
            proof {
                lemma_mod_pow2_twice(left.value * right.value, left.bits as nat, 128);
            }
            left.value.wrapping_mul(right.value)
        },
        BinaryOperator::BitwiseAnd => left.value & right.value,
        BinaryOperator::BitwiseOr => left.value | right.value,
        BinaryOperator::BitwiseXor => left.value ^ right.value,
        BinaryOperator::ShiftLeft => return vector_shift(true, left, right, offset),
        BinaryOperator::ShiftRight => return vector_shift(false, left, right, offset),
        BinaryOperator::Divide | BinaryOperator::Modulo => return vector_divide(op, left, right, offset),
        _ => return binary(op, left, right, offset),
    };
    Ok(IntegerValue::new(value, left.bits, left.signed, left.rank))
}

/// The unary operators of C expressions.
#[derive(Clone, Copy, Debug, PartialEq, Eq, Structural)]
pub enum UnaryOperator {
    PostIncrement,
    PostDecrement,
    PreIncrement,
    PreDecrement,
    Address,
    Indirection,
    Plus,
    Minus,
    Complement,
    Negate,
    /// GNU `__real__`.
    Real,
    /// GNU `__imag__`.
    Imaginary,
}

/// The value of `op value` in an integer constant expression, `None` when
/// the operator is not permitted or the result is not representable.
pub open spec fn unary_spec(op: UnaryOperator, v: IntegerValue) -> Option<IntegerValue> {
    let p = promoted(v);
    match op {
        UnaryOperator::Real => Some(v),
        UnaryOperator::Imaginary => Some(IntegerValue { value: 0, ..v }),
        UnaryOperator::Plus => Some(p),
        UnaryOperator::Minus => if p.signed {
            if fits_signed(-p.signed_value_spec(), p.bits) {
                Some(value_of(-p.signed_value_spec(), p.bits, true, p.rank))
            } else {
                None
            }
        } else {
            Some(value_of(-(p.value as int), p.bits, false, p.rank))
        },
        UnaryOperator::Complement => Some(value_of(u128::MAX - p.value, p.bits, p.signed, p.rank)),
        UnaryOperator::Negate => Some(int_bool(p.value == 0)),
        _ => None,
    }
}

/// Evaluates a unary operator in an integer constant expression: `__real__`
/// keeps the value and `__imag__` of an integer is zero; the arithmetic
/// operators act on the promoted value, with signed negation required to be
/// representable.
pub fn unary(op: UnaryOperator, value: IntegerValue, offset: usize) -> (r: Result<IntegerValue, Error>)
    requires
        value.well_formed(),
    ensures
        match unary_spec(op, value) {
            Some(v) => r == Ok::<IntegerValue, Error>(v),
            None => (r matches Err(e) && e.offset == offset && e.message@ == unary_error(op)),
        },
{
    match op {
        UnaryOperator::Real => {
            return Ok(value);
        },
        UnaryOperator::Imaginary => {
            return Ok(IntegerValue { value: 0, ..value });
        },
        _ => {},
    }
    let p = promote(value);
    proof {
        lemma2_to64();
        lemma2_to64_rest();
        lemma_pow2_adds(64, 64);
        lemma_pow2_pos(p.bits as nat);
        if value.rank < 3 {
            vstd::arithmetic::div_mod::lemma_mod_bound(source_int(value), pow2(32) as int);
        }
        assert(p == promoted(value));
    }
    match op {
        UnaryOperator::Plus => Ok(p),
        UnaryOperator::Minus => {
            if p.signed {
                let v = p.signed_value();
                let negated = if v == i128::MIN {
                    None
                } else {
                    Some(-v)
                };
                proof {
                    if v == i128::MIN {
                        lemma_pow2_adds(64, 63);
                        assert(pow2(127) == 0x8000_0000_0000_0000_0000_0000_0000_0000);
                        if p.bits < 128 {
                            lemma_pow2_strictly_increases((p.bits - 1) as nat, 127);
                        }
                    }
                }
                signed_result(negated, p, offset)
            } else {
                let stored: u128 = if p.value == 0 {
                    0
                } else {
                    u128::MAX - p.value + 1
                };
                proof {
                    if p.value != 0 {
                        lemma_mod_pow2_shift(-(p.value as int), 1, p.bits as nat, 128);
                    }
                }
                Ok(IntegerValue::new(stored, p.bits, false, p.rank))
            }
        },
        UnaryOperator::Complement => {
            let stored = p.value;
            let flipped = !stored;
            assert(flipped == u128::MAX - stored) by (bit_vector)
                requires
                    flipped == !stored,
            ;
            Ok(IntegerValue::new(flipped, p.bits, p.signed, p.rank))
        },
        UnaryOperator::Negate => Ok(IntegerValue::from_int(if p.value == 0 { 1 } else { 0 })),
        _ => Err(Error::new(offset, "operator is not permitted in an integer constant expression")),
    }
}

/// A cast in an integer constant expression: to `_Bool` the value's truth,
/// otherwise the value converted to the destination type.
pub fn cast_integer(value: IntegerValue, destination: IntegerValue, to_bool: bool) -> (r: IntegerValue)
    requires
        destination.bits <= 128,
    ensures
        to_bool ==> r == (IntegerValue { value: if value.value != 0 { 1 } else { 0 }, bits: 8, signed: false, rank: 0 }),
        !to_bool ==> r.value == source_int(value) % pow2(destination.bits as nat) as int && r.bits == destination.bits
            && r.signed == destination.signed && r.rank == destination.rank,
{
    if to_bool {
        proof {
            lemma2_to64();
        }
        IntegerValue::new(if value.value != 0 { 1 } else { 0 }, 8, false, 0)
    } else {
        convert(value, destination)
    }
}

/// A conditional expression in an integer constant expression: the branch
/// the condition selects (GNU `?:` without a middle operand yields the
/// condition), converted to the common type of the two branch types.
pub fn conditional(
    condition: IntegerValue,
    then_value: Option<IntegerValue>,
    else_value: IntegerValue,
    then_type: IntegerValue,
    else_type: IntegerValue,
) -> (r: IntegerValue)
    requires
        then_type.bits <= 128,
        else_type.bits <= 128,
    ensures
        ({
            let chosen = if condition.value != 0 {
                match then_value {
                    Some(v) => v,
                    None => condition,
                }
            } else {
                else_value
            };
            &&& (r.signed, r.bits, r.rank) == common_type(then_type, else_type)
            &&& r.value == source_int(chosen) % pow2(r.bits as nat) as int
        }),
{
    let destination = common(then_type, else_type);
    let chosen = if condition.truth() {
        match then_value {
            Some(v) => v,
            None => condition,
        }
    } else {
        else_value
    };
    proof {
        lemma_common_width(then_type, else_type);
    }
    convert(chosen, destination)
}

/// The common type of two operands is at most 128 bits wide.
proof fn lemma_common_width(left: IntegerValue, right: IntegerValue)
    requires
        left.bits <= 128,
        right.bits <= 128,
    ensures
        common_type(left, right).1 <= 128,
{
}

/// Adds `index` elements of `element_size` bytes to an `offsetof` byte
/// count, refusing a result beyond 64 bits.
pub fn offsetof_index(offset_bytes: u64, index: u64, element_size: u64, offset: usize) -> (r: Result<u64, Error>)
    ensures
        r is Ok <==> offset_bytes + index * element_size <= u64::MAX,
        r matches Ok(v) ==> v == offset_bytes + index * element_size,
{
    let scaled = match index.checked_mul(element_size) {
        Some(v) => v,
        None => {
            proof {
                assert(index * element_size >= 0) by (nonlinear_arith);
            }
            return Err(Error::new(offset, "offsetof overflow"));
        },
    };
    match offset_bytes.checked_add(scaled) {
        Some(v) => Ok(v),
        None => Err(Error::new(offset, "offsetof overflow")),
    }
}

/// What `sizeof` reads of a type: `void` and function types have size one
/// as a GNU extension, an array of unknown length has none, and other
/// types have their layout size.
#[derive(Clone, Copy, Debug, PartialEq, Eq, Structural)]
pub enum SizeClass {
    VoidOrFunction,
    IncompleteArray,
    Object,
}

/// The value of `sizeof` on a type as a `size_t`: refused for a
/// variable-length array and for an array of unknown length.
pub fn size_of(
    variable_length: bool,
    class: SizeClass,
    layout_bytes: u64,
    pointer_width: u8,
    long_width: u8,
    offset: usize,
) -> (r: Result<IntegerValue, Error>)
    requires
        pointer_width == 32 || pointer_width == 64,
    ensures
        r is Ok <==> !variable_length && class != SizeClass::IncompleteArray,
        r matches Ok(v) ==> v == size_value_spec(
            if class == SizeClass::VoidOrFunction { 1 } else { layout_bytes },
            pointer_width,
            long_width,
        ),
{
    if variable_length {
        return Err(Error::new(offset, "sizeof a variable-length array is not an integer constant expression"));
    }
    match class {
        SizeClass::VoidOrFunction => Ok(size_value(1, pointer_width, long_width)),
        SizeClass::IncompleteArray => Err(Error::new(offset, "sizeof requires a complete object type")),
        SizeClass::Object => Ok(size_value(layout_bytes, pointer_width, long_width)),
    }
}


/// A written expression, as the integer-constant-expression rule reads it,
/// at a source offset. Facts that another analysis computes (types,
/// evaluations, selections) are carried in the node, each with the error
/// that analysis gives, and are consulted only where the rule reaches them.
#[derive(Debug)]
pub struct ConstantNode {
    pub offset: usize,
    pub form: ConstantForm,
}

/// The forms of expression the rule distinguishes.
#[derive(Debug)]
pub enum ConstantForm {
    /// A constant, and whether it is a floating constant.
    Constant { floating: bool },
    /// An identifier, and whether it names an enumeration constant.
    Identifier { enumerator: bool },
    /// A cast: whether its type resolves to an integer, `_Bool` or
    /// enumeration type; whether its operand is a null-based member offset;
    /// whether its operand is a real floating literal; and the operand.
    Cast {
        integer: Result<bool, Error>,
        null_offset: Result<bool, Error>,
        real_floating_literal: bool,
        operand: Box<ConstantNode>,
    },
    /// A unary operator: whether it is `+`, `-`, `~`, `!`, `__real__` or
    /// `__imag__`, and its operand.
    Unary { arithmetic: bool, operand: Box<ConstantNode> },
    /// A binary operator: whether it is arithmetic, a shift, a comparison,
    /// bitwise or logical (not an assignment or comma), and its operands.
    Binary { arithmetic: bool, lhs: Box<ConstantNode>, rhs: Box<ConstantNode> },
    /// `c ? t : e`, with GNU's omitted middle operand as `None`.
    Conditional { condition: Box<ConstantNode>, then_expression: Option<Box<ConstantNode>>, else_expression: Box<ConstantNode> },
    /// `sizeof(type)`: whether the type is a variable-length array.
    SizeOfType { variable_length: Result<bool, Error> },
    /// `sizeof expression`: whether its type is a variable-length array.
    SizeOfValue { variable_length: Result<bool, Error> },
    /// `_Alignof`.
    AlignOf,
    /// `offsetof`, with the index expressions of its designator.
    OffsetOf { indexes: Vec<ConstantNode> },
    /// `__builtin_types_compatible_p`, and whether its check succeeds.
    TypesCompatible { checked: Result<(), Error> },
    /// `__builtin_choose_expr` or `_Generic`, with the operand it selects.
    Selected { selected: Result<Box<ConstantNode>, Error> },
    /// A builtin call whose value is folded here (atomic lock-freedom
    /// queries, byte swaps and bit counts, overflow predicates,
    /// `__builtin_expect`), and whether its evaluation succeeds.
    Folded { evaluates: bool },
    /// An object-size query: whether the frontend folds it.
    ObjectSize { frontend_fold: Result<bool, Error> },
    /// `__builtin_constant_p`, and whether its call checks.
    ConstantP { checked: Result<(), Error> },
    /// Anything else.
    Other,
}

/// The diagnostic of an expression nested 128 levels deep.
pub open spec fn nesting_message() -> Seq<char> {
    "constant expression nesting exceeds the 128-level limit"@
}

/// Whether an expression at nesting `depth` is an integer constant
/// expression: `Err(Fact(e))` where a consulted fact is the error `e`,
/// `Err(At(offset, message))` at the expression whose nesting reaches 128 levels.
pub open spec fn integer_constant(node: ConstantNode, depth: nat) -> Result<bool, EvalFailure>
    decreases 128 - depth, 1int, 0int,
{
    if depth >= 128 {
        Err(EvalFailure::At(node.offset, nesting_message()))
    } else {
        match node.form {
            ConstantForm::Constant { floating } => Ok(!floating),
            ConstantForm::Identifier { enumerator } => Ok(enumerator),
            ConstantForm::Cast { integer, null_offset, real_floating_literal, operand } => match integer {
                Err(e) => Err(EvalFailure::Fact(e)),
                Ok(false) => Ok(false),
                Ok(true) => match null_offset {
                    Err(e) => Err(EvalFailure::Fact(e)),
                    Ok(true) => Ok(true),
                    Ok(false) => if real_floating_literal {
                        Ok(true)
                    } else {
                        integer_constant(*operand, depth + 1)
                    },
                },
            },
            ConstantForm::Unary { arithmetic, operand } => if !arithmetic {
                Ok(false)
            } else {
                integer_constant(*operand, depth + 1)
            },
            ConstantForm::Binary { arithmetic, lhs, rhs } => if !arithmetic {
                Ok(false)
            } else {
                match integer_constant(*lhs, depth + 1) {
                    Ok(true) => integer_constant(*rhs, depth + 1),
                    other => other,
                }
            },
            ConstantForm::Conditional { condition, then_expression, else_expression } => match integer_constant(
                *condition,
                depth + 1,
            ) {
                Ok(true) => match then_expression {
                    Some(t) => match integer_constant(*t, depth + 1) {
                        Ok(true) => integer_constant(*else_expression, depth + 1),
                        other => other,
                    },
                    None => integer_constant(*else_expression, depth + 1),
                },
                other => other,
            },
            ConstantForm::SizeOfType { variable_length } => match variable_length {
                Ok(v) => Ok(!v),
                Err(e) => Err(EvalFailure::Fact(e)),
            },
            ConstantForm::SizeOfValue { variable_length } => match variable_length {
                Ok(v) => Ok(!v),
                Err(e) => Err(EvalFailure::Fact(e)),
            },
            ConstantForm::AlignOf => Ok(true),
            ConstantForm::OffsetOf { indexes } => integer_constant_indexes(indexes@, 0, depth),
            ConstantForm::TypesCompatible { checked } => match checked {
                Ok(()) => Ok(true),
                Err(e) => Err(EvalFailure::Fact(e)),
            },
            ConstantForm::Selected { selected } => match selected {
                Ok(s) => integer_constant(*s, depth + 1),
                Err(e) => Err(EvalFailure::Fact(e)),
            },
            ConstantForm::Folded { evaluates } => Ok(evaluates),
            ConstantForm::ObjectSize { frontend_fold } => match frontend_fold {
                Ok(f) => Ok(f),
                Err(e) => Err(EvalFailure::Fact(e)),
            },
            ConstantForm::ConstantP { checked } => match checked {
                Ok(()) => Ok(true),
                Err(e) => Err(EvalFailure::Fact(e)),
            },
            ConstantForm::Other => Ok(false),
        }
    }
}

/// Whether the `offsetof` indexes from position `i` are all integer
/// constant expressions, checked in order.
pub open spec fn integer_constant_indexes(indexes: Seq<ConstantNode>, i: int, depth: nat) -> Result<bool, EvalFailure>
    decreases 128 - depth, 0int, indexes.len() - i,
{
    if depth >= 128 {
        Ok(true)
    } else if i < 0 || i >= indexes.len() {
        Ok(true)
    } else {
        match integer_constant(indexes[i], depth + 1) {
            Ok(true) => integer_constant_indexes(indexes, i + 1, depth),
            other => other,
        }
    }
}

/// Distinguishes integer constant expressions from runtime bounds,
/// including expressions that a compiler could fold but which are not C11
/// integer constant expressions. Nesting stops at 128 levels.
pub fn is_integer_constant_expression(node: &ConstantNode, depth: usize) -> (r: Result<bool, Error>)
    ensures
        match (r, integer_constant(*node, depth as nat)) {
            (Ok(b), Ok(c)) => b == c,
            (Err(e), Err(EvalFailure::Fact(f))) => e == f,
            (Err(e), Err(EvalFailure::At(offset, message))) => e.offset == offset && e.message@ == message,
            _ => false,
        },
    decreases 128 - depth, 1int,
{
    if depth >= 128 {
        return Err(Error::new(node.offset, "constant expression nesting exceeds the 128-level limit"));
    }
    match &node.form {
        ConstantForm::Constant { floating } => Ok(!*floating),
        ConstantForm::Identifier { enumerator } => Ok(*enumerator),
        ConstantForm::Cast { integer, null_offset, real_floating_literal, operand } => {
            match integer {
                Err(e) => Err(e.duplicate()),
                Ok(false) => Ok(false),
                Ok(true) => match null_offset {
                    Err(e) => Err(e.duplicate()),
                    Ok(true) => Ok(true),
                    Ok(false) => if *real_floating_literal {
                        Ok(true)
                    } else {
                        is_integer_constant_expression(&**operand, depth + 1)
                    },
                },
            }
        },
        ConstantForm::Unary { arithmetic, operand } => {
            if !*arithmetic {
                Ok(false)
            } else {
                is_integer_constant_expression(&**operand, depth + 1)
            }
        },
        ConstantForm::Binary { arithmetic, lhs, rhs } => {
            if !*arithmetic {
                return Ok(false);
            }
            match is_integer_constant_expression(&**lhs, depth + 1) {
                Ok(true) => is_integer_constant_expression(&**rhs, depth + 1),
                other => other,
            }
        },
        ConstantForm::Conditional { condition, then_expression, else_expression } => {
            match is_integer_constant_expression(&**condition, depth + 1) {
                Ok(true) => {},
                other => {
                    return other;
                },
            }
            match then_expression {
                Some(t) => match is_integer_constant_expression(&**t, depth + 1) {
                    Ok(true) => {},
                    other => {
                        return other;
                    },
                },
                None => {},
            }
            is_integer_constant_expression(&**else_expression, depth + 1)
        },
        ConstantForm::SizeOfType { variable_length } | ConstantForm::SizeOfValue { variable_length } => {
            match variable_length {
                Ok(v) => Ok(!*v),
                Err(e) => Err(e.duplicate()),
            }
        },
        ConstantForm::AlignOf => Ok(true),
        ConstantForm::OffsetOf { indexes } => {
            let mut i: usize = 0;
            while i < indexes.len()
                invariant
                    depth < 128,
                    i <= indexes@.len(),
                    integer_constant(*node, depth as nat) == integer_constant_indexes(indexes@, i as int, depth as nat),
                decreases indexes.len() - i,
            {
                match is_integer_constant_expression(&indexes[i], depth + 1) {
                    Ok(true) => {},
                    other => {
                        return other;
                    },
                }
                i = i + 1;
            }
            Ok(true)
        },
        ConstantForm::TypesCompatible { checked } | ConstantForm::ConstantP { checked } => {
            match checked {
                Ok(()) => Ok(true),
                Err(e) => Err(e.duplicate()),
            }
        },
        ConstantForm::Selected { selected } => {
            match selected {
                Ok(s) => is_integer_constant_expression(&**s, depth + 1),
                Err(e) => Err(e.duplicate()),
            }
        },
        ConstantForm::Folded { evaluates } => Ok(*evaluates),
        ConstantForm::ObjectSize { frontend_fold } => {
            match frontend_fold {
                Ok(f) => Ok(*f),
                Err(e) => Err(e.duplicate()),
            }
        },
        ConstantForm::Other => Ok(false),
    }
}


pub(crate) proof fn lemma_value_of_well_formed(x: int, bits: u8, signed: bool, rank: u8)
    requires
        supported_width(bits),
        rank <= 6,
    ensures
        value_of(x, bits, signed, rank).well_formed(),
        value_of(x, bits, signed, rank).value as int == x % pow2(bits as nat) as int,
{
    lemma2_to64();
    lemma_pow2_adds(64, 64);
    lemma_pow2_pos(bits as nat);
    if bits < 128 {
        lemma_pow2_strictly_increases(bits as nat, 128);
    }
    assert(pow2(128) == 0x1_0000_0000_0000_0000_0000_0000_0000_0000);
}

proof fn lemma_int_bool_well_formed(b: bool)
    ensures
        int_bool(b).well_formed(),
{
    lemma2_to64();
}

proof fn lemma_promoted_well_formed(v: IntegerValue)
    requires
        v.well_formed(),
    ensures
        promoted(v).well_formed(),
{
    if v.rank < 3 {
        lemma_value_of_well_formed(source_int(v), 32, true, 3);
    }
}

proof fn lemma_unary_well_formed(op: UnaryOperator, v: IntegerValue)
    requires
        v.well_formed(),
    ensures
        unary_spec(op, v) matches Some(r) ==> r.well_formed(),
{
    lemma_promoted_well_formed(v);
    lemma_pow2_pos(v.bits as nat);
    let p = promoted(v);
    lemma_value_of_well_formed(-p.signed_value_spec(), p.bits, true, p.rank);
    lemma_value_of_well_formed(-(p.value as int), p.bits, false, p.rank);
    lemma_value_of_well_formed(u128::MAX - p.value, p.bits, p.signed, p.rank);
    lemma_int_bool_well_formed(p.value == 0);
}

proof fn lemma_binary_well_formed(op: BinaryOperator, l: IntegerValue, r: IntegerValue)
    requires
        l.well_formed(),
        r.well_formed(),
    ensures
        binary_spec(op, l, r) matches Some(v) ==> v.well_formed(),
{
    lemma_int_bool_well_formed(true);
    lemma_int_bool_well_formed(false);
    lemma_promoted_well_formed(l);
    lemma_promoted_well_formed(r);
    let pl = promoted(l);
    match binary_spec(op, l, r) {
        Some(v) => {
            if op is ShiftLeft || op is ShiftRight {
                lemma_value_of_well_formed(v.value as int, pl.bits, pl.signed, pl.rank);
                assert forall|x: int| #[trigger] value_of(x, pl.bits, pl.signed, pl.rank).well_formed() by {
                    lemma_value_of_well_formed(x, pl.bits, pl.signed, pl.rank);
                }
                assert forall|x: int| #[trigger] value_of(x, pl.bits, true, pl.rank).well_formed() by {
                    lemma_value_of_well_formed(x, pl.bits, true, pl.rank);
                }
                assert forall|x: int| #[trigger] value_of(x, pl.bits, false, pl.rank).well_formed() by {
                    lemma_value_of_well_formed(x, pl.bits, false, pl.rank);
                }
            } else if !(op is LogicalAnd || op is LogicalOr) {
                let (signed, bits, rank) = common_type(l, r);
                assert(supported_width(bits) && rank <= 6);
                assert forall|x: int, sg: bool| #[trigger] value_of(x, bits, sg, rank).well_formed() by {
                    lemma_value_of_well_formed(x, bits, sg, rank);
                }
            }
        },
        None => {},
    }
}

/// An expression as integer constant evaluation reads it, at a source
/// offset. Facts that another analysis computes (literal decoding, types,
/// builtin folds, selections) are carried in the node, each with the error
/// that analysis gives, and are consulted only where evaluation reaches
/// them.
#[derive(Debug)]
pub struct ValueNode {
    pub offset: usize,
    pub form: ValueForm,
}

/// The forms integer constant evaluation distinguishes.
#[derive(Debug)]
pub enum ValueForm {
    /// A decoded integer or character literal.
    Literal(Result<IntegerValue, Error>),
    /// A floating constant, which is not an integer constant expression.
    Floating,
    /// An identifier, with the enumeration constant it names, if any.
    Identifier { name: String, value: Option<IntegerValue> },
    /// A value another analysis folds: a type-compatibility query, an
    /// atomic lock-freedom query, an overflow predicate, `__builtin_expect`,
    /// `__builtin_constant_p`, an object-size query, a byte swap or bit
    /// count, `sizeof`, `_Alignof` or `offsetof`.
    Folded(Result<IntegerValue, Error>),
    /// `__builtin_choose_expr` or `_Generic`, with the operand it selects.
    Selected(Result<Box<ValueNode>, Error>),
    /// A cast: the integer reading of its type (an error where the type is
    /// not an integer type), whether that type is `_Bool`, the converted
    /// value when the operand is a real floating literal, the size value
    /// when the operand is a null-based member offset, and the operand.
    Cast {
        destination: Result<IntegerValue, Error>,
        to_bool: bool,
        floating_literal: Option<Result<IntegerValue, Error>>,
        null_offset: Result<Option<IntegerValue>, Error>,
        operand: Box<ValueNode>,
    },
    /// A unary operator and its operand.
    Unary { operator: UnaryOperator, operand: Box<ValueNode> },
    /// A binary operator, its operands, and, for `&&` and `||`, whether the
    /// right operand has scalar type (checked even when it is not
    /// evaluated).
    Binary { operator: BinaryOperator, lhs: Box<ValueNode>, rhs: Box<ValueNode>, rhs_scalar: Result<(), Error> },
    /// `c ? t : e`: the integer readings of the types of the value
    /// operands (the condition's where GNU's middle operand is omitted),
    /// then the operands.
    Conditional {
        then_type: Result<IntegerValue, Error>,
        else_type: Result<IntegerValue, Error>,
        condition: Box<ValueNode>,
        then_expression: Option<Box<ValueNode>>,
        else_expression: Box<ValueNode>,
    },
    /// Anything else.
    Other,
}

/// Whether every integer value a node carries is well formed.
pub open spec fn value_facts_well_formed(node: ValueNode) -> bool
    decreases node,
{
    match node.form {
        ValueForm::Literal(r) => result_well_formed(r),
        ValueForm::Identifier { value, .. } => match value {
            Some(v) => v.well_formed(),
            None => true,
        },
        ValueForm::Folded(r) => result_well_formed(r),
        ValueForm::Selected(s) => match s {
            Ok(b) => value_facts_well_formed(*b),
            Err(_) => true,
        },
        ValueForm::Cast { destination, to_bool: _, floating_literal, null_offset, operand } => {
            &&& result_well_formed(destination)
            &&& match floating_literal {
                Some(r) => result_well_formed(r),
                None => true,
            }
            &&& match null_offset {
                Ok(Some(v)) => v.well_formed(),
                _ => true,
            }
            &&& value_facts_well_formed(*operand)
        },
        ValueForm::Unary { operator: _, operand } => value_facts_well_formed(*operand),
        ValueForm::Binary { operator: _, lhs, rhs, rhs_scalar: _ } => value_facts_well_formed(*lhs)
            && value_facts_well_formed(*rhs),
        ValueForm::Conditional { then_type, else_type, condition, then_expression, else_expression } => {
            &&& result_well_formed(then_type)
            &&& result_well_formed(else_type)
            &&& value_facts_well_formed(*condition)
            &&& match then_expression {
                Some(t) => value_facts_well_formed(*t),
                None => true,
            }
            &&& value_facts_well_formed(*else_expression)
        },
        _ => true,
    }
}

pub open spec fn result_well_formed(r: Result<IntegerValue, Error>) -> bool {
    match r {
        Ok(v) => v.well_formed(),
        Err(_) => true,
    }
}

/// A fact's value, or its error.
pub open spec fn fact(r: Result<IntegerValue, Error>) -> Result<IntegerValue, EvalFailure> {
    match r {
        Ok(v) => Ok(v),
        Err(e) => Err(EvalFailure::Fact(e)),
    }
}

/// Why an expression has no integer constant value: a consulted fact's
/// error, or a diagnostic at a source offset.
pub enum EvalFailure {
    Fact(Error),
    At(usize, Seq<char>),
}

/// Whether an evaluation outcome is the one the rules give.
pub open spec fn reports_eval(r: Result<IntegerValue, Error>, expected: Result<IntegerValue, EvalFailure>) -> bool {
    match (r, expected) {
        (Ok(v), Ok(w)) => v == w,
        (Err(e), Err(EvalFailure::Fact(f))) => e == f,
        (Err(e), Err(EvalFailure::At(offset, message))) => e.offset == offset && e.message@ == message,
        _ => false,
    }
}

/// The diagnostic of an identifier that names no enumeration constant.
pub open spec fn identifier_message(name: Seq<char>) -> Seq<char> {
    "`"@ + name + "` is not an integer constant"@
}

/// The value a cast gives: the truth of the operand for `_Bool`, else the
/// operand reduced to the destination type.
pub open spec fn cast_value(v: IntegerValue, destination: IntegerValue, to_bool: bool) -> IntegerValue {
    if to_bool {
        IntegerValue { value: if v.value != 0 { 1 } else { 0 }, bits: 8, signed: false, rank: 0 }
    } else {
        value_of(source_int(v), destination.bits, destination.signed, destination.rank)
    }
}

/// The value of an integer constant expression: `Err(Fact(e))` where a
/// consulted fact is the error `e`, `Err(At(offset, message))` with the
/// offending expression's offset and diagnostic where the expression is
/// not a valid integer constant (a floating constant, an identifier that
/// is no enumeration constant, an operator not permitted, overflow, a
/// division by zero, an undefined shift).
pub open spec fn evaluate(node: ValueNode) -> Result<IntegerValue, EvalFailure>
    decreases node,
{
    match node.form {
        ValueForm::Literal(r) => fact(r),
        ValueForm::Floating => Err(EvalFailure::At(node.offset, "floating-point expression is not an integer constant expression"@)),
        ValueForm::Identifier { name, value } => match value {
            Some(v) => Ok(v),
            None => Err(EvalFailure::At(node.offset, identifier_message(name@))),
        },
        ValueForm::Folded(r) => fact(r),
        ValueForm::Selected(s) => match s {
            Ok(b) => evaluate(*b),
            Err(e) => Err(EvalFailure::Fact(e)),
        },
        ValueForm::Cast { destination, to_bool, floating_literal, null_offset, operand } => match destination {
            Err(e) => Err(EvalFailure::Fact(e)),
            Ok(d) => match floating_literal {
                Some(r) => fact(r),
                None => match null_offset {
                    Err(e) => Err(EvalFailure::Fact(e)),
                    Ok(Some(v)) => Ok(cast_value(v, d, to_bool)),
                    Ok(None) => match evaluate(*operand) {
                        Ok(v) => Ok(cast_value(v, d, to_bool)),
                        Err(e) => Err(e),
                    },
                },
            },
        },
        ValueForm::Unary { operator, operand } => match evaluate(*operand) {
            Err(e) => Err(e),
            Ok(v) => match unary_spec(operator, v) {
                Some(r) => Ok(r),
                None => Err(EvalFailure::At(node.offset, unary_error(operator))),
            },
        },
        ValueForm::Binary { operator, lhs, rhs, rhs_scalar } => match evaluate(*lhs) {
            Err(e) => Err(e),
            Ok(l) => {
                let logical = operator is LogicalAnd || operator is LogicalOr;
                if logical && rhs_scalar is Err {
                    Err(EvalFailure::Fact(rhs_scalar->Err_0))
                } else if operator is LogicalAnd && l.value == 0 {
                    Ok(int_bool(false))
                } else if operator is LogicalOr && l.value != 0 {
                    Ok(int_bool(true))
                } else {
                    match evaluate(*rhs) {
                        Err(e) => Err(e),
                        Ok(r) => match binary_spec(operator, l, r) {
                            Some(v) => Ok(v),
                            None => Err(EvalFailure::At(node.offset, binary_error(operator, l, r))),
                        },
                    }
                }
            },
        },
        ValueForm::Conditional { then_type, else_type, condition, then_expression, else_expression } => match then_type {
            Err(e) => Err(EvalFailure::Fact(e)),
            Ok(tt) => match else_type {
                Err(e) => Err(EvalFailure::Fact(e)),
                Ok(et) => match evaluate(*condition) {
                    Err(e) => Err(e),
                    Ok(c) => {
                        let chosen = if c.value != 0 {
                            match then_expression {
                                Some(t) => evaluate(*t),
                                None => Ok(c),
                            }
                        } else {
                            evaluate(*else_expression)
                        };
                        match chosen {
                            Err(e) => Err(e),
                            Ok(v) => {
                                let (signed, bits, rank) = common_type(tt, et);
                                Ok(value_of(source_int(v), bits, signed, rank))
                            },
                        }
                    },
                },
            },
        },
        ValueForm::Other => Err(EvalFailure::At(node.offset, "expression is not a supported integer constant expression"@)),
    }
}

/// Evaluation only yields well-formed integers: every value an expression
/// evaluates to fits its width, which is a supported one, with a valid
/// rank, whenever the facts it was built from do.
pub proof fn lemma_evaluate_well_formed(node: ValueNode)
    requires
        value_facts_well_formed(node),
    ensures
        evaluate(node) matches Ok(v) ==> v.well_formed(),
    decreases node,
{
    match node.form {
        ValueForm::Selected(s) => match s {
            Ok(b) => lemma_evaluate_well_formed(*b),
            Err(_) => {},
        },
        ValueForm::Cast { destination, to_bool, floating_literal, null_offset, operand } => {
            lemma_evaluate_well_formed(*operand);
            lemma2_to64();
            match destination {
                Ok(d) => {
                    assert forall|x: int| #[trigger] value_of(x, d.bits, d.signed, d.rank).well_formed() by {
                        lemma_value_of_well_formed(x, d.bits, d.signed, d.rank);
                    }
                },
                Err(_) => {},
            }
        },
        ValueForm::Unary { operator, operand } => {
            lemma_evaluate_well_formed(*operand);
            match evaluate(*operand) {
                Ok(v) => lemma_unary_well_formed(operator, v),
                Err(_) => {},
            }
        },
        ValueForm::Binary { operator, lhs, rhs, rhs_scalar: _ } => {
            lemma_evaluate_well_formed(*lhs);
            lemma_evaluate_well_formed(*rhs);
            lemma_int_bool_well_formed(true);
            lemma_int_bool_well_formed(false);
            match (evaluate(*lhs), evaluate(*rhs)) {
                (Ok(l), Ok(r)) => lemma_binary_well_formed(operator, l, r),
                _ => {},
            }
        },
        ValueForm::Conditional { then_type, else_type, condition, then_expression, else_expression } => {
            lemma_evaluate_well_formed(*condition);
            match then_expression {
                Some(t) => lemma_evaluate_well_formed(*t),
                None => {},
            }
            lemma_evaluate_well_formed(*else_expression);
            match (then_type, else_type) {
                (Ok(tt), Ok(et)) => {
                    let (signed, bits, rank) = common_type(tt, et);
                    assert(supported_width(bits) && rank <= 6);
                    assert forall|x: int| #[trigger] value_of(x, bits, signed, rank).well_formed() by {
                        lemma_value_of_well_formed(x, bits, signed, rank);
                    }
                },
                _ => {},
            }
        },
        _ => {},
    }
}


fn fact_value(r: &Result<IntegerValue, Error>) -> (v: Result<IntegerValue, Error>)
    ensures
        reports_eval(v, fact(*r)),
{
    match r {
        Ok(x) => Ok(*x),
        Err(e) => Err(e.duplicate()),
    }
}

fn identifier_error(name: &String, offset: usize) -> (e: Error)
    ensures
        e.offset == offset,
        e.message@ == identifier_message(name@),
{
    let message = String::from_str("`").concat(name.as_str()).concat("` is not an integer constant");
    Error { message, offset }
}

/// Evaluates an integer constant expression with the target's integer
/// rules: literals and enumeration constants, the folds other analyses
/// give, casts (a `_Bool` cast takes the operand's truth; a real floating
/// literal converts directly), the unary and binary operators with their
/// overflow and undefined-behavior errors, `&&` and `||` short-circuiting
/// evaluation but not the check of their right operand, and conditionals
/// converted to the common type of their value operands.
pub fn eval(node: &ValueNode) -> (r: Result<IntegerValue, Error>)
    requires
        value_facts_well_formed(*node),
    ensures
        reports_eval(r, evaluate(*node)),
    decreases node,
{
    let offset = node.offset;
    match &node.form {
        ValueForm::Literal(r) => fact_value(r),
        ValueForm::Folded(r) => fact_value(r),
        ValueForm::Floating => Err(Error::new(offset, "floating-point expression is not an integer constant expression")),
        ValueForm::Identifier { name, value } => match value {
            Some(v) => Ok(*v),
            None => Err(identifier_error(name, offset)),
        },
        ValueForm::Selected(s) => match s {
            Ok(b) => eval(&**b),
            Err(e) => Err(e.duplicate()),
        },
        ValueForm::Cast { destination, to_bool, floating_literal, null_offset, operand } => {
            let d = match destination {
                Ok(d) => *d,
                Err(e) => {
                    return Err(e.duplicate());
                },
            };
            match floating_literal {
                Some(r) => {
                    return fact_value(r);
                },
                None => {},
            }
            let value = match null_offset {
                Err(e) => {
                    return Err(e.duplicate());
                },
                Ok(Some(v)) => *v,
                Ok(None) => match eval(&**operand) {
                    Ok(v) => v,
                    Err(e) => {
                        return Err(e);
                    },
                },
            };
            let r = cast_integer(value, d, *to_bool);
            proof {
                lemma_value_of_well_formed(source_int(value), d.bits, d.signed, d.rank);
                assert(r == cast_value(value, d, *to_bool));
            }
            Ok(r)
        },
        ValueForm::Unary { operator, operand } => {
            let v = match eval(&**operand) {
                Ok(v) => v,
                Err(e) => {
                    return Err(e);
                },
            };
            proof {
                lemma_evaluate_well_formed(**operand);
            }
            unary(*operator, v, offset)
        },
        ValueForm::Binary { operator, lhs, rhs, rhs_scalar } => {
            let l = match eval(&**lhs) {
                Ok(v) => v,
                Err(e) => {
                    return Err(e);
                },
            };
            let logical = match operator {
                BinaryOperator::LogicalAnd | BinaryOperator::LogicalOr => true,
                _ => false,
            };
            if logical {
                match rhs_scalar {
                    Err(e) => {
                        return Err(e.duplicate());
                    },
                    Ok(()) => {},
                }
            }
            let and = match operator {
                BinaryOperator::LogicalAnd => true,
                _ => false,
            };
            let or = match operator {
                BinaryOperator::LogicalOr => true,
                _ => false,
            };
            if and && l.value == 0 {
                let zero = IntegerValue::from_int(0);
                proof {
                    lemma2_to64();
                    assert(zero == int_bool(false));
                }
                return Ok(zero);
            }
            if or && l.value != 0 {
                let one = IntegerValue::from_int(1);
                proof {
                    lemma2_to64();
                    assert(one == int_bool(true));
                }
                return Ok(one);
            }
            let r = match eval(&**rhs) {
                Ok(v) => v,
                Err(e) => {
                    return Err(e);
                },
            };
            proof {
                lemma_evaluate_well_formed(**lhs);
                lemma_evaluate_well_formed(**rhs);
            }
            binary(*operator, l, r, offset)
        },
        ValueForm::Conditional { then_type, else_type, condition, then_expression, else_expression } => {
            let tt = match then_type {
                Ok(t) => *t,
                Err(e) => {
                    return Err(e.duplicate());
                },
            };
            let et = match else_type {
                Ok(t) => *t,
                Err(e) => {
                    return Err(e.duplicate());
                },
            };
            let destination = common(tt, et);
            let c = match eval(&**condition) {
                Ok(v) => v,
                Err(e) => {
                    return Err(e);
                },
            };
            let chosen = if c.value != 0 {
                match then_expression {
                    Some(t) => match eval(&**t) {
                        Ok(v) => v,
                        Err(e) => {
                            return Err(e);
                        },
                    },
                    None => c,
                }
            } else {
                match eval(&**else_expression) {
                    Ok(v) => v,
                    Err(e) => {
                        return Err(e);
                    },
                }
            };
            proof {
                lemma_common_width(tt, et);
            }
            let r = convert(chosen, destination);
            proof {
                let (signed, bits, rank) = common_type(tt, et);
                assert(supported_width(bits) && rank <= 6);
                lemma_value_of_well_formed(source_int(chosen), bits, signed, rank);
                assert(r == value_of(source_int(chosen), bits, signed, rank));
            }
            Ok(r)
        },
        ValueForm::Other => Err(Error::new(offset, "expression is not a supported integer constant expression")),
    }
}


/// The type named by a rank and a signedness has that rank and that
/// signedness: ranks 1 to 6 are the character, `short`, `int`, `long`,
/// `long long` and 128-bit types, on every target.
pub proof fn lemma_kind_for_has_rank_and_sign(rank: u8, signed: bool, char_signed: bool, long_width: u8)
    requires
        1 <= rank <= 6,
    ensures
        kind_shape(kind_for(rank, signed), char_signed, long_width).1 == signed,
        kind_shape(kind_for(rank, signed), char_signed, long_width).2 == rank,
{
}

} // verus!
