//! Bit-level facts about `u128` and `u32` values used by integer and alignment code.

use vstd::arithmetic::div_mod::*;
use vstd::arithmetic::power2::*;
use vstd::bits::*;
use vstd::prelude::*;

verus! {

/// `1 << b` is the power of two `2^b`.
pub proof fn lemma_u128_shl_one(b: u128)
    requires
        b < 128,
    ensures
        (1u128 << b) as nat == pow2(b as nat),
    decreases b,
{
    if b == 0 {
        assert(1u128 << 0u128 == 1u128) by (bit_vector);
        lemma2_to64();
    } else {
        assert((1u128 << b) as int == 2 * ((1u128 << ((b - 1) as u128)) as int)) by (bit_vector)
            requires
                0 < b < 128,
        ;
        lemma_u128_shl_one((b - 1) as u128);
        lemma_pow2_unfold(b as nat);
    }
}

/// `1 << b` as a `u32` is the power of two `2^b`.
pub proof fn lemma_u32_shl_one(b: u32)
    requires
        b < 32,
    ensures
        (1u32 << b) as nat == pow2(b as nat),
{
    lemma_u32_pow2_no_overflow(b as nat);
    lemma_u32_shl_is_mul(1, b);
}

/// Masking with the low `b` bits is reduction modulo `2^b`.
pub proof fn lemma_u128_low_mask(x: u128, b: u128)
    requires
        b < 128,
    ensures
        (x & (((1u128 << b) - 1) as u128)) as nat == x as nat % pow2(b as nat),
    decreases b,
{
    lemma_pow2_pos(b as nat);
    if b == 0 {
        assert(x & (((1u128 << 0u128) - 1) as u128) == 0) by (bit_vector);
        lemma2_to64();
    } else {
        assert((x & (((1u128 << b) - 1) as u128)) as int == 2 * ((x / 2) & (((1u128 << ((b - 1) as u128)) - 1) as u128)) as int
            + (x % 2) as int) by (bit_vector)
            requires
                0 < b < 128,
        ;
        lemma_u128_low_mask(x / 2, (b - 1) as u128);
        lemma_pow2_unfold(b as nat);
        lemma_pow2_pos((b - 1) as nat);
        lemma_mod_breakdown(x as int, 2, pow2((b - 1) as nat) as int);
    }
}

/// Bit `b` of `x` is set exactly when `x / 2^b` is odd.
pub proof fn lemma_u128_bit(x: u128, b: u128)
    requires
        b < 128,
    ensures
        (x & (1u128 << b) != 0) <==> (x as nat / pow2(b as nat)) % 2 == 1,
{
    assert((x & (1u128 << b) != 0) <==> (x >> b) % 2 == 1) by (bit_vector)
        requires
            b < 128,
    ;
    lemma_u128_shr_is_div(x, b);
}

/// Two's-complement reinterpretation of a `u128` as an `i128`.
pub proof fn lemma_u128_as_i128(x: u128)
    ensures
        x <= i128::MAX ==> x as i128 == x as int,
        x > i128::MAX ==> x as i128 == x as int - pow2(128),
{
    assert(pow2(128) == 0x1_0000_0000_0000_0000_0000_0000_0000_0000) by {
        lemma2_to64();
        lemma2_to64_rest();
        lemma_pow2_adds(64, 64);
    }
    assert(x <= 0x7fff_ffff_ffff_ffff_ffff_ffff_ffff_ffff ==> x as i128 == x as int) by (bit_vector);
    assert(x > 0x7fff_ffff_ffff_ffff_ffff_ffff_ffff_ffff ==> x as i128 == x as int
        - 0x1_0000_0000_0000_0000_0000_0000_0000_0000) by (bit_vector);
}

/// Two's-complement reinterpretation of an `i128` as a `u128`.
pub proof fn lemma_i128_as_u128(x: i128)
    ensures
        x >= 0 ==> x as u128 == x as int,
        x < 0 ==> x as u128 == x as int + pow2(128),
{
    assert(pow2(128) == 0x1_0000_0000_0000_0000_0000_0000_0000_0000) by {
        lemma2_to64();
        lemma2_to64_rest();
        lemma_pow2_adds(64, 64);
    }
    assert(x >= 0 ==> x as u128 == x as int) by (bit_vector);
    assert(x < 0 ==> x as u128 == x as int + 0x1_0000_0000_0000_0000_0000_0000_0000_0000) by (bit_vector);
}

} // verus!

verus! {

/// `x` is `2^e` for some `e <= max`.
pub open spec fn is_power_of_two_upto(x: int, max: nat) -> bool {
    exists|e: nat| e <= max && #[trigger] pow2(e) == x
}

/// Returns the exponent `e <= max` with `2^e == x`, if there is one.
pub fn power_of_two_exponent(x: u32, max: u32) -> (r: Option<u32>)
    requires
        max < 32,
    ensures
        r matches Some(e) ==> e <= max && pow2(e as nat) == x,
        r is None ==> !is_power_of_two_upto(x as int, max as nat),
{
    let mut e: u32 = 0;
    while e <= max
        invariant
            max < 32,
            e <= max + 1,
            forall|k: nat| k < e ==> #[trigger] pow2(k) != x,
        decreases max + 1 - e,
    {
        proof {
            lemma_u32_shl_one(e);
        }
        if (1u32 << e) == x {
            return Some(e);
        }
        e = e + 1;
    }
    proof {
        assert forall|k: nat| k <= max implies #[trigger] pow2(k) != x by {}
    }
    None
}

/// Powers of two are strictly increasing.
pub proof fn lemma_pow2_injective(a: nat, b: nat)
    requires
        pow2(a) == pow2(b),
    ensures
        a == b,
{
    if a < b {
        lemma_pow2_strictly_increases(a, b);
    } else if b < a {
        lemma_pow2_strictly_increases(b, a);
    }
}

} // verus!

verus! {

/// Shifting left is multiplication by a power of two, modulo `2^128`.
pub proof fn lemma_u128_shl(x: u128, s: u128)
    requires
        s < 128,
    ensures
        (x << s) as nat == (x as nat * pow2(s as nat)) % pow2(128),
    decreases s,
{
    lemma2_to64();
    lemma2_to64_rest();
    lemma_pow2_adds(64, 64);
    let m = pow2(128);
    if s == 0 {
        assert(x << 0u128 == x) by (bit_vector);
        vstd::arithmetic::div_mod::lemma_small_mod(x as nat, m);
    } else {
        let y = x << ((s - 1) as u128);
        assert((x << s) as int == (2 * ((x << ((s - 1) as u128)) as int)) % 0x1_0000_0000_0000_0000_0000_0000_0000_0000int) by (bit_vector)
            requires
                0 < s < 128,
        ;
        lemma_u128_shl(x, (s - 1) as u128);
        lemma_pow2_unfold(s as nat);
        vstd::arithmetic::div_mod::lemma_mul_mod_noop_right(2, (x as nat * pow2((s - 1) as nat)) as int, m as int);
        vstd::arithmetic::mul::lemma_mul_is_associative(2, x as int, pow2((s - 1) as nat) as int);
        vstd::arithmetic::mul::lemma_mul_is_commutative(2, x as int);
        vstd::arithmetic::mul::lemma_mul_is_associative(x as int, 2, pow2((s - 1) as nat) as int);
    }
}

/// `2^a` divides `2^b` when `a <= b`, so reduction modulo `2^b` then `2^a`
/// is reduction modulo `2^a`.
pub proof fn lemma_mod_pow2_twice(x: int, a: nat, b: nat)
    requires
        a <= b,
    ensures
        (x % pow2(b) as int) % pow2(a) as int == x % pow2(a) as int,
{
    lemma_pow2_adds(a, (b - a) as nat);
    lemma_pow2_pos(a);
    lemma_pow2_pos((b - a) as nat);
    vstd::arithmetic::div_mod::lemma_mod_mod(x, pow2(a) as int, pow2((b - a) as nat) as int);
    vstd::arithmetic::mul::lemma_mul_is_commutative(pow2(a) as int, pow2((b - a) as nat) as int);
}

/// Adding a multiple of `2^b` does not change a residue modulo `2^a`, `a <= b`.
pub proof fn lemma_mod_pow2_shift(x: int, k: int, a: nat, b: nat)
    requires
        a <= b,
    ensures
        (x + k * pow2(b) as int) % pow2(a) as int == x % pow2(a) as int,
{
    lemma_pow2_adds(a, (b - a) as nat);
    lemma_pow2_pos(a);
    vstd::arithmetic::mul::lemma_mul_is_associative(k, pow2((b - a) as nat) as int, pow2(a) as int);
    vstd::arithmetic::mul::lemma_mul_is_commutative(pow2(a) as int, pow2((b - a) as nat) as int);
    vstd::arithmetic::div_mod::lemma_mod_multiples_vanish(k * pow2((b - a) as nat), x, pow2(a) as int);
}

} // verus!
