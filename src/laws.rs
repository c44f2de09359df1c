//! Laws relating the stepping and negation operations of `FloatBitPattern`,
//! stated over the spec functions that their contracts use.
use vstd::prelude::*;
use crate::bit_pattern::{decr_spec, exponent_of, incr_spec, mantissa_of, neg_spec, sign_of};

verus! {

/// Where the exponent field does not wrap, `incr` is the successor in
/// bit-pattern order.
proof fn lemma_incr_is_successor(b: u32)
    requires
        b & 0x7FFF_FFFF != 0x7FFF_FFFF,
    ensures
        incr_spec(b) == b + 1,
{
    assert(incr_spec(b) == b + 1) by (bit_vector)
        requires
            b & 0x7FFF_FFFF != 0x7FFF_FFFF,
    ;
}

/// How one `incr` moves the fields of a pattern whose exponent field is below 0xFF.
proof fn lemma_incr_fields(b: u32)
    requires
        exponent_of(b) < 0xFF,
    ensures
        sign_of(incr_spec(b)) == sign_of(b),
        mantissa_of(b) != 0x7F_FFFF ==> exponent_of(incr_spec(b)) == exponent_of(b)
            && mantissa_of(incr_spec(b)) == mantissa_of(b) + 1,
        mantissa_of(b) == 0x7F_FFFF ==> exponent_of(incr_spec(b)) == exponent_of(b) + 1
            && mantissa_of(incr_spec(b)) == 0,
{
    assert(sign_of(incr_spec(b)) == sign_of(b) && (mantissa_of(b) != 0x7F_FFFF ==> exponent_of(
        incr_spec(b),
    ) == exponent_of(b) && mantissa_of(incr_spec(b)) == mantissa_of(b) + 1) && (mantissa_of(b)
        == 0x7F_FFFF ==> exponent_of(incr_spec(b)) == exponent_of(b) + 1 && mantissa_of(
        incr_spec(b),
    ) == 0)) by (bit_vector)
        requires
            exponent_of(b) < 0xFF,
    ;
}

/// Stepping up then down, or down then up, gives back a pattern whose mantissa
/// is neither all zeros nor all ones.
pub proof fn lemma_incr_decr_inverse_interior(b: u32)
    requires
        mantissa_of(b) != 0,
        mantissa_of(b) != 0x7F_FFFF,
    ensures
        decr_spec(incr_spec(b)) == b,
        incr_spec(decr_spec(b)) == b,
{
    assert(decr_spec(incr_spec(b)) == b && incr_spec(decr_spec(b)) == b) by (bit_vector)
        requires
            mantissa_of(b) != 0,
            mantissa_of(b) != 0x7F_FFFF,
    ;
}

/// Stepping up then down, or down then up, gives back a pattern whose mantissa
/// is all zeros or all ones, where the step changes the exponent field, also
/// where that field wraps around.
pub proof fn lemma_incr_decr_inverse_boundary(b: u32)
    requires
        mantissa_of(b) == 0 || mantissa_of(b) == 0x7F_FFFF,
    ensures
        decr_spec(incr_spec(b)) == b,
        incr_spec(decr_spec(b)) == b,
{
    assert(decr_spec(incr_spec(b)) == b && incr_spec(decr_spec(b)) == b) by (bit_vector)
        requires
            mantissa_of(b) == 0 || mantissa_of(b) == 0x7F_FFFF,
    ;
}

/// The pattern reached from `b` by `n` calls of `incr`.
pub open spec fn incr_iter(b: u32, n: nat) -> u32
    decreases n,
{
    if n == 0 {
        b
    } else {
        incr_spec(incr_iter(b, (n - 1) as nat))
    }
}

/// Below the largest pattern with the sign bit clear, `n` steps up add `n` to
/// the pattern.
proof fn lemma_incr_iter_adds(b: u32, n: nat)
    requires
        b + n <= 0x7FFF_FFFF,
    ensures
        incr_iter(b, n) == b + n,
    decreases n,
{
    if n > 0 {
        lemma_incr_iter_adds(b, (n - 1) as nat);
        let prev: u32 = (b + n - 1) as u32;
        assert(prev & 0x7FFF_FFFF != 0x7FFF_FFFF) by (bit_vector)
            requires
                prev < 0x7FFF_FFFF,
        ;
        lemma_incr_is_successor(prev);
    }
}

/// Stepping up from a positive pattern whose exponent field is strictly between
/// 0 and 0xFE climbs strictly in bit-pattern order, which for non-negative
/// floats is the order of their values, with the sign held positive, as long
/// as it has not passed the encoding of positive infinity. Each step adds one
/// to the mantissa, or, where the mantissa was all ones, resets it to zero and
/// adds exactly one to the exponent field.
pub proof fn lemma_incr_monotonic(b: u32, n: nat)
    requires
        sign_of(b) == 0,
        0 < exponent_of(b) < 0xFE,
        b + n + 1 <= 0x7F80_0000,
    ensures
        incr_iter(b, n + 1) > incr_iter(b, n),
        sign_of(incr_iter(b, n + 1)) == 0,
        mantissa_of(incr_iter(b, n)) != 0x7F_FFFF ==> exponent_of(incr_iter(b, n + 1))
            == exponent_of(incr_iter(b, n)) && mantissa_of(incr_iter(b, n + 1)) == mantissa_of(
            incr_iter(b, n),
        ) + 1,
        mantissa_of(incr_iter(b, n)) == 0x7F_FFFF ==> exponent_of(incr_iter(b, n + 1))
            == exponent_of(incr_iter(b, n)) + 1 && mantissa_of(incr_iter(b, n + 1)) == 0,
{
    lemma_incr_iter_adds(b, n);
    lemma_incr_iter_adds(b, n + 1);
    let cur: u32 = incr_iter(b, n);
    assert(incr_iter(b, n + 1) == incr_spec(cur));
    assert(exponent_of(cur) < 0xFF && sign_of((cur + 1) as u32) == 0) by (bit_vector)
        requires
            cur < 0x7F80_0000,
    ;
    lemma_incr_fields(cur);
}

/// Negating a pattern with the sign bit clear sets the sign bit. Negating the
/// result again masks it with `0x7AAA_AAAA`, which gives back the original
/// pattern exactly when the pattern has no bit where that mask is zero.
pub proof fn lemma_neg_twice_from_nonnegative(b: u32)
    requires
        sign_of(b) == 0,
    ensures
        neg_spec(b) == b | 0x8000_0000,
        neg_spec(neg_spec(b)) == b & 0x7AAA_AAAA,
        neg_spec(neg_spec(b)) == b <==> b & 0x0555_5555 == 0,
{
    assert(neg_spec(b) == b | 0x8000_0000 && neg_spec(neg_spec(b)) == b & 0x7AAA_AAAA && (
    neg_spec(neg_spec(b)) == b <==> b & 0x0555_5555 == 0)) by (bit_vector)
        requires
            sign_of(b) == 0,
    ;
}

} // verus!
