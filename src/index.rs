//! The mapping from a raw value to its bucket index.
use vstd::arithmetic::div_mod::*;
use vstd::arithmetic::power2::*;
use vstd::bits::*;
use vstd::prelude::*;
use vstd::std_specs::bits::*;

verus! {

/// 0-based position of the highest set bit of `v` (taken as 0 for `v <= 1`).
pub open spec fn msb(v: nat) -> nat
    decreases v,
{
    if v <= 1 {
        0
    } else {
        1 + msb(v / 2)
    }
}

/// Bucket index of `value` when each octave is split into `2^precision`
/// sub-buckets. Below `2^precision` every value is its own bucket; above it,
/// the bucket is made of the `precision` bits that follow the leading one,
/// offset by `(shift + 1) * 2^precision`, where `shift` is how far those bits
/// lie above bit 0.
pub open spec fn bucket_of(value: nat, precision: nat) -> nat {
    if value < pow2(precision) {
        value
    } else {
        let shift = (msb(value) - precision) as nat;
        (value / pow2(shift)) % pow2(precision) + (shift + 1) * pow2(precision)
    }
}

/// The highest set bit of `v` bounds it from below and from above.
pub proof fn lemma_msb_bounds(v: nat)
    requires
        v >= 1,
    ensures
        pow2(msb(v)) <= v < pow2(msb(v) + 1),
    decreases v,
{
    lemma_pow2_unfold(msb(v) + 1);
    if v <= 1 {
        lemma2_to64();
    } else {
        lemma_msb_bounds(v / 2);
        lemma_pow2_unfold(msb(v));
    }
}

/// Every power of two exceeds its exponent.
pub proof fn lemma_exponent_below_pow2(e: nat)
    ensures
        e < pow2(e),
    decreases e,
{
    if e == 0 {
        lemma2_to64();
    } else {
        lemma_exponent_below_pow2((e - 1) as nat);
        lemma_pow2_unfold(e);
        lemma_pow2_pos((e - 1) as nat);
    }
}

/// A value at or above `2^precision` has its highest set bit at or above
/// `precision`.
pub proof fn lemma_msb_at_least(v: nat, precision: nat)
    requires
        v >= pow2(precision),
    ensures
        msb(v) >= precision,
{
    lemma_pow2_pos(precision);
    lemma_msb_bounds(v);
    if msb(v) + 1 < precision {
        lemma_pow2_strictly_increases(msb(v) + 1, precision);
    }
}

/// Above the linear region, a value is cut down to `precision + 1` leading
/// bits: the quotient lies in `[2^precision, 2^(precision + 1))`, and the
/// bucket is that quotient plus `shift * 2^precision`, never more than the
/// value itself.
pub proof fn lemma_octave(v: nat, precision: nat)
    requires
        v >= pow2(precision),
    ensures
        msb(v) >= precision,
        ({
            let shift = (msb(v) - precision) as nat;
            let q = v / pow2(shift);
            &&& pow2(precision) <= q < pow2(precision + 1)
            &&& q % pow2(precision) == q - pow2(precision)
            &&& bucket_of(v, precision) == q + shift * pow2(precision)
        }),
        bucket_of(v, precision) <= v,
{
    lemma_pow2_pos(precision);
    lemma_msb_at_least(v, precision);
    lemma_msb_bounds(v);
    let shift = (msb(v) - precision) as nat;
    let d = pow2(shift);
    let lo = pow2(precision);
    let q = v / d;
    lemma_pow2_pos(shift);
    lemma_pow2_adds(precision, shift);
    lemma_pow2_adds(precision + 1, shift);
    lemma_pow2_unfold(precision + 1);
    assert(lo * d == d * lo) by (nonlinear_arith);
    lemma_div_is_ordered((lo * d) as int, v as int, d as int);
    lemma_div_multiples_vanish(lo as int, d as int);
    assert(pow2(precision + 1) * d == d * pow2(precision + 1)) by (nonlinear_arith);
    lemma_multiply_divide_lt(v as int, d as int, pow2(precision + 1) as int);
    lemma_fundamental_div_mod_converse_mod(q as int, lo as int, 1, q - lo);
    assert((shift + 1) * lo == shift * lo + lo) by (nonlinear_arith);
    lemma_fundamental_div_mod(v as int, d as int);
    lemma_exponent_below_pow2(shift);
    assert(q + shift * lo <= d * q) by (nonlinear_arith)
        requires
            q >= lo,
            shift + 1 <= d,
    ;
}

/// No value maps to a bucket above itself.
pub proof fn lemma_bucket_at_most_value(v: nat, precision: nat)
    ensures
        bucket_of(v, precision) <= v,
{
    if v >= pow2(precision) {
        lemma_octave(v, precision);
    }
}

/// The highest set bit does not move down as the value grows.
pub proof fn lemma_msb_monotonic(u: nat, v: nat)
    requires
        1 <= u <= v,
    ensures
        msb(u) <= msb(v),
{
    lemma_msb_bounds(u);
    lemma_msb_bounds(v);
    if msb(v) + 1 < msb(u) {
        lemma_pow2_strictly_increases(msb(v) + 1, msb(u));
    }
}

/// For a fixed precision, a larger value never maps to a smaller bucket.
pub proof fn lemma_bucket_monotonic(u: nat, v: nat, precision: nat)
    requires
        u <= v,
    ensures
        bucket_of(u, precision) <= bucket_of(v, precision),
{
    let lo = pow2(precision);
    if v >= lo {
        lemma_octave(v, precision);
        let sv = (msb(v) - precision) as nat;
        let qv = v / pow2(sv);
        assert(sv * lo >= 0) by (nonlinear_arith);
        if u >= lo {
            lemma_octave(u, precision);
            lemma_pow2_pos(precision);
            lemma_msb_monotonic(u, v);
            let su = (msb(u) - precision) as nat;
            let qu = u / pow2(su);
            lemma_pow2_unfold(precision + 1);
            if su == sv {
                lemma_pow2_pos(sv);
                lemma_div_is_ordered(u as int, v as int, pow2(sv) as int);
            } else {
                assert(qu + su * lo <= qv + sv * lo) by (nonlinear_arith)
                    requires
                        qu < 2 * lo,
                        qv >= lo,
                        su < sv,
                        lo > 0,
                ;
            }
        }
    }
}

/// `leading_zeros` of a positive `u64` counts the bits above its highest set bit.
proof fn lemma_leading_zeros_msb(v: u64)
    requires
        v > 0,
    ensures
        u64_leading_zeros(v) == 63 - msb(v as nat),
    decreases v,
{
    reveal_with_fuel(u64_leading_zeros, 2);
    if v > 1 {
        lemma_leading_zeros_msb(v / 2);
    }
}

/// Maps `value` to its bucket index with `sublog_bits` bits of sub-bucket
/// resolution per octave.
pub fn convert_value_to_index(value: u64, sublog_bits: u64) -> (r: u64)
    requires
        sublog_bits < 64,
    ensures
        r == bucket_of(value as nat, sublog_bits as nat),
        (value as nat) < pow2(sublog_bits as nat) ==> r == value,
{
    proof {
        lemma_u64_pow2_no_overflow(sublog_bits as nat);
        lemma_u64_shl_is_mul(1, sublog_bits);
    }
    let limit: u64 = 1u64 << sublog_bits;
    if value < limit {
        return value;
    }
    proof {
        lemma_leading_zeros_msb(value);
        lemma_octave(value as nat, sublog_bits as nat);
    }
    let most_significant_bit: u64 = (63 - value.leading_zeros()) as u64;
    let shift: u64 = most_significant_bit - sublog_bits;
    let mut index: u64 = value >> shift;
    index = index & (limit - 1);
    proof {
        lemma_u64_shr_is_div(value, shift);
        lemma_u64_low_bits_mask_is_mod(value >> shift, sublog_bits as nat);
        lemma_u64_shl_is_mul((shift + 1) as u64, sublog_bits);
    }
    index + ((shift + 1) << sublog_bits)
}

} // verus!
