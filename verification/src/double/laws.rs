//! What rounding comes to.
use vstd::arithmetic::power2::{lemma_pow2_adds, lemma_pow2_pos, pow2};
use vstd::prelude::*;

use crate::double::{
    exponent, half_even_quotient, nearest_double, positive_finite, rounded, significand, spacing,
    total_order_key,
};

verus! {

/// Of two numbers the one with the sign bit comes first; without it, the one with the
/// smaller bits; and with it in both, the one with the larger bits.
pub proof fn lemma_order(a: u64, b: u64)
    ensures
        total_order_key(a) < total_order_key(b) <==> if a < 0x8000_0000_0000_0000 {
            b < 0x8000_0000_0000_0000 && a < b
        } else {
            b < 0x8000_0000_0000_0000 || a > b
        },
        total_order_key(a) == total_order_key(b) <==> a == b,
{
}

/// The bits of a positive finite number are the eleven bits of its exponent and the 52 of
/// its fraction: they can be told from its significand and its exponent.
pub proof fn lemma_bits(bits: u64)
    requires
        positive_finite(bits),
    ensures
        exponent(bits) == -1074 ==> bits == significand(bits),
        exponent(bits) > -1074 ==> bits == (exponent(bits) + 1074) * 0x10_0000_0000_0000
            + significand(bits),
        exponent(bits) > -1074 ==> 0x10_0000_0000_0000 <= significand(bits)
            < 0x20_0000_0000_0000,
        -1074 <= exponent(bits) <= 971,
{
    vstd::arithmetic::power2::lemma2_to64();
    vstd::arithmetic::power2::lemma2_to64_rest();
    assert(pow2(52) == 0x10_0000_0000_0000);
}

/// A positive finite number lies at most half away from what it is rounded to, and if it
/// lies half away, that is the larger of the two.
pub proof fn lemma_rounded(bits: u64)
    requires
        positive_finite(bits),
    ensures
        exponent(bits) >= 0 ==> rounded(bits) == significand(bits) * pow2(exponent(bits) as nat),
        exponent(bits) < 0 ==> {
            let unit = pow2((-exponent(bits)) as nat) as int;
            &&& 2 * significand(bits) >= (2 * rounded(bits) - 1) * unit
            &&& 2 * significand(bits) < (2 * rounded(bits) + 1) * unit
        },
{
    if exponent(bits) < 0 {
        let unit = pow2((-exponent(bits)) as nat) as int;
        lemma_pow2_pos((-exponent(bits)) as nat);
        let s = significand(bits) as int;
        let r = rounded(bits) as int;
        assert(r == (2 * s + unit) / (2 * unit));
        assert(2 * s >= (2 * r - 1) * unit && 2 * s < (2 * r + 1) * unit) by (nonlinear_arith)
            requires
                r == (2 * s + unit) / (2 * unit),
                unit > 0,
        ;
    }
}

/// A quotient lies at most half away from what it is rounded to, and if it lies half away,
/// that is even.
pub proof fn lemma_half_even(n: nat, d: nat)
    requires
        d > 0,
    ensures
        ({
            let q = half_even_quotient(n, d) as int;
            &&& (2 * q - 1) * d <= 2 * n <= (2 * q + 1) * d
            &&& 2 * n == (2 * q - 1) * d || 2 * n == (2 * q + 1) * d ==> q % 2 == 0
        }),
{
    let q = half_even_quotient(n, d) as int;
    let k = (n / d) as int;
    let r = (n % d) as int;
    assert(n == k * d + r && 0 <= r < d) by (nonlinear_arith)
        requires
            k == n / d,
            r == n % d,
            d > 0,
    ;
    assert((2 * k - 1) * d == 2 * (k * d) - d) by (nonlinear_arith);
    assert((2 * k + 1) * d == 2 * (k * d) + d) by (nonlinear_arith);
    assert((2 * (k + 1) - 1) * d == 2 * (k * d) + d) by (nonlinear_arith);
    assert((2 * (k + 1) + 1) * d == 2 * (k * d) + 3 * d) by (nonlinear_arith);
}

/// A number that 53 bits can hold is a double itself. A larger one lies between the 52nd
/// and the 53rd power of two times the distance between doubles, and the double that is
/// nearest to it is a multiple of that distance, at most half of it away.
pub proof fn lemma_nearest_double(n: nat)
    ensures
        n < 0x20_0000_0000_0000 ==> nearest_double(n) == n,
        n >= 0x20_0000_0000_0000 ==> {
            &&& 0x10_0000_0000_0000 * spacing(n) <= n < 0x20_0000_0000_0000 * spacing(n)
            &&& exists|k: nat| spacing(n) == #[trigger] pow2(k)
        },
        2 * nearest_double(n) <= 2 * n + spacing(n),
        2 * n <= 2 * nearest_double(n) + spacing(n),
        nearest_double(n) % spacing(n) == 0,
{
    lemma_spacing(n);
    let d = spacing(n);
    let q = half_even_quotient(n, d) as int;
    lemma_half_even(n, d);
    assert((2 * q - 1) * d == 2 * (q * d) - d) by (nonlinear_arith);
    assert((2 * q + 1) * d == 2 * (q * d) + d) by (nonlinear_arith);
    assert((q * d) % (d as int) == 0) by (nonlinear_arith)
        requires
            d > 0,
    ;
    if n < 0x20_0000_0000_0000 {
        assert(d == 1);
        assert(q * d == q) by (nonlinear_arith)
            requires
                d == 1,
        ;
    }
}

proof fn lemma_spacing(n: nat)
    ensures
        spacing(n) >= 1,
        n < 0x20_0000_0000_0000 ==> spacing(n) == 1,
        n >= 0x10_0000_0000_0000 ==> 0x10_0000_0000_0000 * spacing(n) <= n,
        n < 0x20_0000_0000_0000 * spacing(n),
        exists|k: nat| spacing(n) == #[trigger] pow2(k),
    decreases n,
{
    vstd::arithmetic::power2::lemma2_to64();
    if n < 0x20_0000_0000_0000 {
        assert(spacing(n) == pow2(0));
    } else {
        lemma_spacing(n / 2);
        let k = choose|k: nat| spacing(n / 2) == #[trigger] pow2(k);
        lemma_pow2_adds(k, 1);
        assert(spacing(n) == pow2(k + 1));
    }
}

} // verus!
