//! Double-precision numbers as their 64 bits: one sign bit, eleven bits of the
//! exponent and 52 bits of the fraction.
use vstd::arithmetic::power2::{
    lemma2_to64, lemma2_to64_rest, lemma_pow2_adds, lemma_pow2_strictly_increases, pow2,
};
use vstd::prelude::*;

pub mod laws;

verus! {

/// The bits of positive infinity.
pub const INFINITY_BITS: u64 = 0x7ff0_0000_0000_0000;

/// Where a number stands in the total order of the doubles, as the bits of a
/// positive number grow with it and those of a negative number with its
/// distance from zero.
pub open spec fn total_order_key(bits: u64) -> int {
    if bits < 0x8000_0000_0000_0000 {
        bits as int
    } else {
        0x7fff_ffff_ffff_ffff - bits
    }
}

/// Where the number with these bits stands in the total order of the doubles.
pub fn order_key(bits: u64) -> (res: i64)
    ensures
        res == total_order_key(bits),
{
    if bits < 0x8000_0000_0000_0000 {
        bits as i64
    } else {
        -1 - ((bits - 0x8000_0000_0000_0000) as i64)
    }
}

/// The bits are those of a number that is neither negative, nor zero, nor
/// infinite.
pub open spec fn positive_finite(bits: u64) -> bool {
    0 < bits < INFINITY_BITS
}

/// The significand of a positive finite number, as an integer.
pub open spec fn significand(bits: u64) -> nat {
    let fraction = bits as nat % pow2(52);
    if bits as nat / pow2(52) == 0 {
        fraction
    } else {
        pow2(52) + fraction
    }
}

/// The power of two that a positive finite number's significand is multiplied
/// by.
pub open spec fn exponent(bits: u64) -> int {
    let field = bits as nat / pow2(52);
    if field == 0 {
        -1074
    } else {
        field - 1075
    }
}

/// A positive finite number rounded to an integer, halves away from zero.
pub open spec fn rounded(bits: u64) -> nat {
    if exponent(bits) >= 0 {
        significand(bits) * pow2(exponent(bits) as nat)
    } else {
        (2 * significand(bits) + pow2((-exponent(bits)) as nat)) / (2 * pow2(
            (-exponent(bits)) as nat,
        ))
    }
}

/// A positive finite number rounded to an integer, or the largest `u64` if that
/// is less.
pub fn round_to_u64(bits: u64) -> (res: u64)
    requires
        positive_finite(bits),
    ensures
        res == if rounded(bits) <= u64::MAX {
            rounded(bits) as int
        } else {
            u64::MAX as int
        },
{
    proof {
        lemma2_to64();
        lemma2_to64_rest();
    }
    let field: u64 = bits / 0x10_0000_0000_0000;
    let fraction: u64 = bits % 0x10_0000_0000_0000;
    if field < 1022 {
        proof {
            let s = significand(bits);
            let d = pow2((-exponent(bits)) as nat);
            if -exponent(bits) > 54 {
                lemma_pow2_strictly_increases(54, (-exponent(bits)) as nat);
            }
            assert(2 * s + d < 2 * d);
            assert(((2 * s + d) as int) / ((2 * d) as int) == 0) by (nonlinear_arith)
                requires
                    0 <= 2 * s + d < 2 * d,
            ;
        }
        0
    } else if field < 1075 {
        let significand: u64 = 0x10_0000_0000_0000 + fraction;
        let mut unit: u64 = 1;
        let mut n: u64 = field;
        while n < 1075
            invariant
                1022 <= field <= n <= 1075,
                unit == pow2((n - field) as nat),
            decreases 1075 - n,
        {
            proof {
                lemma2_to64();
                lemma2_to64_rest();
                lemma_pow2_adds((n - field) as nat, 1);
                if n - field < 52 {
                    lemma_pow2_strictly_increases((n - field) as nat, 52);
                }
            }
            unit = unit * 2;
            n += 1;
        }
        proof {
            if 1075 - field < 53 {
                lemma_pow2_strictly_increases((1075 - field) as nat, 53);
            }
        }
        (2 * significand + unit) / (2 * unit)
    } else if field < 1087 {
        let mut value: u64 = 0x10_0000_0000_0000 + fraction;
        let ghost start = value;
        let mut n: u64 = field;
        assert(start * pow2(0) == start) by (nonlinear_arith)
            requires
                pow2(0) == 1,
        ;
        while n > 1075
            invariant
                1075 <= n <= field < 1087,
                start < 0x20_0000_0000_0000,
                value == start * pow2((field - n) as nat),
            decreases n,
        {
            proof {
                lemma2_to64();
                lemma2_to64_rest();
                let k = (field - n) as nat;
                lemma_pow2_adds(k, 1);
                if k < 10 {
                    lemma_pow2_strictly_increases(k, 10);
                }
                assert(start * pow2(k) * 2 == start * (pow2(k) * 2)) by (nonlinear_arith);
                assert(start * pow2(k) <= 0x1f_ffff_ffff_ffff * 0x400) by (nonlinear_arith)
                    requires
                        0 <= start <= 0x1f_ffff_ffff_ffff,
                        0 <= pow2(k) <= 0x400,
                ;
            }
            value = value * 2;
            n -= 1;
        }
        value
    } else {
        proof {
            let s = significand(bits);
            let p = pow2(exponent(bits) as nat);
            if exponent(bits) > 12 {
                lemma_pow2_strictly_increases(12, exponent(bits) as nat);
            }
            assert(s * p >= 0x10_0000_0000_0000 * 0x1000) by (nonlinear_arith)
                requires
                    s >= 0x10_0000_0000_0000,
                    p >= 0x1000,
            ;
        }
        u64::MAX
    }
}

// ---------------------------------------------------------------------------
// Rounding halves to even
// ---------------------------------------------------------------------------
/// A quotient rounded to an integer, halves to the even one.
pub open spec fn half_even_quotient(n: nat, d: nat) -> nat {
    let q = n / d;
    let r = n % d;
    if 2 * r > d || 2 * r == d && q % 2 == 1 {
        q + 1
    } else {
        q
    }
}

/// `n / d` rounded to an integer, halves to the even one.
pub fn half_even_div(n: u128, d: u128) -> (res: u128)
    requires
        0 < d <= 0x8000_0000_0000_0000_0000_0000_0000_0000,
    ensures
        res == half_even_quotient(n as nat, d as nat),
{
    let q: u128 = n / d;
    let r: u128 = n % d;
    assert(r < d && (d >= 2 ==> 2 * q <= n)) by (nonlinear_arith)
        requires
            q == n / d,
            r == n % d,
            d > 0,
    ;
    if 2 * r > d || 2 * r == d && q % 2 == 1 {
        q + 1
    } else {
        q
    }
}

/// The distance between the doubles next to an integer: 1 as long as 53 bits
/// can hold it.
pub open spec fn spacing(n: nat) -> nat
    decreases n,
{
    if n < 0x20_0000_0000_0000 {
        1
    } else {
        2 * spacing(n / 2)
    }
}

/// The double nearest to an integer, with the even one of two that are equally
/// near.
pub open spec fn nearest_double(n: nat) -> nat {
    half_even_quotient(n, spacing(n)) * spacing(n)
}

/// The distance between the doubles next to `n`.
fn double_spacing(n: u64) -> (res: u128)
    ensures
        res == spacing(n as nat),
        res == 1 || 1 <= res <= n,
    decreases n,
{
    if n < 0x20_0000_0000_0000 {
        1
    } else {
        2 * double_spacing(n / 2)
    }
}

/// The double nearest to `n`.
pub fn to_nearest_double(n: u64) -> (res: u128)
    ensures
        res == nearest_double(n as nat),
        res <= 2 * n + 2,
{
    let unit: u128 = double_spacing(n);
    let count: u128 = half_even_div(n as u128, unit);
    proof {
        let q = (n as int) / (unit as int);
        assert(count <= q + 1);
        assert(q * unit <= n) by (nonlinear_arith)
            requires
                q == (n as int) / (unit as int),
                unit > 0,
        ;
        assert(count * unit <= q * unit + unit) by (nonlinear_arith)
            requires
                0 <= count <= q + 1,
                unit > 0,
        ;
    }
    count * unit
}

} // verus!
