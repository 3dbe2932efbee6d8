//! Whole-number arithmetic for fixed-point columns.
//!
//! Quotients are rounded down, but for the averages behind the relative
//! strength index, which are rounded up.

use vstd::arithmetic::div_mod::lemma_div_is_ordered;
use vstd::arithmetic::div_mod::lemma_div_multiples_vanish;
use vstd::arithmetic::div_mod::lemma_fundamental_div_mod;
use vstd::arithmetic::div_mod::lemma_hoist_over_denominator;
use vstd::arithmetic::div_mod::lemma_mod_bound;
use vstd::prelude::*;

verus! {

/// The fixed-point unit of the dimensionless columns: an index value or a
/// percentage `p` is held as `p * SCALE`, rounded down.
pub const SCALE: i64 = 1_000_000;

/// The largest magnitude of a price that the composite indicators accept.
pub const PRICE_LIMIT: i64 = 0x0100_0000_0000_0000;

/// The largest magnitude of a value in a column whose differences are
/// taken.
pub const VALUE_LIMIT: i64 = 0x2000_0000_0000_0000;

/// Every value of the column lies between `-limit` and `limit`.
pub open spec fn bounded(s: Seq<i64>, limit: int) -> bool {
    forall|i: int| 0 <= i < s.len() ==> -limit <= #[trigger] s[i] <= limit
}

/// The quotient of `n` by a divisor other than 0, rounded down.
pub open spec fn floor_div(n: int, d: int) -> int {
    if d > 0 {
        n / d
    } else {
        (-n) / (-d)
    }
}

/// A quotient lies between two numbers when its numerator lies between
/// their multiples.
pub proof fn lemma_quotient_between(n: int, d: int, lo: int, hi: int)
    requires
        d > 0,
        lo * d <= n <= hi * d,
    ensures
        lo <= n / d <= hi,
{
    lemma_div_is_ordered(lo * d, n, d);
    lemma_div_is_ordered(n, hi * d, d);
    lemma_div_multiples_vanish(lo, d);
    lemma_div_multiples_vanish(hi, d);
    assert(lo * d == d * lo && hi * d == d * hi) by (nonlinear_arith);
}

/// Whole multiples of the divisor leave a quotient as whole numbers.
pub proof fn lemma_quotient_shift(k: int, a: int, d: int)
    requires
        d > 0,
    ensures
        (a * d + k) / d == a + k / d,
{
    lemma_hoist_over_denominator(k, a, d as nat);
    assert(k + a * d == a * d + k);
}

/// A quotient is the largest whole number whose multiple by the divisor
/// does not exceed the numerator.
pub proof fn lemma_quotient_rounds_down(n: int, d: int)
    requires
        d > 0,
    ensures
        d * (n / d) <= n < d * (n / d) + d,
{
    lemma_fundamental_div_mod(n, d);
    lemma_mod_bound(n, d);
}

/// The quotient of `n` by a divisor above 0, rounded up.
pub open spec fn ceil_div(n: int, d: int) -> int {
    -((-n) / d)
}

/// A quotient rounded up is the smallest whole number whose multiple by the
/// divisor reaches the numerator.
pub proof fn lemma_ceil_rounds_up(n: int, d: int)
    requires
        d > 0,
    ensures
        d * ceil_div(n, d) - d < n <= d * ceil_div(n, d),
{
    lemma_quotient_rounds_down(-n, d);
    let q = (-n) / d;
    assert(d * (-q) == -(d * q)) by (nonlinear_arith);
}

/// A quotient rounded up lies between two numbers when its numerator lies
/// between their multiples.
pub proof fn lemma_ceil_between(n: int, d: int, lo: int, hi: int)
    requires
        d > 0,
        lo * d <= n <= hi * d,
    ensures
        lo <= ceil_div(n, d) <= hi,
{
    assert((-hi) * d <= -n <= (-lo) * d) by (nonlinear_arith)
        requires
            lo * d <= n <= hi * d,
    ;
    lemma_quotient_between(-n, d, -hi, -lo);
}

/// A numerator above 0 has a quotient of at least 1 when rounded up.
pub proof fn lemma_ceil_positive(n: int, d: int)
    requires
        d > 0,
        n > 0,
    ensures
        ceil_div(n, d) >= 1,
{
    lemma_ceil_rounds_up(n, d);
    let c = ceil_div(n, d);
    assert(c >= 1) by (nonlinear_arith)
        requires
            d > 0,
            0 < d * c,
    ;
}

/// Whole multiples of the divisor leave a quotient rounded up as whole
/// numbers.
pub proof fn lemma_ceil_shift(k: int, a: int, d: int)
    requires
        d > 0,
    ensures
        ceil_div(a * d + k, d) == a + ceil_div(k, d),
{
    assert(-(a * d + k) == (-a) * d + (-k)) by (nonlinear_arith);
    lemma_quotient_shift(-k, -a, d);
}

/// The quotient of two 128-bit numbers, rounded down.
pub fn div_floor(n: i128, d: i128) -> (q: i128)
    requires
        d > 0,
    ensures
        q == n as int / d as int,
{
    proof {
        if n >= 0 {
            assert(0 * d <= n <= n * d) by (nonlinear_arith)
                requires
                    n >= 0,
                    d > 0,
            ;
            lemma_quotient_between(n as int, d as int, 0, n as int);
        } else {
            assert(n * d <= n <= 0 * d) by (nonlinear_arith)
                requires
                    n < 0,
                    d > 0,
            ;
            lemma_quotient_between(n as int, d as int, n as int, 0);
        }
    }
    match n.checked_div_euclid(d) {
        Some(q) => q,
        None => 0,
    }
}

} // verus!
