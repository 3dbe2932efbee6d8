//! Moving averages of a column.

use crate::ta::arith::div_floor;
use crate::ta::arith::lemma_quotient_between;
use crate::ta::arith::lemma_quotient_rounds_down;
use crate::ta::arith::lemma_quotient_shift;
use vstd::prelude::*;

verus! {

/// The sum of the values of `s` from position `lo` up to, not including,
/// position `hi`.
pub open spec fn window_sum(s: Seq<i64>, lo: int, hi: int) -> int
    decreases hi - lo,
{
    if hi <= lo {
        0
    } else {
        window_sum(s, lo, hi - 1) + s[hi - 1]
    }
}

/// The first position of the window of `len` values that ends at position
/// `i`. Near the start of the column the window holds what there is.
pub open spec fn window_start(i: int, len: int) -> int {
    if i + 1 >= len {
        i + 1 - len
    } else {
        0
    }
}

/// The mean of the window of `len` values that ends at position `i`.
pub open spec fn sma_at(s: Seq<i64>, len: int, i: int) -> int {
    window_sum(s, window_start(i, len), i + 1) / (i + 1 - window_start(i, len))
}

/// One step of exponential smoothing with the factor `num / den`:
/// `num / den` parts of the new value and the rest of the previous average.
pub open spec fn smooth_step(prev: int, x: int, num: int, den: int) -> int {
    (num * x + (den - num) * prev) / den
}

/// Exponential smoothing with the factor `num / den` at position `i`. The
/// first value seeds the average.
pub open spec fn smooth_at(s: Seq<i64>, num: int, den: int, i: int) -> int
    decreases i,
{
    if i <= 0 {
        s[0] as int
    } else {
        smooth_step(smooth_at(s, num, den, i - 1), s[i] as int, num, den)
    }
}

/// Wilder's smoothing at position `i`: the factor is `1 / len`.
pub open spec fn rma_at(s: Seq<i64>, len: int, i: int) -> int {
    smooth_at(s, 1, len, i)
}

/// The exponential moving average at position `i`: the factor is
/// `2 / (len + 1)`.
pub open spec fn ema_at(s: Seq<i64>, len: int, i: int) -> int {
    smooth_at(s, 2, len + 1, i)
}

/// A window's sum lies between the multiples of the smallest and the largest
/// 64-bit number.
pub proof fn lemma_window_sum_bounds(s: Seq<i64>, lo: int, hi: int)
    requires
        0 <= lo <= hi <= s.len(),
    ensures
        (hi - lo) * i64::MIN <= window_sum(s, lo, hi) <= (hi - lo) * i64::MAX,
    decreases hi - lo,
{
    if lo < hi {
        lemma_window_sum_bounds(s, lo, hi - 1);
        assert((hi - lo) * i64::MIN == (hi - 1 - lo) * i64::MIN + i64::MIN) by (nonlinear_arith);
        assert((hi - lo) * i64::MAX == (hi - 1 - lo) * i64::MAX + i64::MAX) by (nonlinear_arith);
    }
}

/// A window's sum is its first value and the sum of the rest.
pub proof fn lemma_window_sum_front(s: Seq<i64>, lo: int, hi: int)
    requires
        0 <= lo < hi <= s.len(),
    ensures
        window_sum(s, lo, hi) == s[lo] + window_sum(s, lo + 1, hi),
    decreases hi - lo,
{
    if lo + 1 < hi {
        lemma_window_sum_front(s, lo, hi - 1);
    } else {
        assert(window_sum(s, lo, hi - 1) == 0);
        assert(window_sum(s, lo + 1, hi) == 0);
    }
}

/// A window of one and the same value sums to its multiple.
pub proof fn lemma_window_sum_constant(s: Seq<i64>, lo: int, hi: int, c: int)
    requires
        0 <= lo <= hi <= s.len(),
        forall|j: int| lo <= j < hi ==> s[j] == c,
    ensures
        window_sum(s, lo, hi) == (hi - lo) * c,
    decreases hi - lo,
{
    if lo < hi {
        lemma_window_sum_constant(s, lo, hi - 1, c);
        assert((hi - lo) * c == (hi - 1 - lo) * c + c) by (nonlinear_arith);
    } else {
        assert((hi - lo) * c == 0) by (nonlinear_arith)
            requires
                hi == lo,
        ;
    }
}

/// The simple moving average of a column of one and the same value is that
/// value.
pub proof fn lemma_sma_of_constant(s: Seq<i64>, len: int, i: int, c: int)
    requires
        0 <= i < s.len(),
        0 < len,
        forall|j: int| 0 <= j <= i ==> s[j] == c,
    ensures
        sma_at(s, len, i) == c,
{
    let start = window_start(i, len);
    lemma_window_sum_constant(s, start, i + 1, c);
    assert((i + 1 - start) * c == c * (i + 1 - start)) by (nonlinear_arith);
    lemma_quotient_between(window_sum(s, start, i + 1), i + 1 - start, c, c);
}

/// A step of smoothing moves the average toward the new value by the
/// rounded-down share of their difference.
pub proof fn lemma_smooth_step_moves(prev: int, x: int, num: int, den: int)
    requires
        0 < den,
    ensures
        smooth_step(prev, x, num, den) == prev + (num * (x - prev)) / den,
{
    assert(num * x + (den - num) * prev == prev * den + num * (x - prev)) by (nonlinear_arith);
    lemma_quotient_shift(num * (x - prev), prev, den);
}

/// A step of smoothing ends between the previous average and the new value.
pub proof fn lemma_smooth_step_between(prev: int, x: int, num: int, den: int)
    requires
        0 < num <= den,
    ensures
        prev <= x ==> prev <= smooth_step(prev, x, num, den) <= x,
        x <= prev ==> x <= smooth_step(prev, x, num, den) <= prev,
{
    let n = num * x + (den - num) * prev;
    if prev <= x {
        assert(prev * den <= n <= x * den) by (nonlinear_arith)
            requires
                n == num * x + (den - num) * prev,
                0 < num <= den,
                prev <= x,
        ;
        lemma_quotient_between(n, den, prev, x);
    }
    if x <= prev {
        assert(x * den <= n <= prev * den) by (nonlinear_arith)
            requires
                n == num * x + (den - num) * prev,
                0 < num <= den,
                x <= prev,
        ;
        lemma_quotient_between(n, den, x, prev);
    }
}

/// With the factor 1 the smoothed column is the column itself.
pub proof fn lemma_smooth_whole(s: Seq<i64>, num: int, i: int)
    requires
        0 <= i < s.len(),
        0 < num,
    ensures
        smooth_at(s, num, num, i) == s[i],
{
    if i > 0 {
        let prev = smooth_at(s, num, num, i - 1);
        assert(num * s[i] + (num - num) * prev == s[i] * num) by (nonlinear_arith);
        lemma_quotient_between(s[i] * num, num, s[i] as int, s[i] as int);
    }
}

/// Wilder's smoothing over a single value changes nothing.
pub proof fn lemma_rma_of_length_one(s: Seq<i64>, i: int)
    requires
        0 <= i < s.len(),
    ensures
        rma_at(s, 1, i) == s[i],
{
    lemma_smooth_whole(s, 1, i);
}

/// Smoothing a column of one and the same value gives that value.
pub proof fn lemma_smooth_constant(s: Seq<i64>, num: int, den: int, i: int, c: int)
    requires
        0 <= i < s.len(),
        0 < num <= den,
        forall|j: int| 0 <= j <= i ==> s[j] == c,
    ensures
        smooth_at(s, num, den, i) == c,
    decreases i,
{
    if i > 0 {
        lemma_smooth_constant(s, num, den, i - 1, c);
        lemma_smooth_step_between(c, c, num, den);
    }
}

/// Smoothing stays within the bounds of the column.
pub proof fn lemma_smooth_bounds(s: Seq<i64>, num: int, den: int, i: int, lo: int, hi: int)
    requires
        0 <= i < s.len(),
        0 < num <= den,
        forall|j: int| 0 <= j <= i ==> lo <= #[trigger] s[j] <= hi,
    ensures
        lo <= smooth_at(s, num, den, i) <= hi,
    decreases i,
{
    if i > 0 {
        lemma_smooth_bounds(s, num, den, i - 1, lo, hi);
        lemma_smooth_step_between(smooth_at(s, num, den, i - 1), s[i] as int, num, den);
    }
}

/// The mean of a window stays within the bounds of the column.
pub proof fn lemma_sma_bounds(s: Seq<i64>, len: int, i: int, lo: int, hi: int)
    requires
        0 <= i < s.len(),
        0 < len,
        forall|j: int| 0 <= j <= i ==> lo <= #[trigger] s[j] <= hi,
    ensures
        lo <= sma_at(s, len, i) <= hi,
{
    let start = window_start(i, len);
    lemma_window_sum_between(s, start, i + 1, lo, hi);
    lemma_quotient_between(window_sum(s, start, i + 1), i + 1 - start, lo, hi);
}

/// A window's sum lies between the multiples of the bounds of its values.
pub proof fn lemma_window_sum_between(s: Seq<i64>, from: int, to: int, lo: int, hi: int)
    requires
        0 <= from <= to <= s.len(),
        forall|j: int| from <= j < to ==> lo <= #[trigger] s[j] <= hi,
    ensures
        lo * (to - from) <= window_sum(s, from, to) <= hi * (to - from),
    decreases to - from,
{
    if from < to {
        lemma_window_sum_between(s, from, to - 1, lo, hi);
        assert(lo * (to - from) == lo * (to - 1 - from) + lo) by (nonlinear_arith);
        assert(hi * (to - from) == hi * (to - 1 - from) + hi) by (nonlinear_arith);
    } else {
        assert(lo * (to - from) == 0 && hi * (to - from) == 0) by (nonlinear_arith)
            requires
                to == from,
        ;
    }
}

/// The simple moving average is the exact mean of the window, rounded
/// down.
pub proof fn lemma_sma_rounds_down(s: Seq<i64>, len: int, i: int)
    requires
        0 <= i < s.len(),
        0 < len,
    ensures
        ({
            let count = i + 1 - window_start(i, len);
            let sum = window_sum(s, window_start(i, len), i + 1);
            count * sma_at(s, len, i) <= sum < count * sma_at(s, len, i) + count
        }),
{
    lemma_quotient_rounds_down(
        window_sum(s, window_start(i, len), i + 1),
        i + 1 - window_start(i, len),
    );
}

/// A step of smoothing is the exact weighted mean of the new value and the
/// previous average, rounded down.
pub proof fn lemma_smooth_step_rounds_down(prev: int, x: int, num: int, den: int)
    requires
        0 < den,
    ensures
        den * smooth_step(prev, x, num, den) <= num * x + (den - num) * prev < den * smooth_step(
            prev,
            x,
            num,
            den,
        ) + den,
{
    lemma_quotient_rounds_down(num * x + (den - num) * prev, den);
}

/// Simple moving average: at each position the mean of the last `len`
/// values, or of all values so far where there are fewer.
pub fn sma(src: &Vec<i64>, len: usize) -> (out: Vec<i64>)
    requires
        len > 0,
    ensures
        out@.len() == src@.len(),
        forall|i: int| 0 <= i < src@.len() ==> out@[i] == sma_at(src@, len as int, i),
{
    let n: usize = src.len();
    let mut out: Vec<i64> = Vec::with_capacity(n);
    let mut sum: i128 = 0;
    let mut start: usize = 0;
    let mut i: usize = 0;
    while i < n
        invariant
            n == src@.len(),
            len > 0,
            i <= n,
            start <= i,
            i < n ==> start == window_start(i as int, len as int),
            sum == window_sum(src@, start as int, i as int),
            out@.len() == i,
            forall|j: int| 0 <= j < i ==> out@[j] == sma_at(src@, len as int, j),
        decreases n - i,
    {
        proof {
            lemma_window_sum_bounds(src@, start as int, i as int);
            lemma_window_sum_bounds(src@, start as int, i + 1);
            assert((i + 1 - start) * i64::MAX <= 0xffff_ffff_ffff_ffff * i64::MAX
                && 0xffff_ffff_ffff_ffff * i64::MIN <= (i + 1 - start) * i64::MIN)
                by (nonlinear_arith)
                requires
                    0 <= i + 1 - start <= 0xffff_ffff_ffff_ffff,
            ;
            assert((i - start) * i64::MAX <= 0xffff_ffff_ffff_ffff * i64::MAX
                && 0xffff_ffff_ffff_ffff * i64::MIN <= (i - start) * i64::MIN)
                by (nonlinear_arith)
                requires
                    0 <= i - start <= 0xffff_ffff_ffff_ffff,
            ;
        }
        sum = sum + src[i] as i128;
        let count: i128 = (i - start) as i128 + 1;
        proof {
            assert((i + 1 - start) * i64::MIN == i64::MIN * count && (i + 1 - start) * i64::MAX
                == i64::MAX * count) by (nonlinear_arith)
                requires
                    count == i + 1 - start,
            ;
            lemma_quotient_between(sum as int, count as int, i64::MIN as int, i64::MAX as int);
        }
        let mean: i128 = div_floor(sum, count);
        out.push(mean as i64);
        if i + 1 < n {
            if (i - start) + 1 >= len {
                proof {
                    lemma_window_sum_front(src@, start as int, i + 1);
                }
                sum = sum - src[start] as i128;
                start = start + 1;
            }
        }
        i += 1;
    }
    out
}

/// Exponential smoothing with the factor `num / den`: the first value seeds
/// the average, and each later value moves it by `num / den` of the way.
pub fn smooth(src: &Vec<i64>, num: u32, den: u128) -> (out: Vec<i64>)
    requires
        0 < num <= den,
        den <= 0x1_0000_0000_0000_0000,
    ensures
        out@.len() == src@.len(),
        forall|i: int|
            0 <= i < src@.len() ==> out@[i] == smooth_at(src@, num as int, den as int, i),
{
    let n: usize = src.len();
    let mut out: Vec<i64> = Vec::with_capacity(n);
    if n == 0 {
        return out;
    }
    let mut prev: i64 = src[0];
    out.push(prev);
    let mut i: usize = 1;
    while i < n
        invariant
            n == src@.len(),
            0 < num <= den,
            den <= 0x1_0000_0000_0000_0000,
            1 <= i <= n,
            out@.len() == i,
            prev == smooth_at(src@, num as int, den as int, i - 1),
            forall|j: int| 0 <= j < i ==> out@[j] == smooth_at(src@, num as int, den as int, j),
        decreases n - i,
    {
        let x: i64 = src[i];
        proof {
            lemma_smooth_step_moves(prev as int, x as int, num as int, den as int);
            lemma_smooth_step_between(prev as int, x as int, num as int, den as int);
            assert(-0x1_0000_0000_0000_0000 * 0x1_0000_0000 <= num * (x - prev)
                <= 0x1_0000_0000_0000_0000 * 0x1_0000_0000) by (nonlinear_arith)
                requires
                    0 < num < 0x1_0000_0000,
                    -0x1_0000_0000_0000_0000 <= x - prev <= 0x1_0000_0000_0000_0000,
            ;
        }
        let moved: i128 = div_floor(num as i128 * (x as i128 - prev as i128), den as i128);
        let next: i128 = prev as i128 + moved;
        prev = next as i64;
        out.push(prev);
        i += 1;
    }
    out
}

/// Wilder's smoothing: exponential smoothing with the factor `1 / len`.
pub fn rma(src: &Vec<i64>, len: usize) -> (out: Vec<i64>)
    requires
        len > 0,
    ensures
        out@.len() == src@.len(),
        forall|i: int| 0 <= i < src@.len() ==> out@[i] == rma_at(src@, len as int, i),
        len == 1 ==> out@ == src@,
{
    let out: Vec<i64> = smooth(src, 1, len as u128);
    proof {
        if len == 1 {
            assert forall|i: int| 0 <= i < src@.len() implies out@[i] == src@[i] by {
                lemma_rma_of_length_one(src@, i);
            }
            assert(out@ =~= src@);
        }
    }
    out
}

/// Exponential moving average: exponential smoothing with the factor
/// `2 / (len + 1)`.
pub fn ema(src: &Vec<i64>, len: usize) -> (out: Vec<i64>)
    requires
        len > 0,
    ensures
        out@.len() == src@.len(),
        forall|i: int| 0 <= i < src@.len() ==> out@[i] == ema_at(src@, len as int, i),
{
    smooth(src, 2, len as u128 + 1)
}

/// The moving averages as methods of a column.
pub trait ExprMa: Sized {
    /// The values of the column.
    spec fn values(&self) -> Seq<i64>;

    fn sma(&self, len: usize) -> (out: Self)
        requires
            len > 0,
        ensures
            out.values().len() == self.values().len(),
            forall|i: int|
                0 <= i < self.values().len() ==> out.values()[i] == sma_at(
                    self.values(),
                    len as int,
                    i,
                ),
    ;

    fn rma(&self, len: usize) -> (out: Self)
        requires
            len > 0,
        ensures
            out.values().len() == self.values().len(),
            forall|i: int|
                0 <= i < self.values().len() ==> out.values()[i] == rma_at(
                    self.values(),
                    len as int,
                    i,
                ),
    ;

    fn ema(&self, len: usize) -> (out: Self)
        requires
            len > 0,
        ensures
            out.values().len() == self.values().len(),
            forall|i: int|
                0 <= i < self.values().len() ==> out.values()[i] == ema_at(
                    self.values(),
                    len as int,
                    i,
                ),
    ;
}

/// Chaining
impl ExprMa for Vec<i64> {
    open spec fn values(&self) -> Seq<i64> {
        self@
    }

    fn sma(&self, len: usize) -> (out: Self) {
        sma(self, len)
    }

    fn rma(&self, len: usize) -> (out: Self) {
        rma(self, len)
    }

    fn ema(&self, len: usize) -> (out: Self) {
        ema(self, len)
    }
}

} // verus!
