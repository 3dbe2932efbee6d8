//! The relative strength index and its inverse.

use crate::ta::arith::bounded;
use crate::ta::arith::ceil_div;
use crate::ta::arith::div_floor;
use crate::ta::arith::lemma_ceil_between;
use crate::ta::arith::lemma_ceil_positive;
use crate::ta::arith::lemma_ceil_rounds_up;
use crate::ta::arith::lemma_ceil_shift;
use crate::ta::arith::lemma_quotient_between;
use crate::ta::arith::lemma_quotient_rounds_down;
use crate::ta::arith::SCALE;
use crate::ta::arith::VALUE_LIMIT;
use crate::ta::ma::ema_at;
use crate::ta::ma::lemma_smooth_bounds;
use crate::ta::ma::smooth;
use crate::ta::ma::smooth_at;
use vstd::prelude::*;

verus! {

/// The index value that stands where the index is not defined.
pub const RSI_NEUTRAL: i64 = 50 * SCALE;

/// The largest index value.
pub const RSI_MAX: i64 = 100 * SCALE;

/// The averages of the rises and the falls are counted in a finer unit than
/// the column: this many to one unit of the column.
pub const AVERAGE_UNIT: i64 = 1_000_000_000;

/// The rise of the column at position `i` over the position before, or 0
/// where it does not rise. The first value has nothing before it.
pub open spec fn gain_at(s: Seq<i64>, i: int) -> int {
    if i <= 0 {
        0
    } else if s[i] > s[i - 1] {
        s[i] - s[i - 1]
    } else {
        0
    }
}

/// The fall of the column at position `i` below the position before, as a
/// positive number, or 0 where it does not fall.
pub open spec fn loss_at(s: Seq<i64>, i: int) -> int {
    if i <= 0 {
        0
    } else if s[i] < s[i - 1] {
        s[i - 1] - s[i]
    } else {
        0
    }
}

/// The column of the rises.
pub open spec fn gains(s: Seq<i64>) -> Seq<i64> {
    Seq::new(s.len(), |i: int| gain_at(s, i) as i64)
}

/// The column of the falls.
pub open spec fn losses(s: Seq<i64>) -> Seq<i64> {
    Seq::new(s.len(), |i: int| loss_at(s, i) as i64)
}

/// The index for an average gain and an average loss: the share of the gain
/// in their sum, out of 100. Where both are 0 the index is neutral.
pub open spec fn rsi_value(avg_gain: int, avg_loss: int) -> int {
    if avg_gain + avg_loss == 0 {
        RSI_NEUTRAL as int
    } else {
        RSI_MAX * avg_gain / (avg_gain + avg_loss)
    }
}

/// One step of Wilder's average of the rises or of the falls: one part in
/// `len` of the new rise or fall and the rest of the previous average. The
/// average is counted in the finer unit and rounded up, so that an average
/// above 0 never becomes 0.
pub open spec fn average_step(prev: int, x: int, len: int) -> int {
    ceil_div(x * AVERAGE_UNIT + (len - 1) * prev, len)
}

/// Wilder's average of the rises up to position `i`, in the finer unit. The
/// first position has no rise, and its average is 0.
pub open spec fn avg_gain_at(s: Seq<i64>, len: int, i: int) -> int
    decreases i,
{
    if i <= 0 {
        0
    } else {
        average_step(avg_gain_at(s, len, i - 1), gain_at(s, i), len)
    }
}

/// Wilder's average of the falls up to position `i`, in the finer unit.
pub open spec fn avg_loss_at(s: Seq<i64>, len: int, i: int) -> int
    decreases i,
{
    if i <= 0 {
        0
    } else {
        average_step(avg_loss_at(s, len, i - 1), loss_at(s, i), len)
    }
}

/// The relative strength index at position `i`, from Wilder's averages of
/// the rises and the falls.
pub open spec fn rsi_at(s: Seq<i64>, len: int, i: int) -> int {
    rsi_value(avg_gain_at(s, len, i), avg_loss_at(s, len, i))
}

/// The column rises at every step.
pub open spec fn strictly_rising(s: Seq<i64>) -> bool {
    forall|j: int| 0 < j < s.len() ==> s[j - 1] < #[trigger] s[j]
}

/// The column never changes.
pub open spec fn constant(s: Seq<i64>) -> bool {
    forall|j: int| 0 <= j < s.len() ==> #[trigger] s[j] == s[0]
}

/// The column falls at every step.
pub open spec fn strictly_falling(s: Seq<i64>) -> bool {
    forall|j: int| 0 < j < s.len() ==> s[j - 1] > #[trigger] s[j]
}

/// How far a value has to move to bring the index to a target, given the
/// numerator `k` of the move: upward moves are measured against what the
/// target leaves of 100, downward moves against the target.
pub open spec fn rev_shift(k: int, target: int) -> int {
    if k >= 0 {
        k / (RSI_MAX - target)
    } else {
        k / target
    }
}

/// The numerator of the move at position `i`: the averages of the rises and
/// the falls are exponential averages over `2 * len - 1` values.
pub open spec fn rev_numerator(s: Seq<i64>, len: int, target: int, i: int) -> int {
    let avg_gain = ema_at(gains(s), 2 * len - 1, i);
    let avg_loss = ema_at(losses(s), 2 * len - 1, i);
    (len - 1) * (avg_loss * target - avg_gain * (RSI_MAX - target))
}

/// The value at position `i` that would have brought the index to the
/// target.
pub open spec fn rev_rsi_at(s: Seq<i64>, len: int, target: int, i: int) -> int {
    s[i] + rev_shift(rev_numerator(s, len, target, i), target)
}

/// The rises and the falls of a bounded column are not negative and fit in
/// 64 bits.
pub proof fn lemma_gains_losses_bounds(s: Seq<i64>)
    requires
        bounded(s, VALUE_LIMIT as int),
    ensures
        forall|i: int|
            0 <= i < s.len() ==> 0 <= #[trigger] gains(s)[i] <= 2 * VALUE_LIMIT && gains(s)[i]
                == gain_at(s, i),
        forall|i: int|
            0 <= i < s.len() ==> 0 <= #[trigger] losses(s)[i] <= 2 * VALUE_LIMIT && losses(s)[i]
                == loss_at(s, i),
{
    assert forall|i: int| 0 <= i < s.len() implies 0 <= #[trigger] gains(s)[i] <= 2 * VALUE_LIMIT
        && gains(s)[i] == gain_at(s, i) by {
        if i > 0 {
            assert(-VALUE_LIMIT <= s[i] <= VALUE_LIMIT);
            assert(-VALUE_LIMIT <= s[i - 1] <= VALUE_LIMIT);
        }
    }
    assert forall|i: int| 0 <= i < s.len() implies 0 <= #[trigger] losses(s)[i] <= 2
        * VALUE_LIMIT && losses(s)[i] == loss_at(s, i) by {
        if i > 0 {
            assert(-VALUE_LIMIT <= s[i] <= VALUE_LIMIT);
            assert(-VALUE_LIMIT <= s[i - 1] <= VALUE_LIMIT);
        }
    }
}

/// The index lies between 0 and 100.
pub proof fn lemma_rsi_value_range(avg_gain: int, avg_loss: int)
    requires
        0 <= avg_gain,
        0 <= avg_loss,
    ensures
        0 <= rsi_value(avg_gain, avg_loss) <= RSI_MAX,
{
    if avg_gain + avg_loss != 0 {
        assert(0 * (avg_gain + avg_loss) <= RSI_MAX * avg_gain <= RSI_MAX * (avg_gain + avg_loss))
            by (nonlinear_arith)
            requires
                0 <= avg_gain,
                0 <= avg_loss,
        ;
        lemma_quotient_between(RSI_MAX * avg_gain, avg_gain + avg_loss, 0, RSI_MAX as int);
    }
}

/// Where it is defined, the index is the exact share of the gain in the sum
/// of gain and loss, out of 100, rounded down.
pub proof fn lemma_rsi_value_rounds_down(avg_gain: int, avg_loss: int)
    requires
        0 < avg_gain + avg_loss,
    ensures
        (avg_gain + avg_loss) * rsi_value(avg_gain, avg_loss) <= RSI_MAX * avg_gain < (avg_gain
            + avg_loss) * rsi_value(avg_gain, avg_loss) + (avg_gain + avg_loss),
{
    lemma_quotient_rounds_down(RSI_MAX * avg_gain, avg_gain + avg_loss);
}

/// With no loss and some gain the index is 100; with no gain and some loss
/// it is 0.
pub proof fn lemma_rsi_value_extremes(avg: int)
    requires
        0 < avg,
    ensures
        rsi_value(avg, 0) == RSI_MAX,
        rsi_value(0, avg) == 0,
{
    assert(RSI_MAX * avg == RSI_MAX * avg) by (nonlinear_arith);
    lemma_quotient_between(RSI_MAX * avg, avg, RSI_MAX as int, RSI_MAX as int);
    assert(RSI_MAX * 0 == 0 * avg) by (nonlinear_arith);
    lemma_quotient_between(RSI_MAX * 0, avg, 0, 0);
}

/// A step of the average moves the previous average toward the new rise or
/// fall by one part in `len` of their distance, rounded up.
pub proof fn lemma_average_step_moves(prev: int, x: int, len: int)
    requires
        0 < len,
    ensures
        average_step(prev, x, len) == prev + ceil_div(x * AVERAGE_UNIT - prev, len),
{
    assert(x * AVERAGE_UNIT + (len - 1) * prev == prev * len + (x * AVERAGE_UNIT - prev))
        by (nonlinear_arith);
    lemma_ceil_shift(x * AVERAGE_UNIT - prev, prev, len);
}

/// A step of the average ends between the previous average and the new rise
/// or fall, and above 0 where either of them is.
pub proof fn lemma_average_step_bounds(prev: int, x: int, len: int, hi: int)
    requires
        0 < len,
        0 <= prev <= hi,
        0 <= x * AVERAGE_UNIT <= hi,
    ensures
        0 <= average_step(prev, x, len) <= hi,
        x > 0 ==> average_step(prev, x, len) >= 1,
        x == 0 && prev == 0 ==> average_step(prev, x, len) == 0,
{
    let n = x * AVERAGE_UNIT + (len - 1) * prev;
    assert(0 * len <= n <= hi * len) by (nonlinear_arith)
        requires
            n == x * AVERAGE_UNIT + (len - 1) * prev,
            0 < len,
            0 <= prev <= hi,
            0 <= x * AVERAGE_UNIT <= hi,
    ;
    lemma_ceil_between(n, len, 0, hi);
    if x > 0 {
        assert(n > 0) by (nonlinear_arith)
            requires
                n == x * AVERAGE_UNIT + (len - 1) * prev,
                0 < len,
                0 <= prev,
                x > 0,
        ;
        lemma_ceil_positive(n, len);
    }
    if x == 0 && prev == 0 {
        assert(n == 0) by (nonlinear_arith)
            requires
                n == x * AVERAGE_UNIT + (len - 1) * prev,
                x == 0,
                prev == 0,
        ;
        assert(0 * len <= n <= 0 * len);
        lemma_ceil_between(n, len, 0, 0);
    }
}

/// Neither average is ever below 0.
pub proof fn lemma_averages_not_negative(s: Seq<i64>, len: int, i: int)
    requires
        0 < len,
        i < s.len(),
    ensures
        0 <= avg_gain_at(s, len, i),
        0 <= avg_loss_at(s, len, i),
    decreases i,
{
    if i > 0 {
        lemma_averages_not_negative(s, len, i - 1);
        let g = gain_at(s, i);
        let l = loss_at(s, i);
        let pg = avg_gain_at(s, len, i - 1);
        let pl = avg_loss_at(s, len, i - 1);
        assert(0 <= g * AVERAGE_UNIT && 0 <= l * AVERAGE_UNIT) by (nonlinear_arith)
            requires
                0 <= g,
                0 <= l,
        ;
        let hg = if pg >= g * AVERAGE_UNIT {
            pg
        } else {
            g * AVERAGE_UNIT
        };
        let hl = if pl >= l * AVERAGE_UNIT {
            pl
        } else {
            l * AVERAGE_UNIT
        };
        lemma_average_step_bounds(pg, g, len, hg);
        lemma_average_step_bounds(pl, l, len, hl);
    }
}

/// The index of a column that never changes is neutral everywhere.
pub proof fn lemma_rsi_of_constant(s: Seq<i64>, len: int, i: int)
    requires
        0 < len,
        0 <= i < s.len(),
        constant(s),
    ensures
        rsi_at(s, len, i) == RSI_NEUTRAL,
{
    lemma_averages_of_flat(s, len, i);
}

/// Where a column has not changed yet, both averages are 0.
pub proof fn lemma_averages_of_flat(s: Seq<i64>, len: int, i: int)
    requires
        0 < len,
        i < s.len(),
        forall|j: int| 0 <= j <= i ==> #[trigger] s[j] == s[0],
    ensures
        avg_gain_at(s, len, i) == 0,
        avg_loss_at(s, len, i) == 0,
    decreases i,
{
    if i > 0 {
        lemma_averages_of_flat(s, len, i - 1);
        assert(s[i] == s[0] && s[i - 1] == s[0]);
        lemma_average_step_bounds(0, 0, len, 0);
    }
}

/// In a column that rises at every step, the average of the rises is above
/// 0 from the second position on, and the average of the falls is 0.
pub proof fn lemma_averages_of_rising(s: Seq<i64>, len: int, i: int)
    requires
        0 < len,
        0 < i < s.len(),
        strictly_rising(s),
    ensures
        avg_gain_at(s, len, i) >= 1,
        avg_loss_at(s, len, i) == 0,
    decreases i,
{
    lemma_averages_not_negative(s, len, i - 1);
    if i > 1 {
        lemma_averages_of_rising(s, len, i - 1);
    }
    assert(s[i - 1] < s[i]);
    let g = gain_at(s, i);
    let pg = avg_gain_at(s, len, i - 1);
    assert(0 <= g * AVERAGE_UNIT) by (nonlinear_arith)
        requires
            0 <= g,
    ;
    let hg = if pg >= g * AVERAGE_UNIT {
        pg
    } else {
        g * AVERAGE_UNIT
    };
    lemma_average_step_bounds(pg, g, len, hg);
    lemma_average_step_bounds(0, 0, len, 0);
}

/// In a column that falls at every step, the average of the falls is above
/// 0 from the second position on, and the average of the rises is 0.
pub proof fn lemma_averages_of_falling(s: Seq<i64>, len: int, i: int)
    requires
        0 < len,
        0 < i < s.len(),
        strictly_falling(s),
    ensures
        avg_gain_at(s, len, i) == 0,
        avg_loss_at(s, len, i) >= 1,
    decreases i,
{
    lemma_averages_not_negative(s, len, i - 1);
    if i > 1 {
        lemma_averages_of_falling(s, len, i - 1);
    }
    assert(s[i - 1] > s[i]);
    let l = loss_at(s, i);
    let pl = avg_loss_at(s, len, i - 1);
    assert(0 <= l * AVERAGE_UNIT) by (nonlinear_arith)
        requires
            0 <= l,
    ;
    let hl = if pl >= l * AVERAGE_UNIT {
        pl
    } else {
        l * AVERAGE_UNIT
    };
    lemma_average_step_bounds(pl, l, len, hl);
    lemma_average_step_bounds(0, 0, len, 0);
}

/// The index of a column that rises at every step is 100 from the second
/// position on.
pub proof fn lemma_rsi_of_rising(s: Seq<i64>, len: int, i: int)
    requires
        0 < len,
        0 < i < s.len(),
        strictly_rising(s),
    ensures
        rsi_at(s, len, i) == RSI_MAX,
{
    lemma_averages_of_rising(s, len, i);
    lemma_rsi_value_extremes(avg_gain_at(s, len, i));
}

/// The index of a column that falls at every step is 0 from the second
/// position on.
pub proof fn lemma_rsi_of_falling(s: Seq<i64>, len: int, i: int)
    requires
        0 < len,
        0 < i < s.len(),
        strictly_falling(s),
    ensures
        rsi_at(s, len, i) == 0,
{
    lemma_averages_of_falling(s, len, i);
    lemma_rsi_value_extremes(avg_loss_at(s, len, i));
}

/// Two columns that rise and fall by the same amounts at every step have
/// the same averages.
pub proof fn lemma_averages_of_equal_steps(s: Seq<i64>, t: Seq<i64>, len: int, i: int)
    requires
        s.len() == t.len(),
        i < s.len(),
        forall|j: int| 0 < j < s.len() ==> #[trigger] t[j] - t[j - 1] == s[j] - s[j - 1],
    ensures
        avg_gain_at(t, len, i) == avg_gain_at(s, len, i),
        avg_loss_at(t, len, i) == avg_loss_at(s, len, i),
    decreases i,
{
    if i > 0 {
        lemma_averages_of_equal_steps(s, t, len, i - 1);
        assert(t[i] - t[i - 1] == s[i] - s[i - 1]);
    }
}

/// Moving a whole column up or down by one and the same amount leaves its
/// index as it is.
pub proof fn lemma_rsi_of_shifted(s: Seq<i64>, t: Seq<i64>, c: int, len: int, i: int)
    requires
        s.len() == t.len(),
        0 <= i < s.len(),
        forall|j: int| 0 <= j < s.len() ==> #[trigger] t[j] == s[j] + c,
    ensures
        rsi_at(t, len, i) == rsi_at(s, len, i),
{
    assert forall|j: int| 0 < j < s.len() implies #[trigger] t[j] - t[j - 1] == s[j] - s[j
        - 1] by {
        assert(t[j] == s[j] + c);
        assert(t[j - 1] == s[j - 1] + c);
    }
    lemma_averages_of_equal_steps(s, t, len, i);
}

/// A step of the average on `k` times the rise or fall: where the previous
/// average is `k` times the other one, less at most `k * (len - 1)`, so is
/// the next.
pub proof fn lemma_average_step_of_multiple(
    prev: int,
    prev_multiple: int,
    x: int,
    k: int,
    len: int,
)
    requires
        0 < len,
        1 <= k,
        0 <= k * prev - prev_multiple <= k * (len - 1),
    ensures
        0 <= k * average_step(prev, x, len) - average_step(prev_multiple, k * x, len) <= k * (len
            - 1),
{
    let n = x * AVERAGE_UNIT + (len - 1) * prev;
    let m = (k * x) * AVERAGE_UNIT + (len - 1) * prev_multiple;
    let a = average_step(prev, x, len);
    let b = average_step(prev_multiple, k * x, len);
    let d = k * prev - prev_multiple;
    lemma_ceil_rounds_up(n, len);
    lemma_ceil_rounds_up(m, len);
    let r = len * a - n;
    let q = len * b - m;
    assert(0 <= r <= len - 1);
    assert(0 <= q <= len - 1);
    assert(len * (k * a - b) == (len - 1) * d + k * r - q) by (nonlinear_arith)
        requires
            n == x * AVERAGE_UNIT + (len - 1) * prev,
            m == (k * x) * AVERAGE_UNIT + (len - 1) * prev_multiple,
            d == k * prev - prev_multiple,
            r == len * a - n,
            q == len * b - m,
    ;
    assert(-len < (len - 1) * d + k * r - q <= len * (k * (len - 1))) by (nonlinear_arith)
        requires
            0 < len,
            1 <= k,
            0 <= d <= k * (len - 1),
            0 <= r <= len - 1,
            0 <= q <= len - 1,
    ;
    assert(0 <= k * a - b <= k * (len - 1)) by (nonlinear_arith)
        requires
            0 < len,
            -len < len * (k * a - b) <= len * (k * (len - 1)),
    ;
}

/// The averages of a column whose every step is `k` times the step of
/// another are `k` times the averages of the other, less at most
/// `k * (len - 1)` of the finer unit.
pub proof fn lemma_averages_of_multiple(s: Seq<i64>, t: Seq<i64>, k: int, len: int, i: int)
    requires
        0 < len,
        1 <= k,
        s.len() == t.len(),
        i < s.len(),
        forall|j: int| 0 < j < s.len() ==> #[trigger] t[j] - t[j - 1] == k * (s[j] - s[j - 1]),
    ensures
        0 <= k * avg_gain_at(s, len, i) - avg_gain_at(t, len, i) <= k * (len - 1),
        0 <= k * avg_loss_at(s, len, i) - avg_loss_at(t, len, i) <= k * (len - 1),
    decreases i,
{
    if i > 0 {
        lemma_averages_of_multiple(s, t, k, len, i - 1);
        assert(t[i] - t[i - 1] == k * (s[i] - s[i - 1]));
        let step = s[i] - s[i - 1];
        assert(step > 0 ==> k * step > 0) by (nonlinear_arith)
            requires
                1 <= k,
        ;
        assert(step < 0 ==> k * step < 0) by (nonlinear_arith)
            requires
                1 <= k,
        ;
        assert(gain_at(t, i) == k * gain_at(s, i)) by (nonlinear_arith)
            requires
                gain_at(s, i) == (if step > 0 {
                    step
                } else {
                    0
                }),
                gain_at(t, i) == (if k * step > 0 {
                    k * step
                } else {
                    0
                }),
                step > 0 ==> k * step > 0,
                step < 0 ==> k * step < 0,
        ;
        assert(loss_at(t, i) == k * loss_at(s, i)) by (nonlinear_arith)
            requires
                loss_at(s, i) == (if step < 0 {
                    -step
                } else {
                    0
                }),
                loss_at(t, i) == (if k * step < 0 {
                    -(k * step)
                } else {
                    0
                }),
                step > 0 ==> k * step > 0,
                step < 0 ==> k * step < 0,
        ;
        lemma_average_step_of_multiple(
            avg_gain_at(s, len, i - 1),
            avg_gain_at(t, len, i - 1),
            gain_at(s, i),
            k,
            len,
        );
        lemma_average_step_of_multiple(
            avg_loss_at(s, len, i - 1),
            avg_loss_at(t, len, i - 1),
            loss_at(s, i),
            k,
            len,
        );
    } else {
        assert(0 <= k * (len - 1)) by (nonlinear_arith)
            requires
                1 <= k,
                0 < len,
        ;
    }
}

/// A step of the average ends at 0 exactly when there is no new rise or
/// fall and the previous average is 0 or, with a length of 1, forgotten.
pub proof fn lemma_average_step_is_zero(prev: int, x: int, len: int)
    requires
        0 < len,
        0 <= prev,
        0 <= x,
    ensures
        average_step(prev, x, len) == 0 <==> x == 0 && (prev == 0 || len == 1),
{
    let n = x * AVERAGE_UNIT + (len - 1) * prev;
    assert(n >= 0 && (n == 0 <==> x == 0 && (prev == 0 || len == 1))) by (nonlinear_arith)
        requires
            n == x * AVERAGE_UNIT + (len - 1) * prev,
            0 < len,
            0 <= prev,
            0 <= x,
    ;
    if n > 0 {
        lemma_ceil_positive(n, len);
    } else {
        assert(0 * len <= n <= 0 * len);
        lemma_ceil_between(n, len, 0, 0);
    }
}

/// A column whose every step is `k` times the step of another has an
/// average of 0 exactly where the other has.
pub proof fn lemma_averages_of_multiple_are_zero(
    s: Seq<i64>,
    t: Seq<i64>,
    k: int,
    len: int,
    i: int,
)
    requires
        0 < len,
        1 <= k,
        s.len() == t.len(),
        i < s.len(),
        forall|j: int| 0 < j < s.len() ==> #[trigger] t[j] - t[j - 1] == k * (s[j] - s[j - 1]),
    ensures
        avg_gain_at(t, len, i) == 0 <==> avg_gain_at(s, len, i) == 0,
        avg_loss_at(t, len, i) == 0 <==> avg_loss_at(s, len, i) == 0,
    decreases i,
{
    if i > 0 {
        lemma_averages_of_multiple_are_zero(s, t, k, len, i - 1);
        lemma_averages_not_negative(s, len, i - 1);
        lemma_averages_not_negative(t, len, i - 1);
        assert(t[i] - t[i - 1] == k * (s[i] - s[i - 1]));
        let step = s[i] - s[i - 1];
        assert((step > 0 <==> k * step > 0) && (step < 0 <==> k * step < 0)) by (nonlinear_arith)
            requires
                1 <= k,
        ;
        lemma_average_step_is_zero(avg_gain_at(s, len, i - 1), gain_at(s, i), len);
        lemma_average_step_is_zero(avg_gain_at(t, len, i - 1), gain_at(t, i), len);
        lemma_average_step_is_zero(avg_loss_at(s, len, i - 1), loss_at(s, i), len);
        lemma_average_step_is_zero(avg_loss_at(t, len, i - 1), loss_at(t, i), len);
    }
}

/// Two indices lie close together where the averages behind the second are
/// `k` times those behind the first, less at most `c` each: the sum of the
/// second averages, times the distance of the indices, is at most 100 times
/// `c`, and that sum once more for the rounding.
pub proof fn lemma_rsi_value_of_multiple(g: int, l: int, gm: int, lm: int, k: int, c: int)
    requires
        1 <= k,
        0 <= g,
        0 <= l,
        0 <= gm,
        0 <= lm,
        0 < g + l,
        0 < gm + lm,
        0 <= k * g - gm <= c,
        0 <= k * l - lm <= c,
    ensures
        (gm + lm) * (rsi_value(gm, lm) - rsi_value(g, l)) <= RSI_MAX * c + (gm + lm),
        (gm + lm) * (rsi_value(g, l) - rsi_value(gm, lm)) <= RSI_MAX * c + (gm + lm),
{
    let a = rsi_value(g, l);
    let b = rsi_value(gm, lm);
    let t = g + l;
    let tm = gm + lm;
    let dg = k * g - gm;
    let dl = k * l - lm;
    let r = RSI_MAX as int;
    lemma_rsi_value_rounds_down(g, l);
    lemma_rsi_value_rounds_down(gm, lm);
    lemma_rsi_value_range(g, l);
    lemma_rsi_value_range(gm, lm);
    // the two indices, each times both sums
    let ab = t * tm * a;
    let bb = t * tm * b;
    let x = r * g * tm;
    let y = r * gm * t;
    assert(ab <= x && x < ab + t * tm) by (nonlinear_arith)
        requires
            ab == t * tm * a,
            x == r * g * tm,
            t * a <= r * g < t * a + t,
            0 < tm,
    ;
    assert(bb <= y && y < bb + t * tm) by (nonlinear_arith)
        requires
            bb == t * tm * b,
            y == r * gm * t,
            tm * b <= r * gm < tm * b + tm,
            0 < t,
    ;
    let cross = gm * l - g * lm;
    assert(gm * t - g * tm == cross) by (nonlinear_arith)
        requires
            cross == gm * l - g * lm,
            t == g + l,
            tm == gm + lm,
    ;
    assert(y - x == r * cross) by (nonlinear_arith)
        requires
            x == r * g * tm,
            y == r * gm * t,
            gm * t - g * tm == cross,
    ;
    assert((k * g) * l == (k * l) * g) by (nonlinear_arith);
    assert(gm * l == (k * g) * l - dg * l) by (nonlinear_arith)
        requires
            gm == k * g - dg,
    ;
    assert(g * lm == (k * l) * g - g * dl) by (nonlinear_arith)
        requires
            lm == k * l - dl,
    ;
    assert(cross == g * dl - l * dg) by (nonlinear_arith)
        requires
            cross == gm * l - g * lm,
            gm * l == (k * g) * l - dg * l,
            g * lm == (k * l) * g - g * dl,
            (k * g) * l == (k * l) * g,
    ;
    assert(y - x == r * (g * dl - l * dg));
    assert(-(t * c) <= g * dl - l * dg <= t * c) by (nonlinear_arith)
        requires
            t == g + l,
            0 <= g,
            0 <= l,
            0 <= dg <= c,
            0 <= dl <= c,
    ;
    assert(-(r * (t * c)) <= y - x <= r * (t * c)) by (nonlinear_arith)
        requires
            y - x == r * (g * dl - l * dg),
            -(t * c) <= g * dl - l * dg <= t * c,
            0 <= r,
    ;
    assert(bb - ab < t * (r * c + tm) && ab - bb < t * (r * c + tm)) by (nonlinear_arith)
        requires
            ab <= x && x < ab + t * tm,
            bb <= y && y < bb + t * tm,
            -(r * (t * c)) <= y - x <= r * (t * c),
    ;
    assert(tm * (b - a) <= r * c + tm) by (nonlinear_arith)
        requires
            0 < t,
            bb - ab < t * (r * c + tm),
            ab == t * tm * a,
            bb == t * tm * b,
    ;
    assert(tm * (a - b) <= r * c + tm) by (nonlinear_arith)
        requires
            0 < t,
            ab - bb < t * (r * c + tm),
            ab == t * tm * a,
            bb == t * tm * b,
    ;
}

/// The index of a column whose every step is `k` times the step of another
/// is the index of the other, but for the rounding of the averages: the sum
/// of its averages, times the distance of the two indices, is at most 100
/// times `k * (len - 1)`, and that sum once more.
pub proof fn lemma_rsi_of_multiple(s: Seq<i64>, t: Seq<i64>, k: int, len: int, i: int)
    requires
        0 < len,
        1 <= k,
        s.len() == t.len(),
        0 <= i < s.len(),
        forall|j: int| 0 < j < s.len() ==> #[trigger] t[j] - t[j - 1] == k * (s[j] - s[j - 1]),
    ensures
        ({
            let sum = avg_gain_at(t, len, i) + avg_loss_at(t, len, i);
            let far = RSI_MAX * (k * (len - 1)) + sum;
            &&& sum * (rsi_at(t, len, i) - rsi_at(s, len, i)) <= far
            &&& sum * (rsi_at(s, len, i) - rsi_at(t, len, i)) <= far
            &&& sum == 0 ==> rsi_at(t, len, i) == rsi_at(s, len, i)
        }),
{
    lemma_averages_of_multiple(s, t, k, len, i);
    lemma_averages_of_multiple_are_zero(s, t, k, len, i);
    lemma_averages_not_negative(s, len, i);
    lemma_averages_not_negative(t, len, i);
    let g = avg_gain_at(s, len, i);
    let l = avg_loss_at(s, len, i);
    let gm = avg_gain_at(t, len, i);
    let lm = avg_loss_at(t, len, i);
    assert(0 <= k * (len - 1)) by (nonlinear_arith)
        requires
            1 <= k,
            0 < len,
    ;
    if gm + lm > 0 {
        lemma_rsi_value_of_multiple(g, l, gm, lm, k, k * (len - 1));
    } else {
        assert((gm + lm) * (rsi_at(t, len, i) - rsi_at(s, len, i)) == 0) by (nonlinear_arith)
            requires
                gm + lm == 0,
        ;
        assert((gm + lm) * (rsi_at(s, len, i) - rsi_at(t, len, i)) == 0) by (nonlinear_arith)
            requires
                gm + lm == 0,
        ;
        assert(0 <= RSI_MAX * (k * (len - 1))) by (nonlinear_arith)
            requires
                0 <= k * (len - 1),
        ;
    }
}

/// The rises of a column are the falls of its mirror image, and so are
/// their averages.
pub proof fn lemma_averages_of_mirror(s: Seq<i64>, t: Seq<i64>, len: int, i: int)
    requires
        s.len() == t.len(),
        i < s.len(),
        forall|j: int| 0 <= j < s.len() ==> #[trigger] t[j] == -s[j],
    ensures
        avg_gain_at(t, len, i) == avg_loss_at(s, len, i),
        avg_loss_at(t, len, i) == avg_gain_at(s, len, i),
    decreases i,
{
    if i > 0 {
        lemma_averages_of_mirror(s, t, len, i - 1);
        assert(t[i] == -s[i]);
        assert(t[i - 1] == -s[i - 1]);
    }
}

/// The index of the mirror image of a column is what the index of the
/// column leaves of 100, but for the rounding of the two: together they
/// make 100, or one millionth less.
pub proof fn lemma_rsi_of_mirror(s: Seq<i64>, t: Seq<i64>, len: int, i: int)
    requires
        0 < len,
        s.len() == t.len(),
        0 <= i < s.len(),
        forall|j: int| 0 <= j < s.len() ==> #[trigger] t[j] == -s[j],
    ensures
        RSI_MAX - 1 <= rsi_at(t, len, i) + rsi_at(s, len, i) <= RSI_MAX,
{
    lemma_averages_of_mirror(s, t, len, i);
    lemma_averages_not_negative(s, len, i);
    let g = avg_gain_at(s, len, i);
    let l = avg_loss_at(s, len, i);
    if g + l > 0 {
        lemma_rsi_value_rounds_down(g, l);
        lemma_rsi_value_rounds_down(l, g);
        let a = rsi_value(g, l);
        let b = rsi_value(l, g);
        let total = g + l;
        assert(RSI_MAX - 1 <= a + b <= RSI_MAX) by (nonlinear_arith)
            requires
                total > 0,
                total == g + l,
                total * a <= RSI_MAX * g < total * a + total,
                total * b <= RSI_MAX * l < total * b + total,
        ;
    }
}

/// One step of Wilder's average, in the finer unit.
fn average_up(prev: i128, x: i64, len: usize) -> (next: i128)
    requires
        0 < len,
        0 <= prev <= 2 * VALUE_LIMIT * AVERAGE_UNIT,
        0 <= x <= 2 * VALUE_LIMIT,
    ensures
        next == average_step(prev as int, x as int, len as int),
        0 <= next <= 2 * VALUE_LIMIT * AVERAGE_UNIT,
{
    proof {
        assert(0 <= x * AVERAGE_UNIT <= 2 * VALUE_LIMIT * AVERAGE_UNIT) by (nonlinear_arith)
            requires
                0 <= x <= 2 * VALUE_LIMIT,
        ;
        lemma_average_step_moves(prev as int, x as int, len as int);
        lemma_average_step_bounds(
            prev as int,
            x as int,
            len as int,
            2 * VALUE_LIMIT * AVERAGE_UNIT,
        );
    }
    let target: i128 = x as i128 * AVERAGE_UNIT as i128;
    let distance: i128 = target - prev;
    let moved: i128 = -div_floor(-distance, len as i128);
    prev + moved
}

/// The rises and the falls of a column, as two columns.
pub fn gains_and_losses(src: &Vec<i64>) -> (out: (Vec<i64>, Vec<i64>))
    requires
        bounded(src@, VALUE_LIMIT as int),
    ensures
        out.0@ == gains(src@),
        out.1@ == losses(src@),
{
    let n: usize = src.len();
    let mut up: Vec<i64> = Vec::with_capacity(n);
    let mut down: Vec<i64> = Vec::with_capacity(n);
    let mut i: usize = 0;
    while i < n
        invariant
            n == src@.len(),
            bounded(src@, VALUE_LIMIT as int),
            i <= n,
            up@.len() == i,
            down@.len() == i,
            forall|j: int| 0 <= j < i ==> up@[j] == gain_at(src@, j),
            forall|j: int| 0 <= j < i ==> down@[j] == loss_at(src@, j),
        decreases n - i,
    {
        if i == 0 {
            up.push(0);
            down.push(0);
        } else {
            let diff: i64 = src[i] - src[i - 1];
            if diff > 0 {
                up.push(diff);
                down.push(0);
            } else if diff < 0 {
                up.push(0);
                down.push(-diff);
            } else {
                up.push(0);
                down.push(0);
            }
        }
        i += 1;
    }
    assert(up@ =~= gains(src@));
    assert(down@ =~= losses(src@));
    (up, down)
}

/// Calculate RSI value from a source column.
///
/// A column that rises at every step has the index 100 from its second
/// position on, one that falls at every step the index 0, and one that
/// never changes the neutral index.
pub fn rsi(src: &Vec<i64>, len: usize) -> (out: Vec<i64>)
    requires
        len > 0,
        bounded(src@, VALUE_LIMIT as int),
    ensures
        out@.len() == src@.len(),
        forall|i: int| 0 <= i < src@.len() ==> out@[i] == rsi_at(src@, len as int, i),
        forall|i: int| 0 <= i < src@.len() ==> 0 <= #[trigger] out@[i] <= RSI_MAX,
        strictly_rising(src@) ==> forall|i: int| 0 < i < src@.len() ==> out@[i] == RSI_MAX,
        strictly_falling(src@) ==> forall|i: int| 0 < i < src@.len() ==> out@[i] == 0,
        constant(src@) ==> forall|i: int| 0 <= i < src@.len() ==> out@[i] == RSI_NEUTRAL,
{
    let n: usize = src.len();
    let mut out: Vec<i64> = Vec::with_capacity(n);
    let mut avg_gain: i128 = 0;
    let mut avg_loss: i128 = 0;
    let mut i: usize = 0;
    while i < n
        invariant
            n == src@.len(),
            len > 0,
            bounded(src@, VALUE_LIMIT as int),
            i <= n,
            avg_gain == avg_gain_at(src@, len as int, i - 1),
            avg_loss == avg_loss_at(src@, len as int, i - 1),
            0 <= avg_gain <= 2 * VALUE_LIMIT * AVERAGE_UNIT,
            0 <= avg_loss <= 2 * VALUE_LIMIT * AVERAGE_UNIT,
            out@.len() == i,
            forall|j: int| 0 <= j < i ==> out@[j] == rsi_at(src@, len as int, j),
            forall|j: int| 0 <= j < i ==> 0 <= #[trigger] out@[j] <= RSI_MAX,
        decreases n - i,
    {
        if i > 0 {
            assert(-VALUE_LIMIT <= src@[i as int] <= VALUE_LIMIT);
            assert(-VALUE_LIMIT <= src@[i - 1] <= VALUE_LIMIT);
            let diff: i64 = src[i] - src[i - 1];
            let gain: i64 = if diff > 0 {
                diff
            } else {
                0
            };
            let loss: i64 = if diff < 0 {
                -diff
            } else {
                0
            };
            avg_gain = average_up(avg_gain, gain, len);
            avg_loss = average_up(avg_loss, loss, len);
        }
        proof {
            lemma_rsi_value_range(avg_gain as int, avg_loss as int);
        }
        if avg_gain + avg_loss == 0 {
            out.push(RSI_NEUTRAL);
        } else {
            assert(0 <= RSI_MAX * avg_gain <= 100_000_000 * (0x4000_0000_0000_0000
                * 1_000_000_000)) by (nonlinear_arith)
                requires
                    0 <= avg_gain <= 0x4000_0000_0000_0000 * 1_000_000_000,
                    RSI_MAX == 100_000_000,
            ;
            let value: i128 = div_floor(RSI_MAX as i128 * avg_gain, avg_gain + avg_loss);
            out.push(value as i64);
        }
        i += 1;
    }
    proof {
        if strictly_rising(src@) {
            assert forall|i: int| 0 < i < src@.len() implies out@[i] == RSI_MAX by {
                lemma_rsi_of_rising(src@, len as int, i);
            }
        }
        if strictly_falling(src@) {
            assert forall|i: int| 0 < i < src@.len() implies out@[i] == 0 by {
                lemma_rsi_of_falling(src@, len as int, i);
            }
        }
        if constant(src@) {
            assert forall|i: int| 0 <= i < src@.len() implies out@[i] == RSI_NEUTRAL by {
                lemma_rsi_of_constant(src@, len as int, i);
            }
        }
    }
    out
}

/// Calculate the value that would have brought the RSI to a target, by
/// reversing the formula of the index. The target is an index value in
/// fixed point, strictly between 0 and 100.
pub fn rev_rsi(src: &Vec<i64>, len: usize, target: i64) -> (out: Vec<i128>)
    requires
        0 < len <= u32::MAX,
        0 < target < RSI_MAX,
        bounded(src@, VALUE_LIMIT as int),
    ensures
        out@.len() == src@.len(),
        forall|i: int|
            0 <= i < src@.len() ==> out@[i] == rev_rsi_at(src@, len as int, target as int, i),
{
    let n: usize = src.len();
    let (up, down) = gains_and_losses(src);
    let avg_gain: Vec<i64> = smooth(&up, 2, 2 * (len as u128));
    let avg_loss: Vec<i64> = smooth(&down, 2, 2 * (len as u128));
    let mut out: Vec<i128> = Vec::with_capacity(n);
    let mut i: usize = 0;
    proof {
        lemma_gains_losses_bounds(src@);
    }
    while i < n
        invariant
            n == src@.len(),
            0 < len <= u32::MAX,
            0 < target < RSI_MAX,
            i <= n,
            bounded(src@, VALUE_LIMIT as int),
            up@ == gains(src@),
            down@ == losses(src@),
            forall|j: int| 0 <= j < n ==> 0 <= #[trigger] up@[j] <= 2 * VALUE_LIMIT,
            forall|j: int| 0 <= j < n ==> 0 <= #[trigger] down@[j] <= 2 * VALUE_LIMIT,
            avg_gain@.len() == n,
            avg_loss@.len() == n,
            forall|j: int| 0 <= j < n ==> avg_gain@[j] == smooth_at(up@, 2, 2 * len, j),
            forall|j: int| 0 <= j < n ==> avg_loss@[j] == smooth_at(down@, 2, 2 * len, j),
            out@.len() == i,
            forall|j: int|
                0 <= j < i ==> out@[j] == rev_rsi_at(src@, len as int, target as int, j),
        decreases n - i,
    {
        let g: i128 = avg_gain[i] as i128;
        let l: i128 = avg_loss[i] as i128;
        let t: i128 = target as i128;
        let rest: i128 = RSI_MAX as i128 - t;
        let steps: i128 = len as i128 - 1;
        proof {
            lemma_smooth_bounds(up@, 2, 2 * len, i as int, 0, 2 * VALUE_LIMIT);
            lemma_smooth_bounds(down@, 2, 2 * len, i as int, 0, 2 * VALUE_LIMIT);
            assert(0 <= l * t <= 0x4000_0000_0000_0000 * 100_000_000 && 0 <= g * rest
                <= 0x4000_0000_0000_0000 * 100_000_000) by (nonlinear_arith)
                requires
                    0 <= g <= 0x4000_0000_0000_0000,
                    0 <= l <= 0x4000_0000_0000_0000,
                    0 < t < 100_000_000,
                    0 < rest < 100_000_000,
            ;
        }
        let balance: i128 = l * t - g * rest;
        proof {
            assert(-(0x1_0000_0000 * (0x4000_0000_0000_0000 * 100_000_000)) <= steps * balance
                <= 0x1_0000_0000 * (0x4000_0000_0000_0000 * 100_000_000)) by (nonlinear_arith)
                requires
                    0 <= steps < 0x1_0000_0000,
                    -(0x4000_0000_0000_0000 * 100_000_000) <= balance <= 0x4000_0000_0000_0000
                        * 100_000_000,
            ;
        }
        let k: i128 = steps * balance;
        let shift: i128 = if k >= 0 {
            div_floor(k, rest)
        } else {
            div_floor(k, t)
        };
        proof {
            if k >= 0 {
                assert(0 * rest <= k <= k * rest) by (nonlinear_arith)
                    requires
                        k >= 0,
                        rest > 0,
                ;
                lemma_quotient_between(k as int, rest as int, 0, k as int);
            } else {
                assert(k * t <= k <= 0 * t) by (nonlinear_arith)
                    requires
                        k < 0,
                        t > 0,
                ;
                lemma_quotient_between(k as int, t as int, k as int, 0);
            }
            assert(src@[i as int] <= VALUE_LIMIT && src@[i as int] >= -VALUE_LIMIT);
        }
        out.push(src[i] as i128 + shift);
        i += 1;
    }
    out
}

/// The relative strength index and its inverse as methods of a column.
pub trait ExprRsi: Sized {
    /// The values of the column.
    spec fn values(&self) -> Seq<i64>;

    fn rsi(&self, len: usize) -> (out: Self)
        requires
            len > 0,
            bounded(self.values(), VALUE_LIMIT as int),
        ensures
            out.values().len() == self.values().len(),
            forall|i: int|
                0 <= i < self.values().len() ==> out.values()[i] == rsi_at(
                    self.values(),
                    len as int,
                    i,
                ),
    ;

    fn rev_rsi(&self, len: usize, rsi: i64) -> (out: Vec<i128>)
        requires
            0 < len <= u32::MAX,
            0 < rsi < RSI_MAX,
            bounded(self.values(), VALUE_LIMIT as int),
        ensures
            out@.len() == self.values().len(),
            forall|i: int|
                0 <= i < self.values().len() ==> out@[i] == rev_rsi_at(
                    self.values(),
                    len as int,
                    rsi as int,
                    i,
                ),
    ;
}

/// Chaining
impl ExprRsi for Vec<i64> {
    open spec fn values(&self) -> Seq<i64> {
        self@
    }

    fn rsi(&self, len: usize) -> (out: Self) {
        rsi(self, len)
    }

    fn rev_rsi(&self, len: usize, rsi: i64) -> (out: Vec<i128>) {
        rev_rsi(self, len, rsi)
    }
}

} // verus!
