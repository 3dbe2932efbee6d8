//! True range and its Wilder average.

use crate::ta::arith::bounded;
use crate::ta::arith::PRICE_LIMIT;
use crate::ta::ma::lemma_smooth_bounds;
use crate::ta::ma::lemma_smooth_constant;
use crate::ta::ma::rma;
use crate::ta::ma::rma_at;
use crate::ta::ohlc::Ohlc;
use vstd::prelude::*;

verus! {

/// The distance between two prices.
pub open spec fn distance(a: int, b: int) -> int {
    if a >= b {
        a - b
    } else {
        b - a
    }
}

/// The largest of three numbers.
pub open spec fn max3(a: int, b: int, c: int) -> int {
    if a >= b && a >= c {
        a
    } else if b >= c {
        b
    } else {
        c
    }
}

/// The true range of bar `i`: the largest of the bar's own range and the
/// distances of its high and its low from the previous close. The first bar
/// has no previous close, and its true range is its own range.
pub open spec fn true_range_at(ohlc: &Ohlc, i: int) -> int {
    let high = ohlc.high@[i] as int;
    let low = ohlc.low@[i] as int;
    if i <= 0 {
        high - low
    } else {
        let prev_close = ohlc.close@[i - 1] as int;
        max3(high - low, distance(high, prev_close), distance(low, prev_close))
    }
}

/// The column of the true ranges of all bars.
pub open spec fn true_ranges(ohlc: &Ohlc) -> Seq<i64> {
    Seq::new(ohlc.spec_len(), |i: int| true_range_at(ohlc, i) as i64)
}

/// The average true range at bar `i`: Wilder's smoothing of the true range.
pub open spec fn atr_at(ohlc: &Ohlc, len: int, i: int) -> int {
    rma_at(true_ranges(ohlc), len, i)
}

/// Where every bar has the same range from low to high, and every bar's
/// low and high enclose the previous close, the average true range is that
/// range.
pub proof fn lemma_atr_of_constant_range(ohlc: &Ohlc, len: int, range: int, i: int)
    requires
        ohlc.wf(),
        0 < len,
        0 <= i < ohlc.spec_len(),
        forall|j: int|
            0 <= j < ohlc.spec_len() ==> (#[trigger] ohlc.high@[j]) - ohlc.low@[j] == range,
        forall|j: int|
            0 < j < ohlc.spec_len() ==> (#[trigger] ohlc.low@[j]) <= ohlc.close@[j - 1]
                <= ohlc.high@[j],
    ensures
        atr_at(ohlc, len, i) == range,
{
    assert forall|j: int| 0 <= j <= i implies true_ranges(ohlc)[j] == range by {
        assert(true_range_at(ohlc, j) == range);
    }
    lemma_smooth_constant(true_ranges(ohlc), 1, len, i, range);
}

/// The distance between two numbers.
fn abs_diff(a: i64, b: i64) -> (d: i64)
    requires
        -PRICE_LIMIT <= a <= PRICE_LIMIT,
        -PRICE_LIMIT <= b <= PRICE_LIMIT,
    ensures
        d == distance(a as int, b as int),
{
    if a >= b {
        a - b
    } else {
        b - a
    }
}

/// True Range
pub fn true_range(ohlc: &Ohlc) -> (out: Vec<i64>)
    requires
        ohlc.wf(),
    ensures
        out@ == true_ranges(ohlc),
        forall|i: int| 0 <= i < ohlc.spec_len() ==> out@[i] == true_range_at(ohlc, i),
        bounded(out@, 2 * PRICE_LIMIT),
{
    let n: usize = ohlc.len();
    let mut out: Vec<i64> = Vec::with_capacity(n);
    let mut i: usize = 0;
    while i < n
        invariant
            ohlc.wf(),
            n == ohlc.spec_len(),
            i <= n,
            out@.len() == i,
            forall|j: int| 0 <= j < i ==> out@[j] == true_range_at(ohlc, j),
        decreases n - i,
    {
        let high: i64 = ohlc.high[i];
        let low: i64 = ohlc.low[i];
        let hl_range: i64 = high - low;
        if i == 0 {
            out.push(hl_range);
        } else {
            let prev_close: i64 = ohlc.close[i - 1];
            let hc_range: i64 = abs_diff(high, prev_close);
            let lc_range: i64 = abs_diff(low, prev_close);
            let max_range: i64 = if hl_range >= hc_range && hl_range >= lc_range {
                hl_range
            } else if hc_range >= lc_range {
                hc_range
            } else {
                lc_range
            };
            out.push(max_range);
        }
        i += 1;
    }
    assert(out@ =~= true_ranges(ohlc));
    out
}

/// ATR
pub fn atr(ohlc: &Ohlc, len: usize) -> (out: Vec<i64>)
    requires
        ohlc.wf(),
        len > 0,
    ensures
        out@.len() == ohlc.spec_len(),
        forall|i: int| 0 <= i < ohlc.spec_len() ==> out@[i] == atr_at(ohlc, len as int, i),
        bounded(out@, 2 * PRICE_LIMIT),
{
    let tr: Vec<i64> = true_range(ohlc);
    let out: Vec<i64> = rma(&tr, len);
    proof {
        assert forall|i: int| 0 <= i < out@.len() implies -2 * PRICE_LIMIT <= #[trigger] out@[i]
            <= 2 * PRICE_LIMIT by {
            lemma_smooth_bounds(tr@, 1, len as int, i, -2 * PRICE_LIMIT, 2 * PRICE_LIMIT);
        }
    }
    out
}

} // verus!
