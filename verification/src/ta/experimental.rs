//! Composite oscillators built on the bias of a bar.

use crate::ta::arith::bounded;
use crate::ta::arith::div_floor;
use crate::ta::arith::floor_div;
use crate::ta::arith::PRICE_LIMIT;
use crate::ta::arith::SCALE;
use crate::ta::arith::VALUE_LIMIT;
use crate::ta::common::bar_bias;
use crate::ta::common::bar_bias_at;
use crate::ta::common::bar_biases;
use crate::ta::ma::lemma_sma_bounds;
use crate::ta::ma::lemma_smooth_bounds;
use crate::ta::ma::rma;
use crate::ta::ma::rma_at;
use crate::ta::ma::sma;
use crate::ta::ma::sma_at;
use crate::ta::ohlc::Ohlc;
use crate::ta::rsi::rsi;
use crate::ta::rsi::rsi_at;
use crate::ta::rsi::RSI_MAX;
use vstd::prelude::*;

verus! {

/// The structure price of bar `i`: its open plus its bias.
pub open spec fn structure_price_at(ohlc: &Ohlc, i: int) -> int {
    ohlc.open@[i] + bar_bias_at(ohlc, i)
}

/// The column of the structure prices of all bars.
pub open spec fn structure_prices(ohlc: &Ohlc) -> Seq<i64> {
    Seq::new(ohlc.spec_len(), |i: int| structure_price_at(ohlc, i) as i64)
}

/// The relative structure strength index at bar `i`: the relative strength
/// index of the structure price.
pub open spec fn rssi_at(ohlc: &Ohlc, len: int, i: int) -> int {
    rsi_at(structure_prices(ohlc), len, i)
}

/// The bias reversion at bar `i`: how far the open lies from Wilder's
/// average of the bias.
pub open spec fn bias_reversion_at(ohlc: &Ohlc, len: int, i: int) -> int {
    ohlc.open@[i] - rma_at(bar_biases(ohlc), len, i)
}

/// The column of the bias reversions of all bars.
pub open spec fn bias_reversions(ohlc: &Ohlc, len: int) -> Seq<i64> {
    Seq::new(ohlc.spec_len(), |i: int| bias_reversion_at(ohlc, len, i) as i64)
}

/// The smoothed bias reversion at bar `i`: the simple moving average of the
/// bias reversion over the same length.
pub open spec fn bias_reversion_smoothed_at(ohlc: &Ohlc, len: int, i: int) -> int {
    sma_at(bias_reversions(ohlc, len), len, i)
}

/// The reversion of a signal line against the band that an oscillator
/// spans around the open: 0 inside the band, the distance from the upper
/// band above it, the negative distance from the lower band below it.
pub open spec fn reversion(open: int, osc: int, signal: int) -> int {
    let upper = open + osc;
    let lower = open - osc;
    if lower <= signal <= upper {
        0
    } else if signal > upper {
        signal - upper
    } else {
        signal - lower
    }
}

/// A reversion as a percentage of the oscillator, in fixed point. Against
/// an oscillator of 0 the percentage is 0.
pub open spec fn reversion_percent(reversion: int, osc: int) -> int {
    if osc == 0 {
        0
    } else {
        floor_div(100 * SCALE * reversion, osc)
    }
}

/// The reversion is 0 exactly when the signal line lies within the band. It
/// is the positive distance from the upper band when the signal line lies
/// above it, and the negative distance from the lower band when the signal
/// line lies below that and not above the upper band.
pub proof fn lemma_reversion_sign(open: int, osc: int, signal: int)
    ensures
        reversion(open, osc, signal) == 0 <==> open - osc <= signal <= open + osc,
        signal > open + osc ==> reversion(open, osc, signal) == signal - (open + osc) > 0,
        signal < open - osc && signal <= open + osc ==> reversion(open, osc, signal) == signal - (
        open - osc) < 0,
{
}

/// Around a band that is not inverted, the reversion is positive exactly
/// when the signal line lies above the band and negative exactly when it
/// lies below.
pub proof fn lemma_reversion_sides(open: int, osc: int, signal: int)
    requires
        osc >= 0,
    ensures
        reversion(open, osc, signal) > 0 <==> signal > open + osc,
        reversion(open, osc, signal) < 0 <==> signal < open - osc,
{
}

/// Around a band that is not inverted, the reversion never changes by more
/// than the signal line does: it has no jump, at the bands or elsewhere.
pub proof fn lemma_reversion_continuous(open: int, osc: int, a: int, b: int)
    requires
        osc >= 0,
        a <= b,
    ensures
        0 <= reversion(open, osc, b) - reversion(open, osc, a) <= b - a,
{
}

/// The structure price of each bar: `open + bar_bias`.
pub fn structure_price(ohlc: &Ohlc) -> (out: Vec<i64>)
    requires
        ohlc.wf(),
    ensures
        out@ == structure_prices(ohlc),
        forall|i: int| 0 <= i < ohlc.spec_len() ==> out@[i] == structure_price_at(ohlc, i),
        bounded(out@, 7 * PRICE_LIMIT),
{
    let n: usize = ohlc.len();
    let bias: Vec<i64> = bar_bias(ohlc);
    let mut bar_pwr: Vec<i64> = Vec::with_capacity(n);
    let mut i: usize = 0;
    while i < n
        invariant
            ohlc.wf(),
            n == ohlc.spec_len(),
            i <= n,
            bias@ == bar_biases(ohlc),
            bar_pwr@.len() == i,
            forall|j: int| 0 <= j < i ==> bar_pwr@[j] == structure_price_at(ohlc, j),
        decreases n - i,
    {
        assert(bias@[i as int] == bar_bias_at(ohlc, i as int));
        bar_pwr.push(ohlc.open[i] + bias[i]);
        i += 1;
    }
    assert(bar_pwr@ =~= structure_prices(ohlc));
    bar_pwr
}

/// Relative Structure Strength Index: the relative strength index of
/// `open + bar_bias`.
pub fn rssi(ohlc: &Ohlc, len: usize) -> (out: Vec<i64>)
    requires
        ohlc.wf(),
        len > 0,
    ensures
        out@.len() == ohlc.spec_len(),
        forall|i: int| 0 <= i < ohlc.spec_len() ==> out@[i] == rssi_at(ohlc, len as int, i),
        forall|i: int| 0 <= i < ohlc.spec_len() ==> 0 <= #[trigger] out@[i] <= RSI_MAX,
{
    let bar_pwr: Vec<i64> = structure_price(ohlc);
    rsi(&bar_pwr, len)
}

/// Bias reversion: the reversion value based on the moving average of the
/// bias and the open price.
pub fn bias_reversion(ohlc: &Ohlc, len: usize) -> (out: Vec<i64>)
    requires
        ohlc.wf(),
        len > 0,
    ensures
        out@ == bias_reversions(ohlc, len as int),
        forall|i: int|
            0 <= i < ohlc.spec_len() ==> out@[i] == bias_reversion_at(ohlc, len as int, i),
        bounded(out@, 7 * PRICE_LIMIT),
{
    let n: usize = ohlc.len();
    let bias: Vec<i64> = bar_bias(ohlc);
    let bias_rma: Vec<i64> = rma(&bias, len);
    let mut out: Vec<i64> = Vec::with_capacity(n);
    let mut i: usize = 0;
    while i < n
        invariant
            ohlc.wf(),
            len > 0,
            n == ohlc.spec_len(),
            i <= n,
            bias@ == bar_biases(ohlc),
            bounded(bias@, 6 * PRICE_LIMIT),
            bias_rma@.len() == n,
            forall|j: int| 0 <= j < n ==> bias_rma@[j] == rma_at(bias@, len as int, j),
            out@.len() == i,
            forall|j: int| 0 <= j < i ==> out@[j] == bias_reversion_at(ohlc, len as int, j),
            bounded(out@, 7 * PRICE_LIMIT),
        decreases n - i,
    {
        proof {
            lemma_smooth_bounds(
                bias@,
                1,
                len as int,
                i as int,
                -6 * PRICE_LIMIT,
                6 * PRICE_LIMIT,
            );
        }
        out.push(ohlc.open[i] - bias_rma[i]);
        i += 1;
    }
    assert(out@ =~= bias_reversions(ohlc, len as int));
    out
}

/// Bias reversion smoothed: the bias reversion, smoothed by a simple moving
/// average of the same length.
pub fn bias_reversion_smoothed(ohlc: &Ohlc, len: usize) -> (out: Vec<i64>)
    requires
        ohlc.wf(),
        len > 0,
    ensures
        out@.len() == ohlc.spec_len(),
        forall|i: int|
            0 <= i < ohlc.spec_len() ==> out@[i] == bias_reversion_smoothed_at(
                ohlc,
                len as int,
                i,
            ),
        bounded(out@, 7 * PRICE_LIMIT),
{
    let val: Vec<i64> = bias_reversion(ohlc, len);
    let out: Vec<i64> = sma(&val, len);
    proof {
        assert forall|i: int| 0 <= i < out@.len() implies -7 * PRICE_LIMIT <= #[trigger] out@[i]
            <= 7 * PRICE_LIMIT by {
            lemma_sma_bounds(val@, len as int, i, -7 * PRICE_LIMIT, 7 * PRICE_LIMIT);
        }
    }
    out
}

/// Band Reversion: the bands `open + osc` and `open - osc` tend to keep the
/// signal line inside. Returns the distance from the nearest band to the
/// signal line where it is outside: positive above the band, negative
/// below.
pub fn band_reversion(ohlc: &Ohlc, osc: &Vec<i64>, signal: &Vec<i64>) -> (out: Vec<i64>)
    requires
        ohlc.wf(),
        osc@.len() == ohlc.spec_len(),
        signal@.len() == ohlc.spec_len(),
        bounded(osc@, VALUE_LIMIT as int),
        bounded(signal@, VALUE_LIMIT as int),
    ensures
        out@.len() == ohlc.spec_len(),
        forall|i: int|
            0 <= i < ohlc.spec_len() ==> out@[i] == reversion(
                ohlc.open@[i] as int,
                osc@[i] as int,
                signal@[i] as int,
            ),
{
    let n: usize = ohlc.len();
    let mut out: Vec<i64> = Vec::with_capacity(n);
    let mut i: usize = 0;
    while i < n
        invariant
            ohlc.wf(),
            n == ohlc.spec_len(),
            osc@.len() == n,
            signal@.len() == n,
            bounded(osc@, VALUE_LIMIT as int),
            bounded(signal@, VALUE_LIMIT as int),
            i <= n,
            out@.len() == i,
            forall|j: int|
                0 <= j < i ==> out@[j] == reversion(
                    ohlc.open@[j] as int,
                    osc@[j] as int,
                    signal@[j] as int,
                ),
        decreases n - i,
    {
        let upper: i64 = ohlc.open[i] + osc[i];
        let lower: i64 = ohlc.open[i] - osc[i];
        let line: i64 = signal[i];
        if lower <= line && line <= upper {
            out.push(0);
        } else if line > upper {
            out.push(line - upper);
        } else {
            out.push(line - lower);
        }
        i += 1;
    }
    out
}

/// Band Reversion as a percentage of the band's oscillation, in fixed
/// point.
pub fn band_reversion_percent(ohlc: &Ohlc, osc: &Vec<i64>, signal: &Vec<i64>) -> (out: Vec<i128>)
    requires
        ohlc.wf(),
        osc@.len() == ohlc.spec_len(),
        signal@.len() == ohlc.spec_len(),
        bounded(osc@, VALUE_LIMIT as int),
        bounded(signal@, VALUE_LIMIT as int),
    ensures
        out@.len() == ohlc.spec_len(),
        forall|i: int|
            0 <= i < ohlc.spec_len() ==> out@[i] == reversion_percent(
                reversion(ohlc.open@[i] as int, osc@[i] as int, signal@[i] as int),
                osc@[i] as int,
            ),
{
    let n: usize = ohlc.len();
    let rev_val: Vec<i64> = band_reversion(ohlc, osc, signal);
    let mut out: Vec<i128> = Vec::with_capacity(n);
    let mut i: usize = 0;
    while i < n
        invariant
            ohlc.wf(),
            n == ohlc.spec_len(),
            osc@.len() == n,
            rev_val@.len() == n,
            forall|j: int|
                0 <= j < n ==> rev_val@[j] == reversion(
                    ohlc.open@[j] as int,
                    osc@[j] as int,
                    signal@[j] as int,
                ),
            i <= n,
            out@.len() == i,
            forall|j: int|
                0 <= j < i ==> out@[j] == reversion_percent(
                    reversion(ohlc.open@[j] as int, osc@[j] as int, signal@[j] as int),
                    osc@[j] as int,
                ),
        decreases n - i,
    {
        let width: i128 = osc[i] as i128;
        let scaled: i128 = 100 * (SCALE as i128) * (rev_val[i] as i128);
        if width == 0 {
            out.push(0);
        } else if width > 0 {
            out.push(div_floor(scaled, width));
        } else {
            out.push(div_floor(-scaled, -width));
        }
        i += 1;
    }
    out
}

} // verus!
