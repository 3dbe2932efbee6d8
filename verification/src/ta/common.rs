//! The bias of a single bar.

use crate::ta::arith::bounded;
use crate::ta::arith::PRICE_LIMIT;
use crate::ta::ohlc::Ohlc;
use vstd::prelude::*;

verus! {

/// The directional pressure of one bar: the move from open to close, plus
/// the reach above the open, minus the reach below it.
pub open spec fn bias(open: int, high: int, low: int, close: int) -> int {
    (close - open) + (high - open) - (open - low)
}

/// The bias of bar `i`.
pub open spec fn bar_bias_at(ohlc: &Ohlc, i: int) -> int {
    bias(ohlc.open@[i] as int, ohlc.high@[i] as int, ohlc.low@[i] as int, ohlc.close@[i] as int)
}

/// The column of the biases of all bars.
pub open spec fn bar_biases(ohlc: &Ohlc) -> Seq<i64> {
    Seq::new(ohlc.spec_len(), |i: int| bar_bias_at(ohlc, i) as i64)
}

/// The bias of each bar.
pub fn bar_bias(ohlc: &Ohlc) -> (out: Vec<i64>)
    requires
        ohlc.wf(),
    ensures
        out@ == bar_biases(ohlc),
        forall|i: int| 0 <= i < ohlc.spec_len() ==> out@[i] == bar_bias_at(ohlc, i),
        bounded(out@, 6 * PRICE_LIMIT),
{
    let n: usize = ohlc.len();
    let mut out: Vec<i64> = Vec::with_capacity(n);
    let mut i: usize = 0;
    while i < n
        invariant
            ohlc.wf(),
            n == ohlc.spec_len(),
            i <= n,
            out@.len() == i,
            forall|j: int| 0 <= j < i ==> out@[j] == bar_bias_at(ohlc, j),
        decreases n - i,
    {
        let open: i64 = ohlc.open[i];
        let bull_pwr: i64 = ohlc.high[i] - open;
        let bear_pwr: i64 = open - ohlc.low[i];
        let balance: i64 = ohlc.close[i] - open;
        out.push(balance + bull_pwr - bear_pwr);
        i += 1;
    }
    assert(out@ =~= bar_biases(ohlc));
    out
}

} // verus!
