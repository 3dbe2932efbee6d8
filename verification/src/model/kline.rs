//! One price bar.

use vstd::prelude::*;

verus! {

/// One bar of a timeframe: prices and volume in fixed point, and the time
/// at which the bar opens, in milliseconds since 1970-01-01 00:00:00 UTC.
#[derive(Clone, Copy, Debug, PartialEq, Eq)]
pub struct Kline {
    pub open: i64,
    pub high: i64,
    pub low: i64,
    pub close: i64,
    pub volume: i64,
    pub time: i64,
    pub adjclose: Option<i64>,
}

/// The bars come oldest first: no bar opens before the one in front of it.
pub open spec fn ordered_by_time(klines: Seq<Kline>) -> bool {
    forall|i: int| 0 < i < klines.len() ==> klines[i - 1].time <= #[trigger] klines[i].time
}

/// Whether the bars come oldest first.
pub fn is_ordered_by_time(klines: &Vec<Kline>) -> (r: bool)
    ensures
        r == ordered_by_time(klines@),
{
    let mut i: usize = 1;
    while i < klines.len()
        invariant
            1 <= i,
            forall|j: int| 0 < j < i && j < klines@.len() ==> klines@[j - 1].time
                <= #[trigger] klines@[j].time,
        decreases klines.len() - i,
    {
        if klines[i - 1].time > klines[i].time {
            return false;
        }
        i += 1;
    }
    true
}

} // verus!
