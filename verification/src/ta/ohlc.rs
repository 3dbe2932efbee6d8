//! The four price columns of a bar sequence.

use crate::ta::arith::bounded;
use crate::ta::arith::PRICE_LIMIT;
use vstd::prelude::*;

verus! {

/// The open, high, low and close prices of a bar sequence, oldest bar
/// first, one column each.
#[derive(Clone, Debug, PartialEq, Eq)]
pub struct Ohlc {
    pub open: Vec<i64>,
    pub high: Vec<i64>,
    pub low: Vec<i64>,
    pub close: Vec<i64>,
}

/// Whether every value of a column lies between `-limit` and `limit`.
pub fn is_bounded(column: &Vec<i64>, limit: i64) -> (r: bool)
    requires
        limit >= 0,
    ensures
        r == bounded(column@, limit as int),
{
    let mut i: usize = 0;
    while i < column.len()
        invariant
            limit >= 0,
            i <= column.len(),
            bounded(column@.take(i as int), limit as int),
        decreases column.len() - i,
    {
        if column[i] < -limit || column[i] > limit {
            return false;
        }
        assert forall|j: int| 0 <= j < i + 1 implies -limit <= #[trigger] column@.take(i + 1)[j]
            <= limit by {
            if j < i {
                assert(column@.take(i as int)[j] == column@[j]);
            }
        }
        i += 1;
    }
    assert(column@.take(i as int) =~= column@);
    true
}

impl Ohlc {
    /// The four columns are equally long, and no price exceeds the price
    /// limit in magnitude.
    pub open spec fn wf(&self) -> bool {
        &&& self.high@.len() == self.open@.len()
        &&& self.low@.len() == self.open@.len()
        &&& self.close@.len() == self.open@.len()
        &&& bounded(self.open@, PRICE_LIMIT as int)
        &&& bounded(self.high@, PRICE_LIMIT as int)
        &&& bounded(self.low@, PRICE_LIMIT as int)
        &&& bounded(self.close@, PRICE_LIMIT as int)
    }

    /// The number of bars.
    pub open spec fn spec_len(&self) -> nat {
        self.open@.len()
    }

    /// Puts four columns together, if they are equally long and hold no
    /// price beyond the price limit.
    pub fn new(open: Vec<i64>, high: Vec<i64>, low: Vec<i64>, close: Vec<i64>) -> (r: Option<Ohlc>)
        ensures
            match r {
                Some(ohlc) => ohlc.wf() && ohlc.open == open && ohlc.high == high && ohlc.low
                    == low && ohlc.close == close,
                None => !(Ohlc { open, high, low, close }).wf(),
            },
    {
        let n: usize = open.len();
        if high.len() == n && low.len() == n && close.len() == n && is_bounded(&open, PRICE_LIMIT)
            && is_bounded(&high, PRICE_LIMIT) && is_bounded(&low, PRICE_LIMIT) && is_bounded(
            &close,
            PRICE_LIMIT,
        ) {
            Some(Ohlc { open, high, low, close })
        } else {
            None
        }
    }

    /// The number of bars.
    pub fn len(&self) -> (n: usize)
        ensures
            n == self.spec_len(),
    {
        self.open.len()
    }
}

} // verus!
