//! The indicators of a bar sequence as methods of its price columns.

use crate::ta::arith::bounded;
use crate::ta::arith::PRICE_LIMIT;
use crate::ta::arith::VALUE_LIMIT;
use crate::ta::common::bar_bias;
use crate::ta::common::bar_biases;
use crate::ta::experimental::band_reversion;
use crate::ta::experimental::band_reversion_percent;
use crate::ta::experimental::bias_reversion;
use crate::ta::experimental::bias_reversion_smoothed;
use crate::ta::experimental::bias_reversion_smoothed_at;
use crate::ta::experimental::bias_reversions;
use crate::ta::experimental::reversion;
use crate::ta::experimental::reversion_percent;
use crate::ta::experimental::rssi;
use crate::ta::experimental::rssi_at;
use crate::ta::ohlc::Ohlc;
use crate::ta::volatility::atr;
use crate::ta::volatility::atr_at;
use crate::ta::volatility::true_range;
use crate::ta::volatility::true_ranges;
use vstd::prelude::*;

verus! {

pub trait OhlcBias {
    /// The bars that the methods work on.
    spec fn bars(&self) -> &Ohlc;

    fn bar_bias(&self) -> (out: Vec<i64>)
        requires
            self.bars().wf(),
        ensures
            out@ == bar_biases(self.bars()),
    ;
}

impl OhlcBias for Ohlc {
    open spec fn bars(&self) -> &Ohlc {
        self
    }

    fn bar_bias(&self) -> (out: Vec<i64>) {
        bar_bias(self)
    }
}

pub trait OhlcAtr {
    /// The bars that the methods work on.
    spec fn bars(&self) -> &Ohlc;

    fn true_range(&self) -> (out: Vec<i64>)
        requires
            self.bars().wf(),
        ensures
            out@ == true_ranges(self.bars()),
    ;

    fn atr(&self, len: usize) -> (out: Vec<i64>)
        requires
            self.bars().wf(),
            len > 0,
        ensures
            out@.len() == self.bars().spec_len(),
            forall|i: int|
                0 <= i < self.bars().spec_len() ==> out@[i] == atr_at(self.bars(), len as int, i),
            bounded(out@, 2 * PRICE_LIMIT),
    ;
}

impl OhlcAtr for Ohlc {
    open spec fn bars(&self) -> &Ohlc {
        self
    }

    fn true_range(&self) -> (out: Vec<i64>) {
        true_range(self)
    }

    fn atr(&self, len: usize) -> (out: Vec<i64>) {
        atr(self, len)
    }
}

pub trait OhlcExperimental {
    /// The bars that the methods work on.
    spec fn bars(&self) -> &Ohlc;

    fn rssi(&self, len: usize) -> (out: Vec<i64>)
        requires
            self.bars().wf(),
            len > 0,
        ensures
            out@.len() == self.bars().spec_len(),
            forall|i: int|
                0 <= i < self.bars().spec_len() ==> out@[i] == rssi_at(self.bars(), len as int, i),
    ;

    fn bias_reversion(&self, len: usize) -> (out: Vec<i64>)
        requires
            self.bars().wf(),
            len > 0,
        ensures
            out@ == bias_reversions(self.bars(), len as int),
    ;

    fn bias_reversion_smoothed(&self, len: usize) -> (out: Vec<i64>)
        requires
            self.bars().wf(),
            len > 0,
        ensures
            out@.len() == self.bars().spec_len(),
            forall|i: int|
                0 <= i < self.bars().spec_len() ==> out@[i] == bias_reversion_smoothed_at(
                    self.bars(),
                    len as int,
                    i,
                ),
            bounded(out@, 7 * PRICE_LIMIT),
    ;

    fn band_reversion(&self, osc: &Vec<i64>, signal: &Vec<i64>) -> (out: Vec<i64>)
        requires
            self.bars().wf(),
            osc@.len() == self.bars().spec_len(),
            signal@.len() == self.bars().spec_len(),
            bounded(osc@, VALUE_LIMIT as int),
            bounded(signal@, VALUE_LIMIT as int),
        ensures
            out@.len() == self.bars().spec_len(),
            forall|i: int|
                0 <= i < self.bars().spec_len() ==> out@[i] == reversion(
                    self.bars().open@[i] as int,
                    osc@[i] as int,
                    signal@[i] as int,
                ),
    ;

    fn band_reversion_percent(&self, osc: &Vec<i64>, signal: &Vec<i64>) -> (out: Vec<i128>)
        requires
            self.bars().wf(),
            osc@.len() == self.bars().spec_len(),
            signal@.len() == self.bars().spec_len(),
            bounded(osc@, VALUE_LIMIT as int),
            bounded(signal@, VALUE_LIMIT as int),
        ensures
            out@.len() == self.bars().spec_len(),
            forall|i: int|
                0 <= i < self.bars().spec_len() ==> out@[i] == reversion_percent(
                    reversion(self.bars().open@[i] as int, osc@[i] as int, signal@[i] as int),
                    osc@[i] as int,
                ),
    ;
}

impl OhlcExperimental for Ohlc {
    open spec fn bars(&self) -> &Ohlc {
        self
    }

    fn rssi(&self, len: usize) -> (out: Vec<i64>) {
        rssi(self, len)
    }

    fn bias_reversion(&self, len: usize) -> (out: Vec<i64>) {
        bias_reversion(self, len)
    }

    fn bias_reversion_smoothed(&self, len: usize) -> (out: Vec<i64>) {
        bias_reversion_smoothed(self, len)
    }

    fn band_reversion(&self, osc: &Vec<i64>, signal: &Vec<i64>) -> (out: Vec<i64>) {
        band_reversion(self, osc, signal)
    }

    fn band_reversion_percent(&self, osc: &Vec<i64>, signal: &Vec<i64>) -> (out: Vec<i128>) {
        band_reversion_percent(self, osc, signal)
    }
}

} // verus!
