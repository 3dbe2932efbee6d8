//! The feature table of one timeframe: every bar with its indicators and
//! its climax signal.

use crate::aggregator::TimeframeSignal;
use crate::model::kline::Kline;
use crate::model::timeframe::Timeframe;
use crate::ta::arith::bounded;
use crate::ta::arith::div_floor;
use crate::ta::arith::lemma_quotient_between;
use crate::ta::arith::PRICE_LIMIT;
use crate::ta::arith::SCALE;
use crate::ta::arith::VALUE_LIMIT;
use crate::ta::common::bar_bias;
use crate::ta::common::bar_biases;
use crate::ta::experimental::band_reversion_percent;
use crate::ta::experimental::bias_reversion_smoothed;
use crate::ta::experimental::bias_reversion_smoothed_at;
use crate::ta::experimental::reversion;
use crate::ta::experimental::reversion_percent;
use crate::ta::experimental::rssi;
use crate::ta::experimental::rssi_at;
use crate::ta::experimental::structure_price;
use crate::ta::experimental::structure_prices;
use crate::ta::ma::ema;
use crate::ta::ma::ema_at;
use crate::ta::ma::lemma_sma_bounds;
use crate::ta::ma::lemma_smooth_bounds;
use crate::ta::ma::rma;
use crate::ta::ma::rma_at;
use crate::ta::ma::sma;
use crate::ta::ma::sma_at;
use crate::ta::ohlc::Ohlc;
use crate::ta::rsi::rev_rsi;
use crate::ta::rsi::rev_rsi_at;
use crate::ta::rsi::RSI_MAX;
use crate::ta::volatility::atr;
use crate::ta::volatility::atr_at;
use vstd::prelude::*;

verus! {

/// The length of the average true range.
pub const ATR_LENGTH: usize = 42;

/// The length of the bias reversion and of its smoothing.
pub const BIAS_LENGTH: usize = 9;

/// The length of the structure power.
pub const STRUCTURE_LENGTH: usize = 9;

/// The length of the moving average of the structure power.
pub const STRUCTURE_SMA_LENGTH: usize = 16;

/// The length of the relative structure strength index.
pub const RSSI_LENGTH: usize = 14;

/// The length of the moving average of the relative structure strength
/// index.
pub const RSSI_MA_LENGTH: usize = 9;

/// The length of the moving average of the volume.
pub const VOLUME_LENGTH: usize = 20;

/// The length of the long moving average of the close.
pub const TREND_LENGTH: usize = 200;

/// The length of the reverse-engineered index levels.
pub const REVRSI_LENGTH: usize = 14;

/// The index level at which neither side leads.
pub const NEUTRAL_TARGET: i64 = 50 * SCALE;

/// The index level that counts as bullish.
pub const BULLISH_TARGET: i64 = 70 * SCALE;

/// The index level that counts as bearish.
pub const BEARISH_TARGET: i64 = 30 * SCALE;

/// The index level above which a bar can be overbought.
pub const OVERBOUGHT_RSSI: i64 = 54 * SCALE;

/// The index level below which a bar can be oversold.
pub const OVERSOLD_RSSI: i64 = 46 * SCALE;

/// The reversion percentage beyond which a bar can be at a climax.
pub const CLIMAX_REVERSION: i128 = 50_000_000;

/// The oscillation band of an average true range: 1.618 times as wide.
pub open spec fn oscillation(atr: int) -> int {
    atr * 1618 / 1000
}

/// The direction of a value against its moving average: three times the
/// value less twice the average, which runs ahead of the average.
pub open spec fn direction(value: int, average: int) -> int {
    3 * value - 2 * average
}

/// Overbought: the index is above 54 and the reversion below -50 percent.
pub open spec fn is_overbought(rssi: int, reversion_percent: int) -> bool {
    rssi > OVERBOUGHT_RSSI && reversion_percent < -CLIMAX_REVERSION
}

/// Oversold: the index is below 46 and the reversion above 50 percent.
pub open spec fn is_oversold(rssi: int, reversion_percent: int) -> bool {
    rssi < OVERSOLD_RSSI && reversion_percent > CLIMAX_REVERSION
}

/// The climax signal of a bar: 1 where it is overbought, -1 where it is
/// oversold, 0 elsewhere.
pub open spec fn climax(rssi: int, reversion_percent: int) -> int {
    if is_overbought(rssi, reversion_percent) {
        1
    } else if is_oversold(rssi, reversion_percent) {
        -1
    } else {
        0
    }
}

/// Where the index lies from 46 to 54, there is no climax, whatever the
/// reversion.
pub proof fn lemma_no_climax_in_neutral_zone(rssi: int, reversion_percent: int)
    requires
        OVERSOLD_RSSI <= rssi <= OVERBOUGHT_RSSI,
    ensures
        climax(rssi, reversion_percent) == 0,
{
}

/// Where the reversion lies from -50 to 50 percent, there is no climax,
/// whatever the index.
pub proof fn lemma_no_climax_without_reversion(rssi: int, reversion_percent: int)
    requires
        -CLIMAX_REVERSION <= reversion_percent <= CLIMAX_REVERSION,
    ensures
        climax(rssi, reversion_percent) == 0,
{
}

/// No bar is overbought and oversold at once, and the signal tells which of
/// the two it is.
pub proof fn lemma_climax_states(rssi: int, reversion_percent: int)
    ensures
        !(is_overbought(rssi, reversion_percent) && is_oversold(rssi, reversion_percent)),
        climax(rssi, reversion_percent) == 1 <==> is_overbought(rssi, reversion_percent),
        climax(rssi, reversion_percent) == -1 <==> is_oversold(rssi, reversion_percent),
        -1 <= climax(rssi, reversion_percent) <= 1,
{
}

/// The climax signal of one bar, from its relative structure strength index
/// and its reversion percentage.
pub fn climax_signal(rssi: i64, atr_reversion_percent: i128) -> (signal: i32)
    ensures
        signal == climax(rssi as int, atr_reversion_percent as int),
{
    let overbought: bool = rssi > OVERBOUGHT_RSSI && atr_reversion_percent < -CLIMAX_REVERSION;
    let oversold: bool = rssi < OVERSOLD_RSSI && atr_reversion_percent > CLIMAX_REVERSION;
    if !overbought && !oversold {
        0
    } else if overbought {
        1
    } else {
        -1
    }
}

/// One bar with its indicators.
#[derive(Clone, Copy, Debug, PartialEq, Eq, Structural)]
pub struct FeatureRecord {
    pub time: i64,
    pub open: i64,
    pub high: i64,
    pub low: i64,
    pub close: i64,
    pub volume: i64,
    pub volume_sma: i64,
    pub bias_reversion: i64,
    pub ema200: i64,
    pub neutral_revrsi: i128,
    pub bullish_revrsi: i128,
    pub bearish_revrsi: i128,
    pub atr: i64,
    pub atr_oscillation: i64,
    pub atr_upperband: i64,
    pub atr_lowerband: i64,
    pub structure_power: i64,
    pub structure_power_sma: i64,
    pub structure_power_direction: i64,
    pub rssi: i64,
    pub rssi_ma: i64,
    pub rssi_direction: i64,
    pub atr_reversion_percent: i128,
    pub climax_signal: i32,
}

/// The bars of one timeframe, oldest first, with their indicators, one
/// column each.
#[derive(Clone, Debug, PartialEq, Eq)]
pub struct Features {
    pub time: Vec<i64>,
    pub ohlc: Ohlc,
    pub volume: Vec<i64>,
    pub volume_sma: Vec<i64>,
    pub bias_reversion: Vec<i64>,
    pub ema200: Vec<i64>,
    pub neutral_revrsi: Vec<i128>,
    pub bullish_revrsi: Vec<i128>,
    pub bearish_revrsi: Vec<i128>,
    pub atr: Vec<i64>,
    pub atr_oscillation: Vec<i64>,
    pub atr_upperband: Vec<i64>,
    pub atr_lowerband: Vec<i64>,
    pub structure_power: Vec<i64>,
    pub structure_power_sma: Vec<i64>,
    pub structure_power_direction: Vec<i64>,
    pub rssi: Vec<i64>,
    pub rssi_ma: Vec<i64>,
    pub rssi_direction: Vec<i64>,
    pub atr_reversion_percent: Vec<i128>,
    pub climax_signal: Vec<i32>,
}

impl Features {
    /// The number of bars.
    pub open spec fn spec_len(&self) -> nat {
        self.ohlc.spec_len()
    }

    /// Every column has one value for every bar.
    pub open spec fn columns_aligned(&self) -> bool {
        let n = self.spec_len();
        &&& self.ohlc.high@.len() == n
        &&& self.ohlc.low@.len() == n
        &&& self.ohlc.close@.len() == n
        &&& self.time@.len() == n
        &&& self.volume@.len() == n
        &&& self.volume_sma@.len() == n
        &&& self.bias_reversion@.len() == n
        &&& self.ema200@.len() == n
        &&& self.neutral_revrsi@.len() == n
        &&& self.bullish_revrsi@.len() == n
        &&& self.bearish_revrsi@.len() == n
        &&& self.atr@.len() == n
        &&& self.atr_oscillation@.len() == n
        &&& self.atr_upperband@.len() == n
        &&& self.atr_lowerband@.len() == n
        &&& self.structure_power@.len() == n
        &&& self.structure_power_sma@.len() == n
        &&& self.structure_power_direction@.len() == n
        &&& self.rssi@.len() == n
        &&& self.rssi_ma@.len() == n
        &&& self.rssi_direction@.len() == n
        &&& self.atr_reversion_percent@.len() == n
        &&& self.climax_signal@.len() == n
    }

    /// The indicators of bar `i` are those of the bars up to it.
    pub open spec fn row_derived(&self, i: int) -> bool {
        let ohlc = &self.ohlc;
        let open = ohlc.open@[i] as int;
        let osc = self.atr_oscillation@[i] as int;
        &&& self.volume_sma@[i] == ema_at(self.volume@, VOLUME_LENGTH as int, i)
        &&& self.bias_reversion@[i] == bias_reversion_smoothed_at(ohlc, BIAS_LENGTH as int, i)
        &&& self.ema200@[i] == ema_at(ohlc.close@, TREND_LENGTH as int, i)
        &&& self.neutral_revrsi@[i] == rev_rsi_at(
            structure_prices(ohlc),
            REVRSI_LENGTH as int,
            NEUTRAL_TARGET as int,
            i,
        )
        &&& self.bullish_revrsi@[i] == rev_rsi_at(
            ohlc.high@,
            REVRSI_LENGTH as int,
            BULLISH_TARGET as int,
            i,
        )
        &&& self.bearish_revrsi@[i] == rev_rsi_at(
            ohlc.low@,
            REVRSI_LENGTH as int,
            BEARISH_TARGET as int,
            i,
        )
        &&& self.atr@[i] == atr_at(ohlc, ATR_LENGTH as int, i)
        &&& osc == oscillation(self.atr@[i] as int)
        &&& self.atr_upperband@[i] == open + osc
        &&& self.atr_lowerband@[i] == open - osc
        &&& self.structure_power@[i] == rma_at(bar_biases(ohlc), STRUCTURE_LENGTH as int, i)
        &&& self.structure_power_sma@[i] == sma_at(
            self.structure_power@,
            STRUCTURE_SMA_LENGTH as int,
            i,
        )
        &&& self.structure_power_direction@[i] == direction(
            self.structure_power@[i] as int,
            self.structure_power_sma@[i] as int,
        )
        &&& self.rssi@[i] == rssi_at(ohlc, RSSI_LENGTH as int, i)
        &&& self.rssi_ma@[i] == ema_at(self.rssi@, RSSI_MA_LENGTH as int, i)
        &&& self.rssi_direction@[i] == direction(self.rssi@[i] as int, self.rssi_ma@[i] as int)
        &&& self.atr_reversion_percent@[i] == reversion_percent(
            reversion(open, osc, self.bias_reversion@[i] as int),
            osc,
        )
        &&& self.climax_signal@[i] == climax(
            self.rssi@[i] as int,
            self.atr_reversion_percent@[i] as int,
        )
    }

    /// The table is well formed: the prices are well formed, the columns
    /// aligned, and every indicator is derived from the bars.
    pub open spec fn wf(&self) -> bool {
        &&& self.ohlc.wf()
        &&& self.columns_aligned()
        &&& forall|i: int| 0 <= i < self.spec_len() ==> self.row_derived(i)
    }

    /// The number of bars.
    pub fn len(&self) -> (n: usize)
        ensures
            n == self.spec_len(),
    {
        self.ohlc.len()
    }

    /// What the last confirmed bar says: the bar before the last one, which
    /// may still be open. A table of fewer than two bars has none.
    pub open spec fn spec_last_confirmed(&self, timeframe: Timeframe) -> Option<TimeframeSignal> {
        if self.spec_len() < 2 {
            None
        } else {
            Some(
                TimeframeSignal {
                    timeframe,
                    climax_signal: self.climax_signal@[self.spec_len() - 2],
                    rssi: self.rssi@[self.spec_len() - 2],
                    atr_reversion_percent: self.atr_reversion_percent@[self.spec_len() - 2],
                },
            )
        }
    }

    /// The record of bar `i`: the bar with all its indicators.
    pub open spec fn spec_record(&self, i: int) -> FeatureRecord {
        FeatureRecord {
            time: self.time@[i],
            open: self.ohlc.open@[i],
            high: self.ohlc.high@[i],
            low: self.ohlc.low@[i],
            close: self.ohlc.close@[i],
            volume: self.volume@[i],
            volume_sma: self.volume_sma@[i],
            bias_reversion: self.bias_reversion@[i],
            ema200: self.ema200@[i],
            neutral_revrsi: self.neutral_revrsi@[i],
            bullish_revrsi: self.bullish_revrsi@[i],
            bearish_revrsi: self.bearish_revrsi@[i],
            atr: self.atr@[i],
            atr_oscillation: self.atr_oscillation@[i],
            atr_upperband: self.atr_upperband@[i],
            atr_lowerband: self.atr_lowerband@[i],
            structure_power: self.structure_power@[i],
            structure_power_sma: self.structure_power_sma@[i],
            structure_power_direction: self.structure_power_direction@[i],
            rssi: self.rssi@[i],
            rssi_ma: self.rssi_ma@[i],
            rssi_direction: self.rssi_direction@[i],
            atr_reversion_percent: self.atr_reversion_percent@[i],
            climax_signal: self.climax_signal@[i],
        }
    }

    /// Whether every column has one value for every bar.
    pub fn is_aligned(&self) -> (r: bool)
        ensures
            r == self.columns_aligned(),
    {
        let n: usize = self.ohlc.open.len();
        self.ohlc.high.len() == n && self.ohlc.low.len() == n && self.ohlc.close.len() == n
            && self.time.len() == n && self.volume.len() == n && self.volume_sma.len() == n
            && self.bias_reversion.len() == n && self.ema200.len() == n
            && self.neutral_revrsi.len() == n && self.bullish_revrsi.len() == n
            && self.bearish_revrsi.len() == n && self.atr.len() == n && self.atr_oscillation.len()
            == n && self.atr_upperband.len() == n && self.atr_lowerband.len() == n
            && self.structure_power.len() == n && self.structure_power_sma.len() == n
            && self.structure_power_direction.len() == n && self.rssi.len() == n
            && self.rssi_ma.len() == n && self.rssi_direction.len() == n
            && self.atr_reversion_percent.len() == n && self.climax_signal.len() == n
    }

    /// What the last confirmed bar says: the bar before the last one, which
    /// may still be open. A table of fewer than two bars has none.
    pub fn last_confirmed(&self, timeframe: Timeframe) -> (r: Option<TimeframeSignal>)
        requires
            self.columns_aligned(),
        ensures
            r == self.spec_last_confirmed(timeframe),
    {
        let n: usize = self.len();
        if n < 2 {
            None
        } else {
            Some(
                TimeframeSignal {
                    timeframe,
                    climax_signal: self.climax_signal[n - 2],
                    rssi: self.rssi[n - 2],
                    atr_reversion_percent: self.atr_reversion_percent[n - 2],
                },
            )
        }
    }

    /// The record of bar `i`.
    pub fn record(&self, i: usize) -> (r: FeatureRecord)
        requires
            self.columns_aligned(),
            i < self.spec_len(),
        ensures
            r == self.spec_record(i as int),
    {
        FeatureRecord {
            time: self.time[i],
            open: self.ohlc.open[i],
            high: self.ohlc.high[i],
            low: self.ohlc.low[i],
            close: self.ohlc.close[i],
            volume: self.volume[i],
            volume_sma: self.volume_sma[i],
            bias_reversion: self.bias_reversion[i],
            ema200: self.ema200[i],
            neutral_revrsi: self.neutral_revrsi[i],
            bullish_revrsi: self.bullish_revrsi[i],
            bearish_revrsi: self.bearish_revrsi[i],
            atr: self.atr[i],
            atr_oscillation: self.atr_oscillation[i],
            atr_upperband: self.atr_upperband[i],
            atr_lowerband: self.atr_lowerband[i],
            structure_power: self.structure_power[i],
            structure_power_sma: self.structure_power_sma[i],
            structure_power_direction: self.structure_power_direction[i],
            rssi: self.rssi[i],
            rssi_ma: self.rssi_ma[i],
            rssi_direction: self.rssi_direction[i],
            atr_reversion_percent: self.atr_reversion_percent[i],
            climax_signal: self.climax_signal[i],
        }
    }
}

/// The oscillation band of each average true range.
fn oscillation_column(atr: &Vec<i64>) -> (out: Vec<i64>)
    requires
        bounded(atr@, 2 * PRICE_LIMIT),
    ensures
        out@.len() == atr@.len(),
        forall|i: int| 0 <= i < atr@.len() ==> out@[i] == oscillation(atr@[i] as int),
        bounded(out@, 4 * PRICE_LIMIT),
{
    let n: usize = atr.len();
    let mut out: Vec<i64> = Vec::with_capacity(n);
    let mut i: usize = 0;
    while i < n
        invariant
            n == atr@.len(),
            bounded(atr@, 2 * PRICE_LIMIT),
            i <= n,
            out@.len() == i,
            forall|j: int| 0 <= j < i ==> out@[j] == oscillation(atr@[j] as int),
            bounded(out@, 4 * PRICE_LIMIT),
        decreases n - i,
    {
        let widened: i128 = atr[i] as i128 * 1618;
        proof {
            lemma_quotient_between(widened as int, 1000, -4 * PRICE_LIMIT, 4 * PRICE_LIMIT);
        }
        let osc: i128 = div_floor(widened, 1000);
        out.push(osc as i64);
        i += 1;
    }
    out
}

/// The bands around the open: `open + osc` and `open - osc`.
fn band_columns(open: &Vec<i64>, osc: &Vec<i64>) -> (out: (Vec<i64>, Vec<i64>))
    requires
        open@.len() == osc@.len(),
        bounded(open@, PRICE_LIMIT as int),
        bounded(osc@, 4 * PRICE_LIMIT),
    ensures
        out.0@.len() == open@.len(),
        out.1@.len() == open@.len(),
        forall|i: int| 0 <= i < open@.len() ==> out.0@[i] == open@[i] + osc@[i],
        forall|i: int| 0 <= i < open@.len() ==> out.1@[i] == open@[i] - osc@[i],
{
    let n: usize = open.len();
    let mut upper: Vec<i64> = Vec::with_capacity(n);
    let mut lower: Vec<i64> = Vec::with_capacity(n);
    let mut i: usize = 0;
    while i < n
        invariant
            n == open@.len(),
            n == osc@.len(),
            bounded(open@, PRICE_LIMIT as int),
            bounded(osc@, 4 * PRICE_LIMIT),
            i <= n,
            upper@.len() == i,
            lower@.len() == i,
            forall|j: int| 0 <= j < i ==> upper@[j] == open@[j] + osc@[j],
            forall|j: int| 0 <= j < i ==> lower@[j] == open@[j] - osc@[j],
        decreases n - i,
    {
        upper.push(open[i] + osc[i]);
        lower.push(open[i] - osc[i]);
        i += 1;
    }
    (upper, lower)
}

/// The direction of each value against its moving average.
fn direction_column(value: &Vec<i64>, average: &Vec<i64>) -> (out: Vec<i64>)
    requires
        value@.len() == average@.len(),
        bounded(value@, 6 * PRICE_LIMIT),
        bounded(average@, 6 * PRICE_LIMIT),
    ensures
        out@.len() == value@.len(),
        forall|i: int|
            0 <= i < value@.len() ==> out@[i] == direction(value@[i] as int, average@[i] as int),
{
    let n: usize = value.len();
    let mut out: Vec<i64> = Vec::with_capacity(n);
    let mut i: usize = 0;
    while i < n
        invariant
            n == value@.len(),
            n == average@.len(),
            bounded(value@, 6 * PRICE_LIMIT),
            bounded(average@, 6 * PRICE_LIMIT),
            i <= n,
            out@.len() == i,
            forall|j: int|
                0 <= j < i ==> out@[j] == direction(value@[j] as int, average@[j] as int),
        decreases n - i,
    {
        out.push(3 * value[i] - 2 * average[i]);
        i += 1;
    }
    out
}

/// The climax signal of each bar.
fn climax_column(rssi: &Vec<i64>, reversion_percent: &Vec<i128>) -> (out: Vec<i32>)
    requires
        rssi@.len() == reversion_percent@.len(),
    ensures
        out@.len() == rssi@.len(),
        forall|i: int|
            0 <= i < rssi@.len() ==> out@[i] == climax(
                rssi@[i] as int,
                reversion_percent@[i] as int,
            ),
{
    let n: usize = rssi.len();
    let mut out: Vec<i32> = Vec::with_capacity(n);
    let mut i: usize = 0;
    while i < n
        invariant
            n == rssi@.len(),
            n == reversion_percent@.len(),
            i <= n,
            out@.len() == i,
            forall|j: int|
                0 <= j < i ==> out@[j] == climax(rssi@[j] as int, reversion_percent@[j] as int),
        decreases n - i,
    {
        out.push(climax_signal(rssi[i], reversion_percent[i]));
        i += 1;
    }
    out
}

/// Derives every indicator of a bar sequence, given oldest bar first.
pub fn indicators(time: Vec<i64>, ohlc: Ohlc, volume: Vec<i64>) -> (features: Features)
    requires
        ohlc.wf(),
        time@.len() == ohlc.spec_len(),
        volume@.len() == ohlc.spec_len(),
    ensures
        features.wf(),
        features.time == time,
        features.ohlc == ohlc,
        features.volume == volume,
{
    // Volume
    let volume_sma: Vec<i64> = ema(&volume, VOLUME_LENGTH);

    // Moving thresholds
    let bias_rev: Vec<i64> = bias_reversion_smoothed(&ohlc, BIAS_LENGTH);
    let ema200: Vec<i64> = ema(&ohlc.close, TREND_LENGTH);
    let bar_pwr: Vec<i64> = structure_price(&ohlc);
    let neutral_revrsi: Vec<i128> = rev_rsi(&bar_pwr, REVRSI_LENGTH, NEUTRAL_TARGET);
    let bullish_revrsi: Vec<i128> = rev_rsi(&ohlc.high, REVRSI_LENGTH, BULLISH_TARGET);
    let bearish_revrsi: Vec<i128> = rev_rsi(&ohlc.low, REVRSI_LENGTH, BEARISH_TARGET);

    // Oscillation band
    let atr: Vec<i64> = atr(&ohlc, ATR_LENGTH);
    let atr_osc: Vec<i64> = oscillation_column(&atr);
    let (atr_upperband, atr_lowerband) = band_columns(&ohlc.open, &atr_osc);

    // Relative structure power
    let bias: Vec<i64> = bar_bias(&ohlc);
    let structure_pwr: Vec<i64> = rma(&bias, STRUCTURE_LENGTH);
    let structure_pwr_sma: Vec<i64> = sma(&structure_pwr, STRUCTURE_SMA_LENGTH);
    proof {
        assert forall|i: int| 0 <= i < structure_pwr@.len() implies -6 * PRICE_LIMIT
            <= #[trigger] structure_pwr@[i] <= 6 * PRICE_LIMIT by {
            lemma_smooth_bounds(
                bias@,
                1,
                STRUCTURE_LENGTH as int,
                i,
                -6 * PRICE_LIMIT,
                6 * PRICE_LIMIT,
            );
        }
        assert forall|i: int| 0 <= i < structure_pwr_sma@.len() implies -6 * PRICE_LIMIT
            <= #[trigger] structure_pwr_sma@[i] <= 6 * PRICE_LIMIT by {
            lemma_sma_bounds(
                structure_pwr@,
                STRUCTURE_SMA_LENGTH as int,
                i,
                -6 * PRICE_LIMIT,
                6 * PRICE_LIMIT,
            );
        }
    }
    let structure_pwr_dir: Vec<i64> = direction_column(&structure_pwr, &structure_pwr_sma);

    // Relative structure strength index
    let rssi: Vec<i64> = rssi(&ohlc, RSSI_LENGTH);
    let rssi_ma: Vec<i64> = ema(&rssi, RSSI_MA_LENGTH);
    proof {
        assert forall|i: int| 0 <= i < rssi_ma@.len() implies 0 <= #[trigger] rssi_ma@[i]
            <= RSI_MAX by {
            lemma_smooth_bounds(rssi@, 2, RSSI_MA_LENGTH + 1, i, 0, RSI_MAX as int);
        }
    }
    let rssi_dir: Vec<i64> = direction_column(&rssi, &rssi_ma);

    // Stability indicator
    let atr_rev_percent: Vec<i128> = band_reversion_percent(&ohlc, &atr_osc, &bias_rev);

    // Signals
    let climax_signal: Vec<i32> = climax_column(&rssi, &atr_rev_percent);

    Features {
        time,
        ohlc,
        volume,
        volume_sma,
        bias_reversion: bias_rev,
        ema200,
        neutral_revrsi,
        bullish_revrsi,
        bearish_revrsi,
        atr,
        atr_oscillation: atr_osc,
        atr_upperband,
        atr_lowerband,
        structure_power: structure_pwr,
        structure_power_sma: structure_pwr_sma,
        structure_power_direction: structure_pwr_dir,
        rssi,
        rssi_ma,
        rssi_direction: rssi_dir,
        atr_reversion_percent: atr_rev_percent,
        climax_signal,
    }
}

/// The bars, column by column.
pub open spec fn columns_of(features: &Features, klines: Seq<Kline>) -> bool {
    &&& features.spec_len() == klines.len()
    &&& forall|i: int|
        0 <= i < klines.len() ==> {
            &&& features.time@[i] == (#[trigger] klines[i]).time
            &&& features.ohlc.open@[i] == klines[i].open
            &&& features.ohlc.high@[i] == klines[i].high
            &&& features.ohlc.low@[i] == klines[i].low
            &&& features.ohlc.close@[i] == klines[i].close
            &&& features.volume@[i] == klines[i].volume
        }
}

/// No price of the bars exceeds the price limit in magnitude.
pub open spec fn prices_in_range(klines: Seq<Kline>) -> bool {
    forall|i: int|
        0 <= i < klines.len() ==> {
            &&& -PRICE_LIMIT <= (#[trigger] klines[i]).open <= PRICE_LIMIT
            &&& -PRICE_LIMIT <= klines[i].high <= PRICE_LIMIT
            &&& -PRICE_LIMIT <= klines[i].low <= PRICE_LIMIT
            &&& -PRICE_LIMIT <= klines[i].close <= PRICE_LIMIT
        }
}

/// Whether a price lies within the price limit.
fn price_in_range(price: i64) -> (r: bool)
    ensures
        r == (-PRICE_LIMIT <= price <= PRICE_LIMIT),
{
    -PRICE_LIMIT <= price && price <= PRICE_LIMIT
}

/// Builds the feature table of a bar sequence, given oldest bar first.
/// There is none where a price exceeds the price limit in magnitude.
pub fn process_data(klines: &Vec<Kline>) -> (r: Option<Features>)
    ensures
        match r {
            Some(features) => prices_in_range(klines@) && features.wf() && columns_of(
                &features,
                klines@,
            ),
            None => !prices_in_range(klines@),
        },
{
    let n: usize = klines.len();
    let mut time: Vec<i64> = Vec::with_capacity(n);
    let mut open: Vec<i64> = Vec::with_capacity(n);
    let mut high: Vec<i64> = Vec::with_capacity(n);
    let mut low: Vec<i64> = Vec::with_capacity(n);
    let mut close: Vec<i64> = Vec::with_capacity(n);
    let mut volume: Vec<i64> = Vec::with_capacity(n);
    let mut i: usize = 0;
    while i < n
        invariant
            n == klines@.len(),
            i <= n,
            time@.len() == i,
            open@.len() == i,
            high@.len() == i,
            low@.len() == i,
            close@.len() == i,
            volume@.len() == i,
            prices_in_range(klines@.take(i as int)),
            forall|j: int|
                0 <= j < i ==> {
                    &&& time@[j] == (#[trigger] klines@[j]).time
                    &&& open@[j] == klines@[j].open
                    &&& high@[j] == klines@[j].high
                    &&& low@[j] == klines@[j].low
                    &&& close@[j] == klines@[j].close
                    &&& volume@[j] == klines@[j].volume
                },
        decreases n - i,
    {
        let k: Kline = klines[i];
        if !(price_in_range(k.open) && price_in_range(k.high) && price_in_range(k.low)
            && price_in_range(k.close)) {
            return None;
        }
        assert forall|j: int| 0 <= j < i + 1 implies {
            &&& -PRICE_LIMIT <= (#[trigger] klines@.take(i + 1)[j]).open <= PRICE_LIMIT
            &&& -PRICE_LIMIT <= klines@.take(i + 1)[j].high <= PRICE_LIMIT
            &&& -PRICE_LIMIT <= klines@.take(i + 1)[j].low <= PRICE_LIMIT
            &&& -PRICE_LIMIT <= klines@.take(i + 1)[j].close <= PRICE_LIMIT
        } by {
            if j < i {
                assert(klines@.take(i as int)[j] == klines@[j]);
            }
        }
        time.push(k.time);
        open.push(k.open);
        high.push(k.high);
        low.push(k.low);
        close.push(k.close);
        volume.push(k.volume);
        i += 1;
    }
    proof {
        assert(klines@.take(i as int) =~= klines@);
        assert forall|j: int| 0 <= j < n implies -PRICE_LIMIT <= #[trigger] open@[j]
            <= PRICE_LIMIT by {
            assert(open@[j] == klines@[j].open);
        }
        assert forall|j: int| 0 <= j < n implies -PRICE_LIMIT <= #[trigger] high@[j]
            <= PRICE_LIMIT by {
            assert(high@[j] == klines@[j].high);
        }
        assert forall|j: int| 0 <= j < n implies -PRICE_LIMIT <= #[trigger] low@[j]
            <= PRICE_LIMIT by {
            assert(low@[j] == klines@[j].low);
        }
        assert forall|j: int| 0 <= j < n implies -PRICE_LIMIT <= #[trigger] close@[j]
            <= PRICE_LIMIT by {
            assert(close@[j] == klines@[j].close);
        }
    }
    let ohlc: Ohlc = Ohlc { open, high, low, close };
    Some(indicators(time, ohlc, volume))
}

} // verus!
