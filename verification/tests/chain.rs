use algotrap::ta::arith::SCALE;
use algotrap::ta::chain::OhlcAtr;
use algotrap::ta::chain::OhlcBias;
use algotrap::ta::chain::OhlcExperimental;
use algotrap::ta::common::bar_bias;
use algotrap::ta::experimental::band_reversion;
use algotrap::ta::experimental::band_reversion_percent;
use algotrap::ta::experimental::bias_reversion;
use algotrap::ta::experimental::bias_reversion_smoothed;
use algotrap::ta::experimental::rssi;
use algotrap::ta::ma::ema;
use algotrap::ta::ma::rma;
use algotrap::ta::ma::sma;
use algotrap::ta::ma::ExprMa;
use algotrap::ta::ohlc::Ohlc;
use algotrap::ta::rsi::rev_rsi;
use algotrap::ta::rsi::rsi;
use algotrap::ta::rsi::ExprRsi;
use algotrap::ta::volatility::atr;
use algotrap::ta::volatility::true_range;

#[test]
fn the_indicators_chain_as_methods() {
    let series: Vec<i64> = vec![
        44340000, 44090000, 44150000, 43610000, 44330000, 44830000, 45100000, 45420000, 45840000,
        46080000, 45890000, 46030000, 45610000, 46280000, 46280000, 46000000, 46030000, 46410000,
        46220000, 45640000, 46210000,
    ];
    assert_eq!(series.sma(14), sma(&series, 14));
    assert_eq!(series.rma(14), rma(&series, 14));
    assert_eq!(series.ema(14), ema(&series, 14));
    assert_eq!(series.rsi(14), rsi(&series, 14));
    assert_eq!(series.rev_rsi(14, 70 * SCALE), rev_rsi(&series, 14, 70 * SCALE));
    assert_eq!(series.rma(14).sma(3)[20], 45_391_725);
    let ohlc = Ohlc::new(
        vec![100_000_000, 101_500_000, 103_000_000, 102_000_000, 99_000_000, 97_500_000],
        vec![102_000_000, 103_500_000, 104_000_000, 102_500_000, 100_000_000, 98_500_000],
        vec![99_000_000, 101_000_000, 101_500_000, 98_500_000, 97_000_000, 96_500_000],
        vec![101_500_000, 103_000_000, 102_000_000, 99_000_000, 97_500_000, 98_000_000],
    )
    .unwrap();
    assert_eq!(ohlc.bar_bias(), bar_bias(&ohlc));
    assert_eq!(ohlc.true_range(), true_range(&ohlc));
    assert_eq!(ohlc.atr(2), atr(&ohlc, 2));
    assert_eq!(ohlc.rssi(14), rssi(&ohlc, 14));
    assert_eq!(ohlc.bias_reversion(9), bias_reversion(&ohlc, 9));
    assert_eq!(ohlc.bias_reversion_smoothed(9), bias_reversion_smoothed(&ohlc, 9));
    let osc = vec![1_000_000; 6];
    let signal = ohlc.bias_reversion_smoothed(9);
    assert_eq!(ohlc.band_reversion(&osc, &signal), band_reversion(&ohlc, &osc, &signal));
    assert_eq!(ohlc.band_reversion(&osc, &signal)[0], -1_500_000);
    assert_eq!(
        ohlc.band_reversion_percent(&osc, &signal),
        band_reversion_percent(&ohlc, &osc, &signal)
    );
    assert_eq!(ohlc.band_reversion_percent(&osc, &signal)[0], -150_000_000);
}
