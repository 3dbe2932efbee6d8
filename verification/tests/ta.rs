use algotrap::ta::arith::div_floor;
use algotrap::ta::arith::PRICE_LIMIT;
use algotrap::ta::arith::SCALE;
use algotrap::ta::common::bar_bias;
use algotrap::ta::experimental::band_reversion;
use algotrap::ta::experimental::band_reversion_percent;
use algotrap::ta::experimental::bias_reversion;
use algotrap::ta::experimental::bias_reversion_smoothed;
use algotrap::ta::experimental::rssi;
use algotrap::ta::experimental::structure_price;
use algotrap::ta::ma::ema;
use algotrap::ta::ma::rma;
use algotrap::ta::ma::sma;
use algotrap::ta::ma::smooth;
use algotrap::ta::ohlc::is_bounded;
use algotrap::ta::ohlc::Ohlc;
use algotrap::ta::rsi::gains_and_losses;
use algotrap::ta::rsi::rev_rsi;
use algotrap::ta::rsi::rsi;
use algotrap::ta::rsi::RSI_MAX;
use algotrap::ta::rsi::RSI_NEUTRAL;
use algotrap::ta::volatility::atr;
use algotrap::ta::volatility::true_range;

const PRICES: [f64; 21] = [
    44.34, 44.09, 44.15, 43.61, 44.33, 44.83, 45.10, 45.42, 45.84, 46.08, 45.89, 46.03, 45.61,
    46.28, 46.28, 46.00, 46.03, 46.41, 46.22, 45.64, 46.21,
];

fn example() -> Vec<i64> {
    PRICES.iter().map(|p| (p * SCALE as f64).round() as i64).collect()
}

fn float_smooth(alpha: f64) -> Vec<f64> {
    let mut out: Vec<f64> = vec![];
    for (i, x) in PRICES.iter().enumerate() {
        if i == 0 {
            out.push(*x);
        } else {
            let prev = out[i - 1];
            out.push(alpha * x + (1.0 - alpha) * prev);
        }
    }
    out
}

fn assert_close(fixed: &[i64], reference: &[f64], tolerance: f64) {
    assert_eq!(fixed.len(), reference.len());
    for i in 0..fixed.len() {
        let value = fixed[i] as f64 / SCALE as f64;
        assert!((value - reference[i]).abs() <= tolerance, "{i}: {value} vs {}", reference[i]);
    }
}

fn bars() -> Ohlc {
    Ohlc::new(
        vec![100_000_000, 101_500_000, 103_000_000, 102_000_000, 99_000_000, 97_500_000],
        vec![102_000_000, 103_500_000, 104_000_000, 102_500_000, 100_000_000, 98_500_000],
        vec![99_000_000, 101_000_000, 101_500_000, 98_500_000, 97_000_000, 96_500_000],
        vec![101_500_000, 103_000_000, 102_000_000, 99_000_000, 97_500_000, 98_000_000],
    )
    .unwrap()
}

#[test]
fn example_series_in_fixed_point() {
    assert_eq!(example()[0], 44_340_000);
    assert_eq!(example()[20], 46_210_000);
}

#[test]
fn sma_of_the_example_series() {
    let out = sma(&example(), 14);
    assert_eq!(
        out,
        vec![
            44340000, 44215000, 44193333, 44047500, 44104000, 44225000, 44350000, 44483750,
            44634444, 44779000, 44880000, 44975833, 45024615, 45114285, 45252857, 45389285,
            45523571, 45723571, 45858571, 45916428, 45995714
        ]
    );
    let mut reference: Vec<f64> = vec![];
    for i in 0..PRICES.len() {
        let start = if i + 1 >= 14 { i + 1 - 14 } else { 0 };
        let window = &PRICES[start..i + 1];
        reference.push(window.iter().sum::<f64>() / window.len() as f64);
    }
    assert_close(&out, &reference, 0.000_001);
}

#[test]
fn rma_of_the_example_series() {
    let out = rma(&example(), 14);
    assert_eq!(
        out,
        vec![
            44340000, 44322142, 44309846, 44259857, 44264867, 44305233, 44362002, 44437573,
            44537746, 44647907, 44736627, 44829010, 44884795, 44984452, 45076991, 45142920,
            45206282, 45292261, 45358528, 45378633, 45438016
        ]
    );
    assert_close(&out, &float_smooth(1.0 / 14.0), 0.000_01);
}

#[test]
fn ema_of_the_example_series() {
    let out = ema(&example(), 14);
    assert_eq!(
        out,
        vec![
            44340000, 44306666, 44285777, 44195673, 44213583, 44295771, 44403001, 44538600,
            44712120, 44894504, 45027236, 45160937, 45220812, 45362037, 45484432, 45553174,
            45616750, 45722516, 45788847, 45769000, 45827800
        ]
    );
    assert_close(&out, &float_smooth(2.0 / 15.0), 0.000_01);
}

#[test]
fn rsi_of_the_example_series() {
    let out = rsi(&example(), 14);
    assert_eq!(
        out,
        vec![
            50000000, 0, 20537897, 6867492, 52380398, 65125933, 69823000, 74249677, 78671877,
            80710442, 74628999, 76060374, 64334034, 71802410, 71802410, 65186598, 65552821,
            69875614, 65452848, 54179295, 61244120
        ]
    );
    let reference = [
        50.0, 0.0, 20.537897, 6.867493, 52.380399, 65.125933, 69.823001, 74.249677, 78.671877,
        80.710442, 74.629, 76.060374, 64.334034, 71.802411, 71.802411, 65.186599, 65.552822,
        69.875615, 65.452848, 54.179295, 61.24412,
    ];
    assert_close(&out, &reference, 0.000_002);
}

#[test]
fn sma_averages_what_there_is_at_the_start() {
    assert_eq!(sma(&vec![10, 20, 30, 40, 50], 3), vec![10, 15, 20, 30, 40]);
    assert_eq!(sma(&vec![10, 20, 30], 1), vec![10, 20, 30]);
    assert_eq!(sma(&vec![10, 20, 30], 100), vec![10, 15, 20]);
    assert_eq!(sma(&vec![], 3), Vec::<i64>::new());
}

#[test]
fn sma_rounds_down() {
    assert_eq!(sma(&vec![1, 2], 2), vec![1, 1]);
    assert_eq!(sma(&vec![-1, -2], 2), vec![-1, -2]);
    assert_eq!(sma(&vec![i64::MAX, i64::MAX, i64::MAX], 3), vec![i64::MAX, i64::MAX, i64::MAX]);
    assert_eq!(sma(&vec![i64::MIN, i64::MIN, i64::MAX], 2), vec![i64::MIN, i64::MIN, -1]);
}

#[test]
fn rma_of_length_one_is_the_series() {
    assert_eq!(rma(&example(), 1), example());
    assert_eq!(rma(&vec![5, -7, i64::MAX, i64::MIN, 0], 1), vec![5, -7, i64::MAX, i64::MIN, 0]);
    assert_eq!(ema(&example(), 1), example());
}

#[test]
fn rma_moves_a_share_of_the_way() {
    // 100 + (200 - 100) / 4, then 125 + (0 - 125) / 4 rounded down
    assert_eq!(rma(&vec![100, 200, 0], 4), vec![100, 125, 93]);
    // alpha = 2 / 4
    assert_eq!(ema(&vec![100, 200, 0], 3), vec![100, 150, 75]);
    assert_eq!(smooth(&vec![100, 200, 0], 3, 4), vec![100, 175, 43]);
    assert_eq!(rma(&vec![], 4), Vec::<i64>::new());
    assert_eq!(rma(&vec![i64::MIN, i64::MAX], 2), vec![i64::MIN, -1]);
    assert_eq!(rma(&vec![7, 7, 7], usize::MAX), vec![7, 7, 7]);
    assert_eq!(ema(&vec![0, 8, 8], usize::MAX), vec![0, 0, 0]);
}

#[test]
fn smoothing_a_constant_series_keeps_it() {
    assert_eq!(rma(&vec![42; 10], 14), vec![42; 10]);
    assert_eq!(ema(&vec![-42; 10], 14), vec![-42; 10]);
    assert_eq!(sma(&vec![42; 10], 3), vec![42; 10]);
}

#[test]
fn rsi_of_a_constant_series_is_neutral() {
    assert_eq!(rsi(&vec![44_340_000; 30], 14), vec![RSI_NEUTRAL; 30]);
    assert_eq!(RSI_NEUTRAL, 50_000_000);
}

#[test]
fn rsi_of_a_rising_series_is_100() {
    let series: Vec<i64> = (0..40).map(|i| 44_000_000 + 10_000 * i).collect();
    let out = rsi(&series, 14);
    assert_eq!(out[0], RSI_NEUTRAL);
    for i in 1..series.len() {
        assert_eq!(out[i], RSI_MAX);
    }
    assert_eq!(RSI_MAX, 100_000_000);
}

#[test]
fn rsi_of_a_falling_series_is_0() {
    let series: Vec<i64> = (0..40).map(|i| 44_000_000 - 10_000 * i).collect();
    let out = rsi(&series, 14);
    assert_eq!(out[0], RSI_NEUTRAL);
    for i in 1..series.len() {
        assert_eq!(out[i], 0);
    }
}

#[test]
fn rsi_of_the_smallest_steps_is_100_or_0() {
    let rising: Vec<i64> = (0..10).collect();
    let mut expected = vec![RSI_MAX; 10];
    expected[0] = RSI_NEUTRAL;
    assert_eq!(rsi(&rising, 14), expected);
    assert_eq!(rsi(&rising, usize::MAX), expected);
    let falling: Vec<i64> = (0..10).rev().collect();
    let mut expected = vec![0; 10];
    expected[0] = RSI_NEUTRAL;
    assert_eq!(rsi(&falling, 14), expected);
    assert_eq!(rsi(&falling, usize::MAX), expected);
}

#[test]
fn rsi_stays_at_its_end_while_nothing_moves_the_other_way() {
    // one rise, then nothing: the average of the rises fades but stays above 0
    let mut series: Vec<i64> = vec![0, 1];
    series.resize(2_000, 1);
    let out = rsi(&series, 3);
    assert_eq!(out[0], RSI_NEUTRAL);
    assert_eq!(out[1..], vec![RSI_MAX; 1_999][..]);
    // one fall, then nothing, then a rise
    assert_eq!(rsi(&vec![5, 4, 4, 6], 3), vec![50_000_000, 0, 0, 81_818_181]);
}

#[test]
fn rsi_of_a_multiple_is_the_same() {
    let series = example();
    for k in [2, 3, 14, 1_000, 1_000_000] {
        let multiple: Vec<i64> = series.iter().map(|x| x * k).collect();
        let a = rsi(&series, 14);
        let b = rsi(&multiple, 14);
        for i in 0..a.len() {
            assert!((a[i] - b[i]).abs() <= 1, "{k} {i}: {} vs {}", a[i], b[i]);
        }
    }
    assert_eq!(rsi(&vec![0, 1], 14), vec![RSI_NEUTRAL, RSI_MAX]);
    assert_eq!(rsi(&vec![0, 14], 14), vec![RSI_NEUTRAL, RSI_MAX]);
    assert_eq!(rsi(&vec![0, 2, 1], 2), rsi(&vec![0, 4, 2], 2));
}

#[test]
fn rsi_of_a_shifted_series_is_the_same() {
    let series = example();
    for c in [-44_340_000, -1, 1, 1_000_000_000_000] {
        let shifted: Vec<i64> = series.iter().map(|x| x + c).collect();
        assert_eq!(rsi(&shifted, 14), rsi(&series, 14));
    }
}

#[test]
fn rsi_of_the_mirror_image_is_the_rest_of_100() {
    let series = example();
    let mirror: Vec<i64> = series.iter().map(|x| -x).collect();
    let a = rsi(&series, 14);
    let b = rsi(&mirror, 14);
    for i in 0..a.len() {
        assert!(a[i] + b[i] == RSI_MAX || a[i] + b[i] == RSI_MAX - 1);
    }
    assert_eq!(b[1], RSI_MAX);
    assert_eq!(b[2], 100_000_000 - 20_537_897 - 1);
}

#[test]
fn rsi_is_the_share_of_the_gains() {
    // gains 0, 30, 0; losses 0, 0, 10; averages over 2: gains 0, 15, 7.5; losses 0, 0, 5
    assert_eq!(rsi(&vec![100, 130, 120], 2), vec![50_000_000, 100_000_000, 60_000_000]);
    assert_eq!(gains_and_losses(&vec![100, 130, 120]), (vec![0, 30, 0], vec![0, 0, 10]));
    assert_eq!(gains_and_losses(&vec![]), (Vec::<i64>::new(), Vec::<i64>::new()));
}

#[test]
fn rev_rsi_of_the_example_series() {
    assert_eq!(
        rev_rsi(&example(), 14, 70 * SCALE),
        vec![
            44340000, 44631662, 44597252, 45195315, 45133508, 45111814, 45110972, 45297016,
            45558657, 45723235, 45735144, 45830489, 46087724, 46203472, 46208942, 46452681,
            46422474, 46421578, 46642409, 47288889, 47211827
        ]
    );
    assert_eq!(
        rev_rsi(&example(), 14, 30 * SCALE),
        vec![
            44340000, 44189489, 44186674, 43858964, 43309435, 42798992, 42629081, 42432262,
            42155678, 42138850, 42406797, 42492262, 42714969, 42140093, 42435822, 42690395,
            42891795, 42672621, 42926021, 43119893, 42634909
        ]
    );
}

#[test]
fn rev_rsi_solves_for_the_move() {
    // gains 0, 40; losses 0, 0; averages with alpha 1/2: gain 20, loss 0
    // x = (2 - 1) * (0 * 50 / 50 - 20) = -20, below 0: 140 - 20 * 50 / 50
    assert_eq!(rev_rsi(&vec![100, 140], 2, 50 * SCALE), vec![100, 120]);
    // x = -20: 140 - 20 * 30 / 70, rounded down
    assert_eq!(rev_rsi(&vec![100, 140], 2, 70 * SCALE), vec![100, 131]);
    // loss 20: x = 20 * 70 / 30, rounded down
    assert_eq!(rev_rsi(&vec![100, 60], 2, 70 * SCALE), vec![100, 106]);
    // a length of 1 leaves the series as it is
    assert_eq!(rev_rsi(&vec![100, 60, 90], 1, 70 * SCALE), vec![100, 60, 90]);
}

#[test]
fn bar_bias_adds_move_and_reach() {
    assert_eq!(
        bar_bias(&bars()),
        vec![2_500_000, 3_000_000, -1_500_000, -6_000_000, -2_500_000, 500_000]
    );
    // (close - open) + (high - open) - (open - low)
    let one = Ohlc::new(vec![10], vec![15], vec![8], vec![12]).unwrap();
    assert_eq!(bar_bias(&one), vec![(12 - 10) + (15 - 10) - (10 - 8)]);
    let widest =
        Ohlc::new(vec![-PRICE_LIMIT], vec![PRICE_LIMIT], vec![PRICE_LIMIT], vec![PRICE_LIMIT])
            .unwrap();
    assert_eq!(bar_bias(&widest), vec![6 * PRICE_LIMIT]);
}

#[test]
fn true_range_looks_at_the_previous_close() {
    assert_eq!(
        true_range(&bars()),
        vec![3_000_000, 2_500_000, 2_500_000, 4_000_000, 3_000_000, 2_000_000]
    );
    // a gap up: the low lies above the previous close
    let gap_up = Ohlc::new(vec![10, 20], vec![12, 22], vec![9, 19], vec![11, 21]).unwrap();
    assert_eq!(true_range(&gap_up), vec![3, 11]);
    // a gap down: the high lies below the previous close
    let gap_down = Ohlc::new(vec![20, 10], vec![22, 12], vec![19, 9], vec![21, 11]).unwrap();
    assert_eq!(true_range(&gap_down), vec![3, 12]);
}

#[test]
fn atr_of_a_constant_range_is_that_range() {
    let n = 50;
    let mut open = vec![];
    let mut high = vec![];
    let mut low = vec![];
    let mut close = vec![];
    for i in 0..n {
        let base: i64 = 100_000_000 + 250_000 * i;
        open.push(base + 500_000);
        high.push(base + 2_000_000);
        low.push(base);
        close.push(base + 1_000_000);
    }
    let ohlc = Ohlc::new(open, high, low, close).unwrap();
    assert_eq!(atr(&ohlc, 14), vec![2_000_000; 50]);
    assert_eq!(atr(&ohlc, 42), vec![2_000_000; 50]);
}

#[test]
fn atr_smooths_the_true_range() {
    // true ranges 3, 2.5, 2.5, 4, 3, 2 with alpha 1/2
    assert_eq!(
        atr(&bars(), 2),
        vec![3_000_000, 2_750_000, 2_625_000, 3_312_500, 3_156_250, 2_578_125]
    );
}

#[test]
fn ohlc_needs_aligned_columns_within_the_limit() {
    assert!(Ohlc::new(vec![1], vec![1], vec![1], vec![1]).is_some());
    assert!(Ohlc::new(vec![], vec![], vec![], vec![]).is_some());
    assert!(Ohlc::new(vec![1, 2], vec![1], vec![1], vec![1]).is_none());
    assert!(Ohlc::new(vec![1], vec![1, 2], vec![1], vec![1]).is_none());
    assert!(Ohlc::new(vec![1], vec![1], vec![], vec![1]).is_none());
    assert!(Ohlc::new(vec![1], vec![1], vec![1], vec![1, 2]).is_none());
    assert!(Ohlc::new(vec![PRICE_LIMIT], vec![-PRICE_LIMIT], vec![1], vec![1]).is_some());
    assert!(Ohlc::new(vec![PRICE_LIMIT + 1], vec![1], vec![1], vec![1]).is_none());
    assert!(Ohlc::new(vec![1], vec![-PRICE_LIMIT - 1], vec![1], vec![1]).is_none());
    assert!(Ohlc::new(vec![1], vec![1], vec![i64::MIN], vec![1]).is_none());
    assert!(Ohlc::new(vec![1], vec![1], vec![1], vec![i64::MAX]).is_none());
    assert_eq!(bars().len(), 6);
    assert!(is_bounded(&vec![-5, 5], 5));
    assert!(!is_bounded(&vec![-5, 6], 5));
    assert!(is_bounded(&vec![], 0));
}

#[test]
fn structure_price_is_open_plus_bias() {
    assert_eq!(
        structure_price(&bars()),
        vec![102_500_000, 104_500_000, 101_500_000, 96_000_000, 96_500_000, 98_000_000]
    );
    assert_eq!(rssi(&bars(), 14), rsi(&structure_price(&bars()), 14));
    assert_eq!(
        rssi(&bars(), 14),
        vec![50_000_000, 100_000_000, 38_235_294, 17_227_319, 21_452_489, 32_572_388]
    );
}

#[test]
fn bias_reversion_is_open_less_average_bias() {
    let bias_rma = rma(&bar_bias(&bars()), 9);
    let open = bars().open;
    let expected: Vec<i64> = (0..6).map(|i| open[i] - bias_rma[i]).collect();
    assert_eq!(bias_reversion(&bars(), 9), expected);
    assert_eq!(bias_reversion(&bars(), 9)[0], 100_000_000 - 2_500_000);
    assert_eq!(bias_reversion_smoothed(&bars(), 9), sma(&expected, 9));
    assert_eq!(
        bias_reversion_smoothed(&bars(), 9),
        vec![97_500_000, 98_222_222, 99_113_169, 99_533_780, 99_268_466, 98_847_012]
    );
}

#[test]
fn band_reversion_is_zero_inside_the_band() {
    let ohlc = Ohlc::new(vec![100; 7], vec![100; 7], vec![100; 7], vec![100; 7]).unwrap();
    let osc = vec![10; 7];
    let signal = vec![100, 90, 110, 111, 89, 150, 50];
    assert_eq!(band_reversion(&ohlc, &osc, &signal), vec![0, 0, 0, 1, -1, 40, -40]);
    assert_eq!(
        band_reversion_percent(&ohlc, &osc, &signal),
        vec![0, 0, 0, 10_000_000, -10_000_000, 400_000_000, -400_000_000]
    );
}

#[test]
fn band_reversion_percent_rounds_down_and_spares_a_zero_band() {
    let ohlc = Ohlc::new(vec![100; 4], vec![100; 4], vec![100; 4], vec![100; 4]).unwrap();
    let osc = vec![3, 3, 0, 0];
    let signal = vec![104, 96, 100, 105];
    assert_eq!(band_reversion(&ohlc, &osc, &signal), vec![1, -1, 0, 5]);
    // 100 / 3 and -100 / 3 in millionths, rounded down
    assert_eq!(band_reversion_percent(&ohlc, &osc, &signal), vec![33_333_333, -33_333_334, 0, 0]);
}

#[test]
fn band_reversion_of_an_inverted_band() {
    let ohlc = Ohlc::new(vec![100; 3], vec![100; 3], vec![100; 3], vec![100; 3]).unwrap();
    let osc = vec![-10; 3];
    // the band runs from 110 down to 90
    let signal = vec![100, 80, 120];
    assert_eq!(band_reversion(&ohlc, &osc, &signal), vec![10, -30, 30]);
    assert_eq!(
        band_reversion_percent(&ohlc, &osc, &signal),
        vec![-100_000_000, 300_000_000, -300_000_000]
    );
}

#[test]
fn div_floor_rounds_toward_minus_infinity() {
    assert_eq!(div_floor(7, 2), 3);
    assert_eq!(div_floor(-7, 2), -4);
    assert_eq!(div_floor(-8, 2), -4);
    assert_eq!(div_floor(0, 5), 0);
    assert_eq!(div_floor(i128::MIN, 1), i128::MIN);
    assert_eq!(div_floor(i128::MAX, i128::MAX), 1);
    assert_eq!(div_floor(i128::MIN, i128::MAX), -2);
}
