use algotrap::aggregator::aggregate;
use algotrap::aggregator::decide;
use algotrap::aggregator::find_entry;
use algotrap::aggregator::is_listed;
use algotrap::aggregator::Candidate;
use algotrap::aggregator::Decision;
use algotrap::aggregator::TimeframeSignal;
use algotrap::model::timeframe::Timeframe;
use chrono::{TimeZone, Utc};

fn signal(timeframe: Timeframe, climax_signal: i32) -> TimeframeSignal {
    TimeframeSignal { timeframe, climax_signal, rssi: 60_000_000, atr_reversion_percent: -75_000_000 }
}

fn candidate(timeframe: Timeframe, climax_signal: i32, closing: bool) -> Candidate {
    Candidate { signal: signal(timeframe, climax_signal), closing }
}

#[test]
fn only_the_closing_hour_bears_a_signal() {
    let candidates = vec![
        candidate(Timeframe::H1, 1, true),
        candidate(Timeframe::D1, 0, false),
        candidate(Timeframe::W1, 0, false),
    ];
    let d = decide(&candidates, &vec![], false);
    assert_eq!(d.total_weight, 60);
    assert_eq!(d.effective_weight, 60);
    assert!(d.notify);
    assert_eq!(d.priority, Some(5));
    assert_eq!(d.effective, vec![signal(Timeframe::H1, 1)]);
    assert_eq!(d.excluded, vec![]);
}

#[test]
fn a_signal_that_is_not_closing_is_weighed_but_not_effective() {
    let candidates = vec![
        candidate(Timeframe::H1, 1, true),
        candidate(Timeframe::D1, -1, false),
        candidate(Timeframe::W1, 0, true),
    ];
    let d = decide(&candidates, &vec![], false);
    assert_eq!(d.total_weight, 1_500);
    assert_eq!(d.effective_weight, 60);
    assert!(d.notify);
    // floor(60 / 1500 * 4) + 1
    assert_eq!(d.priority, Some(1));
    assert_eq!(d.effective, vec![signal(Timeframe::H1, 1)]);
}

#[test]
fn priority_grows_by_quarters_of_the_weight() {
    // 1440 of 1500: floor(3.84) + 1
    let d = decide(
        &vec![candidate(Timeframe::H1, 1, false), candidate(Timeframe::D1, -1, true)],
        &vec![],
        false,
    );
    assert_eq!((d.total_weight, d.effective_weight, d.priority), (1_500, 1_440, Some(4)));
    // 60 of 120: floor(2.0) + 1
    let d = decide(
        &vec![candidate(Timeframe::H1, 1, true), candidate(Timeframe::M30, 1, false),
            candidate(Timeframe::M15, 1, false), candidate(Timeframe::M5, 1, false),
            candidate(Timeframe::M1, 1, false), candidate(Timeframe::M1, 1, false)],
        &vec![Timeframe::M5, Timeframe::M1],
        false,
    );
    assert_eq!((d.total_weight, d.effective_weight, d.priority), (105, 60, Some(3)));
    // 30 of 105: floor(1.14) + 1
    let d = decide(
        &vec![candidate(Timeframe::H1, 1, false), candidate(Timeframe::M30, 1, true),
            candidate(Timeframe::M15, 1, false)],
        &vec![],
        false,
    );
    assert_eq!((d.total_weight, d.effective_weight, d.priority), (105, 30, Some(2)));
}

#[test]
fn nothing_effective_means_no_notification() {
    let candidates = vec![candidate(Timeframe::H1, 1, false), candidate(Timeframe::D1, 0, true)];
    let d = decide(&candidates, &vec![], false);
    assert_eq!(
        d,
        Decision {
            excluded: vec![],
            effective: vec![],
            total_weight: 60,
            effective_weight: 0,
            notify: false,
            priority: None,
        }
    );
}

#[test]
fn the_override_makes_every_signal_effective() {
    let candidates = vec![
        candidate(Timeframe::D1, -1, false),
        candidate(Timeframe::H1, 1, false),
        candidate(Timeframe::W1, 0, false),
    ];
    let d = decide(&candidates, &vec![], true);
    assert_eq!(d.total_weight, 1_500);
    assert_eq!(d.effective_weight, 1_500);
    assert!(d.notify);
    assert_eq!(d.priority, Some(5));
    // shortest timeframe first
    assert_eq!(d.effective, vec![signal(Timeframe::H1, 1), signal(Timeframe::D1, -1)]);
}

#[test]
fn the_override_notifies_without_any_signal_and_without_a_priority() {
    let candidates = vec![candidate(Timeframe::H1, 0, true), candidate(Timeframe::D1, 0, true)];
    let d = decide(&candidates, &vec![], true);
    assert_eq!(d.total_weight, 0);
    assert_eq!(d.effective_weight, 0);
    assert!(d.notify);
    assert_eq!(d.priority, None);
    let d = decide(&vec![], &vec![], true);
    assert!(d.notify);
    assert_eq!(d.priority, None);
    let d = decide(&vec![], &vec![], false);
    assert!(!d.notify);
    assert_eq!(d.priority, None);
}

#[test]
fn excluded_timeframes_carry_no_weight() {
    let candidates = vec![
        candidate(Timeframe::M1, 1, true),
        candidate(Timeframe::H1, 1, true),
        candidate(Timeframe::D1, -1, false),
    ];
    let excluded = vec![Timeframe::W1, Timeframe::M1, Timeframe::M1];
    let d = decide(&candidates, &excluded, false);
    assert_eq!(d.excluded, vec![Timeframe::M1, Timeframe::W1]);
    assert_eq!(d.total_weight, 1_500);
    assert_eq!(d.effective_weight, 60);
    assert_eq!(d.effective, vec![signal(Timeframe::H1, 1)]);
    let d = decide(&candidates, &vec![Timeframe::M1, Timeframe::H1, Timeframe::D1], true);
    assert_eq!((d.total_weight, d.effective_weight, d.notify, d.priority), (0, 0, true, None));
}

#[test]
fn the_later_candidate_of_a_timeframe_counts() {
    let candidates = vec![candidate(Timeframe::H1, 1, true), candidate(Timeframe::H1, 0, true)];
    let d = decide(&candidates, &vec![], false);
    assert_eq!((d.total_weight, d.effective_weight, d.notify), (0, 0, false));
    let candidates = vec![candidate(Timeframe::H1, 0, true), candidate(Timeframe::H1, -1, true)];
    let d = decide(&candidates, &vec![], false);
    assert_eq!((d.total_weight, d.effective_weight, d.notify), (60, 60, true));
    assert_eq!(find_entry(&candidates, Timeframe::H1), Some(candidate(Timeframe::H1, -1, true)));
    assert_eq!(find_entry(&candidates, Timeframe::H2), None);
}

#[test]
fn all_timeframes_together_weigh_61071() {
    let mut candidates = vec![];
    for tf in Timeframe::all() {
        candidates.push(candidate(tf, 1, tf == Timeframe::MOS1));
    }
    let d = decide(&candidates, &vec![], false);
    assert_eq!(d.total_weight, 61_071);
    assert_eq!(d.effective_weight, 43_200);
    // floor(43200 / 61071 * 4) + 1
    assert_eq!(d.priority, Some(3));
}

#[test]
fn is_listed_finds_what_is_there() {
    let list = vec![Timeframe::M1, Timeframe::D1];
    assert!(is_listed(&list, Timeframe::M1));
    assert!(is_listed(&list, Timeframe::D1));
    assert!(!is_listed(&list, Timeframe::H1));
    assert!(!is_listed(&vec![], Timeframe::H1));
}

#[test]
fn aggregate_asks_the_clock_for_each_timeframe() {
    // Sunday 2025-07-06 23:59:55: minute, hour, day and week are closing,
    // the month is not
    let now = Utc.with_ymd_and_hms(2025, 7, 6, 23, 59, 55).unwrap().timestamp();
    let signals = vec![
        signal(Timeframe::H1, 1),
        signal(Timeframe::D1, 0),
        signal(Timeframe::W1, -1),
        signal(Timeframe::MOS1, 1),
    ];
    let d = aggregate(&signals, &vec![], false, now, Some(10));
    assert_eq!(d.total_weight, 60 + 10_080 + 43_200);
    assert_eq!(d.effective_weight, 60 + 10_080);
    assert!(d.notify);
    // floor(10140 / 53340 * 4) + 1
    assert_eq!(d.priority, Some(1));
    assert_eq!(d.effective, vec![signal(Timeframe::H1, 1), signal(Timeframe::W1, -1)]);

    // half past: nothing is closing
    let now = Utc.with_ymd_and_hms(2025, 7, 6, 10, 30, 30).unwrap().timestamp();
    let d = aggregate(&signals, &vec![], false, now, Some(10));
    assert_eq!((d.total_weight, d.effective_weight, d.notify, d.priority), (53_340, 0, false, None));
    let d = aggregate(&signals, &vec![Timeframe::MOS1], true, now, Some(10));
    assert_eq!(
        (d.total_weight, d.effective_weight, d.notify, d.priority),
        (10_140, 10_140, true, Some(5))
    );
}

#[test]
fn aggregate_takes_a_refused_tolerance_as_not_closing() {
    // Monday 2025-07-07 00:00:00, the first of no month
    let now = Utc.with_ymd_and_hms(2025, 7, 7, 0, 0, 0).unwrap().timestamp();
    let signals = vec![signal(Timeframe::H1, 1), signal(Timeframe::W1, 1)];
    let d = aggregate(&signals, &vec![], false, now, Some(86_400));
    assert_eq!((d.total_weight, d.effective_weight), (10_140, 60));
    let d = aggregate(&signals, &vec![], false, now, Some(86_399));
    assert_eq!((d.total_weight, d.effective_weight), (10_140, 10_140));
    let d = aggregate(&signals, &vec![], false, now, None);
    assert_eq!((d.total_weight, d.effective_weight), (10_140, 10_140));
}

fn bar(open: i64, high: i64, low: i64, close: i64, time: i64) -> algotrap::model::Kline {
    algotrap::model::Kline { open, high, low, close, volume: 1_000_000, time, adjclose: None }
}

fn climbing() -> Vec<algotrap::model::Kline> {
    // ends overbought at its last bar but one
    let rows: Vec<(i64, i64, i64, i64)> = vec![
        (100000000, 102000000, 99000000, 101500000),
        (101500000, 103500000, 101000000, 103000000),
        (103000000, 104000000, 101500000, 102000000),
        (102000000, 102500000, 98500000, 99000000),
        (99000000, 100000000, 97000000, 97500000),
        (97500000, 98500000, 96500000, 98000000),
        (98000000, 104500000, 97500000, 104000000),
        (104000000, 111000000, 103500000, 110000000),
        (110000000, 112000000, 108000000, 109000000),
        (109000000, 109500000, 94000000, 95000000),
    ];
    let mut out = vec![];
    for (i, (o, h, l, c)) in rows.into_iter().enumerate() {
        out.push(bar(o, h, l, c, 1_751_760_000_000 + 3_600_000 * i as i64));
    }
    out
}

fn table_of(timeframe: Timeframe, bars: usize) -> algotrap::aggregator::TimeframeTable {
    let klines: Vec<algotrap::model::Kline> = climbing()[..bars].to_vec();
    algotrap::aggregator::TimeframeTable {
        timeframe,
        features: algotrap::features::process_data(&klines).unwrap(),
    }
}

#[test]
fn the_decision_reads_the_last_confirmed_bar_of_each_table() {
    // Sunday 2025-07-06 23:59:55: hour and day are closing
    let now = Utc.with_ymd_and_hms(2025, 7, 6, 23, 59, 55).unwrap().timestamp();
    // ten bars: the ninth is overbought; nine bars: the eighth is not
    let tables = vec![table_of(Timeframe::H1, 10), table_of(Timeframe::D1, 9)];
    let d = algotrap::aggregator::notification_decision(&tables, &vec![], false, now, Some(10));
    assert_eq!((d.total_weight, d.effective_weight, d.notify, d.priority), (60, 60, true, Some(5)));
    assert_eq!(
        d.effective,
        vec![TimeframeSignal {
            timeframe: Timeframe::H1,
            climax_signal: 1,
            rssi: 59154278,
            atr_reversion_percent: -99315728,
        }]
    );

    let tables = vec![table_of(Timeframe::H1, 10), table_of(Timeframe::MOS1, 10)];
    let d = algotrap::aggregator::notification_decision(&tables, &vec![], false, now, Some(10));
    assert_eq!(
        (d.total_weight, d.effective_weight, d.notify, d.priority),
        (43_260, 60, true, Some(1))
    );
    let d = algotrap::aggregator::notification_decision(
        &tables,
        &vec![Timeframe::H1],
        false,
        now,
        Some(10),
    );
    assert_eq!((d.total_weight, d.effective_weight, d.notify, d.priority), (43_200, 0, false, None));
    assert_eq!(d.excluded, vec![Timeframe::H1]);
}

#[test]
fn a_table_without_a_confirmed_bar_says_nothing() {
    let now = Utc.with_ymd_and_hms(2025, 7, 6, 23, 59, 55).unwrap().timestamp();
    let tables = vec![table_of(Timeframe::H1, 1), table_of(Timeframe::D1, 0)];
    let d = algotrap::aggregator::notification_decision(&tables, &vec![], false, now, Some(10));
    assert_eq!((d.total_weight, d.effective_weight, d.notify, d.priority), (0, 0, false, None));
    let d = algotrap::aggregator::notification_decision(&vec![], &vec![], true, now, None);
    assert_eq!((d.total_weight, d.effective_weight, d.notify, d.priority), (0, 0, true, None));
}
