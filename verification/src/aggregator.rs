//! Weighing the climax signals of several timeframes into one decision:
//! whether to notify, and how urgently.

use crate::features::Features;
use crate::model::timeframe::all_timeframes;
use crate::model::timeframe::Timeframe;
use crate::time_utils::closes;
use crate::time_utils::is_closing_timeframe;
use crate::time_utils::tolerance_seconds;
use crate::time_utils::tolerance_too_big;
use crate::time_utils::MAX_TIMESTAMP;
use crate::time_utils::MIN_TIMESTAMP;
use vstd::prelude::*;

verus! {

/// What the last confirmed bar of one timeframe says: its climax signal,
/// and the two oscillator values that the signal was derived from.
#[derive(Clone, Copy, Debug, PartialEq, Eq, Structural)]
pub struct TimeframeSignal {
    pub timeframe: Timeframe,
    pub climax_signal: i32,
    pub rssi: i64,
    pub atr_reversion_percent: i128,
}

/// A timeframe's signal together with the answer to the question whether a
/// candle of that timeframe is closing now.
#[derive(Clone, Copy, Debug, PartialEq, Eq, Structural)]
pub struct Candidate {
    pub signal: TimeframeSignal,
    pub closing: bool,
}

/// The outcome of one notification cycle.
#[derive(Clone, Debug, PartialEq, Eq)]
pub struct Decision {
    /// The timeframes that were left out on request, shortest first.
    pub excluded: Vec<Timeframe>,
    /// The signals that count now, shortest timeframe first.
    pub effective: Vec<TimeframeSignal>,
    /// The weights of all timeframes that bear a signal, added up.
    pub total_weight: usize,
    /// The weights of the timeframes whose signal counts now, added up.
    pub effective_weight: usize,
    /// Whether a notification goes out.
    pub notify: bool,
    /// The urgency of the notification, from 1 to 5. There is none when
    /// nothing is notified, and none when no timeframe bears a signal.
    pub priority: Option<u8>,
}

/// The candidate that speaks for a timeframe: the last one listed for it.
pub open spec fn entry_for(candidates: Seq<Candidate>, tf: Timeframe) -> Option<Candidate>
    decreases candidates.len(),
{
    if candidates.len() == 0 {
        None
    } else if candidates.last().signal.timeframe == tf {
        Some(candidates.last())
    } else {
        entry_for(candidates.drop_last(), tf)
    }
}

/// A timeframe bears a signal when it is not excluded and its candidate has
/// a climax signal other than 0.
pub open spec fn bears_signal(
    candidates: Seq<Candidate>,
    excluded: Seq<Timeframe>,
    tf: Timeframe,
) -> bool {
    !excluded.contains(tf) && match entry_for(candidates, tf) {
        Some(c) => c.signal.climax_signal != 0,
        None => false,
    }
}

/// A timeframe's signal is effective when the timeframe bears a signal and
/// either the override is set or its candle is closing.
pub open spec fn is_effective(
    candidates: Seq<Candidate>,
    excluded: Seq<Timeframe>,
    notify_always: bool,
    tf: Timeframe,
) -> bool {
    bears_signal(candidates, excluded, tf) && (notify_always || entry_for(
        candidates,
        tf,
    ).unwrap().closing)
}

/// The weights of those of `timeframes` that bear a signal, added up.
pub open spec fn signal_weight(
    timeframes: Seq<Timeframe>,
    candidates: Seq<Candidate>,
    excluded: Seq<Timeframe>,
) -> nat
    decreases timeframes.len(),
{
    if timeframes.len() == 0 {
        0
    } else {
        signal_weight(timeframes.drop_last(), candidates, excluded) + if bears_signal(
            candidates,
            excluded,
            timeframes.last(),
        ) {
            timeframes.last().spec_weight()
        } else {
            0
        }
    }
}

/// The weights of those of `timeframes` whose signal is effective, added up.
pub open spec fn effective_weight(
    timeframes: Seq<Timeframe>,
    candidates: Seq<Candidate>,
    excluded: Seq<Timeframe>,
    notify_always: bool,
) -> nat
    decreases timeframes.len(),
{
    if timeframes.len() == 0 {
        0
    } else {
        effective_weight(timeframes.drop_last(), candidates, excluded, notify_always)
            + if is_effective(candidates, excluded, notify_always, timeframes.last()) {
            timeframes.last().spec_weight()
        } else {
            0
        }
    }
}

/// The effective signals of `timeframes`, in the order of `timeframes`.
pub open spec fn effective_signals(
    timeframes: Seq<Timeframe>,
    candidates: Seq<Candidate>,
    excluded: Seq<Timeframe>,
    notify_always: bool,
) -> Seq<TimeframeSignal>
    decreases timeframes.len(),
{
    if timeframes.len() == 0 {
        Seq::empty()
    } else {
        let before = effective_signals(
            timeframes.drop_last(),
            candidates,
            excluded,
            notify_always,
        );
        if is_effective(candidates, excluded, notify_always, timeframes.last()) {
            before.push(entry_for(candidates, timeframes.last()).unwrap().signal)
        } else {
            before
        }
    }
}

/// Those of `timeframes` that are excluded, in the order of `timeframes`.
pub open spec fn excluded_among(timeframes: Seq<Timeframe>, excluded: Seq<Timeframe>) -> Seq<
    Timeframe,
>
    decreases timeframes.len(),
{
    if timeframes.len() == 0 {
        Seq::empty()
    } else {
        let before = excluded_among(timeframes.drop_last(), excluded);
        if excluded.contains(timeframes.last()) {
            before.push(timeframes.last())
        } else {
            before
        }
    }
}

/// The urgency that an effective weight earns out of a total weight: one
/// more than the whole quarters of the total that the effective weight
/// fills.
pub open spec fn priority_for(effective: int, total: int) -> int {
    4 * effective / total + 1
}

/// The decision that a set of candidates calls for.
pub open spec fn decision_for(
    d: Decision,
    candidates: Seq<Candidate>,
    excluded: Seq<Timeframe>,
    notify_always: bool,
) -> bool {
    let all = all_timeframes();
    let total = signal_weight(all, candidates, excluded);
    let effective = effective_weight(all, candidates, excluded, notify_always);
    &&& d.excluded@ == excluded_among(all, excluded)
    &&& d.effective@ == effective_signals(all, candidates, excluded, notify_always)
    &&& d.total_weight == total
    &&& d.effective_weight == effective
    &&& d.notify == (notify_always || effective > 0)
    &&& match d.priority {
        Some(priority) => d.notify && total > 0 && priority == priority_for(
            effective as int,
            total as int,
        ),
        None => !(d.notify && total > 0),
    }
}

/// A candle of `tf` is closing at `now`: the tolerance is one that `tf`
/// accepts, and `now` lies at a boundary of `tf` within it.
pub open spec fn closing_at(tf: Timeframe, now: int, tolerance: Option<u64>) -> bool {
    !tolerance_too_big(tf, tolerance_seconds(tolerance)) && closes(
        tf,
        now,
        tolerance_seconds(tolerance),
    )
}

/// The candidates that a list of signals gives at an instant.
pub open spec fn candidates_at(
    signals: Seq<TimeframeSignal>,
    now: int,
    tolerance: Option<u64>,
) -> Seq<Candidate> {
    Seq::new(
        signals.len(),
        |i: int|
            Candidate {
                signal: signals[i],
                closing: closing_at(signals[i].timeframe, now, tolerance),
            },
    )
}

/// No weight of signal-bearing timeframes exceeds 43200 a timeframe, and the
/// effective weight never exceeds it.
pub proof fn lemma_weight_bounds(
    timeframes: Seq<Timeframe>,
    candidates: Seq<Candidate>,
    excluded: Seq<Timeframe>,
    notify_always: bool,
)
    ensures
        effective_weight(timeframes, candidates, excluded, notify_always) <= signal_weight(
            timeframes,
            candidates,
            excluded,
        ) <= 43_200 * timeframes.len(),
    decreases timeframes.len(),
{
    if timeframes.len() > 0 {
        lemma_weight_bounds(timeframes.drop_last(), candidates, excluded, notify_always);
    }
}

/// With the override set, every signal-bearing timeframe is effective.
pub proof fn lemma_override_makes_all_effective(
    timeframes: Seq<Timeframe>,
    candidates: Seq<Candidate>,
    excluded: Seq<Timeframe>,
)
    ensures
        effective_weight(timeframes, candidates, excluded, true) == signal_weight(
            timeframes,
            candidates,
            excluded,
        ),
    decreases timeframes.len(),
{
    if timeframes.len() > 0 {
        lemma_override_makes_all_effective(timeframes.drop_last(), candidates, excluded);
    }
}

/// An urgency lies between 1 and 5, and is 5 exactly when every
/// signal-bearing weight is effective.
pub proof fn lemma_priority_range(effective: int, total: int)
    requires
        0 <= effective <= total,
        0 < total,
    ensures
        1 <= priority_for(effective, total) <= 5,
        priority_for(effective, total) == 5 <==> effective == total,
{
    assert(0 <= 4 * effective / total <= 4 && (4 * effective / total == 4 <==> effective == total))
        by (nonlinear_arith)
        requires
            0 <= effective <= total,
            0 < total,
    ;
}

/// Whether a timeframe is among a list of timeframes.
pub fn is_listed(timeframes: &Vec<Timeframe>, tf: Timeframe) -> (r: bool)
    ensures
        r == timeframes@.contains(tf),
{
    let mut i: usize = 0;
    while i < timeframes.len()
        invariant
            i <= timeframes.len(),
            forall|j: int| 0 <= j < i ==> timeframes@[j] != tf,
        decreases timeframes.len() - i,
    {
        if timeframes[i] == tf {
            return true;
        }
        i += 1;
    }
    false
}

/// The candidate that speaks for a timeframe, if there is one.
pub fn find_entry(candidates: &Vec<Candidate>, tf: Timeframe) -> (r: Option<Candidate>)
    ensures
        r == entry_for(candidates@, tf),
{
    let mut found: Option<Candidate> = None;
    let mut i: usize = 0;
    while i < candidates.len()
        invariant
            i <= candidates.len(),
            found == entry_for(candidates@.take(i as int), tf),
        decreases candidates.len() - i,
    {
        assert(candidates@.take(i + 1).drop_last() =~= candidates@.take(i as int));
        if candidates[i].signal.timeframe == tf {
            found = Some(candidates[i]);
        }
        i += 1;
    }
    assert(candidates@.take(i as int) =~= candidates@);
    found
}

/// Weighs the candidates of one notification cycle.
///
/// Excluded timeframes and timeframes whose climax signal is 0 carry no
/// weight. Of the others, those count as effective whose candle is closing,
/// or all of them if `notify_always` is set. A notification goes out when
/// anything is effective or `notify_always` is set, and its priority grows
/// with the share of the weight that is effective.
pub fn decide(candidates: &Vec<Candidate>, excluded: &Vec<Timeframe>, notify_always: bool) -> (d:
    Decision)
    ensures
        decision_for(d, candidates@, excluded@, notify_always),
{
    let all: Vec<Timeframe> = Timeframe::all();
    let mut left_out: Vec<Timeframe> = Vec::new();
    let mut effective: Vec<TimeframeSignal> = Vec::new();
    let mut total_weight: usize = 0;
    let mut effective_weight: usize = 0;
    let mut k: usize = 0;
    while k < all.len()
        invariant
            all@ == all_timeframes(),
            k <= all.len(),
            left_out@ == excluded_among(all@.take(k as int), excluded@),
            effective@ == effective_signals(
                all@.take(k as int),
                candidates@,
                excluded@,
                notify_always,
            ),
            total_weight == signal_weight(all@.take(k as int), candidates@, excluded@),
            effective_weight == self::effective_weight(
                all@.take(k as int),
                candidates@,
                excluded@,
                notify_always,
            ),
        decreases all.len() - k,
    {
        let tf: Timeframe = all[k];
        proof {
            assert(all@.take(k + 1).drop_last() =~= all@.take(k as int));
            assert(all@.take(k + 1).last() == tf);
            lemma_weight_bounds(all@.take(k as int), candidates@, excluded@, notify_always);
        }
        if is_listed(excluded, tf) {
            left_out.push(tf);
        } else {
            match find_entry(candidates, tf) {
                Some(c) => {
                    if c.signal.climax_signal != 0 {
                        total_weight = total_weight + tf.weight();
                        if notify_always || c.closing {
                            effective_weight = effective_weight + tf.weight();
                            effective.push(c.signal);
                        }
                    }
                },
                None => {},
            }
        }
        k += 1;
    }
    proof {
        assert(all@.take(k as int) =~= all@);
        lemma_weight_bounds(all@, candidates@, excluded@, notify_always);
    }
    let notify: bool = notify_always || effective_weight > 0;
    let priority: Option<u8> = if notify && total_weight > 0 {
        proof {
            lemma_priority_range(effective_weight as int, total_weight as int);
        }
        Some((4 * effective_weight / total_weight + 1) as u8)
    } else {
        None
    };
    Decision { excluded: left_out, effective, total_weight, effective_weight, notify, priority }
}

/// Weighs the signals of one notification cycle at the instant `now`,
/// counted in seconds since 1970-01-01 00:00:00 UTC.
///
/// A candle counts as closing when `now` lies at one of its boundaries
/// within `tolerance` seconds; under a tolerance that its timeframe refuses,
/// no candle counts as closing.
pub fn aggregate(
    signals: &Vec<TimeframeSignal>,
    excluded: &Vec<Timeframe>,
    notify_always: bool,
    now: i64,
    tolerance: Option<u64>,
) -> (d: Decision)
    requires
        MIN_TIMESTAMP <= now <= MAX_TIMESTAMP,
    ensures
        decision_for(d, candidates_at(signals@, now as int, tolerance), excluded@, notify_always),
{
    let mut candidates: Vec<Candidate> = Vec::new();
    let mut i: usize = 0;
    while i < signals.len()
        invariant
            i <= signals.len(),
            MIN_TIMESTAMP <= now <= MAX_TIMESTAMP,
            candidates@.len() == i,
            forall|j: int|
                0 <= j < i ==> candidates@[j] == (Candidate {
                    signal: signals@[j],
                    closing: closing_at(signals@[j].timeframe, now as int, tolerance),
                }),
        decreases signals.len() - i,
    {
        let signal: TimeframeSignal = signals[i];
        let closing: bool = match is_closing_timeframe(&signal.timeframe, now, tolerance) {
            Ok(closing) => closing,
            Err(_) => false,
        };
        candidates.push(Candidate { signal, closing });
        i += 1;
    }
    assert(candidates@ =~= candidates_at(signals@, now as int, tolerance));
    decide(&candidates, excluded, notify_always)
}

/// The feature table of one timeframe.
#[derive(Clone, Debug, PartialEq, Eq)]
pub struct TimeframeTable {
    pub timeframe: Timeframe,
    pub features: Features,
}

/// What the last confirmed bars of the tables say, table by table. Excluded
/// timeframes are not read, and a table without a confirmed bar says
/// nothing.
pub open spec fn confirmed_signals(tables: Seq<TimeframeTable>, excluded: Seq<Timeframe>) -> Seq<
    TimeframeSignal,
>
    decreases tables.len(),
{
    if tables.len() == 0 {
        Seq::empty()
    } else {
        let before = confirmed_signals(tables.drop_last(), excluded);
        let table = tables.last();
        let confirmed = table.features.spec_last_confirmed(table.timeframe);
        if !excluded.contains(table.timeframe) && confirmed.is_some() {
            before.push(confirmed.unwrap())
        } else {
            before
        }
    }
}

/// Decides on the notification of one cycle from the feature tables of the
/// timeframes, at the instant `now`, counted in seconds since 1970-01-01
/// 00:00:00 UTC.
///
/// Of each timeframe that is not excluded, the climax signal of the last
/// confirmed bar is read and weighed as `aggregate` weighs it.
pub fn notification_decision(
    tables: &Vec<TimeframeTable>,
    excluded: &Vec<Timeframe>,
    notify_always: bool,
    now: i64,
    tolerance: Option<u64>,
) -> (d: Decision)
    requires
        MIN_TIMESTAMP <= now <= MAX_TIMESTAMP,
        forall|i: int| 0 <= i < tables@.len() ==> (#[trigger] tables@[i]).features.columns_aligned(),
    ensures
        decision_for(
            d,
            candidates_at(confirmed_signals(tables@, excluded@), now as int, tolerance),
            excluded@,
            notify_always,
        ),
{
    let mut signals: Vec<TimeframeSignal> = Vec::new();
    let mut i: usize = 0;
    while i < tables.len()
        invariant
            i <= tables.len(),
            forall|j: int|
                0 <= j < tables@.len() ==> (#[trigger] tables@[j]).features.columns_aligned(),
            signals@ == confirmed_signals(tables@.take(i as int), excluded@),
        decreases tables.len() - i,
    {
        assert(tables@.take(i + 1).drop_last() =~= tables@.take(i as int));
        assert(tables@.take(i + 1).last() == tables@[i as int]);
        if !is_listed(excluded, tables[i].timeframe) {
            match tables[i].features.last_confirmed(tables[i].timeframe) {
                Some(signal) => {
                    signals.push(signal);
                },
                None => {},
            }
        }
        i += 1;
    }
    assert(tables@.take(i as int) =~= tables@);
    aggregate(&signals, excluded, notify_always, now, tolerance)
}

} // verus!
