//! Telling whether an instant lies at the boundary of a candle.
//!
//! Instants are whole seconds since 1970-01-01 00:00:00 UTC, tolerances and
//! periods are whole seconds.

use crate::model::timeframe::Timeframe;
use chrono::DateTime;
use chrono::Datelike;
use vstd::arithmetic::div_mod::lemma_fundamental_div_mod;
use vstd::arithmetic::div_mod::lemma_fundamental_div_mod_converse;
use vstd::arithmetic::div_mod::lemma_mod_bound;
use vstd::prelude::*;
use vstd::string::StringExecFns;

verus! {

/// The seconds of a day.
pub const SECONDS_PER_DAY: u64 = 86_400;

/// The seconds of a week.
pub const SECONDS_PER_WEEK: u64 = 604_800;

/// The earliest instant for which the calendar is consulted.
pub const MIN_TIMESTAMP: i64 = -8_000_000_000_000;

/// The latest instant for which the calendar is consulted.
pub const MAX_TIMESTAMP: i64 = 8_000_000_000_000;

/// The day of the week at an instant, in UTC, counted from Monday as 0 to
/// Sunday as 6: the whole days since 1970-01-01, a Thursday, counted on by
/// three and taken within the week.
pub open spec fn utc_weekday(timestamp: int) -> int {
    (timestamp / 86_400 + 3) % 7
}

/// The day of the month at an instant, in UTC, the first being 1, as chrono's
/// calendar has it.
pub uninterp spec fn utc_day_of_month(timestamp: int) -> int;

/// An instant that the calendar wrappers accept: chrono can represent it and
/// the day after it.
pub open spec fn in_calendar_range(timestamp: int) -> bool {
    MIN_TIMESTAMP <= timestamp <= MAX_TIMESTAMP + SECONDS_PER_DAY
}

/// The seconds that a tolerance allows; none given allows none.
pub open spec fn tolerance_seconds(tolerance: Option<u64>) -> int {
    match tolerance {
        Some(seconds) => seconds as int,
        None => 0,
    }
}

/// `now` lies at most `tolerance` seconds after a multiple of `period`, or at
/// most `tolerance` seconds before the next one. No instant is near a
/// multiple of a zero period.
pub open spec fn near_multiple(period: int, now: int, tolerance: int) -> bool {
    period > 0 && (now % period <= tolerance || period - now % period <= tolerance)
}

/// The length of a timeframe of fixed duration, in seconds.
pub open spec fn period_seconds(tf: Timeframe) -> int {
    tf.spec_weight() as int * 60
}

/// The timeframes whose candles follow the calendar instead of a fixed
/// number of seconds.
pub open spec fn follows_calendar(tf: Timeframe) -> bool {
    tf == Timeframe::W1 || tf == Timeframe::MOS1
}

/// A week runs from Monday 00:00:00 to Sunday 23:59:59. An instant, given by
/// its day counted from Monday and its second within the day, closes a week
/// when it lies within the tolerance after the first second or within the
/// tolerance of the last.
pub open spec fn week_boundary(days_from_monday: int, second_of_day: int, tolerance: int) -> bool {
    let position = days_from_monday * SECONDS_PER_DAY + second_of_day;
    position <= tolerance || position + tolerance >= SECONDS_PER_WEEK - 1
}

/// A month runs from 00:00:00 on its first day to 23:59:59 on its last, the
/// day whose next day is a first. An instant, given by its day of the month,
/// the day of the month one day later and its second within the day, closes a
/// month when it lies within the tolerance after the first second or within
/// the tolerance of the last.
pub open spec fn month_boundary(
    day: int,
    day_after: int,
    second_of_day: int,
    tolerance: int,
) -> bool {
    (day == 1 && second_of_day <= tolerance) || (day_after == 1 && second_of_day + tolerance
        >= SECONDS_PER_DAY - 1)
}

/// A tolerance that a calendar timeframe refuses: a day or more.
pub open spec fn tolerance_too_big(tf: Timeframe, tolerance: int) -> bool {
    follows_calendar(tf) && tolerance >= SECONDS_PER_DAY
}

/// Whether `now` closes a candle of `tf`, for a tolerance that `tf` accepts.
pub open spec fn closes(tf: Timeframe, now: int, tolerance: int) -> bool {
    match tf {
        Timeframe::W1 => week_boundary(utc_weekday(now), now % 86_400, tolerance),
        Timeframe::MOS1 => month_boundary(
            utc_day_of_month(now),
            utc_day_of_month(now + SECONDS_PER_DAY),
            now % 86_400,
            tolerance,
        ),
        _ => near_multiple(period_seconds(tf), now, tolerance),
    }
}

/// The message that refuses a tolerance.
pub open spec fn tolerance_message() -> Seq<char> {
    "Tolerance too big, must be less than a day"@
}

/// `now` lies at most `tolerance` seconds from the multiple `k * period`.
pub open spec fn within_of_multiple(period: int, now: int, tolerance: int, k: int) -> bool {
    -tolerance <= now - k * period <= tolerance
}

/// An instant is near a multiple of a period exactly when some multiple of
/// the period lies within the tolerance of it, before or after.
pub proof fn lemma_near_multiple_is_nearness(period: int, now: int, tolerance: int)
    requires
        period > 0,
        tolerance >= 0,
    ensures
        near_multiple(period, now, tolerance) <==> exists|k: int|
            within_of_multiple(period, now, tolerance, k),
{
    let q = now / period;
    let r = now % period;
    lemma_fundamental_div_mod(now, period);
    lemma_mod_bound(now, period);
    if near_multiple(period, now, tolerance) {
        if r <= tolerance {
            assert(now - q * period == r) by (nonlinear_arith)
                requires
                    now == period * q + r,
            ;
            assert(within_of_multiple(period, now, tolerance, q));
        } else {
            assert(now - (q + 1) * period == r - period) by (nonlinear_arith)
                requires
                    now == period * q + r,
            ;
            assert(within_of_multiple(period, now, tolerance, q + 1));
        }
    }
    if exists|k: int| within_of_multiple(period, now, tolerance, k) {
        let k = choose|k: int| within_of_multiple(period, now, tolerance, k);
        let e = now - k * period;
        if tolerance < period {
            if e >= 0 {
                assert(now == k * period + e) by (nonlinear_arith)
                    requires
                        e == now - k * period,
                ;
                lemma_fundamental_div_mod_converse(now, period, k, e);
            } else {
                assert(now == (k - 1) * period + (period + e)) by (nonlinear_arith)
                    requires
                        e == now - k * period,
                ;
                lemma_fundamental_div_mod_converse(now, period, k - 1, period + e);
            }
        }
    }
}

/// An instant of a week closes the week exactly when it lies within the
/// tolerance of a Monday 00:00:00, the one that opens its week or the next
/// one, or of a Sunday 23:59:59, the one that ends its week or the one
/// before.
pub proof fn lemma_week_boundary_is_nearness(
    days_from_monday: int,
    second_of_day: int,
    tolerance: int,
)
    requires
        0 <= days_from_monday < 7,
        0 <= second_of_day < SECONDS_PER_DAY,
        0 <= tolerance,
    ensures
        week_boundary(days_from_monday, second_of_day, tolerance) <==> ({
            let position = days_from_monday * SECONDS_PER_DAY + second_of_day;
            ||| position <= tolerance
            ||| SECONDS_PER_WEEK - position <= tolerance
            ||| SECONDS_PER_WEEK - 1 - position <= tolerance
            ||| position + 1 <= tolerance
        }),
{
}

/// The second within its week at which an instant lies, the week counted
/// from Monday 00:00:00: the instant, moved on by the three days from
/// Monday to Thursday, within the week.
pub proof fn lemma_week_position(now: int)
    ensures
        utc_weekday(now) * SECONDS_PER_DAY + now % 86_400 == (now + 3 * SECONDS_PER_DAY)
            % (SECONDS_PER_WEEK as int),
        0 <= utc_weekday(now) < 7,
{
    let d = now / 86_400;
    let r = now % 86_400;
    let q = (d + 3) / 7;
    let w = (d + 3) % 7;
    lemma_fundamental_div_mod(now, 86_400);
    lemma_mod_bound(now, 86_400);
    lemma_fundamental_div_mod(d + 3, 7);
    lemma_mod_bound(d + 3, 7);
    assert(now + 259_200 == q * 604_800 + (w * 86_400 + r)) by (nonlinear_arith)
        requires
            now == 86_400 * d + r,
            d + 3 == 7 * q + w,
    ;
    lemma_fundamental_div_mod_converse(now + 259_200, 604_800, q, w * 86_400 + r);
}

/// A week closes at an instant exactly when the instant, moved on by three
/// days, lies within the tolerance after a multiple of a week or within the
/// tolerance of the second before the next one.
pub proof fn lemma_week_closes(now: int, tolerance: int)
    ensures
        closes(Timeframe::W1, now, tolerance) <==> ({
            let position = (now + 3 * SECONDS_PER_DAY) % (SECONDS_PER_WEEK as int);
            position <= tolerance || position + tolerance >= SECONDS_PER_WEEK - 1
        }),
{
    lemma_week_position(now);
}

/// Under a tolerance of less than a day, an instant closes a month exactly
/// when it lies on the first day within the tolerance after 00:00:00 or
/// after the 23:59:59 before it, or on the last day within the tolerance
/// before 23:59:59 or before the 00:00:00 after it.
pub proof fn lemma_month_boundary_is_nearness(
    day: int,
    day_after: int,
    second_of_day: int,
    tolerance: int,
)
    requires
        0 <= second_of_day < SECONDS_PER_DAY,
        0 <= tolerance < SECONDS_PER_DAY,
    ensures
        month_boundary(day, day_after, second_of_day, tolerance) <==> ({
            ||| day == 1 && second_of_day <= tolerance
            ||| day == 1 && second_of_day + 1 <= tolerance
            ||| day_after == 1 && SECONDS_PER_DAY - 1 - second_of_day <= tolerance
            ||| day_after == 1 && SECONDS_PER_DAY - second_of_day <= tolerance
        }),
{
}

/// A timeframe of fixed duration closes at every multiple of its duration,
/// whatever the tolerance.
pub proof fn lemma_closes_at_multiples(tf: Timeframe, k: int, tolerance: int)
    requires
        !follows_calendar(tf),
        0 <= tolerance,
    ensures
        closes(tf, k * period_seconds(tf), tolerance),
{
    let period = period_seconds(tf);
    lemma_near_multiple_is_nearness(period, k * period, tolerance);
    assert(within_of_multiple(period, k * period, tolerance, k));
}

/// Calls `chrono::DateTime::from_timestamp` and reads `weekday()` of the
/// result as `num_days_from_monday()`. Believed: the number is the weekday of
/// that instant in UTC, which is the weekday of 1970-01-01, a Thursday, moved
/// on by the whole days since then. Instants that chrono cannot represent are
/// left out.
#[verifier::external_body]
fn weekday_from_monday(timestamp: i64) -> (w: u32)
    requires
        in_calendar_range(timestamp as int),
    ensures
        w == utc_weekday(timestamp as int),
        w < 7,
{
    DateTime::from_timestamp(timestamp, 0).unwrap().weekday().num_days_from_monday()
}

/// Calls `chrono::DateTime::from_timestamp` and reads `day()` of the result.
/// Believed: the number is the day of the month of that instant in UTC, and
/// lies between 1 and 31. Instants that chrono cannot represent are left out.
#[verifier::external_body]
fn day_of_month(timestamp: i64) -> (d: u32)
    requires
        in_calendar_range(timestamp as int),
    ensures
        d == utc_day_of_month(timestamp as int),
        1 <= d <= 31,
{
    DateTime::from_timestamp(timestamp, 0).unwrap().day()
}

/// The second within its UTC day at which an instant lies.
pub fn second_of_day(now: i64) -> (s: u64)
    ensures
        s == now as int % 86_400,
        s < SECONDS_PER_DAY,
{
    match now.checked_rem_euclid(86_400) {
        Some(r) => r as u64,
        None => 0,
    }
}

/// Check if the time now is a multiple of the period, within an optional
/// tolerance before or after it.
pub fn is_time_multiple_of_period(period: u64, now: i64, tolerance: Option<u64>) -> (r: bool)
    ensures
        r == near_multiple(period as int, now as int, tolerance_seconds(tolerance)),
{
    let tolerance_seconds: u64 = match tolerance {
        Some(seconds) => seconds,
        None => 0,
    };
    if period == 0 {
        return false;
    }
    let remainder: u64 = match (now as i128).checked_rem_euclid(period as i128) {
        Some(r) => r as u64,
        None => 0,
    };
    remainder <= tolerance_seconds || period - remainder <= tolerance_seconds
}

/// Whether an instant of a week, given by its day counted from Monday and
/// its second within the day, closes the week.
pub fn closes_week(days_from_monday: u32, second_of_day: u64, tolerance: u64) -> (r: bool)
    requires
        days_from_monday < 7,
        second_of_day < SECONDS_PER_DAY,
    ensures
        r == week_boundary(days_from_monday as int, second_of_day as int, tolerance as int),
{
    let position: u64 = days_from_monday as u64 * SECONDS_PER_DAY + second_of_day;
    position <= tolerance || tolerance >= SECONDS_PER_WEEK - 1 - position
}

/// Whether an instant of a month, given by its day of the month, the day of
/// the month one day later and its second within the day, closes the month.
pub fn closes_month(day: u32, day_after: u32, second_of_day: u64, tolerance: u64) -> (r: bool)
    requires
        second_of_day < SECONDS_PER_DAY,
    ensures
        r == month_boundary(
            day as int,
            day_after as int,
            second_of_day as int,
            tolerance as int,
        ),
{
    (day == 1 && second_of_day <= tolerance) || (day_after == 1 && tolerance >= SECONDS_PER_DAY - 1
        - second_of_day)
}

/// Check if the time now is the closing time of a timeframe, within an
/// optional tolerance.
///
/// A timeframe of fixed duration closes at the multiples of its duration. A
/// week and a month close at their first and last second, and accept only a
/// tolerance of less than a day. For a week and a month the instant has to
/// lie between `MIN_TIMESTAMP` and `MAX_TIMESTAMP`.
pub fn is_closing_timeframe(tf: &Timeframe, now: i64, tolerance: Option<u64>) -> (r: Result<
    bool,
    String,
>)
    requires
        follows_calendar(*tf) ==> MIN_TIMESTAMP <= now <= MAX_TIMESTAMP,
    ensures
        match r {
            Ok(closing) => !tolerance_too_big(*tf, tolerance_seconds(tolerance)) && closing
                == closes(*tf, now as int, tolerance_seconds(tolerance)),
            Err(message) => tolerance_too_big(*tf, tolerance_seconds(tolerance)) && message@
                == tolerance_message(),
        },
{
    let tolerance_seconds: u64 = match tolerance {
        Some(seconds) => seconds,
        None => 0,
    };
    match tf {
        Timeframe::W1 => {
            if tolerance_seconds >= SECONDS_PER_DAY {
                Err(String::from_str("Tolerance too big, must be less than a day"))
            } else {
                Ok(closes_week(weekday_from_monday(now), second_of_day(now), tolerance_seconds))
            }
        },
        Timeframe::MOS1 => {
            if tolerance_seconds >= SECONDS_PER_DAY {
                Err(String::from_str("Tolerance too big, must be less than a day"))
            } else {
                Ok(
                    closes_month(
                        day_of_month(now),
                        day_of_month(now + 86_400),
                        second_of_day(now),
                        tolerance_seconds,
                    ),
                )
            }
        },
        _ => {
            let minutes: u64 = tf.weight() as u64;
            Ok(is_time_multiple_of_period(minutes * 60, now, tolerance))
        },
    }
}

} // verus!
