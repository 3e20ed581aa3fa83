//! Civil dates, timestamps, and the streak-date normalizer.
//!
//! A timestamp is a civil calendar date in the user's local calendar together
//! with a time of day in seconds.  The streak-date rule attributes a workout
//! finished strictly before the early-morning cutoff (03:03:03) to the
//! previous calendar day, so that a workout logged just after midnight still
//! counts as the evening before.

use vstd::prelude::*;
use vstd::arithmetic::div_mod::lemma_mod_multiples_vanish;
use crate::error::AppError;

verus! {

/// First calendar year the library represents.
pub const YEAR_MIN: i32 = -262143;

/// Last calendar year the library represents.
pub const YEAR_MAX: i32 = 262142;

/// Time of day (seconds since midnight) before which a workout counts
/// toward the previous calendar day: 03:03:03.
pub const CUTOFF_SECS: u32 = 3 * 3600 + 3 * 60 + 3;

/// A civil calendar date.
#[derive(Clone, Copy, Debug, PartialEq, Eq, Structural)]
pub struct Date {
    pub year: i32,
    pub month: u8,
    pub day: u8,
}

/// A civil date with a time of day, in the user's local calendar.
#[derive(Clone, Copy, Debug, PartialEq, Eq, Structural)]
pub struct Timestamp {
    pub date: Date,
    /// Seconds since midnight, below 86400.
    pub secs: u32,
}

pub open spec fn is_leap_year(y: int) -> bool {
    (y % 4 == 0 && y % 100 != 0) || y % 400 == 0
}

pub open spec fn days_in_month(y: int, m: int) -> int {
    if m == 2 {
        if is_leap_year(y) {
            29
        } else {
            28
        }
    } else if m == 4 || m == 6 || m == 9 || m == 11 {
        30
    } else {
        31
    }
}

pub open spec fn valid_date(d: Date) -> bool {
    &&& YEAR_MIN <= d.year <= YEAR_MAX
    &&& 1 <= d.month <= 12
    &&& 1 <= d.day <= days_in_month(d.year as int, d.month as int)
}

pub open spec fn valid_timestamp(t: Timestamp) -> bool {
    &&& valid_date(t.date)
    &&& t.secs < 86400
}

/// Strict "earlier than" on dates: lexicographic on year, month, day.
pub open spec fn date_lt(a: Date, b: Date) -> bool {
    ||| a.year < b.year
    ||| (a.year == b.year && a.month < b.month)
    ||| (a.year == b.year && a.month == b.month && a.day < b.day)
}

pub open spec fn date_le(a: Date, b: Date) -> bool {
    date_lt(a, b) || a == b
}

/// The calendar day before `d`, or `None` when `d` is the first
/// representable date.
pub open spec fn pred_date(d: Date) -> Option<Date> {
    if d.day > 1 {
        Some(Date { year: d.year, month: d.month, day: (d.day - 1) as u8 })
    } else if d.month > 1 {
        Some(
            Date {
                year: d.year,
                month: (d.month - 1) as u8,
                day: days_in_month(d.year as int, d.month - 1) as u8,
            },
        )
    } else if d.year > YEAR_MIN {
        Some(Date { year: (d.year - 1) as i32, month: 12, day: 31 })
    } else {
        None
    }
}

/// The calendar day after `d`, or `None` when `d` is the last
/// representable date.
pub open spec fn succ_date(d: Date) -> Option<Date> {
    if d.day < days_in_month(d.year as int, d.month as int) {
        Some(Date { year: d.year, month: d.month, day: (d.day + 1) as u8 })
    } else if d.month < 12 {
        Some(Date { year: d.year, month: (d.month + 1) as u8, day: 1 })
    } else if d.year < YEAR_MAX {
        Some(Date { year: (d.year + 1) as i32, month: 1, day: 1 })
    } else {
        None
    }
}

/// The logical day a timestamp counts toward for streak purposes:
/// the previous day when the time of day is strictly before the cutoff,
/// the timestamp's own day otherwise.
pub open spec fn streak_date_spec(t: Timestamp) -> Option<Date> {
    if t.secs < CUTOFF_SECS {
        pred_date(t.date)
    } else {
        Some(t.date)
    }
}

/// The default starting point of a streak scan: the streak date of `now`,
/// plus one day.
pub open spec fn tomorrow_spec(now: Timestamp) -> Option<Date> {
    match streak_date_spec(now) {
        Some(d) => succ_date(d),
        None => None,
    }
}

fn is_leap_year_exec(y: i32) -> (r: bool)
    requires
        YEAR_MIN <= y <= YEAR_MAX,
    ensures
        r == is_leap_year(y as int),
{
    // Shifted by a multiple of 400 years so the operands stay nonnegative;
    // leap years repeat every 400 years.
    let ys: i64 = (y as i64) + 400000;
    proof {
        lemma_mod_multiples_vanish(100000, y as int, 4);
        lemma_mod_multiples_vanish(4000, y as int, 100);
        lemma_mod_multiples_vanish(1000, y as int, 400);
    }
    (ys % 4 == 0 && ys % 100 != 0) || ys % 400 == 0
}

pub fn days_in_month_exec(y: i32, m: u8) -> (n: u8)
    requires
        YEAR_MIN <= y <= YEAR_MAX,
        1 <= m <= 12,
    ensures
        n == days_in_month(y as int, m as int),
{
    if m == 2 {
        if is_leap_year_exec(y) {
            29
        } else {
            28
        }
    } else if m == 4 || m == 6 || m == 9 || m == 11 {
        30
    } else {
        31
    }
}

/// Whether `a` is strictly earlier than `b`.
pub fn date_before(a: Date, b: Date) -> (r: bool)
    ensures
        r == date_lt(a, b),
{
    a.year < b.year || (a.year == b.year && (a.month < b.month || (a.month == b.month && a.day
        < b.day)))
}

/// The calendar day before `d`, or `None` at the lower end of the range.
pub fn date_pred(d: Date) -> (r: Option<Date>)
    requires
        valid_date(d),
    ensures
        r == pred_date(d),
{
    if d.day > 1 {
        Some(Date { year: d.year, month: d.month, day: d.day - 1 })
    } else if d.month > 1 {
        Some(Date { year: d.year, month: d.month - 1, day: days_in_month_exec(d.year, d.month - 1) })
    } else if d.year > YEAR_MIN {
        Some(Date { year: d.year - 1, month: 12, day: 31 })
    } else {
        None
    }
}

/// The calendar day after `d`, or `None` at the upper end of the range.
pub fn date_succ(d: Date) -> (r: Option<Date>)
    requires
        valid_date(d),
    ensures
        r == succ_date(d),
{
    if d.day < days_in_month_exec(d.year, d.month) {
        Some(Date { year: d.year, month: d.month, day: d.day + 1 })
    } else if d.month < 12 {
        Some(Date { year: d.year, month: d.month + 1, day: 1 })
    } else if d.year < YEAR_MAX {
        Some(Date { year: d.year + 1, month: 1, day: 1 })
    } else {
        None
    }
}

/// The predecessor of a valid date is valid and strictly earlier.
pub proof fn lemma_pred_date_valid(d: Date)
    requires
        valid_date(d),
        pred_date(d) is Some,
    ensures
        valid_date(pred_date(d)->Some_0),
        date_lt(pred_date(d)->Some_0, d),
{
}

/// The successor of a valid date is valid and strictly later.
pub proof fn lemma_succ_date_valid(d: Date)
    requires
        valid_date(d),
        succ_date(d) is Some,
    ensures
        valid_date(succ_date(d)->Some_0),
        date_lt(d, succ_date(d)->Some_0),
{
}

/// Taking the day after a date and then the day before leads back to the
/// same date, and the other way round.
pub proof fn lemma_pred_succ_inverse(d: Date)
    requires
        valid_date(d),
    ensures
        succ_date(d) matches Some(s) ==> pred_date(s) == Some(d),
        pred_date(d) matches Some(p) ==> succ_date(p) == Some(d),
{
}

/// `pred_date` is the immediate predecessor: no valid date lies strictly
/// between a date and the day before it.
pub proof fn lemma_pred_date_adjacent(d: Date, e: Date)
    requires
        valid_date(d),
        valid_date(e),
        pred_date(d) is Some,
        date_lt(e, d),
    ensures
        date_le(e, pred_date(d)->Some_0),
{
}

/// The streak-date rule, stated whole: a timestamp strictly before the
/// cutoff counts toward the day before its own date, and any other
/// timestamp counts toward its own date.
pub proof fn lemma_streak_date_rule(t: Timestamp)
    ensures
        t.secs < CUTOFF_SECS ==> streak_date_spec(t) == pred_date(t.date),
        t.secs >= CUTOFF_SECS ==> streak_date_spec(t) == Some(t.date),
{
}

/// The cutoff time of day, in seconds since midnight.
pub fn cutoff_time() -> (s: u32)
    ensures
        s == CUTOFF_SECS,
{
    CUTOFF_SECS
}

/// The logical day `t` counts toward for streak purposes.
///
/// Fails with a computation error only when the date arithmetic would leave
/// the representable calendar range.
pub fn streak_date(t: Timestamp) -> (r: Result<Date, AppError>)
    requires
        valid_timestamp(t),
    ensures
        r matches Ok(d) ==> streak_date_spec(t) == Some(d) && valid_date(d),
        r matches Err(e) ==> streak_date_spec(t) is None && e.kind is Computation,
{
    if t.secs < cutoff_time() {
        match date_pred(t.date) {
            Some(d) => {
                proof {
                    lemma_pred_date_valid(t.date);
                }
                Ok(d)
            },
            None => Err(AppError::computation("Could not subtract one day when computing streak date")),
        }
    } else {
        Ok(t.date)
    }
}

/// The streak date of `now`, plus one day: the default starting point for
/// streak scans, so that a workout already logged "today" is included.
pub fn tomorrow(now: Timestamp) -> (r: Result<Date, AppError>)
    requires
        valid_timestamp(now),
    ensures
        r matches Ok(d) ==> tomorrow_spec(now) == Some(d) && valid_date(d),
        r matches Err(e) ==> tomorrow_spec(now) is None && e.kind is Computation,
{
    let sd = streak_date(now)?;
    match date_succ(sd) {
        Some(d) => {
            proof {
                lemma_succ_date_valid(sd);
            }
            Ok(d)
        },
        None => Err(AppError::computation("Could not add one day to the current streak date")),
    }
}

} // verus!
