//! The streak counter: a single-pass scan over the workout history in
//! reverse chronological order, counting consecutive logical days with at
//! least one workout.

use vstd::prelude::*;
use vstd::seq_lib::*;
use crate::date::Date;
use crate::date::Timestamp;
use crate::date::valid_date;
use crate::date::date_lt;
use crate::date::pred_date;
use crate::date::succ_date;
use crate::date::streak_date_spec;
use crate::date::streak_date;
use crate::date::date_before;
use crate::date::date_pred;
use crate::date::lemma_pred_date_valid;
use crate::date::lemma_succ_date_valid;
use crate::date::lemma_pred_succ_inverse;
use crate::error::AppError;
use crate::model::Workout;
use crate::model::WorkoutHistory;
use crate::model::wf_history;

verus! {

/// The outcome of a streak scan.
pub enum ScanOutcome {
    /// The scan ran to its end, or stopped at a gap: so many consecutive
    /// logical days were counted.
    Count(int),
    /// A workout's logical date lies after the running cursor: the stored
    /// sequence is not in non-decreasing date order.
    OutOfOrder,
    /// A streak date left the representable calendar range.
    DateRange,
}

/// One step per workout, newest first.  `prev` is the running cursor,
/// `first` whether no workout has been visited yet, `acc` the count so far.
///
/// A workout on the same logical day as the cursor neither counts nor moves
/// the cursor; one on the day before the cursor counts one day; a gap of two
/// or more days ends the scan, except ahead of the first visited workout,
/// where it only moves the cursor (a day without a workout yet does not
/// break yesterday's streak).
pub open spec fn streak_scan(dates: Seq<Timestamp>, prev: Date, first: bool, acc: int) -> ScanOutcome
    decreases dates.len(),
{
    if dates.len() == 0 {
        ScanOutcome::Count(acc)
    } else {
        match streak_date_spec(dates[0]) {
            None => ScanOutcome::DateRange,
            Some(cur) => if date_lt(prev, cur) {
                ScanOutcome::OutOfOrder
            } else if cur == prev {
                streak_scan(dates.drop_first(), prev, first, acc)
            } else if pred_date(prev) == Some(cur) {
                streak_scan(dates.drop_first(), cur, false, acc + 1)
            } else if first {
                streak_scan(dates.drop_first(), cur, false, acc)
            } else {
                ScanOutcome::Count(acc)
            },
        }
    }
}

/// The start times of the completed workouts, newest first.
pub open spec fn history_dates_rev(h: WorkoutHistory) -> Seq<Timestamp> {
    h.workouts@.map_values(|w: Workout| w.info.date).reverse()
}

impl WorkoutHistory {
    /// The current consecutive-day streak, scanning the completed workouts
    /// newest first and walking backward from `start_date`.
    ///
    /// Fails with a data-integrity error when the stored sequence is out of
    /// order, and with a computation error when a streak date cannot be
    /// represented; the history itself is never modified.
    pub fn streak(&self, start_date: Date) -> (r: Result<i32, AppError>)
        requires
            wf_history(*self),
            valid_date(start_date),
            self.workouts@.len() <= i32::MAX,
        ensures
            match streak_scan(history_dates_rev(*self), start_date, true, 0) {
                ScanOutcome::Count(c) => r matches Ok(n) && n == c && c >= 0,
                ScanOutcome::OutOfOrder => r matches Err(e) && e.kind is DataIntegrity
                    && e.message@ == "Workouts are out of order, cannot reliably calculate streak"@,
                ScanOutcome::DateRange => r matches Err(e) && e.kind is Computation,
            },
    {
        let ghost full = history_dates_rev(*self);
        let len = self.workouts.len();
        let mut n: i32 = 0;
        let mut prev = start_date;
        let mut first = true;
        let mut k: usize = 0;
        proof {
            assert(full.skip(0) =~= full);
        }
        while k < len
            invariant
                wf_history(*self),
                valid_date(prev),
                len == self.workouts@.len(),
                len <= i32::MAX,
                k <= len,
                0 <= n <= k,
                full == history_dates_rev(*self),
                full.len() == len,
                streak_scan(full, start_date, true, 0) == streak_scan(
                    full.skip(k as int),
                    prev,
                    first,
                    n as int,
                ),
            decreases len - k,
        {
            let w = &self.workouts[len - 1 - k];
            proof {
                assert(full[k as int] == w.info.date);
                assert(full.skip(k as int)[0] == full[k as int]);
                assert(full.skip(k as int).drop_first() =~= full.skip(k as int + 1));
            }
            let cur = match streak_date(w.info.date) {
                Ok(d) => d,
                Err(e) => {
                    return Err(e);
                },
            };
            if date_before(prev, cur) {
                return Err(
                    AppError::data_integrity(
                        "Workouts are out of order, cannot reliably calculate streak",
                    ),
                );
            } else if cur == prev {
                // Same logical day as the cursor: nothing changes.
            } else {
                let p = date_pred(prev);
                let counted = match p {
                    Some(pd) => pd == cur,
                    None => false,
                };
                if counted {
                    proof {
                        lemma_pred_date_valid(prev);
                    }
                    n = n + 1;
                    prev = cur;
                    first = false;
                } else {
                    if first {
                        prev = cur;
                        first = false;
                    } else {
                        return Ok(n);
                    }
                }
            }
            k = k + 1;
        }
        proof {
            assert(full.skip(len as int) =~= Seq::<Timestamp>::empty());
        }
        Ok(n)
    }
}

/// An empty history always yields a streak of zero.
pub proof fn lemma_streak_empty(start: Date)
    ensures
        streak_scan(Seq::<Timestamp>::empty(), start, true, 0) == ScanOutcome::Count(0),
{
}

/// Workouts on three consecutive logical days `d`, `d - 1`, `d - 2`
/// (newest first), scanned from the day after `d`, count a streak of three.
pub proof fn lemma_streak_three_consecutive(
    t0: Timestamp,
    t1: Timestamp,
    t2: Timestamp,
    d0: Date,
    d1: Date,
    d2: Date,
    start: Date,
)
    requires
        valid_date(d0),
        streak_date_spec(t0) == Some(d0),
        streak_date_spec(t1) == Some(d1),
        streak_date_spec(t2) == Some(d2),
        succ_date(d0) == Some(start),
        pred_date(d0) == Some(d1),
        pred_date(d1) == Some(d2),
    ensures
        streak_scan(seq![t0, t1, t2], start, true, 0) == ScanOutcome::Count(3),
{
    lemma_succ_date_valid(d0);
    lemma_pred_succ_inverse(d0);
    lemma_pred_date_valid(d0);
    lemma_pred_date_valid(d1);
    let s0 = seq![t0, t1, t2];
    let s1 = seq![t1, t2];
    let s2 = seq![t2];
    assert(s0.drop_first() =~= s1);
    assert(s1.drop_first() =~= s2);
    assert(s2.drop_first() =~= Seq::<Timestamp>::empty());
    assert(streak_scan(s0, start, true, 0) == streak_scan(s1, d0, false, 1));
    assert(streak_scan(s1, d0, false, 1) == streak_scan(s2, d1, false, 2));
    assert(streak_scan(s2, d1, false, 2) == streak_scan(
        Seq::<Timestamp>::empty(),
        d2,
        false,
        3,
    ));
}

/// A workout whose logical date lies after that of a workout stored later
/// in the sequence makes the scan fail with an ordering error rather than
/// return a count.
pub proof fn lemma_streak_out_of_order(
    t_new: Timestamp,
    t_old: Timestamp,
    d_new: Date,
    d_old: Date,
    start: Date,
)
    requires
        valid_date(d_new),
        streak_date_spec(t_new) == Some(d_new),
        streak_date_spec(t_old) == Some(d_old),
        succ_date(d_new) == Some(start),
        date_lt(d_new, d_old),
    ensures
        streak_scan(seq![t_new, t_old], start, true, 0) == ScanOutcome::OutOfOrder,
{
    lemma_succ_date_valid(d_new);
    lemma_pred_succ_inverse(d_new);
    let s0 = seq![t_new, t_old];
    let s1 = seq![t_old];
    assert(s0.drop_first() =~= s1);
    assert(streak_scan(s0, start, true, 0) == streak_scan(s1, d_new, false, 1));
}

/// Two workouts on the same logical day add only one day to the streak.
pub proof fn lemma_streak_same_day(ta: Timestamp, tb: Timestamp, d: Date, start: Date)
    requires
        valid_date(d),
        streak_date_spec(ta) == Some(d),
        streak_date_spec(tb) == Some(d),
        succ_date(d) == Some(start),
    ensures
        streak_scan(seq![ta, tb], start, true, 0) == ScanOutcome::Count(1),
{
    lemma_succ_date_valid(d);
    lemma_pred_succ_inverse(d);
    let s0 = seq![ta, tb];
    let s1 = seq![tb];
    assert(s0.drop_first() =~= s1);
    assert(s1.drop_first() =~= Seq::<Timestamp>::empty());
    assert(streak_scan(s0, start, true, 0) == streak_scan(s1, d, false, 1));
    assert(streak_scan(s1, d, false, 1) == streak_scan(Seq::<Timestamp>::empty(), d, false, 1));
}

} // verus!
