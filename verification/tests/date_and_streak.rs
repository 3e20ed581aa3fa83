//! Tests of the streak-date normalizer and the streak counter.

use workout_log::date::{cutoff_time, streak_date, tomorrow, Date, Timestamp, YEAR_MIN};
use workout_log::error::ErrorKind;
use workout_log::model::{Workout, WorkoutHistory, WorkoutInfo};

fn d(year: i32, month: u8, day: u8) -> Date {
    Date { year, month, day }
}

fn ts(year: i32, month: u8, day: u8, secs: u32) -> Timestamp {
    Timestamp { date: d(year, month, day), secs }
}

fn workout(group: &str, when: Timestamp) -> Workout {
    Workout {
        info: WorkoutInfo { date: when, main_group: group.to_string() },
        exercises: Vec::new(),
    }
}

fn history(dates: &[Timestamp]) -> WorkoutHistory {
    WorkoutHistory {
        workouts: dates.iter().map(|t| workout("legs", *t)).collect(),
        ongoing_workout: None,
    }
}

#[test]
fn cutoff_is_three_three_three() {
    assert_eq!(cutoff_time(), 3 * 3600 + 3 * 60 + 3);
}

#[test]
fn streak_date_before_cutoff_is_previous_day() {
    let r = streak_date(ts(2023, 5, 2, 3 * 3600 + 3 * 60 + 2)).unwrap();
    assert_eq!(r, d(2023, 5, 1));
}

#[test]
fn streak_date_at_cutoff_is_same_day() {
    let r = streak_date(ts(2023, 5, 2, 3 * 3600 + 3 * 60 + 3)).unwrap();
    assert_eq!(r, d(2023, 5, 2));
}

#[test]
fn streak_date_crosses_month_and_leap_years() {
    assert_eq!(streak_date(ts(2024, 3, 1, 0)).unwrap(), d(2024, 2, 29));
    assert_eq!(streak_date(ts(2023, 3, 1, 0)).unwrap(), d(2023, 2, 28));
    assert_eq!(streak_date(ts(2023, 1, 1, 0)).unwrap(), d(2022, 12, 31));
}

#[test]
fn streak_date_underflow_is_a_computation_error() {
    let e = streak_date(ts(YEAR_MIN, 1, 1, 0)).unwrap_err();
    assert_eq!(e.kind, ErrorKind::Computation);
}

#[test]
fn tomorrow_is_streak_date_plus_one() {
    assert_eq!(tomorrow(ts(2023, 5, 2, 40000)).unwrap(), d(2023, 5, 3));
    // Before the cutoff the streak date is the 1st, so tomorrow is the 2nd.
    assert_eq!(tomorrow(ts(2023, 5, 2, 100)).unwrap(), d(2023, 5, 2));
}

#[test]
fn streak_on_empty_history_is_zero() {
    let h = history(&[]);
    assert_eq!(h.streak(d(2023, 5, 3)).unwrap(), 0);
}

#[test]
fn streak_three_consecutive_days_is_three() {
    // Oldest first: D-2, D-1, D; scanned from D+1.
    let h = history(&[
        ts(2023, 4, 30, 40000),
        ts(2023, 5, 1, 40000),
        ts(2023, 5, 2, 40000),
    ]);
    assert_eq!(h.streak(d(2023, 5, 3)).unwrap(), 3);
}

#[test]
fn streak_out_of_order_is_a_data_integrity_error() {
    // The later-stored workout has the earlier logical date.
    let h = history(&[ts(2023, 5, 2, 40000), ts(2023, 5, 1, 40000)]);
    let e = h.streak(d(2023, 5, 3)).unwrap_err();
    assert_eq!(e.kind, ErrorKind::DataIntegrity);
    assert_eq!(
        e.message,
        "Workouts are out of order, cannot reliably calculate streak"
    );
}

#[test]
fn streak_same_day_counts_once() {
    let h = history(&[ts(2023, 5, 2, 40000), ts(2023, 5, 2, 50000)]);
    assert_eq!(h.streak(d(2023, 5, 3)).unwrap(), 1);
}

#[test]
fn streak_gap_before_first_counted_day_is_tolerated() {
    // Nothing logged today or yesterday: the scan continues past the first
    // gap, and only the step between the two consecutive days counts.
    let h = history(&[ts(2023, 4, 28, 40000), ts(2023, 4, 29, 40000)]);
    assert_eq!(h.streak(d(2023, 5, 3)).unwrap(), 1);
}

#[test]
fn streak_gap_after_counted_days_ends_the_streak() {
    // D-5, then D-1 and D: the streak ends at the gap with 2.
    let h = history(&[
        ts(2023, 4, 27, 40000),
        ts(2023, 5, 1, 40000),
        ts(2023, 5, 2, 40000),
    ]);
    assert_eq!(h.streak(d(2023, 5, 3)).unwrap(), 2);
}

#[test]
fn streak_propagates_an_unrepresentable_streak_date() {
    // A workout before the cutoff on the first representable date has no
    // streak date.
    let h = history(&[ts(YEAR_MIN, 1, 1, 0)]);
    let e = h.streak(d(2023, 5, 3)).unwrap_err();
    assert_eq!(e.kind, ErrorKind::Computation);
}

#[test]
fn tomorrow_overflow_is_a_computation_error() {
    let e = tomorrow(ts(workout_log::date::YEAR_MAX, 12, 31, 40000)).unwrap_err();
    assert_eq!(e.kind, ErrorKind::Computation);
}

#[test]
fn streak_early_morning_workout_counts_to_previous_day() {
    // A workout at 01:00 on the 2nd counts toward the 1st.
    let h = history(&[ts(2023, 5, 1, 40000), ts(2023, 5, 2, 3600)]);
    assert_eq!(h.streak(d(2023, 5, 2)).unwrap(), 1);
}
