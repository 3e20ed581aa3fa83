//! Differential tests of the calendar model against chrono: stepping a day
//! at a time, rendering, and weekdays agree over a long run of dates.

use chrono::Datelike;
use workout_log::date::{date_pred, date_succ, Date};
use workout_log::report::{day_of_week_exec, weekday_name};
use workout_log::text::date_string;

fn from_chrono(d: chrono::NaiveDate) -> Date {
    Date { year: d.year(), month: d.month() as u8, day: d.day() as u8 }
}

#[test]
fn successor_and_predecessor_agree_with_chrono() {
    // A century of days crossing leap years and the year-400 rule.
    let mut d = chrono::NaiveDate::from_ymd_opt(1969, 12, 1).unwrap();
    for _ in 0..40000 {
        let next = d.succ_opt().unwrap();
        assert_eq!(date_succ(from_chrono(d)), Some(from_chrono(next)));
        assert_eq!(date_pred(from_chrono(next)), Some(from_chrono(d)));
        d = next;
    }
}

#[test]
fn rendering_and_weekdays_agree_with_chrono() {
    let mut d = chrono::NaiveDate::from_ymd_opt(1999, 12, 25).unwrap();
    for _ in 0..2000 {
        let ours = from_chrono(d);
        assert_eq!(date_string(ours), d.to_string());
        assert_eq!(
            weekday_name(day_of_week_exec(ours)),
            d.format("%A").to_string()
        );
        d = d.succ_opt().unwrap();
    }
}

#[test]
fn century_boundaries_step_correctly() {
    for (y, m, day, ny, nm, nd) in [
        (1899, 12, 31, 1900, 1, 1),
        (1900, 2, 28, 1900, 3, 1),  // 1900 is no leap year
        (2000, 2, 28, 2000, 2, 29), // 2000 is one
        (2000, 2, 29, 2000, 3, 1),
        (2023, 12, 31, 2024, 1, 1),
    ] {
        let a = Date { year: y, month: m, day };
        let b = Date { year: ny, month: nm, day: nd };
        assert_eq!(date_succ(a), Some(b));
        assert_eq!(date_pred(b), Some(a));
    }
}
