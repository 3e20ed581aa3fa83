//! Tests of the rendered reports: formatting, the conversion table, and the
//! least-recently-trained muscle group.

use workout_log::date::{Date, Timestamp};
use workout_log::error::ErrorKind;
use workout_log::model::{Exercise, ExerciseInfo, ExerciseSet, Workout, WorkoutHistory, WorkoutInfo};
use workout_log::report::{kg_table, render_workout, render_workout_csv, render_workout_history};
use workout_log::text::date_string;
use workout_log::groups::MuscleGroup;

fn noon(year: i32, month: u8, day: u8) -> Timestamp {
    Timestamp { date: Date { year, month, day }, secs: 12 * 3600 }
}

fn workout(group: &str, when: Timestamp) -> Workout {
    Workout {
        info: WorkoutInfo { date: when, main_group: group.to_string() },
        exercises: Vec::new(),
    }
}

fn squat_workout() -> Workout {
    Workout {
        info: WorkoutInfo {
            date: Timestamp { date: Date { year: 2023, month: 5, day: 1 }, secs: 10 * 3600 },
            main_group: "legs".to_string(),
        },
        exercises: vec![Exercise {
            info: ExerciseInfo { name: "squat".to_string(), group: "X".to_string() },
            sets: vec![ExerciseSet { weight: 11000, reps: 10 }],
        }],
    }
}

#[test]
fn kg_table_lists_even_weights() {
    let expected = "2kg = 4.40lbs\n\
                    4kg = 8.80lbs\n\
                    6kg = 13.20lbs\n\
                    8kg = 17.60lbs\n\
                    10kg = 22.00lbs\n\
                    12kg = 26.40lbs\n\
                    14kg = 30.80lbs\n\
                    16kg = 35.20lbs\n\
                    18kg = 39.60lbs\n\
                    20kg = 44.00lbs\n";
    assert_eq!(kg_table(), expected);
}

#[test]
fn dates_render_like_chrono() {
    let ours = date_string(Date { year: 2023, month: 5, day: 1 });
    let theirs = chrono::NaiveDate::from_ymd_opt(2023, 5, 1).unwrap().to_string();
    assert_eq!(ours, theirs);
    let ours = date_string(Date { year: 987, month: 12, day: 31 });
    let theirs = chrono::NaiveDate::from_ymd_opt(987, 12, 31).unwrap().to_string();
    assert_eq!(ours, theirs);
}

#[test]
fn workout_renders_with_streak_date_and_weekday() {
    // 2023-05-01 was a Monday; chrono agrees.
    let d = chrono::NaiveDate::from_ymd_opt(2023, 5, 1).unwrap();
    assert_eq!(d.format("%A").to_string(), "Monday");
    let s = render_workout(&squat_workout()).unwrap();
    let expected = "\x1b[1;38;5;208mlegs\x1b[0m workout started on \
                    \x1b[1;32m2023-05-01\x1b[0m \x1b[32m10:00\x1b[0m \
                    (streak date = \x1b[1;33m2023-05-01\x1b[0m (Monday))\n\
                    \x20   squat: 110.00x10; \n";
    assert_eq!(s, expected);
}

#[test]
fn workout_renders_as_csv() {
    let s = render_workout_csv(&squat_workout()).unwrap();
    assert_eq!(s, "legs,2023-05-01\n,,squat,110.00x10; \n");
}

#[test]
fn history_report_guards_the_requested_length() {
    let h = WorkoutHistory { workouts: vec![workout("legs", noon(2023, 5, 1))], ongoing_workout: None };
    let e = render_workout_history(&h, Some(2)).unwrap_err();
    assert_eq!(e.kind, ErrorKind::UserInput);
    let s = render_workout_history(&h, None).unwrap();
    assert!(s.starts_with("No ongoing workout\n======= Complete history =======\n"));
}

#[test]
fn print_command_falls_back_to_full_history_on_a_bad_count() {
    let mut h = WorkoutHistory::new();
    let now = noon(2023, 5, 1);
    let full = h.handle_command(&vec!["print".to_string()], now).unwrap();
    let fallback = h
        .handle_command(&vec!["print".to_string(), "x".to_string()], now)
        .unwrap();
    assert_eq!(full, fallback);
    assert_eq!(full, "No ongoing workout\n======= Complete history =======\n");
}

#[test]
fn csv_command_rejects_a_bad_count() {
    let mut h = WorkoutHistory::new();
    let now = noon(2023, 5, 1);
    let e = h
        .handle_command(&vec!["csv".to_string(), "x".to_string()], now)
        .unwrap_err();
    assert_eq!(e.kind, ErrorKind::UserInput);
    assert_eq!(e.message, "csv: Invalid count");
    let s = h.handle_command(&vec!["csv".to_string()], now).unwrap();
    assert_eq!(s, "Group,Date,Exercise,Sets\n");
}

#[test]
fn print_command_limits_to_the_last_n() {
    let mut h = WorkoutHistory {
        workouts: vec![
            workout("legs", noon(2023, 5, 1)),
            workout("back", noon(2023, 5, 2)),
        ],
        ongoing_workout: None,
    };
    let now = noon(2023, 5, 2);
    let s = h
        .handle_command(&vec!["print".to_string(), "1".to_string()], now)
        .unwrap();
    assert!(s.contains("=========== Last 1 workouts =======\n"));
    assert!(s.contains("back"));
    assert!(!s.contains("legs"));
    let e = h
        .handle_command(&vec!["print".to_string(), "3".to_string()], now)
        .unwrap_err();
    assert_eq!(e.message, "print: Not that many workouts in the history");
}

#[test]
fn least_recent_group_picks_the_stalest_group() {
    // legs three workouts ago, back two ago, legs one ago: back is stalest.
    let h = WorkoutHistory {
        workouts: vec![
            workout("legs", noon(2023, 5, 1)),
            workout("back", noon(2023, 5, 2)),
            workout("legs", noon(2023, 5, 3)),
        ],
        ongoing_workout: None,
    };
    assert_eq!(h.least_recent_group().unwrap(), "back");
}

#[test]
fn least_recent_group_on_empty_history_is_unknown() {
    let h = WorkoutHistory::new();
    assert_eq!(h.least_recent_group().unwrap(), "unknown");
}

#[test]
fn least_recent_command_answers_in_either_state() {
    let mut h = WorkoutHistory {
        workouts: vec![
            workout("legs", noon(2023, 5, 1)),
            workout("back", noon(2023, 5, 2)),
            workout("legs", noon(2023, 5, 3)),
        ],
        ongoing_workout: None,
    };
    let now = noon(2023, 5, 3);
    assert_eq!(
        h.handle_command(&vec!["least-recent".to_string()], now).unwrap(),
        "back"
    );
}

#[test]
fn most_recent_finds_the_newest_workout_of_a_group() {
    let h = WorkoutHistory {
        workouts: vec![
            workout("Legs", noon(2023, 5, 1)),
            workout("Back", noon(2023, 5, 2)),
            workout("Legs", noon(2023, 5, 3)),
        ],
        ongoing_workout: None,
    };
    let w = h._most_recent(MuscleGroup::Legs).unwrap();
    assert_eq!(w.info.date, noon(2023, 5, 3));
    assert!(h._most_recent(MuscleGroup::Abs).is_err());
}
