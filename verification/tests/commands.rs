//! Tests of the command dispatcher: the Idle/Active state machine, argument
//! handling, and the error messages the user sees.

use workout_log::date::{Date, Timestamp};
use workout_log::error::ErrorKind;
use workout_log::model::WorkoutHistory;

fn noon(year: i32, month: u8, day: u8) -> Timestamp {
    Timestamp { date: Date { year, month, day }, secs: 12 * 3600 }
}

fn args(words: &[&str]) -> Vec<String> {
    words.iter().map(|w| w.to_string()).collect()
}

#[test]
fn empty_command_line_is_rejected() {
    let mut h = WorkoutHistory::new();
    let e = h.handle_command(&args(&[]), noon(2023, 5, 1)).unwrap_err();
    assert_eq!(e.kind, ErrorKind::UserInput);
    assert_eq!(e.message, "Function requires at least a command");
}

#[test]
fn unknown_command_is_named() {
    let mut h = WorkoutHistory::new();
    let e = h.handle_command(&args(&["fly"]), noon(2023, 5, 1)).unwrap_err();
    assert_eq!(e.kind, ErrorKind::UserInput);
    assert_eq!(e.message, "fly: no such command");
}

#[test]
fn streak_status_is_not_implemented() {
    let mut h = WorkoutHistory::new();
    let e = h
        .handle_command(&args(&["streak-status"]), noon(2023, 5, 1))
        .unwrap_err();
    assert_eq!(e.message, "streak-status: streak-status: NOT IMPLEMENTED");
}

#[test]
fn begin_exercise_without_workout_is_a_state_error() {
    let mut h = WorkoutHistory::new();
    let e = h
        .handle_command(&args(&["begin-exercise", "squat"]), noon(2023, 5, 1))
        .unwrap_err();
    assert_eq!(e.kind, ErrorKind::State);
    assert_eq!(e.message, "begin-exercise: No ongoing workout");
}

#[test]
fn enter_set_without_workout_is_a_state_error() {
    let mut h = WorkoutHistory::new();
    let e = h
        .handle_command(&args(&["enter-set", "50", "10"]), noon(2023, 5, 1))
        .unwrap_err();
    assert_eq!(e.kind, ErrorKind::State);
    assert_eq!(e.message, "enter-set: No ongoing workout");
}

#[test]
fn enter_set_without_exercise_is_a_state_error() {
    let mut h = WorkoutHistory::new();
    h.handle_command(&args(&["begin-workout", "legs"]), noon(2023, 5, 1))
        .unwrap();
    let e = h
        .handle_command(&args(&["enter-set", "50", "10"]), noon(2023, 5, 1))
        .unwrap_err();
    assert_eq!(e.kind, ErrorKind::State);
    assert_eq!(e.message, "enter-set: No current exercise");
}

#[test]
fn begin_workout_twice_is_a_state_error() {
    let mut h = WorkoutHistory::new();
    h.handle_command(&args(&["begin-workout", "legs"]), noon(2023, 5, 1))
        .unwrap();
    let e = h
        .handle_command(&args(&["begin-workout", "back"]), noon(2023, 5, 1))
        .unwrap_err();
    assert_eq!(e.kind, ErrorKind::State);
    assert_eq!(e.message, "begin-workout: There is already an ongoing workout");
}

#[test]
fn end_workout_without_workout_is_a_state_error() {
    let mut h = WorkoutHistory::new();
    let e = h
        .handle_command(&args(&["end-workout"]), noon(2023, 5, 1))
        .unwrap_err();
    assert_eq!(e.kind, ErrorKind::State);
    assert_eq!(e.message, "end-workout: No ongoing workout");
}

#[test]
fn begin_workout_needs_a_group() {
    let mut h = WorkoutHistory::new();
    let e = h
        .handle_command(&args(&["begin-workout"]), noon(2023, 5, 1))
        .unwrap_err();
    assert_eq!(e.kind, ErrorKind::UserInput);
    assert_eq!(e.message, "begin-workout: Missing muscle group argument");
}

#[test]
fn full_session_records_exercises_and_sets() {
    let mut h = WorkoutHistory::new();
    let now = noon(2023, 5, 1);
    assert_eq!(
        h.handle_command(&args(&["begin-workout", "legs"]), now).unwrap(),
        "Workout started"
    );
    assert_eq!(
        h.handle_command(&args(&["begin-exercise", "squat"]), now).unwrap(),
        "Exercise started"
    );
    assert_eq!(
        h.handle_command(&args(&["enter-set", "50kg", "10"]), now).unwrap(),
        "Set added"
    );
    assert_eq!(
        h.handle_command(&args(&["enter-set", "50", "10"]), now).unwrap(),
        "Set added"
    );
    assert_eq!(
        h.handle_command(&args(&["end-workout"]), now).unwrap(),
        "Workout ended"
    );
    assert_eq!(h.workouts.len(), 1);
    assert!(h.ongoing_workout.is_none());
    let w = &h.workouts[0];
    assert_eq!(w.info.main_group, "legs");
    assert_eq!(w.info.date, now);
    assert_eq!(w.exercises.len(), 1);
    let e = &w.exercises[0];
    assert_eq!(e.info.name, "squat");
    assert_eq!(e.info.group, "X");
    // 50 kg at 2.20 lb/kg is 110.00 lb; 50 lb stays 50.00 lb.
    assert_eq!(e.sets[0].weight, 11000);
    assert_eq!(e.sets[0].reps, 10);
    assert_eq!(e.sets[1].weight, 5000);
    assert_eq!(e.sets[1].reps, 10);
}

#[test]
fn enter_set_rejects_bad_numbers() {
    let mut h = WorkoutHistory::new();
    let now = noon(2023, 5, 1);
    h.handle_command(&args(&["begin-workout", "legs"]), now).unwrap();
    h.handle_command(&args(&["begin-exercise", "squat"]), now).unwrap();
    let e = h
        .handle_command(&args(&["enter-set", "heavy", "10"]), now)
        .unwrap_err();
    assert_eq!(e.kind, ErrorKind::UserInput);
    assert_eq!(e.message, "enter-set: Invalid weight");
    let e = h
        .handle_command(&args(&["enter-set", "50", "256"]), now)
        .unwrap_err();
    assert_eq!(e.kind, ErrorKind::UserInput);
    assert_eq!(e.message, "enter-set: Invalid repetition count");
    let e = h.handle_command(&args(&["enter-set", "50"]), now).unwrap_err();
    assert_eq!(e.message, "enter-set: Not enough arguments");
}

#[test]
fn resume_workout_pops_the_last_workout() {
    let mut h = WorkoutHistory::new();
    let now = noon(2023, 5, 1);
    h.handle_command(&args(&["begin-workout", "legs"]), now).unwrap();
    h.handle_command(&args(&["end-workout"]), now).unwrap();
    assert_eq!(
        h.handle_command(&args(&["resume-workout"]), now).unwrap(),
        "Workout resumed"
    );
    assert_eq!(h.workouts.len(), 0);
    assert_eq!(h.ongoing_workout.as_ref().unwrap().info.main_group, "legs");
    let e = h.handle_command(&args(&["resume-workout"]), now).unwrap_err();
    assert_eq!(e.kind, ErrorKind::State);
    assert_eq!(e.message, "resume-workout: There is already an ongoing workout");
}

#[test]
fn resume_workout_on_empty_history_leaves_nothing_ongoing() {
    let mut h = WorkoutHistory::new();
    assert_eq!(
        h.handle_command(&args(&["resume-workout"]), noon(2023, 5, 1)).unwrap(),
        "Workout resumed"
    );
    assert!(h.ongoing_workout.is_none());
    assert_eq!(h.workouts.len(), 0);
}

#[test]
fn streak_command_reports_the_count() {
    let mut h = WorkoutHistory::new();
    let now = noon(2023, 5, 1);
    assert_eq!(h.handle_command(&args(&["streak"]), now).unwrap(), "Streak is 0");
    h.handle_command(&args(&["begin-workout", "legs"]), now).unwrap();
    h.handle_command(&args(&["end-workout"]), now).unwrap();
    // The workout logged "today" counts from tomorrow's vantage point.
    assert_eq!(h.handle_command(&args(&["streak"]), now).unwrap(), "Streak is 1");
}

#[test]
fn streak_command_wraps_the_ordering_error() {
    let mut h = WorkoutHistory::new();
    let day2 = noon(2023, 5, 2);
    let day1 = noon(2023, 5, 1);
    h.handle_command(&args(&["begin-workout", "legs"]), day2).unwrap();
    h.handle_command(&args(&["end-workout"]), day2).unwrap();
    h.handle_command(&args(&["begin-workout", "back"]), day1).unwrap();
    h.handle_command(&args(&["end-workout"]), day1).unwrap();
    let e = h.handle_command(&args(&["streak"]), day2).unwrap_err();
    assert_eq!(e.kind, ErrorKind::DataIntegrity);
    assert_eq!(
        e.message,
        "streak: Workouts are out of order, cannot reliably calculate streak"
    );
}

#[test]
fn handle_command_now_uses_the_clock() {
    let mut h = WorkoutHistory::new();
    // An empty history has streak zero whatever the clock says.
    assert_eq!(
        h.handle_command_now(&args(&["streak"])).unwrap(),
        "Streak is 0"
    );
    h.handle_command_now(&args(&["begin-workout", "legs"])).unwrap();
    assert!(h.ongoing_workout.is_some());
}
