//! Tests of the numeric argument parsers and the command-line tokenizer.

use workout_log::error::ErrorKind;
use workout_log::groups::MuscleGroup;
use workout_log::parse::{parse_count, parse_reps, parse_weight};
use workout_log::external::tokenize_command_line;

#[test]
fn weight_in_kilograms_is_converted() {
    // 50 kg at 2.20 lb/kg is 110.00 lb.
    assert_eq!(parse_weight("50kg").unwrap(), 11000);
}

#[test]
fn weight_in_pounds_is_kept() {
    assert_eq!(parse_weight("50").unwrap(), 5000);
}

#[test]
fn weight_accepts_two_fractional_digits() {
    assert_eq!(parse_weight("50.5").unwrap(), 5050);
    assert_eq!(parse_weight("50.55").unwrap(), 5055);
    assert_eq!(parse_weight("2.5kg").unwrap(), 550);
}

#[test]
fn weight_rejects_malformed_text() {
    assert!(parse_weight("heavy").is_err());
    assert!(parse_weight("").is_err());
    assert!(parse_weight("kg").is_err());
    assert!(parse_weight("50.555").is_err());
    assert!(parse_weight("5O").is_err());
    assert_eq!(parse_weight("x").unwrap_err().kind, ErrorKind::UserInput);
}

#[test]
fn reps_parse_within_a_byte() {
    assert_eq!(parse_reps("0").unwrap(), 0);
    assert_eq!(parse_reps("10").unwrap(), 10);
    assert_eq!(parse_reps("255").unwrap(), 255);
    assert!(parse_reps("256").is_err());
    assert!(parse_reps("ten").is_err());
    assert!(parse_reps("").is_err());
}

#[test]
fn counts_parse_as_plain_integers() {
    assert_eq!(parse_count("3").unwrap(), 3);
    assert!(parse_count("-1").is_err());
    assert!(parse_count("3.5").is_err());
}

#[test]
fn weights_round_trip_through_their_rendering() {
    for c in [0u32, 7, 99, 100, 5050, 11000, 123456] {
        let text = workout_log::text::centi_string(c);
        assert_eq!(parse_weight(&text).unwrap(), c);
    }
}

#[test]
fn tokenizer_splits_shell_words() {
    assert_eq!(
        tokenize_command_line("begin-workout legs").unwrap(),
        vec!["begin-workout".to_string(), "legs".to_string()]
    );
    assert_eq!(
        tokenize_command_line("begin-exercise 'bench press'").unwrap(),
        vec!["begin-exercise".to_string(), "bench press".to_string()]
    );
    assert_eq!(tokenize_command_line("").unwrap(), Vec::<String>::new());
}

#[test]
fn tokenizer_rejects_unmatched_quotes() {
    let e = tokenize_command_line("begin-exercise 'bench").unwrap_err();
    assert_eq!(e.kind, ErrorKind::UserInput);
}

#[test]
fn muscle_group_labels_round_trip() {
    let groups = [
        MuscleGroup::Shoulders,
        MuscleGroup::Biceps,
        MuscleGroup::Triceps,
        MuscleGroup::Chest,
        MuscleGroup::Back,
        MuscleGroup::Abs,
        MuscleGroup::Legs,
    ];
    for g in groups {
        assert_eq!(MuscleGroup::from_label(g.label()), Some(g));
    }
    assert_eq!(MuscleGroup::from_label("quads"), None);
    assert_eq!(MuscleGroup::Legs.label(), "Legs");
}
