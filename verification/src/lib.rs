//! A personal command-line workout journal.
//!
//! The library records workouts (muscle group, start time, exercises, sets of
//! weight and repetitions), computes a consecutive-day streak metric over the
//! recorded history, and interprets the line-oriented command surface.  All of
//! it is verified; reading the clock and tokenizing an input line are the only
//! operations delegated to outside crates, behind trusted wrappers.

pub mod date;
pub mod dispatch;
pub mod error;
pub mod external;
pub mod groups;
pub mod model;
pub mod parse;
pub mod report;
pub mod streak;
pub mod text;
