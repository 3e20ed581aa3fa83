//! The command dispatcher: interprets a command name with its argument list
//! against the current journal, mutating or querying it.
//!
//! Workout-mutating commands are only accepted in the matching state (a
//! workout ongoing or not); read-only commands are accepted in either.  An
//! error propagated from a handler is prefixed with the command name; every
//! error leaves the journal unchanged.

use vstd::prelude::*;
use crate::date::Timestamp;
use crate::date::valid_timestamp;
use crate::date::tomorrow_spec;
use crate::date::tomorrow;
use crate::error::AppError;
use crate::error::ErrorKind;
use crate::model::Exercise;
use crate::model::ExerciseSet;
use crate::model::WorkoutHistory;
use crate::model::wf_history;
use crate::parse::all_digits;
use crate::parse::dec_val;
use crate::parse::weight_centi;
use crate::parse::reps_spec;
use crate::parse::parse_weight;
use crate::parse::parse_reps;
use crate::parse::parse_count;
use crate::report::history_sds_ok;
use crate::report::render_history_str;
use crate::report::render_history_csv_str;
use crate::report::render_workout_history;
use crate::report::render_workout_history_csv;
use crate::report::requested_slice;
use crate::report::sds_ok;
use crate::report::kg_table_str;
use crate::report::kg_table;
use crate::report::group_at;
use crate::report::is_last_occurrence;
use crate::streak::ScanOutcome;
use crate::streak::history_dates_rev;
use crate::streak::streak_scan;
use crate::text::dec_str;
use crate::text::str_eq;
use crate::text::u64_string;

verus! {

/// An error message as the dispatcher reports it: the command name, a
/// colon, and the underlying message.
pub open spec fn wrapped_msg(cmd: Seq<char>, inner: Seq<char>) -> Seq<char> {
    cmd + ": "@ + inner
}

/// The result is an error of the given kind carrying the given message.
pub open spec fn is_err(r: Result<String, AppError>, kind: ErrorKind, msg: Seq<char>) -> bool {
    r matches Err(e) && e.kind == kind && e.message@ == msg
}

/// The journal after equals the journal before, up to views.
pub open spec fn same_history(a: WorkoutHistory, b: WorkoutHistory) -> bool {
    &&& b.workouts@ == a.workouts@
    &&& (match (a.ongoing_workout, b.ongoing_workout) {
        (Option::None, Option::None) => true,
        (Option::Some(x), Option::Some(y)) => x.info == y.info && x.exercises@ == y.exercises@,
        _ => false,
    })
}

/// What `begin-workout <group>` does.
pub open spec fn begin_workout_transition(
    pre: WorkoutHistory,
    post: WorkoutHistory,
    args: Seq<String>,
    now: Timestamp,
    r: Result<String, AppError>,
) -> bool {
    if args.len() < 1 {
        &&& is_err(
            r,
            ErrorKind::UserInput,
            wrapped_msg("begin-workout"@, "Missing muscle group argument"@),
        )
        &&& same_history(pre, post)
    } else if pre.ongoing_workout is Some {
        &&& is_err(
            r,
            ErrorKind::State,
            wrapped_msg("begin-workout"@, "There is already an ongoing workout"@),
        )
        &&& same_history(pre, post)
    } else {
        &&& r matches Ok(m) && m@ == "Workout started"@
        &&& post.workouts@ == pre.workouts@
        &&& post.ongoing_workout matches Some(w) && w.info.date == now && w.info.main_group@
            == args[0]@ && w.exercises@ =~= Seq::<Exercise>::empty()
    }
}

/// What `begin-exercise <name>` does.
pub open spec fn begin_exercise_transition(
    pre: WorkoutHistory,
    post: WorkoutHistory,
    args: Seq<String>,
    r: Result<String, AppError>,
) -> bool {
    if pre.ongoing_workout is None {
        &&& is_err(r, ErrorKind::State, wrapped_msg("begin-exercise"@, "No ongoing workout"@))
        &&& same_history(pre, post)
    } else if args.len() < 1 {
        &&& is_err(r, ErrorKind::UserInput, wrapped_msg("begin-exercise"@, "A name is required"@))
        &&& same_history(pre, post)
    } else {
        &&& r matches Ok(m) && m@ == "Exercise started"@
        &&& post.workouts@ == pre.workouts@
        &&& post.ongoing_workout matches Some(w) && pre.ongoing_workout matches Some(pw) && {
            &&& w.info == pw.info
            &&& w.exercises@.len() == pw.exercises@.len() + 1
            &&& w.exercises@.drop_last() == pw.exercises@
            &&& w.exercises@.last().info.name@ == args[0]@
            &&& w.exercises@.last().info.group@ == "X"@
            &&& w.exercises@.last().sets@ == Seq::<ExerciseSet>::empty()
        }
    }
}

/// What `enter-set <weight>[kg] <reps>` does.
pub open spec fn enter_set_transition(
    pre: WorkoutHistory,
    post: WorkoutHistory,
    args: Seq<String>,
    r: Result<String, AppError>,
) -> bool {
    if pre.ongoing_workout is None {
        &&& is_err(r, ErrorKind::State, wrapped_msg("enter-set"@, "No ongoing workout"@))
        &&& same_history(pre, post)
    } else if args.len() < 2 {
        &&& is_err(r, ErrorKind::UserInput, wrapped_msg("enter-set"@, "Not enough arguments"@))
        &&& same_history(pre, post)
    } else if weight_centi(args[0]@) is None || weight_centi(args[0]@)->Some_0 > u32::MAX {
        &&& is_err(r, ErrorKind::UserInput, wrapped_msg("enter-set"@, "Invalid weight"@))
        &&& same_history(pre, post)
    } else if reps_spec(args[1]@) is None {
        &&& is_err(r, ErrorKind::UserInput, wrapped_msg("enter-set"@, "Invalid repetition count"@))
        &&& same_history(pre, post)
    } else if pre.ongoing_workout->Some_0.exercises@.len() == 0 {
        &&& is_err(r, ErrorKind::State, wrapped_msg("enter-set"@, "No current exercise"@))
        &&& same_history(pre, post)
    } else {
        &&& r matches Ok(m) && m@ == "Set added"@
        &&& post.workouts@ == pre.workouts@
        &&& post.ongoing_workout matches Some(w) && pre.ongoing_workout matches Some(pw) && {
            &&& w.info == pw.info
            &&& w.exercises@.len() == pw.exercises@.len()
            &&& w.exercises@.drop_last() == pw.exercises@.drop_last()
            &&& w.exercises@.last().info == pw.exercises@.last().info
            &&& w.exercises@.last().sets@ == pw.exercises@.last().sets@.push(
                (ExerciseSet {
                    weight: weight_centi(args[0]@)->Some_0 as u32,
                    reps: reps_spec(args[1]@)->Some_0 as u8,
                }),
            )
        }
    }
}

/// What `end-workout` does.
pub open spec fn end_workout_transition(
    pre: WorkoutHistory,
    post: WorkoutHistory,
    r: Result<String, AppError>,
) -> bool {
    if pre.ongoing_workout is Some {
        &&& r matches Ok(m) && m@ == "Workout ended"@
        &&& post.workouts@ == pre.workouts@.push(pre.ongoing_workout->Some_0)
        &&& post.ongoing_workout is None
    } else {
        &&& is_err(r, ErrorKind::State, wrapped_msg("end-workout"@, "No ongoing workout"@))
        &&& same_history(pre, post)
    }
}

/// What `resume-workout` does.
pub open spec fn resume_workout_transition(
    pre: WorkoutHistory,
    post: WorkoutHistory,
    r: Result<String, AppError>,
) -> bool {
    if pre.ongoing_workout is Some {
        &&& is_err(
            r,
            ErrorKind::State,
            wrapped_msg("resume-workout"@, "There is already an ongoing workout"@),
        )
        &&& same_history(pre, post)
    } else {
        &&& r matches Ok(m) && m@ == "Workout resumed"@
        &&& if pre.workouts@.len() > 0 {
            post.ongoing_workout == Some(pre.workouts@.last()) && post.workouts@
                == pre.workouts@.drop_last()
        } else {
            post.ongoing_workout is None && post.workouts@ == pre.workouts@
        }
    }
}

/// What `streak` does: nothing to the journal; the response follows the
/// scan outcome, starting from the day after the streak date of `now`.
pub open spec fn streak_transition(
    pre: WorkoutHistory,
    post: WorkoutHistory,
    now: Timestamp,
    r: Result<String, AppError>,
) -> bool {
    &&& same_history(pre, post)
    &&& (match tomorrow_spec(now) {
        None => r matches Err(e) && e.kind is Computation,
        Some(start) => match streak_scan(history_dates_rev(pre), start, true, 0) {
            ScanOutcome::Count(c) => r matches Ok(m) && m@ == "Streak is "@ + dec_str(c),
            ScanOutcome::OutOfOrder => is_err(
                r,
                ErrorKind::DataIntegrity,
                wrapped_msg("streak"@, "Workouts are out of order, cannot reliably calculate streak"@),
            ),
            ScanOutcome::DateRange => r matches Err(e) && e.kind is Computation,
        },
    })
}

/// The history length a `print` request asks for: a parsable first argument
/// selects the last so many workouts; no argument, or an unparsable one,
/// selects the whole history.
pub open spec fn print_n_spec(args: Seq<String>) -> Option<int> {
    if args.len() == 0 {
        None
    } else if args[0]@.len() > 0 && all_digits(args[0]@) && dec_val(args[0]@) <= usize::MAX {
        Some(dec_val(args[0]@))
    } else {
        None
    }
}

/// What `print [n]` does: nothing to the journal; the response is the
/// rendered report.
pub open spec fn print_transition(
    pre: WorkoutHistory,
    post: WorkoutHistory,
    args: Seq<String>,
    r: Result<String, AppError>,
) -> bool {
    let n = print_n_spec(args);
    &&& same_history(pre, post)
    &&& if n is Some && n->Some_0 > pre.workouts@.len() {
        is_err(r, ErrorKind::UserInput, wrapped_msg("print"@, "Not that many workouts in the history"@))
    } else if history_sds_ok(pre, n) {
        r matches Ok(m) && m@ == render_history_str(pre, n)
    } else {
        r matches Err(e) && e.kind is Computation
    }
}

/// What `csv [n]` does: nothing to the journal; the response is the CSV
/// report.  Unlike `print`, an unparsable length is an error.
pub open spec fn csv_transition(
    pre: WorkoutHistory,
    post: WorkoutHistory,
    args: Seq<String>,
    r: Result<String, AppError>,
) -> bool {
    &&& same_history(pre, post)
    &&& if args.len() > 0 && !(args[0]@.len() > 0 && all_digits(args[0]@) && dec_val(args[0]@)
        <= usize::MAX) {
        is_err(r, ErrorKind::UserInput, wrapped_msg("csv"@, "Invalid count"@))
    } else {
        let n = if args.len() > 0 {
            Some(dec_val(args[0]@))
        } else {
            None
        };
        if n is Some && n->Some_0 > pre.workouts@.len() {
            is_err(r, ErrorKind::UserInput, wrapped_msg("csv"@, "Not that many workouts in the history"@))
        } else if sds_ok(requested_slice(pre, n)) {
            r matches Ok(m) && m@ == render_history_csv_str(pre, n)
        } else {
            r matches Err(e) && e.kind is Computation
        }
    }
}

/// What `least-recent` does: nothing to the journal; the response names
/// the muscle group whose most recent workout lies the most workouts ago
/// (`"unknown"` on an empty history).
pub open spec fn least_recent_transition(
    pre: WorkoutHistory,
    post: WorkoutHistory,
    r: Result<String, AppError>,
) -> bool {
    &&& same_history(pre, post)
    &&& r is Ok
    &&& (pre.workouts@.len() == 0 ==> r->Ok_0@ == "unknown"@)
    &&& (pre.workouts@.len() > 0 ==> exists|i: int|
        {
            &&& 0 <= i < pre.workouts@.len()
            &&& #[trigger] is_last_occurrence(pre, i)
            &&& r->Ok_0@ == group_at(pre, i)
            &&& forall|j: int| 0 <= j < i ==> !is_last_occurrence(pre, j)
        })
}

/// What a whole command line does to the journal.  The command is the
/// first token; its arguments follow.
pub open spec fn command_transition(
    pre: WorkoutHistory,
    post: WorkoutHistory,
    argv: Seq<String>,
    now: Timestamp,
    r: Result<String, AppError>,
) -> bool {
    if argv.len() == 0 {
        &&& is_err(r, ErrorKind::UserInput, "Function requires at least a command"@)
        &&& same_history(pre, post)
    } else {
        let cmd = argv[0]@;
        let args = argv.skip(1);
        if cmd == "streak"@ {
            streak_transition(pre, post, now, r)
        } else if cmd == "streak-status"@ {
            &&& is_err(
                r,
                ErrorKind::UserInput,
                wrapped_msg(cmd, wrapped_msg(cmd, "NOT IMPLEMENTED"@)),
            )
            &&& same_history(pre, post)
        } else if cmd == "enter-set"@ {
            enter_set_transition(pre, post, args, r)
        } else if cmd == "begin-exercise"@ {
            begin_exercise_transition(pre, post, args, r)
        } else if cmd == "end-workout"@ {
            end_workout_transition(pre, post, r)
        } else if cmd == "begin-workout"@ {
            begin_workout_transition(pre, post, args, now, r)
        } else if cmd == "print"@ {
            print_transition(pre, post, args, r)
        } else if cmd == "least-recent"@ {
            least_recent_transition(pre, post, r)
        } else if cmd == "kg"@ {
            &&& same_history(pre, post)
            &&& r matches Ok(m) && m@ == kg_table_str(10)
        } else if cmd == "resume-workout"@ {
            resume_workout_transition(pre, post, r)
        } else if cmd == "csv"@ {
            csv_transition(pre, post, args, r)
        } else {
            &&& is_err(r, ErrorKind::UserInput, wrapped_msg(cmd, "no such command"@))
            &&& same_history(pre, post)
        }
    }
}

/// Prefixes an error's message with the command it arose from.
fn wrap_error(cmd: &str, e: AppError) -> (r: AppError)
    ensures
        r.kind == e.kind,
        r.message@ == wrapped_msg(cmd@, e.message@),
{
    let mut m = cmd.to_owned();
    m.append(": ");
    m.append(e.message.as_str());
    AppError { kind: e.kind, message: m }
}

impl WorkoutHistory {
    /// Interprets one tokenized command line against the journal.
    ///
    /// `now` is the current wall-clock time, supplied by the caller: it
    /// stamps a new workout and anchors the streak scan.
    #[verifier::rlimit(60)]
    pub fn handle_command(&mut self, argv: &Vec<String>, now: Timestamp) -> (r: Result<
        String,
        AppError,
    >)
        requires
            wf_history(*old(self)),
            valid_timestamp(now),
            old(self).workouts@.len() <= i32::MAX,
        ensures
            wf_history(*final(self)),
            command_transition(*old(self), *final(self), argv@, now, r),
    {
        if argv.len() == 0 {
            return Err(AppError::user_input("Function requires at least a command"));
        }
        let command = argv[0].as_str();
        let res: Result<String, AppError> = if str_eq(command, "streak") {
            match tomorrow(now) {
                Err(e) => Err(e),
                Ok(start) => match self.streak(start) {
                    Err(e) => Err(e),
                    Ok(n) => {
                        let mut m = String::from_str("Streak is ");
                        let ns = u64_string(n as u64);
                        m.append(ns.as_str());
                        Ok(m)
                    },
                },
            }
        } else if str_eq(command, "streak-status") {
            Err(wrap_error(command, AppError::user_input("NOT IMPLEMENTED")))
        } else if str_eq(command, "enter-set") {
            if self.ongoing_workout.is_none() {
                Err(AppError::state("No ongoing workout"))
            } else if argv.len() < 3 {
                Err(AppError::user_input("Not enough arguments"))
            } else {
                match parse_weight(argv[1].as_str()) {
                    Err(e) => Err(e),
                    Ok(weight) => match parse_reps(argv[2].as_str()) {
                        Err(e) => Err(e),
                        Ok(reps) => {
                            let mut w = self.ongoing_workout.take().unwrap();
                            let inner = w.enter_set(weight, reps);
                            self.ongoing_workout = Some(w);
                            match inner {
                                Ok(()) => Ok(String::from_str("Set added")),
                                Err(e) => Err(e),
                            }
                        },
                    },
                }
            }
        } else if str_eq(command, "begin-exercise") {
            if self.ongoing_workout.is_none() {
                Err(AppError::state("No ongoing workout"))
            } else if argv.len() < 2 {
                Err(AppError::user_input("A name is required"))
            } else {
                let mut w = self.ongoing_workout.take().unwrap();
                let inner = w.begin_exercise(argv[1].clone());
                self.ongoing_workout = Some(w);
                inner
            }
        } else if str_eq(command, "end-workout") {
            match self.end_workout() {
                Ok(()) => Ok(String::from_str("Workout ended")),
                Err(e) => Err(e),
            }
        } else if str_eq(command, "begin-workout") {
            if argv.len() < 2 {
                Err(AppError::user_input("Missing muscle group argument"))
            } else {
                match self.begin_workout(argv[1].clone(), now) {
                    Ok(()) => Ok(String::from_str("Workout started")),
                    Err(e) => Err(e),
                }
            }
        } else if str_eq(command, "print") {
            let n_opt: Option<usize> = if argv.len() >= 2 {
                match parse_count(argv[1].as_str()) {
                    Ok(v) => Some(v),
                    Err(_) => None,
                }
            } else {
                None
            };
            render_workout_history(self, n_opt)
        } else if str_eq(command, "least-recent") {
            self.least_recent_group()
        } else if str_eq(command, "kg") {
            Ok(kg_table())
        } else if str_eq(command, "resume-workout") {
            match self.resume_workout() {
                Ok(()) => Ok(String::from_str("Workout resumed")),
                Err(e) => Err(e),
            }
        } else if str_eq(command, "csv") {
            if argv.len() >= 2 {
                match parse_count(argv[1].as_str()) {
                    Ok(v) => render_workout_history_csv(self, Some(v)),
                    Err(e) => Err(e),
                }
            } else {
                render_workout_history_csv(self, None)
            }
        } else {
            return Err(wrap_error(command, AppError::user_input("no such command")));
        };
        match res {
            Ok(m) => Ok(m),
            Err(e) => Err(wrap_error(command, e)),
        }
    }

    /// Interprets one tokenized command line against the journal, reading
    /// the wall clock for the current time.
    ///
    /// Exactly `handle_command`, for some valid timestamp the clock
    /// returned.
    pub fn handle_command_now(&mut self, argv: &Vec<String>) -> (r: Result<String, AppError>)
        requires
            wf_history(*old(self)),
            old(self).workouts@.len() <= i32::MAX,
        ensures
            wf_history(*final(self)),
            exists|now: Timestamp|
                valid_timestamp(now) && #[trigger] command_transition(
                    *old(self),
                    *final(self),
                    argv@,
                    now,
                    r,
                ),
    {
        let now = crate::external::now_timestamp();
        let r = self.handle_command(argv, now);
        proof {
            assert(command_transition(*old(self), *self, argv@, now, r));
        }
        r
    }
}

} // verus!
