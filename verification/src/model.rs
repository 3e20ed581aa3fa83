//! The in-memory entities: workout history, workouts, exercises and sets,
//! with their structural mutation operations.
//!
//! Weights are held in hundredths of a pound, so that the model stays in
//! integer arithmetic; rendering and parsing treat them as decimals with two
//! fractional digits.

use vstd::prelude::*;
use crate::date::Timestamp;
use crate::date::valid_timestamp;
use crate::error::AppError;

verus! {

/// A single set: a weight (hundredths of a pound) and a repetition count.
#[derive(Clone, Copy, Debug, PartialEq, Eq, Structural)]
pub struct ExerciseSet {
    pub weight: u32,
    pub reps: u8,
}

/// Name and muscle group of an exercise.  The group is currently a
/// placeholder and always holds `"X"`.
pub struct ExerciseInfo {
    pub name: String,
    pub group: String,
}

/// An exercise of the ongoing workout: its info and the sets entered so far.
pub struct Exercise {
    pub info: ExerciseInfo,
    pub sets: Vec<ExerciseSet>,
}

/// Start time and main muscle group of a workout.
pub struct WorkoutInfo {
    pub date: Timestamp,
    pub main_group: String,
}

/// A workout: its info and its exercises, in the order they were begun.
pub struct Workout {
    pub info: WorkoutInfo,
    pub exercises: Vec<Exercise>,
}

/// The full journal: completed workouts in chronological order (oldest
/// first), plus at most one ongoing workout.  The ongoing workout is never
/// part of the completed sequence; ending it moves it there.
pub struct WorkoutHistory {
    pub workouts: Vec<Workout>,
    pub ongoing_workout: Option<Workout>,
}

/// A workout is well-formed when its start time is a valid timestamp.
pub open spec fn wf_workout(w: Workout) -> bool {
    valid_timestamp(w.info.date)
}

/// A history is well-formed when every workout in it is.
pub open spec fn wf_history(h: WorkoutHistory) -> bool {
    &&& forall|i: int| 0 <= i < h.workouts@.len() ==> wf_workout(#[trigger] h.workouts@[i])
    &&& (h.ongoing_workout matches Some(w) ==> wf_workout(w))
}

impl Workout {
    /// Appends a new exercise with an empty set list.
    pub fn begin_exercise(&mut self, name: String) -> (r: Result<String, AppError>)
        ensures
            r matches Ok(m) && m@ == "Exercise started"@,
            final(self).info == old(self).info,
            final(self).exercises@.len() == old(self).exercises@.len() + 1,
            final(self).exercises@.drop_last() =~= old(self).exercises@,
            final(self).exercises@.last().info.name == name,
            final(self).exercises@.last().info.group@ == "X"@,
            final(self).exercises@.last().sets@ =~= Seq::<ExerciseSet>::empty(),
    {
        self.exercises.push(
            Exercise {
                info: ExerciseInfo { name, group: String::from_str("X") },
                sets: Vec::<ExerciseSet>::new(),
            },
        );
        Ok(String::from_str("Exercise started"))
    }

    /// Appends a set to the most recently begun exercise; fails when no
    /// exercise has been started yet.
    pub fn enter_set(&mut self, weight: u32, reps: u8) -> (r: Result<(), AppError>)
        ensures
            old(self).exercises@.len() == 0 ==> {
                &&& r matches Err(e) && e.kind is State && e.message@ == "No current exercise"@
                &&& final(self).info == old(self).info
                &&& final(self).exercises@ =~= old(self).exercises@
            },
            old(self).exercises@.len() > 0 ==> {
                &&& r is Ok
                &&& final(self).info == old(self).info
                &&& final(self).exercises@.len() == old(self).exercises@.len()
                &&& final(self).exercises@.drop_last() =~= old(self).exercises@.drop_last()
                &&& final(self).exercises@.last().info == old(self).exercises@.last().info
                &&& final(self).exercises@.last().sets@ =~= old(self).exercises@.last().sets@.push(
                    (ExerciseSet { weight, reps }),
                )
            },
    {
        match self.exercises.pop() {
            Some(mut cur) => {
                cur.sets.push(ExerciseSet { weight, reps });
                self.exercises.push(cur);
                Ok(())
            },
            None => Err(AppError::state("No current exercise")),
        }
    }
}

impl WorkoutHistory {
    /// An empty journal: no completed workouts, nothing ongoing.
    pub fn new() -> (h: WorkoutHistory)
        ensures
            h.workouts@ =~= Seq::<Workout>::empty(),
            h.ongoing_workout is None,
            wf_history(h),
    {
        WorkoutHistory { workouts: Vec::new(), ongoing_workout: None }
    }

    /// Starts a new workout; fails when one is already ongoing.
    pub fn begin_workout(&mut self, main_group: String, now: Timestamp) -> (r: Result<
        (),
        AppError,
    >)
        ensures
            old(self).ongoing_workout is Some ==> {
                &&& r matches Err(e) && e.kind is State && e.message@
                    == "There is already an ongoing workout"@
                &&& *final(self) == *old(self)
            },
            old(self).ongoing_workout is None ==> {
                &&& r is Ok
                &&& final(self).workouts == old(self).workouts
                &&& final(self).ongoing_workout matches Some(w) && w.info.date == now
                    && w.info.main_group == main_group && w.exercises@ =~= Seq::<Exercise>::empty()
            },
            wf_history(*old(self)) && valid_timestamp(now) ==> wf_history(*final(self)),
    {
        if self.ongoing_workout.is_some() {
            return Err(AppError::state("There is already an ongoing workout"));
        }
        self.ongoing_workout = Some(
            Workout {
                info: WorkoutInfo { date: now, main_group },
                exercises: Vec::<Exercise>::new(),
            },
        );
        Ok(())
    }

    /// Moves the ongoing workout to the end of the completed history; fails
    /// when none is ongoing.
    pub fn end_workout(&mut self) -> (r: Result<(), AppError>)
        ensures
            old(self).ongoing_workout matches Some(w) ==> {
                &&& r is Ok
                &&& final(self).workouts@ =~= old(self).workouts@.push(w)
                &&& final(self).ongoing_workout is None
            },
            old(self).ongoing_workout is None ==> {
                &&& r matches Err(e) && e.kind is State && e.message@ == "No ongoing workout"@
                &&& *final(self) == *old(self)
            },
            wf_history(*old(self)) ==> wf_history(*final(self)),
    {
        match self.ongoing_workout.take() {
            Some(cw) => {
                self.workouts.push(cw);
                Ok(())
            },
            None => Err(AppError::state("No ongoing workout")),
        }
    }

    /// Pops the most recent completed workout back into ongoing state; fails
    /// when a workout is already ongoing.  On an empty history there is
    /// nothing to pop and the journal is left as it was.
    pub fn resume_workout(&mut self) -> (r: Result<(), AppError>)
        ensures
            old(self).ongoing_workout is Some ==> {
                &&& r matches Err(e) && e.kind is State && e.message@
                    == "There is already an ongoing workout"@
                &&& *final(self) == *old(self)
            },
            old(self).ongoing_workout is None && old(self).workouts@.len() > 0 ==> {
                &&& r is Ok
                &&& final(self).ongoing_workout == Some(old(self).workouts@.last())
                &&& final(self).workouts@ =~= old(self).workouts@.drop_last()
            },
            old(self).ongoing_workout is None && old(self).workouts@.len() == 0 ==> {
                &&& r is Ok
                &&& final(self).ongoing_workout is None
                &&& final(self).workouts@ =~= old(self).workouts@
            },
            wf_history(*old(self)) ==> wf_history(*final(self)),
    {
        if self.ongoing_workout.is_some() {
            return Err(AppError::state("There is already an ongoing workout"));
        }
        self.ongoing_workout = self.workouts.pop();
        Ok(())
    }
}

} // verus!
