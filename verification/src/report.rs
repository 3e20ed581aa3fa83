//! History reporting: rendering workouts and history (human-readable and
//! CSV), the kilogram conversion table, and the least-recently-trained
//! muscle group.
//!
//! Every function here computes a string; printing it is the caller's
//! business.

use vstd::prelude::*;
use vstd::arithmetic::div_mod::lemma_add_mod_noop;
use vstd::arithmetic::div_mod::lemma_mod_multiples_vanish;
use vstd::arithmetic::div_mod::lemma_fundamental_div_mod;
use vstd::arithmetic::div_mod::lemma_fundamental_div_mod_converse_mod;
use vstd::arithmetic::div_mod::lemma_fundamental_div_mod_converse_div;
use vstd::arithmetic::div_mod::lemma_mod_bound;
use crate::date::Date;
use crate::date::valid_date;
use crate::date::succ_date;
use crate::date::days_in_month;
use crate::date::is_leap_year;
use crate::date::streak_date_spec;
use crate::date::streak_date;
use crate::error::AppError;
use crate::groups::MuscleGroup;
use crate::groups::group_label;
use crate::model::Exercise;
use crate::model::ExerciseSet;
use crate::model::Workout;
use crate::model::WorkoutHistory;
use crate::model::wf_workout;
use crate::model::wf_history;
use crate::text::dec_str;
use crate::text::centi_str;
use crate::text::date_str;
use crate::text::time_hm_str;
use crate::text::str_eq;
use crate::text::u64_string;
use crate::text::centi_string;
use crate::text::date_string;
use crate::text::time_hm_string;

verus! {

/// The sum under Zeller's congruence for `d`, before the final modulus.
///
/// The year is shifted by a multiple of 400 so that every operand stays
/// nonnegative (the Gregorian calendar repeats its weekday pattern every
/// 400 years); January and February count as months 13 and 14 of the year
/// before, which absorbs the leap day.
pub open spec fn dow_raw(d: Date) -> int {
    let y = d.year + 262400;
    let yy = if d.month <= 2 {
        y - 1
    } else {
        y as int
    };
    let mm = if d.month <= 2 {
        d.month + 12
    } else {
        d.month as int
    };
    let k = yy % 100;
    let j = yy / 100;
    d.day + (13 * (mm + 1)) / 5 + k + k / 4 + j / 4 + 5 * j + 5
}

/// The day of the week of `d`: 0 for Monday through 6 for Sunday.
pub open spec fn day_of_week(d: Date) -> int {
    dow_raw(d) % 7
}

/// The English name of a weekday, 0 for Monday through 6 for Sunday.
pub open spec fn weekday_str(w: int) -> Seq<char> {
    if w == 0 {
        "Monday"@
    } else if w == 1 {
        "Tuesday"@
    } else if w == 2 {
        "Wednesday"@
    } else if w == 3 {
        "Thursday"@
    } else if w == 4 {
        "Friday"@
    } else if w == 5 {
        "Saturday"@
    } else {
        "Sunday"@
    }
}

/// Stepping an integer by something congruent to 1 modulo 7 advances its
/// residue by one.
proof fn lemma_mod7_step(x: int, y: int)
    requires
        (y - x) % 7 == 1,
    ensures
        y % 7 == (x % 7 + 1) % 7,
{
    lemma_add_mod_noop(x, y - x, 7);
}

/// Shifting a year by 400 years does not change whether it is a leap year.
proof fn lemma_leap_shift(y: int)
    ensures
        is_leap_year(y + 262400) == is_leap_year(y),
{
    lemma_mod_multiples_vanish(65600, y, 4);
    lemma_mod_multiples_vanish(2624, y, 100);
    lemma_mod_multiples_vanish(656, y, 400);
}

/// The weekday formula follows the calendar: the day after `d` falls on
/// the next day of the week.
pub proof fn lemma_day_of_week_succ(d: Date)
    requires
        valid_date(d),
        succ_date(d) is Some,
    ensures
        day_of_week(succ_date(d)->Some_0) == (day_of_week(d) + 1) % 7,
{
    let s = succ_date(d)->Some_0;
    let y1 = d.year + 262400;
    if d.day < days_in_month(d.year as int, d.month as int) {
        // Within a month only the day term moves.
        assert(dow_raw(s) - dow_raw(d) == 1);
    } else if d.month == 2 {
        // February rolls into March: the mapped year advances from
        // `y1 - 1` to `y1`, and the century bookkeeping absorbs the leap
        // day.
        let yp = y1 - 1;
        let kn = y1 % 100;
        let jn = y1 / 100;
        lemma_fundamental_div_mod(y1, 100);
        lemma_mod_bound(y1, 100);
        lemma_leap_shift(d.year as int);
        lemma_mod_multiples_vanish(25 * jn, kn, 4);
        if kn >= 1 {
            if y1 % 400 == 0 {
                lemma_fundamental_div_mod(y1, 400);
                lemma_fundamental_div_mod_converse_mod(y1, 100, 4 * (y1 / 400), 0);
            }
            lemma_fundamental_div_mod_converse_mod(yp, 100, jn, kn - 1);
            lemma_fundamental_div_mod_converse_div(yp, 100, jn, kn - 1);
            lemma_fundamental_div_mod(kn, 4);
            lemma_mod_bound(kn, 4);
            if kn % 4 == 0 {
                lemma_fundamental_div_mod_converse_div(kn - 1, 4, kn / 4 - 1, 3);
                assert(is_leap_year(y1 as int));
                assert(dow_raw(s) - dow_raw(d) == -55);
            } else {
                lemma_fundamental_div_mod_converse_div(kn - 1, 4, kn / 4, kn % 4 - 1);
                assert(!is_leap_year(y1 as int));
                assert(dow_raw(s) - dow_raw(d) == -55);
            }
        } else {
            lemma_fundamental_div_mod_converse_mod(yp, 100, jn - 1, 99);
            lemma_fundamental_div_mod_converse_div(yp, 100, jn - 1, 99);
            lemma_fundamental_div_mod(jn, 4);
            lemma_mod_bound(jn, 4);
            lemma_fundamental_div_mod_converse_mod(y1, 400, jn / 4, 100 * (jn % 4));
            if jn % 4 == 0 {
                lemma_fundamental_div_mod_converse_div(jn - 1, 4, jn / 4 - 1, 3);
                assert(is_leap_year(y1 as int));
                assert(dow_raw(s) - dow_raw(d) == -174);
            } else {
                lemma_fundamental_div_mod_converse_div(jn - 1, 4, jn / 4, jn % 4 - 1);
                assert(!is_leap_year(y1 as int));
                assert(dow_raw(s) - dow_raw(d) == -174);
            }
        }
    } else {
        // A month rollover away from February keeps the year terms, and
        // the shift of the month term matches the month length modulo 7.
        if d.month == 1 {
            assert(dow_raw(s) - dow_raw(d) == -27);
        } else if d.month == 3 {
            assert(dow_raw(s) - dow_raw(d) == -27);
        } else if d.month == 4 {
            assert(dow_raw(s) - dow_raw(d) == -27);
        } else if d.month == 5 {
            assert(dow_raw(s) - dow_raw(d) == -27);
        } else if d.month == 6 {
            assert(dow_raw(s) - dow_raw(d) == -27);
        } else if d.month == 7 {
            assert(dow_raw(s) - dow_raw(d) == -27);
        } else if d.month == 8 {
            assert(dow_raw(s) - dow_raw(d) == -27);
        } else if d.month == 9 {
            assert(dow_raw(s) - dow_raw(d) == -27);
        } else if d.month == 10 {
            assert(dow_raw(s) - dow_raw(d) == -27);
        } else if d.month == 11 {
            assert(dow_raw(s) - dow_raw(d) == -27);
        } else {
            assert(dow_raw(s) - dow_raw(d) == -27);
        }
    }
    assert((dow_raw(s) - dow_raw(d)) % 7 == 1);
    lemma_mod7_step(dow_raw(d), dow_raw(s));
}

/// The day of the week of `d`, 0 for Monday through 6 for Sunday.
pub fn day_of_week_exec(d: Date) -> (w: u8)
    requires
        valid_date(d),
    ensures
        w == day_of_week(d),
        w < 7,
{
    let y: i64 = d.year as i64 + 262400;
    let yy: i64 = if d.month <= 2 {
        y - 1
    } else {
        y
    };
    let mm: i64 = if d.month <= 2 {
        d.month as i64 + 12
    } else {
        d.month as i64
    };
    let k: i64 = yy % 100;
    let j: i64 = yy / 100;
    ((d.day as i64 + (13 * (mm + 1)) / 5 + k + k / 4 + j / 4 + 5 * j + 5) % 7) as u8
}

/// The English name of a weekday index.
pub fn weekday_name(w: u8) -> (r: &'static str)
    requires
        w < 7,
    ensures
        r@ == weekday_str(w as int),
{
    match w {
        0 => "Monday",
        1 => "Tuesday",
        2 => "Wednesday",
        3 => "Thursday",
        4 => "Friday",
        5 => "Saturday",
        _ => "Sunday",
    }
}

/// One set as rendered in a report: `WW.WWxR; `.
pub open spec fn render_set_str(s: ExerciseSet) -> Seq<char> {
    centi_str(s.weight as int) + "x"@ + dec_str(s.reps as int) + "; "@
}

/// The sets of an exercise, in order.
pub open spec fn render_sets_str(sets: Seq<ExerciseSet>) -> Seq<char>
    decreases sets.len(),
{
    if sets.len() == 0 {
        Seq::<char>::empty()
    } else {
        render_sets_str(sets.drop_last()) + render_set_str(sets.last())
    }
}

/// One exercise line: indented name, then its sets.
pub open spec fn render_exercise_str(e: Exercise) -> Seq<char> {
    "    "@ + e.info.name@ + ": "@ + render_sets_str(e.sets@) + "\n"@
}

/// The exercise lines of a workout, in order.
pub open spec fn render_exercises_str(es: Seq<Exercise>) -> Seq<char>
    decreases es.len(),
{
    if es.len() == 0 {
        Seq::<char>::empty()
    } else {
        render_exercises_str(es.drop_last()) + render_exercise_str(es.last())
    }
}

/// The headline of a workout: group, start date and time, streak date and
/// its weekday, with the terminal color codes the journal always used.
pub open spec fn render_workout_header_str(w: Workout, sd: Date) -> Seq<char> {
    "\x1b[1;38;5;208m"@ + w.info.main_group@ + "\x1b[0m workout started on \x1b[1;32m"@ + date_str(
        w.info.date.date,
    ) + "\x1b[0m \x1b[32m"@ + time_hm_str(w.info.date.secs as int)
        + "\x1b[0m (streak date = \x1b[1;33m"@ + date_str(sd) + "\x1b[0m ("@ + weekday_str(
        day_of_week(sd),
    ) + "))\n"@
}

/// A whole workout: headline plus exercise lines.
pub open spec fn render_workout_str(w: Workout, sd: Date) -> Seq<char> {
    render_workout_header_str(w, sd) + render_exercises_str(w.exercises@)
}

/// Renders one workout for the human-readable report.
///
/// Fails with a computation error only when the workout's streak date
/// cannot be represented.
pub fn render_workout(w: &Workout) -> (r: Result<String, AppError>)
    requires
        wf_workout(*w),
    ensures
        r matches Ok(s) ==> streak_date_spec(w.info.date) is Some && s@ == render_workout_str(
            *w,
            streak_date_spec(w.info.date)->Some_0,
        ),
        r matches Err(e) ==> streak_date_spec(w.info.date) is None && e.kind is Computation,
{
    let sd = streak_date(w.info.date)?;
    let mut out = String::new();
    out.append("\x1b[1;38;5;208m");
    out.append(w.info.main_group.as_str());
    out.append("\x1b[0m workout started on \x1b[1;32m");
    let ds = date_string(w.info.date.date);
    out.append(ds.as_str());
    out.append("\x1b[0m \x1b[32m");
    let ts = time_hm_string(w.info.date.secs);
    out.append(ts.as_str());
    out.append("\x1b[0m (streak date = \x1b[1;33m");
    let sds = date_string(sd);
    out.append(sds.as_str());
    out.append("\x1b[0m (");
    out.append(weekday_name(day_of_week_exec(sd)));
    out.append("))\n");
    let mut i: usize = 0;
    while i < w.exercises.len()
        invariant
            i <= w.exercises@.len(),
            out@ == render_workout_header_str(*w, sd) + render_exercises_str(
                w.exercises@.take(i as int),
            ),
        decreases w.exercises@.len() - i,
    {
        proof {
            assert(w.exercises@.take(i + 1).drop_last() =~= w.exercises@.take(i as int));
        }
        let e = &w.exercises[i];
        out.append("    ");
        out.append(e.info.name.as_str());
        out.append(": ");
        let mut k: usize = 0;
        while k < e.sets.len()
            invariant
                k <= e.sets@.len(),
                e == &w.exercises@[i as int],
                i < w.exercises@.len(),
                out@ == render_workout_header_str(*w, sd) + render_exercises_str(
                    w.exercises@.take(i as int),
                ) + "    "@ + e.info.name@ + ": "@ + render_sets_str(e.sets@.take(k as int)),
            decreases e.sets@.len() - k,
        {
            proof {
                assert(e.sets@.take(k + 1).drop_last() =~= e.sets@.take(k as int));
            }
            let st = &e.sets[k];
            let ws = centi_string(st.weight);
            out.append(ws.as_str());
            out.append("x");
            let rs = u64_string(st.reps as u64);
            out.append(rs.as_str());
            out.append("; ");
            k = k + 1;
        }
        proof {
            assert(e.sets@.take(e.sets@.len() as int) =~= e.sets@);
        }
        out.append("\n");
        i = i + 1;
    }
    proof {
        assert(w.exercises@.take(w.exercises@.len() as int) =~= w.exercises@);
    }
    Ok(out)
}

/// The streak date of a workout, where it is defined.
pub open spec fn sd_of(w: Workout) -> Date {
    streak_date_spec(w.info.date)->Some_0
}

/// Whether every workout of the sequence has a representable streak date.
pub open spec fn sds_ok(ws: Seq<Workout>) -> bool {
    forall|i: int| 0 <= i < ws.len() ==> streak_date_spec(#[trigger] ws[i].info.date) is Some
}

/// A run of workouts, oldest first, as rendered for the report.
pub open spec fn render_workouts_str(ws: Seq<Workout>) -> Seq<char>
    decreases ws.len(),
{
    if ws.len() == 0 {
        Seq::<char>::empty()
    } else {
        render_workouts_str(ws.drop_last()) + render_workout_str(ws.last(), sd_of(ws.last()))
    }
}

/// The ongoing-workout section at the top of the report.
pub open spec fn ongoing_section_str(h: WorkoutHistory) -> Seq<char> {
    match h.ongoing_workout {
        Some(w) => "======= Ongoing workout =======\n"@ + render_workout_str(w, sd_of(w)),
        None => "No ongoing workout\n"@,
    }
}

/// The heading of the history section: last `n` workouts, or the whole
/// history.
pub open spec fn history_heading_str(n: Option<int>) -> Seq<char> {
    match n {
        Some(k) => "=========== Last "@ + dec_str(k) + " workouts =======\n"@,
        None => "======= Complete history =======\n"@,
    }
}

/// The slice of completed workouts a request covers: the last `k`, or all.
pub open spec fn requested_slice(h: WorkoutHistory, n: Option<int>) -> Seq<Workout> {
    match n {
        Some(k) => h.workouts@.skip(h.workouts@.len() - k),
        None => h.workouts@,
    }
}

/// The whole human-readable report.
pub open spec fn render_history_str(h: WorkoutHistory, n: Option<int>) -> Seq<char> {
    ongoing_section_str(h) + history_heading_str(n) + render_workouts_str(requested_slice(h, n))
}

/// Whether every workout the report touches has a representable streak
/// date.
pub open spec fn history_sds_ok(h: WorkoutHistory, n: Option<int>) -> bool {
    &&& sds_ok(requested_slice(h, n))
    &&& (h.ongoing_workout matches Some(w) ==> streak_date_spec(w.info.date) is Some)
}

/// Renders the ongoing workout (if any) and the requested slice of the
/// history: all of it, or the last `n` workouts.
///
/// Asking for more workouts than the history holds is a user-input error;
/// an unrepresentable streak date is a computation error.
#[verifier::rlimit(30)]
pub fn render_workout_history(h: &WorkoutHistory, n: Option<usize>) -> (r: Result<String, AppError>)
    requires
        wf_history(*h),
    ensures
        (n matches Some(k) && k > h.workouts@.len()) ==> (r matches Err(e) && e.kind is UserInput),
        r matches Ok(s) ==> {
            let gn = match n {
                Some(k) => Some(k as int),
                None => None,
            };
            &&& (n matches Some(k) ==> k <= h.workouts@.len())
            &&& history_sds_ok(*h, gn)
            &&& s@ == render_history_str(*h, gn)
        },
        r matches Err(e) && e.kind is Computation ==> !history_sds_ok(
            *h,
            match n {
                Some(k) => Some(k as int),
                None => None,
            },
        ),
        r matches Err(e) ==> (e.kind is UserInput ==> (n matches Some(k) && k
            > h.workouts@.len() && e.message@ == "Not that many workouts in the history"@)),
        r matches Err(e) ==> e.kind is UserInput || e.kind is Computation,
{
    let ghost gn: Option<int> = match n {
        Some(k) => Some(k as int),
        None => None,
    };
    let len = h.workouts.len();
    let start: usize = match n {
        Some(k) => {
            if k > len {
                return Err(AppError::user_input("Not that many workouts in the history"));
            }
            len - k
        },
        None => 0,
    };
    let mut out = String::new();
    match &h.ongoing_workout {
        Some(w) => {
            out.append("======= Ongoing workout =======\n");
            let ws = render_workout(w)?;
            out.append(ws.as_str());
        },
        None => {
            out.append("No ongoing workout\n");
        },
    }
    match n {
        Some(k) => {
            out.append("=========== Last ");
            let ks = u64_string(k as u64);
            out.append(ks.as_str());
            out.append(" workouts =======\n");
        },
        None => {
            out.append("======= Complete history =======\n");
        },
    }
    let ghost slice = requested_slice(*h, gn);
    proof {
        assert(slice =~= h.workouts@.skip(start as int));
    }
    let mut i: usize = start;
    while i < len
        invariant
            wf_history(*h),
            start <= i <= len,
            len == h.workouts@.len(),
            gn == (match n {
                Some(k) => Some(k as int),
                None => None,
            }),
            (n matches Some(k) ==> k as int <= len && start == len - k),
            n is None ==> start == 0,
            slice == requested_slice(*h, gn),
            slice =~= h.workouts@.skip(start as int),
            sds_ok(h.workouts@.subrange(start as int, i as int)),
            out@ == ongoing_section_str(*h) + history_heading_str(gn) + render_workouts_str(
                h.workouts@.subrange(start as int, i as int),
            ),
            h.ongoing_workout matches Some(w) ==> streak_date_spec(w.info.date) is Some,
        decreases len - i,
    {
        proof {
            assert(h.workouts@.subrange(start as int, i + 1).drop_last() =~= h.workouts@.subrange(
                start as int,
                i as int,
            ));
        }
        let ws = match render_workout(&h.workouts[i]) {
            Ok(ws) => ws,
            Err(e) => {
                proof {
                    assert(slice[i - start] == h.workouts@[i as int]);
                    assert(streak_date_spec(slice[i - start].info.date) is None);
                }
                return Err(e);
            },
        };
        out.append(ws.as_str());
        i = i + 1;
    }
    proof {
        assert(h.workouts@.subrange(start as int, len as int) =~= slice);
    }
    Ok(out)
}

/// One workout as CSV: a group/date line, then one line per exercise.
pub open spec fn render_exercise_csv_str(e: Exercise) -> Seq<char> {
    ",,"@ + e.info.name@ + ","@ + render_sets_str(e.sets@) + "\n"@
}

pub open spec fn render_exercises_csv_str(es: Seq<Exercise>) -> Seq<char>
    decreases es.len(),
{
    if es.len() == 0 {
        Seq::<char>::empty()
    } else {
        render_exercises_csv_str(es.drop_last()) + render_exercise_csv_str(es.last())
    }
}

pub open spec fn render_workout_csv_str(w: Workout, sd: Date) -> Seq<char> {
    w.info.main_group@ + ","@ + date_str(sd) + "\n"@ + render_exercises_csv_str(w.exercises@)
}

pub open spec fn render_workouts_csv_str(ws: Seq<Workout>) -> Seq<char>
    decreases ws.len(),
{
    if ws.len() == 0 {
        Seq::<char>::empty()
    } else {
        render_workouts_csv_str(ws.drop_last()) + render_workout_csv_str(
            ws.last(),
            sd_of(ws.last()),
        )
    }
}

/// The whole CSV report: a header line, then the requested slice of the
/// history (the ongoing workout is not part of the CSV).
pub open spec fn render_history_csv_str(h: WorkoutHistory, n: Option<int>) -> Seq<char> {
    "Group,Date,Exercise,Sets\n"@ + render_workouts_csv_str(requested_slice(h, n))
}

/// Renders one workout as CSV.
pub fn render_workout_csv(w: &Workout) -> (r: Result<String, AppError>)
    requires
        wf_workout(*w),
    ensures
        r matches Ok(s) ==> streak_date_spec(w.info.date) is Some && s@ == render_workout_csv_str(
            *w,
            streak_date_spec(w.info.date)->Some_0,
        ),
        r matches Err(e) ==> streak_date_spec(w.info.date) is None && e.kind is Computation,
{
    let sd = streak_date(w.info.date)?;
    let mut out = String::new();
    out.append(w.info.main_group.as_str());
    out.append(",");
    let sds = date_string(sd);
    out.append(sds.as_str());
    out.append("\n");
    let mut i: usize = 0;
    while i < w.exercises.len()
        invariant
            i <= w.exercises@.len(),
            out@ == w.info.main_group@ + ","@ + date_str(sd) + "\n"@ + render_exercises_csv_str(
                w.exercises@.take(i as int),
            ),
        decreases w.exercises@.len() - i,
    {
        proof {
            assert(w.exercises@.take(i + 1).drop_last() =~= w.exercises@.take(i as int));
        }
        let e = &w.exercises[i];
        out.append(",,");
        out.append(e.info.name.as_str());
        out.append(",");
        let mut k: usize = 0;
        while k < e.sets.len()
            invariant
                k <= e.sets@.len(),
                e == &w.exercises@[i as int],
                i < w.exercises@.len(),
                out@ == w.info.main_group@ + ","@ + date_str(sd) + "\n"@
                    + render_exercises_csv_str(w.exercises@.take(i as int)) + ",,"@ + e.info.name@
                    + ","@ + render_sets_str(e.sets@.take(k as int)),
            decreases e.sets@.len() - k,
        {
            proof {
                assert(e.sets@.take(k + 1).drop_last() =~= e.sets@.take(k as int));
            }
            let st = &e.sets[k];
            let ws = centi_string(st.weight);
            out.append(ws.as_str());
            out.append("x");
            let rs = u64_string(st.reps as u64);
            out.append(rs.as_str());
            out.append("; ");
            k = k + 1;
        }
        proof {
            assert(e.sets@.take(e.sets@.len() as int) =~= e.sets@);
        }
        out.append("\n");
        i = i + 1;
    }
    proof {
        assert(w.exercises@.take(w.exercises@.len() as int) =~= w.exercises@);
    }
    Ok(out)
}

/// Renders the requested slice of the history as CSV.
pub fn render_workout_history_csv(h: &WorkoutHistory, n: Option<usize>) -> (r: Result<
    String,
    AppError,
>)
    requires
        wf_history(*h),
    ensures
        (n matches Some(k) && k > h.workouts@.len()) ==> (r matches Err(e) && e.kind is UserInput),
        r matches Ok(s) ==> {
            let gn = match n {
                Some(k) => Some(k as int),
                None => None,
            };
            &&& (n matches Some(k) ==> k <= h.workouts@.len())
            &&& sds_ok(requested_slice(*h, gn))
            &&& s@ == render_history_csv_str(*h, gn)
        },
        r matches Err(e) && e.kind is Computation ==> !sds_ok(
            requested_slice(
                *h,
                match n {
                    Some(k) => Some(k as int),
                    None => None,
                },
            ),
        ),
        r matches Err(e) ==> (e.kind is UserInput ==> (n matches Some(k) && k
            > h.workouts@.len() && e.message@ == "Not that many workouts in the history"@)),
        r matches Err(e) ==> e.kind is UserInput || e.kind is Computation,
{
    let ghost gn: Option<int> = match n {
        Some(k) => Some(k as int),
        None => None,
    };
    let len = h.workouts.len();
    let start: usize = match n {
        Some(k) => {
            if k > len {
                return Err(AppError::user_input("Not that many workouts in the history"));
            }
            len - k
        },
        None => 0,
    };
    let ghost slice = requested_slice(*h, gn);
    proof {
        assert(slice =~= h.workouts@.skip(start as int));
    }
    let mut out = String::new();
    out.append("Group,Date,Exercise,Sets\n");
    let mut i: usize = start;
    while i < len
        invariant
            wf_history(*h),
            start <= i <= len,
            len == h.workouts@.len(),
            gn == (match n {
                Some(k) => Some(k as int),
                None => None,
            }),
            (n matches Some(k) ==> k as int <= len && start == len - k),
            n is None ==> start == 0,
            slice == requested_slice(*h, gn),
            slice =~= h.workouts@.skip(start as int),
            sds_ok(h.workouts@.subrange(start as int, i as int)),
            out@ == "Group,Date,Exercise,Sets\n"@ + render_workouts_csv_str(
                h.workouts@.subrange(start as int, i as int),
            ),
        decreases len - i,
    {
        proof {
            assert(h.workouts@.subrange(start as int, i + 1).drop_last() =~= h.workouts@.subrange(
                start as int,
                i as int,
            ));
        }
        let ws = match render_workout_csv(&h.workouts[i]) {
            Ok(ws) => ws,
            Err(e) => {
                proof {
                    assert(slice[i - start] == h.workouts@[i as int]);
                    assert(streak_date_spec(slice[i - start].info.date) is None);
                }
                return Err(e);
            },
        };
        out.append(ws.as_str());
        i = i + 1;
    }
    proof {
        assert(h.workouts@.subrange(start as int, len as int) =~= slice);
    }
    Ok(out)
}

/// One line of the conversion table: `Kkg = LL.LLlbs`.
pub open spec fn kg_line_str(kg: int) -> Seq<char> {
    dec_str(kg) + "kg = "@ + centi_str(kg * 220) + "lbs\n"@
}

/// The first `i` lines of the conversion table (2 kg steps).
pub open spec fn kg_table_str(i: int) -> Seq<char>
    decreases i,
{
    if i <= 0 {
        Seq::<char>::empty()
    } else {
        kg_table_str(i - 1) + kg_line_str(2 * i)
    }
}

/// The fixed kilogram-to-pound conversion table, for even weights from 2 to
/// 20 kg at 2.20 pounds per kilogram.
pub fn kg_table() -> (s: String)
    ensures
        s@ == kg_table_str(10),
{
    let mut out = String::new();
    let mut i: u64 = 1;
    while i <= 10
        invariant
            1 <= i <= 11,
            out@ == kg_table_str(i - 1),
        decreases 11 - i,
    {
        let kg = 2 * i;
        let ks = u64_string(kg);
        out.append(ks.as_str());
        out.append("kg = ");
        let ls = centi_string((kg * 220) as u32);
        out.append(ls.as_str());
        out.append("lbs\n");
        i = i + 1;
    }
    out
}

/// The muscle group of the workout at index `i`.
pub open spec fn group_at(h: WorkoutHistory, i: int) -> Seq<char> {
    h.workouts@[i].info.main_group@
}

/// Whether no later workout trains the same group as the one at index `i`.
pub open spec fn is_last_occurrence(h: WorkoutHistory, i: int) -> bool {
    forall|j: int| i < j < h.workouts@.len() ==> group_at(h, j) != group_at(h, i)
}

impl WorkoutHistory {
    /// Whether the group of the workout at `i` is trained again later.
    fn group_occurs_after(&self, i: usize) -> (r: bool)
        requires
            i < self.workouts@.len(),
        ensures
            r == !is_last_occurrence(*self, i as int),
    {
        let len = self.workouts.len();
        let mut j: usize = i + 1;
        while j < len
            invariant
                i < j <= len,
                len == self.workouts@.len(),
                forall|t: int| i < t < j ==> group_at(*self, t) != group_at(*self, i as int),
            decreases len - j,
        {
            if str_eq(
                self.workouts[j].info.main_group.as_str(),
                self.workouts[i].info.main_group.as_str(),
            ) {
                proof {
                    assert(group_at(*self, j as int) == group_at(*self, i as int));
                }
                return true;
            }
            j = j + 1;
        }
        false
    }

    /// The muscle group whose most recent workout lies the most workouts
    /// ago: for each group trained in the history take the position of its
    /// most recent workout, and report the group whose position is the
    /// oldest.  On an empty history the answer is `"unknown"`.
    pub fn least_recent_group(&self) -> (r: Result<String, AppError>)
        ensures
            r is Ok,
            self.workouts@.len() == 0 ==> r->Ok_0@ == "unknown"@,
            self.workouts@.len() > 0 ==> exists|i: int|
                {
                    &&& 0 <= i < self.workouts@.len()
                    &&& #[trigger] is_last_occurrence(*self, i)
                    &&& r->Ok_0@ == group_at(*self, i)
                    &&& forall|j: int| 0 <= j < i ==> !is_last_occurrence(*self, j)
                },
    {
        let len = self.workouts.len();
        if len == 0 {
            return Ok(String::from_str("unknown"));
        }
        let mut i: usize = 0;
        while i + 1 < len
            invariant
                len == self.workouts@.len(),
                i < len,
                forall|j: int| 0 <= j < i ==> !is_last_occurrence(*self, j),
            decreases len - i,
        {
            if !self.group_occurs_after(i) {
                return Ok(self.workouts[i].info.main_group.clone());
            }
            i = i + 1;
        }
        proof {
            assert(is_last_occurrence(*self, len - 1));
        }
        Ok(self.workouts[i].info.main_group.clone())
    }

    /// The most recent workout whose main group carries the label of `g`,
    /// or an error when the group was never trained.
    pub fn _most_recent(&self, g: MuscleGroup) -> (r: Result<&Workout, AppError>)
        ensures
            r matches Ok(w) ==> exists|i: int|
                {
                    &&& 0 <= i < self.workouts@.len()
                    &&& *w == self.workouts@[i]
                    &&& #[trigger] group_at(*self, i) == group_label(g)
                    &&& forall|j: int|
                        i < j < self.workouts@.len() ==> group_at(*self, j) != group_label(g)
                },
            r matches Err(e) ==> e.kind is UserInput && forall|j: int|
                0 <= j < self.workouts@.len() ==> group_at(*self, j) != group_label(g),
    {
        let gn = g.label();
        let len = self.workouts.len();
        let mut i: usize = len;
        while i > 0
            invariant
                i <= len,
                len == self.workouts@.len(),
                gn@ == group_label(g),
                forall|j: int| i <= j < len ==> group_at(*self, j) != group_label(g),
            decreases i,
        {
            i = i - 1;
            if str_eq(self.workouts[i].info.main_group.as_str(), gn) {
                proof {
                    assert(group_at(*self, i as int) == group_label(g));
                }
                return Ok(&self.workouts[i]);
            }
            proof {
                assert(group_at(*self, i as int) != group_label(g));
            }
        }
        Err(AppError::user_input("No workout for group"))
    }
}

} // verus!
