//! The library's two outside collaborators, behind trusted wrappers: the
//! wall clock (chrono) and the shell-word tokenizer (shell-words).
//! Everything else the journal does is verified code.

use vstd::prelude::*;
use crate::date::Date;
use crate::date::Timestamp;
use crate::date::valid_timestamp;
use crate::error::AppError;

verus! {

/// Relies on chrono::Local::now and the Datelike/Timelike accessors: the
/// current local time as civil year, month, day, and seconds since
/// midnight.  chrono represents only valid calendar dates, with years
/// between -262143 and 262142, and its seconds of a day stay below 86400.
#[verifier::external_body]
pub(crate) fn now_timestamp() -> (t: Timestamp)
    ensures
        valid_timestamp(t),
{
    let now = chrono::Local::now();
    let d = now.date_naive();
    Timestamp {
        date: Date {
            year: chrono::Datelike::year(&d),
            month: chrono::Datelike::month(&d) as u8,
            day: chrono::Datelike::day(&d) as u8,
        },
        secs: chrono::Timelike::num_seconds_from_midnight(&now.time()),
    }
}

#[verifier::external_type_specification]
#[verifier::external_body]
pub struct ExParseError(shell_words::ParseError);

/// What the tokenizer returns for a line: its shell words, or nothing when
/// the line cannot be tokenized (an unmatched quote).
pub uninterp spec fn tokens_of(line: Seq<char>) -> Option<Seq<Seq<char>>>;

/// Relies on shell_words::split: POSIX-shell-style word splitting of one
/// command line, a function of the line alone; it fails exactly when the
/// line holds an unmatched quote.
#[verifier::external_body]
fn split_line(line: &str) -> (r: Result<Vec<String>, shell_words::ParseError>)
    ensures
        r matches Ok(v) ==> tokens_of(line@) == Some(v@.map_values(|s: String| s@)),
        r is Err ==> tokens_of(line@) is None,
{
    shell_words::split(line)
}

/// Splits one input line into a command name and its arguments, with the
/// quoting rules of a Unix shell.
pub fn tokenize_command_line(line: &str) -> (r: Result<Vec<String>, AppError>)
    ensures
        r matches Ok(v) ==> tokens_of(line@) == Some(v@.map_values(|s: String| s@)),
        r matches Err(e) ==> tokens_of(line@) is None && e.kind is UserInput && e.message@
            == "Could not split the command line"@,
{
    match split_line(line) {
        Ok(v) => Ok(v),
        Err(_) => Err(AppError::user_input("Could not split the command line")),
    }
}

} // verus!
