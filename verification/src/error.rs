//! The error taxonomy of the journal.
//!
//! Errors are reported to the user and never terminate the session: a failed
//! command leaves the in-memory history unchanged.

use vstd::prelude::*;

verus! {

/// What went wrong, by origin.
#[derive(Clone, Copy, Debug, PartialEq, Eq, Structural)]
pub enum ErrorKind {
    /// Bad or missing arguments, an unknown command, a malformed numeric literal.
    UserInput,
    /// A command that is invalid in the current idle/active state.
    State,
    /// The stored history is not in non-decreasing date order.
    DataIntegrity,
    /// Date arithmetic left the representable calendar range.
    Computation,
}

/// An error with its origin and a short human-readable message.
#[derive(Debug)]
pub struct AppError {
    pub kind: ErrorKind,
    pub message: String,
}

impl AppError {
    pub fn user_input(msg: &str) -> (e: AppError)
        ensures
            e.kind is UserInput,
            e.message@ == msg@,
    {
        AppError { kind: ErrorKind::UserInput, message: msg.to_owned() }
    }

    pub fn state(msg: &str) -> (e: AppError)
        ensures
            e.kind is State,
            e.message@ == msg@,
    {
        AppError { kind: ErrorKind::State, message: msg.to_owned() }
    }

    pub fn data_integrity(msg: &str) -> (e: AppError)
        ensures
            e.kind is DataIntegrity,
            e.message@ == msg@,
    {
        AppError { kind: ErrorKind::DataIntegrity, message: msg.to_owned() }
    }

    pub fn computation(msg: &str) -> (e: AppError)
        ensures
            e.kind is Computation,
            e.message@ == msg@,
    {
        AppError { kind: ErrorKind::Computation, message: msg.to_owned() }
    }

    /// The message, for display by a caller.
    pub fn render(&self) -> (s: String)
        ensures
            s@ == self.message@,
    {
        self.message.clone()
    }
}

} // verus!
