use vstd::prelude::*;

verus! {

/// The category of a failed command, as the front end sees it.
#[derive(Clone, Copy, Debug, PartialEq, Eq, Structural)]
pub enum ErrorKind {
    Db,
    Io,
    NotFound,
    Validation,
    Internal,
    Locked,
}

/// The one error type of every command: a category and a human-readable message.
#[derive(Clone, Debug)]
pub struct AppError {
    pub kind: ErrorKind,
    pub message: String,
}

/// Result of a command.
pub type AppResult<T> = Result<T, AppError>;

impl AppError {
    /// A storage error with the given message.
    pub fn db(msg: &str) -> (e: AppError)
        ensures
            e.kind == ErrorKind::Db,
            e.message@ == msg@,
    {
        AppError { kind: ErrorKind::Db, message: String::from_str(msg) }
    }

    /// An internal error with the given message.
    pub fn internal(msg: &str) -> (e: AppError)
        ensures
            e.kind == ErrorKind::Internal,
            e.message@ == msg@,
    {
        AppError { kind: ErrorKind::Internal, message: String::from_str(msg) }
    }

    /// An error of an arbitrary kind with the given message.
    pub fn new(kind: ErrorKind, msg: &str) -> (e: AppError)
        ensures
            e.kind == kind,
            e.message@ == msg@,
    {
        AppError { kind, message: String::from_str(msg) }
    }

    /// An error of an arbitrary kind whose message is already owned.
    pub fn with_message(kind: ErrorKind, message: String) -> (e: AppError)
        ensures
            e.kind == kind,
            e.message@ == message@,
    {
        AppError { kind, message }
    }
}

} // verus!
