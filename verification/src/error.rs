//! Error values shared by the token pool, the build driver and the helpers.

use vstd::prelude::*;

verus! {

/// What went wrong, at the level a caller can act on.
#[derive(Clone, Copy, Debug, PartialEq, Eq, Structural)]
pub enum ErrorKind {
    /// An argument handed to the library was unusable.
    InvalidArgument,
    /// A rustc codegen flag that needs a value was given without one.
    InvalidFlag,
    /// The target triple is not one the library knows.
    InvalidTarget,
    /// A required environment value was absent.
    EnvVarNotFound,
    /// A pipe, file or other operating-system operation failed.
    IOError,
    /// The executable named in a task's command does not exist.
    ToolNotFound,
    /// The tool ran and exited with a non-zero status, or waiting on it failed.
    ToolExecError,
    /// The inherited jobserver handle was present but malformed or unusable.
    JobserverProtocolError,
    /// The jobserver helper's result channel disconnected unexpectedly.
    JobserverHelpThreadError,
}

/// An error: a kind plus a human-readable description.
#[derive(Clone, Debug, PartialEq, Eq)]
pub struct Error {
    pub kind: ErrorKind,
    pub message: String,
}

impl Error {
    /// Build an error of the given kind carrying the given description.
    pub fn new(kind: ErrorKind, message: String) -> (e: Error)
        ensures
            e.kind == kind,
            e.message@ == message@,
    {
        Error { kind, message }
    }

    /// The kind of this error.
    pub fn kind(&self) -> (k: ErrorKind)
        ensures
            k == self.kind,
    {
        self.kind
    }

    /// The human-readable description of this error.
    pub fn message(&self) -> (m: &String)
        ensures
            m@ == self.message@,
    {
        &self.message
    }
}

} // verus!
