//! The failures that the library reports.

use crate::category::CategoryKind;
use vstd::prelude::*;

verus! {

/// The argument that was found malformed.
#[derive(Clone, Copy, Debug, PartialEq, Eq, Structural)]
pub enum Argument {
    /// Permission bits outside the recognised set.
    Mode,
    /// A negative file descriptor, the "no descriptor" value included.
    Descriptor,
}

/// The system call of the marker-file protocol that was in flight.
#[derive(Clone, Copy, Debug, PartialEq, Eq, Structural)]
pub enum Stage {
    Open,
    Lock,
    Truncate,
    Write,
}

/// Every failure that the library can report, with its diagnostic detail.
#[derive(Clone, Copy, Debug, PartialEq, Eq, Structural)]
pub enum Error {
    /// An argument was rejected before anything was attempted.
    InvalidArgument(Argument),
    /// Another process holds the lock; `code` is the operating system's error.
    LockHeld { code: i32 },
    /// A system call failed; `code` is the operating system's error.
    IOFailure { stage: Stage, code: i32 },
    /// Two writes in a row delivered nothing.
    WriteIncomplete,
    /// The enforcement engine rejected the rule set at `index`, of `category`.
    PolicyError { category: CategoryKind, index: usize },
    /// A signal handler asked for cancellation while a system call was retried.
    Interrupted,
}

impl Error {
    /// The one-line description of the failure.
    pub open spec fn spec_message(self) -> Seq<char> {
        match self {
            Error::InvalidArgument(Argument::Mode) => "`mode` argument contains unknown bits"@,
            Error::InvalidArgument(Argument::Descriptor) => "illegal fileno"@,
            Error::LockHeld { .. } => "Could not file lock PID file."@,
            Error::IOFailure { stage: Stage::Open, .. } => "Could not open or create PID file."@,
            Error::IOFailure { stage: Stage::Lock, .. } => "Could not file lock PID file."@,
            Error::IOFailure { stage: Stage::Truncate, .. } => "Could not truncate PID file."@,
            Error::IOFailure { stage: Stage::Write, .. } => "Could not write to PID file."@,
            Error::WriteIncomplete => "Could not write all data to PID file."@,
            Error::PolicyError { .. } => "policy could not be applied"@,
            Error::Interrupted => "interrupted by a signal"@,
        }
    }

    /// The one-line description of the failure.
    pub fn message(&self) -> (text: &'static str)
        ensures
            text@ == self.spec_message(),
    {
        match self {
            Error::InvalidArgument(Argument::Mode) => "`mode` argument contains unknown bits",
            Error::InvalidArgument(Argument::Descriptor) => "illegal fileno",
            Error::LockHeld { .. } => "Could not file lock PID file.",
            Error::IOFailure { stage: Stage::Open, .. } => "Could not open or create PID file.",
            Error::IOFailure { stage: Stage::Lock, .. } => "Could not file lock PID file.",
            Error::IOFailure { stage: Stage::Truncate, .. } => "Could not truncate PID file.",
            Error::IOFailure { stage: Stage::Write, .. } => "Could not write to PID file.",
            Error::WriteIncomplete => "Could not write all data to PID file.",
            Error::PolicyError { .. } => "policy could not be applied",
            Error::Interrupted => "interrupted by a signal",
        }
    }

    /// The operating system's error code, where the failure carries one.
    pub open spec fn spec_os_code(self) -> Option<i32> {
        match self {
            Error::LockHeld { code } => Some(code),
            Error::IOFailure { code, .. } => Some(code),
            _ => None,
        }
    }

    /// The operating system's error code, where the failure carries one.
    pub fn os_code(&self) -> (code: Option<i32>)
        ensures
            code == self.spec_os_code(),
    {
        match self {
            Error::LockHeld { code } => Some(*code),
            Error::IOFailure { code, .. } => Some(*code),
            _ => None,
        }
    }
}

} // verus!
