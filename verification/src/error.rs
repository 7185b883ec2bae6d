//! What can go wrong in the ledger.

use vstd::prelude::*;
use vstd::string::*;

verus! {

/// An error of the ledger.
#[derive(Debug, Clone, Copy, PartialEq, Eq, Structural)]
pub enum LedgerError {
    /// A file could not be read, written or hashed.
    Io,
    /// The lock on the progress is poisoned: an operation failed while it
    /// held the lock.
    Lock,
    /// A line of a recording is malformed.
    Parse,
    /// The saved snapshot is unreadable or invalid.
    PersistenceCorruption,
    /// An input was refused, such as an identifier that cannot safely name a
    /// file.
    Validation,
    /// The attempt cannot be recorded any more: a counter or a total has
    /// reached the end of its range.
    LimitExceeded,
}

impl LedgerError {
    /// What went wrong, in words.
    pub fn message(&self) -> (text: &'static str)
        ensures
            text@ == match *self {
                LedgerError::Io => "a file could not be read or written"@,
                LedgerError::Lock => "the lock on the progress is poisoned"@,
                LedgerError::Parse => "a line of the recording is malformed"@,
                LedgerError::PersistenceCorruption => "the saved progress is unreadable or invalid"@,
                LedgerError::Validation => "an input was refused"@,
                LedgerError::LimitExceeded => "a counter has reached the end of its range"@,
            },
    {
        match self {
            LedgerError::Io => "a file could not be read or written",
            LedgerError::Lock => "the lock on the progress is poisoned",
            LedgerError::Parse => "a line of the recording is malformed",
            LedgerError::PersistenceCorruption => "the saved progress is unreadable or invalid",
            LedgerError::Validation => "an input was refused",
            LedgerError::LimitExceeded => "a counter has reached the end of its range",
        }
    }
}

} // verus!
