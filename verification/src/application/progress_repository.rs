//! Where progress is kept between runs.

use vstd::prelude::*;
use crate::domain::progress::Progress;
use crate::error::LedgerError;

verus! {

/// A store of progress. Both operations deal in whole snapshots, never in
/// single fields.
pub trait ProgressRepository {
    /// The stored progress; empty progress where nothing is stored yet.
    fn load(&self) -> Result<Progress, LedgerError>;

    /// Stores the progress in place of what was stored before.
    fn save(&self, progress: &Progress) -> Result<(), LedgerError>;

    /// Whether anything is stored.
    fn has_snapshot(&self) -> bool;
}

} // verus!
