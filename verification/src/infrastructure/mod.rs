//! What touches the formats of the outside world: recordings, signatures and
//! stored snapshots.

pub mod cast_parser;
pub mod challenge_loader;
pub mod crypto;
pub mod recorder;
pub mod snapshot;

pub use cast_parser::CastParser;
pub use challenge_loader::{ChallengeLoader, TomlChallengeLoader};
pub use recorder::AsciinemaRecorder;
pub use snapshot::ProgressSnapshot;
