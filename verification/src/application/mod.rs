//! Application services: what the ledger does with the domain model.

pub mod achievement_checker;
pub mod challenge_runner;
pub mod progress_repository;
pub mod progress_tracker;
pub mod validator;

pub use achievement_checker::AchievementChecker;
pub use progress_repository::ProgressRepository;
pub use progress_tracker::{ProgressTracker, RecordingFile};
pub use validator::SolutionValidator;
