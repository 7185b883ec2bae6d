//! The domain model: challenges, attempts, statistics and achievements.

pub mod achievement;
pub mod challenge;
pub mod challenge_stats;
pub mod key_sequence;
pub mod mastery_tier;
pub mod progress;
pub mod recording;
pub mod solution;

pub use achievement::{Achievement, AchievementId, UnlockedAchievement};
pub use challenge::Challenge;
pub use challenge_stats::{ChallengeStats, VerificationStatus};
pub use key_sequence::KeySequence;
pub use mastery_tier::MasteryTier;
pub use progress::Progress;
pub use recording::Recording;
pub use solution::Solution;
