use editor_dojo::domain::{AchievementId, ChallengeStats, Progress, UnlockedAchievement, VerificationStatus};
use editor_dojo::error::LedgerError;
use editor_dojo::infrastructure::snapshot::{
    ChallengeStatsSnapshot, ProgressSnapshot, UnlockedAchievementSnapshot,
};
use editor_dojo::time::{Date, Duration, Timestamp};

const FIRST: i64 = 1_736_937_000;

fn stored(id: &str) -> ChallengeStatsSnapshot {
    ChallengeStatsSnapshot {
        challenge_id: id.to_string(),
        completed: true,
        best_time_secs: Some(8),
        best_time_subsec_nanos: 250_000_000,
        best_keystrokes: Some(12),
        first_completed_at: Some("2025-01-15T10:30:00+00:00".to_string()),
        last_attempted_at: Some("2025-01-16T10:30:00+00:00".to_string()),
        attempt_count: 3,
        recording_hash: Some("hash".to_string()),
        signature: Some("sig".to_string()),
        signature_version: Some(1),
    }
}

#[test]
fn statistics_to_their_stored_form_and_back() {
    let first = Timestamp::new(FIRST, 0);
    let last = Timestamp::new(FIRST + 86_400, 0);
    let stats = ChallengeStats::completed("c1".to_string(), Duration::new(8, 250_000_000).unwrap(), Some(12), first)
        .record_attempt(false, Duration::from_secs(1), None, first)
        .record_attempt(true, Duration::from_secs(9), Some(20), last)
        .with_integrity("hash".to_string(), "sig".to_string(), 1);
    let snapshot = ChallengeStatsSnapshot::from_domain(&stats);
    assert_eq!(snapshot, stored("c1"));
    let back = snapshot.to_domain(Timestamp::new(0, 0));
    assert_eq!(back, stats);
    assert_eq!(back.verification_status(), VerificationStatus::Unverified);
}

#[test]
fn what_is_missing_is_made_up_as_before() {
    let fallback = Timestamp::new(77, 0);
    // No first completion stored: the fallback takes its place.
    let mut snapshot = stored("c1");
    snapshot.first_completed_at = None;
    snapshot.signature = None;
    let stats = snapshot.to_domain(fallback);
    assert_eq!(stats.first_completed_at(), Some(fallback));
    assert_eq!(stats.last_attempted_at(), Some(Timestamp::new(FIRST + 86_400, 0)));
    assert_eq!(stats.verification_status(), VerificationStatus::Legacy);
    assert_eq!(stats.recording_hash(), Some("hash"));
    // One attempt only: the last attempt is the first completion.
    let mut snapshot = stored("c1");
    snapshot.attempt_count = 1;
    let stats = snapshot.to_domain(fallback);
    assert_eq!(stats.last_attempted_at(), Some(Timestamp::new(FIRST, 0)));
    assert_eq!(stats.attempt_count(), 1);
    // No attempt counted: a completed challenge has one.
    let mut snapshot = stored("c1");
    snapshot.attempt_count = 0;
    snapshot.last_attempted_at = Some("rubbish".to_string());
    let stats = snapshot.to_domain(fallback);
    assert_eq!(stats.attempt_count(), 1);
    assert_eq!(stats.last_attempted_at(), Some(Timestamp::new(FIRST, 0)));
    // A sub-second part that is none.
    let mut snapshot = stored("c1");
    snapshot.best_time_subsec_nanos = 1_000_000_000;
    assert_eq!(snapshot.to_domain(fallback).best_time(), Some(Duration::from_secs(8)));
    // Not completed, or no best time: a challenge never attempted.
    let mut snapshot = stored("c1");
    snapshot.completed = false;
    assert_eq!(snapshot.to_domain(fallback), ChallengeStats::new("c1".to_string()));
    let mut snapshot = stored("c1");
    snapshot.best_time_secs = None;
    assert_eq!(snapshot.to_domain(fallback), ChallengeStats::new("c1".to_string()));
}

#[test]
fn unlocked_achievements_in_their_stored_form() {
    let unlocked = UnlockedAchievement::new(AchievementId::GoldRush, Timestamp::new(FIRST, 0));
    let snapshot = UnlockedAchievementSnapshot::from_domain(&unlocked).unwrap();
    assert_eq!(snapshot.id, AchievementId::GoldRush);
    assert_eq!(snapshot.unlocked_at, "2025-01-15T10:30:00+00:00");
    assert_eq!(snapshot.to_domain(), Some(unlocked));
    let unreadable = UnlockedAchievementSnapshot { id: AchievementId::GoldRush, unlocked_at: "then".to_string() };
    assert_eq!(unreadable.to_domain(), None);
    let far = UnlockedAchievement::new(AchievementId::GoldRush, Timestamp::new(i64::MAX, 0));
    assert_eq!(UnlockedAchievementSnapshot::from_domain(&far), None);
}

#[test]
fn progress_to_its_stored_form_and_back() {
    let mut progress = Progress::new().set_editor_preference("Helix".to_string());
    progress.record_attempt("a".to_string(), true, Duration::new(8, 250_000_000).unwrap(), Some(12), Timestamp::new(FIRST, 0));
    progress.record_attempt("b".to_string(), true, Duration::from_secs(20), None, Timestamp::new(FIRST + 86_400, 0));
    progress.unlock_achievement(AchievementId::CenturyClub, Timestamp::new(FIRST + 50, 0));
    progress.unlock_achievement(AchievementId::FirstSteps, Timestamp::new(FIRST + 10, 0));
    let snapshot = ProgressSnapshot::from_domain(&progress);
    assert_eq!(snapshot.editor_preference, Some("Helix".to_string()));
    assert_eq!(snapshot.total_practice_time_secs, 28);
    assert_eq!(snapshot.total_practice_time_subsec_nanos, 250_000_000);
    assert_eq!(snapshot.last_practice_date, Some("2025-01-16".to_string()));
    assert_eq!(snapshot.longest_streak, 2);
    assert_eq!(snapshot.challenges.len(), 2);
    assert_eq!(snapshot.challenges[0].challenge_id, "a");
    assert_eq!(snapshot.challenges[1].challenge_id, "b");
    // The achievements are stored by the time at which they were unlocked.
    let ids: Vec<AchievementId> = snapshot.unlocked_achievements.iter().map(|u| u.id).collect();
    assert_eq!(ids, vec![AchievementId::FirstSteps, AchievementId::CenturyClub]);

    let back = snapshot.to_domain(Timestamp::new(0, 0)).unwrap();
    assert!(back.is_well_formed());
    assert_eq!(back.editor_preference(), Some("Helix"));
    assert_eq!(back.total_practice_time(), progress.total_practice_time());
    assert_eq!(back.last_practice_date(), Some(Date::from_days(20_104)));
    assert_eq!(back.longest_streak(), 2);
    assert_eq!(back.all_challenge_stats(), progress.all_challenge_stats());
    assert_eq!(back.unlocked_achievement_ids(), vec![AchievementId::FirstSteps, AchievementId::CenturyClub]);
    assert_eq!(back.calculate_current_streak(Date::from_days(20_104)), 2);
}

#[test]
fn empty_and_corrupt_snapshots() {
    let empty = ProgressSnapshot::empty().to_domain(Timestamp::new(0, 0)).unwrap();
    assert_eq!(empty.total_completed(), 0);
    assert_eq!(empty.total_practice_time(), Duration::zero());
    assert_eq!(empty.last_practice_date(), None);

    let mut twice = ProgressSnapshot::empty();
    twice.challenges = vec![stored("a"), stored("b"), stored("a")];
    assert_eq!(twice.to_domain(Timestamp::new(0, 0)).err(), Some(LedgerError::PersistenceCorruption));

    let mut unlocked_twice = ProgressSnapshot::empty();
    let entry = UnlockedAchievementSnapshot {
        id: AchievementId::FirstSteps,
        unlocked_at: "2025-01-15T10:30:00+00:00".to_string(),
    };
    unlocked_twice.unlocked_achievements = vec![entry.clone(), entry.clone()];
    assert_eq!(unlocked_twice.to_domain(Timestamp::new(0, 0)).err(), Some(LedgerError::PersistenceCorruption));

    // An unreadable time drops the achievement, an unreadable day the day.
    let mut lenient = ProgressSnapshot::empty();
    lenient.unlocked_achievements = vec![
        UnlockedAchievementSnapshot { id: AchievementId::FirstSteps, unlocked_at: "?".to_string() },
        entry,
    ];
    lenient.last_practice_date = Some("yesterday".to_string());
    lenient.challenges = vec![stored("b"), stored("a")];
    let progress = lenient.to_domain(Timestamp::new(0, 0)).unwrap();
    assert_eq!(progress.achievement_count(), 1);
    assert_eq!(progress.last_practice_date(), None);
    assert_eq!(progress.all_challenge_stats()[0].challenge_id(), "b");
    assert_eq!(progress.all_challenge_stats()[1].challenge_id(), "a");
}

#[test]
fn sorted_views_of_progress() {
    let mut progress = Progress::new();
    let at = |s: i64| Timestamp::new(FIRST + s, 0);
    progress.record_attempt("old".to_string(), true, Duration::from_secs(5), None, at(10));
    progress.record_attempt("never".to_string(), false, Duration::from_secs(5), None, at(500));
    progress.record_attempt("new".to_string(), true, Duration::from_secs(5), None, at(30));
    progress.record_attempt("mid".to_string(), true, Duration::from_secs(5), None, at(20));
    progress.record_attempt("tie".to_string(), true, Duration::from_secs(5), None, at(30));
    let recent = |limit: usize| -> Vec<String> {
        progress.recently_completed(limit).iter().map(|s| s.challenge_id().to_string()).collect()
    };
    assert_eq!(recent(10), vec!["new", "tie", "mid", "old"]);
    assert_eq!(recent(4), vec!["new", "tie", "mid", "old"]);
    assert_eq!(recent(2), vec!["new", "tie"]);
    assert_eq!(recent(0), Vec::<String>::new());
    assert!(Progress::new().recently_completed(3).is_empty());

    progress.unlock_achievement(AchievementId::GoldRush, at(9));
    progress.unlock_achievement(AchievementId::FirstSteps, at(3));
    progress.unlock_achievement(AchievementId::CenturyClub, at(9));
    progress.unlock_achievement(AchievementId::SpeedDemon, at(1));
    let sorted: Vec<AchievementId> = progress.unlocked_achievements().iter().map(|u| u.id()).collect();
    assert_eq!(
        sorted,
        vec![AchievementId::SpeedDemon, AchievementId::FirstSteps, AchievementId::GoldRush, AchievementId::CenturyClub]
    );
}
