use chrono::{TimeZone, Utc};
use editor_dojo::domain::{AchievementId, ChallengeStats, Progress, UnlockedAchievement};
use editor_dojo::time::{Date, Duration, Timestamp};

fn ts(at: chrono::DateTime<Utc>) -> Timestamp {
    Timestamp::new(at.timestamp(), at.timestamp_subsec_nanos())
}

fn day(at: chrono::DateTime<Utc>) -> Date {
    Date::from_days(at.date_naive().to_epoch_days() as i64)
}

#[test]
fn test_new_progress_is_empty() {
    let progress = Progress::new();
    assert_eq!(progress.total_completed(), 0);
    assert_eq!(progress.total_practice_time(), Duration::zero());
    assert_eq!(progress.longest_streak(), 0);
    assert!(progress.last_practice_date().is_none());
}

#[test]
fn test_record_first_completion() {
    let mut progress = Progress::new();
    let now = Utc::now();

    progress.record_attempt("test-1".to_string(), true, Duration::from_secs(10), Some(15), ts(now));

    assert_eq!(progress.total_completed(), 1);
    assert_eq!(progress.total_practice_time(), Duration::from_secs(10));
    assert_eq!(progress.last_practice_date(), Some(day(now)));
}

#[test]
fn test_record_multiple_attempts_same_challenge() {
    let mut progress = Progress::new();
    let now = Utc::now();

    progress.record_attempt("test-1".to_string(), true, Duration::from_secs(10), Some(15), ts(now));

    let later = now + chrono::Duration::seconds(60);
    progress.record_attempt("test-1".to_string(), true, Duration::from_secs(8), Some(12), ts(later));

    assert_eq!(progress.total_completed(), 1);
    assert_eq!(progress.total_practice_time(), Duration::from_secs(18));

    let stats = progress.get_challenge_stats("test-1").unwrap();
    assert_eq!(stats.attempt_count(), 2);
    assert_eq!(stats.best_time(), Some(Duration::from_secs(8)));
}

#[test]
fn test_streak_calculation() {
    let mut progress = Progress::new();

    let day1 = Utc.with_ymd_and_hms(2025, 1, 1, 12, 0, 0).unwrap();
    progress.record_attempt("test-1".to_string(), true, Duration::from_secs(10), Some(15), ts(day1));

    let streak = progress.calculate_current_streak(day(day1));
    assert_eq!(streak, 1);

    let day2 = Utc.with_ymd_and_hms(2025, 1, 2, 12, 0, 0).unwrap();
    progress.record_attempt("test-2".to_string(), true, Duration::from_secs(10), Some(15), ts(day2));

    let streak = progress.calculate_current_streak(day(day2));
    assert_eq!(streak, 2);
    assert_eq!(progress.longest_streak(), 2);
}

#[test]
fn test_streak_breaks_after_missing_day() {
    let mut progress = Progress::new();

    let day1 = Utc.with_ymd_and_hms(2025, 1, 1, 12, 0, 0).unwrap();
    progress.record_attempt("test-1".to_string(), true, Duration::from_secs(10), Some(15), ts(day1));

    let day3 = Utc.with_ymd_and_hms(2025, 1, 3, 12, 0, 0).unwrap();
    let streak = progress.calculate_current_streak(day(day3));
    assert_eq!(streak, 0);

    assert_eq!(progress.longest_streak(), 1);
}

#[test]
fn test_average_calculations() {
    let mut progress = Progress::new();
    let now = ts(Utc::now());

    progress.record_attempt("test-1".to_string(), true, Duration::from_secs(10), Some(15), now);
    progress.record_attempt("test-2".to_string(), true, Duration::from_secs(20), Some(25), now);

    assert_eq!(progress.average_solve_time(), Some(Duration::from_secs(15)));
    assert_eq!(progress.average_keystrokes(), Some(20));
}

#[test]
fn the_day_of_an_instant_is_the_day_of_chrono() {
    for secs in [0i64, 1, 86_399, 86_400, -1, -86_400, -86_401, 1_735_732_800, -2_208_988_800] {
        let at = Utc.timestamp_opt(secs, 0).unwrap();
        assert_eq!(ts(at).date(), day(at), "at {}", secs);
    }
    assert_eq!(Timestamp::new(-1, 999_999_999).date(), Date::from_days(-1));
    assert_eq!(Timestamp::new(i64::MIN, 0).date().days(), i64::MIN / 86_400 - 1);
    assert_eq!(Timestamp::new(i64::MAX, 0).date().days(), i64::MAX / 86_400);
}

#[test]
fn a_gap_of_more_than_a_day_ends_the_streak() {
    let mut progress = Progress::new();
    let start = 20_000i64;
    for i in 0..5 {
        let at = Timestamp::new((start + i) * 86_400 + 3600, 0);
        progress.record_attempt(format!("c-{}", i), true, Duration::from_secs(30), None, at);
    }
    assert_eq!(progress.longest_streak(), 5);
    let last = start + 4;
    assert_eq!(progress.calculate_current_streak(Date::from_days(last)), 5);
    // The day after the last practice day has no completion of its own.
    assert_eq!(progress.calculate_current_streak(Date::from_days(last + 1)), 0);
    assert_eq!(progress.calculate_current_streak(Date::from_days(last + 2)), 0);
    assert_eq!(progress.calculate_current_streak(Date::from_days(last + 400)), 0);
    // Looking back is no gap: the streak is counted from the day asked for.
    assert_eq!(progress.calculate_current_streak(Date::from_days(last - 1)), 4);
    assert_eq!(progress.calculate_current_streak(Date::from_days(start)), 1);
    assert_eq!(progress.calculate_current_streak(Date::from_days(start - 1)), 0);
    assert_eq!(Progress::new().calculate_current_streak(Date::from_days(last)), 0);
}

#[test]
fn only_first_completions_carry_a_streak() {
    let mut progress = Progress::new();
    let at = |d: i64| Timestamp::new(d * 86_400, 0);
    progress.record_attempt("a".to_string(), true, Duration::from_secs(30), None, at(100));
    // Solving the same challenge again on the next day adds no day.
    progress.record_attempt("a".to_string(), true, Duration::from_secs(20), None, at(101));
    assert_eq!(progress.calculate_current_streak(Date::from_days(101)), 0);
    assert_eq!(progress.longest_streak(), 1);
    // An attempt that fails adds none either.
    progress.record_attempt("b".to_string(), false, Duration::from_secs(20), None, at(101));
    assert_eq!(progress.calculate_current_streak(Date::from_days(101)), 0);
    // A first completion does, and joins up with the day before.
    progress.record_attempt("b".to_string(), true, Duration::from_secs(20), None, at(101));
    assert_eq!(progress.calculate_current_streak(Date::from_days(101)), 2);
    assert_eq!(progress.longest_streak(), 2);
}

#[test]
fn practice_time_counts_every_attempt() {
    let mut progress = Progress::new();
    let at = Timestamp::new(1000, 0);
    progress.record_attempt("a".to_string(), false, Duration::new(1, 600_000_000).unwrap(), None, at);
    progress.record_attempt("a".to_string(), true, Duration::new(2, 700_000_000).unwrap(), Some(5), at);
    progress.record_attempt("b".to_string(), false, Duration::new(0, 800_000_000).unwrap(), None, at);
    assert_eq!(progress.total_practice_time(), Duration::new(5, 100_000_000).unwrap());
    assert_eq!(progress.total_attempts(), 3);
    assert_eq!(progress.total_completed(), 1);
    assert_eq!(progress.all_challenge_stats().len(), 2);
    assert_eq!(progress.average_solve_time(), Some(Duration::from_secs(2)));
    assert_eq!(progress.average_keystrokes(), Some(5));
    assert_eq!(Progress::new().average_solve_time(), None);
    assert_eq!(Progress::new().average_keystrokes(), None);
}

#[test]
fn limits_are_told_before_they_are_hit() {
    let mut progress = Progress::new();
    let at = Timestamp::new(1000, 0);
    assert!(progress.can_record("a", Duration::from_secs(u64::MAX)));
    progress.record_attempt("a".to_string(), true, Duration::from_secs(u64::MAX), None, at);
    assert!(progress.can_record("a", Duration::new(0, 999_999_999).unwrap()));
    assert!(!progress.can_record("a", Duration::from_secs(1)));
    assert!(!progress.can_record("b", Duration::from_secs(1)));
}

#[test]
fn integrity_goes_to_the_named_challenge_only() {
    let mut progress = Progress::new();
    let at = Timestamp::new(1000, 0);
    progress.record_attempt("a".to_string(), true, Duration::from_secs(3), Some(5), at);
    progress.record_attempt("b".to_string(), true, Duration::from_secs(3), Some(5), at);
    progress.update_challenge_integrity("b", "hash".to_string(), "sig".to_string(), 1);
    progress.update_challenge_integrity("zzz", "hash".to_string(), "sig".to_string(), 1);
    assert_eq!(progress.get_challenge_stats("a").unwrap().signature(), None);
    assert_eq!(progress.get_challenge_stats("b").unwrap().signature(), Some("sig"));
    assert_eq!(progress.get_challenge_stats("b").unwrap().recording_hash(), Some("hash"));
    assert!(progress.get_challenge_stats("zzz").is_none());
    assert_eq!(progress.all_challenge_stats().len(), 2);
}

#[test]
fn achievements_unlock_once() {
    let mut progress = Progress::new();
    let first = Timestamp::new(1000, 0);
    let second = Timestamp::new(2000, 0);
    assert!(!progress.is_achievement_unlocked(AchievementId::GoldRush));
    progress.unlock_achievement(AchievementId::GoldRush, first);
    progress.unlock_achievement(AchievementId::GoldRush, second);
    progress.unlock_achievement(AchievementId::FirstSteps, second);
    assert!(progress.is_achievement_unlocked(AchievementId::GoldRush));
    assert_eq!(progress.achievement_count(), 2);
    assert_eq!(progress.unlocked_achievement_ids(), vec![AchievementId::GoldRush, AchievementId::FirstSteps]);
}

#[test]
fn progress_from_parts() {
    let at = Timestamp::new(1000, 0);
    let stats = vec![
        ChallengeStats::completed("a".to_string(), Duration::from_secs(3), Some(5), at),
        ChallengeStats::new("b".to_string()),
    ];
    let unlocked = vec![UnlockedAchievement::new(AchievementId::FirstSteps, at)];
    assert!(Progress::valid_entries(&stats, &unlocked));
    let progress = Progress::with_values(
        stats,
        Duration::from_secs(77),
        Some(Date::from_days(3)),
        4,
        Some("Helix".to_string()),
        unlocked,
    );
    assert!(progress.is_well_formed());
    assert_eq!(progress.total_completed(), 1);
    assert_eq!(progress.total_practice_time(), Duration::from_secs(77));
    assert_eq!(progress.last_practice_date(), Some(Date::from_days(3)));
    assert_eq!(progress.longest_streak(), 4);
    assert_eq!(progress.editor_preference(), Some("Helix"));
    assert!(progress.is_achievement_unlocked(AchievementId::FirstSteps));
    let copy = progress.clone().set_editor_preference("Vim".to_string());
    assert_eq!(copy.editor_preference(), Some("Vim"));
    assert_eq!(copy.total_completed(), 1);

    let twice = vec![ChallengeStats::new("a".to_string()), ChallengeStats::new("a".to_string())];
    assert!(!Progress::valid_entries(&twice, &vec![]));
    let unlocked_twice = vec![
        UnlockedAchievement::new(AchievementId::FirstSteps, at),
        UnlockedAchievement::new(AchievementId::FirstSteps, at),
    ];
    assert!(!Progress::valid_entries(&vec![], &unlocked_twice));
}
