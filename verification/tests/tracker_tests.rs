use editor_dojo::application::{ProgressRepository, ProgressTracker, RecordingFile};
use editor_dojo::domain::{
    AchievementId, KeySequence, Progress, Recording, Solution, VerificationStatus,
};
use editor_dojo::error::LedgerError;
use editor_dojo::infrastructure::crypto::{calculate_file_hash, sign_result, SigningKey};
use editor_dojo::time::{Duration, Timestamp};
use std::sync::Mutex;

struct MockRepository {
    progress: Mutex<Progress>,
    saves: Mutex<usize>,
    fail: bool,
}

impl MockRepository {
    fn new() -> Self {
        Self { progress: Mutex::new(Progress::new()), saves: Mutex::new(0), fail: false }
    }

    fn failing() -> Self {
        Self { progress: Mutex::new(Progress::new()), saves: Mutex::new(0), fail: true }
    }
}

impl ProgressRepository for MockRepository {
    fn load(&self) -> Result<Progress, LedgerError> {
        Ok(self.progress.lock().unwrap().clone())
    }

    fn save(&self, progress: &Progress) -> Result<(), LedgerError> {
        if self.fail {
            return Err(LedgerError::Io);
        }
        *self.progress.lock().unwrap() = progress.clone();
        *self.saves.lock().unwrap() += 1;
        Ok(())
    }

    fn has_snapshot(&self) -> bool {
        true
    }
}

fn recorded(path: &str, keys: &[&str]) -> Recording {
    Recording::new(
        path.to_string(),
        KeySequence::new(keys.iter().map(|k| k.to_string()).collect()),
    )
}

const NONE: RecordingFile = RecordingFile::NotProvided;

#[test]
fn test_record_completed_solution() {
    let repo = MockRepository::new();
    let mut tracker = ProgressTracker::new(repo).unwrap();

    let solution = Solution::completed(Duration::from_secs(10));
    tracker.record_solution("test-1", &solution, &NONE).unwrap();

    let progress = tracker.get_progress().unwrap();
    assert_eq!(progress.total_completed(), 1);
    assert_eq!(progress.total_practice_time(), Duration::from_secs(10));
}

#[test]
fn test_is_new_record_first_attempt() {
    let repo = MockRepository::new();
    let tracker = ProgressTracker::new(repo).unwrap();

    let solution = Solution::completed(Duration::from_secs(10));
    let (new_time, new_ks) = tracker.is_new_record("test-1", &solution).unwrap();

    assert!(new_time);
    assert!(new_ks);
}

#[test]
fn test_is_new_record_better_time() {
    let repo = MockRepository::new();
    let mut tracker = ProgressTracker::new(repo).unwrap();

    let first = Solution::completed(Duration::from_secs(10));
    tracker.record_solution("test-1", &first, &NONE).unwrap();

    let second = Solution::completed(Duration::from_secs(8));
    let (new_time, _) = tracker.is_new_record("test-1", &second).unwrap();

    assert!(new_time);
}

#[test]
fn test_is_new_record_worse_time() {
    let repo = MockRepository::new();
    let mut tracker = ProgressTracker::new(repo).unwrap();

    let first = Solution::completed(Duration::from_secs(10));
    tracker.record_solution("test-1", &first, &NONE).unwrap();

    let second = Solution::completed(Duration::from_secs(12));
    let (new_time, _) = tracker.is_new_record("test-1", &second).unwrap();

    assert!(!new_time);
}

#[test]
fn test_progress_tracker_records_solution() {
    let repo = MockRepository::new();
    let mut tracker = ProgressTracker::new(repo).unwrap();

    let solution = Solution::completed(Duration::from_secs(10));
    tracker.record_solution("test-1", &solution, &NONE).unwrap();

    let progress = tracker.get_progress().unwrap();
    assert_eq!(progress.total_completed(), 1);
    assert_eq!(progress.total_practice_time(), Duration::from_secs(10));
}

#[test]
fn test_progress_tracker_detects_new_record() {
    let repo = MockRepository::new();
    let mut tracker = ProgressTracker::new(repo).unwrap();

    let solution1 = Solution::completed(Duration::from_secs(10));
    tracker.record_solution("test-1", &solution1, &NONE).unwrap();

    let solution2 = Solution::completed(Duration::from_secs(8));
    let (is_new_time, _) = tracker.is_new_record("test-1", &solution2).unwrap();

    assert!(is_new_time);
}

#[test]
fn test_progress_tracker_first_attempt_is_always_record() {
    let repo = MockRepository::new();
    let tracker = ProgressTracker::new(repo).unwrap();

    let solution = Solution::completed(Duration::from_secs(100));
    let (is_new_time, is_new_ks) = tracker.is_new_record("test-1", &solution).unwrap();

    assert!(is_new_time);
    assert!(is_new_ks);
}

#[test]
fn test_progress_tracker_handles_multiple_attempts() {
    let repo = MockRepository::new();
    let mut tracker = ProgressTracker::new(repo).unwrap();

    let solution1 = Solution::completed(Duration::from_secs(10));
    tracker.record_solution("test-1", &solution1, &NONE).unwrap();

    let solution2 = Solution::completed(Duration::from_secs(8));
    tracker.record_solution("test-1", &solution2, &NONE).unwrap();

    let solution3 = Solution::incomplete(Duration::from_secs(5));
    tracker.record_solution("test-1", &solution3, &NONE).unwrap();

    let progress = tracker.get_progress().unwrap();
    assert_eq!(progress.total_attempts(), 3);
    assert_eq!(progress.total_completed(), 1);
}

#[test]
fn test_achievement_checking_integration() {
    let repo = MockRepository::new();
    let mut tracker = ProgressTracker::new(repo).unwrap();

    let solution = Solution::completed(Duration::from_secs(10));
    tracker.record_solution("test-1", &solution, &NONE).unwrap();

    let achievements = tracker.check_achievements(10).unwrap();

    assert!(!achievements.is_empty());
}

#[test]
fn test_progress_and_achievement_workflow() {
    let repo = MockRepository::new();
    let mut tracker = ProgressTracker::new(repo).unwrap();

    let solution = Solution::completed(Duration::from_secs(5));
    tracker.record_solution("test-challenge", &solution, &NONE).unwrap();
    let achievements = tracker.check_achievements(10).unwrap();

    let progress = tracker.get_progress().unwrap();
    assert_eq!(progress.total_completed(), 1);
    assert_eq!(progress.total_attempts(), 1);
    assert!(!achievements.is_empty());
}

#[test]
fn an_incomplete_first_attempt_sets_no_record() {
    let tracker = ProgressTracker::new(MockRepository::new()).unwrap();
    let solution = Solution::incomplete(Duration::from_secs(1));
    assert_eq!(tracker.is_new_record("never", &solution).unwrap(), (false, false));
    assert!(tracker.get_challenge_stats("never").unwrap().is_none());
}

#[test]
fn a_recorded_solution_is_signed_and_verifies() {
    let mut tracker = ProgressTracker::new(MockRepository::new()).unwrap();
    let contents = b"{\"version\": 2}\n[0.1, \"i\", \"w\"]\n".to_vec();
    let solution = Solution::completed(Duration::new(8, 250_000_000).unwrap())
        .with_recording(recorded("/tmp/c1.cast", &["w", "d", "Enter"]));
    let at = Timestamp::new(1_736_937_000, 0);
    let file = RecordingFile::Contents(contents.clone());
    tracker.record_solution_at("c1", &solution, &file, at).unwrap();

    let stats = tracker.get_challenge_stats("c1").unwrap().unwrap();
    assert_eq!(stats.best_keystrokes(), Some(3));
    let hash = calculate_file_hash(&contents);
    assert_eq!(stats.recording_hash(), Some(hash.as_str()));
    assert_eq!(stats.signature_version(), Some(1));
    // The signature covers the stored result, with its time in milliseconds
    // and its first completion as chrono writes it.
    let expected = sign_result("c1", 3, 8250, "2025-01-15T10:30:00+00:00", &hash);
    assert_eq!(stats.signature(), Some(expected.as_str()));
    assert_eq!(stats.verification_status(), VerificationStatus::Unverified);

    assert_eq!(tracker.verify(&stats, &NONE), VerificationStatus::Verified);
    assert_eq!(tracker.verify(&stats, &file), VerificationStatus::Verified);
    assert_eq!(
        tracker.verify(&stats, &RecordingFile::Contents(b"other".to_vec())),
        VerificationStatus::RecordingHashFailed
    );
    // The key of a development build lets a missing recording pass.
    assert_eq!(tracker.verify(&stats, &RecordingFile::Unreadable), VerificationStatus::Verified);
    assert_eq!(tracker.verify_all(), vec![VerificationStatus::Verified]);
}

#[test]
fn a_later_attempt_is_signed_over_the_stored_result() {
    let mut tracker = ProgressTracker::new(MockRepository::new()).unwrap();
    let first = Solution::completed(Duration::from_secs(8))
        .with_recording(recorded("/tmp/a.cast", &["a"; 12]));
    let second = Solution::completed(Duration::from_secs(12))
        .with_recording(recorded("/tmp/b.cast", &["b"; 18]));
    let file_a = RecordingFile::Contents(b"first".to_vec());
    let file_b = RecordingFile::Contents(b"second".to_vec());
    tracker.record_solution_at("c1", &first, &file_a, Timestamp::new(1_736_937_000, 0)).unwrap();
    tracker.record_solution_at("c1", &second, &file_b, Timestamp::new(1_736_940_000, 0)).unwrap();
    let stats = tracker.get_challenge_stats("c1").unwrap().unwrap();
    assert_eq!(stats.best_time(), Some(Duration::from_secs(8)));
    assert_eq!(stats.best_keystrokes(), Some(12));
    assert_eq!(stats.attempt_count(), 2);
    let hash = calculate_file_hash(b"second");
    assert_eq!(stats.recording_hash(), Some(hash.as_str()));
    let expected = sign_result("c1", 12, 8000, "2025-01-15T10:30:00+00:00", &hash);
    assert_eq!(stats.signature(), Some(expected.as_str()));
    assert_eq!(tracker.verify(&stats, &file_b), VerificationStatus::Verified);
    assert_eq!(tracker.verify(&stats, &file_a), VerificationStatus::RecordingHashFailed);
}

#[test]
fn without_a_readable_recording_nothing_is_signed() {
    let mut tracker = ProgressTracker::new(MockRepository::new()).unwrap();
    let at = Timestamp::new(1_736_937_000, 0);
    let with = Solution::completed(Duration::from_secs(8)).with_recording(recorded("/x", &["a"]));
    // The file could not be read: the result is kept, unsigned.
    tracker.record_solution_at("a", &with, &RecordingFile::Unreadable, at).unwrap();
    // No recording at all, even if a file is handed in.
    let without = Solution::completed(Duration::from_secs(8));
    tracker
        .record_solution_at("b", &without, &RecordingFile::Contents(b"x".to_vec()), at)
        .unwrap();
    // Never completed: there is no result to sign.
    let failed = Solution::incomplete(Duration::from_secs(8)).with_recording(recorded("/x", &["a"]));
    tracker
        .record_solution_at("c", &failed, &RecordingFile::Contents(b"x".to_vec()), at)
        .unwrap();
    // A first completion that chrono cannot write.
    let far = Timestamp::new(i64::MAX, 0);
    tracker.record_solution_at("d", &with, &RecordingFile::Contents(b"x".to_vec()), far).unwrap();
    for id in ["a", "b", "c", "d"] {
        let stats = tracker.get_challenge_stats(id).unwrap().unwrap();
        assert_eq!(stats.signature(), None, "{}", id);
        assert_eq!(stats.recording_hash(), None, "{}", id);
        assert_eq!(stats.attempt_count(), 1, "{}", id);
        assert_eq!(tracker.verify(&stats, &NONE), VerificationStatus::Legacy);
    }
    assert_eq!(tracker.get_challenge_stats("a").unwrap().unwrap().best_keystrokes(), Some(1));
    assert_eq!(tracker.get_progress().unwrap().all_challenge_stats().len(), 4);
}

#[test]
fn a_key_of_production_fails_a_missing_recording() {
    let secret = "000102030405060708090a0b0c0d0e0f101112131415161718191a1b1c1d1e1f";
    let key = SigningKey::provision(Some(secret)).unwrap();
    let mut tracker = ProgressTracker::with_key(MockRepository::new(), key).unwrap();
    let solution =
        Solution::completed(Duration::from_secs(8)).with_recording(recorded("/x", &["a"]));
    let file = RecordingFile::Contents(b"x".to_vec());
    tracker.record_solution_at("c1", &solution, &file, Timestamp::new(1_736_937_000, 0)).unwrap();
    let stats = tracker.get_challenge_stats("c1").unwrap().unwrap();
    assert_eq!(tracker.verify(&stats, &file), VerificationStatus::Verified);
    assert_eq!(tracker.verify(&stats, &NONE), VerificationStatus::Verified);
    assert_eq!(
        tracker.verify(&stats, &RecordingFile::Unreadable),
        VerificationStatus::RecordingHashFailed
    );
    // Another key does not accept the signature.
    let other = ProgressTracker::new(MockRepository::new()).unwrap();
    assert_eq!(other.verify(&stats, &NONE), VerificationStatus::SignatureFailed);
}

#[test]
fn snapshots_are_stored() {
    let mut tracker = ProgressTracker::new(MockRepository::new()).unwrap();
    tracker.set_editor_preference("Helix".to_string()).unwrap();
    assert_eq!(tracker.get_progress().unwrap().editor_preference(), Some("Helix"));
    tracker.save().unwrap();
    // Nothing earned: nothing unlocked.
    assert!(tracker.check_achievements_at(10, Timestamp::new(5, 0)).unwrap().is_empty());
    tracker.record_solution("c1", &Solution::completed(Duration::from_secs(50)), &NONE).unwrap();
    let unlocked = tracker.check_achievements_at(10, Timestamp::new(5, 0)).unwrap();
    assert_eq!(unlocked.len(), 1);
    assert_eq!(unlocked[0].id(), AchievementId::FirstSteps);
    assert!(tracker.check_achievements_at(10, Timestamp::new(6, 0)).unwrap().is_empty());
}

#[test]
fn a_failing_store_leaves_memory_ahead() {
    let mut tracker = ProgressTracker::new(MockRepository::failing()).unwrap();
    let stored = tracker.record_solution("c1", &Solution::completed(Duration::from_secs(5)), &NONE);
    assert_eq!(stored, Err(LedgerError::Io));
    assert_eq!(tracker.get_progress().unwrap().total_completed(), 1);
    assert_eq!(tracker.save(), Err(LedgerError::Io));
    assert_eq!(LedgerError::Io.message(), "a file could not be read or written");
}

#[test]
fn an_attempt_past_the_limits_is_refused() {
    let mut tracker = ProgressTracker::new(MockRepository::new()).unwrap();
    tracker
        .record_solution("c1", &Solution::completed(Duration::from_secs(u64::MAX)), &NONE)
        .unwrap();
    let stored = tracker.record_solution("c2", &Solution::completed(Duration::from_secs(1)), &NONE);
    assert_eq!(stored, Err(LedgerError::LimitExceeded));
    let progress = tracker.get_progress().unwrap();
    assert_eq!(progress.total_attempts(), 1);
    assert!(progress.get_challenge_stats("c2").is_none());
}

#[test]
fn a_ledger_is_made_of_what_the_store_answered() {
    let mut stored = Progress::new();
    stored.record_attempt(
        "c1".to_string(),
        true,
        Duration::from_secs(8),
        Some(12),
        Timestamp::new(1_736_937_000, 0),
    );
    let tracker =
        ProgressTracker::from_loaded(MockRepository::new(), Ok(stored.clone()), SigningKey::development())
            .ok()
            .unwrap();
    let held = tracker.get_progress().unwrap();
    assert_eq!(held.total_completed(), 1);
    assert_eq!(held.total_practice_time(), Duration::from_secs(8));
    assert_eq!(held.last_practice_date(), stored.last_practice_date());
    assert_eq!(held.longest_streak(), stored.longest_streak());
    let stats = tracker.get_challenge_stats("c1").unwrap().unwrap();
    assert_eq!(stats.best_keystrokes(), Some(12));
    assert_eq!(stats.attempt_count(), 1);

    let refused = ProgressTracker::from_loaded(
        MockRepository::new(),
        Err(LedgerError::Io),
        SigningKey::development(),
    );
    assert_eq!(refused.err(), Some(LedgerError::Io));
    let refused = ProgressTracker::from_loaded(
        MockRepository::new(),
        Err(LedgerError::Lock),
        SigningKey::development(),
    );
    assert_eq!(refused.err(), Some(LedgerError::Lock));
}
