use editor_dojo::application::{ProgressRepository, ProgressTracker, RecordingFile};
use editor_dojo::domain::{
    ChallengeStats, KeySequence, Progress, Recording, Solution, VerificationStatus,
};
use editor_dojo::error::LedgerError;
use editor_dojo::infrastructure::crypto::{
    calculate_file_hash, is_production_build, sign_result, SigningKey, SIGNATURE_VERSION,
};
use editor_dojo::time::{Duration, Timestamp};
use std::sync::Mutex;

struct MemoryRepository {
    progress: Mutex<Progress>,
}

impl MemoryRepository {
    fn new() -> Self {
        Self { progress: Mutex::new(Progress::new()) }
    }
}

impl ProgressRepository for MemoryRepository {
    fn load(&self) -> Result<Progress, LedgerError> {
        Ok(self.progress.lock().unwrap().clone())
    }

    fn save(&self, progress: &Progress) -> Result<(), LedgerError> {
        *self.progress.lock().unwrap() = progress.clone();
        Ok(())
    }

    fn has_snapshot(&self) -> bool {
        true
    }
}

const CAST: &[u8] = b"{\"version\": 2}\n[0.1, \"i\", \"d\"]\n[0.2, \"i\", \"w\"]\n";

fn signed_stats() -> (ProgressTracker<MemoryRepository>, ChallengeStats) {
    let mut tracker = ProgressTracker::new(MemoryRepository::new()).unwrap();
    let recording = Recording::new(
        "/tmp/challenge-c1-1.cast".to_string(),
        KeySequence::new(vec!["d".to_string(), "w".to_string()]),
    );
    let solution = Solution::completed(Duration::from_secs(8)).with_recording(recording);
    tracker
        .record_solution_at(
            "c1",
            &solution,
            &RecordingFile::Contents(CAST.to_vec()),
            Timestamp::new(1_736_937_000, 0),
        )
        .unwrap();
    let stats = tracker.get_challenge_stats("c1").unwrap().unwrap();
    (tracker, stats)
}

#[test]
fn test_signature_generation() {
    let (_, stats) = signed_stats();
    assert!(stats.has_integrity_data());
    assert_eq!(stats.signature().unwrap().len(), 64);
    assert_eq!(stats.recording_hash().unwrap().len(), 64);
    assert!(stats.signature().unwrap().chars().all(|c| c.is_ascii_hexdigit()));
    assert_eq!(stats.signature_version(), Some(SIGNATURE_VERSION));
}

#[test]
fn test_signature_verification_success() {
    let (tracker, stats) = signed_stats();
    assert_eq!(tracker.verify(&stats, &RecordingFile::NotProvided), VerificationStatus::Verified);
}

#[test]
fn test_signature_verification_fails_on_tampered_data() {
    let (tracker, stats) = signed_stats();
    // The same result with a better time, under the old signature.
    let tampered =
        ChallengeStats::completed("c1".to_string(), Duration::from_secs(7), Some(2), Timestamp::new(1_736_937_000, 0))
            .with_integrity(
                stats.recording_hash().unwrap().to_string(),
                stats.signature().unwrap().to_string(),
                SIGNATURE_VERSION,
            );
    assert_eq!(
        tracker.verify(&tampered, &RecordingFile::NotProvided),
        VerificationStatus::SignatureFailed
    );
    // Fewer keystrokes.
    let tampered =
        ChallengeStats::completed("c1".to_string(), Duration::from_secs(8), Some(1), Timestamp::new(1_736_937_000, 0))
            .with_integrity(
                stats.recording_hash().unwrap().to_string(),
                stats.signature().unwrap().to_string(),
                SIGNATURE_VERSION,
            );
    assert_eq!(
        tracker.verify(&tampered, &RecordingFile::Contents(CAST.to_vec())),
        VerificationStatus::SignatureFailed
    );
    // Untouched, it verifies.
    let same =
        ChallengeStats::completed("c1".to_string(), Duration::from_secs(8), Some(2), Timestamp::new(1_736_937_000, 0))
            .with_integrity(
                stats.recording_hash().unwrap().to_string(),
                stats.signature().unwrap().to_string(),
                SIGNATURE_VERSION,
            );
    assert_eq!(tracker.verify(&same, &RecordingFile::NotProvided), VerificationStatus::Verified);
}

#[test]
fn test_recording_hash_verification_fails_on_modified_file() {
    let (tracker, stats) = signed_stats();
    let mut modified = CAST.to_vec();
    modified.push(b'x');
    assert_eq!(
        tracker.verify(&stats, &RecordingFile::Contents(modified)),
        VerificationStatus::RecordingHashFailed
    );
    assert_eq!(
        tracker.verify(&stats, &RecordingFile::Contents(CAST.to_vec())),
        VerificationStatus::Verified
    );
}

#[test]
fn test_backwards_compatibility_with_legacy_results() {
    let tracker = ProgressTracker::new(MemoryRepository::new()).unwrap();
    let legacy =
        ChallengeStats::completed("old".to_string(), Duration::from_secs(30), Some(40), Timestamp::new(1_600_000_000, 0));
    assert!(legacy.is_completed());
    assert_eq!(legacy.best_time(), Some(Duration::from_secs(30)));
    assert_eq!(legacy.signature(), None);
    assert_eq!(tracker.verify(&legacy, &RecordingFile::NotProvided), VerificationStatus::Legacy);
    assert_eq!(
        tracker.verify(&legacy, &RecordingFile::Contents(CAST.to_vec())),
        VerificationStatus::Legacy
    );
    assert_eq!(tracker.verify(&legacy, &RecordingFile::Unreadable), VerificationStatus::Legacy);
}

#[test]
fn integrity_test_test_signature_deterministic() {
    let sig1 = sign_result("c1", 2, 8000, "2025-01-15T10:30:00+00:00", "abcd");
    let sig2 = sign_result("c1", 2, 8000, "2025-01-15T10:30:00+00:00", "abcd");
    assert_eq!(sig1, sig2);
    let (_, first) = signed_stats();
    let (_, second) = signed_stats();
    assert_eq!(first.signature(), second.signature());
}

#[test]
fn test_recording_hash_calculation() {
    let hash = calculate_file_hash(b"recording data\n");
    assert_eq!(hash, "e3a338bbb601b046a20e23ece1716ab8b6d0c180932cff1106a90376adf6fb78");
    let changed = calculate_file_hash(b"recording data!\n");
    assert_ne!(hash, changed);
}

#[test]
fn test_development_vs_production_build_mode() {
    assert!(!is_production_build());
    assert!(!SigningKey::development().is_production());
    let secret = "ffeeddccbbaa99887766554433221100ffeeddccbbaa99887766554433221100";
    assert!(SigningKey::provision(Some(secret)).unwrap().is_production());
}

#[test]
fn placeholder_test() {
    assert!(true);
}

#[test]
fn a_signature_over_an_incomplete_result_cannot_be_checked() {
    let tracker = ProgressTracker::new(MemoryRepository::new()).unwrap();
    let at = Timestamp::new(1_736_937_000, 0);
    // No result at all.
    let bare = ChallengeStats::new("c".to_string()).with_integrity("h".to_string(), "s".to_string(), 1);
    assert_eq!(tracker.verify(&bare, &RecordingFile::NotProvided), VerificationStatus::Unverified);
    // No keystrokes.
    let no_keys = ChallengeStats::completed("c".to_string(), Duration::from_secs(5), None, at)
        .with_integrity("h".to_string(), "s".to_string(), 1);
    assert_eq!(tracker.verify(&no_keys, &RecordingFile::NotProvided), VerificationStatus::Unverified);
    // All there, and a wrong signature.
    let wrong = ChallengeStats::completed("c".to_string(), Duration::from_secs(5), Some(3), at)
        .with_integrity("h".to_string(), "s".to_string(), 1);
    assert_eq!(tracker.verify(&wrong, &RecordingFile::NotProvided), VerificationStatus::SignatureFailed);
}
