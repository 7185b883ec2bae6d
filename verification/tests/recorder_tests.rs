use editor_dojo::infrastructure::recorder::{validate_challenge_id, ValidationError};
use editor_dojo::infrastructure::AsciinemaRecorder;

#[test]
fn test_asciinema_recorder_creation() {
    let recorder = AsciinemaRecorder::new("hx");
    assert_eq!(recorder.editor_command(), "hx");
}

#[test]
fn test_generate_recording_path() {
    let path = AsciinemaRecorder::generate_recording_path(
        "/home/user/.local/share/editor-dojo/recordings",
        "test-01",
        1_736_937_000,
    );
    assert!(path.is_ok());

    if let Ok(path) = path {
        assert!(path.contains("recordings"));
        assert!(path.contains("challenge-test-01"));
        assert!(path.ends_with(".cast"));
        assert_eq!(
            path,
            "/home/user/.local/share/editor-dojo/recordings/challenge-test-01-1736937000.cast"
        );
    }
}

#[test]
fn test_validate_challenge_id_valid() {
    assert!(validate_challenge_id("test-01").is_ok());
    assert!(validate_challenge_id("challenge_123").is_ok());
    assert!(validate_challenge_id("abc-123-xyz").is_ok());
    assert!(validate_challenge_id("simple").is_ok());
}

#[test]
fn test_validate_challenge_id_invalid() {
    assert!(validate_challenge_id("").is_err());

    assert!(validate_challenge_id("../etc/passwd").is_err());
    assert!(validate_challenge_id("..").is_err());
    assert!(validate_challenge_id("test/path").is_err());
    assert!(validate_challenge_id("test\\path").is_err());

    assert!(validate_challenge_id("test@123").is_err());
    assert!(validate_challenge_id("test:id").is_err());
    assert!(validate_challenge_id("test id").is_err());
}

#[test]
fn test_challenge_validation_in_runner() {
    let result =
        AsciinemaRecorder::generate_recording_path("/tmp/recordings", "../etc/passwd", 1);
    assert!(result.is_err());
}

#[test]
fn test_challenge_validation_accepts_valid_ids() {
    let result1 = AsciinemaRecorder::generate_recording_path("/tmp/recordings", "test-01", 1);
    let result2 =
        AsciinemaRecorder::generate_recording_path("/tmp/recordings", "challenge_123", 1);
    let result3 = AsciinemaRecorder::generate_recording_path("/tmp/recordings", "simple", 1);

    assert!(result1.is_ok());
    assert!(result2.is_ok());
    assert!(result3.is_ok());
}

#[test]
fn faults_of_identifiers_by_kind() {
    assert_eq!(validate_challenge_id(""), Err(ValidationError::Empty));
    assert_eq!(validate_challenge_id("a.b"), Err(ValidationError::InvalidCharacter));
    assert_eq!(validate_challenge_id(".."), Err(ValidationError::InvalidCharacter));
    assert_eq!(validate_challenge_id("a/b"), Err(ValidationError::InvalidCharacter));
    assert_eq!(validate_challenge_id("übung-1"), Ok(()));
    assert_eq!(validate_challenge_id("_"), Ok(()));
    assert_eq!(validate_challenge_id("-"), Ok(()));
}

#[test]
fn recording_paths() {
    assert_eq!(
        AsciinemaRecorder::generate_recording_path("rec/", "a_b", 0),
        Ok("rec/challenge-a_b-0.cast".to_string())
    );
    assert_eq!(
        AsciinemaRecorder::generate_recording_path("", "x", u64::MAX),
        Ok("/challenge-x-18446744073709551615.cast".to_string())
    );
    assert_eq!(
        AsciinemaRecorder::generate_recording_path("rec", "", 5),
        Err(ValidationError::Empty)
    );
}
