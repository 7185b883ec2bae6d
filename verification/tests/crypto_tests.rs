use editor_dojo::infrastructure::crypto::{
    calculate_file_hash, constant_time_compare, get_signing_key, is_production_build,
    sign_result, sign_with_key, verify_recording_hash, verify_signature, verify_with_key,
    KeyError, SigningKey, SIGNATURE_VERSION,
};

#[test]
fn test_sign_and_verify() {
    let signature =
        sign_result("test-challenge-1", 42, 10500, "2025-01-15T10:30:00Z", "abc123def456");

    assert!(!signature.is_empty());
    assert_eq!(signature.len(), 64);

    assert!(verify_signature(
        "test-challenge-1",
        42,
        10500,
        "2025-01-15T10:30:00Z",
        "abc123def456",
        &signature,
        1,
    ));

    assert!(!verify_signature(
        "test-challenge-1",
        43,
        10500,
        "2025-01-15T10:30:00Z",
        "abc123def456",
        &signature,
        1,
    ));

    assert!(!verify_signature(
        "test-challenge-2",
        42,
        10500,
        "2025-01-15T10:30:00Z",
        "abc123def456",
        &signature,
        1,
    ));
}

#[test]
fn test_file_hash() {
    let contents = b"test content\n";
    let hash = calculate_file_hash(contents);
    assert_eq!(hash.len(), 64);

    let hash2 = calculate_file_hash(contents);
    assert_eq!(hash, hash2);
}

#[test]
fn test_verify_recording_hash() {
    let contents = b"recording data\n";
    let hash = calculate_file_hash(contents);

    assert!(verify_recording_hash(Some(contents), &hash));
    assert!(!verify_recording_hash(Some(contents), "wrong_hash"));
    // A recording that is not there never has the hash.
    assert!(!verify_recording_hash(None, &hash));
}

#[test]
fn test_constant_time_compare() {
    assert!(constant_time_compare("abc123", "abc123"));
    assert!(!constant_time_compare("abc123", "abc124"));
    assert!(!constant_time_compare("abc123", "abc12"));
    assert!(!constant_time_compare("abc", "abc123"));
    assert!(constant_time_compare("", ""));
    assert!(!constant_time_compare("Xbc123", "abc123"));
}

#[test]
fn crypto_test_signature_deterministic() {
    let sig1 = sign_result("test", 10, 5000, "2025-01-01T00:00:00Z", "hash");
    let sig2 = sign_result("test", 10, 5000, "2025-01-01T00:00:00Z", "hash");
    assert_eq!(sig1, sig2);
}

#[test]
fn known_hashes() {
    assert_eq!(
        calculate_file_hash(b"test content\n"),
        "a1fff0ffefb9eace7230c24e50731f0a91c62f9cefdfe77121c2f607125dffae"
    );
    assert_eq!(
        calculate_file_hash(b""),
        "e3b0c44298fc1c149afbf4c8996fb92427ae41e4649b934ca495991b7852b855"
    );
}

#[test]
fn known_signatures() {
    assert_eq!(
        sign_result("test-challenge-1", 42, 10500, "2025-01-15T10:30:00Z", "abc123def456"),
        "b11339ad67e3e8f6912caaf9be575bd345482bb19f07c58fdd3162a64b6f6e78"
    );
    assert_eq!(
        sign_result("test", 10, 5000, "2025-01-01T00:00:00Z", "hash"),
        "8155cf7d2b2bcf1795ed5e464a3f9b1e6943f3b11ab794f645973e6a5dc1e661"
    );
}

#[test]
fn the_built_in_key_is_the_development_key() {
    let key = get_signing_key();
    assert_eq!(key, b"dev_insecure_key_do_not_use_in_production_0123456789abcdef".to_vec());
    assert!(!is_production_build());
    assert_eq!(SIGNATURE_VERSION, 1);
    let development = SigningKey::development();
    assert!(!development.is_production());
    assert_eq!(development.unmasked(), key);
    let provisioned = SigningKey::provision(None).unwrap();
    assert!(!provisioned.is_production());
    assert_eq!(provisioned.unmasked(), key);
}

#[test]
fn keys_from_production_secrets() {
    // 32 bytes in hexadecimal, in either case.
    let secret = "000102030405060708090a0b0c0d0e0f101112131415161718191A1B1C1D1E1F";
    let key = SigningKey::provision(Some(secret)).unwrap();
    assert!(key.is_production());
    assert_eq!(key.unmasked(), (0u8..32).collect::<Vec<u8>>());
    // Hexadecimal, but too short.
    assert_eq!(SigningKey::provision(Some("00ff")).err(), Some(KeyError::TooShort));
    assert_eq!(SigningKey::provision(Some("")).err(), Some(KeyError::TooShort));
    // Not hexadecimal: the text itself is the key.
    let key = SigningKey::provision(Some("correct horse")).unwrap();
    assert!(key.is_production());
    assert_eq!(key.unmasked(), b"correct horse".to_vec());
    let key = SigningKey::provision(Some("abc")).unwrap();
    assert_eq!(key.unmasked(), b"abc".to_vec());
}

#[test]
fn signatures_depend_on_the_key() {
    let a = sign_with_key(b"key one", "c1", 12, 8000, "2025-01-01T00:00:00+00:00", "h");
    let b = sign_with_key(b"key two", "c1", 12, 8000, "2025-01-01T00:00:00+00:00", "h");
    assert_ne!(a, b);
    assert!(verify_with_key(b"key one", "c1", 12, 8000, "2025-01-01T00:00:00+00:00", "h", &a));
    assert!(!verify_with_key(b"key two", "c1", 12, 8000, "2025-01-01T00:00:00+00:00", "h", &a));
}

#[test]
fn every_single_field_is_covered() {
    let signature = sign_result("c1", 12, 8000, "2025-01-01T00:00:00Z", "abcd");
    let check = |id: &str, ks: u32, ms: u64, ts: &str, hash: &str| {
        verify_signature(id, ks, ms, ts, hash, &signature, SIGNATURE_VERSION)
    };
    assert!(check("c1", 12, 8000, "2025-01-01T00:00:00Z", "abcd"));
    assert!(!check("c2", 12, 8000, "2025-01-01T00:00:00Z", "abcd"));
    assert!(!check("c1", 13, 8000, "2025-01-01T00:00:00Z", "abcd"));
    assert!(!check("c1", 12, 8001, "2025-01-01T00:00:00Z", "abcd"));
    assert!(!check("c1", 12, 8000, "2025-01-01T00:00:01Z", "abcd"));
    assert!(!check("c1", 12, 8000, "2025-01-01T00:00:00Z", "abce"));
    // The version decides nothing yet.
    assert!(verify_signature("c1", 12, 8000, "2025-01-01T00:00:00Z", "abcd", &signature, 7));
}
