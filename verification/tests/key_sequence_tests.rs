use editor_dojo::domain::{KeySequence, Recording};

fn keys(tokens: &[&str]) -> KeySequence {
    KeySequence::new(tokens.iter().map(|t| t.to_string()).collect())
}

#[test]
fn test_empty_sequence() {
    let seq = KeySequence::empty();
    assert_eq!(seq.count(), 0);
    assert!(seq.is_empty());
    assert_eq!(seq.format_for_display(100), "(no keystrokes recorded)");
}

#[test]
fn test_simple_sequence() {
    let seq = KeySequence::new(vec!["w".to_string(), "d".to_string(), "w".to_string()]);
    assert_eq!(seq.count(), 3);
    assert!(!seq.is_empty());
    assert_eq!(seq.as_string(), "w d w");
}

#[test]
fn test_special_keys() {
    let seq = KeySequence::new(vec![
        "Esc".to_string(),
        ":".to_string(),
        "q".to_string(),
        "Enter".to_string(),
    ]);
    assert_eq!(seq.count(), 4);
    assert_eq!(seq.as_string(), "Esc : q Enter");
}

#[test]
fn test_format_for_display_no_truncation() {
    let seq = KeySequence::new(vec!["w".to_string(), "d".to_string(), "w".to_string()]);
    assert_eq!(seq.format_for_display(100), "w d w");
}

#[test]
fn test_ctrl_combinations() {
    let seq = KeySequence::new(vec!["Ctrl-c".to_string(), "Ctrl-d".to_string()]);
    assert_eq!(seq.as_string(), "Ctrl-c Ctrl-d");
}

#[test]
fn display_is_shortened_to_the_tokens_that_fit() {
    // 15 tokens "k0" .. "k14": the full text takes 15*2 + 5 + 14 = 49 bytes.
    let tokens: Vec<String> = (0..15).map(|i| format!("k{}", i)).collect();
    let seq = KeySequence::new(tokens.clone());
    let full = tokens.join(" ");
    assert_eq!(full.len(), 49);
    assert_eq!(seq.format_for_display(49), full);
    // With 48 bytes the visible keys may take 28: "k0 .. k8" takes 26, the
    // next token would make it 30.
    assert_eq!(
        seq.format_for_display(48),
        "k0 k1 k2 k3 k4 k5 k6 k7 k8 ... (6 more keys)"
    );
    // With 30 bytes the visible keys may take 10: "k0 k1 k2" takes 8.
    assert_eq!(seq.format_for_display(30), "k0 k1 k2 ... (12 more keys)");
    // Under the reserve nothing is visible.
    assert_eq!(seq.format_for_display(20), " ... (15 more keys)");
    assert_eq!(seq.format_for_display(0), " ... (15 more keys)");
}

#[test]
fn display_measures_bytes() {
    // "é" takes two bytes: "é é é" takes 8.
    let seq = keys(&["é", "é", "é"]);
    assert_eq!(seq.format_for_display(8), "é é é");
    assert_eq!(seq.format_for_display(7), " ... (3 more keys)");
    let long = keys(&["é", "é", "é", "é", "é", "é", "é", "é", "é", "é", "é"]);
    // 11 tokens take 32 bytes; with 31 the visible keys may take 11: three
    // tokens take 8, four take 11.
    assert_eq!(long.format_for_display(31), "é é é é ... (7 more keys)");
}

#[test]
fn keys_are_handed_out_in_order() {
    let seq = keys(&["a", "Ctrl-c", "Enter"]);
    let all: Vec<&str> = seq.keys().iter().map(|k| k.as_str()).collect();
    assert_eq!(all, vec!["a", "Ctrl-c", "Enter"]);
    assert_eq!(seq.clone(), seq);
}

#[test]
fn test_recording_creation() {
    let path = String::from("/tmp/test.cast");
    let seq = KeySequence::new(vec!["w".to_string(), "d".to_string()]);
    let recording = Recording::new(path.clone(), seq);

    assert_eq!(recording.file_path(), &path);
    assert_eq!(recording.keystroke_count(), 2);
    assert_eq!(recording.key_sequence().as_string(), "w d");
}

#[test]
fn test_file_path_display() {
    let path = String::from("/home/user/.local/share/editor-dojo/recordings/test.cast");
    let seq = KeySequence::empty();
    let recording = Recording::new(path, seq);

    assert!(recording.file_path_display().contains("recordings/test.cast"));
}
