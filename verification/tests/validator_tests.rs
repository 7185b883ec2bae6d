use editor_dojo::application::validator::SolutionValidator;

#[test]
fn test_exact_match() {
    let validator = SolutionValidator::new();
    assert!(validator.is_valid("Hello world", "Hello world"));
}

#[test]
fn test_whitespace_normalization() {
    let validator = SolutionValidator::new();
    assert!(validator.is_valid("  Hello world  ", "Hello world"));
    assert!(validator.is_valid("Hello world\n\n", "Hello world"));
}

#[test]
fn test_mismatch() {
    let validator = SolutionValidator::new();
    assert!(!validator.is_valid("Hello REMOVE world", "Hello world"));
}

#[test]
fn test_solution_validator_normalizes_whitespace() {
    let validator = SolutionValidator::new();
    assert!(validator.is_valid("hello\nworld", "hello\nworld"));
    assert!(validator.is_valid("hello  \n  world", "hello\nworld"));
    assert!(validator.is_valid("  hello\nworld  ", "hello\nworld"));
}

#[test]
fn test_solution_validator_rejects_different_content() {
    let validator = SolutionValidator::new();
    assert!(!validator.is_valid("hello", "world"));
    assert!(!validator.is_valid("hello\nworld", "hello\nearth"));
}

#[test]
fn normal_form_trims_lines_and_drops_empty_ones() {
    let validator = SolutionValidator::new();
    assert_eq!(validator.normalize("  a \r\n\n\t\n b\tc \n"), "a\nb\tc");
    assert_eq!(validator.normalize(""), "");
    assert_eq!(validator.normalize(" \n \n"), "");
    assert_eq!(validator.normalize("one"), "one");
    // What std's `lines`, `trim` and `join` give is what the validator gives.
    let content = "\u{a0}x y\u{2003}\r\n\r\nlast\r";
    let expected: Vec<&str> =
        content.lines().map(|line| line.trim()).filter(|line| !line.is_empty()).collect();
    assert_eq!(validator.normalize(content), expected.join("\n"));
}

#[test]
fn lines_are_kept_apart() {
    let validator = SolutionValidator::new();
    assert!(!validator.is_valid("a\nb", "a b"));
    assert!(!validator.is_valid("ab", "a\nb"));
}
