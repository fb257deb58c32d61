use blueflame::token::{to_hex, token_file_path, SessionToken, TOKEN_BYTES};

#[test]
fn generated_tokens_are_64_hex_chars() {
    let t = SessionToken::generate().unwrap();
    assert_eq!(t.as_str().len(), TOKEN_BYTES * 2);
    assert!(t.as_str().chars().all(|c| c.is_ascii_hexdigit()));
}

#[test]
fn two_generated_tokens_differ() {
    assert_ne!(
        SessionToken::generate().unwrap().as_str(),
        SessionToken::generate().unwrap().as_str()
    );
}

#[test]
fn matches_exact_string() {
    let t = SessionToken::from_str_for_test("abc123");
    assert!(t.matches("abc123"));
}

#[test]
fn rejects_wrong_value() {
    let t = SessionToken::from_str_for_test("abc123");
    assert!(!t.matches("abc124"));
    assert!(!t.matches("abc12"));
    assert!(!t.matches(""));
    assert!(!t.matches("abc1234"));
}

#[test]
fn hex_is_lowercase_two_digits_per_byte() {
    assert_eq!(to_hex(&[0x00, 0x0f, 0xa0, 0xff]), "000fa0ff");
}

#[test]
fn token_file_lives_under_control() {
    let p = token_file_path("/data");
    assert!(p.ends_with("token"));
    assert!(p.contains("control"));
}
