//! The API token and the check of the header that presents it.
use hushwarren::api::auth::{
    check_bearer, encode, generate_token, is_valid_token, stored_token, TokenError, TOKEN_HEX_LEN,
};
use hushwarren::api::routes::{clamp_param, recent_params, valid_snooze_secs};
use hushwarren::api::types::RecentQueryParams;

#[test]
fn valid_token_accepted() {
    let token = "a".repeat(TOKEN_HEX_LEN);
    assert!(is_valid_token(&token));
}

#[test]
fn uppercase_hex_rejected() {
    let token = "A".repeat(TOKEN_HEX_LEN);
    assert!(!is_valid_token(&token));
}

#[test]
fn short_token_rejected() {
    assert!(!is_valid_token("abc123"));
}

#[test]
fn empty_token_rejected() {
    assert!(!is_valid_token(""));
}

#[test]
fn non_hex_chars_rejected() {
    let token = "g".repeat(TOKEN_HEX_LEN);
    assert!(!is_valid_token(&token));
}

#[test]
fn correct_length_non_hex_rejected() {
    let token = "z".repeat(TOKEN_HEX_LEN);
    assert!(!is_valid_token(&token));
}

#[test]
fn correct_bearer_returns_true() {
    let token = "a".repeat(TOKEN_HEX_LEN);
    let header = format!("Bearer {token}");
    assert!(check_bearer(Some(&header), &token));
}

#[test]
fn wrong_bearer_returns_false() {
    let token = "a".repeat(TOKEN_HEX_LEN);
    let wrong = "b".repeat(TOKEN_HEX_LEN);
    let header = format!("Bearer {wrong}");
    assert!(!check_bearer(Some(&header), &token));
}

#[test]
fn empty_header_returns_false() {
    let token = "a".repeat(TOKEN_HEX_LEN);
    assert!(!check_bearer(Some(""), &token));
}

#[test]
fn missing_bearer_prefix_returns_false() {
    let token = "a".repeat(TOKEN_HEX_LEN);
    assert!(!check_bearer(Some(&token), &token));
}

#[test]
fn no_header_returns_false() {
    let token = "a".repeat(TOKEN_HEX_LEN);
    assert!(!check_bearer(None, &token));
}

#[test]
fn shorter_token_in_header_returns_false() {
    let token = "a".repeat(TOKEN_HEX_LEN);
    let header = format!("Bearer {}", "a".repeat(TOKEN_HEX_LEN - 1));
    assert!(!check_bearer(Some(&header), &token));
}

#[test]
fn longer_token_in_header_returns_false() {
    let token = "a".repeat(TOKEN_HEX_LEN);
    let header = format!("Bearer {}", "a".repeat(TOKEN_HEX_LEN + 1));
    assert!(!check_bearer(Some(&header), &token));
}

#[test]
fn generate_token_is_valid() {
    let t = generate_token().unwrap();
    assert!(is_valid_token(&t), "generated token must pass validity check");
    assert_eq!(t.len(), TOKEN_HEX_LEN);
}

#[test]
fn two_generated_tokens_differ() {
    let a = generate_token().unwrap();
    let b = generate_token().unwrap();
    assert_ne!(a, b);
}

#[test]
fn token_hex_len_constant() {
    assert_eq!(TOKEN_HEX_LEN, 64, "token must be 64 hex chars (32 bytes)");
}

#[test]
fn n_clamp_range() {
    let clamp = |n: u32| {
        recent_params(&RecentQueryParams { n: Some(n), blocked_only: None }).0
    };
    assert_eq!(clamp(0), 1, "n=0 must clamp to 1");
    assert_eq!(clamp(1), 1);
    assert_eq!(clamp(500), 500);
    assert_eq!(clamp(1000), 1000);
    assert_eq!(clamp(1001), 1000, "n=1001 must clamp to 1000");
    assert_eq!(clamp(u32::MAX), 1000);
}

#[test]
fn snooze_secs_boundary_1_is_valid() {
    assert!(valid_snooze_secs(1));
}

#[test]
fn snooze_secs_boundary_86400_is_valid() {
    assert!(valid_snooze_secs(86400));
}

#[test]
fn snooze_secs_boundary_0_is_invalid() {
    assert!(!valid_snooze_secs(0));
}

#[test]
fn snooze_secs_boundary_86401_is_invalid() {
    assert!(!valid_snooze_secs(86401));
}

#[test]
fn bytes_are_written_as_two_digits_each() {
    assert_eq!(encode(&[0x00, 0x0f, 0xa5, 0xff]), "000fa5ff");
}

#[test]
fn stored_token_ignores_white_space_around_it() {
    let token = "0123456789abcdef".repeat(4);
    let content = format!("{token}\n");
    assert_eq!(stored_token(&content), Some(token));
    assert_eq!(stored_token("malformed!!!"), None);
    assert_eq!(stored_token(""), None);
}

#[test]
fn token_of_another_length_is_never_presented() {
    assert!(!check_bearer(Some("Bearer abc"), "abc"));
}

#[test]
fn missing_parameter_takes_the_default() {
    assert_eq!(clamp_param(None, 100, 1, 1000), 100);
    assert_eq!(recent_params(&RecentQueryParams { n: None, blocked_only: Some(true) }), (100, true));
}

#[test]
fn token_errors_say_what_failed() {
    assert_eq!(TokenError::Io("denied".to_string()).message(), "token file I/O: denied");
    assert_eq!(TokenError::Rng("none".to_string()).message(), "OsRng failed: none");
}

#[test]
fn generated_token_is_used_again() {
    let token = generate_token().unwrap();
    assert_eq!(stored_token(&token), Some(token));
}
