use lantern::auth::{
    check_invite_limit, generate_invite_code, generate_token, hash_password, hash_token,
    invite_attempt_outcome, prepare_new_user, session_expiry, validate_password,
    validate_username, verify_password, InviteAttempt,
};

#[test]
fn usernames_are_checked_after_trimming() {
    assert_eq!(validate_username("alice"), Ok(()));
    assert_eq!(validate_username("  bob  "), Ok(()));
    assert_eq!(validate_username("a.b-c_d9"), Ok(()));
    assert_eq!(
        validate_username(" ab "),
        Err("username must be at least 3 characters long".to_string())
    );
    assert_eq!(validate_username(&"x".repeat(64)), Ok(()));
    assert_eq!(
        validate_username(&"x".repeat(65)),
        Err("username must be 64 characters or fewer".to_string())
    );
    assert_eq!(
        validate_username("bad name"),
        Err("username can contain only letters, numbers, underscores, hyphens, and dots".to_string())
    );
    // Two characters but four bytes: long enough, yet not ASCII.
    assert_eq!(
        validate_username("éé"),
        Err("username can contain only letters, numbers, underscores, hyphens, and dots".to_string())
    );
}

#[test]
fn passwords_need_eight_bytes() {
    assert_eq!(
        validate_password("1234567"),
        Err("password must be at least 8 characters long".to_string())
    );
    assert_eq!(validate_password("12345678"), Ok(()));
    assert_eq!(validate_password("éééé"), Ok(()));
}

#[test]
fn token_hash_matches_sha256_in_url_safe_base64() {
    assert_eq!(hash_token(""), "47DEQpj8HBSa-_TImW-5JCeuQeRkm5NMpJWZG3hSuFU");
    assert_eq!(hash_token("abc"), "ungWv48Bz-pBQUDeXa4iI7ADYaOWF3qctBD_YfIAFa0");
    assert_eq!(hash_token("session-token"), "wQHpEUaclpFxBAtQ1wVDMTz5aP3vW6zHgHdvj7OZqzY");
    assert_eq!(hash_token("abc"), hash_token("abc"));
    assert_eq!(hash_token("anything at all").len(), 43);
}

#[test]
fn tokens_are_43_url_safe_characters() {
    let a = generate_token();
    let b = generate_token();
    assert_eq!(a.len(), 43);
    assert!(a.chars().all(|c| c.is_ascii_alphanumeric() || c == '-' || c == '_'));
    assert_ne!(a, b);
}

#[test]
fn invite_codes_have_prefix() {
    let code = generate_invite_code();
    assert!(code.starts_with("LAN-"));
    assert_eq!(code.len(), 4 + 16);
    assert!(code[4..].chars().all(|c| c.is_ascii_alphanumeric() || c == '-' || c == '_'));
}

#[test]
fn password_hash_round_trip() {
    let user = prepare_new_user("  carol ", "correct horse").unwrap();
    assert_eq!(user.username, "carol");
    assert_eq!(verify_password("correct horse", &user.password_hash), Ok(true));
    assert_eq!(verify_password("wrong horse", &user.password_hash), Ok(false));
    assert!(verify_password("correct horse", "not a hash").is_err());
    let h = hash_password("secret-pass").unwrap();
    assert!(h.starts_with("$argon2"));
    assert_eq!(verify_password("secret-pass", &h), Ok(true));
}

#[test]
fn new_user_checks_username_before_password() {
    assert_eq!(
        prepare_new_user("x", "short").err(),
        Some("username must be at least 3 characters long".to_string())
    );
    assert_eq!(
        prepare_new_user("dave", "short").err(),
        Some("password must be at least 8 characters long".to_string())
    );
}

#[test]
fn invite_limit_applies_only_when_enforced() {
    assert_eq!(check_invite_limit(true, 4), Ok(()));
    assert_eq!(
        check_invite_limit(true, 5),
        Err("a user can have at most 5 unredeemed invite codes".to_string())
    );
    assert_eq!(check_invite_limit(false, 50), Ok(()));
}

#[test]
fn invite_attempts_give_up_after_five() {
    assert!(matches!(invite_attempt_outcome(1, "c".to_string(), true), InviteAttempt::Issued(c) if c == "c"));
    assert!(matches!(invite_attempt_outcome(1, "c".to_string(), false), InviteAttempt::Retry));
    assert!(matches!(invite_attempt_outcome(4, "c".to_string(), false), InviteAttempt::Retry));
    match invite_attempt_outcome(5, "c".to_string(), false) {
        InviteAttempt::GiveUp(m) => assert_eq!(m, "failed to generate a unique invite code"),
        _ => panic!("expected to give up"),
    }
}

#[test]
fn sessions_last_thirty_days() {
    assert_eq!(session_expiry(1_700_000_000), 1_700_000_000 + 30 * 86_400);
}
