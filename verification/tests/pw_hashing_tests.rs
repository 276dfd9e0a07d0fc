use user_auth::pw_hashing::compare_input_to_hashed_value;
use user_auth::pw_hashing::hash_data;
use user_auth::pw_hashing::hash_data_with_salt;
use user_auth::pw_hashing::hash_stage;
use user_auth::pw_hashing::is_input_ok;
use user_auth::pw_hashing::is_local_salt_ok;
use user_auth::pw_hashing::constant_time_eq;
use user_auth::pw_hashing::SALT_LEN;

const LOCAL_SALT: &str = "local-salt-for-tests";

#[test]
fn stage_has_the_encoded_shape() {
    let encoded = hash_stage("x", "saltsalt");
    assert!(encoded.starts_with("$argon2d$m=4096,t=3,p=1$c2FsdHNhbHQ$"));
    assert_eq!(encoded.len(), 79);
    assert!(encoded.is_ascii());
}

#[test]
fn stage_is_deterministic() {
    let first = hash_stage("correct-horse", "0123456789abcdef");
    let second = hash_stage("correct-horse", "0123456789abcdef");
    assert_eq!(first, second);
}

#[test]
fn stage_depends_on_both_inputs() {
    let base = hash_stage("correct-horse", "0123456789abcdef");
    assert_ne!(base, hash_stage("correct-horsf", "0123456789abcdef"));
    assert_ne!(base, hash_stage("correct-horse", "0123456789abcdeg"));
    assert_ne!(base, "correct-horse");
}

#[test]
fn credential_is_two_stages() {
    let salt = "abcdefghijklmnopqrstuvwxyz012345".to_string();
    let hashed = hash_data_with_salt("correct-horse", salt.clone(), LOCAL_SALT);
    let intermediate = hash_stage(&salt, LOCAL_SALT);
    assert_eq!(hashed.salt, salt);
    assert_eq!(hashed.hash, hash_stage("correct-horse", &intermediate));
}

#[test]
fn same_inputs_give_the_same_credential() {
    let salt = "abcdefghijklmnopqrstuvwxyz012345".to_string();
    let first = hash_data_with_salt("pw", salt.clone(), LOCAL_SALT);
    let second = hash_data_with_salt("pw", salt, LOCAL_SALT);
    assert_eq!(first.hash, second.hash);
    assert_eq!(first.salt, second.salt);
}

#[test]
fn credential_depends_on_the_local_salt() {
    let salt = "abcdefghijklmnopqrstuvwxyz012345".to_string();
    let first = hash_data_with_salt("pw", salt.clone(), "local-salt-one");
    let second = hash_data_with_salt("pw", salt, "local-salt-two");
    assert_ne!(first.hash, second.hash);
}

#[test]
fn fresh_salt_is_32_alphanumerics() {
    let hashed = hash_data("correct-horse", LOCAL_SALT);
    assert_eq!(SALT_LEN, 32);
    assert_eq!(hashed.salt.chars().count(), 32);
    assert!(hashed.salt.chars().all(|c| c.is_ascii_alphanumeric()));
    assert!(hashed.hash.starts_with("$argon2d$"));
    assert_ne!(hashed.hash, "correct-horse");
}

#[test]
fn repeated_derivations_differ() {
    let mut salts: Vec<String> = Vec::new();
    let mut hashes: Vec<String> = Vec::new();
    for _ in 0..4 {
        let hashed = hash_data("correct-horse", LOCAL_SALT);
        assert!(!salts.contains(&hashed.salt));
        assert!(!hashes.contains(&hashed.hash));
        salts.push(hashed.salt);
        hashes.push(hashed.hash);
    }
}

#[test]
fn derived_credential_verifies() {
    let hashed = hash_data("correct-horse", LOCAL_SALT);
    assert!(compare_input_to_hashed_value("correct-horse", &hashed.hash, &hashed.salt, LOCAL_SALT));
}

#[test]
fn wrong_password_does_not_verify() {
    let hashed = hash_data("correct-horse", LOCAL_SALT);
    assert!(!compare_input_to_hashed_value("wrong-password", &hashed.hash, &hashed.salt, LOCAL_SALT));
    assert!(!compare_input_to_hashed_value("", &hashed.hash, &hashed.salt, LOCAL_SALT));
}

#[test]
fn empty_password_is_hashed_like_any_other() {
    let hashed = hash_data("", LOCAL_SALT);
    assert!(compare_input_to_hashed_value("", &hashed.hash, &hashed.salt, LOCAL_SALT));
    assert!(!compare_input_to_hashed_value(" ", &hashed.hash, &hashed.salt, LOCAL_SALT));
}

#[test]
fn other_salt_or_local_salt_does_not_verify() {
    let hashed = hash_data("correct-horse", LOCAL_SALT);
    assert!(!compare_input_to_hashed_value(
        "correct-horse",
        &hashed.hash,
        "abcdefghijklmnopqrstuvwxyz012345",
        LOCAL_SALT
    ));
    assert!(!compare_input_to_hashed_value(
        "correct-horse",
        &hashed.hash,
        &hashed.salt,
        "another-local-salt"
    ));
}

#[test]
fn non_ascii_password_round_trips() {
    let hashed = hash_data("pässwörd-密码", LOCAL_SALT);
    assert!(compare_input_to_hashed_value("pässwörd-密码", &hashed.hash, &hashed.salt, LOCAL_SALT));
    assert!(!compare_input_to_hashed_value("password", &hashed.hash, &hashed.salt, LOCAL_SALT));
}

#[test]
fn local_salt_needs_eight_bytes() {
    assert!(!is_local_salt_ok(""));
    assert!(!is_local_salt_ok("1234567"));
    assert!(is_local_salt_ok("12345678"));
    assert!(is_local_salt_ok("ääää"));
    assert!(!is_local_salt_ok("äää1"));
    assert!(is_local_salt_ok(LOCAL_SALT));
}

#[test]
fn ordinary_text_is_an_input() {
    assert!(is_input_ok(""));
    assert!(is_input_ok("correct-horse"));
    assert!(is_input_ok("pässwörd-密码"));
}

#[test]
fn constant_time_eq_is_equality() {
    assert!(constant_time_eq(b"", b""));
    assert!(constant_time_eq(b"abc", b"abc"));
    assert!(!constant_time_eq(b"abc", b"abd"));
    assert!(!constant_time_eq(b"abc", b"bbc"));
    assert!(!constant_time_eq(b"abc", b"ab"));
    assert!(!constant_time_eq(b"", b"a"));
    assert!(!constant_time_eq(&[0x0f, 0xf0], &[0xf0, 0x0f]));
    assert!(!constant_time_eq(&[1, 2, 3], &[1, 0, 3]));
}

#[test]
fn shortest_local_salt_hashes() {
    let hashed = hash_data_with_salt("pw", "abcdefghijklmnopqrstuvwxyz012345".to_string(), "12345678");
    assert!(compare_input_to_hashed_value("pw", &hashed.hash, &hashed.salt, "12345678"));
    assert!(!compare_input_to_hashed_value("pw", &hashed.hash, &hashed.salt, "12345679"));
}
