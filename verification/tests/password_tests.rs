use backend::services::utils::password_utils::{hash_password, verify_password};

#[test]
fn test_verify_password() {
    let password = "test_password";
    let hash = hash_password(password);

    assert!(verify_password(&hash, password));
}

#[test]
fn test_verify_password_failed() {
    let password = "test_password";
    let hash = hash_password(password);

    assert!(!verify_password(&hash, "wrong_password"));
}

#[test]
fn test_hash_password_is_not_the_password() {
    let password = "test_password";
    let hash = hash_password(password);
    assert_ne!(hash, password);
    assert!(hash.starts_with("$argon2"));
}

#[test]
fn test_hash_password_salts_differ() {
    let password = "test_password";
    let first = hash_password(password);
    let second = hash_password(password);
    assert_ne!(first, second);
    assert!(verify_password(&first, password));
    assert!(verify_password(&second, password));
}

#[test]
fn test_verify_password_rejects_garbage_hash() {
    assert!(!verify_password("not a phc string", "test_password"));
}
