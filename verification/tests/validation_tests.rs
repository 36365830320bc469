use backend::error::AppError;
use backend::payloads::{AuthPayload, ChangePasswordPayload, ChangeUsernamePayload};
use backend::services::validation_services::{
    ascii_string, strong_password, u64_to_string, validate_auth_payload,
    validate_change_password_payload, validate_change_username_payload, PasswordRules,
};

#[test]
fn test_ascii_string_valid() {
    let valid_input = "valid_ascii";
    let result = ascii_string(valid_input);
    assert!(result.is_ok());
}

#[test]
fn test_ascii_string_invalid() {
    let invalid_input = "invalid_\u{65e0}\u{6548}\u{7684}_string";
    let result = ascii_string(invalid_input);
    assert!(result.is_err());
}

#[test]
fn test_strong_password_valid() {
    let valid_password = "ValidP@ssw0rd";
    let result = strong_password(valid_password);
    assert!(result.is_ok());
}

#[test]
fn test_strong_password_invalid_length() {
    let invalid_password = "short";
    let result = strong_password(invalid_password);
    assert!(result.is_err());
}

#[test]
fn test_strong_password_invalid_no_digit() {
    let invalid_password = "NoDigitPassword";
    let result = strong_password(invalid_password);
    assert!(result.is_err());
}

#[test]
fn test_strong_password_invalid_no_special_char() {
    let invalid_password = "NoSpecialChar123";
    let result = strong_password(invalid_password);
    assert!(result.is_err());
}

#[test]
fn test_strong_password_reports_first_broken_rule() {
    assert_eq!(strong_password("short").unwrap_err(), "length must be in range (8..=256)");
    assert_eq!(
        strong_password("nocapitals1!").unwrap_err(),
        "must include at least one capital letter"
    );
    assert_eq!(strong_password("NoDigitPass!").unwrap_err(), "must include at least one digit");
    assert_eq!(
        strong_password("NoSpecialChar123").unwrap_err(),
        "must include at least one special character"
    );
}

#[test]
fn test_password_rules_validate_and_msg() {
    let length = PasswordRules::Length(8, 256);
    assert!(length.validate("exactly8"));
    assert!(!length.validate("seven77"));
    assert_eq!(length.msg(), "length must be in range (8..=256)");
    assert_eq!(PasswordRules::Length(1, 64).msg(), "length must be in range (1..=64)");

    assert!(PasswordRules::CapitalLetter.validate("aBc"));
    assert!(!PasswordRules::CapitalLetter.validate("abc"));
    assert_eq!(PasswordRules::CapitalLetter.msg(), "must include at least one capital letter");

    assert!(PasswordRules::Digit.validate("a1c"));
    assert!(!PasswordRules::Digit.validate("abc"));
    assert_eq!(PasswordRules::Digit.msg(), "must include at least one digit");

    assert!(PasswordRules::SpecialChar.validate("ab!"));
    assert!(!PasswordRules::SpecialChar.validate("abc123XYZ"));
    assert_eq!(
        PasswordRules::SpecialChar.msg(),
        "must include at least one special character"
    );

    assert!(PasswordRules::Ascii.validate("plain"));
    assert!(!PasswordRules::Ascii.validate("caf\u{e9}"));
    assert_eq!(PasswordRules::Ascii.msg(), "must only contain ASCII characters");
}

#[test]
fn test_u64_to_string_renders_decimal() {
    assert_eq!(u64_to_string(0), "0");
    assert_eq!(u64_to_string(7), "7");
    assert_eq!(u64_to_string(10), "10");
    assert_eq!(u64_to_string(256), "256");
    assert_eq!(u64_to_string(18_446_744_073_709_551_615), "18446744073709551615");
}

#[test]
fn test_validate_auth_payload() {
    let good = AuthPayload {
        username: "validuser".to_string(),
        password: "StrongP@ssw0rd".to_string(),
    };
    assert!(validate_auth_payload(&good).is_ok());

    let short_name = AuthPayload {
        username: "abc".to_string(),
        password: "StrongP@ssw0rd".to_string(),
    };
    assert!(matches!(validate_auth_payload(&short_name), Err(AppError::Validation(_))));

    let weak_password = AuthPayload {
        username: "validuser".to_string(),
        password: "weakpass".to_string(),
    };
    let err = validate_auth_payload(&weak_password).unwrap_err();
    assert_eq!(err.status_code(), 400);
}

#[test]
fn test_validate_change_payloads() {
    let rename = ChangeUsernamePayload { username: "ok_name".to_string() };
    assert!(validate_change_username_payload(&rename).is_ok());
    let too_long = ChangeUsernamePayload { username: "x".repeat(33) };
    assert!(validate_change_username_payload(&too_long).is_err());

    let good = ChangePasswordPayload {
        new_password: "N3w!Password".to_string(),
        old_password: "anything".to_string(),
    };
    assert!(validate_change_password_payload(&good).is_ok());
    let weak = ChangePasswordPayload {
        new_password: "weak".to_string(),
        old_password: "anything".to_string(),
    };
    assert!(validate_change_password_payload(&weak).is_err());
}
