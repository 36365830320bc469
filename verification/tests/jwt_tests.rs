use backend::error::{AppError, AuthError};
use backend::services::jwt_services::{
    decode_token, generate_pair, generate_token, Claims, ACCESS_TOKEN_EXPIRATION_SECS,
    REFRESH_TOKEN_EXPIRATION_SECS,
};

const NOW: i64 = 1_700_000_000;

#[test]
fn test_generate_token() {
    let sub: u64 = 1234567890;
    let secret = "test_secret";

    let result = generate_token(sub, 1234567890, secret);
    assert!(result.is_ok());
}

#[test]
fn test_decode_token() {
    let sub: u64 = 77;
    let secret = "test_secret";
    let exp = NOW + ACCESS_TOKEN_EXPIRATION_SECS;
    let token = generate_token(sub, exp, secret).unwrap();

    let result = decode_token(&token, secret, NOW);
    assert!(result.is_ok());
    assert_eq!(sub, result.unwrap().sub);
}

#[test]
fn test_round_trip_returns_exact_claims() {
    let sub: u64 = 424242;
    let secret = "round_trip_secret";
    let exp = NOW + 1;
    let token = generate_token(sub, exp, secret).unwrap();

    let claims = decode_token(&token, secret, NOW).unwrap();
    assert_eq!(claims, Claims { sub, exp });
}

#[test]
fn test_wrong_secret_is_invalid() {
    let token = generate_token(9, NOW + 1000, "secret_one").unwrap();

    let result = decode_token(&token, "secret_two", NOW);
    assert!(matches!(result, Err(AppError::Auth(AuthError::TokenInvalid))));
}

#[test]
fn test_expired_token_is_expired_not_invalid() {
    let secret = "test_secret";
    let token = generate_token(5, NOW - 1, secret).unwrap();

    let expired = decode_token(&token, secret, NOW);
    assert!(matches!(expired, Err(AppError::Auth(AuthError::TokenExpired))));

    let mut corrupted = token.clone();
    corrupted.push('x');
    let invalid = decode_token(&corrupted, secret, NOW);
    assert!(matches!(invalid, Err(AppError::Auth(AuthError::TokenInvalid))));
}

#[test]
fn test_negative_expiry_is_expired() {
    let secret = "test_secret";
    let token = generate_token(5, -5, secret).unwrap();
    let result = decode_token(&token, secret, 0);
    assert!(matches!(result, Err(AppError::Auth(AuthError::TokenExpired))));
}

#[test]
fn test_garbage_token_is_invalid() {
    let result = decode_token("definitely.not.a-token", "test_secret", NOW);
    assert!(matches!(result, Err(AppError::Auth(AuthError::TokenInvalid))));
}

#[test]
fn test_generate_pair_tokens_decode_to_subject() {
    let sub: u64 = 31337;
    let (access, refresh, refresh_exp) =
        generate_pair(sub, "access_secret", "refresh_secret", NOW).unwrap();

    let access_claims = decode_token(&access, "access_secret", NOW).unwrap();
    assert_eq!(access_claims.sub, sub);
    assert_eq!(access_claims.exp, NOW + ACCESS_TOKEN_EXPIRATION_SECS);

    let refresh_claims = decode_token(&refresh, "refresh_secret", NOW).unwrap();
    assert_eq!(refresh_claims.sub, sub);
    assert_eq!(refresh_claims.exp, NOW + REFRESH_TOKEN_EXPIRATION_SECS);
    assert_eq!(refresh_exp, NOW + REFRESH_TOKEN_EXPIRATION_SECS);

    // The two classes are signed with their own secrets.
    assert!(decode_token(&access, "refresh_secret", NOW).is_err());
    assert!(decode_token(&refresh, "access_secret", NOW).is_err());
}
