use backend::error::{AppError, AuthError};
use backend::models::account::Role;
use backend::payloads::{AuthPayload, ChangePasswordPayload, ChangeUsernamePayload, PathId};
use backend::services::account_services::{
    change_password, change_username, delete_account_by_id,
};
use backend::services::auth_services::{
    auth_guard, create_super_user, login, logout, refresh, register, revoke_all_refresh_tokens,
};
use backend::{AppState, Config};

const NOW: i64 = 1_700_000_000;

fn test_config() -> Config {
    Config {
        mongo_uri: "mongodb://localhost:27017".to_string(),
        mongo_database: "backend_test".to_string(),
        backend_port: 8080,
        jwt_access_secret: "access_secret_for_tests".to_string(),
        jwt_refresh_secret: "refresh_secret_for_tests".to_string(),
        superuser_password: "Sup3r!UserPass".to_string(),
    }
}

fn fresh_state() -> AppState {
    AppState::new(test_config())
}

fn payload(username: &str, password: &str) -> AuthPayload {
    AuthPayload { username: username.to_string(), password: password.to_string() }
}

#[test]
fn test_register() {
    let mut state = fresh_state();
    let result = register(&mut state, payload("new_user", "secure_password"), &[Role::User]);
    assert_eq!(result.unwrap().username, "new_user");
}

#[test]
fn test_register_duplicate_username_conflicts() {
    let mut state = fresh_state();
    register(&mut state, payload("taken", "Str0ng!Pass"), &[Role::User]).unwrap();
    let second = register(&mut state, payload("taken", "Other1!Pass"), &[Role::User]);
    match second {
        Err(AppError::Auth(AuthError::UsernameAlreadyTaken)) => {}
        other => panic!("expected a username conflict, got {:?}", other),
    }
    assert_eq!(AppError::Auth(AuthError::UsernameAlreadyTaken).status_code(), 409);
}

#[test]
fn test_login() {
    let mut state = fresh_state();
    register(&mut state, payload("test_user", "correct_password"), &[Role::User]).unwrap();
    let result = login(&mut state, payload("test_user", "correct_password"), NOW);
    let (access_token, refresh_token) = result.unwrap();
    assert!(!access_token.is_empty());
    assert!(!refresh_token.is_empty());
    assert_ne!(access_token, refresh_token);
}

#[test]
fn test_register_then_login_yields_usable_access_token() {
    let mut state = fresh_state();
    let account =
        register(&mut state, payload("alice", "Str0ng!Pass"), &[Role::User]).unwrap();
    let (access_token, _) = login(&mut state, payload("alice", "Str0ng!Pass"), NOW).unwrap();

    let header = format!("Bearer {}", access_token);
    let resolved = auth_guard(&state, Some(&header), NOW).unwrap();
    assert_eq!(resolved.id, account.id);
    assert_eq!(resolved.username, "alice");
}

#[test]
fn test_login_errors_are_indistinguishable() {
    let mut state = fresh_state();
    register(&mut state, payload("present", "Corr3ct!Pass"), &[Role::User]).unwrap();

    let wrong_password = login(&mut state, payload("present", "Wr0ng!Password"), NOW);
    let unknown_user = login(&mut state, payload("absent", "Corr3ct!Pass"), NOW);

    let e1 = wrong_password.unwrap_err();
    let e2 = unknown_user.unwrap_err();
    assert_eq!(e1, e2);
    assert!(matches!(e1, AppError::Auth(AuthError::InvalidCredentials)));
    assert_eq!(e2.status_code(), 401);
    assert_eq!(e1.message(), e2.message());
}

#[test]
fn test_refresh() {
    let mut state = fresh_state();
    register(&mut state, payload("refresher", "Str0ng!Pass"), &[Role::User]).unwrap();
    let (_, refresh_token) = login(&mut state, payload("refresher", "Str0ng!Pass"), NOW).unwrap();

    let new_access = refresh(&state, &refresh_token, NOW + 60).unwrap();
    let header = format!("Bearer {}", new_access);
    assert!(auth_guard(&state, Some(&header), NOW + 61).is_ok());
}

#[test]
fn test_refresh_with_unknown_token_is_invalid() {
    let state = fresh_state();
    let result = refresh(&state, "never_issued", NOW);
    assert!(matches!(result, Err(AppError::Auth(AuthError::TokenInvalid))));
}

#[test]
fn test_logout() {
    let mut state = fresh_state();
    register(&mut state, payload("leaver", "Str0ng!Pass"), &[Role::User]).unwrap();
    let (_, refresh_token) = login(&mut state, payload("leaver", "Str0ng!Pass"), NOW).unwrap();

    let message = logout(&mut state, &refresh_token).unwrap();
    assert_eq!(message, "Logged out");

    let again = logout(&mut state, &refresh_token);
    assert!(matches!(again, Err(AppError::Auth(AuthError::Unauthorized))));
}

#[test]
fn test_refresh_after_logout_is_invalid() {
    let mut state = fresh_state();
    register(&mut state, payload("bob", "Str0ng!Pass"), &[Role::User]).unwrap();
    let (_, refresh_token) = login(&mut state, payload("bob", "Str0ng!Pass"), NOW).unwrap();
    assert!(refresh(&state, &refresh_token, NOW + 1).is_ok());

    logout(&mut state, &refresh_token).unwrap();
    let after = refresh(&state, &refresh_token, NOW + 2);
    assert!(matches!(after, Err(AppError::Auth(AuthError::TokenInvalid))));
}

#[test]
fn test_duplicate_logins_same_second_share_a_token() {
    let mut state = fresh_state();
    register(&mut state, payload("fast", "Str0ng!Pass"), &[Role::User]).unwrap();
    // Signing is deterministic, so two logins in the same second issue the
    // same refresh-token text, stored as two records.
    let (_, r1) = login(&mut state, payload("fast", "Str0ng!Pass"), NOW).unwrap();
    let (_, r2) = login(&mut state, payload("fast", "Str0ng!Pass"), NOW).unwrap();
    assert_eq!(r1, r2);

    // One logout ends one of the two sessions; the token stays usable until
    // the second record is gone too.
    logout(&mut state, &r1).unwrap();
    assert!(refresh(&state, &r1, NOW + 1).is_ok());
    logout(&mut state, &r1).unwrap();
    assert!(matches!(
        refresh(&state, &r1, NOW + 2),
        Err(AppError::Auth(AuthError::TokenInvalid))
    ));
}

#[test]
fn test_refresh_after_revoke_all_is_invalid() {
    let mut state = fresh_state();
    let account = register(&mut state, payload("carol", "Str0ng!Pass"), &[Role::User]).unwrap();
    let (_, refresh_token) = login(&mut state, payload("carol", "Str0ng!Pass"), NOW).unwrap();

    revoke_all_refresh_tokens(&mut state, account, "Str0ng!Pass").unwrap();
    let after = refresh(&state, &refresh_token, NOW + 1);
    assert!(matches!(after, Err(AppError::Auth(AuthError::TokenInvalid))));
}

#[test]
fn test_revoke_all_refresh_tokens() {
    let mut state = fresh_state();
    let owner = register(&mut state, payload("test_user", "Corr3ct!Pass"), &[Role::User]).unwrap();
    let other = register(&mut state, payload("other_user", "0ther!Pass"), &[Role::User]).unwrap();
    login(&mut state, payload("test_user", "Corr3ct!Pass"), NOW).unwrap();
    login(&mut state, payload("test_user", "Corr3ct!Pass"), NOW + 1).unwrap();
    login(&mut state, payload("test_user", "Corr3ct!Pass"), NOW + 2).unwrap();
    let (_, other_refresh) = login(&mut state, payload("other_user", "0ther!Pass"), NOW).unwrap();

    // Wrong re-entered password: nothing is deleted.
    let refused = revoke_all_refresh_tokens(&mut state, owner.duplicate(), "Wr0ng!Pass");
    assert!(matches!(refused, Err(AppError::Auth(AuthError::InvalidCredentials))));

    let result = revoke_all_refresh_tokens(&mut state, owner, "Corr3ct!Pass").unwrap();
    assert_eq!(result.deleted_count, 3);

    // The other account's session survived.
    assert!(refresh(&state, &other_refresh, NOW + 3).is_ok());
    // A second revocation has nothing left to delete.
    let again = revoke_all_refresh_tokens(&mut state, other, "0ther!Pass").unwrap();
    assert_eq!(again.deleted_count, 1);
}

#[test]
fn test_auth_guard_rejections() {
    let state = fresh_state();

    let no_header = auth_guard(&state, None, NOW);
    assert!(matches!(no_header, Err(AppError::Auth(AuthError::Unauthorized))));

    let bad_prefix = auth_guard(&state, Some("Token abc"), NOW);
    assert!(matches!(bad_prefix, Err(AppError::Auth(AuthError::Unauthorized))));

    let garbage = auth_guard(&state, Some("Bearer garbage"), NOW);
    assert!(matches!(garbage, Err(AppError::Auth(AuthError::TokenInvalid))));
}

#[test]
fn test_auth_guard_expired_is_distinguished() {
    let mut state = fresh_state();
    register(&mut state, payload("dave", "Str0ng!Pass"), &[Role::User]).unwrap();
    let (access_token, _) = login(&mut state, payload("dave", "Str0ng!Pass"), NOW).unwrap();

    // Before the expiry the guard accepts, from the expiry on it reports
    // "token expired" — a different condition than a corrupted token.
    let header = format!("Bearer {}", access_token);
    assert!(auth_guard(&state, Some(&header), NOW + 899).is_ok());
    let expired = auth_guard(&state, Some(&header), NOW + 900);
    assert!(matches!(expired, Err(AppError::Auth(AuthError::TokenExpired))));

    let corrupted = format!("Bearer {}x", access_token);
    let invalid = auth_guard(&state, Some(&corrupted), NOW);
    assert!(matches!(invalid, Err(AppError::Auth(AuthError::TokenInvalid))));
    // Both surface as 401 to the client.
    assert_eq!(expired.unwrap_err().status_code(), 401);
    assert_eq!(invalid.unwrap_err().status_code(), 401);
}

#[test]
fn test_auth_guard_deleted_account_is_invalid_credentials() {
    let mut state = fresh_state();
    let admin = register(&mut state, payload("root", "R00t!Pass"), &[Role::Admin]).unwrap();
    let victim = register(&mut state, payload("victim", "Str0ng!Pass"), &[Role::User]).unwrap();
    let (access_token, _) = login(&mut state, payload("victim", "Str0ng!Pass"), NOW).unwrap();

    delete_account_by_id(&mut state, &admin, PathId { id: victim.id }).unwrap();

    let header = format!("Bearer {}", access_token);
    let result = auth_guard(&state, Some(&header), NOW);
    assert!(matches!(result, Err(AppError::Auth(AuthError::InvalidCredentials))));
}

#[test]
fn test_delete_account_requires_admin() {
    let mut state = fresh_state();
    let plain = register(&mut state, payload("plain", "Str0ng!Pass"), &[Role::User]).unwrap();
    let target = register(&mut state, payload("target", "Str0ng!Pass"), &[Role::User]).unwrap();

    let refused = delete_account_by_id(&mut state, &plain, PathId { id: target.id });
    match refused {
        Err(AppError::Auth(AuthError::Forbidden)) => {}
        other => panic!("expected forbidden, got {:?}", other),
    }
    assert_eq!(AppError::Auth(AuthError::Forbidden).status_code(), 403);
}

#[test]
fn test_change_username_checks_for_conflicts() {
    let mut state = fresh_state();
    register(&mut state, payload("existing", "Str0ng!Pass"), &[Role::User]).unwrap();
    let account = register(&mut state, payload("mover", "Str0ng!Pass"), &[Role::User]).unwrap();

    let conflict = change_username(
        &mut state,
        account.duplicate(),
        ChangeUsernamePayload { username: "existing".to_string() },
    );
    assert!(matches!(conflict, Err(AppError::Auth(AuthError::UsernameAlreadyTaken))));

    let renamed = change_username(
        &mut state,
        account,
        ChangeUsernamePayload { username: "moved".to_string() },
    )
    .unwrap();
    assert_eq!(renamed.modified_count, 1);
    assert!(login(&mut state, payload("moved", "Str0ng!Pass"), NOW).is_ok());
}

#[test]
fn test_change_password_revokes_sessions() {
    let mut state = fresh_state();
    let account = register(&mut state, payload("erin", "0ld!Password"), &[Role::User]).unwrap();
    let (_, old_refresh) = login(&mut state, payload("erin", "0ld!Password"), NOW).unwrap();

    let wrong = change_password(
        &mut state,
        account.duplicate(),
        ChangePasswordPayload {
            new_password: "N3w!Password".to_string(),
            old_password: "not the old one".to_string(),
        },
    );
    assert!(matches!(wrong, Err(AppError::Auth(AuthError::InvalidCredentials))));

    let (update_res, revoke_res) = change_password(
        &mut state,
        account,
        ChangePasswordPayload {
            new_password: "N3w!Password".to_string(),
            old_password: "0ld!Password".to_string(),
        },
    )
    .unwrap();
    assert_eq!(update_res.modified_count, 1);
    assert_eq!(revoke_res.deleted_count, 1);

    // The old refresh token died with the old password ...
    let stale = refresh(&state, &old_refresh, NOW + 1);
    assert!(matches!(stale, Err(AppError::Auth(AuthError::TokenInvalid))));
    // ... and only the new password logs in.
    assert!(login(&mut state, payload("erin", "0ld!Password"), NOW).is_err());
    assert!(login(&mut state, payload("erin", "N3w!Password"), NOW).is_ok());
}

#[test]
fn test_create_super_user() {
    let mut state = fresh_state();
    let superuser = create_super_user(&mut state).unwrap();
    assert_eq!(superuser.username, "SuperUser");
    assert_eq!(superuser.roles, vec![Role::Admin, Role::User]);
    assert!(login(&mut state, payload("SuperUser", "Sup3r!UserPass"), NOW).is_ok());

    // Running the bootstrap again replaces the account instead of duplicating it.
    create_super_user(&mut state).unwrap();
    let all = state.accounts.find_all();
    assert_eq!(all.iter().filter(|a| a.username == "SuperUser").count(), 1);
}

#[test]
fn test_end_to_end_lifecycle() {
    let mut state = fresh_state();

    // Register and login.
    register(&mut state, payload("alice", "Str0ng!Pass"), &[Role::User]).unwrap();
    let (access_token, refresh_token) =
        login(&mut state, payload("alice", "Str0ng!Pass"), NOW).unwrap();

    // A protected call with the access token resolves alice.
    let header = format!("Bearer {}", access_token);
    let resolved = auth_guard(&state, Some(&header), NOW).unwrap();
    assert_eq!(resolved.username, "alice");

    // The same call with no header is rejected.
    let anonymous = auth_guard(&state, None, NOW);
    assert_eq!(anonymous.unwrap_err().status_code(), 401);

    // Past the access-token lifetime the guard reports expiry, distinguished
    // internally from an invalid token.
    let late = auth_guard(&state, Some(&header), NOW + 1_000);
    assert!(matches!(late, Err(AppError::Auth(AuthError::TokenExpired))));

    // The still-valid refresh token yields a new access token.
    let new_access = refresh(&state, &refresh_token, NOW + 1_000).unwrap();
    let new_header = format!("Bearer {}", new_access);
    assert!(auth_guard(&state, Some(&new_header), NOW + 1_001).is_ok());

    // After logout the refresh token is dead.
    logout(&mut state, &refresh_token).unwrap();
    let afterwards = refresh(&state, &refresh_token, NOW + 1_002);
    assert_eq!(afterwards.unwrap_err().status_code(), 401);
}
