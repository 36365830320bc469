use backend::error::AppError;
use backend::models::account::Role;
use backend::models::session::Time;
use backend::services::account_services::CredentialStore;
use backend::services::jwt_services::RefreshTokenStore;
use backend::services::scramble_services::{generate, ScrambleKind};
use backend::services::session_services::SessionStore;

#[test]
fn test_insert() {
    let mut store = CredentialStore::new();
    let account = store.insert("test_user", "test_hash", &[Role::User]);
    assert_eq!(account.username, "test_user");
    assert_eq!(account.hashed_password, "test_hash");
    assert_eq!(account.roles, vec![Role::User]);
}

#[test]
fn test_find_all() {
    let mut store = CredentialStore::new();
    store.insert("user1", "hash1", &[Role::User]);
    store.insert("user2", "hash2", &[Role::Admin]);
    let all = store.find_all();
    assert_eq!(all.len(), 2);
    assert_eq!(all[0].username, "user1");
    assert_eq!(all[1].username, "user2");
}

#[test]
fn test_find_by_id() {
    let mut store = CredentialStore::new();
    let account = store.insert("test_user", "test_hash", &[Role::User]);
    let found = store.find_by_id(account.id);
    assert!(found.is_some());
    assert_eq!(found.unwrap().username, "test_user");
}

#[test]
fn test_find_by_username() {
    let mut store = CredentialStore::new();
    store.insert("test_user", "test_hash", &[Role::User]);
    let found = store.find_by_username("test_user");
    assert!(found.is_some());
    assert_eq!(found.unwrap().hashed_password, "test_hash");
    assert!(store.find_by_username("missing_user").is_none());
}

#[test]
fn test_update() {
    let mut store = CredentialStore::new();
    let mut account = store.insert("old_user", "old_hash", &[Role::User]);
    account.username = "updated_user".to_string();
    account.hashed_password = "new_hash".to_string();
    let id = account.id;
    let result = store.update(account);
    assert_eq!(result.matched_count, 1);
    assert_eq!(result.modified_count, 1);
    let found = store.find_by_id(id).unwrap();
    assert_eq!(found.username, "updated_user");
    assert_eq!(found.hashed_password, "new_hash");
}

#[test]
fn test_delete_by_id() {
    let mut store = CredentialStore::new();
    let account = store.insert("test_user", "test_hash", &[Role::User]);
    let result = store.delete_by_id(account.id);
    assert_eq!(result.deleted_count, 1);
    assert!(store.find_by_id(account.id).is_none());
    let again = store.delete_by_id(account.id);
    assert_eq!(again.deleted_count, 0);
}

#[test]
fn test_insert_refresh() {
    let mut store = RefreshTokenStore::new();
    let record = store.insert_refresh(7, 1_700_000_000, "sample_refresh_token");
    assert_eq!(record.account_id, 7);
    assert_eq!(record.expiry_timestamp, 1_700_000_000);
    assert_eq!(record.token, "sample_refresh_token");
}

#[test]
fn test_find_refresh_by_token() {
    let mut store = RefreshTokenStore::new();
    let token = "sample_refresh_token";
    store.insert_refresh(7, 1_700_000_000, token);
    let result = store.find_refresh_by_token(token);
    assert!(result.is_some());
    assert_eq!(result.unwrap().token, token);
    assert!(store.find_refresh_by_token("missing").is_none());
}

#[test]
fn test_delete_refresh_by_token() {
    let mut store = RefreshTokenStore::new();
    let token = "sample_refresh_token";
    store.insert_refresh(7, 1_700_000_000, token);
    let result = store.delete_refresh_by_token(token);
    assert_eq!(result.deleted_count, 1);
    assert!(store.find_refresh_by_token(token).is_none());
}

#[test]
fn test_find_refresh_by_id_and_user_id() {
    let mut store = RefreshTokenStore::new();
    let first = store.insert_refresh(5, 100, "first_token");
    store.insert_refresh(5, 200, "second_token");
    let by_id = store.find_refresh_by_id(first.id).unwrap();
    assert_eq!(by_id.token, "first_token");
    assert!(store.find_refresh_by_id(first.id + 999).is_none());

    // By owner, the first stored record wins.
    let by_owner = store.find_refresh_by_user_id(5).unwrap();
    assert_eq!(by_owner.token, "first_token");
    assert!(store.find_refresh_by_user_id(6).is_none());
}

#[test]
fn test_delete_refresh_by_id() {
    let mut store = RefreshTokenStore::new();
    let record = store.insert_refresh(5, 100, "short_lived");
    assert_eq!(store.delete_refresh_by_id(record.id).deleted_count, 1);
    assert_eq!(store.delete_refresh_by_id(record.id).deleted_count, 0);
}

#[test]
fn test_delete_many_refresh_by_account_id() {
    let mut store = RefreshTokenStore::new();
    store.insert_refresh(1, 10, "token_a");
    store.insert_refresh(1, 20, "token_b");
    store.insert_refresh(2, 30, "token_c");
    let result = store.delete_many_refresh_by_account_id(1);
    assert_eq!(result.deleted_count, 2);
    assert!(store.find_refresh_by_token("token_a").is_none());
    assert!(store.find_refresh_by_token("token_b").is_none());
    assert!(store.find_refresh_by_token("token_c").is_some());
}

fn sample_time() -> Time {
    Time { millis: 1000, recorded_at: 1629209981, scramble: generate(ScrambleKind::Three) }
}

#[test]
fn test_create() {
    let mut store = SessionStore::new();
    let session = store.create(3, "Test Session", vec![]);
    assert_eq!(session.account_id, 3);
    assert_eq!(session.name, "Test Session");
    assert!(session.times.is_empty());
}

#[test]
fn test_find_all_by_account_id() {
    let mut store = SessionStore::new();
    store.create(3, "one", vec![]);
    store.create(4, "two", vec![]);
    store.create(3, "three", vec![]);
    let sessions = store.find_all_by_account_id(3);
    assert_eq!(sessions.len(), 2);
    assert_eq!(sessions[0].name, "one");
    assert_eq!(sessions[1].name, "three");
}

#[test]
fn test_find_by_id_and_account_id() {
    let mut store = SessionStore::new();
    let session = store.create(3, "mine", vec![]);
    assert!(store.find_by_id_and_account_id(3, session.id).is_some());
    // another account cannot see it
    assert!(store.find_by_id_and_account_id(4, session.id).is_none());
}

#[test]
fn test_update_by_id_and_account_id() {
    let mut store = SessionStore::new();
    let mut session = store.create(3, "before", vec![]);
    session.name = "after".to_string();
    let id = session.id;
    let result = store.update_by_id_and_account_id(3, id, session);
    assert_eq!(result.matched_count, 1);
    assert_eq!(result.modified_count, 1);
    assert_eq!(store.find_by_id_and_account_id(3, id).unwrap().name, "after");
}

#[test]
fn test_insert_time() {
    let mut store = SessionStore::new();
    let session = store.create(3, "solves", vec![]);
    let result = store.insert_time(3, session.id, sample_time());
    assert!(result.is_ok());
    let updated = store.find_by_id_and_account_id(3, session.id).unwrap();
    assert_eq!(updated.times.len(), 1);
    assert_eq!(updated.times[0].millis, 1000);

    let missing = store.insert_time(3, session.id + 1, sample_time());
    assert!(matches!(missing, Err(AppError::NotFound)));
}

#[test]
fn test_delete_by_id_and_account_id() {
    let mut store = SessionStore::new();
    let session = store.create(3, "gone", vec![]);
    let result = store.delete_by_id_and_account_id(3, session.id);
    assert_eq!(result.deleted_count, 1);
    assert!(store.find_by_id_and_account_id(3, session.id).is_none());
}

#[test]
fn test_delete_all_by_account_id() {
    let mut store = SessionStore::new();
    store.create(3, "one", vec![]);
    store.create(3, "two", vec![]);
    store.create(4, "other", vec![]);
    let result = store.delete_all_by_account_id(3);
    assert_eq!(result.deleted_count, 2);
    assert_eq!(store.find_all_by_account_id(3).len(), 0);
    assert_eq!(store.find_all_by_account_id(4).len(), 1);
}
