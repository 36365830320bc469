//! The session-lifecycle protocol: registration, login, refresh, logout and
//! bulk revocation, plus the guard that resolves a bearer token to an
//! account.
//!
//! Conventions fixed here, where the surrounding service left a choice open:
//! logging out a token that is not stored is treated as unauthorized, not as
//! success; refresh does not rotate the refresh token.

use vstd::prelude::*;
use vstd::string::*;
use crate::AppState;
use crate::error::{AppError, AuthError};
use crate::models::account::{Account, AccountV, Role};
use crate::models::refresh_token::RefreshTokenV;
use crate::payloads::AuthPayload;
use crate::services::DeleteResult;
use crate::services::account_services::{
    account_id_present, first_username_match, username_taken, username_unique_in,
};
use crate::services::jwt_services::{
    decode_of, decode_token, first_token_match, generate_pair, generate_token, other_owner,
    spec_decode_token, token_of, token_present, ACCESS_TOKEN_EXPIRATION_SECS,
    REFRESH_TOKEN_EXPIRATION_SECS,
};
use crate::services::utils::password_utils::{hash_password, password_matches, verify_password};

verus! {

/// Whether the store accepts the credentials: the first account stored under
/// the username exists and the password matches its digest.
pub open spec fn login_ok(s: Seq<AccountV>, username: Seq<char>, password: Seq<char>) -> bool {
    exists|i: int| #[trigger]
        first_username_match(s, username, i) && password_matches(s[i].hashed_password, password)
}

/// What a successful login leaves behind: the returned pair is the freshly
/// signed access and refresh token for the subject, and exactly one record,
/// carrying the refresh token, was appended to the revocation list.
pub open spec fn login_success(
    pre: Seq<RefreshTokenV>,
    post: Seq<RefreshTokenV>,
    access_secret: Seq<char>,
    refresh_secret: Seq<char>,
    sub: u64,
    now: i64,
    r: Result<(String, String), AppError>,
) -> bool {
    match r {
        Result::Ok(pair) => {
            &&& pair.0@ == token_of(sub, (now + ACCESS_TOKEN_EXPIRATION_SECS) as i64, access_secret)
            &&& decode_of(pair.0@, access_secret) == Some(
                (sub, (now + ACCESS_TOKEN_EXPIRATION_SECS) as i64),
            )
            &&& pair.1@ == token_of(
                sub,
                (now + REFRESH_TOKEN_EXPIRATION_SECS) as i64,
                refresh_secret,
            )
            &&& decode_of(pair.1@, refresh_secret) == Some(
                (sub, (now + REFRESH_TOKEN_EXPIRATION_SECS) as i64),
            )
            &&& post.len() == pre.len() + 1
            &&& post == pre.push(
                RefreshTokenV {
                    id: post.last().id,
                    account_id: sub,
                    expiry_timestamp: (now + REFRESH_TOKEN_EXPIRATION_SECS) as i64,
                    token: pair.1@,
                },
            )
        },
        Result::Err(_) => false,
    }
}

/// Registers a new account: rejected with "username taken" when the username
/// is stored already (no side effect); otherwise the password is hashed, the
/// account persisted under a fresh identity, re-fetched by that identity and
/// returned in its stored form.
pub fn register(state: &mut AppState, auth_payload: AuthPayload, roles: &[Role]) -> (r: Result<
    Account,
    AppError,
>)
    requires
        old(state).wf(),
        old(state).accounts.can_insert(),
        auth_payload.password@.len() < 0x4000_0000,
    ensures
        final(state).wf(),
        final(state).refresh_tokens == old(state).refresh_tokens,
        final(state).sessions == old(state).sessions,
        final(state).env == old(state).env,
        r is Ok <==> !username_taken(old(state).accounts@, auth_payload.username@),
        r is Err ==> r == Result::<Account, AppError>::Err(
            AppError::Auth(AuthError::UsernameAlreadyTaken),
        ) && final(state).accounts == old(state).accounts,
        r matches Ok(account) ==> {
            &&& final(state).accounts.capacity_left() == old(state).accounts.capacity_left() - 1
            &&& account@.username == auth_payload.username@
            &&& password_matches(account@.hashed_password, auth_payload.password@)
            &&& account@.roles == roles@
            &&& final(state).accounts@ == old(state).accounts@.push(account@)
            &&& forall|i: int|
                0 <= i < old(state).accounts@.len() ==> (#[trigger] old(state).accounts@[i]).id != account@.id
        },
{
    if state.accounts.find_by_username(auth_payload.username.as_str()).is_some() {
        return Err(AppError::Auth(AuthError::UsernameAlreadyTaken));
    }
    let hashed = hash_password(auth_payload.password.as_str());
    let account = state.accounts.insert(auth_payload.username.as_str(), hashed.as_str(), roles);
    let account_id = account.id;
    proof {
        let n = state.accounts@.len() - 1;
        assert(state.accounts@[n] == account@);
        assert(account_id_present(state.accounts@, account@.id));
    }
    match state.accounts.find_by_id(account_id) {
        Some(stored) => {
            proof {
                let i = choose|i: int|
                    0 <= i < state.accounts@.len() && #[trigger] state.accounts@[i] == stored@;
                assert(state.accounts@ == old(state).accounts@.push(account@));
                if i < old(state).accounts@.len() {
                    assert(old(state).accounts@[i].id != account@.id);
                }
                assert(stored@ == account@);
            }
            Ok(stored)
        },
        None => Err(AppError::Internal(String::from_str("New account not inserted"))),
    }
}

/// Logs an account in.  A missing username and a wrong password collapse
/// into one "invalid credentials" error, so a caller cannot probe which
/// usernames exist.  On success the refresh token is persisted before the
/// pair is returned: no token leaves the function without its revocation
/// record.
pub fn login(state: &mut AppState, auth_payload: AuthPayload, now: i64) -> (r: Result<
    (String, String),
    AppError,
>)
    requires
        old(state).wf(),
        old(state).refresh_tokens.can_insert(),
    ensures
        final(state).wf(),
        final(state).accounts == old(state).accounts,
        final(state).sessions == old(state).sessions,
        final(state).env == old(state).env,
        r is Ok ==> final(state).refresh_tokens.capacity_left() == old(
            state,
        ).refresh_tokens.capacity_left() - 1,
        r is Err ==> final(state).refresh_tokens == old(state).refresh_tokens,
        !login_ok(old(state).accounts@, auth_payload.username@, auth_payload.password@) ==> r
            == Result::<(String, String), AppError>::Err(
            AppError::Auth(AuthError::InvalidCredentials),
        ) && final(state).refresh_tokens == old(state).refresh_tokens,
        login_ok(old(state).accounts@, auth_payload.username@, auth_payload.password@) && now
            + REFRESH_TOKEN_EXPIRATION_SECS > i64::MAX ==> (r matches Err(e) && e is Internal)
            && final(state).refresh_tokens == old(state).refresh_tokens,
        forall|i: int|
            #[trigger] first_username_match(old(state).accounts@, auth_payload.username@, i)
                && password_matches(
                old(state).accounts@[i].hashed_password,
                auth_payload.password@,
            ) && now + REFRESH_TOKEN_EXPIRATION_SECS <= i64::MAX ==> login_success(
                old(state).refresh_tokens@,
                final(state).refresh_tokens@,
                old(state).env.jwt_access_secret@,
                old(state).env.jwt_refresh_secret@,
                old(state).accounts@[i].id,
                now,
                r,
            ),
{
    let ghost accounts0 = state.accounts@;
    let account = match state.accounts.find_by_username(auth_payload.username.as_str()) {
        None => {
            proof {
                assert forall|i: int|
                    !(#[trigger] first_username_match(
                        accounts0,
                        auth_payload.username@,
                        i,
                    )) by {
                    if first_username_match(accounts0, auth_payload.username@, i) {
                        assert(username_taken(accounts0, auth_payload.username@));
                    }
                }
            }
            return Err(AppError::Auth(AuthError::InvalidCredentials));
        },
        Some(a) => a,
    };
    let ghost idx = choose|i: int|
        first_username_match(accounts0, auth_payload.username@, i) && #[trigger] accounts0[i]
            == account@;
    if !verify_password(account.hashed_password.as_str(), auth_payload.password.as_str()) {
        proof {
            assert forall|i: int|
                #[trigger] first_username_match(accounts0, auth_payload.username@, i)
                    implies !password_matches(
                    accounts0[i].hashed_password,
                    auth_payload.password@,
                ) by {
                crate::services::account_services::lemma_first_username_match_unique(
                    accounts0,
                    auth_payload.username@,
                    i,
                    idx,
                );
            }
        }
        return Err(AppError::Auth(AuthError::InvalidCredentials));
    }
    proof {
        assert(login_ok(accounts0, auth_payload.username@, auth_payload.password@));
    }
    let pair = match generate_pair(
        account.id,
        state.env.jwt_access_secret.as_str(),
        state.env.jwt_refresh_secret.as_str(),
        now,
    ) {
        Ok(p) => p,
        Err(e) => {
            return Err(e);
        },
    };
    let (access_token, refresh_token, refresh_exp) = pair;
    state.refresh_tokens.insert_refresh(account.id, refresh_exp, refresh_token.as_str());
    proof {
        assert forall|i: int|
            #[trigger] first_username_match(accounts0, auth_payload.username@, i)
                && password_matches(
                accounts0[i].hashed_password,
                auth_payload.password@,
            ) implies accounts0[i].id == account@.id by {
            crate::services::account_services::lemma_first_username_match_unique(
                accounts0,
                auth_payload.username@,
                i,
                idx,
            );
        }
    }
    Ok((access_token, refresh_token))
}

/// Issues a fresh access token for a stored refresh token.  A token that is
/// not in the store is rejected as invalid, whatever it looks like; a stored
/// token is then decoded, distinguishing expired from invalid.  Nothing is
/// rotated or deleted.
pub fn refresh(state: &AppState, refresh_token: &str, now: i64) -> (r: Result<String, AppError>)
    ensures
        !token_present(state.refresh_tokens@, refresh_token@) ==> r == Result::<
            String,
            AppError,
        >::Err(AppError::Auth(AuthError::TokenInvalid)),
        token_present(state.refresh_tokens@, refresh_token@) ==> match spec_decode_token(
            refresh_token@,
            state.env.jwt_refresh_secret@,
            now,
        ) {
            Result::Err(e) => r == Result::<String, AppError>::Err(e),
            Result::Ok(c) => {
                &&& now + ACCESS_TOKEN_EXPIRATION_SECS > i64::MAX ==> (r matches Err(e)
                    && e is Internal)
                &&& now + ACCESS_TOKEN_EXPIRATION_SECS <= i64::MAX ==> (r matches Ok(t) && t@
                    == token_of(
                    c.sub,
                    (now + ACCESS_TOKEN_EXPIRATION_SECS) as i64,
                    state.env.jwt_access_secret@,
                ) && decode_of(t@, state.env.jwt_access_secret@) == Some(
                    (c.sub, (now + ACCESS_TOKEN_EXPIRATION_SECS) as i64),
                ))
            },
        },
{
    if state.refresh_tokens.find_refresh_by_token(refresh_token).is_none() {
        return Err(AppError::Auth(AuthError::TokenInvalid));
    }
    let claims = match decode_token(refresh_token, state.env.jwt_refresh_secret.as_str(), now) {
        Ok(c) => c,
        Err(e) => {
            return Err(e);
        },
    };
    if now > i64::MAX - ACCESS_TOKEN_EXPIRATION_SECS {
        return Err(AppError::Internal(String::from_str("Failed to create access token")));
    }
    match generate_token(
        claims.sub,
        now + ACCESS_TOKEN_EXPIRATION_SECS,
        state.env.jwt_access_secret.as_str(),
    ) {
        Ok(t) => Ok(t),
        Err(e) => Err(e),
    }
}

/// Ends the session of the given refresh token by deleting its record.  A
/// token with no record is rejected as unauthorized (the strict reading of a
/// zero-row deletion); the end state is the same either way: no such
/// session.
pub fn logout(state: &mut AppState, refresh_token: &str) -> (r: Result<String, AppError>)
    requires
        old(state).wf(),
    ensures
        final(state).wf(),
        final(state).accounts == old(state).accounts,
        final(state).sessions == old(state).sessions,
        final(state).env == old(state).env,
        final(state).refresh_tokens.capacity_left() == old(state).refresh_tokens.capacity_left(),
        !token_present(old(state).refresh_tokens@, refresh_token@) ==> r == Result::<
            String,
            AppError,
        >::Err(AppError::Auth(AuthError::Unauthorized)) && final(state).refresh_tokens@ == old(state).refresh_tokens@,
        token_present(old(state).refresh_tokens@, refresh_token@) ==> (r matches Ok(m) && m@
            == "Logged out"@),
        forall|i: int| #[trigger]
            first_token_match(old(state).refresh_tokens@, refresh_token@, i) ==> final(state).refresh_tokens@ == old(state).refresh_tokens@.remove(i),
{
    let result = state.refresh_tokens.delete_refresh_by_token(refresh_token);
    if result.deleted_count != 0 {
        Ok(String::from_str("Logged out"))
    } else {
        Err(AppError::Auth(AuthError::Unauthorized))
    }
}

/// Revokes every session of the account, after re-verifying the password: a
/// stolen but still-valid access token alone cannot revoke sessions.  With
/// the right password exactly the account's refresh-token records are
/// deleted and their number returned; with a wrong one nothing is deleted.
pub fn revoke_all_refresh_tokens(state: &mut AppState, account: Account, password: &str) -> (r:
    Result<DeleteResult, AppError>)
    requires
        old(state).wf(),
    ensures
        final(state).wf(),
        final(state).accounts == old(state).accounts,
        final(state).sessions == old(state).sessions,
        final(state).env == old(state).env,
        final(state).refresh_tokens.capacity_left() == old(state).refresh_tokens.capacity_left(),
        !password_matches(account@.hashed_password, password@) ==> r == Result::<
            DeleteResult,
            AppError,
        >::Err(AppError::Auth(AuthError::InvalidCredentials)) && final(state).refresh_tokens == old(state).refresh_tokens,
        password_matches(account@.hashed_password, password@) ==> {
            &&& final(state).refresh_tokens@ == old(state).refresh_tokens@.filter(
                other_owner(account@.id),
            )
            &&& r matches Ok(d) && d.deleted_count == old(state).refresh_tokens@.len() - final(state).refresh_tokens@.len()
        },
{
    if !verify_password(account.hashed_password.as_str(), password) {
        return Err(AppError::Auth(AuthError::InvalidCredentials));
    }
    let deleted_result = state.refresh_tokens.delete_many_refresh_by_account_id(account.id);
    Ok(deleted_result)
}

/// The token text carried by a well-formed bearer header, if any.
pub open spec fn spec_bearer_token(header: Seq<char>) -> Option<Seq<char>> {
    if header.len() >= 7 && header.subrange(0, 7) == "Bearer "@ {
        Some(header.skip(7))
    } else {
        None
    }
}

/// Splits the token off a `Bearer <token>` authorization header.
pub fn strip_bearer<'a>(header: &'a str) -> (r: Option<&'a str>)
    ensures
        r is Some <==> spec_bearer_token(header@) is Some,
        r matches Some(t) ==> Some(t@) == spec_bearer_token(header@),
{
    let len = header.unicode_len();
    if len < 7 {
        proof {
            reveal_strlit("Bearer ");
        }
        return None;
    }
    if header.get_char(0) == 'B' && header.get_char(1) == 'e' && header.get_char(2) == 'a'
        && header.get_char(3) == 'r' && header.get_char(4) == 'e' && header.get_char(5) == 'r'
        && header.get_char(6) == ' ' {
        proof {
            reveal_strlit("Bearer ");
            assert(header@.subrange(0, 7) =~= "Bearer "@);
        }
        Some(header.substring_char(7, len))
    } else {
        proof {
            reveal_strlit("Bearer ");
            assert(spec_bearer_token(header@) is None) by {
                if header@.subrange(0, 7) == "Bearer "@ {
                    assert(header@[0] == "Bearer "@[0]);
                    assert(header@[1] == "Bearer "@[1]);
                    assert(header@[2] == "Bearer "@[2]);
                    assert(header@[3] == "Bearer "@[3]);
                    assert(header@[4] == "Bearer "@[4]);
                    assert(header@[5] == "Bearer "@[5]);
                    assert(header@[6] == "Bearer "@[6]);
                    assert(false);
                }
            }
        }
        None
    }
}

/// Gates a request: extracts the bearer token from the authorization header
/// (absence or a malformed prefix is unauthorized), decodes it under the
/// access secret (expired and invalid are kept distinct), resolves the
/// subject against the credential store (a deleted account is invalid
/// credentials), and hands back the resolved account.  The store is only
/// read.
pub fn auth_guard(state: &AppState, authorization: Option<&str>, now: i64) -> (r: Result<
    Account,
    AppError,
>)
    ensures
        authorization is None ==> r == Result::<Account, AppError>::Err(
            AppError::Auth(AuthError::Unauthorized),
        ),
        authorization matches Some(h) ==> match spec_bearer_token(h@) {
            Option::None => r == Result::<Account, AppError>::Err(
                AppError::Auth(AuthError::Unauthorized),
            ),
            Option::Some(tok) => match spec_decode_token(tok, state.env.jwt_access_secret@, now) {
                Result::Err(e) => r == Result::<Account, AppError>::Err(e),
                Result::Ok(c) => {
                    &&& !account_id_present(state.accounts@, c.sub) ==> r == Result::<
                        Account,
                        AppError,
                    >::Err(AppError::Auth(AuthError::InvalidCredentials))
                    &&& account_id_present(state.accounts@, c.sub) ==> (r matches Ok(a) && a@.id
                        == c.sub && exists|i: int|
                        0 <= i < state.accounts@.len() && #[trigger] state.accounts@[i] == a@)
                },
            },
        },
{
    let header = match authorization {
        None => {
            return Err(AppError::Auth(AuthError::Unauthorized));
        },
        Some(h) => h,
    };
    let access_token = match strip_bearer(header) {
        None => {
            return Err(AppError::Auth(AuthError::Unauthorized));
        },
        Some(t) => t,
    };
    let claims = match decode_token(access_token, state.env.jwt_access_secret.as_str(), now) {
        Ok(c) => c,
        Err(e) => {
            return Err(e);
        },
    };
    match state.accounts.find_by_id(claims.sub) {
        None => Err(AppError::Auth(AuthError::InvalidCredentials)),
        Some(account) => Ok(account),
    }
}

/// Replaces any stored account named `SuperUser` by a fresh privileged one,
/// hashed from the configured password, and returns the stored record.
pub fn create_super_user(state: &mut AppState) -> (r: Result<Account, AppError>)
    requires
        old(state).wf(),
        old(state).accounts.can_insert(),
        old(state).env.superuser_password@.len() < 0x4000_0000,
    ensures
        final(state).wf(),
        final(state).refresh_tokens == old(state).refresh_tokens,
        final(state).sessions == old(state).sessions,
        final(state).env == old(state).env,
        final(state).accounts.capacity_left() == old(state).accounts.capacity_left() - 1,
        r matches Ok(account) && account@.username == "SuperUser"@ && password_matches(
            account@.hashed_password,
            old(state).env.superuser_password@,
        ) && account@.roles == seq![Role::Admin, Role::User],
        r matches Ok(account) ==> username_taken(final(state).accounts@, "SuperUser"@)
            && final(state).accounts@.last() == account@,
        r matches Ok(account) ==> {
            &&& !username_taken(old(state).accounts@, "SuperUser"@) ==> final(state).accounts@
                == old(state).accounts@.push(account@)
            &&& forall|i: int| #[trigger]
                first_username_match(old(state).accounts@, "SuperUser"@, i) ==> final(state).accounts@ == old(state).accounts@.remove(i).push(account@)
        },
{
    let ghost accounts0 = state.accounts@;
    match state.accounts.find_by_username("SuperUser") {
        Some(found) => {
            let ghost j = choose|i: int|
                first_username_match(accounts0, "SuperUser"@, i) && #[trigger] accounts0[i]
                    == found@;
            state.accounts.delete_by_id(found.id);
            proof {
                assert(accounts0[j].id == found@.id);
                assert(state.accounts@ == accounts0.remove(j));
                assert forall|i: int| #[trigger]
                    first_username_match(accounts0, "SuperUser"@, i) implies state.accounts@
                    == accounts0.remove(i) by {
                    crate::services::account_services::lemma_first_username_match_unique(
                        accounts0,
                        "SuperUser"@,
                        i,
                        j,
                    );
                }
            }
        },
        None => {
            proof {
                assert forall|i: int|
                    !(#[trigger] first_username_match(accounts0, "SuperUser"@, i)) by {
                    if first_username_match(accounts0, "SuperUser"@, i) {
                        assert(username_taken(accounts0, "SuperUser"@));
                    }
                }
            }
        },
    }
    let hashed = hash_password(state.env.superuser_password.as_str());
    let mut roles_vec: Vec<Role> = Vec::new();
    roles_vec.push(Role::Admin);
    roles_vec.push(Role::User);
    let account = state.accounts.insert("SuperUser", hashed.as_str(), roles_vec.as_slice());
    proof {
        assert(account@.roles =~= seq![Role::Admin, Role::User]);
        assert(state.accounts@.last() == account@);
        assert(username_taken(state.accounts@, "SuperUser"@));
    }
    let account_id = account.id;
    match state.accounts.find_by_id(account_id) {
        Some(stored) => {
            proof {
                let i = choose|i: int|
                    0 <= i < state.accounts@.len() && #[trigger] state.accounts@[i] == stored@;
                if i < state.accounts@.len() - 1 {
                    assert(state.accounts@[i].id != account@.id);
                }
                assert(stored@ == account@);
            }
            Ok(stored)
        },
        None => Err(AppError::Internal(String::from_str("SuperUser not inserted"))),
    }
}

/// Law: the bootstrap is idempotent on usernames.  Replacing the first
/// record stored under a username, in a store that held at most one, leaves
/// exactly one record under it.
pub proof fn lemma_bootstrap_replacement_unique(
    s: Seq<AccountV>,
    account: AccountV,
    username: Seq<char>,
    i: int,
)
    requires
        first_username_match(s, username, i),
        username_unique_in(s, username),
        account.username == username,
    ensures
        username_taken(s.remove(i).push(account), username),
        username_unique_in(s.remove(i).push(account), username),
{
    let t = s.remove(i).push(account);
    assert(t[t.len() - 1] == account);
    assert forall|k: int| 0 <= k < t.len() - 1 implies (#[trigger] t[k]).username != username by {
        let m = if k < i {
            k
        } else {
            k + 1
        };
        assert(t[k] == s[m]);
        if s[m].username == username {
            if m < i {
                assert(!(s[m].username == username && s[i].username == username));
            } else {
                assert(!(s[i].username == username && s[m].username == username));
            }
        }
    }
}

/// Law: bootstrapping into a store with no record under the username leaves
/// exactly one record under it.
pub proof fn lemma_bootstrap_fresh_unique(s: Seq<AccountV>, account: AccountV, username: Seq<char>)
    requires
        !username_taken(s, username),
        account.username == username,
    ensures
        username_taken(s.push(account), username),
        username_unique_in(s.push(account), username),
{
    let t = s.push(account);
    assert(t[s.len() as int] == account);
    assert forall|k: int| 0 <= k < s.len() implies (#[trigger] t[k]).username != username by {
        assert(t[k] == s[k]);
        if s[k].username == username {
            assert(username_taken(s, username));
        }
    }
}

/// Law: registering a fresh username and then logging in with the same
/// credentials succeeds — the freshly stored account is found under its
/// username and its digest matches the password it was hashed from.
pub proof fn lemma_register_then_login(
    s: Seq<AccountV>,
    account: AccountV,
    username: Seq<char>,
    password: Seq<char>,
)
    requires
        !username_taken(s, username),
        account.username == username,
        password_matches(account.hashed_password, password),
    ensures
        login_ok(s.push(account), username, password),
{
    let s1 = s.push(account);
    assert(s1[s.len() as int] == account);
    assert forall|j: int| 0 <= j < s.len() as int implies (#[trigger] s1[j]).username
        != username by {
        assert(s1[j] == s[j]);
        if s[j].username == username {
            assert(username_taken(s, username));
        }
    }
    assert(first_username_match(s1, username, s.len() as int));
}

/// Law: enumeration resistance.  A username that is not stored and a stored
/// username offered with a password that matches no first-stored digest both
/// leave login unaccepted, and login's contract then returns the one
/// "invalid credentials" error in either case, with no observable
/// difference.
pub proof fn lemma_invalid_credentials_uniform(
    s: Seq<AccountV>,
    absent_username: Seq<char>,
    first_password: Seq<char>,
    present_username: Seq<char>,
    second_password: Seq<char>,
)
    requires
        !username_taken(s, absent_username),
        forall|i: int| #[trigger]
            first_username_match(s, present_username, i) ==> !password_matches(
                s[i].hashed_password,
                second_password,
            ),
    ensures
        !login_ok(s, absent_username, first_password),
        !login_ok(s, present_username, second_password),
{
    if login_ok(s, absent_username, first_password) {
        let i = choose|i: int| #[trigger]
            first_username_match(s, absent_username, i) && password_matches(
                s[i].hashed_password,
                first_password,
            );
        assert(username_taken(s, absent_username));
    }
}

/// Law: a refresh token whose only record was deleted at logout is no
/// longer present, so a later refresh rejects it as invalid.
pub proof fn lemma_logout_revokes(s: Seq<RefreshTokenV>, token: Seq<char>, i: int)
    requires
        first_token_match(s, token, i),
        forall|j: int| 0 <= j < s.len() && (#[trigger] s[j]).token == token ==> j == i,
    ensures
        !token_present(s.remove(i), token),
{
    let t = s.remove(i);
    assert forall|k: int| 0 <= k < t.len() implies (#[trigger] t[k]).token != token by {
        if k < i {
            assert(t[k] == s[k]);
        } else {
            assert(t[k] == s[k + 1]);
        }
    }
}

/// Law: bulk revocation removes every record its owner held, so a refresh
/// token that only that owner's records carried is no longer present
/// afterwards.
pub proof fn lemma_revoke_all_revokes(s: Seq<RefreshTokenV>, token: Seq<char>, account_id: u64)
    requires
        forall|j: int|
            0 <= j < s.len() && (#[trigger] s[j]).token == token ==> s[j].account_id == account_id,
    ensures
        !token_present(s.filter(other_owner(account_id)), token),
{
    let t = s.filter(other_owner(account_id));
    assert forall|k: int| 0 <= k < t.len() implies (#[trigger] t[k]).token != token by {
        s.lemma_filter_pred(other_owner(account_id), k);
        crate::services::jwt_services::lemma_filter_element_of(s, other_owner(account_id), k);
        let m = choose|m: int| 0 <= m < s.len() && #[trigger] s[m] == t[k];
        if t[k].token == token {
            assert(s[m].account_id == account_id);
        }
    }
}

} // verus!
