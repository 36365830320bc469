//! Account, session and token-lifecycle core of a small multi-tenant backend.
//!
//! The library keeps the credential, refresh-token and solve-session
//! collections as verified in-memory stores, issues and validates signed
//! bearer tokens, and drives the register / login / refresh / logout /
//! revoke protocol over them.  Network plumbing (HTTP routing, environment
//! loading) lives outside the library and hands it plain values.

use vstd::prelude::*;

pub mod error;
pub mod models;
pub mod payloads;
pub mod services;

use crate::services::account_services::CredentialStore;
use crate::services::jwt_services::RefreshTokenStore;
use crate::services::session_services::SessionStore;

verus! {

/// Process-wide configuration, constructed once at startup and injected by
/// shared reference into every component.
#[derive(Debug)]
pub struct Config {
    pub mongo_uri: String,
    pub mongo_database: String,
    pub backend_port: u16,
    pub jwt_access_secret: String,
    pub jwt_refresh_secret: String,
    pub superuser_password: String,
}

/// The state every request handler works against: the three collections and
/// the configuration.
pub struct AppState {
    pub accounts: CredentialStore,
    pub refresh_tokens: RefreshTokenStore,
    pub sessions: SessionStore,
    pub env: Config,
}

impl AppState {
    /// All three stores hold their internal invariants.
    pub open spec fn wf(&self) -> bool {
        &&& self.accounts.wf()
        &&& self.refresh_tokens.wf()
        &&& self.sessions.wf()
    }

    /// Fresh state around the given configuration: all collections empty.
    pub fn new(env: Config) -> (state: AppState)
        ensures
            state.wf(),
            state.accounts.capacity_left() == u64::MAX as int,
            state.refresh_tokens.capacity_left() == u64::MAX as int,
            state.sessions.capacity_left() == u64::MAX as int,
            state.accounts@ == Seq::<crate::models::account::AccountV>::empty(),
            state.refresh_tokens@ == Seq::<crate::models::refresh_token::RefreshTokenV>::empty(),
            state.sessions@ == Seq::<crate::models::session::SessionV>::empty(),
            state.env == env,
    {
        AppState {
            accounts: CredentialStore::new(),
            refresh_tokens: RefreshTokenStore::new(),
            sessions: SessionStore::new(),
            env,
        }
    }
}

} // verus!
