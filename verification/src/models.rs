//! Data model of the backend: accounts with roles, events, refresh-token
//! records and solve sessions.  Identities are plain integers assigned by the
//! stores, so uniqueness is an invariant rather than a probabilistic hope.

pub mod account;
pub mod event;
pub mod refresh_token;
pub mod session;
