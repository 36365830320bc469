//! Service layer: stores, token codec, lifecycle protocol and validators.

pub mod account_services;
pub mod auth_services;
pub mod jwt_services;
pub mod scramble_services;
pub mod session_services;
pub mod utils;
pub mod validation_services;

use vstd::prelude::*;

verus! {

/// Names of the persisted collections.
pub struct Collections;

impl Collections {
    pub const ACCOUNTS: &'static str = "accounts";

    pub const REFRESH_TOKENS: &'static str = "refresh_tokens";

    pub const SESSIONS: &'static str = "sessions";
}

/// What a deletion reports: how many records went away.
#[derive(Clone, Copy, Debug, PartialEq, Eq, Structural)]
pub struct DeleteResult {
    pub deleted_count: u64,
}

/// What a replacement reports: how many records the filter matched and how
/// many were written.
#[derive(Clone, Copy, Debug, PartialEq, Eq, Structural)]
pub struct UpdateResult {
    pub matched_count: u64,
    pub modified_count: u64,
}

} // verus!
