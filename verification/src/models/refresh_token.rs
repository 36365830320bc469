//! Refresh-token records: the server-side revocation list.

use vstd::prelude::*;

verus! {

/// A persisted refresh token.  The signed token string is authoritative for
/// expiry; the stored expiry field is kept for defence in depth.
#[derive(Debug)]
pub struct RefreshToken {
    pub id: u64,
    pub account_id: u64,
    pub expiry_timestamp: i64,
    pub token: String,
}

/// The mathematical shadow of a [`RefreshToken`].
pub ghost struct RefreshTokenV {
    pub id: u64,
    pub account_id: u64,
    pub expiry_timestamp: i64,
    pub token: Seq<char>,
}

impl View for RefreshToken {
    type V = RefreshTokenV;

    open spec fn view(&self) -> RefreshTokenV {
        RefreshTokenV {
            id: self.id,
            account_id: self.account_id,
            expiry_timestamp: self.expiry_timestamp,
            token: self.token@,
        }
    }
}

impl RefreshToken {
    /// Builds a record from its parts.
    pub fn new(id: u64, account_id: u64, expiry_timestamp: i64, token: &str) -> (r: RefreshToken)
        ensures
            r@ == (RefreshTokenV { id, account_id, expiry_timestamp, token: token@ }),
    {
        RefreshToken { id, account_id, expiry_timestamp, token: token.to_owned() }
    }

    /// A field-for-field copy of this record.
    pub fn duplicate(&self) -> (r: RefreshToken)
        ensures
            r@ == self@,
    {
        RefreshToken {
            id: self.id,
            account_id: self.account_id,
            expiry_timestamp: self.expiry_timestamp,
            token: self.token.clone(),
        }
    }
}

} // verus!
