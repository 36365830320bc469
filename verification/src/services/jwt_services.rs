//! Token codec and refresh-token store.
//!
//! Tokens are signed claim sets `{sub, exp}` keyed by a symmetric secret.
//! Signing and signature verification are delegated to the jsonwebtoken
//! crate; the expiry comparison is done here, against an explicit clock
//! reading, so that the expired / invalid distinction is verified logic.

use vstd::prelude::*;
use vstd::string::*;
use crate::error::{AppError, AuthError};
use crate::models::refresh_token::{RefreshToken, RefreshTokenV};
use crate::services::utils::str_eq;
use crate::services::DeleteResult;

verus! {

/// Whether some record in `s` carries exactly the token text `token`.
pub open spec fn token_present(s: Seq<RefreshTokenV>, token: Seq<char>) -> bool {
    exists|i: int| 0 <= i < s.len() && (#[trigger] s[i]).token == token
}

/// Whether `i` is the first index of `s` whose record carries `token`.
pub open spec fn first_token_match(s: Seq<RefreshTokenV>, token: Seq<char>, i: int) -> bool {
    &&& 0 <= i < s.len()
    &&& s[i].token == token
    &&& forall|j: int| 0 <= j < i ==> (#[trigger] s[j]).token != token
}

/// Whether some record in `s` has identity `id`.
pub open spec fn record_id_present(s: Seq<RefreshTokenV>, id: u64) -> bool {
    exists|i: int| 0 <= i < s.len() && (#[trigger] s[i]).id == id
}

/// Whether some record in `s` is owned by `account_id`.
pub open spec fn owner_present(s: Seq<RefreshTokenV>, account_id: u64) -> bool {
    exists|i: int| 0 <= i < s.len() && (#[trigger] s[i]).account_id == account_id
}

/// The records not owned by `account_id`: what bulk revocation keeps.
pub open spec fn other_owner(account_id: u64) -> spec_fn(RefreshTokenV) -> bool {
    |rec: RefreshTokenV| rec.account_id != account_id
}

/// Whether `i` is the first index of `s` whose record is owned by
/// `account_id`.
pub open spec fn first_owner_match(s: Seq<RefreshTokenV>, account_id: u64, i: int) -> bool {
    &&& 0 <= i < s.len()
    &&& s[i].account_id == account_id
    &&& forall|j: int| 0 <= j < i ==> (#[trigger] s[j]).account_id != account_id
}

/// Lifetime of an access token, in seconds.
pub const ACCESS_TOKEN_EXPIRATION_SECS: i64 = 900;

/// Lifetime of a refresh token, in seconds.
pub const REFRESH_TOKEN_EXPIRATION_SECS: i64 = 2592000;

/// The claim set carried inside a signed token: subject identity and
/// absolute expiry instant (seconds since the epoch).
#[derive(Clone, Copy, Debug, PartialEq, Eq, Structural)]
pub struct Claims {
    pub sub: u64,
    pub exp: i64,
}

/// The token text that signing a claim set with a secret produces.
pub uninterp spec fn token_of(sub: u64, exp: i64, secret: Seq<char>) -> Seq<char>;

/// What signature verification recovers from a token text under a secret:
/// the embedded claims when the signature and structure check out, nothing
/// otherwise.
pub uninterp spec fn decode_of(token: Seq<char>, secret: Seq<char>) -> Option<(u64, i64)>;

/// Relies on jsonwebtoken::encode with an HMAC-SHA256 key from
/// EncodingKey::from_secret: the result is a function of the claims and the
/// secret alone, and jsonwebtoken::decode under the same secret recovers
/// exactly the encoded claims.  With an HMAC key and integer claims, encode
/// cannot fail.
#[verifier::external_body]
fn sign_claims(sub: u64, exp: i64, secret: &str) -> (r: String)
    ensures
        r@ == token_of(sub, exp, secret@),
        decode_of(r@, secret@) == Some((sub, exp)),
{
    let mut claims = serde_json::Map::new();
    claims.insert("sub".to_owned(), serde_json::Value::from(sub));
    claims.insert("exp".to_owned(), serde_json::Value::from(exp));
    let key = jsonwebtoken::EncodingKey::from_secret(secret.as_bytes());
    jsonwebtoken::encode(&jsonwebtoken::Header::default(), &serde_json::Value::Object(claims), &key)
        .expect("HMAC signing of integer claims does not fail")
}

/// Relies on jsonwebtoken::decode with an HMAC-SHA256 key from
/// DecodingKey::from_secret, with expiry validation off and no claims
/// required, so nothing clock- or parse-dependent runs inside the call: the
/// outcome is a function of the token text and the secret alone; a bad
/// signature, a malformed token or missing integer claims give `None`.
#[verifier::external_body]
fn verify_signed(token: &str, secret: &str) -> (r: Option<(u64, i64)>)
    ensures
        r == decode_of(token@, secret@),
{
    let mut validation = jsonwebtoken::Validation::default();
    validation.validate_exp = false;
    validation.required_spec_claims.clear();
    let key = jsonwebtoken::DecodingKey::from_secret(secret.as_bytes());
    let data = match jsonwebtoken::decode::<serde_json::Value>(token, &key, &validation) {
        Ok(d) => d,
        Err(_) => return None,
    };
    let sub = data.claims.get("sub").and_then(serde_json::Value::as_u64);
    let exp = data.claims.get("exp").and_then(serde_json::Value::as_i64);
    match (sub, exp) {
        (Some(s), Some(e)) => Some((s, e)),
        _ => None,
    }
}

/// Relies on chrono::Utc::now: the current clock reading, in whole seconds
/// since the epoch.  Nothing is assumed of the value a reading has.
#[verifier::external_body]
pub fn now_timestamp() -> (r: i64) {
    chrono::Utc::now().timestamp()
}

/// The outcome of decoding a token at clock reading `now`: the claims while
/// the token is structurally valid, correctly signed and not yet expired;
/// "expired" when only the expiry has passed; "invalid" otherwise.
pub open spec fn spec_decode_token(token: Seq<char>, secret: Seq<char>, now: i64) -> Result<
    Claims,
    AppError,
> {
    match decode_of(token, secret) {
        Option::None => Result::Err(AppError::Auth(AuthError::TokenInvalid)),
        Option::Some(c) => if c.1 <= now {
            Result::Err(AppError::Auth(AuthError::TokenExpired))
        } else {
            Result::Ok(Claims { sub: c.0, exp: c.1 })
        },
    }
}

/// Signs `{sub, exp}` with the secret.  The round trip is part of the
/// contract: decoding the result under the same secret yields exactly these
/// claims while `now` is before the expiry, and "token expired" from the
/// expiry on.
pub fn generate_token(sub: u64, exp: i64, secret: &str) -> (r: Result<String, AppError>)
    ensures
        r is Ok,
        r matches Ok(t) ==> t@ == token_of(sub, exp, secret@),
        r matches Ok(t) ==> decode_of(t@, secret@) == Some((sub, exp)),
        r matches Ok(t) ==> forall|now: i64|
            now < exp ==> #[trigger] spec_decode_token(t@, secret@, now) == Result::<
                Claims,
                AppError,
            >::Ok(Claims { sub, exp }),
        r matches Ok(t) ==> forall|now: i64|
            exp <= now ==> #[trigger] spec_decode_token(t@, secret@, now) == Result::<
                Claims,
                AppError,
            >::Err(AppError::Auth(AuthError::TokenExpired)),
{
    Ok(sign_claims(sub, exp, secret))
}

/// Decodes a token at clock reading `now`, distinguishing "expired" (valid
/// signature, expiry passed) from "invalid" (bad signature or structure).
pub fn decode_token(token: &str, secret: &str, now: i64) -> (r: Result<Claims, AppError>)
    ensures
        r == spec_decode_token(token@, secret@, now),
{
    match verify_signed(token, secret) {
        None => Err(AppError::Auth(AuthError::TokenInvalid)),
        Some((sub, exp)) => {
            if exp <= now {
                Err(AppError::Auth(AuthError::TokenExpired))
            } else {
                Ok(Claims { sub, exp })
            }
        },
    }
}

/// Issues the access / refresh pair for a subject at clock reading `now`:
/// a short-lived access token under the access secret and a long-lived
/// refresh token under the refresh secret, together with the refresh expiry.
/// Fails only when the refresh expiry would not fit the timestamp range.
pub fn generate_pair(sub: u64, access_secret: &str, refresh_secret: &str, now: i64) -> (r: Result<
    (String, String, i64),
    AppError,
>)
    ensures
        r is Ok <==> now + REFRESH_TOKEN_EXPIRATION_SECS <= i64::MAX,
        r matches Err(e) ==> e is Internal,
        r matches Ok(p) ==> {
            &&& p.0@ == token_of(sub, (now + ACCESS_TOKEN_EXPIRATION_SECS) as i64, access_secret@)
            &&& decode_of(p.0@, access_secret@) == Some(
                (sub, (now + ACCESS_TOKEN_EXPIRATION_SECS) as i64),
            )
            &&& p.1@ == token_of(sub, (now + REFRESH_TOKEN_EXPIRATION_SECS) as i64, refresh_secret@)
            &&& decode_of(p.1@, refresh_secret@) == Some(
                (sub, (now + REFRESH_TOKEN_EXPIRATION_SECS) as i64),
            )
            &&& p.2 == now + REFRESH_TOKEN_EXPIRATION_SECS
        },
{
    if now > i64::MAX - REFRESH_TOKEN_EXPIRATION_SECS {
        return Err(AppError::Internal(String::from_str("Failed to create refresh token")));
    }
    let access_exp = now + ACCESS_TOKEN_EXPIRATION_SECS;
    let refresh_exp = now + REFRESH_TOKEN_EXPIRATION_SECS;
    let access_token = match generate_token(sub, access_exp, access_secret) {
        Ok(t) => t,
        Err(e) => return Err(e),
    };
    let refresh_token = match generate_token(sub, refresh_exp, refresh_secret) {
        Ok(t) => t,
        Err(e) => return Err(e),
    };
    Ok((access_token, refresh_token, refresh_exp))
}

/// The refresh-token collection: the server-side list of capabilities that
/// keeps refresh tokens revocable.  Record identities are assigned by the
/// store and are unique.
pub struct RefreshTokenStore {
    records: Vec<RefreshToken>,
    next_id: u64,
}

impl View for RefreshTokenStore {
    type V = Seq<RefreshTokenV>;

    closed spec fn view(&self) -> Seq<RefreshTokenV> {
        self.records@.map_values(|r: RefreshToken| r@)
    }
}

impl RefreshTokenStore {
    /// Internal invariant: record identities are unique and below the
    /// identity counter.
    pub closed spec fn wf(&self) -> bool {
        &&& forall|i: int, j: int|
            0 <= i < j < self@.len() ==> (#[trigger] self@[i]).id != (#[trigger] self@[j]).id
        &&& forall|i: int| 0 <= i < self@.len() ==> (#[trigger] self@[i]).id < self.next_id
    }

    /// How many fresh identities the store can still assign.
    pub closed spec fn capacity_left(&self) -> int {
        u64::MAX - self.next_id
    }

    /// Whether the identity counter has room for another record.
    pub open spec fn can_insert(&self) -> bool {
        self.capacity_left() > 0
    }

    /// Exposes [`Self::can_insert`] to callers outside the proofs.
    pub fn has_room(&self) -> (r: bool)
        ensures
            r == self.can_insert(),
    {
        self.next_id < u64::MAX
    }

    /// An empty store.
    pub fn new() -> (store: RefreshTokenStore)
        ensures
            store.wf(),
            store.capacity_left() == u64::MAX as int,
            store@ == Seq::<RefreshTokenV>::empty(),
    {
        let store = RefreshTokenStore { records: Vec::new(), next_id: 0 };
        proof {
            assert(store@ =~= Seq::<RefreshTokenV>::empty());
        }
        store
    }

    /// Persists a freshly issued refresh token and returns the stored record.
    pub fn insert_refresh(&mut self, account_id: u64, expiry_timestamp: i64, token: &str) -> (r:
        RefreshToken)
        requires
            old(self).wf(),
            old(self).can_insert(),
        ensures
            final(self).wf(),
            final(self).capacity_left() == old(self).capacity_left() - 1,
            r@.account_id == account_id,
            r@.expiry_timestamp == expiry_timestamp,
            r@.token == token@,
            final(self)@ == old(self)@.push(r@),
            forall|i: int| 0 <= i < old(self)@.len() ==> (#[trigger] old(self)@[i]).id != r@.id,
    {
        let id = self.next_id;
        self.next_id = self.next_id + 1;
        let record = RefreshToken::new(id, account_id, expiry_timestamp, token);
        let result = record.duplicate();
        self.records.push(record);
        proof {
            assert(self@ =~= old(self)@.push(result@));
        }
        result
    }

    /// Looks a record up by its identity.
    pub fn find_refresh_by_id(&self, id: u64) -> (r: Option<RefreshToken>)
        ensures
            r is Some <==> record_id_present(self@, id),
            r matches Some(t) ==> t@.id == id && exists|i: int|
                0 <= i < self@.len() && #[trigger] self@[i] == t@,
    {
        let mut i: usize = 0;
        while i < self.records.len()
            invariant
                i <= self.records.len(),
                self@.len() == self.records.len(),
                forall|j: int| 0 <= j < i ==> (#[trigger] self@[j]).id != id,
                forall|j: int| 0 <= j < self.records@.len() ==> self@[j] == (#[trigger] self.records@[j])@,
            decreases self.records.len() - i,
        {
            if self.records[i].id == id {
                return Some(self.records[i].duplicate());
            }
            i = i + 1;
        }
        None
    }

    /// Looks a record up by the account that owns it (the first one stored).
    pub fn find_refresh_by_user_id(&self, user_id: u64) -> (r: Option<RefreshToken>)
        ensures
            r is Some <==> owner_present(self@, user_id),
            r matches Some(t) ==> exists|i: int|
                first_owner_match(self@, user_id, i) && #[trigger] self@[i] == t@,
    {
        let mut i: usize = 0;
        while i < self.records.len()
            invariant
                i <= self.records.len(),
                self@.len() == self.records.len(),
                forall|j: int| 0 <= j < i ==> (#[trigger] self@[j]).account_id != user_id,
                forall|j: int| 0 <= j < self.records@.len() ==> self@[j] == (#[trigger] self.records@[j])@,
            decreases self.records.len() - i,
        {
            if self.records[i].account_id == user_id {
                return Some(self.records[i].duplicate());
            }
            i = i + 1;
        }
        None
    }

    /// Looks a record up by its exact token text (the first one stored).
    pub fn find_refresh_by_token(&self, token: &str) -> (r: Option<RefreshToken>)
        ensures
            r is Some <==> token_present(self@, token@),
            r matches Some(t) ==> exists|i: int|
                first_token_match(self@, token@, i) && #[trigger] self@[i] == t@,
    {
        let mut i: usize = 0;
        while i < self.records.len()
            invariant
                i <= self.records.len(),
                self@.len() == self.records.len(),
                forall|j: int| 0 <= j < i ==> (#[trigger] self@[j]).token != token@,
                forall|j: int| 0 <= j < self.records@.len() ==> self@[j] == (#[trigger] self.records@[j])@,
            decreases self.records.len() - i,
        {
            if str_eq(self.records[i].token.as_str(), token) {
                return Some(self.records[i].duplicate());
            }
            i = i + 1;
        }
        None
    }

    /// Deletes the record with the given identity, if any.
    pub fn delete_refresh_by_id(&mut self, id: u64) -> (r: DeleteResult)
        requires
            old(self).wf(),
        ensures
            final(self).wf(),
            final(self).capacity_left() == old(self).capacity_left(),
            r.deleted_count == if record_id_present(old(self)@, id) { 1int } else { 0int },
            !record_id_present(old(self)@, id) ==> final(self)@ == old(self)@,
            forall|i: int|
                0 <= i < old(self)@.len() && (#[trigger] old(self)@[i]).id == id ==> final(self)@
                    == old(self)@.remove(i),
    {
        let ghost v0 = self@;
        let mut i: usize = 0;
        while i < self.records.len()
            invariant
                old(self).wf(),
                v0 == old(self)@,
                self.next_id == old(self).next_id,
                i <= self.records.len(),
                self@ == v0,
                self@.len() == self.records.len(),
                forall|j: int| 0 <= j < i ==> (#[trigger] self@[j]).id != id,
                forall|j: int| 0 <= j < self.records@.len() ==> self@[j] == (#[trigger] self.records@[j])@,
            decreases self.records.len() - i,
        {
            if self.records[i].id == id {
                proof {
                    assert(v0[i as int].id == id);
                    assert(record_id_present(v0, id));
                }
                self.records.remove(i);
                proof {
                    assert(self@ =~= v0.remove(i as int));
                    lemma_remove_keeps_wf(v0, i as int, self.next_id);
                }
                return DeleteResult { deleted_count: 1 };
            }
            i = i + 1;
        }
        DeleteResult { deleted_count: 0 }
    }

    /// Deletes the first record carrying exactly the given token text, if
    /// any: at most one login session ends.
    pub fn delete_refresh_by_token(&mut self, token: &str) -> (r: DeleteResult)
        requires
            old(self).wf(),
        ensures
            final(self).wf(),
            final(self).capacity_left() == old(self).capacity_left(),
            r.deleted_count == if token_present(old(self)@, token@) { 1int } else { 0int },
            !token_present(old(self)@, token@) ==> final(self)@ == old(self)@,
            forall|i: int| #[trigger]
                first_token_match(old(self)@, token@, i) ==> final(self)@ == old(self)@.remove(i),
    {
        let ghost v0 = self@;
        let mut i: usize = 0;
        while i < self.records.len()
            invariant
                old(self).wf(),
                v0 == old(self)@,
                self.next_id == old(self).next_id,
                i <= self.records.len(),
                self@ == v0,
                self@.len() == self.records.len(),
                forall|j: int| 0 <= j < i ==> (#[trigger] self@[j]).token != token@,
                forall|j: int| 0 <= j < self.records@.len() ==> self@[j] == (#[trigger] self.records@[j])@,
            decreases self.records.len() - i,
        {
            if str_eq(self.records[i].token.as_str(), token) {
                proof {
                    assert(v0[i as int].token == token@);
                    assert(token_present(v0, token@));
                    assert(first_token_match(v0, token@, i as int));
                }
                self.records.remove(i);
                proof {
                    assert(self@ =~= v0.remove(i as int));
                    lemma_remove_keeps_wf(v0, i as int, self.next_id);
                    assert forall|k: int| #[trigger]
                        first_token_match(v0, token@, k) implies self@ == v0.remove(k) by {
                        assert(k == i as int);
                    }
                }
                return DeleteResult { deleted_count: 1 };
            }
            i = i + 1;
        }
        DeleteResult { deleted_count: 0 }
    }

    /// Deletes every record owned by the account: bulk revocation.  Exactly
    /// the account's records go away; records of other owners survive in
    /// their stored order.
    pub fn delete_many_refresh_by_account_id(&mut self, id: u64) -> (r: DeleteResult)
        requires
            old(self).wf(),
        ensures
            final(self).wf(),
            final(self).capacity_left() == old(self).capacity_left(),
            final(self)@ == old(self)@.filter(other_owner(id)),
            r.deleted_count == old(self)@.len() - final(self)@.len(),
    {
        let ghost v0 = self@;
        let ghost pred = other_owner(id);
        let mut kept: Vec<RefreshToken> = Vec::new();
        let mut i: usize = 0;
        proof {
            reveal(Seq::filter);
            assert(v0.take(0) =~= Seq::<RefreshTokenV>::empty());
            assert(kept@.map_values(|r: RefreshToken| r@) =~= v0.take(0).filter(pred));
        }
        while i < self.records.len()
            invariant
                old(self).wf(),
                v0 == old(self)@,
                self.next_id == old(self).next_id,
                pred == other_owner(id),
                i <= self.records.len(),
                self@ == v0,
                self@.len() == self.records.len(),
                kept@.map_values(|r: RefreshToken| r@) == v0.take(i as int).filter(pred),
                kept@.len() <= i,
                forall|j: int| 0 <= j < self.records@.len() ==> self@[j] == (#[trigger] self.records@[j])@,
            decreases self.records.len() - i,
        {
            let ghost kept0 = kept@.map_values(|r: RefreshToken| r@);
            if self.records[i].account_id != id {
                let copy = self.records[i].duplicate();
                proof {
                    assert(copy@ == v0[i as int]);
                }
                kept.push(copy);
                proof {
                    assert(kept@.map_values(|r: RefreshToken| r@) =~= kept0.push(v0[i as int]));
                }
            }
            proof {
                reveal(Seq::filter);
                let t1 = v0.take(i + 1);
                assert(t1.drop_last() =~= v0.take(i as int));
                assert(t1.last() == v0[i as int]);
                assert(t1.len() == i + 1);
                if pred(v0[i as int]) {
                    assert(v0[i as int].account_id != id);
                    assert(t1.filter(pred) == t1.drop_last().filter(pred).push(t1.last()));
                    assert(kept@.map_values(|r: RefreshToken| r@) == v0.take(i + 1).filter(pred));
                } else {
                    assert(v0[i as int].account_id == id);
                    assert(t1.filter(pred) == t1.drop_last().filter(pred));
                    assert(kept@.map_values(|r: RefreshToken| r@) == kept0);
                    assert(kept@.map_values(|r: RefreshToken| r@) == v0.take(i + 1).filter(pred));
                }
            }
            i = i + 1;
        }
        proof {
            assert(v0.take(v0.len() as int) =~= v0);
        }
        let removed = self.records.len() - kept.len();
        self.records = kept;
        proof {
            assert(self@ == v0.filter(pred));
            lemma_filter_keeps_wf(v0, pred, self.next_id);
        }
        DeleteResult { deleted_count: removed as u64 }
    }
}

/// Removing one element keeps identities unique and bounded.
proof fn lemma_remove_keeps_wf(s: Seq<RefreshTokenV>, k: int, bound: u64)
    requires
        0 <= k < s.len(),
        forall|i: int, j: int| 0 <= i < j < s.len() ==> (#[trigger] s[i]).id != (#[trigger] s[j]).id,
        forall|i: int| 0 <= i < s.len() ==> (#[trigger] s[i]).id < bound,
    ensures
        forall|i: int, j: int|
            0 <= i < j < s.remove(k).len() ==> (#[trigger] s.remove(k)[i]).id != (#[trigger] s.remove(
                k,
            )[j]).id,
        forall|i: int| 0 <= i < s.remove(k).len() ==> (#[trigger] s.remove(k)[i]).id < bound,
{
    let t = s.remove(k);
    assert forall|i: int| 0 <= i < t.len() implies (#[trigger] t[i]).id < bound by {
        if i < k {
            assert(t[i] == s[i]);
        } else {
            assert(t[i] == s[i + 1]);
        }
    }
    assert forall|i: int, j: int| 0 <= i < j < t.len() implies (#[trigger] t[i]).id != (
    #[trigger] t[j]).id by {
        let si = if i < k { i } else { i + 1 };
        let sj = if j < k { j } else { j + 1 };
        assert(t[i] == s[si]);
        assert(t[j] == s[sj]);
    }
}

/// Filtering keeps identities unique and bounded.
proof fn lemma_filter_keeps_wf(s: Seq<RefreshTokenV>, pred: spec_fn(RefreshTokenV) -> bool, bound: u64)
    requires
        forall|i: int, j: int| 0 <= i < j < s.len() ==> (#[trigger] s[i]).id != (#[trigger] s[j]).id,
        forall|i: int| 0 <= i < s.len() ==> (#[trigger] s[i]).id < bound,
    ensures
        forall|i: int, j: int|
            0 <= i < j < s.filter(pred).len() ==> (#[trigger] s.filter(pred)[i]).id != (
            #[trigger] s.filter(pred)[j]).id,
        forall|i: int| 0 <= i < s.filter(pred).len() ==> (#[trigger] s.filter(pred)[i]).id < bound,
    decreases s.len(),
{
    reveal(Seq::filter);
    if s.len() > 0 {
        let head = s.drop_last();
        lemma_filter_keeps_wf(head, pred, bound);
        let t = s.filter(pred);
        let ht = head.filter(pred);
        assert(s.last() == s[s.len() - 1]);
        assert forall|i: int| 0 <= i < head.len() implies (#[trigger] head[i]).id == s[i].id by {}
        if pred(s.last()) {
            assert(t == ht.push(s.last()));
            assert forall|i: int| 0 <= i < t.len() implies (#[trigger] t[i]).id < bound by {
                if i < ht.len() {
                    assert(t[i] == ht[i]);
                } else {
                    assert(t[i] == s.last());
                }
            }
            assert forall|i: int, j: int| 0 <= i < j < t.len() implies (#[trigger] t[i]).id != (
            #[trigger] t[j]).id by {
                if j < ht.len() {
                } else {
                    assert(t[j] == s.last());
                    assert(t[i] == ht[i]);
                    lemma_filter_element_of(head, pred, i);
                }
            }
        } else {
            assert(t == ht);
        }
    }
}

/// Every element of a filtered sequence stands somewhere in the original.
pub(crate) proof fn lemma_filter_element_of(s: Seq<RefreshTokenV>, pred: spec_fn(RefreshTokenV) -> bool, i: int)
    requires
        0 <= i < s.filter(pred).len(),
    ensures
        exists|k: int| 0 <= k < s.len() && #[trigger] s[k] == s.filter(pred)[i],
    decreases s.len(),
{
    reveal(Seq::filter);
    if s.len() > 0 {
        let head = s.drop_last();
        let t = s.filter(pred);
        let ht = head.filter(pred);
        if i < ht.len() {
            lemma_filter_element_of(head, pred, i);
            let k = choose|k: int| 0 <= k < head.len() && #[trigger] head[k] == ht[i];
            assert(s[k] == t[i]);
        } else {
            assert(t[i] == s.last());
            assert(s[s.len() - 1] == t[i]);
        }
    }
}

} // verus!
