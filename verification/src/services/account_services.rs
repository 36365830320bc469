//! The credential store: the account collection, held as a verified
//! in-memory collection with store-assigned unique identities.

use vstd::prelude::*;
use crate::AppState;
use crate::error::{AppError, AuthError};
use crate::models::account::{Account, AccountV, Role, clone_roles};
use crate::payloads::{ChangePasswordPayload, ChangeUsernamePayload, PathId};
use crate::services::auth_services::revoke_all_refresh_tokens;
use crate::services::jwt_services::other_owner;
use crate::services::utils::password_utils::{hash_password, password_matches, verify_password};
use crate::services::utils::str_eq;
use crate::services::{DeleteResult, UpdateResult};

verus! {

/// Whether some account in `s` carries exactly the username `username`.
pub open spec fn username_taken(s: Seq<AccountV>, username: Seq<char>) -> bool {
    exists|i: int| 0 <= i < s.len() && (#[trigger] s[i]).username == username
}

/// Whether `i` is the first index of `s` whose account carries `username`.
pub open spec fn first_username_match(s: Seq<AccountV>, username: Seq<char>, i: int) -> bool {
    &&& 0 <= i < s.len()
    &&& s[i].username == username
    &&& forall|j: int| 0 <= j < i ==> (#[trigger] s[j]).username != username
}

/// Whether at most one stored account carries the username.
pub open spec fn username_unique_in(s: Seq<AccountV>, username: Seq<char>) -> bool {
    forall|i: int, j: int|
        0 <= i < j < s.len() ==> !((#[trigger] s[i]).username == username && (#[trigger] s[j]).username
            == username)
}

/// Whether some account in `s` has identity `id`.
pub open spec fn account_id_present(s: Seq<AccountV>, id: u64) -> bool {
    exists|i: int| 0 <= i < s.len() && (#[trigger] s[i]).id == id
}

/// The account collection.  Identities are assigned by the store and are
/// unique; username uniqueness is enforced by the callers' check-then-insert
/// protocol, not by the store itself.
pub struct CredentialStore {
    accounts: Vec<Account>,
    next_id: u64,
}

impl View for CredentialStore {
    type V = Seq<AccountV>;

    closed spec fn view(&self) -> Seq<AccountV> {
        self.accounts@.map_values(|a: Account| a@)
    }
}

impl CredentialStore {
    /// Internal invariant: account identities are unique and below the
    /// identity counter.
    pub closed spec fn wf(&self) -> bool {
        &&& forall|i: int, j: int|
            0 <= i < j < self@.len() ==> (#[trigger] self@[i]).id != (#[trigger] self@[j]).id
        &&& forall|i: int| 0 <= i < self@.len() ==> (#[trigger] self@[i]).id < self.next_id
    }

    /// How many fresh identities the store can still assign.
    pub closed spec fn capacity_left(&self) -> int {
        u64::MAX - self.next_id
    }

    /// Whether the identity counter has room for another record.
    pub open spec fn can_insert(&self) -> bool {
        self.capacity_left() > 0
    }

    /// Exposes [`Self::can_insert`] to callers outside the proofs.
    pub fn has_room(&self) -> (r: bool)
        ensures
            r == self.can_insert(),
    {
        self.next_id < u64::MAX
    }

    /// An empty store.
    pub fn new() -> (store: CredentialStore)
        ensures
            store.wf(),
            store.capacity_left() == u64::MAX as int,
            store@ == Seq::<AccountV>::empty(),
    {
        let store = CredentialStore { accounts: Vec::new(), next_id: 0 };
        proof {
            assert(store@ =~= Seq::<AccountV>::empty());
        }
        store
    }

    /// Persists a new account built from the given parts under a fresh
    /// identity, and returns the stored record.
    pub fn insert(&mut self, username: &str, hashed_password: &str, roles: &[Role]) -> (account:
        Account)
        requires
            old(self).wf(),
            old(self).can_insert(),
        ensures
            final(self).wf(),
            final(self).capacity_left() == old(self).capacity_left() - 1,
            account@.username == username@,
            account@.hashed_password == hashed_password@,
            account@.roles == roles@,
            final(self)@ == old(self)@.push(account@),
            forall|i: int|
                0 <= i < old(self)@.len() ==> (#[trigger] old(self)@[i]).id != account@.id,
    {
        let id = self.next_id;
        self.next_id = self.next_id + 1;
        let record = Account::new(id, username, hashed_password, roles);
        let result = record.duplicate();
        self.accounts.push(record);
        proof {
            assert(self@ =~= old(self)@.push(result@));
        }
        result
    }

    /// Every stored account, in storage order.
    pub fn find_all(&self) -> (r: Vec<Account>)
        ensures
            r@.map_values(|a: Account| a@) == self@,
    {
        let mut out: Vec<Account> = Vec::new();
        let mut i: usize = 0;
        while i < self.accounts.len()
            invariant
                i <= self.accounts.len(),
                self@.len() == self.accounts.len(),
                out@.len() == i,
                forall|j: int| 0 <= j < i ==> (#[trigger] out@[j])@ == self@[j],
                forall|j: int|
                    0 <= j < self.accounts@.len() ==> self@[j] == (#[trigger] self.accounts@[j])@,
            decreases self.accounts.len() - i,
        {
            out.push(self.accounts[i].duplicate());
            i = i + 1;
        }
        proof {
            assert(out@.map_values(|a: Account| a@) =~= self@);
        }
        out
    }

    /// Looks an account up by its identity.
    pub fn find_by_id(&self, id: u64) -> (r: Option<Account>)
        ensures
            r is Some <==> account_id_present(self@, id),
            r matches Some(a) ==> a@.id == id && exists|i: int|
                0 <= i < self@.len() && #[trigger] self@[i] == a@,
    {
        let mut i: usize = 0;
        while i < self.accounts.len()
            invariant
                i <= self.accounts.len(),
                self@.len() == self.accounts.len(),
                forall|j: int| 0 <= j < i ==> (#[trigger] self@[j]).id != id,
                forall|j: int|
                    0 <= j < self.accounts@.len() ==> self@[j] == (#[trigger] self.accounts@[j])@,
            decreases self.accounts.len() - i,
        {
            if self.accounts[i].id == id {
                return Some(self.accounts[i].duplicate());
            }
            i = i + 1;
        }
        None
    }

    /// Looks an account up by its username (the first one stored).
    pub fn find_by_username(&self, username: &str) -> (r: Option<Account>)
        ensures
            r is Some <==> username_taken(self@, username@),
            r matches Some(a) ==> exists|i: int|
                first_username_match(self@, username@, i) && #[trigger] self@[i] == a@,
    {
        let mut i: usize = 0;
        while i < self.accounts.len()
            invariant
                i <= self.accounts.len(),
                self@.len() == self.accounts.len(),
                forall|j: int| 0 <= j < i ==> (#[trigger] self@[j]).username != username@,
                forall|j: int|
                    0 <= j < self.accounts@.len() ==> self@[j] == (#[trigger] self.accounts@[j])@,
            decreases self.accounts.len() - i,
        {
            if str_eq(self.accounts[i].username.as_str(), username) {
                proof {
                    assert(first_username_match(self@, username@, i as int));
                }
                return Some(self.accounts[i].duplicate());
            }
            i = i + 1;
        }
        None
    }

    /// Replaces the account whose identity matches `body.id` with `body`.
    pub fn update(&mut self, body: Account) -> (r: UpdateResult)
        requires
            old(self).wf(),
        ensures
            final(self).wf(),
            final(self).capacity_left() == old(self).capacity_left(),
            r.matched_count == if account_id_present(old(self)@, body@.id) {
                1int
            } else {
                0int
            },
            r.modified_count == r.matched_count,
            !account_id_present(old(self)@, body@.id) ==> final(self)@ == old(self)@,
            forall|i: int|
                0 <= i < old(self)@.len() && (#[trigger] old(self)@[i]).id == body@.id
                    ==> final(self)@ == old(self)@.update(i, body@),
    {
        let ghost v0 = self@;
        let mut i: usize = 0;
        while i < self.accounts.len()
            invariant
                old(self).wf(),
                v0 == old(self)@,
                self.next_id == old(self).next_id,
                i <= self.accounts.len(),
                self@ == v0,
                self@.len() == self.accounts.len(),
                forall|j: int| 0 <= j < i ==> (#[trigger] self@[j]).id != body@.id,
                forall|j: int|
                    0 <= j < self.accounts@.len() ==> self@[j] == (#[trigger] self.accounts@[j])@,
            decreases self.accounts.len() - i,
        {
            if self.accounts[i].id == body.id {
                proof {
                    assert(v0[i as int].id == body@.id);
                    assert(account_id_present(v0, body@.id));
                }
                self.accounts[i] = body;
                proof {
                    assert(self@ =~= v0.update(i as int, self.accounts@[i as int]@));
                    lemma_update_keeps_wf(v0, i as int, self@[i as int], self.next_id);
                }
                return UpdateResult { matched_count: 1, modified_count: 1 };
            }
            i = i + 1;
        }
        UpdateResult { matched_count: 0, modified_count: 0 }
    }

    /// Deletes the account with the given identity, if any.
    pub fn delete_by_id(&mut self, id: u64) -> (r: DeleteResult)
        requires
            old(self).wf(),
        ensures
            final(self).wf(),
            final(self).capacity_left() == old(self).capacity_left(),
            r.deleted_count == if account_id_present(old(self)@, id) {
                1int
            } else {
                0int
            },
            !account_id_present(old(self)@, id) ==> final(self)@ == old(self)@,
            forall|i: int|
                0 <= i < old(self)@.len() && (#[trigger] old(self)@[i]).id == id ==> final(self)@
                    == old(self)@.remove(i),
    {
        let ghost v0 = self@;
        let mut i: usize = 0;
        while i < self.accounts.len()
            invariant
                old(self).wf(),
                v0 == old(self)@,
                self.next_id == old(self).next_id,
                i <= self.accounts.len(),
                self@ == v0,
                self@.len() == self.accounts.len(),
                forall|j: int| 0 <= j < i ==> (#[trigger] self@[j]).id != id,
                forall|j: int|
                    0 <= j < self.accounts@.len() ==> self@[j] == (#[trigger] self.accounts@[j])@,
            decreases self.accounts.len() - i,
        {
            if self.accounts[i].id == id {
                proof {
                    assert(v0[i as int].id == id);
                    assert(account_id_present(v0, id));
                }
                self.accounts.remove(i);
                proof {
                    assert(self@ =~= v0.remove(i as int));
                    lemma_account_remove_keeps_wf(v0, i as int, self.next_id);
                }
                return DeleteResult { deleted_count: 1 };
            }
            i = i + 1;
        }
        DeleteResult { deleted_count: 0 }
    }
}

/// Renames the logged-in account, refusing a username that is stored
/// already.  Only the username field changes; identity, digest and roles
/// stay.
pub fn change_username(state: &mut AppState, account: Account, payload: ChangeUsernamePayload) -> (
    r: Result<UpdateResult, AppError>)
    requires
        old(state).wf(),
    ensures
        final(state).wf(),
        final(state).refresh_tokens == old(state).refresh_tokens,
        final(state).sessions == old(state).sessions,
        final(state).env == old(state).env,
        final(state).accounts.capacity_left() == old(state).accounts.capacity_left(),
        username_taken(old(state).accounts@, payload.username@) ==> r == Result::<
            UpdateResult,
            AppError,
        >::Err(AppError::Auth(AuthError::UsernameAlreadyTaken)) && final(state).accounts == old(
            state,
        ).accounts,
        !username_taken(old(state).accounts@, payload.username@) ==> {
            &&& r matches Ok(u) && u.matched_count == if account_id_present(
                old(state).accounts@,
                account@.id,
            ) {
                1int
            } else {
                0int
            }
            &&& !account_id_present(old(state).accounts@, account@.id) ==> final(state).accounts@
                == old(state).accounts@
            &&& forall|i: int|
                0 <= i < old(state).accounts@.len() && (#[trigger] old(state).accounts@[i]).id
                    == account@.id ==> final(state).accounts@ == old(state).accounts@.update(
                    i,
                    AccountV {
                        id: account@.id,
                        username: payload.username@,
                        hashed_password: account@.hashed_password,
                        roles: account@.roles,
                    },
                )
        },
{
    if state.accounts.find_by_username(payload.username.as_str()).is_some() {
        return Err(AppError::Auth(AuthError::UsernameAlreadyTaken));
    }
    let new_account = Account {
        id: account.id,
        username: payload.username,
        hashed_password: account.hashed_password,
        roles: account.roles,
    };
    let update_res = state.accounts.update(new_account);
    Ok(update_res)
}

/// Changes the logged-in account's password after re-verifying the old one,
/// then revokes every one of the account's sessions: outstanding refresh
/// tokens die with the old password.
pub fn change_password(state: &mut AppState, account: Account, payload: ChangePasswordPayload) -> (
    r: Result<(UpdateResult, DeleteResult), AppError>)
    requires
        old(state).wf(),
        payload.new_password@.len() < 0x4000_0000,
    ensures
        final(state).wf(),
        final(state).sessions == old(state).sessions,
        final(state).env == old(state).env,
        final(state).accounts.capacity_left() == old(state).accounts.capacity_left(),
        final(state).refresh_tokens.capacity_left() == old(state).refresh_tokens.capacity_left(),
        !password_matches(account@.hashed_password, payload.old_password@) ==> r == Result::<
            (UpdateResult, DeleteResult),
            AppError,
        >::Err(AppError::Auth(AuthError::InvalidCredentials)) && final(state).accounts == old(
            state,
        ).accounts && final(state).refresh_tokens == old(state).refresh_tokens,
        password_matches(account@.hashed_password, payload.old_password@) ==> {
            &&& r is Ok
            &&& final(state).refresh_tokens@ == old(state).refresh_tokens@.filter(
                other_owner(account@.id),
            )
            &&& !account_id_present(old(state).accounts@, account@.id) ==> final(state).accounts@
                == old(state).accounts@
            &&& forall|i: int|
                0 <= i < old(state).accounts@.len() && (#[trigger] old(state).accounts@[i]).id
                    == account@.id ==> final(state).accounts@ == old(state).accounts@.update(
                    i,
                    AccountV {
                        id: account@.id,
                        username: account@.username,
                        hashed_password: final(state).accounts@[i].hashed_password,
                        roles: account@.roles,
                    },
                ) && password_matches(
                    final(state).accounts@[i].hashed_password,
                    payload.new_password@,
                )
        },
{
    if !verify_password(account.hashed_password.as_str(), payload.old_password.as_str()) {
        return Err(AppError::Auth(AuthError::InvalidCredentials));
    }
    let new_hash = hash_password(payload.new_password.as_str());
    let new_account = Account {
        id: account.id,
        username: account.username.clone(),
        hashed_password: new_hash,
        roles: clone_roles(&account.roles),
    };
    let revoke_copy = new_account.duplicate();
    let update_res = state.accounts.update(new_account);
    let revoke_res = match revoke_all_refresh_tokens(
        state,
        revoke_copy,
        payload.new_password.as_str(),
    ) {
        Ok(d) => d,
        Err(e) => {
            return Err(e);
        },
    };
    Ok((update_res, revoke_res))
}

/// Deletes an account by identity; only an administrator may.
pub fn delete_account_by_id(state: &mut AppState, account: &Account, path: PathId) -> (r: Result<
    DeleteResult,
    AppError,
>)
    requires
        old(state).wf(),
    ensures
        final(state).wf(),
        final(state).refresh_tokens == old(state).refresh_tokens,
        final(state).sessions == old(state).sessions,
        final(state).env == old(state).env,
        final(state).accounts.capacity_left() == old(state).accounts.capacity_left(),
        !account@.roles.contains(Role::Admin) ==> r == Result::<DeleteResult, AppError>::Err(
            AppError::Auth(AuthError::Forbidden),
        ) && final(state).accounts == old(state).accounts,
        account@.roles.contains(Role::Admin) ==> {
            &&& r matches Ok(d) && d.deleted_count == if account_id_present(
                old(state).accounts@,
                path.id,
            ) {
                1int
            } else {
                0int
            }
            &&& !account_id_present(old(state).accounts@, path.id) ==> final(state).accounts@
                == old(state).accounts@
            &&& forall|i: int|
                0 <= i < old(state).accounts@.len() && (#[trigger] old(state).accounts@[i]).id
                    == path.id ==> final(state).accounts@ == old(state).accounts@.remove(i)
        },
{
    if !account.has_role(Role::Admin) {
        return Err(AppError::Auth(AuthError::Forbidden));
    }
    let del = state.accounts.delete_by_id(path.id);
    Ok(del)
}

/// The first index stored under a username is unique.
pub proof fn lemma_first_username_match_unique(
    s: Seq<AccountV>,
    username: Seq<char>,
    i: int,
    j: int,
)
    requires
        first_username_match(s, username, i),
        first_username_match(s, username, j),
    ensures
        i == j,
{
    if i < j {
        assert(s[i].username != username);
    } else if j < i {
        assert(s[j].username != username);
    }
}

/// Replacing a record in place, keeping its identity, keeps identities
/// unique and bounded.
proof fn lemma_update_keeps_wf(s: Seq<AccountV>, k: int, v: AccountV, bound: u64)
    requires
        0 <= k < s.len(),
        v.id == s[k].id,
        forall|i: int, j: int| 0 <= i < j < s.len() ==> (#[trigger] s[i]).id != (#[trigger] s[j]).id,
        forall|i: int| 0 <= i < s.len() ==> (#[trigger] s[i]).id < bound,
    ensures
        forall|i: int, j: int|
            0 <= i < j < s.update(k, v).len() ==> (#[trigger] s.update(k, v)[i]).id != (
            #[trigger] s.update(k, v)[j]).id,
        forall|i: int| 0 <= i < s.update(k, v).len() ==> (#[trigger] s.update(k, v)[i]).id < bound,
{
    let t = s.update(k, v);
    assert forall|i: int| 0 <= i < t.len() implies (#[trigger] t[i]).id < bound by {
        if i != k {
            assert(t[i] == s[i]);
        }
    }
    assert forall|i: int, j: int| 0 <= i < j < t.len() implies (#[trigger] t[i]).id != (
    #[trigger] t[j]).id by {
        assert(t[i].id == s[i].id);
        assert(t[j].id == s[j].id);
    }
}

/// Removing one element keeps identities unique and bounded.
proof fn lemma_account_remove_keeps_wf(s: Seq<AccountV>, k: int, bound: u64)
    requires
        0 <= k < s.len(),
        forall|i: int, j: int| 0 <= i < j < s.len() ==> (#[trigger] s[i]).id != (#[trigger] s[j]).id,
        forall|i: int| 0 <= i < s.len() ==> (#[trigger] s[i]).id < bound,
    ensures
        forall|i: int, j: int|
            0 <= i < j < s.remove(k).len() ==> (#[trigger] s.remove(k)[i]).id != (#[trigger] s.remove(
                k,
            )[j]).id,
        forall|i: int| 0 <= i < s.remove(k).len() ==> (#[trigger] s.remove(k)[i]).id < bound,
{
    let t = s.remove(k);
    assert forall|i: int| 0 <= i < t.len() implies (#[trigger] t[i]).id < bound by {
        if i < k {
            assert(t[i] == s[i]);
        } else {
            assert(t[i] == s[i + 1]);
        }
    }
    assert forall|i: int, j: int| 0 <= i < j < t.len() implies (#[trigger] t[i]).id != (
    #[trigger] t[j]).id by {
        let si = if i < k { i } else { i + 1 };
        let sj = if j < k { j } else { j + 1 };
        assert(t[i] == s[si]);
        assert(t[j] == s[sj]);
    }
}

} // verus!
