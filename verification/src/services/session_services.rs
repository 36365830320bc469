//! The session collection: solve sessions scoped to their owning account.
//! Every read and write is keyed by the owner, so one account can never
//! reach another's sessions.

use vstd::prelude::*;
use crate::AppState;
use crate::error::AppError;
use crate::models::session::{Session, SessionV, Time, TimeV};
use crate::services::{DeleteResult, UpdateResult};

verus! {

/// Whether `s` holds a session with identity `id` owned by `account_id`.
pub open spec fn session_present(s: Seq<SessionV>, account_id: u64, id: u64) -> bool {
    exists|i: int|
        0 <= i < s.len() && (#[trigger] s[i]).id == id && s[i].account_id == account_id
}

/// The sessions owned by `account_id`.
pub open spec fn owned_by(account_id: u64) -> spec_fn(SessionV) -> bool {
    |r: SessionV| r.account_id == account_id
}

/// The sessions not owned by `account_id`: what a bulk delete keeps.
pub open spec fn other_session_owner(account_id: u64) -> spec_fn(SessionV) -> bool {
    |r: SessionV| r.account_id != account_id
}

/// The session collection, with store-assigned unique identities.
pub struct SessionStore {
    records: Vec<Session>,
    next_id: u64,
}

impl View for SessionStore {
    type V = Seq<SessionV>;

    closed spec fn view(&self) -> Seq<SessionV> {
        self.records@.map_values(|r: Session| r@)
    }
}

impl SessionStore {
    /// Internal invariant: session identities are unique and below the
    /// identity counter.
    pub closed spec fn wf(&self) -> bool {
        &&& forall|i: int, j: int|
            0 <= i < j < self@.len() ==> (#[trigger] self@[i]).id != (#[trigger] self@[j]).id
        &&& forall|i: int| 0 <= i < self@.len() ==> (#[trigger] self@[i]).id < self.next_id
    }

    /// How many fresh identities the store can still assign.
    pub closed spec fn capacity_left(&self) -> int {
        u64::MAX - self.next_id
    }

    /// Whether the identity counter has room for another record.
    pub open spec fn can_insert(&self) -> bool {
        self.capacity_left() > 0
    }

    /// Exposes [`Self::can_insert`] to callers outside the proofs.
    pub fn has_room(&self) -> (r: bool)
        ensures
            r == self.can_insert(),
    {
        self.next_id < u64::MAX
    }

    /// An empty store.
    pub fn new() -> (store: SessionStore)
        ensures
            store.wf(),
            store.capacity_left() == u64::MAX as int,
            store@ == Seq::<SessionV>::empty(),
    {
        let store = SessionStore { records: Vec::new(), next_id: 0 };
        proof {
            assert(store@ =~= Seq::<SessionV>::empty());
        }
        store
    }

    /// Every session owned by the account, in storage order.
    pub fn find_all_by_account_id(&self, id: u64) -> (r: Vec<Session>)
        ensures
            r@.map_values(|s: Session| s@) == self@.filter(owned_by(id)),
    {
        let ghost v0 = self@;
        let ghost pred = owned_by(id);
        let mut out: Vec<Session> = Vec::new();
        let mut i: usize = 0;
        proof {
            reveal(Seq::filter);
            assert(v0.take(0) =~= Seq::<SessionV>::empty());
            assert(out@.map_values(|s: Session| s@) =~= v0.take(0).filter(pred));
        }
        while i < self.records.len()
            invariant
                v0 == self@,
                pred == owned_by(id),
                i <= self.records.len(),
                self@.len() == self.records.len(),
                out@.map_values(|s: Session| s@) == v0.take(i as int).filter(pred),
                forall|j: int|
                    0 <= j < self.records@.len() ==> self@[j] == (#[trigger] self.records@[j])@,
            decreases self.records.len() - i,
        {
            let ghost out0 = out@.map_values(|s: Session| s@);
            if self.records[i].account_id == id {
                let copy = self.records[i].duplicate();
                proof {
                    assert(copy@ == v0[i as int]);
                }
                out.push(copy);
                proof {
                    assert(out@.map_values(|s: Session| s@) =~= out0.push(v0[i as int]));
                }
            }
            proof {
                reveal(Seq::filter);
                let t1 = v0.take(i + 1);
                assert(t1.drop_last() =~= v0.take(i as int));
                assert(t1.last() == v0[i as int]);
                if pred(v0[i as int]) {
                    assert(t1.filter(pred) == t1.drop_last().filter(pred).push(t1.last()));
                    assert(out@.map_values(|s: Session| s@) == v0.take(i + 1).filter(pred));
                } else {
                    assert(t1.filter(pred) == t1.drop_last().filter(pred));
                    assert(out@.map_values(|s: Session| s@) == out0);
                    assert(out@.map_values(|s: Session| s@) == v0.take(i + 1).filter(pred));
                }
            }
            i = i + 1;
        }
        proof {
            assert(v0.take(v0.len() as int) =~= v0);
        }
        out
    }

    /// Looks a session up by identity, scoped to its owner.
    pub fn find_by_id_and_account_id(&self, account_id: u64, id: u64) -> (r: Option<Session>)
        ensures
            r is Some <==> session_present(self@, account_id, id),
            r matches Some(s) ==> s@.id == id && s@.account_id == account_id && exists|i: int|
                0 <= i < self@.len() && #[trigger] self@[i] == s@,
    {
        let mut i: usize = 0;
        while i < self.records.len()
            invariant
                i <= self.records.len(),
                self@.len() == self.records.len(),
                forall|j: int|
                    0 <= j < i ==> !((#[trigger] self@[j]).id == id && self@[j].account_id
                        == account_id),
                forall|j: int|
                    0 <= j < self.records@.len() ==> self@[j] == (#[trigger] self.records@[j])@,
            decreases self.records.len() - i,
        {
            if self.records[i].id == id && self.records[i].account_id == account_id {
                return Some(self.records[i].duplicate());
            }
            i = i + 1;
        }
        None
    }

    /// Persists a new session built from the given parts under a fresh
    /// identity, and returns the stored record.
    pub fn create(&mut self, account_id: u64, name: &str, times: Vec<Time>) -> (session: Session)
        requires
            old(self).wf(),
            old(self).can_insert(),
        ensures
            final(self).wf(),
            final(self).capacity_left() == old(self).capacity_left() - 1,
            session@.account_id == account_id,
            session@.name == name@,
            session@.times == times@.map_values(|t: Time| t@),
            final(self)@ == old(self)@.push(session@),
            forall|i: int|
                0 <= i < old(self)@.len() ==> (#[trigger] old(self)@[i]).id != session@.id,
    {
        let id = self.next_id;
        self.next_id = self.next_id + 1;
        let record = Session::new(id, account_id, name, times);
        let result = record.duplicate();
        self.records.push(record);
        proof {
            assert(self@ =~= old(self)@.push(result@));
        }
        result
    }

    /// Replaces the session with the given identity and owner by `body`.
    /// The store keeps record identity and ownership immutable, so the body
    /// must carry the same pair.
    pub fn update_by_id_and_account_id(&mut self, account_id: u64, id: u64, body: Session) -> (r:
        UpdateResult)
        requires
            old(self).wf(),
            body@.id == id,
            body@.account_id == account_id,
        ensures
            final(self).wf(),
            final(self).capacity_left() == old(self).capacity_left(),
            r.matched_count == if session_present(old(self)@, account_id, id) {
                1int
            } else {
                0int
            },
            r.modified_count == r.matched_count,
            !session_present(old(self)@, account_id, id) ==> final(self)@ == old(self)@,
            forall|i: int|
                0 <= i < old(self)@.len() && (#[trigger] old(self)@[i]).id == id && old(self)@[i].account_id
                    == account_id ==> final(self)@ == old(self)@.update(i, body@),
    {
        let ghost v0 = self@;
        let mut i: usize = 0;
        while i < self.records.len()
            invariant
                old(self).wf(),
                v0 == old(self)@,
                self.next_id == old(self).next_id,
                body@.id == id,
                body@.account_id == account_id,
                i <= self.records.len(),
                self@ == v0,
                self@.len() == self.records.len(),
                forall|j: int|
                    0 <= j < i ==> !((#[trigger] self@[j]).id == id && self@[j].account_id
                        == account_id),
                forall|j: int|
                    0 <= j < self.records@.len() ==> self@[j] == (#[trigger] self.records@[j])@,
            decreases self.records.len() - i,
        {
            if self.records[i].id == id && self.records[i].account_id == account_id {
                proof {
                    assert(v0[i as int].id == id && v0[i as int].account_id == account_id);
                    assert(session_present(v0, account_id, id));
                }
                self.records[i] = body;
                proof {
                    assert(self@ =~= v0.update(i as int, self.records@[i as int]@));
                    lemma_session_update_keeps_wf(v0, i as int, self@[i as int], self.next_id);
                }
                return UpdateResult { matched_count: 1, modified_count: 1 };
            }
            i = i + 1;
        }
        UpdateResult { matched_count: 0, modified_count: 0 }
    }

    /// Appends a recorded time to the session with the given identity and
    /// owner; absent sessions report "not found".
    pub fn insert_time(&mut self, account_id: u64, id: u64, time: Time) -> (r: Result<
        UpdateResult,
        AppError,
    >)
        requires
            old(self).wf(),
        ensures
            final(self).wf(),
            final(self).capacity_left() == old(self).capacity_left(),
            !session_present(old(self)@, account_id, id) ==> r == Result::<
                UpdateResult,
                AppError,
            >::Err(AppError::NotFound) && final(self)@ == old(self)@,
            session_present(old(self)@, account_id, id) ==> r == Result::<
                UpdateResult,
                AppError,
            >::Ok(UpdateResult { matched_count: 1, modified_count: 1 }),
            forall|i: int|
                0 <= i < old(self)@.len() && (#[trigger] old(self)@[i]).id == id && old(self)@[i].account_id
                    == account_id ==> final(self)@ == old(self)@.update(
                    i,
                    SessionV {
                        times: old(self)@[i].times.push(time@),
                        ..old(self)@[i]
                    },
                ),
    {
        let ghost v0 = self@;
        let mut i: usize = 0;
        while i < self.records.len()
            invariant
                old(self).wf(),
                v0 == old(self)@,
                self.next_id == old(self).next_id,
                i <= self.records.len(),
                self@ == v0,
                self@.len() == self.records.len(),
                forall|j: int|
                    0 <= j < i ==> !((#[trigger] self@[j]).id == id && self@[j].account_id
                        == account_id),
                forall|j: int|
                    0 <= j < self.records@.len() ==> self@[j] == (#[trigger] self.records@[j])@,
            decreases self.records.len() - i,
        {
            if self.records[i].id == id && self.records[i].account_id == account_id {
                proof {
                    assert(v0[i as int].id == id && v0[i as int].account_id == account_id);
                    assert(session_present(v0, account_id, id));
                }
                let mut session = self.records.remove(i);
                session.times.push(time);
                let ghost updated = session@;
                self.records.insert(i, session);
                proof {
                    assert(self@ =~= v0.update(i as int, updated));
                    assert(updated.times =~= v0[i as int].times.push(time@));
                    assert(updated == (SessionV { times: v0[i as int].times.push(time@), ..v0[i as int] }));
                    lemma_session_update_keeps_wf(v0, i as int, updated, self.next_id);
                }
                return Ok(UpdateResult { matched_count: 1, modified_count: 1 });
            }
            i = i + 1;
        }
        Err(AppError::NotFound)
    }

    /// Deletes the session with the given identity and owner, if any.
    pub fn delete_by_id_and_account_id(&mut self, account_id: u64, id: u64) -> (r: DeleteResult)
        requires
            old(self).wf(),
        ensures
            final(self).wf(),
            final(self).capacity_left() == old(self).capacity_left(),
            r.deleted_count == if session_present(old(self)@, account_id, id) {
                1int
            } else {
                0int
            },
            !session_present(old(self)@, account_id, id) ==> final(self)@ == old(self)@,
            forall|i: int|
                0 <= i < old(self)@.len() && (#[trigger] old(self)@[i]).id == id && old(self)@[i].account_id
                    == account_id ==> final(self)@ == old(self)@.remove(i),
    {
        let ghost v0 = self@;
        let mut i: usize = 0;
        while i < self.records.len()
            invariant
                old(self).wf(),
                v0 == old(self)@,
                self.next_id == old(self).next_id,
                i <= self.records.len(),
                self@ == v0,
                self@.len() == self.records.len(),
                forall|j: int|
                    0 <= j < i ==> !((#[trigger] self@[j]).id == id && self@[j].account_id
                        == account_id),
                forall|j: int|
                    0 <= j < self.records@.len() ==> self@[j] == (#[trigger] self.records@[j])@,
            decreases self.records.len() - i,
        {
            if self.records[i].id == id && self.records[i].account_id == account_id {
                proof {
                    assert(v0[i as int].id == id && v0[i as int].account_id == account_id);
                    assert(session_present(v0, account_id, id));
                }
                self.records.remove(i);
                proof {
                    assert(self@ =~= v0.remove(i as int));
                    lemma_session_remove_keeps_wf(v0, i as int, self.next_id);
                }
                return DeleteResult { deleted_count: 1 };
            }
            i = i + 1;
        }
        DeleteResult { deleted_count: 0 }
    }

    /// Deletes every session owned by the account.  Exactly the account's
    /// sessions go away; other owners' sessions survive in storage order.
    pub fn delete_all_by_account_id(&mut self, account_id: u64) -> (r: DeleteResult)
        requires
            old(self).wf(),
        ensures
            final(self).wf(),
            final(self).capacity_left() == old(self).capacity_left(),
            final(self)@ == old(self)@.filter(other_session_owner(account_id)),
            r.deleted_count == old(self)@.len() - final(self)@.len(),
    {
        let ghost v0 = self@;
        let ghost pred = other_session_owner(account_id);
        let mut kept: Vec<Session> = Vec::new();
        let mut i: usize = 0;
        proof {
            reveal(Seq::filter);
            assert(v0.take(0) =~= Seq::<SessionV>::empty());
            assert(kept@.map_values(|s: Session| s@) =~= v0.take(0).filter(pred));
        }
        while i < self.records.len()
            invariant
                old(self).wf(),
                v0 == old(self)@,
                self.next_id == old(self).next_id,
                pred == other_session_owner(account_id),
                i <= self.records.len(),
                self@ == v0,
                self@.len() == self.records.len(),
                kept@.map_values(|s: Session| s@) == v0.take(i as int).filter(pred),
                kept@.len() <= i,
                forall|j: int|
                    0 <= j < self.records@.len() ==> self@[j] == (#[trigger] self.records@[j])@,
            decreases self.records.len() - i,
        {
            let ghost kept0 = kept@.map_values(|s: Session| s@);
            if self.records[i].account_id != account_id {
                let copy = self.records[i].duplicate();
                proof {
                    assert(copy@ == v0[i as int]);
                }
                kept.push(copy);
                proof {
                    assert(kept@.map_values(|s: Session| s@) =~= kept0.push(v0[i as int]));
                }
            }
            proof {
                reveal(Seq::filter);
                let t1 = v0.take(i + 1);
                assert(t1.drop_last() =~= v0.take(i as int));
                assert(t1.last() == v0[i as int]);
                if pred(v0[i as int]) {
                    assert(t1.filter(pred) == t1.drop_last().filter(pred).push(t1.last()));
                    assert(kept@.map_values(|s: Session| s@) == v0.take(i + 1).filter(pred));
                } else {
                    assert(t1.filter(pred) == t1.drop_last().filter(pred));
                    assert(kept@.map_values(|s: Session| s@) == kept0);
                    assert(kept@.map_values(|s: Session| s@) == v0.take(i + 1).filter(pred));
                }
            }
            i = i + 1;
        }
        proof {
            assert(v0.take(v0.len() as int) =~= v0);
        }
        let removed = self.records.len() - kept.len();
        self.records = kept;
        proof {
            assert(self@ == v0.filter(pred));
            lemma_session_filter_keeps_wf(v0, pred, self.next_id);
        }
        DeleteResult { deleted_count: removed as u64 }
    }
}

/// Starts an empty session with the given name for the account.
pub fn create_empty(state: &mut AppState, account_id: u64, name: &str) -> (session: Session)
    requires
        old(state).wf(),
        old(state).sessions.can_insert(),
    ensures
        final(state).wf(),
        final(state).accounts == old(state).accounts,
        final(state).refresh_tokens == old(state).refresh_tokens,
        final(state).env == old(state).env,
        final(state).sessions.capacity_left() == old(state).sessions.capacity_left() - 1,
        session@.account_id == account_id,
        session@.name == name@,
        session@.times == Seq::<TimeV>::empty(),
        final(state).sessions@ == old(state).sessions@.push(session@),
{
    let session = state.sessions.create(account_id, name, Vec::new());
    proof {
        assert(session@.times =~= Seq::<TimeV>::empty());
    }
    session
}

/// Replacing a record in place, keeping its identity, keeps identities
/// unique and bounded.
proof fn lemma_session_update_keeps_wf(s: Seq<SessionV>, k: int, v: SessionV, bound: u64)
    requires
        0 <= k < s.len(),
        v.id == s[k].id,
        forall|i: int, j: int| 0 <= i < j < s.len() ==> (#[trigger] s[i]).id != (#[trigger] s[j]).id,
        forall|i: int| 0 <= i < s.len() ==> (#[trigger] s[i]).id < bound,
    ensures
        forall|i: int, j: int|
            0 <= i < j < s.update(k, v).len() ==> (#[trigger] s.update(k, v)[i]).id != (
            #[trigger] s.update(k, v)[j]).id,
        forall|i: int| 0 <= i < s.update(k, v).len() ==> (#[trigger] s.update(k, v)[i]).id < bound,
{
    let t = s.update(k, v);
    assert forall|i: int| 0 <= i < t.len() implies (#[trigger] t[i]).id < bound by {
        if i != k {
            assert(t[i] == s[i]);
        }
    }
    assert forall|i: int, j: int| 0 <= i < j < t.len() implies (#[trigger] t[i]).id != (
    #[trigger] t[j]).id by {
        assert(t[i].id == s[i].id);
        assert(t[j].id == s[j].id);
    }
}

/// Removing one element keeps identities unique and bounded.
proof fn lemma_session_remove_keeps_wf(s: Seq<SessionV>, k: int, bound: u64)
    requires
        0 <= k < s.len(),
        forall|i: int, j: int| 0 <= i < j < s.len() ==> (#[trigger] s[i]).id != (#[trigger] s[j]).id,
        forall|i: int| 0 <= i < s.len() ==> (#[trigger] s[i]).id < bound,
    ensures
        forall|i: int, j: int|
            0 <= i < j < s.remove(k).len() ==> (#[trigger] s.remove(k)[i]).id != (#[trigger] s.remove(
                k,
            )[j]).id,
        forall|i: int| 0 <= i < s.remove(k).len() ==> (#[trigger] s.remove(k)[i]).id < bound,
{
    let t = s.remove(k);
    assert forall|i: int| 0 <= i < t.len() implies (#[trigger] t[i]).id < bound by {
        if i < k {
            assert(t[i] == s[i]);
        } else {
            assert(t[i] == s[i + 1]);
        }
    }
    assert forall|i: int, j: int| 0 <= i < j < t.len() implies (#[trigger] t[i]).id != (
    #[trigger] t[j]).id by {
        let si = if i < k { i } else { i + 1 };
        let sj = if j < k { j } else { j + 1 };
        assert(t[i] == s[si]);
        assert(t[j] == s[sj]);
    }
}

/// Filtering keeps identities unique and bounded.
proof fn lemma_session_filter_keeps_wf(s: Seq<SessionV>, pred: spec_fn(SessionV) -> bool, bound: u64)
    requires
        forall|i: int, j: int| 0 <= i < j < s.len() ==> (#[trigger] s[i]).id != (#[trigger] s[j]).id,
        forall|i: int| 0 <= i < s.len() ==> (#[trigger] s[i]).id < bound,
    ensures
        forall|i: int, j: int|
            0 <= i < j < s.filter(pred).len() ==> (#[trigger] s.filter(pred)[i]).id != (
            #[trigger] s.filter(pred)[j]).id,
        forall|i: int| 0 <= i < s.filter(pred).len() ==> (#[trigger] s.filter(pred)[i]).id < bound,
    decreases s.len(),
{
    reveal(Seq::filter);
    if s.len() > 0 {
        let head = s.drop_last();
        lemma_session_filter_keeps_wf(head, pred, bound);
        let t = s.filter(pred);
        let ht = head.filter(pred);
        if pred(s.last()) {
            assert(t == ht.push(s.last()));
            assert forall|i: int| 0 <= i < t.len() implies (#[trigger] t[i]).id < bound by {
                if i < ht.len() {
                    assert(t[i] == ht[i]);
                } else {
                    assert(t[i] == s.last());
                    assert(s.last() == s[s.len() - 1]);
                }
            }
            assert forall|i: int, j: int| 0 <= i < j < t.len() implies (#[trigger] t[i]).id != (
            #[trigger] t[j]).id by {
                if j < ht.len() {
                } else {
                    assert(t[j] == s.last());
                    assert(t[i] == ht[i]);
                    lemma_session_filter_element_of(head, pred, i);
                    let k = choose|k: int|
                        0 <= k < head.len() && #[trigger] head[k] == ht[i];
                    assert(head[k] == s[k]);
                    assert(s[k].id != s[s.len() - 1].id);
                }
            }
        } else {
            assert(t == ht);
        }
    }
}

/// Every element of a filtered sequence stands somewhere in the original.
proof fn lemma_session_filter_element_of(
    s: Seq<SessionV>,
    pred: spec_fn(SessionV) -> bool,
    i: int,
)
    requires
        0 <= i < s.filter(pred).len(),
    ensures
        exists|k: int| 0 <= k < s.len() && #[trigger] s[k] == s.filter(pred)[i],
    decreases s.len(),
{
    reveal(Seq::filter);
    if s.len() > 0 {
        let head = s.drop_last();
        let t = s.filter(pred);
        let ht = head.filter(pred);
        if i < ht.len() {
            lemma_session_filter_element_of(head, pred, i);
            let k = choose|k: int| 0 <= k < head.len() && #[trigger] head[k] == ht[i];
            assert(s[k] == t[i]);
        } else {
            assert(t[i] == s.last());
            assert(s[s.len() - 1] == t[i]);
        }
    }
}

} // verus!
