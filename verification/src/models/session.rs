//! Solve sessions: named collections of recorded times, each time carrying
//! the scramble it was solved from.

use vstd::prelude::*;
use crate::services::scramble_services::{Scramble, ScrambleV};

verus! {

/// One recorded solve: duration, wall-clock instant and scramble.
#[derive(Debug)]
pub struct Time {
    pub millis: u64,
    pub recorded_at: u64,
    pub scramble: Scramble,
}

/// The mathematical shadow of a [`Time`].
pub ghost struct TimeV {
    pub millis: u64,
    pub recorded_at: u64,
    pub scramble: ScrambleV,
}

impl View for Time {
    type V = TimeV;

    open spec fn view(&self) -> TimeV {
        TimeV { millis: self.millis, recorded_at: self.recorded_at, scramble: self.scramble@ }
    }
}

impl Time {
    /// A field-for-field copy of this record.
    pub fn duplicate(&self) -> (r: Time)
        ensures
            r@ == self@,
    {
        Time {
            millis: self.millis,
            recorded_at: self.recorded_at,
            scramble: self.scramble.duplicate(),
        }
    }
}

/// A session record owned by one account.
#[derive(Debug)]
pub struct Session {
    pub id: u64,
    pub account_id: u64,
    pub name: String,
    pub times: Vec<Time>,
}

/// The mathematical shadow of a [`Session`].
pub ghost struct SessionV {
    pub id: u64,
    pub account_id: u64,
    pub name: Seq<char>,
    pub times: Seq<TimeV>,
}

impl View for Session {
    type V = SessionV;

    open spec fn view(&self) -> SessionV {
        SessionV {
            id: self.id,
            account_id: self.account_id,
            name: self.name@,
            times: self.times@.map_values(|t: Time| t@),
        }
    }
}

/// Copies a time list element by element.
pub fn clone_times(times: &Vec<Time>) -> (r: Vec<Time>)
    ensures
        r@.map_values(|t: Time| t@) == times@.map_values(|t: Time| t@),
{
    let mut out: Vec<Time> = Vec::new();
    let mut i: usize = 0;
    while i < times.len()
        invariant
            i <= times.len(),
            out@.len() == i,
            forall|j: int| 0 <= j < i ==> (#[trigger] out@[j])@ == times@[j]@,
        decreases times.len() - i,
    {
        out.push(times[i].duplicate());
        i = i + 1;
    }
    proof {
        assert(out@.map_values(|t: Time| t@) =~= times@.map_values(|t: Time| t@));
    }
    out
}

impl Session {
    /// Builds a session record from its parts.
    pub fn new(id: u64, account_id: u64, name: &str, times: Vec<Time>) -> (session: Session)
        ensures
            session@ == (SessionV {
                id,
                account_id,
                name: name@,
                times: times@.map_values(|t: Time| t@),
            }),
    {
        Session { id, account_id, name: name.to_owned(), times }
    }

    /// A field-for-field copy of this record.
    pub fn duplicate(&self) -> (r: Session)
        ensures
            r@ == self@,
    {
        Session {
            id: self.id,
            account_id: self.account_id,
            name: self.name.clone(),
            times: clone_times(&self.times),
        }
    }
}

} // verus!
