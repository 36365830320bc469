//! Events that accounts may moderate or take part in.

use vstd::prelude::*;

verus! {

/// An event record.  Moderators and participants are referenced by account
/// identity.
#[derive(Debug)]
pub struct Event {
    pub id: u64,
    pub is_private: bool,
    pub creator_id: u64,
    pub title: String,
    pub description: String,
    pub date_timestamp: i64,
    pub moderators: Vec<u64>,
    pub participants: Vec<u64>,
}

impl Event {
    /// Builds an event whose creator starts as its only moderator.
    pub fn new(
        id: u64,
        title: &str,
        description: &str,
        date_timestamp: i64,
        creator_id: u64,
        is_private: bool,
    ) -> (event: Event)
        ensures
            event.id == id,
            event.is_private == is_private,
            event.creator_id == creator_id,
            event.title@ == title@,
            event.description@ == description@,
            event.date_timestamp == date_timestamp,
            event.moderators@ == seq![creator_id],
            event.participants@ == Seq::<u64>::empty(),
    {
        let mut moderators: Vec<u64> = Vec::new();
        moderators.push(creator_id);
        proof {
            assert(moderators@ =~= seq![creator_id]);
        }
        Event {
            id,
            is_private,
            creator_id,
            title: title.to_owned(),
            description: description.to_owned(),
            date_timestamp,
            moderators,
            participants: Vec::new(),
        }
    }

    /// Appends an account to the moderator list.
    pub fn add_moderator(&mut self, user_id: u64)
        ensures
            final(self).moderators@ == old(self).moderators@.push(user_id),
            final(self).id == old(self).id,
            final(self).is_private == old(self).is_private,
            final(self).creator_id == old(self).creator_id,
            final(self).title == old(self).title,
            final(self).description == old(self).description,
            final(self).date_timestamp == old(self).date_timestamp,
            final(self).participants == old(self).participants,
    {
        self.moderators.push(user_id);
    }

    /// Appends an account to the participant list.
    pub fn add_participant(&mut self, user_id: u64)
        ensures
            final(self).participants@ == old(self).participants@.push(user_id),
            final(self).id == old(self).id,
            final(self).is_private == old(self).is_private,
            final(self).creator_id == old(self).creator_id,
            final(self).title == old(self).title,
            final(self).description == old(self).description,
            final(self).date_timestamp == old(self).date_timestamp,
            final(self).moderators == old(self).moderators,
    {
        self.participants.push(user_id);
    }
}

} // verus!
