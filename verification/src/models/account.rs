//! Accounts and their roles.

use vstd::prelude::*;

verus! {

/// A role tag.  A moderation right is scoped by the identity of the event it
/// covers; only the identity is carried, never a copy of the event itself.
#[derive(Clone, Copy, Debug, PartialEq, Eq, Structural)]
pub enum Role {
    User,
    EventModerator(u64),
    Admin,
}

/// An account record: identity, unique username, password digest and roles.
/// The digest is opaque and never returned to clients in message bodies.
#[derive(Debug)]
pub struct Account {
    pub id: u64,
    pub username: String,
    pub hashed_password: String,
    pub roles: Vec<Role>,
}

/// The mathematical shadow of an [`Account`].
pub ghost struct AccountV {
    pub id: u64,
    pub username: Seq<char>,
    pub hashed_password: Seq<char>,
    pub roles: Seq<Role>,
}

impl View for Account {
    type V = AccountV;

    open spec fn view(&self) -> AccountV {
        AccountV {
            id: self.id,
            username: self.username@,
            hashed_password: self.hashed_password@,
            roles: self.roles@,
        }
    }
}

/// Copies a role list element by element.
pub fn clone_roles(roles: &Vec<Role>) -> (r: Vec<Role>)
    ensures
        r@ == roles@,
{
    let mut out: Vec<Role> = Vec::new();
    let mut i: usize = 0;
    while i < roles.len()
        invariant
            i <= roles.len(),
            out@ == roles@.take(i as int),
        decreases roles.len() - i,
    {
        out.push(roles[i]);
        proof {
            assert(roles@.take(i + 1 as int) =~= roles@.take(i as int).push(roles@[i as int]));
        }
        i = i + 1;
    }
    proof {
        assert(roles@.take(roles@.len() as int) =~= roles@);
    }
    out
}

impl Account {
    /// Builds an account record from its parts.
    pub fn new(id: u64, username: &str, hashed_password: &str, roles: &[Role]) -> (account:
        Account)
        ensures
            account@ == (AccountV {
                id,
                username: username@,
                hashed_password: hashed_password@,
                roles: roles@,
            }),
    {
        Account {
            id,
            username: username.to_owned(),
            hashed_password: hashed_password.to_owned(),
            roles: vstd::slice::slice_to_vec(roles),
        }
    }

    /// A field-for-field copy of this record.
    pub fn duplicate(&self) -> (r: Account)
        ensures
            r@ == self@,
    {
        Account {
            id: self.id,
            username: self.username.clone(),
            hashed_password: self.hashed_password.clone(),
            roles: clone_roles(&self.roles),
        }
    }

    /// Whether the account carries the given role.
    pub fn has_role(&self, role: Role) -> (r: bool)
        ensures
            r == self@.roles.contains(role),
    {
        let mut i: usize = 0;
        while i < self.roles.len()
            invariant
                i <= self.roles.len(),
                forall|j: int| 0 <= j < i ==> self.roles@[j] != role,
            decreases self.roles.len() - i,
        {
            if self.roles[i] == role {
                return true;
            }
            i = i + 1;
        }
        false
    }

    /// Whether the account moderates the event with the given identity.
    pub fn is_event_moderator(&self, event_id: u64) -> (r: bool)
        ensures
            r == self@.roles.contains(Role::EventModerator(event_id)),
    {
        self.has_role(Role::EventModerator(event_id))
    }
}

} // verus!
