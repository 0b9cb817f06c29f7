//! Users who operate sprints.

use vstd::prelude::*;
use crate::audit::Auditable;
use crate::runtime::{fresh_id, now_millis};
use crate::text::{lower_of, lowercase};

verus! {

/// What a user may do.
#[derive(Clone, Copy, Debug, PartialEq, Eq, Structural)]
pub enum Role {
    Admin,
    User,
}

impl Role {
    /// The role named by `label`: `Admin` when it reads "admin" in any
    /// case, `User` for anything else.
    pub fn from_label(label: &str) -> (r: Role)
        ensures
            r == (if lower_of(label@) == "admin"@ {
                Role::Admin
            } else {
                Role::User
            }),
    {
        let lowered = lowercase(label);
        let admin = String::from_str("admin");
        if lowered == admin {
            Role::Admin
        } else {
            Role::User
        }
    }
}

/// A user account. The password is held as given; checking it is left to
/// the host.
#[derive(Debug)]
pub struct User {
    pub id: String,
    pub username: String,
    pub hashed_password: String,
    pub role: Role,
    pub created_at: i64,
    pub updated_at: i64,
}

impl Clone for User {
    fn clone(&self) -> (r: Self)
        ensures
            r == *self,
    {
        User {
            id: self.id.clone(),
            username: self.username.clone(),
            hashed_password: self.hashed_password.clone(),
            role: self.role,
            created_at: self.created_at,
            updated_at: self.updated_at,
        }
    }
}

impl User {
    /// A new user with a fresh identifier, created and last modified now.
    pub fn new(username: String, hashed_password: String, role: Role) -> (r: User)
        ensures
            r.username == username,
            r.hashed_password == hashed_password,
            r.role == role,
            r.id@.len() == 36,
            r.created_at == r.updated_at,
            r.created_at >= 0,
    {
        let id = fresh_id();
        let now = now_millis();
        User { id, username, hashed_password, role, created_at: now, updated_at: now }
    }
}

/// The name of the account that a fresh store is given.
pub open spec fn admin_name() -> Seq<char> {
    "admin"@
}

/// Whether none of `usernames` is the administrator's name; a store in that
/// state is given an administrator account.
pub fn admin_missing(usernames: &Vec<String>) -> (r: bool)
    ensures
        r == (forall|i: int| 0 <= i < usernames@.len() ==> usernames@[i]@ != admin_name()),
{
    let admin = String::from_str("admin");
    let mut i: usize = 0;
    while i < usernames.len()
        invariant
            i <= usernames@.len(),
            admin@ == admin_name(),
            forall|j: int| 0 <= j < i ==> usernames@[j]@ != admin_name(),
        decreases usernames@.len() - i,
    {
        if usernames[i] == admin {
            return false;
        }
        i = i + 1;
    }
    true
}

impl Auditable for User {
    open spec fn stamp(&self) -> i64 {
        self.updated_at
    }

    open spec fn with_stamp(&self, t: i64) -> Self {
        User { updated_at: t, ..*self }
    }

    fn touch(&mut self) {
        self.updated_at = now_millis();
    }

    fn updated_at(&self) -> (r: i64) {
        self.updated_at
    }
}

} // verus!
