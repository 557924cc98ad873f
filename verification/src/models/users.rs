//! The people who submit templates.

use vstd::prelude::*;

use crate::db::DateTime;

verus! {

/// A user.
#[derive(Debug, Clone)]
pub struct User {
    pub id: String,
    pub username: String,
    pub display_name: String,
    pub avatar_url: Option<String>,
    pub created: DateTime,
}

/// What is asked of someone who signs up.
#[derive(Debug, Clone)]
pub struct NewUser {
    pub username: String,
}

/// The fields of a user that can be changed; `None` leaves a field as it is.
#[derive(Debug, Clone)]
pub struct UpdateUser {
    pub username: Option<String>,
    pub display_name: Option<String>,
}

impl UpdateUser {
    /// Changes the fields of the user that the update names.
    pub fn apply(&self, user: &mut User)
        ensures
            final(user).id@ == old(user).id@,
            final(user).avatar_url == old(user).avatar_url,
            final(user).created == old(user).created,
            final(user).username@ == match self.username {
                Some(name) => name@,
                None => old(user).username@,
            },
            final(user).display_name@ == match self.display_name {
                Some(name) => name@,
                None => old(user).display_name@,
            },
    {
        match &self.username {
            Some(name) => {
                user.username = name.clone();
            },
            None => {},
        }
        match &self.display_name {
            Some(name) => {
                user.display_name = name.clone();
            },
            None => {},
        }
    }
}

} // verus!
