//! Users as they are stored.

use vstd::prelude::*;
use vstd::std_specs::convert::FromSpecImpl;

use crate::db::DateTime;

verus! {

/// A user as it is stored: the identifier is both keys of the record.
#[derive(Debug, Clone)]
pub struct User {
    pub partition_key: String,
    pub row_key: String,
    pub username: String,
    pub display_name: String,
    pub avatar_url: Option<String>,
    pub created: DateTime,
}

impl From<crate::models::users::User> for User {
    /// The record of a user.
    fn from(user: crate::models::users::User) -> (record: User) {
        User {
            partition_key: user.id.clone(),
            row_key: user.id,
            username: user.username,
            display_name: user.display_name,
            avatar_url: user.avatar_url,
            created: user.created,
        }
    }
}

impl FromSpecImpl<crate::models::users::User> for User {
    open spec fn obeys_from_spec() -> bool {
        true
    }

    open spec fn from_spec(user: crate::models::users::User) -> User {
        User {
            partition_key: user.id,
            row_key: user.id,
            username: user.username,
            display_name: user.display_name,
            avatar_url: user.avatar_url,
            created: user.created,
        }
    }
}

impl From<User> for crate::models::users::User {
    /// The user of a record: its identifier is the record's row key.
    fn from(record: User) -> (user: crate::models::users::User) {
        crate::models::users::User {
            id: record.row_key,
            username: record.username,
            display_name: record.display_name,
            avatar_url: record.avatar_url,
            created: record.created,
        }
    }
}

impl FromSpecImpl<User> for crate::models::users::User {
    open spec fn obeys_from_spec() -> bool {
        true
    }

    open spec fn from_spec(record: User) -> crate::models::users::User {
        crate::models::users::User {
            id: record.row_key,
            username: record.username,
            display_name: record.display_name,
            avatar_url: record.avatar_url,
            created: record.created,
        }
    }
}

impl User {
    /// The record of someone who signs up with the given identifier at the
    /// given moment: the display name is the user name.
    pub fn from_new(new_user: crate::models::users::NewUser, id: &str, created: DateTime) -> (record:
        User)
        ensures
            record.partition_key@ == id@,
            record.row_key@ == id@,
            record.username@ == new_user.username@,
            record.display_name@ == new_user.username@,
            record.avatar_url is None,
            record.created == created,
    {
        User {
            partition_key: String::from_str(id),
            row_key: String::from_str(id),
            username: new_user.username.clone(),
            display_name: new_user.username,
            avatar_url: None,
            created,
        }
    }
}

} // verus!
