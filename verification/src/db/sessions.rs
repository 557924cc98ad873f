//! Sessions of signed-in users.

use vstd::prelude::*;

verus! {

/// A session as it is stored.
#[derive(Debug, Clone)]
pub struct Session {
    pub id: String,
    pub session_token: String,
    pub user_id: String,
}

} // verus!
