//! The first version of the service's interface.

use vstd::prelude::*;
use vstd::string::*;

pub mod assets;
pub mod runs;
pub mod template;

pub use template::{BlueprintRequest, TemplateRequest, TemplateRun};

verus! {

/// The page that a listing is asked for.
#[derive(Debug, Clone, Copy)]
pub struct Paginated {
    pub page: Option<usize>,
}

impl Paginated {
    /// A page number is at least 1 where there is one.
    pub open spec fn valid(&self) -> bool {
        match self.page {
            Some(page) => page >= 1,
            None => true,
        }
    }

    /// Checks the page number. Page 0 is refused.
    pub fn validate(&self) -> (checked: Result<(), &'static str>)
        ensures
            checked is Ok <==> self.valid(),
            checked matches Err(message) ==> message@ == "must be an integer >= 1"@,
    {
        match self.page {
            Some(0) => Err("must be an integer >= 1"),
            _ => Ok(()),
        }
    }

    /// The page asked for, or the first page where none was named.
    pub fn page_or_first(&self) -> (page: usize)
        ensures
            page == match self.page {
                Some(page) => page,
                None => 1,
            },
    {
        match self.page {
            Some(page) => page,
            None => 1,
        }
    }
}

/// The session token that came with a request.
#[derive(Debug, Clone)]
pub struct UserSession(pub String);

impl UserSession {
    /// The session of a request, from the value of its session cookie. A
    /// request without the cookie has no session.
    pub fn from_cookie(cookie: Option<&str>) -> (session: Result<UserSession, &'static str>)
        ensures
            match (cookie, session) {
                (Some(value), Ok(session)) => session.0@ == value@,
                (None, Err(message)) => message@ == "no session token provided in request"@,
                _ => false,
            },
    {
        match cookie {
            Some(value) => Ok(UserSession(String::from_str(value))),
            None => Err("no session token provided in request"),
        }
    }
}

} // verus!
