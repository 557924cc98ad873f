//! What the service answers, apart from how it is asked.

pub mod util;
pub mod v1;
