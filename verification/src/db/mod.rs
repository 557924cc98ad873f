//! The records that are stored, and how they are paged.

use vstd::prelude::*;

pub mod assets;
pub mod blueprints;
pub mod runs;
pub mod sessions;
pub mod users;

pub use assets::AssetPack;
pub use blueprints::Blueprint;
pub use runs::CompositorRun;
pub use sessions::Session;
pub use users::User;

verus! {

/// The number of records on a page.
pub const PAGE_SIZE: u32 = 25;

/// A moment: the nanoseconds since the beginning of 1970, UTC.
#[derive(Debug, Clone, Copy, PartialEq, Eq, Structural)]
pub struct DateTime(pub i128);

/// The records to pass over before page `page` begins. Pages count from 1.
pub open spec fn page_offset(page: nat) -> int {
    (page - 1) * PAGE_SIZE
}

/// The records of page `page`: how many to pass over, and how many to take.
/// There is no page 0, and no page whose records begin beyond 32 bits.
pub fn page_window(page: usize) -> (window: Option<(u32, u32)>)
    ensures
        match window {
            Some((skip, limit)) => page >= 1 && skip == page_offset(page as nat) && limit
                == PAGE_SIZE,
            None => page == 0 || page_offset(page as nat) > u32::MAX,
        },
{
    if page == 0 {
        return None;
    }
    let before: u128 = (page as u128 - 1) * 25;
    if before > u32::MAX as u128 {
        None
    } else {
        Some((before as u32, PAGE_SIZE))
    }
}

} // verus!
