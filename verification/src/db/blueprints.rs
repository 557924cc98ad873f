//! Blueprints as they are stored.

use vstd::prelude::*;

verus! {

/// A blueprint as it is stored: its templates are kept as one text.
#[derive(Debug, Clone)]
pub struct Blueprint {
    pub id: String,
    pub author: String,
    pub name: String,
    pub templates: String,
}

} // verus!
