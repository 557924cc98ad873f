//! Packs of assets.

use vstd::prelude::*;

use crate::db::DateTime;

verus! {

/// A pack of assets: what it is called, and the paths of its assets.
#[derive(Debug, Clone)]
pub struct AssetPack {
    pub slug: String,
    pub name: String,
    pub description: String,
    pub tags: Vec<String>,
    pub last_modified: DateTime,
    pub version: String,
    pub author: String,
    pub manifest: Vec<String>,
}

} // verus!
