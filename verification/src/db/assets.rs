//! Packs as they are stored.

use vstd::prelude::*;
use vstd::std_specs::convert::FromSpecImpl;

use crate::db::DateTime;

verus! {

/// A pack as it is stored, under its slug.
#[derive(Debug, Clone)]
pub struct AssetPack {
    pub slug: String,
    pub last_modified: DateTime,
    pub name: String,
    pub description: String,
    pub tags: Vec<String>,
    pub version: String,
    pub author: String,
    pub manifest: Vec<String>,
}

impl From<crate::models::assets::AssetPack> for AssetPack {
    /// The record of a pack.
    fn from(pack: crate::models::assets::AssetPack) -> (record: AssetPack) {
        AssetPack {
            slug: pack.slug,
            name: pack.name,
            description: pack.description,
            tags: pack.tags,
            last_modified: pack.last_modified,
            version: pack.version,
            author: pack.author,
            manifest: pack.manifest,
        }
    }
}

impl FromSpecImpl<crate::models::assets::AssetPack> for AssetPack {
    open spec fn obeys_from_spec() -> bool {
        true
    }

    open spec fn from_spec(pack: crate::models::assets::AssetPack) -> AssetPack {
        AssetPack {
            slug: pack.slug,
            name: pack.name,
            description: pack.description,
            tags: pack.tags,
            last_modified: pack.last_modified,
            version: pack.version,
            author: pack.author,
            manifest: pack.manifest,
        }
    }
}

impl From<AssetPack> for crate::models::assets::AssetPack {
    /// The pack of a record.
    fn from(value: AssetPack) -> (pack: crate::models::assets::AssetPack) {
        crate::models::assets::AssetPack {
            slug: value.slug,
            name: value.name,
            description: value.description,
            tags: value.tags,
            last_modified: value.last_modified,
            version: value.version,
            author: value.author,
            manifest: value.manifest,
        }
    }
}

impl FromSpecImpl<AssetPack> for crate::models::assets::AssetPack {
    open spec fn obeys_from_spec() -> bool {
        true
    }

    open spec fn from_spec(value: AssetPack) -> crate::models::assets::AssetPack {
        crate::models::assets::AssetPack {
            slug: value.slug,
            name: value.name,
            description: value.description,
            tags: value.tags,
            last_modified: value.last_modified,
            version: value.version,
            author: value.author,
            manifest: value.manifest,
        }
    }
}

/// The container that holds the assets of the pack `slug`.
pub fn pack_container_name(slug: &str) -> (name: String)
    ensures
        name@ == crate::blueprint::locator::pack_container(slug@),
{
    String::from_str("pack-").concat(slug)
}

} // verus!
