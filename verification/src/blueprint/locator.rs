//! Where an asset's bytes are found.

use vstd::prelude::*;
use vstd::string::*;

use crate::text::same_text;

verus! {

/// The name of one asset: a path, inside a pack or on its own.
#[derive(Debug, Clone)]
pub struct Locator {
    pub pack: Option<String>,
    pub path: String,
}

/// A locator as plain text.
pub struct LocatorView {
    pub pack: Option<Seq<char>>,
    pub path: Seq<char>,
}

impl View for Locator {
    type V = LocatorView;

    open spec fn view(&self) -> LocatorView {
        LocatorView {
            pack: match self.pack {
                Some(pack) => Some(pack@),
                None => None,
            },
            path: self.path@,
        }
    }
}

/// The container that holds the assets of the pack `pack`.
pub open spec fn pack_container(pack: Seq<char>) -> Seq<char> {
    "pack-"@ + pack
}

/// The container in which an asset is stored: `pack-` and the pack's name,
/// or `assets` for an asset outside any pack.
pub open spec fn container_of(locator: LocatorView) -> Seq<char> {
    match locator.pack {
        Some(pack) => pack_container(pack),
        None => "assets"@,
    }
}

/// The key under which a decoded asset is cached: its container and its
/// path.
pub open spec fn cache_key_of(locator: LocatorView) -> (Seq<char>, Seq<char>) {
    (container_of(locator), locator.path)
}

/// Two assets share a cache key only if they are the same asset: what is
/// cached under a key was loaded for the asset that is asked for.
pub proof fn law_cache_key_names_one_asset(one: LocatorView, other: LocatorView)
    requires
        cache_key_of(one) == cache_key_of(other),
    ensures
        one == other,
{
    reveal_strlit("pack-");
    reveal_strlit("assets");
    let a = container_of(one);
    let b = container_of(other);
    match (one.pack, other.pack) {
        (Some(mine), Some(theirs)) => {
            assert(a.subrange(5, a.len() as int) =~= mine);
            assert(b.subrange(5, b.len() as int) =~= theirs);
        },
        (Some(mine), None) => {
            assert(a[0] == 'p');
        },
        (None, Some(theirs)) => {
            assert(a[0] == 'a');
        },
        (None, None) => {},
    }
}

impl Locator {
    /// The asset `path`, outside any pack.
    pub fn asset(path: &str) -> (locator: Locator)
        ensures
            locator@ == (LocatorView { pack: None, path: path@ }),
    {
        Locator { pack: None, path: String::from_str(path) }
    }

    /// The asset `path` of the pack `pack`.
    pub fn packed(pack: &str, path: &str) -> (locator: Locator)
        ensures
            locator@ == (LocatorView { pack: Some(pack@), path: path@ }),
    {
        Locator { pack: Some(String::from_str(pack)), path: String::from_str(path) }
    }

    /// A second locator of the same asset.
    pub fn duplicate(&self) -> (copy: Locator)
        ensures
            copy@ == self@,
    {
        let pack = match &self.pack {
            Some(pack) => Some(pack.clone()),
            None => None,
        };
        Locator { pack, path: self.path.clone() }
    }

    /// Whether both name the same asset.
    pub fn same(&self, other: &Locator) -> (same: bool)
        ensures
            same == (self@ == other@),
    {
        let packs = match (&self.pack, &other.pack) {
            (Some(mine), Some(theirs)) => same_text(mine.as_str(), theirs.as_str()),
            (None, None) => true,
            _ => false,
        };
        packs && same_text(self.path.as_str(), other.path.as_str())
    }

    /// The container in which the asset is stored: `pack-` and the pack's
    /// name, or `assets` for an asset outside any pack.
    pub fn container(&self) -> (name: String)
        ensures
            name@ == container_of(self@),
    {
        match &self.pack {
            Some(pack) => String::from_str("pack-").concat(pack.as_str()),
            None => String::from_str("assets"),
        }
    }

    /// The key under which the decoded asset is cached: its container and
    /// its path.
    pub fn cache_key(&self) -> (key: (String, String))
        ensures
            (key.0@, key.1@) == cache_key_of(self@),
    {
        (self.container(), self.path.clone())
    }
}

} // verus!
