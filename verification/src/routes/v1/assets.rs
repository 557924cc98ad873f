//! Downloading assets.

use vstd::prelude::*;
use vstd::string::*;

use crate::text::same_text;

verus! {

/// The value of the first tag named `file_name`, if there is one.
pub open spec fn named_by(tags: Seq<(Seq<char>, Seq<char>)>) -> Option<Seq<char>>
    decreases tags.len(),
{
    if tags.len() == 0 {
        None
    } else if tags[0].0 == "file_name"@ {
        Some(tags[0].1)
    } else {
        named_by(tags.drop_first())
    }
}

/// The tags as plain text.
pub open spec fn tag_views(tags: Seq<(String, String)>) -> Seq<(Seq<char>, Seq<char>)> {
    Seq::new(tags.len(), |i: int| (tags[i].0@, tags[i].1@))
}

/// The file name under which an asset is downloaded: the value of its
/// first tag `file_name`, or its identifier where it has no such tag.
pub fn asset_file_name(tags: &Vec<(String, String)>, asset_id: &str) -> (name: String)
    ensures
        name@ == match named_by(tag_views(tags@)) {
            Some(value) => value,
            None => asset_id@,
        },
{
    let mut i: usize = 0;
    assert(tag_views(tags@).skip(0) == tag_views(tags@));
    while i < tags.len()
        invariant
            i <= tags@.len(),
            named_by(tag_views(tags@)) == named_by(tag_views(tags@).skip(i as int)),
        decreases tags@.len() - i,
    {
        assert(tag_views(tags@).skip(i as int).drop_first() == tag_views(tags@).skip(i + 1));
        if same_text(tags[i].0.as_str(), "file_name") {
            return tags[i].1.clone();
        }
        i += 1;
    }
    String::from_str(asset_id)
}

} // verus!
