//! Parts of answers.

use vstd::prelude::*;
use vstd::string::*;

verus! {

/// Where something that was created at `uri` under `id` is found: the
/// address, `/`, and the identifier.
pub fn created_location(uri: &str, id: &str) -> (location: String)
    ensures
        location@ == uri@ + "/"@ + id@,
{
    String::from_str(uri).concat("/").concat(id)
}

} // verus!
