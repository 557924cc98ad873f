//! The outputs of a run.

use vstd::prelude::*;
use vstd::string::*;

verus! {

/// The place of the first `/` in the text, or the text's length where it
/// has none.
pub open spec fn slash(text: Seq<char>) -> int
    decreases text.len(),
{
    if text.len() == 0 {
        0
    } else if text[0] == '/' {
        0
    } else {
        1 + slash(text.drop_first())
    }
}

proof fn lemma_slash(text: Seq<char>, at: int)
    requires
        0 <= at <= text.len(),
        forall|k: int| 0 <= k < at ==> text[k] != '/',
        at < text.len() ==> text[at] == '/',
    ensures
        slash(text) == at,
    decreases text.len(),
{
    if text.len() > 0 && at > 0 {
        let rest = text.drop_first();
        lemma_slash(rest, at - 1);
    }
}

/// The file name of an output: what follows the first `/` of the name
/// under which it is stored. A name without `/` is no output's name.
pub fn result_file_name(stored: &str) -> (name: Option<String>)
    ensures
        match name {
            Some(name) => slash(stored@) < stored@.len() && name@ == stored@.subrange(
                slash(stored@) + 1,
                stored@.len() as int,
            ),
            None => slash(stored@) == stored@.len(),
        },
{
    let n = stored.unicode_len();
    let mut at: usize = 0;
    while at < n
        invariant
            at <= n,
            n == stored@.len(),
            forall|k: int| 0 <= k < at ==> stored@[k] != '/',
        decreases n - at,
    {
        if stored.get_char(at) == '/' {
            proof {
                lemma_slash(stored@, at as int);
            }
            return Some(String::from_str(stored.substring_char(at + 1, n)));
        }
        at += 1;
    }
    proof {
        lemma_slash(stored@, at as int);
    }
    None
}

/// The name of the archive of a run's outputs: the run's identifier and
/// `.zip`.
pub fn archive_name(run_id: &str) -> (name: String)
    ensures
        name@ == run_id@ + ".zip"@,
{
    String::from_str(run_id).concat(".zip")
}

} // verus!
