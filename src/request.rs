//! What the query-argument phase inspects, taken from the request path.
use vstd::prelude::*;
use crate::parser::{find_char, first_index};
use crate::text::{chars_of, slice_chars, string_of};

verus! {

/// The raw query string of `path`: everything after its first `?`, undecoded;
/// `None` when the path has no `?`.
pub fn query_string_of(path: &str) -> (r: Option<String>)
    ensures
        r is Some <==> first_index(path@, '?') is Some,
        r matches Some(q) ==> q@ == path@.skip(first_index(path@, '?')->0 + 1),
{
    let cs = chars_of(path);
    match find_char(&cs, '?') {
        Some(i) => {
            let rest = slice_chars(&cs, i + 1, cs.len());
            assert(cs@.subrange(i + 1, cs@.len() as int) =~= cs@.skip(i + 1));
            Some(string_of(&rest))
        },
        None => None,
    }
}

} // verus!
