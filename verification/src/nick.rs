//! The rule for display handles.

use crate::text::{all_name_chars, chars_of, range_all_name_chars, trim_range, trimmed};
use vstd::prelude::*;

verus! {

/// A handle is 2 to 16 characters out of `a-z`, `0-9`, `_` and `-`.
pub open spec fn is_valid_nick(t: Seq<char>) -> bool {
    2 <= t.len() <= 16 && all_name_chars(t)
}

/// Whether `name`, with surrounding whitespace removed, is a valid handle.
pub fn valid_nick(name: &str) -> (ok: bool)
    ensures
        ok == is_valid_nick(trimmed(name@)),
{
    let v = chars_of(name);
    assert(v@.subrange(0, v.len() as int) == v@);
    let (a, b) = trim_range(&v, 0, v.len());
    if b - a < 2 || b - a > 16 {
        return false;
    }
    range_all_name_chars(&v, a, b)
}

} // verus!
