//! The rule for room names.

use crate::text::{all_name_chars, chars_of, range_all_name_chars, trim_range, trimmed};
use vstd::prelude::*;

verus! {

/// A room name is 1 to 24 characters out of `a-z`, `0-9`, `_` and `-`.
pub open spec fn is_valid_room_name(t: Seq<char>) -> bool {
    1 <= t.len() <= 24 && all_name_chars(t)
}

/// Whether `name`, with surrounding whitespace removed, is a valid room name.
pub fn valid_room_name(name: &str) -> (ok: bool)
    ensures
        ok == is_valid_room_name(trimmed(name@)),
{
    let v = chars_of(name);
    assert(v@.subrange(0, v.len() as int) == v@);
    let (a, b) = trim_range(&v, 0, v.len());
    if b - a < 1 || b - a > 24 {
        return false;
    }
    range_all_name_chars(&v, a, b)
}

} // verus!
