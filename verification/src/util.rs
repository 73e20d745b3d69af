//! Fingerprint shortening and message normalisation.

use crate::text::{char_is_control, chars_of, is_control, string_of_range, trim_range, trimmed};
use unicode_normalization::UnicodeNormalization;
use vstd::prelude::*;

verus! {

/// How many characters of a fingerprint are shown.
pub const FP_SHORT_LEN: usize = 8;

/// The first eight characters of the trimmed fingerprint, or all of it if it
/// is shorter.
pub open spec fn fp_short_text(fp: Seq<char>) -> Seq<char> {
    let t = trimmed(fp);
    if t.len() <= FP_SHORT_LEN {
        t
    } else {
        t.take(FP_SHORT_LEN as int)
    }
}

/// A character survives sanitising unless it is a control code other than
/// newline and tab.
pub open spec fn keeps_char(c: char) -> bool {
    !is_control(c) || c == '\n' || c == '\t'
}

/// `s` without its control codes, newline and tab excepted.
pub open spec fn sanitized(s: Seq<char>) -> Seq<char> {
    s.filter(|c: char| keeps_char(c))
}

/// The Unicode Normalization Form KC of a text, as the `unicode_normalization`
/// crate computes it.
pub uninterp spec fn nfkc(text: Seq<char>) -> Seq<char>;

/// Calls `UnicodeNormalization::nfkc` on `input` and collects what the
/// iterator yields. The contract gives that result its name, `nfkc`; nothing
/// else is claimed of it.
#[verifier::external_body]
fn nfkc_string(input: &str) -> (out: String)
    ensures
        out@ == nfkc(input@),
{
    input.nfkc().collect()
}

/// A short form of a fingerprint for display.
pub fn fp_short(fp_b64: &str) -> (out: String)
    ensures
        out@ == fp_short_text(fp_b64@),
{
    let v = chars_of(fp_b64);
    assert(v@.subrange(0, v.len() as int) == v@);
    let (a, b) = trim_range(&v, 0, v.len());
    if b - a <= FP_SHORT_LEN {
        string_of_range(&v, a, b)
    } else {
        proof {
            assert(v@.subrange(a as int, a + FP_SHORT_LEN) == v@.subrange(a as int, b as int).take(
                FP_SHORT_LEN as int,
            ));
        }
        string_of_range(&v, a, a + FP_SHORT_LEN)
    }
}

/// Removes control codes, keeping newline and tab.
pub fn sanitize(s: &str) -> (out: String)
    ensures
        out@ == sanitized(s@),
{
    let v = chars_of(s);
    let mut out = String::new();
    let mut i: usize = 0;
    assert(v@.take(0).filter(|c: char| keeps_char(c)) == Seq::<char>::empty()) by {
        reveal(Seq::filter);
    }
    while i < v.len()
        invariant
            i <= v.len(),
            out@ == sanitized(v@.take(i as int)),
        decreases v.len() - i,
    {
        let c = v[i];
        proof {
            reveal(Seq::filter);
            assert(v@.take(i + 1).drop_last() == v@.take(i as int));
        }
        if !char_is_control(c) || c == '\n' || c == '\t' {
            out.push(c);
        }
        i += 1;
    }
    assert(v@.take(v.len() as int) == v@);
    out
}

/// Normalises a message body: Unicode form KC, then control codes removed
/// except newline and tab.
pub fn normalize_message(input: &str) -> (out: String)
    ensures
        out@ == sanitized(nfkc(input@)),
{
    let normalized = nfkc_string(input);
    sanitize(normalized.as_str())
}

} // verus!
