//! Times of day as text. A time is a count of microseconds since the Unix
//! epoch and is shown in UTC.

use vstd::prelude::*;

verus! {

/// The decimal digit for `d`, which is below ten.
pub open spec fn digit(d: int) -> char {
    (48 + d) as char
}

/// `n`, which is below one hundred, in two decimal digits.
pub open spec fn two_digits(n: int) -> Seq<char> {
    seq![digit(n / 10), digit(n % 10)]
}

/// The second of its day, in UTC, at which a time in microseconds falls.
pub open spec fn second_of_day(at: i64) -> int {
    (at as int / 1_000_000) % 86_400
}

/// The time of day of `at`, in UTC, as hours and minutes: `HH:MM`.
pub open spec fn hh_mm(at: i64) -> Seq<char> {
    two_digits(second_of_day(at) / 3600) + seq![':'] + two_digits(second_of_day(at) % 3600 / 60)
}

/// The time of day of `at`, in UTC, with seconds: `HH:MM:SS`.
pub open spec fn hh_mm_ss(at: i64) -> Seq<char> {
    hh_mm(at) + seq![':'] + two_digits(second_of_day(at) % 60)
}

fn push_two_digits(out: &mut String, n: u64)
    requires
        n < 100,
    ensures
        final(out)@ == old(out)@ + two_digits(n as int),
{
    out.push((48u8 + (n / 10) as u8) as char);
    out.push((48u8 + (n % 10) as u8) as char);
    assert(out@ =~= old(out)@ + two_digits(n as int));
}

fn second_of_day_of(at: i64) -> (s: u64)
    ensures
        s == second_of_day(at),
        s < 86_400,
{
    if at >= 0 {
        (at as u64 / 1_000_000) % 86_400
    } else {
        let below: u64 = (-(at + 1)) as u64;
        let whole: u64 = below / 1_000_000;
        proof {
            let part = below % 1_000_000;
            vstd::arithmetic::div_mod::lemma_fundamental_div_mod_converse(
                at as int,
                1_000_000,
                -(whole as int) - 1,
                999_999 - part,
            );
            let days = whole / 86_400;
            let rest = whole % 86_400;
            vstd::arithmetic::div_mod::lemma_fundamental_div_mod_converse(
                -(whole as int) - 1,
                86_400,
                -(days as int) - 1,
                86_399 - rest,
            );
        }
        86_399 - whole % 86_400
    }
}

/// The time of day of `at`, a time in microseconds, in UTC: `HH:MM`.
pub fn clock_hh_mm(at: i64) -> (out: String)
    ensures
        out@ == hh_mm(at),
{
    let s = second_of_day_of(at);
    let mut out = String::new();
    push_two_digits(&mut out, s / 3600);
    out.push(':');
    push_two_digits(&mut out, s % 3600 / 60);
    assert(out@ =~= hh_mm(at));
    out
}

/// The time of day of `at`, a time in microseconds, in UTC: `HH:MM:SS`.
pub fn clock_hh_mm_ss(at: i64) -> (out: String)
    ensures
        out@ == hh_mm_ss(at),
{
    let mut out = clock_hh_mm(at);
    out.push(':');
    push_two_digits(&mut out, second_of_day_of(at) % 60);
    assert(out@ =~= hh_mm_ss(at));
    out
}

} // verus!
