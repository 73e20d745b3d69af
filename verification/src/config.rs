//! The configuration: the recognised options, their defaults, and how the
//! text of an option is read. The values are handed in by the caller, who
//! reads them from the environment once at startup.

use crate::text::chars_of;
use vstd::prelude::*;

verus! {

pub const DEFAULT_MSG_MAX_LEN: usize = 1000;

pub const DEFAULT_RATE_PER_MIN: u32 = 10;

pub const DEFAULT_RETENTION_DAYS: u32 = 30;

pub const DEFAULT_HISTORY_LOAD: u32 = 200;

/// The options as text, each present or not.
#[derive(Debug, Clone)]
pub struct RawConfig {
    pub database_url: Option<String>,
    pub default_room: Option<String>,
    pub pubkey_sha256: Option<String>,
    pub pubkey_type: Option<String>,
    pub remote_addr: Option<String>,
    pub msg_max_len: Option<String>,
    pub rate_per_min: Option<String>,
    pub retention_days: Option<String>,
    pub history_load: Option<String>,
}

/// The configuration that every component is started with.
#[derive(Debug, Clone)]
pub struct Config {
    pub database_url: String,
    pub default_room: String,
    pub pubkey_sha256: Option<String>,
    pub pubkey_type: Option<String>,
    pub remote_addr: Option<String>,
    pub msg_max_len: usize,
    pub rate_per_min: u32,
    pub retention_days: u32,
    pub history_load: u32,
}

/// Why no configuration could be made.
#[derive(Debug, Clone, Copy, PartialEq, Eq)]
pub enum ConfigError {
    /// The connection target of the store is required.
    MissingDatabaseUrl,
}

/// Whether every character of `s` is a decimal digit.
pub open spec fn all_digits(s: Seq<char>) -> bool {
    forall|i: int| 0 <= i < s.len() ==> '0' <= #[trigger] s[i] <= '9'
}

/// The number that a string of decimal digits spells.
pub open spec fn digits_value(s: Seq<char>) -> nat
    decreases s.len(),
{
    if s.len() == 0 {
        0
    } else {
        digits_value(s.drop_last()) * 10 + (s.last() as nat - '0' as nat) as nat
    }
}

/// A number's text without the plus sign that may stand in front of it.
pub open spec fn unsigned_part(s: Seq<char>) -> Seq<char> {
    if s.len() > 0 && s[0] == '+' {
        s.skip(1)
    } else {
        s
    }
}

/// The number that `s` spells, if it is an optional plus sign followed by
/// one or more decimal digits and the number is at most `max`.
pub open spec fn number_in(s: Seq<char>, max: nat) -> Option<nat> {
    let d = unsigned_part(s);
    if d.len() > 0 && all_digits(d) && digits_value(d) <= max {
        Some(digits_value(d))
    } else {
        None
    }
}

/// The number of an option: the one that its text spells, or `default`
/// where the option is missing or its text spells no number up to `max`.
pub open spec fn number_or(value: Option<String>, max: nat, default: nat) -> nat {
    match value {
        Some(text) => match number_in(text@, max) {
            Some(n) => n,
            None => default,
        },
        None => default,
    }
}

/// A longer string of digits spells no smaller number.
proof fn lemma_digits_value_grows(s: Seq<char>, k: int)
    requires
        0 <= k <= s.len(),
    ensures
        digits_value(s.take(k)) <= digits_value(s),
    decreases s.len() - k,
{
    if k < s.len() {
        lemma_digits_value_grows(s, k + 1);
        assert(s.take(k + 1).drop_last() == s.take(k));
    } else {
        assert(s.take(k) == s);
    }
}

/// Reads a number of at most `max`: an optional plus sign, then digits.
pub fn parse_number(s: &str, max: u64) -> (r: Option<u64>)
    ensures
        r == match number_in(s@, max as nat) {
            Some(n) => Some(n as u64),
            None => None::<u64>,
        },
{
    let v = chars_of(s);
    let start: usize = if v.len() > 0 && v[0] == '+' {
        1
    } else {
        0
    };
    let ghost d = unsigned_part(s@);
    assert(d == v@.subrange(start as int, v.len() as int));
    if start == v.len() {
        return None;
    }
    let mut acc: u64 = 0;
    let mut i: usize = start;
    while i < v.len()
        invariant
            start <= i <= v.len(),
            d == unsigned_part(s@),
            d == v@.subrange(start as int, v.len() as int),
            all_digits(d.take(i - start)),
            acc == digits_value(d.take(i - start)),
            acc <= max,
        decreases v.len() - i,
    {
        let c = v[i];
        proof {
            assert(d[i - start] == c);
            assert(d.take(i - start + 1).drop_last() == d.take(i - start));
            lemma_digits_value_grows(d, i - start + 1);
        }
        if c < '0' || c > '9' {
            assert(!all_digits(d));
            return None;
        }
        let digit: u64 = (c as u32 - '0' as u32) as u64;
        if digit > max || acc > (max - digit) / 10 {
            assert(digits_value(d.take(i - start + 1)) > max) by (nonlinear_arith)
                requires
                    digits_value(d.take(i - start + 1)) == acc * 10 + digit,
                    digit > max || acc > (max - digit) / 10,
            ;
            return None;
        }
        assert(acc * 10 + digit <= max) by (nonlinear_arith)
            requires
                acc <= (max - digit) / 10,
                digit <= max,
        ;
        acc = acc * 10 + digit;
        i += 1;
    }
    assert(d.take(d.len() as int) == d);
    Some(acc)
}

fn number_of(value: &Option<String>, max: u64, default: u64) -> (n: u64)
    requires
        default <= max,
    ensures
        n == number_or(*value, max as nat, default as nat),
        n <= max,
{
    match value {
        Some(text) => match parse_number(text.as_str(), max) {
            Some(n) => n,
            None => default,
        },
        None => default,
    }
}

impl Config {
    /// The configuration for these options. The store's connection target
    /// is required; the default room is `lobby`; a number that is missing
    /// or cannot be read takes its default.
    pub fn from_values(raw: RawConfig) -> (r: Result<Config, ConfigError>)
        ensures
            raw.database_url is None ==> r == Err::<Config, ConfigError>(
                ConfigError::MissingDatabaseUrl,
            ),
            raw.database_url is Some ==> r is Ok,
            r matches Ok(c) ==> {
                &&& Some(c.database_url) == raw.database_url
                &&& c.default_room@ == (match raw.default_room {
                    Some(name) => name@,
                    None => "lobby"@,
                })
                &&& c.pubkey_sha256 == raw.pubkey_sha256
                &&& c.pubkey_type == raw.pubkey_type
                &&& c.remote_addr == raw.remote_addr
                &&& c.msg_max_len == number_or(
                    raw.msg_max_len,
                    usize::MAX as nat,
                    DEFAULT_MSG_MAX_LEN as nat,
                )
                &&& c.rate_per_min == number_or(
                    raw.rate_per_min,
                    u32::MAX as nat,
                    DEFAULT_RATE_PER_MIN as nat,
                )
                &&& c.retention_days == number_or(
                    raw.retention_days,
                    u32::MAX as nat,
                    DEFAULT_RETENTION_DAYS as nat,
                )
                &&& c.history_load == number_or(
                    raw.history_load,
                    u32::MAX as nat,
                    DEFAULT_HISTORY_LOAD as nat,
                )
            },
    {
        let msg_max_len = number_of(&raw.msg_max_len, usize::MAX as u64, DEFAULT_MSG_MAX_LEN as u64) as usize;
        let rate_per_min = number_of(&raw.rate_per_min, u32::MAX as u64, DEFAULT_RATE_PER_MIN as u64) as u32;
        let retention_days = number_of(
            &raw.retention_days,
            u32::MAX as u64,
            DEFAULT_RETENTION_DAYS as u64,
        ) as u32;
        let history_load = number_of(&raw.history_load, u32::MAX as u64, DEFAULT_HISTORY_LOAD as u64) as u32;
        match raw.database_url {
            None => Err(ConfigError::MissingDatabaseUrl),
            Some(database_url) => Ok(
                Config {
                    database_url,
                    default_room: match raw.default_room {
                        Some(name) => name,
                        None => String::from_str("lobby"),
                    },
                    pubkey_sha256: raw.pubkey_sha256,
                    pubkey_type: raw.pubkey_type,
                    remote_addr: raw.remote_addr,
                    msg_max_len,
                    rate_per_min,
                    retention_days,
                    history_load,
                },
            ),
        }
    }
}

} // verus!
