//! The lines of text that the screen shows: the title, one line per
//! message and one per room of the sidebar.

use crate::data::MessageView;
use crate::clock::{clock_hh_mm_ss, digit, hh_mm_ss};
use crate::ui::RoomEntry;
use crate::util::{sanitize, sanitized};
use vstd::prelude::*;

verus! {

/// `n` in decimal digits, without leading zeros.
pub open spec fn decimal(n: nat) -> Seq<char>
    decreases n,
{
    if n < 10 {
        seq![digit(n as int)]
    } else {
        decimal(n / 10).push(digit((n % 10) as int))
    }
}

/// The title: who is where, how many messages are shown, how many tokens
/// of the rate governor are left of how many, and the short fingerprint.
pub open spec fn title_text(
    handle: Seq<char>,
    room: Seq<char>,
    messages: nat,
    tokens_left: u32,
    tokens_cap: u32,
    fp_short: Seq<char>,
) -> Seq<char> {
    handle + " @ "@ + room + " | msgs:"@ + decimal(messages) + " | rate:"@ + decimal(
        tokens_left as nat,
    ) + "/"@ + decimal(tokens_cap as nat) + " | fp:"@ + fp_short
}

/// A message as one line: the time of day in UTC, the author and the body
/// without control codes.
pub open spec fn message_text(m: MessageView) -> Seq<char> {
    "["@ + hh_mm_ss(m.created_at) + "] "@ + m.user_handle@ + ": "@ + sanitized(m.body@)
}

/// A room of the sidebar as one line: a mark if it is the current room,
/// its name, and the number of unread messages if there are any.
pub open spec fn room_text(r: RoomEntry, current: i64) -> Seq<char> {
    (if r.id == current {
        "> "@
    } else {
        "  "@
    }) + r.name@ + (if r.unread > 0 {
        " ("@ + decimal(r.unread as nat) + ")"@
    } else {
        Seq::empty()
    })
}

fn push_decimal(out: &mut String, n: u64)
    ensures
        final(out)@ == old(out)@ + decimal(n as nat),
    decreases n,
{
    if n >= 10 {
        push_decimal(out, n / 10);
    }
    out.push((48u8 + (n % 10) as u8) as char);
    assert(out@ =~= old(out)@ + decimal(n as nat));
}

/// `n` in decimal digits.
pub fn decimal_of(n: u64) -> (out: String)
    ensures
        out@ == decimal(n as nat),
{
    let mut out = String::new();
    push_decimal(&mut out, n);
    assert(out@ =~= decimal(n as nat));
    out
}

/// The title line.
pub fn title_line(
    handle: &str,
    room: &str,
    messages: usize,
    tokens_left: u32,
    tokens_cap: u32,
    fp_short: &str,
) -> (out: String)
    ensures
        out@ == title_text(handle@, room@, messages as nat, tokens_left, tokens_cap, fp_short@),
{
    let mut out = String::from_str(handle);
    out.append(" @ ");
    out.append(room);
    out.append(" | msgs:");
    push_decimal(&mut out, messages as u64);
    out.append(" | rate:");
    push_decimal(&mut out, tokens_left as u64);
    out.append("/");
    push_decimal(&mut out, tokens_cap as u64);
    out.append(" | fp:");
    out.append(fp_short);
    out
}

/// The line for a message.
pub fn message_line(m: &MessageView) -> (out: String)
    ensures
        out@ == message_text(*m),
{
    let mut out = String::from_str("[");
    out.append(clock_hh_mm_ss(m.created_at).as_str());
    out.append("] ");
    out.append(m.user_handle.as_str());
    out.append(": ");
    out.append(sanitize(m.body.as_str()).as_str());
    out
}

/// The line for a room of the sidebar.
pub fn room_line(r: &RoomEntry, current: i64) -> (out: String)
    ensures
        out@ == room_text(*r, current),
{
    let mut out = if r.id == current {
        String::from_str("> ")
    } else {
        String::from_str("  ")
    };
    out.append(r.name.as_str());
    if r.unread > 0 {
        out.append(" (");
        push_decimal(&mut out, r.unread as u64);
        out.append(")");
        assert(out@ =~= room_text(*r, current));
    } else {
        assert(out@ =~= room_text(*r, current));
    }
    out
}

} // verus!
