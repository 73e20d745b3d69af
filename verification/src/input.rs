//! Slash commands: the typed intents and the parser from a line of input.

use crate::text::{
    chars_of, first_index_of, lemma_first_index_of, range_is, string_of_range, trim_range,
    trimmed,
};
use vstd::prelude::*;

verus! {

/// What the operator can ask for with a line that starts with `/`.
#[derive(Debug, Clone, PartialEq, Eq)]
pub enum Command {
    Help,
    Quit,
    Me(String),
    Nick(String),
    Join(String),
    Leave(Option<String>),
    Rooms,
    Who(Option<String>),
    RoomDel(String),
}

/// A `Command` with each string replaced by its characters.
pub enum CommandView {
    Help,
    Quit,
    Me(Seq<char>),
    Nick(Seq<char>),
    Join(Seq<char>),
    Leave(Option<Seq<char>>),
    Rooms,
    Who(Option<Seq<char>>),
    RoomDel(Seq<char>),
}

impl View for Command {
    type V = CommandView;

    open spec fn view(&self) -> CommandView {
        match self {
            Command::Help => CommandView::Help,
            Command::Quit => CommandView::Quit,
            Command::Me(a) => CommandView::Me(a@),
            Command::Nick(a) => CommandView::Nick(a@),
            Command::Join(a) => CommandView::Join(a@),
            Command::Leave(Some(a)) => CommandView::Leave(Some(a@)),
            Command::Leave(None) => CommandView::Leave(None),
            Command::Rooms => CommandView::Rooms,
            Command::Who(Some(a)) => CommandView::Who(Some(a@)),
            Command::Who(None) => CommandView::Who(None),
            Command::RoomDel(a) => CommandView::RoomDel(a@),
        }
    }
}

/// An empty argument means that none was given.
pub open spec fn optional_arg(arg: Seq<char>) -> Option<Seq<char>> {
    if arg.len() == 0 {
        None
    } else {
        Some(arg)
    }
}

/// The command that a word and its argument stand for. A word that is not
/// known asks for help.
pub open spec fn command_for(word: Seq<char>, arg: Seq<char>) -> CommandView {
    if word == "help"@ || word == "h"@ || word == "?"@ {
        CommandView::Help
    } else if word == "quit"@ || word == "q"@ || word == "exit"@ {
        CommandView::Quit
    } else if word == "me"@ {
        CommandView::Me(arg)
    } else if word == "nick"@ || word == "name"@ {
        CommandView::Nick(arg)
    } else if word == "join"@ {
        CommandView::Join(arg)
    } else if word == "leave"@ {
        CommandView::Leave(optional_arg(arg))
    } else if word == "rooms"@ {
        CommandView::Rooms
    } else if word == "who"@ {
        CommandView::Who(optional_arg(arg))
    } else if word == "roomdel"@ || word == "rdel"@ {
        CommandView::RoomDel(arg)
    } else {
        CommandView::Help
    }
}

/// The word of a command line: what stands between the slash and the first
/// space. `rest` is the line without its slash.
pub open spec fn command_word(rest: Seq<char>) -> Seq<char> {
    rest.take(first_index_of(rest, ' ') as int)
}

/// The argument of a command line: what follows the first space, trimmed;
/// empty if there is no space. `rest` is the line without its slash.
pub open spec fn command_arg(rest: Seq<char>) -> Seq<char> {
    let k = first_index_of(rest, ' ');
    if k < rest.len() {
        trimmed(rest.skip(k as int + 1))
    } else {
        Seq::empty()
    }
}

/// What a line of input means as a command: nothing unless the trimmed line
/// starts with a slash.
pub open spec fn parsed(line: Seq<char>) -> Option<CommandView> {
    let t = trimmed(line);
    if t.len() == 0 || t[0] != '/' {
        None
    } else {
        Some(command_for(command_word(t.skip(1)), command_arg(t.skip(1))))
    }
}

fn optional(arg: String) -> (r: Option<String>)
    ensures
        r.is_some() == (arg@.len() > 0),
        r matches Some(a) ==> a@ == arg@,
{
    if arg.as_str().is_empty() {
        None
    } else {
        Some(arg)
    }
}

/// Parses a line of input as a slash command.
pub fn parse_command(s: &str) -> (r: Option<Command>)
    ensures
        match r {
            Some(c) => parsed(s@) == Some(c@),
            None => parsed(s@).is_none(),
        },
{
    let v = chars_of(s);
    assert(v@.subrange(0, v.len() as int) == v@);
    let (a, b) = trim_range(&v, 0, v.len());
    let ghost t = trimmed(s@);
    if a == b || v[a] != '/' {
        assert(a < b ==> t[0] == v@[a as int]);
        return None;
    }
    assert(t[0] == v@[a as int]);
    let ghost rest = t.skip(1);
    assert(rest == v@.subrange(a + 1, b as int));
    let mut k: usize = a + 1;
    while k < b && v[k] != ' '
        invariant
            a + 1 <= k <= b <= v.len(),
            forall|i: int| a + 1 <= i < k ==> v@[i] != ' ',
        decreases b - k,
    {
        k += 1;
    }
    proof {
        assert forall|i: int| 0 <= i < k - (a + 1) implies #[trigger] rest[i] != ' ' by {
            assert(rest[i] == v@[i + a + 1]);
        }
        if k < b {
            assert(rest[k - (a + 1)] == v@[k as int]);
        }
        lemma_first_index_of(rest, ' ', k - (a + 1));
        assert(command_word(rest) == v@.subrange(a + 1, k as int));
    }
    let arg = if k < b {
        let (c, d) = trim_range(&v, k + 1, b);
        assert(rest.skip(k - (a + 1) + 1) == v@.subrange(k + 1, b as int));
        string_of_range(&v, c, d)
    } else {
        String::new()
    };
    assert(arg@ == command_arg(rest));
    let from = a + 1;
    let cmd = if range_is(&v, from, k, "help") || range_is(&v, from, k, "h") || range_is(
        &v,
        from,
        k,
        "?",
    ) {
        Command::Help
    } else if range_is(&v, from, k, "quit") || range_is(&v, from, k, "q") || range_is(
        &v,
        from,
        k,
        "exit",
    ) {
        Command::Quit
    } else if range_is(&v, from, k, "me") {
        Command::Me(arg)
    } else if range_is(&v, from, k, "nick") || range_is(&v, from, k, "name") {
        Command::Nick(arg)
    } else if range_is(&v, from, k, "join") {
        Command::Join(arg)
    } else if range_is(&v, from, k, "leave") {
        Command::Leave(optional(arg))
    } else if range_is(&v, from, k, "rooms") {
        Command::Rooms
    } else if range_is(&v, from, k, "who") {
        Command::Who(optional(arg))
    } else if range_is(&v, from, k, "roomdel") || range_is(&v, from, k, "rdel") {
        Command::RoomDel(arg)
    } else {
        Command::Help
    };
    Some(cmd)
}

} // verus!
