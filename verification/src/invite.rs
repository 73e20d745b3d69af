//! The invite prompt: a line of at most sixteen bytes is typed and offered
//! to the store as an invite code, until one is accepted or the operator
//! gives up.
//!
//! The prompt performs no I/O. Its owner draws it, hands in the keys, and
//! asks the store when the prompt says so.

use crate::text::{trim, trimmed, without_last};
use crate::ui::Key;
use vstd::prelude::*;
use vstd::utf8::encode_utf8;

verus! {

/// The longest line, in bytes of UTF-8, to which a character is still added.
pub const INVITE_MAX_LEN: usize = 16;

/// Where the prompt stands.
#[derive(Debug, Clone, Copy, PartialEq, Eq)]
pub enum Stage {
    /// A code is being typed.
    Typing,
    /// The store is being asked about a code.
    Checking,
    /// A code was accepted.
    Accepted,
    /// The operator gave up.
    Cancelled,
}

/// The colour of the banner.
#[derive(Debug, Clone, Copy, PartialEq, Eq)]
pub enum BannerColor {
    Cyan,
    Magenta,
    Blue,
}

/// What the prompt's owner is to do after a key.
#[derive(Debug, Clone)]
pub enum InviteAction {
    /// Go on drawing and reading keys.
    Wait,
    /// Ask the store to consume this code.
    Check { code: String },
    /// Leave the prompt: the operator is in.
    Enter,
    /// Leave the prompt: the operator gave up.
    Leave,
}

/// An `InviteAction` with its string replaced by its characters.
pub enum InviteActionView {
    Wait,
    Check { code: Seq<char> },
    Enter,
    Leave,
}

impl View for InviteAction {
    type V = InviteActionView;

    open spec fn view(&self) -> InviteActionView {
        match self {
            InviteAction::Wait => InviteActionView::Wait,
            InviteAction::Check { code } => InviteActionView::Check { code: code@ },
            InviteAction::Enter => InviteActionView::Enter,
            InviteAction::Leave => InviteActionView::Leave,
        }
    }
}

/// The invite prompt.
#[derive(Debug, Clone)]
pub struct Invite {
    input: String,
    phase: u8,
    stage: Stage,
}

/// What a prompt holds: the line, the banner's phase and the stage.
pub struct InviteView {
    pub input: Seq<char>,
    pub phase: u8,
    pub stage: Stage,
}

/// The prompt after a key, and what to do. Keys count only while a code
/// is being typed.
pub open spec fn after_invite_key(p: InviteView, key: Key) -> (InviteView, InviteActionView) {
    if p.stage != Stage::Typing {
        (p, InviteActionView::Wait)
    } else {
        match key {
            Key::CtrlC => (InviteView { stage: Stage::Cancelled, ..p }, InviteActionView::Leave),
            Key::Esc => (InviteView { stage: Stage::Cancelled, ..p }, InviteActionView::Leave),
            Key::Backspace => (
                InviteView {
                    input: if p.input.len() > 0 {
                        p.input.drop_last()
                    } else {
                        p.input
                    },
                    ..p
                },
                InviteActionView::Wait,
            ),
            Key::Enter => if trimmed(p.input).len() > 0 {
                (
                    InviteView { stage: Stage::Checking, ..p },
                    InviteActionView::Check { code: trimmed(p.input) },
                )
            } else {
                (p, InviteActionView::Wait)
            },
            Key::Char(c) => if encode_utf8(p.input).len() < INVITE_MAX_LEN {
                (InviteView { input: p.input.push(c), ..p }, InviteActionView::Wait)
            } else {
                (p, InviteActionView::Wait)
            },
            _ => (p, InviteActionView::Wait),
        }
    }
}

/// The prompt after the store's answer: a consumed code lets the operator
/// in, an unknown one clears the line, and a failure (`None`) keeps the
/// line for another try.
pub open spec fn after_invite_answer(p: InviteView, answer: Option<bool>) -> (
    InviteView,
    InviteActionView,
) {
    if p.stage != Stage::Checking {
        (p, InviteActionView::Wait)
    } else {
        match answer {
            Some(true) => (InviteView { stage: Stage::Accepted, ..p }, InviteActionView::Enter),
            Some(false) => (
                InviteView { input: Seq::empty(), stage: Stage::Typing, ..p },
                InviteActionView::Wait,
            ),
            None => (InviteView { stage: Stage::Typing, ..p }, InviteActionView::Wait),
        }
    }
}

/// The banner's colour in a phase: cyan, magenta and blue in turn.
pub open spec fn color_of(phase: u8) -> BannerColor {
    if phase % 3 == 0 {
        BannerColor::Cyan
    } else if phase % 3 == 1 {
        BannerColor::Magenta
    } else {
        BannerColor::Blue
    }
}

impl View for Invite {
    type V = InviteView;

    closed spec fn view(&self) -> InviteView {
        InviteView { input: self.input@, phase: self.phase, stage: self.stage }
    }
}

impl Invite {
    /// A prompt with an empty line.
    pub fn new() -> (p: Invite)
        ensures
            p@ == (InviteView { input: Seq::empty(), phase: 0, stage: Stage::Typing }),
    {
        Invite { input: String::new(), phase: 0, stage: Stage::Typing }
    }

    /// The line that is being typed.
    pub fn input(&self) -> (r: &str)
        ensures
            r@ == self@.input,
    {
        self.input.as_str()
    }

    /// Where the prompt stands.
    pub fn stage(&self) -> (r: Stage)
        ensures
            r == self@.stage,
    {
        self.stage
    }

    /// Applies a key press.
    pub fn handle_key(&mut self, key: Key) -> (a: InviteAction)
        ensures
            (final(self)@, a@) == after_invite_key(old(self)@, key),
    {
        match self.stage {
            Stage::Typing => {},
            _ => {
                return InviteAction::Wait;
            },
        }
        match key {
            Key::CtrlC => {
                self.stage = Stage::Cancelled;
                InviteAction::Leave
            },
            Key::Esc => {
                self.stage = Stage::Cancelled;
                InviteAction::Leave
            },
            Key::Backspace => {
                self.input = without_last(self.input.as_str());
                InviteAction::Wait
            },
            Key::Enter => {
                let code = trim(self.input.as_str());
                if code.as_str().is_empty() {
                    InviteAction::Wait
                } else {
                    self.stage = Stage::Checking;
                    InviteAction::Check { code }
                }
            },
            Key::Char(c) => {
                if self.input.as_str().as_bytes().len() < INVITE_MAX_LEN {
                    self.input.push(c);
                }
                InviteAction::Wait
            },
            _ => InviteAction::Wait,
        }
    }

    /// Applies the store's answer to the code that was offered; `None`
    /// where the store failed.
    pub fn handle_answer(&mut self, answer: Option<bool>) -> (a: InviteAction)
        ensures
            (final(self)@, a@) == after_invite_answer(old(self)@, answer),
    {
        match self.stage {
            Stage::Checking => {},
            _ => {
                return InviteAction::Wait;
            },
        }
        match answer {
            Some(true) => {
                self.stage = Stage::Accepted;
                InviteAction::Enter
            },
            Some(false) => {
                self.input = String::new();
                self.stage = Stage::Typing;
                InviteAction::Wait
            },
            None => {
                self.stage = Stage::Typing;
                InviteAction::Wait
            },
        }
    }

    /// Moves the banner on by one phase, wrapping round.
    pub fn tick(&mut self)
        ensures
            final(self)@ == (InviteView { phase: old(self)@.phase.wrapping_add(1), ..old(self)@ }),
    {
        self.phase = self.phase.wrapping_add(1);
    }

    /// The banner's colour.
    pub fn banner_color(&self) -> (c: BannerColor)
        ensures
            c == color_of(self@.phase),
    {
        let turn = self.phase % 3;
        if turn == 0 {
            BannerColor::Cyan
        } else if turn == 1 {
            BannerColor::Magenta
        } else {
            BannerColor::Blue
        }
    }
}

} // verus!
