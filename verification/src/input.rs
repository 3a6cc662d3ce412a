//! The keyboard grammar: a small modal machine that turns key names into
//! commands, one key at a time.

use crate::text::same_text;
use crate::text::chars_of;
use vstd::prelude::*;

verus! {

/// A command of the reader.
#[derive(Clone, Copy, Debug, PartialEq, Eq, Structural)]
pub enum Action {
    NextPage,
    PreviousPage,
    Leave,
    SetMark(char),
    FollowMark(char),
}

/// What the interpreter is waiting for.
#[derive(Clone, Copy, Debug, PartialEq, Eq, Structural)]
pub enum State {
    /// No command is pending.
    Normal,
    /// `m` was pressed: the next key names the mark to set.
    AwaitingMarkChar,
    /// `g` was pressed: the next key names the mark to go to.
    AwaitingGotoChar,
}

/// The modifier keys that were held while a key was released.
#[derive(Clone, Copy, Debug, PartialEq, Eq, Structural)]
pub struct Modifiers {
    pub alt: bool,
    pub shift: bool,
    pub meta: bool,
    pub ctrl: bool,
}

impl Modifiers {
    /// Whether any modifier key was held.
    pub open spec fn any(self) -> bool {
        self.alt || self.shift || self.meta || self.ctrl
    }
}

/// The interpreter of key names.
pub struct Handler {
    state: State,
}

impl View for Handler {
    type V = State;

    closed spec fn view(&self) -> State {
        self.state
    }
}

/// The mark that a key names: the key's one character, where the key is a
/// single lowercase letter.
pub open spec fn mark_name(key: Seq<char>) -> Option<char> {
    if key.len() == 1 && 'a' <= key[0] <= 'z' {
        Some(key[0])
    } else {
        None
    }
}

/// One step of the interpreter: the state after `key`, and the command that
/// the key completes, if it completes one.
pub open spec fn step(state: State, key: Seq<char>) -> (State, Option<Action>) {
    match state {
        State::Normal => {
            if key == "ArrowRight"@ {
                (State::Normal, Some(Action::NextPage))
            } else if key == "ArrowLeft"@ {
                (State::Normal, Some(Action::PreviousPage))
            } else if key == "m"@ {
                (State::AwaitingMarkChar, None)
            } else if key == "g"@ {
                (State::AwaitingGotoChar, None)
            } else if key == "Escape"@ {
                (State::Normal, Some(Action::Leave))
            } else {
                (State::Normal, None)
            }
        },
        State::AwaitingMarkChar => (
            State::Normal,
            match mark_name(key) {
                Some(name) => Some(Action::SetMark(name)),
                None => None,
            },
        ),
        State::AwaitingGotoChar => (
            State::Normal,
            match mark_name(key) {
                Some(name) => Some(Action::FollowMark(name)),
                None => None,
            },
        ),
    }
}

/// The mark that `input` names, if it is a single lowercase letter.
pub fn get_char(input: &str) -> (name: Option<char>)
    ensures
        name == mark_name(input@),
{
    let chars = chars_of(input);
    if chars.len() == 1 && chars[0] >= 'a' && chars[0] <= 'z' {
        Some(chars[0])
    } else {
        None
    }
}

impl Handler {
    /// An interpreter with no command pending.
    pub fn new() -> (handler: Self)
        ensures
            handler@ == State::Normal,
    {
        Self { state: State::Normal }
    }

    /// What the interpreter is waiting for.
    pub fn state(&self) -> (state: State)
        ensures
            state == self@,
    {
        self.state
    }

    /// Takes one key name and gives the command that it completes, if any.
    pub fn handle(&mut self, input: &str) -> (action: Option<Action>)
        ensures
            (final(self)@, action) == step(old(self)@, input@),
    {
        match self.state {
            State::Normal => {
                if same_text(input, "ArrowRight") {
                    Some(Action::NextPage)
                } else if same_text(input, "ArrowLeft") {
                    Some(Action::PreviousPage)
                } else if same_text(input, "m") {
                    self.state = State::AwaitingMarkChar;
                    None
                } else if same_text(input, "g") {
                    self.state = State::AwaitingGotoChar;
                    None
                } else if same_text(input, "Escape") {
                    Some(Action::Leave)
                } else {
                    None
                }
            },
            State::AwaitingMarkChar => {
                self.state = State::Normal;
                match get_char(input) {
                    Some(name) => Some(Action::SetMark(name)),
                    None => None,
                }
            },
            State::AwaitingGotoChar => {
                self.state = State::Normal;
                match get_char(input) {
                    Some(name) => Some(Action::FollowMark(name)),
                    None => None,
                }
            },
        }
    }

    /// Takes one key event. A key released while a modifier is held never
    /// reaches the interpreter: it completes nothing and leaves a pending
    /// command pending.
    pub fn keyup(&mut self, key: &str, held: Modifiers) -> (action: Option<Action>)
        ensures
            held.any() ==> final(self)@ == old(self)@ && action is None,
            !held.any() ==> (final(self)@, action) == step(old(self)@, key@),
    {
        if held.alt || held.shift || held.meta || held.ctrl {
            None
        } else {
            self.handle(key)
        }
    }
}

/// A key that completes a command leaves no command pending, and so does
/// every key that follows `m` or `g`.
pub proof fn lemma_command_resets(state: State, key: Seq<char>)
    ensures
        step(state, key).1 is Some ==> step(state, key).0 == State::Normal,
        state != State::Normal ==> step(state, key).0 == State::Normal,
{
}

/// `m` and then a lowercase letter sets the mark of that letter, `g` and then
/// a lowercase letter goes to it, and each is a single command.
pub proof fn lemma_two_key_commands(name: char)
    requires
        'a' <= name <= 'z',
    ensures
        step(State::Normal, "m"@) == (State::AwaitingMarkChar, None::<Action>),
        step(State::AwaitingMarkChar, seq![name]) == (State::Normal, Some(Action::SetMark(name))),
        step(State::Normal, "g"@) == (State::AwaitingGotoChar, None::<Action>),
        step(State::AwaitingGotoChar, seq![name]) == (State::Normal, Some(Action::FollowMark(name))),
{
    reveal_strlit("ArrowRight");
    reveal_strlit("ArrowLeft");
    reveal_strlit("m");
    reveal_strlit("g");
    reveal_strlit("Escape");
}

/// Any key but a single lowercase letter cancels a pending command: nothing
/// is emitted and the interpreter is back in its normal state.
pub proof fn lemma_pending_cancelled(state: State, key: Seq<char>)
    requires
        state != State::Normal,
        mark_name(key) is None,
    ensures
        step(state, key) == (State::Normal, None::<Action>),
{
}

} // verus!
