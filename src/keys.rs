use vstd::prelude::*;
use crate::machine::{App, Effect, EffectModel, Input, effect_of, next};

verus! {

/// A physical key, as far as the task list tells keys apart.
#[derive(Clone, Copy, Debug, PartialEq, Eq, Structural)]
pub enum Key {
    Char(char),
    Up,
    Down,
    Enter,
    Esc,
    Backspace,
    Other,
}

/// The input symbol a key stands for; `editing` tells whether text is being
/// entered. `q` quits in either mode. While entering text every other
/// character is typed; while navigating `d` deletes and `n` starts text entry.
pub open spec fn input_of(key: Key, editing: bool) -> Option<Input> {
    match key {
        Key::Char(c) => if c == 'q' {
            Some(Input::Quit)
        } else if editing {
            Some(Input::AppendChar(c))
        } else if c == 'd' {
            Some(Input::DeleteSelected)
        } else if c == 'n' {
            Some(Input::EnterEditMode)
        } else {
            None
        },
        Key::Up => Some(Input::MoveUp),
        Key::Down => Some(Input::MoveDown),
        Key::Enter => Some(Input::Confirm),
        Key::Esc => Some(Input::CancelEdit),
        Key::Backspace => Some(Input::Backspace),
        Key::Other => None,
    }
}

pub fn input_for_key(key: Key, editing: bool) -> (r: Option<Input>)
    ensures
        r == input_of(key, editing),
{
    match key {
        Key::Char(c) => if c == 'q' {
            Some(Input::Quit)
        } else if editing {
            Some(Input::AppendChar(c))
        } else if c == 'd' {
            Some(Input::DeleteSelected)
        } else if c == 'n' {
            Some(Input::EnterEditMode)
        } else {
            None
        },
        Key::Up => Some(Input::MoveUp),
        Key::Down => Some(Input::MoveDown),
        Key::Enter => Some(Input::Confirm),
        Key::Esc => Some(Input::CancelEdit),
        Key::Backspace => Some(Input::Backspace),
        Key::Other => None,
    }
}

impl App {
    /// Processes one key press; a key that stands for no input changes nothing.
    pub fn handle_key(&mut self, key: Key) -> (e: Effect)
        requires
            old(self).wf(),
        ensures
            final(self).wf(),
            match input_of(key, old(self)@.entry is Some) {
                Some(input) => final(self)@ == next(old(self)@, input) && e@ == effect_of(old(self)@, input),
                None => final(self)@ == old(self)@ && e@ == EffectModel::Nothing,
            },
    {
        match input_for_key(key, self.is_editing()) {
            Some(input) => self.handle_input(input),
            None => Effect::Nothing,
        }
    }
}

} // verus!
