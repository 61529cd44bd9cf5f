use vstd::prelude::*;

use crate::input_queue::KeyPress;
use crate::text_format::push_str;

verus! {

/// An arrow key.
#[derive(Debug, Eq, PartialEq, Clone, Copy, Structural)]
pub enum InputKey {
    Up,
    Down,
    Left,
    Right,
}

impl InputKey {
    /// The name of the key.
    pub open spec fn spec_name(self) -> Seq<char> {
        match self {
            InputKey::Up => "Up"@,
            InputKey::Down => "Down"@,
            InputKey::Left => "Left"@,
            InputKey::Right => "Right"@,
        }
    }

    pub fn to_string(&self) -> (r: String)
        ensures
            r@ == self.spec_name(),
    {
        let mut text = String::new();
        match self {
            InputKey::Up => push_str(&mut text, "Up"),
            InputKey::Down => push_str(&mut text, "Down"),
            InputKey::Left => push_str(&mut text, "Left"),
            InputKey::Right => push_str(&mut text, "Right"),
        }
        proof {
            assert(text@ =~= self.spec_name());
        }
        text
    }

    /// The arrow key pressed, if an arrow was pressed.
    pub open spec fn spec_from_key(key: KeyPress) -> Option<InputKey> {
        match key {
            KeyPress::Up => Some(InputKey::Up),
            KeyPress::Down => Some(InputKey::Down),
            KeyPress::Left => Some(InputKey::Left),
            KeyPress::Right => Some(InputKey::Right),
            _ => None,
        }
    }

    pub fn from_key(key: KeyPress) -> (r: Option<Self>)
        ensures
            r == Self::spec_from_key(key),
    {
        match key {
            KeyPress::Up => Some(Self::Up),
            KeyPress::Down => Some(Self::Down),
            KeyPress::Left => Some(Self::Left),
            KeyPress::Right => Some(Self::Right),
            _ => None,
        }
    }
}

} // verus!
