use vstd::prelude::*;

use std::collections::VecDeque;

use crate::movement::MoveDirection;

verus! {

/// A key press as the terminal reports it, reduced to what the game reads.
#[derive(Debug, Eq, PartialEq, Clone, Copy, Structural)]
pub enum KeyPress {
    Up,
    Down,
    Left,
    Right,
    Char(char),
    Other,
}

/// A player command.
#[derive(Debug, Eq, PartialEq, Clone, Copy, Structural)]
pub enum InputKey {
    Move(MoveDirection),
    Quit,
    Reset,
    Pause,
    Other,
}

impl InputKey {
    pub const QUIT_CHARACTER: char = 'q';

    pub const PAUSE_CHARACTER: char = 'p';

    pub const RESET_CHARACTER: char = 'r';

    /// Arrows move; `q`, `p` and `r` quit, pause and reset; anything else is other.
    pub open spec fn spec_from_key(key: KeyPress) -> InputKey {
        match key {
            KeyPress::Up => InputKey::Move(MoveDirection::Up),
            KeyPress::Down => InputKey::Move(MoveDirection::Down),
            KeyPress::Left => InputKey::Move(MoveDirection::Left),
            KeyPress::Right => InputKey::Move(MoveDirection::Right),
            KeyPress::Char(c) => if c == Self::QUIT_CHARACTER {
                InputKey::Quit
            } else if c == Self::PAUSE_CHARACTER {
                InputKey::Pause
            } else if c == Self::RESET_CHARACTER {
                InputKey::Reset
            } else {
                InputKey::Other
            },
            KeyPress::Other => InputKey::Other,
        }
    }

    pub fn from_key(key: KeyPress) -> (r: Self)
        ensures
            r == Self::spec_from_key(key),
    {
        match key {
            KeyPress::Up => Self::Move(MoveDirection::Up),
            KeyPress::Down => Self::Move(MoveDirection::Down),
            KeyPress::Left => Self::Move(MoveDirection::Left),
            KeyPress::Right => Self::Move(MoveDirection::Right),
            KeyPress::Char(c) => {
                if c == Self::QUIT_CHARACTER {
                    Self::Quit
                } else if c == Self::PAUSE_CHARACTER {
                    Self::Pause
                } else if c == Self::RESET_CHARACTER {
                    Self::Reset
                } else {
                    Self::Other
                }
            },
            KeyPress::Other => Self::Other,
        }
    }
}

/// the input queue stores up to `InputQueue::MAX_ITEMS` items; pushing onto a full queue
/// discards the oldest item
#[derive(Debug)]
pub struct InputQueue(VecDeque<InputKey>);

/// The queue after pushing `value` onto `queue`.
pub open spec fn spec_pushed(queue: Seq<InputKey>, value: InputKey) -> Seq<InputKey> {
    if queue.len() == InputQueue::MAX_ITEMS {
        queue.subrange(1, queue.len() as int).push(value)
    } else {
        queue.push(value)
    }
}

impl InputQueue {
    pub const MAX_ITEMS: usize = 10;

    pub closed spec fn view(&self) -> Seq<InputKey> {
        self.0@
    }

    /// Never more than `MAX_ITEMS` items.
    pub open spec fn wf(&self) -> bool {
        self@.len() <= Self::MAX_ITEMS
    }

    pub fn new() -> (r: Self)
        ensures
            r@ == Seq::<InputKey>::empty(),
            r.wf(),
    {
        Self(Self::empty_inner())
    }

    fn empty_inner() -> (r: VecDeque<InputKey>)
        ensures
            r@ == Seq::<InputKey>::empty(),
    {
        VecDeque::with_capacity(Self::MAX_ITEMS)
    }

    pub fn len(&self) -> (r: usize)
        ensures
            r == self@.len(),
    {
        self.0.len()
    }

    /// returns current queue and leaves inner queue cleared
    pub fn flush(&mut self) -> (r: VecDeque<InputKey>)
        ensures
            r@ == old(self)@,
            final(self)@ == Seq::<InputKey>::empty(),
            final(self).wf(),
    {
        let mut flushed_queue = Self::empty_inner();
        core::mem::swap(&mut flushed_queue, &mut self.0);
        flushed_queue
    }

    /// will remove first item if size is at max
    pub fn push_back(&mut self, value: InputKey)
        requires
            old(self).wf(),
        ensures
            final(self)@ == spec_pushed(old(self)@, value),
            final(self).wf(),
    {
        self.pop_if_full();
        self.0.push_back(value);
    }

    fn pop_if_full(&mut self) -> (r: Option<InputKey>)
        requires
            old(self).wf(),
        ensures
            old(self)@.len() == Self::MAX_ITEMS ==> {
                &&& r == Some(old(self)@[0])
                &&& final(self)@ == old(self)@.subrange(1, old(self)@.len() as int)
            },
            old(self)@.len() < Self::MAX_ITEMS ==> r is None && final(self)@ == old(self)@,
    {
        if self.0.len() == Self::MAX_ITEMS {
            self.0.pop_front()
        } else {
            None
        }
    }
}

/// Pushing keeps the queue within `MAX_ITEMS`, and what it holds is the newest pushes
/// in order: the old contents with `value` appended, minus the oldest item when full.
pub proof fn lemma_push_keeps_newest(queue: Seq<InputKey>, value: InputKey)
    requires
        queue.len() <= InputQueue::MAX_ITEMS,
    ensures
        spec_pushed(queue, value).len() <= InputQueue::MAX_ITEMS,
        spec_pushed(queue, value).last() == value,
        spec_pushed(queue, value) == (queue.push(value)).subrange(
            (queue.push(value)).len() - spec_pushed(queue, value).len(),
            (queue.push(value)).len() as int,
        ),
{
    let pushed = spec_pushed(queue, value);
    let all = queue.push(value);
    assert(pushed =~= all.subrange(all.len() - pushed.len(), all.len() as int));
}

} // verus!
