use vstd::prelude::*;

use std::collections::VecDeque;

use crate::board::{BOARD_SIZE_X, BOARD_SIZE_Y};
use crate::game_object::{spec_uuid_text, GameObjectId};
use crate::text_format::push_str;
use crate::geometry::{Bounds, Vector2Int};
use crate::input_queue::{spec_pushed, InputKey, InputQueue};
use crate::movement::MoveDirection;

verus! {

/// Time between two rendered frames, in nanoseconds (1000 / 60 whole milliseconds).
pub const FRAME_INTERVAL_NANOS: u64 = 16_000_000;

#[derive(Debug, Clone, Copy, PartialEq, Eq, Structural)]
pub enum GameSignal {
    Over,
    Reset,
    PauseChanged { is_paused: bool },
}

#[derive(Debug, Clone, Copy, PartialEq, Eq, Structural)]
pub enum GameUpdate {
    Continue,
    Quit,
}

#[derive(Debug, Clone, Copy, PartialEq, Eq, Structural)]
pub enum GameState {
    NotStarted,
    InGame,
    Paused,
    GameOver,
}

/// A request the current state does not allow.
#[derive(Debug, Clone, Copy, PartialEq, Eq, Structural)]
pub enum GameError {
    AlreadyStarted,
    NotPaused,
}

impl GameError {
    pub fn message(&self) -> (r: &'static str)
        ensures
            *self == GameError::AlreadyStarted ==> r@ == "game already started, it cannot be started."@,
            *self == GameError::NotPaused ==> r@ == "game is not paused, it cannot be unpaused."@,
    {
        match self {
            GameError::AlreadyStarted => "game already started, it cannot be started.",
            GameError::NotPaused => "game is not paused, it cannot be unpaused.",
        }
    }
}

#[derive(Debug, Clone, Copy, PartialEq, Eq, Structural)]
pub enum InsertObjectError {
    ObjectAlreadyPlaced { id: GameObjectId },
}

impl InsertObjectError {
    /// The error as text, naming the object by its UUID.
    pub fn message(&self) -> (r: String)
        ensures
            match *self {
                InsertObjectError::ObjectAlreadyPlaced { id } => r@ == "object "@ + spec_uuid_text(id.spec_value())
                    + " is already placed"@,
            },
    {
        match self {
            InsertObjectError::ObjectAlreadyPlaced { id } => {
                let mut text = String::new();
                push_str(&mut text, "object ");
                let id_text = id.to_string();
                push_str(&mut text, id_text.as_str());
                push_str(&mut text, " is already placed");
                text
            },
        }
    }
}

/// What applying an input asks of the world around the game: move handlers to run, or a
/// signal to emit.
#[derive(Debug, Clone, Copy, PartialEq, Eq, Structural)]
pub enum GameEvent {
    Moved(MoveDirection),
    Signal(GameSignal),
}

/// The result of applying queued inputs.
pub struct InputOutcome {
    pub state: GameState,
    pub update: GameUpdate,
    pub events: Seq<GameEvent>,
}

/// The state a pause toggle leaves: paused unless it was paused, then in game.
pub open spec fn spec_toggled(state: GameState) -> GameState {
    if state != GameState::Paused {
        GameState::Paused
    } else {
        GameState::InGame
    }
}

/// Applies the keys from index `from` on, starting in `state`. After game over only a
/// reset is heard and nothing after the first key; quit stops at once; a move starts or
/// unpauses the game and reaches the move handlers; pause toggles; reset restarts a game in
/// play; any other key starts a game that has not started.
pub open spec fn spec_apply_inputs(state: GameState, keys: Seq<InputKey>, from: int) -> InputOutcome
    decreases keys.len() - from,
{
    if from < 0 || from >= keys.len() {
        InputOutcome { state, update: GameUpdate::Continue, events: Seq::empty() }
    } else {
        let key = keys[from];
        if state == GameState::GameOver {
            if key == InputKey::Reset {
                InputOutcome {
                    state: GameState::NotStarted,
                    update: GameUpdate::Continue,
                    events: seq![GameEvent::Signal(GameSignal::Reset)],
                }
            } else {
                InputOutcome { state, update: GameUpdate::Continue, events: Seq::empty() }
            }
        } else {
            match key {
                InputKey::Quit => InputOutcome { state, update: GameUpdate::Quit, events: Seq::empty() },
                InputKey::Move(direction) => {
                    let rest = spec_apply_inputs(GameState::InGame, keys, from + 1);
                    InputOutcome { events: seq![GameEvent::Moved(direction)] + rest.events, ..rest }
                },
                InputKey::Pause => {
                    let next = spec_toggled(state);
                    let rest = spec_apply_inputs(next, keys, from + 1);
                    InputOutcome {
                        events: seq![GameEvent::Signal(GameSignal::PauseChanged { is_paused: next == GameState::Paused })]
                            + rest.events,
                        ..rest
                    }
                },
                InputKey::Reset => if state == GameState::InGame {
                    let rest = spec_apply_inputs(GameState::NotStarted, keys, from + 1);
                    InputOutcome { events: seq![GameEvent::Signal(GameSignal::Reset)] + rest.events, ..rest }
                } else {
                    spec_apply_inputs(state, keys, from + 1)
                },
                InputKey::Other => if state == GameState::NotStarted {
                    spec_apply_inputs(GameState::InGame, keys, from + 1)
                } else {
                    spec_apply_inputs(state, keys, from + 1)
                },
            }
        }
    }
}

/// Pausing twice returns a game in play, or a paused one, to where it was.
pub proof fn lemma_pause_twice_restores(state: GameState)
    requires
        state == GameState::InGame || state == GameState::Paused,
    ensures
        spec_toggled(spec_toggled(state)) == state,
{
}

/// After game over only a reset is heard, and nothing after the first key: a reset first
/// returns the game to its start and announces it, anything else leaves it over.
pub proof fn lemma_game_over_hears_only_reset(keys: Seq<InputKey>)
    ensures
        ({
            let outcome = spec_apply_inputs(GameState::GameOver, keys, 0);
            &&& outcome.update == GameUpdate::Continue
            &&& if keys.len() > 0 && keys[0] == InputKey::Reset {
                outcome.state == GameState::NotStarted && outcome.events == seq![GameEvent::Signal(GameSignal::Reset)]
            } else {
                outcome.state == GameState::GameOver && outcome.events.len() == 0
            }
        }),
{
}

/// A reset is heard only in play and after game over: in any other state (not started,
/// paused) a reset key changes nothing, and the keys after it are applied as if it had never
/// been pressed.
pub proof fn lemma_reset_heard_only_in_play(state: GameState, rest: Seq<InputKey>)
    requires
        state != GameState::InGame,
        state != GameState::GameOver,
    ensures
        spec_apply_inputs(state, seq![InputKey::Reset] + rest, 0) == spec_apply_inputs(state, rest, 0),
        spec_apply_inputs(state, seq![InputKey::Reset], 0) == (InputOutcome {
            state,
            update: GameUpdate::Continue,
            events: Seq::empty(),
        }),
{
    let keys = seq![InputKey::Reset] + rest;
    assert(keys[0] == InputKey::Reset);
    lemma_apply_suffix(state, keys, 1);
    assert(keys.subrange(1, keys.len() as int) =~= rest);
    let single = seq![InputKey::Reset];
    lemma_apply_suffix(state, single, 1);
    assert(single.subrange(1, 1) =~= Seq::<InputKey>::empty());
}

/// Applying keys from index `from` on is applying the keys that remain from the start.
proof fn lemma_apply_suffix(state: GameState, keys: Seq<InputKey>, from: int)
    requires
        0 <= from <= keys.len(),
    ensures
        spec_apply_inputs(state, keys, from) == spec_apply_inputs(state, keys.subrange(from, keys.len() as int), 0),
    decreases keys.len() - from,
{
    if from < keys.len() {
        let sub = keys.subrange(from, keys.len() as int);
        assert(sub.subrange(1, sub.len() as int) =~= keys.subrange(from + 1, keys.len() as int));
        assert(sub[0] == keys[from]);
        lemma_apply_suffix(GameState::InGame, keys, from + 1);
        lemma_apply_suffix(GameState::InGame, sub, 1);
        lemma_apply_suffix(GameState::NotStarted, keys, from + 1);
        lemma_apply_suffix(GameState::NotStarted, sub, 1);
        lemma_apply_suffix(spec_toggled(state), keys, from + 1);
        lemma_apply_suffix(spec_toggled(state), sub, 1);
        lemma_apply_suffix(state, keys, from + 1);
        lemma_apply_suffix(state, sub, 1);
    } else {
        assert(keys.subrange(from, keys.len() as int) =~= Seq::<InputKey>::empty());
    }
}

/// A quit key ends the handling of keys: the ones after it are not applied.
pub proof fn lemma_quit_ignores_later_keys(state: GameState, rest: Seq<InputKey>)
    requires
        state != GameState::GameOver,
    ensures
        spec_apply_inputs(state, seq![InputKey::Quit] + rest, 0) == (InputOutcome {
            state,
            update: GameUpdate::Quit,
            events: Seq::empty(),
        }),
{
    assert((seq![InputKey::Quit] + rest)[0] == InputKey::Quit);
}

/// The elapsed frame time after `delta` nanoseconds, capped at the frame interval.
pub open spec fn spec_frame_time(elapsed: u64, delta: u64) -> u64 {
    if elapsed + delta < FRAME_INTERVAL_NANOS {
        (elapsed + delta) as u64
    } else {
        FRAME_INTERVAL_NANOS
    }
}

/// The cells a game is played in: inside the walls, without the last row and column
/// before them.
pub open spec fn spec_game_playable_bounds() -> Bounds {
    Bounds {
        start: Vector2Int { x: 1, y: 1 },
        end: Vector2Int { x: (BOARD_SIZE_X - 2) as i32, y: (BOARD_SIZE_Y - 2) as i32 },
    }
}

/// The rules of a game session: its state, queued inputs, frame pacing and the objects
/// placed in it, in render order.
pub struct Game {
    object_render_order: Vec<GameObjectId>,
    playable_bounds: Bounds,
    state: GameState,
    input_queue: InputQueue,
    frame_time_elapsed: u64,
}

impl Game {
    pub closed spec fn spec_state(&self) -> GameState {
        self.state
    }

    pub closed spec fn spec_inputs(&self) -> Seq<InputKey> {
        self.input_queue@
    }

    pub closed spec fn spec_objects(&self) -> Seq<GameObjectId> {
        self.object_render_order@
    }

    pub closed spec fn spec_frame_time_elapsed(&self) -> u64 {
        self.frame_time_elapsed
    }

    pub closed spec fn spec_playable_bounds(&self) -> Bounds {
        self.playable_bounds
    }

    /// At most `InputQueue::MAX_ITEMS` queued inputs, no object placed twice, frame time
    /// within one interval, and the standard playable bounds.
    pub closed spec fn wf(&self) -> bool {
        &&& self.input_queue.wf()
        &&& self.object_render_order@.no_duplicates()
        &&& self.frame_time_elapsed <= FRAME_INTERVAL_NANOS
        &&& self.playable_bounds == spec_game_playable_bounds()
    }

    pub fn new() -> (r: Self)
        ensures
            r.wf(),
            r.spec_state() == GameState::NotStarted,
            r.spec_inputs() == Seq::<InputKey>::empty(),
            r.spec_objects() == Seq::<GameObjectId>::empty(),
            r.spec_frame_time_elapsed() == 0,
            r.spec_playable_bounds() == spec_game_playable_bounds(),
    {
        Self {
            object_render_order: Vec::new(),
            playable_bounds: Bounds {
                start: Vector2Int::new(1, 1),
                end: Vector2Int::new((BOARD_SIZE_X - 2) as i32, (BOARD_SIZE_Y - 2) as i32),
            },
            state: GameState::NotStarted,
            input_queue: InputQueue::new(),
            frame_time_elapsed: 0,
        }
    }

    pub fn playable_bounds(&self) -> (r: Bounds)
        ensures
            r == self.spec_playable_bounds(),
    {
        self.playable_bounds
    }

    /// A well-formed game is played in the standard bounds.
    pub proof fn lemma_playable_bounds(&self)
        requires
            self.wf(),
        ensures
            self.spec_playable_bounds() == spec_game_playable_bounds(),
    {
    }

    pub fn state(&self) -> (r: GameState)
        ensures
            r == self.spec_state(),
    {
        self.state
    }

    /// The placed objects, in render order.
    pub fn object_render_order(&self) -> (r: &Vec<GameObjectId>)
        ensures
            r@ == self.spec_objects(),
    {
        &self.object_render_order
    }

    /// Places an object in render order; an id is placed once only.
    #[verifier::loop_isolation(false)]
    pub fn insert_object(&mut self, id: GameObjectId) -> (r: Result<(), InsertObjectError>)
        requires
            old(self).wf(),
        ensures
            final(self).wf(),
            final(self).spec_state() == old(self).spec_state(),
            final(self).spec_inputs() == old(self).spec_inputs(),
            final(self).spec_frame_time_elapsed() == old(self).spec_frame_time_elapsed(),
            final(self).spec_playable_bounds() == old(self).spec_playable_bounds(),
            old(self).spec_objects().contains(id) ==> {
                &&& r == Err::<(), InsertObjectError>(InsertObjectError::ObjectAlreadyPlaced { id })
                &&& final(self).spec_objects() == old(self).spec_objects()
            },
            !old(self).spec_objects().contains(id) ==> {
                &&& r is Ok
                &&& final(self).spec_objects() == old(self).spec_objects().push(id)
            },
    {
        let mut i: usize = 0;
        while i < self.object_render_order.len()
            invariant
                i <= self.object_render_order@.len(),
                forall|j: int| 0 <= j < i ==> self.object_render_order@[j] != id,
            decreases self.object_render_order@.len() - i,
        {
            if self.object_render_order[i] == id {
                assert(self.object_render_order@[i as int] == id);
                return Err(InsertObjectError::ObjectAlreadyPlaced { id });
            }
            i = i + 1;
        }
        self.object_render_order.push(id);
        proof {
            let ids = self.object_render_order@;
            assert forall|a: int, b: int| 0 <= a < ids.len() && 0 <= b < ids.len() && a != b implies ids[a] != ids[b] by {
                if a < ids.len() - 1 && b < ids.len() - 1 {
                    assert(old(self).object_render_order@[a] == ids[a]);
                    assert(old(self).object_render_order@[b] == ids[b]);
                } else if a == ids.len() - 1 {
                    assert(old(self).object_render_order@[b] == ids[b]);
                } else {
                    assert(old(self).object_render_order@[a] == ids[a]);
                }
            }
        }
        Ok(())
    }

    /// Queues a key, if there is one.
    pub fn queue_input(&mut self, input_key: Option<InputKey>)
        requires
            old(self).wf(),
        ensures
            final(self).wf(),
            final(self).spec_state() == old(self).spec_state(),
            final(self).spec_objects() == old(self).spec_objects(),
            final(self).spec_frame_time_elapsed() == old(self).spec_frame_time_elapsed(),
            final(self).spec_playable_bounds() == old(self).spec_playable_bounds(),
            final(self).spec_inputs() == match input_key {
                Some(key) => spec_pushed(old(self).spec_inputs(), key),
                None => old(self).spec_inputs(),
            },
    {
        match input_key {
            Some(input_key) => self.input_queue.push_back(input_key),
            None => {},
        }
    }

    /// Takes every queued key, oldest first.
    pub fn flush_input(&mut self) -> (r: VecDeque<InputKey>)
        requires
            old(self).wf(),
        ensures
            final(self).wf(),
            r@ == old(self).spec_inputs(),
            final(self).spec_inputs() == Seq::<InputKey>::empty(),
            final(self).spec_state() == old(self).spec_state(),
            final(self).spec_objects() == old(self).spec_objects(),
            final(self).spec_frame_time_elapsed() == old(self).spec_frame_time_elapsed(),
            final(self).spec_playable_bounds() == old(self).spec_playable_bounds(),
    {
        self.input_queue.flush()
    }

    /// Starts a game that has not started.
    pub fn start(&mut self) -> (r: Result<(), GameError>)
        ensures
            final(self).wf() == old(self).wf(),
            final(self).spec_inputs() == old(self).spec_inputs(),
            final(self).spec_objects() == old(self).spec_objects(),
            final(self).spec_frame_time_elapsed() == old(self).spec_frame_time_elapsed(),
            final(self).spec_playable_bounds() == old(self).spec_playable_bounds(),
            old(self).spec_state() == GameState::NotStarted ==> r is Ok && final(self).spec_state() == GameState::InGame,
            old(self).spec_state() != GameState::NotStarted ==> r == Err::<(), GameError>(GameError::AlreadyStarted)
                && final(self).spec_state() == old(self).spec_state(),
    {
        if self.state != GameState::NotStarted {
            return Err(GameError::AlreadyStarted);
        }
        self.state = GameState::InGame;
        Ok(())
    }

    /// Ends the game; returns the signal that announces it.
    pub fn end(&mut self) -> (r: GameSignal)
        ensures
            final(self).wf() == old(self).wf(),
            final(self).spec_inputs() == old(self).spec_inputs(),
            final(self).spec_objects() == old(self).spec_objects(),
            final(self).spec_frame_time_elapsed() == old(self).spec_frame_time_elapsed(),
            final(self).spec_playable_bounds() == old(self).spec_playable_bounds(),
            final(self).spec_state() == GameState::GameOver,
            r == GameSignal::Over,
    {
        self.state = GameState::GameOver;
        GameSignal::Over
    }

    /// Resumes a paused game.
    pub fn unpause(&mut self) -> (r: Result<(), GameError>)
        ensures
            final(self).wf() == old(self).wf(),
            final(self).spec_inputs() == old(self).spec_inputs(),
            final(self).spec_objects() == old(self).spec_objects(),
            final(self).spec_frame_time_elapsed() == old(self).spec_frame_time_elapsed(),
            final(self).spec_playable_bounds() == old(self).spec_playable_bounds(),
            old(self).spec_state() == GameState::Paused ==> r is Ok && final(self).spec_state() == GameState::InGame,
            old(self).spec_state() != GameState::Paused ==> r == Err::<(), GameError>(GameError::NotPaused)
                && final(self).spec_state() == old(self).spec_state(),
    {
        if self.state != GameState::Paused {
            return Err(GameError::NotPaused);
        }
        self.state = GameState::InGame;
        Ok(())
    }

    /// Pauses, or resumes a paused game; returns the signal that announces the change.
    pub fn toggle_pause(&mut self) -> (r: GameSignal)
        ensures
            final(self).wf() == old(self).wf(),
            final(self).spec_inputs() == old(self).spec_inputs(),
            final(self).spec_objects() == old(self).spec_objects(),
            final(self).spec_frame_time_elapsed() == old(self).spec_frame_time_elapsed(),
            final(self).spec_playable_bounds() == old(self).spec_playable_bounds(),
            final(self).spec_state() == spec_toggled(old(self).spec_state()),
            r == (GameSignal::PauseChanged { is_paused: old(self).spec_state() != GameState::Paused }),
    {
        let is_paused = self.state != GameState::Paused;
        self.state = if is_paused {
            GameState::Paused
        } else {
            GameState::InGame
        };
        GameSignal::PauseChanged { is_paused }
    }

    /// Returns the game to its start; returns the signal that announces it.
    pub fn reset(&mut self) -> (r: GameSignal)
        ensures
            final(self).wf() == old(self).wf(),
            final(self).spec_inputs() == old(self).spec_inputs(),
            final(self).spec_objects() == old(self).spec_objects(),
            final(self).spec_frame_time_elapsed() == old(self).spec_frame_time_elapsed(),
            final(self).spec_playable_bounds() == old(self).spec_playable_bounds(),
            final(self).spec_state() == GameState::NotStarted,
            r == GameSignal::Reset,
    {
        self.state = GameState::NotStarted;
        GameSignal::Reset
    }

    /// Applies every queued key to the game state and empties the queue. Returns whether to
    /// go on or quit, and what the keys ask of the world, in order.
    pub fn apply_input(&mut self) -> (r: (GameUpdate, Vec<GameEvent>))
        requires
            old(self).wf(),
        ensures
            final(self).wf(),
            final(self).spec_inputs() == Seq::<InputKey>::empty(),
            final(self).spec_objects() == old(self).spec_objects(),
            final(self).spec_frame_time_elapsed() == old(self).spec_frame_time_elapsed(),
            final(self).spec_playable_bounds() == old(self).spec_playable_bounds(),
            ({
                let outcome = spec_apply_inputs(old(self).spec_state(), old(self).spec_inputs(), 0);
                &&& final(self).spec_state() == outcome.state
                &&& r.0 == outcome.update
                &&& r.1@ == outcome.events
            }),
    {
        let keys = self.flush_input();
        let ghost start_state = old(self).state;
        let mut events: Vec<GameEvent> = Vec::new();
        let mut i: usize = 0;
        while i < keys.len()
            invariant
                self.wf(),
                i <= keys@.len(),
                keys@ == old(self).input_queue@,
                start_state == old(self).state,
                self.input_queue@ == Seq::<InputKey>::empty(),
                self.object_render_order@ == old(self).object_render_order@,
                self.frame_time_elapsed == old(self).frame_time_elapsed,
                self.playable_bounds == old(self).playable_bounds,
                spec_apply_inputs(start_state, keys@, 0) == (InputOutcome {
                    events: events@ + spec_apply_inputs(self.state, keys@, i as int).events,
                    ..spec_apply_inputs(self.state, keys@, i as int)
                }),
            decreases keys@.len() - i,
        {
            let input_key = keys[i];
            let ghost state_before = self.state;
            let ghost events_before = events@;
            if self.state == GameState::GameOver {
                if input_key == InputKey::Reset {
                    let signal = self.reset();
                    events.push(GameEvent::Signal(signal));
                    assert(spec_apply_inputs(state_before, keys@, i as int) == InputOutcome {
                        state: GameState::NotStarted,
                        update: GameUpdate::Continue,
                        events: seq![GameEvent::Signal(GameSignal::Reset)],
                    });
                } else {
                    assert(spec_apply_inputs(state_before, keys@, i as int) == InputOutcome {
                        state: GameState::GameOver,
                        update: GameUpdate::Continue,
                        events: Seq::empty(),
                    });
                }
                proof {
                    assert(events@ =~= events_before + spec_apply_inputs(state_before, keys@, i as int).events);
                    let outcome = spec_apply_inputs(start_state, keys@, 0);
                    assert(outcome.state == self.state);
                    assert(outcome.update == GameUpdate::Continue);
                    assert(outcome.events =~= events@);
                }
                return (GameUpdate::Continue, events);
            }
            match input_key {
                InputKey::Quit => {
                    assert(spec_apply_inputs(state_before, keys@, i as int) == InputOutcome {
                        state: state_before,
                        update: GameUpdate::Quit,
                        events: Seq::empty(),
                    });
                    proof {
                        assert(events@ =~= events_before + spec_apply_inputs(state_before, keys@, i as int).events);
                        let outcome = spec_apply_inputs(start_state, keys@, 0);
                        assert(outcome.state == self.state);
                        assert(outcome.update == GameUpdate::Quit);
                        assert(outcome.events =~= events@);
                    }
                    return (GameUpdate::Quit, events);
                },
                InputKey::Move(direction) => {
                    if self.state == GameState::NotStarted {
                        let _ = self.start();
                    } else if self.state == GameState::Paused {
                        let _ = self.unpause();
                    }
                    events.push(GameEvent::Moved(direction));
                },
                InputKey::Pause => {
                    let signal = self.toggle_pause();
                    events.push(GameEvent::Signal(signal));
                },
                InputKey::Reset => {
                    if self.state == GameState::InGame {
                        let signal = self.reset();
                        events.push(GameEvent::Signal(signal));
                    }
                },
                InputKey::Other => {
                    if self.state == GameState::NotStarted {
                        let _ = self.start();
                    }
                },
            }
            proof {
                let rest = spec_apply_inputs(self.state, keys@, i + 1);
                assert(events@ + rest.events =~= events_before + spec_apply_inputs(state_before, keys@, i as int).events);
            }
            i = i + 1;
        }
        proof {
            assert(events@ =~= events@ + spec_apply_inputs(self.state, keys@, i as int).events);
        }
        (GameUpdate::Continue, events)
    }

    /// Advances the frame clock by `delta_time` nanoseconds; a frame is due, and the clock
    /// restarts, once a whole frame interval has elapsed.
    pub fn frame_due(&mut self, delta_time: u64) -> (r: bool)
        requires
            old(self).wf(),
        ensures
            final(self).wf(),
            final(self).spec_state() == old(self).spec_state(),
            final(self).spec_inputs() == old(self).spec_inputs(),
            final(self).spec_objects() == old(self).spec_objects(),
            final(self).spec_playable_bounds() == old(self).spec_playable_bounds(),
            r == (spec_frame_time(old(self).spec_frame_time_elapsed(), delta_time) == FRAME_INTERVAL_NANOS),
            final(self).spec_frame_time_elapsed() == if r {
                0
            } else {
                spec_frame_time(old(self).spec_frame_time_elapsed(), delta_time)
            },
    {
        let sum = self.frame_time_elapsed.saturating_add(delta_time);
        self.frame_time_elapsed = if sum < FRAME_INTERVAL_NANOS {
            sum
        } else {
            FRAME_INTERVAL_NANOS
        };
        if self.frame_time_elapsed != FRAME_INTERVAL_NANOS {
            return false;
        }
        self.frame_time_elapsed = 0;
        true
    }
}

} // verus!
