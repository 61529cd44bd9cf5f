use vstd::prelude::*;

use crate::audio::Sound;
use crate::board::{spec_board_playable_bounds, Board, BOARD_SIZE_X, BOARD_SIZE_Y};
use crate::frame::{append_render_cells, sorted_by_z, RenderCell, RenderFrame, RenderViewport};
use crate::collision::{in_bounds, lemma_vacant_cells_members, spec_vacant_cells};
use crate::game::{
    spec_apply_inputs, spec_frame_time, spec_game_playable_bounds, Game, GameError, GameEvent, GameSignal, GameState, GameUpdate,
    InsertObjectError, FRAME_INTERVAL_NANOS,
};
use crate::game_object::{GameObject, GameObjectId};
use crate::geometry::{half_rounded_down, Bounds, Rotation, Transform, TransformRotation, Vector2Int};
use crate::input_queue::{spec_pushed, InputKey};
use crate::models::apple::{Apple, AppleSignal};
use crate::models::snake::{
    grown_parts, initial_parts, is_food, spec_collision, spec_contact, spec_occupied_cells, spec_request_movement, spec_resolve_collisions, spec_rotate_to, spec_spawned, spec_tick,
    Snake, SnakeBody, SnakeContact, SnakeModel, SnakeSignal,
};
use crate::models::text::{spec_displayed, Text};
use crate::movement::{Move, MoveDirection};
use crate::random::RandomSource;
use crate::render::{Render, RenderItem, Texture, TextureCharacter, TextureColor};
use crate::text_format::{push_char, push_str};

verus! {

/// A signal of the snake scene, tagged with the kind of object that emitted it.
#[derive(Debug, Clone, Copy, PartialEq, Eq, Structural)]
pub enum SceneSignal {
    Snake(SnakeSignal),
    Apple(AppleSignal),
    Game(GameSignal),
}

/// Why the scene could not be set up or updated.
#[derive(Debug, Clone, Copy, PartialEq, Eq, Structural)]
pub enum SceneError {
    /// No playable cell is left for the apple.
    NoVacantCell,
    /// The snake cannot grow any further.
    SnakeAtMaximumSize,
    /// A state change the game refused.
    Game(GameError),
    /// An object id was already placed in the game.
    InsertObject(InsertObjectError),
}

/// A line of the status bar and the game state in which it shows.
pub struct StatusText {
    pub text: Text,
    pub state: GameState,
}

/// What the scene holds, as mathematical values: the game state, the snake, the apple, the
/// visibility of each status text and the signals waiting for dispatch.
pub struct SceneModel {
    pub state: GameState,
    pub snake: SnakeModel,
    pub apple: Transform,
    pub apple_eaten: bool,
    pub visible: Seq<bool>,
    pub pending: Seq<SceneSignal>,
}

/// What stays fixed while the scene runs: the identities of its objects, the state in which
/// each status text shows, and the playable bounds.
pub struct SceneContext {
    pub snake_id: GameObjectId,
    pub apple_id: GameObjectId,
    pub text_states: Seq<GameState>,
    pub bounds: Bounds,
}

/// The visibility of each status text in `state`: a text shows in its own state only.
pub open spec fn spec_visibility(text_states: Seq<GameState>, state: GameState) -> Seq<bool> {
    Seq::new(text_states.len(), |i: int| text_states[i] == state)
}

/// A snake freshly spawned in the middle of `bounds`, facing right.
pub open spec fn spec_respawned_snake(bounds: Bounds) -> SnakeModel {
    SnakeModel {
        parts: initial_parts(SnakeBody::MIN_SIZE as nat),
        transform: Transform {
            position: Vector2Int {
                x: half_rounded_down(bounds.start.x + bounds.end.x) as i32,
                y: half_rounded_down(bounds.start.y + bounds.end.y) as i32,
            },
            rotation: TransformRotation { body: Rotation::spec_from_direction(MoveDirection::Right), look: None },
        },
        lifecycle: spec_spawned(),
    }
}

/// The playable board cells that `snake` leaves free, in row-major order.
pub open spec fn spec_free_cells(snake: SnakeModel) -> Seq<Vector2Int> {
    spec_vacant_cells(spec_board_playable_bounds(), spec_occupied_cells(snake.parts, snake.transform))
}

/// The apple placed at `position`, uneaten.
pub open spec fn spec_apple_at(model: SceneModel, position: Vector2Int) -> SceneModel {
    SceneModel { apple: Transform { position, ..model.apple }, apple_eaten: false, ..model }
}

/// Delivering a snake signal. The apple hears it first: food eaten at this scene's uneaten
/// apple marks it eaten and reports that. Then the death of this scene's snake plays the
/// impact and ends the game, which reports game over.
pub open spec fn spec_snake_signal(ctx: SceneContext, model: SceneModel, signal: SnakeSignal) -> (SceneModel, Seq<Sound>) {
    let eats = signal == (SnakeSignal::FoodEaten { food_id: ctx.apple_id }) && !model.apple_eaten;
    let heard = if eats {
        SceneModel {
            apple_eaten: true,
            pending: model.pending.push(SceneSignal::Apple(AppleSignal::Eaten { apple_id: ctx.apple_id })),
            ..model
        }
    } else {
        model
    };
    if signal == (SnakeSignal::Killed { snake_id: ctx.snake_id }) {
        (
            SceneModel { state: GameState::GameOver, pending: heard.pending.push(SceneSignal::Game(GameSignal::Over)), ..heard },
            seq![Sound::Impact],
        )
    } else {
        (heard, Seq::empty())
    }
}

/// Delivering an apple signal, ending in `after`, with the random source going from `source`
/// to `source_after`. When this scene's apple was eaten, it comes back, uneaten, at the free
/// playable cell the source draws among those the snake leaves (it stays eaten, and nothing is
/// drawn, when there is none) and the coin sound plays.
pub open spec fn spec_apple_step<R: RandomSource>(
    ctx: SceneContext,
    model: SceneModel,
    signal: AppleSignal,
    after: Result<(SceneModel, Seq<Sound>), SceneError>,
    source: R,
    source_after: R,
) -> bool {
    let free = spec_free_cells(model.snake);
    match signal {
        AppleSignal::Eaten { apple_id } => if apple_id != ctx.apple_id {
            after == Ok::<(SceneModel, Seq<Sound>), SceneError>((model, Seq::empty())) && source_after == source
        } else if free.len() == 0 {
            after == Ok::<(SceneModel, Seq<Sound>), SceneError>((model, seq![Sound::Coin])) && source_after == source
        } else {
            exists|index: usize|
                #![trigger source.draws(&source_after, free.len() as usize, index)]
                index < free.len() && source.draws(&source_after, free.len() as usize, index) && after
                    == Ok::<(SceneModel, Seq<Sound>), SceneError>((spec_apple_at(model, free[index as int]), seq![Sound::Coin]))
        },
    }
}

/// Delivering a game signal, ending in `after`, with the random source going from `source`
/// to `source_after`. A reset respawns the snake in the middle of the playable bounds, puts
/// the apple at the free cell the source draws among those the snake leaves and starts the
/// game; it fails when no cell is free (drawing nothing) or the game has started meanwhile. A
/// pause change plays the pause or unpause sound. Then each status text shows exactly when
/// the game is in its state.
pub open spec fn spec_game_step<R: RandomSource>(
    ctx: SceneContext,
    model: SceneModel,
    signal: GameSignal,
    after: Result<(SceneModel, Seq<Sound>), SceneError>,
    source: R,
    source_after: R,
) -> bool {
    match signal {
        GameSignal::Reset => {
            let snake = spec_respawned_snake(ctx.bounds);
            let free = spec_free_cells(snake);
            if free.len() == 0 {
                after == Err::<(SceneModel, Seq<Sound>), SceneError>(SceneError::NoVacantCell) && source_after == source
            } else {
                exists|index: usize|
                    #![trigger source.draws(&source_after, free.len() as usize, index)]
                    index < free.len() && source.draws(&source_after, free.len() as usize, index) && if model.state
                        != GameState::NotStarted {
                        after == Err::<(SceneModel, Seq<Sound>), SceneError>(SceneError::Game(GameError::AlreadyStarted))
                    } else {
                        after == Ok::<(SceneModel, Seq<Sound>), SceneError>(
                            (
                                SceneModel {
                                    state: GameState::InGame,
                                    visible: spec_visibility(ctx.text_states, GameState::InGame),
                                    ..spec_apple_at(SceneModel { snake, ..model }, free[index as int])
                                },
                                Seq::empty(),
                            ),
                        )
                    }
            }
        },
        GameSignal::PauseChanged { is_paused } => after == Ok::<(SceneModel, Seq<Sound>), SceneError>(
            (
                SceneModel { visible: spec_visibility(ctx.text_states, model.state), ..model },
                seq![if is_paused { Sound::Pause } else { Sound::Unpause }],
            ),
        ) && source_after == source,
        GameSignal::Over => after == Ok::<(SceneModel, Seq<Sound>), SceneError>(
            (SceneModel { visible: spec_visibility(ctx.text_states, model.state), ..model }, Seq::empty()),
        ) && source_after == source,
    }
}

/// Delivering one signal to its listeners, in their registration order, ends in `after`,
/// with the random source going from `source` to `source_after`.
pub open spec fn spec_dispatch_step<R: RandomSource>(
    ctx: SceneContext,
    model: SceneModel,
    signal: SceneSignal,
    after: Result<(SceneModel, Seq<Sound>), SceneError>,
    source: R,
    source_after: R,
) -> bool {
    match signal {
        SceneSignal::Snake(signal) => after == Ok::<(SceneModel, Seq<Sound>), SceneError>(spec_snake_signal(ctx, model, signal))
            && source_after == source,
        SceneSignal::Apple(signal) => spec_apple_step(ctx, model, signal, after, source, source_after),
        SceneSignal::Game(signal) => spec_game_step(ctx, model, signal, after, source, source_after),
    }
}

/// `trace` records the first `n` deliveries of `signals` that went through: delivery `i`
/// leads from `trace[i]` to `trace[i + 1]`, plays `sounds[i]` and takes the random source
/// from `sources[i]` to `sources[i + 1]`.
pub open spec fn spec_delivered<R: RandomSource>(
    ctx: SceneContext,
    signals: Seq<SceneSignal>,
    trace: Seq<SceneModel>,
    sounds: Seq<Seq<Sound>>,
    sources: Seq<R>,
    n: int,
) -> bool {
    &&& 0 <= n <= signals.len()
    &&& trace.len() == n + 1
    &&& sounds.len() == n
    &&& sources.len() >= n + 1
    &&& forall|i: int|
        0 <= i < n ==> #[trigger] spec_dispatch_step(
            ctx,
            trace[i],
            signals[i],
            Ok::<(SceneModel, Seq<Sound>), SceneError>((trace[i + 1], sounds[i])),
            sources[i],
            sources[i + 1],
        )
}

/// Dispatching `signals` from `start`, with the random source `source`, ends in `result`,
/// `end` and the source `source_end`: on success every signal was delivered in order, `end`
/// is where the deliveries led and the sounds are theirs, in order; on failure some delivery
/// failed with that error after the ones before it went through.
pub open spec fn spec_dispatched<R: RandomSource>(
    ctx: SceneContext,
    start: SceneModel,
    signals: Seq<SceneSignal>,
    result: Result<Seq<Sound>, SceneError>,
    end: SceneModel,
    source: R,
    source_end: R,
) -> bool {
    match result {
        Ok(played) => exists|trace: Seq<SceneModel>, sounds: Seq<Seq<Sound>>, sources: Seq<R>|
            #![trigger spec_delivered(ctx, signals, trace, sounds, sources, signals.len() as int)]
            {
                &&& spec_delivered(ctx, signals, trace, sounds, sources, signals.len() as int)
                &&& trace[0] == start
                &&& trace.last() == end
                &&& played == sounds.flatten()
                &&& sources.len() == signals.len() + 1
                &&& sources[0] == source
                &&& sources.last() == source_end
            },
        Err(error) => exists|trace: Seq<SceneModel>, sounds: Seq<Seq<Sound>>, sources: Seq<R>, k: int|
            #![trigger spec_delivered(ctx, signals, trace, sounds, sources, k)]
            {
                &&& 0 <= k < signals.len()
                &&& spec_delivered(ctx, signals, trace, sounds, sources, k)
                &&& trace[0] == start
                &&& sources.len() == k + 2
                &&& sources[0] == source
                &&& sources[k + 1] == source_end
                &&& spec_dispatch_step(
                    ctx,
                    trace[k],
                    signals[k],
                    Err::<(SceneModel, Seq<Sound>), SceneError>(error),
                    sources[k],
                    sources[k + 1],
                )
            },
    }
}

/// The delivery result as mathematical values, with the scene it left.
pub open spec fn spec_played(result: Result<Vec<Sound>, SceneError>, model: SceneModel) -> Result<(SceneModel, Seq<Sound>), SceneError> {
    match result {
        Ok(sounds) => Ok((model, sounds@)),
        Err(error) => Err(error),
    }
}

/// The sounds of a result, as a sequence.
pub open spec fn spec_sounds(result: Result<Vec<Sound>, SceneError>) -> Result<Seq<Sound>, SceneError> {
    match result {
        Ok(sounds) => Ok(sounds@),
        Err(error) => Err(error),
    }
}

/// The sounds of an update result, as a sequence.
pub open spec fn spec_update_sounds(result: Result<(GameUpdate, Vec<Sound>), SceneError>) -> Result<Seq<Sound>, SceneError> {
    match result {
        Ok((_, sounds)) => Ok(sounds@),
        Err(error) => Err(error),
    }
}

/// The cells `renderable` draws when placed at `origin`, in its own order.
pub open spec fn spec_placed_cells<R: Render>(origin: Vector2Int, renderable: &R) -> Seq<RenderCell> {
    renderable.spec_render_items().map_values(|item: RenderItem| RenderCell::spec_from_render_item(origin, item))
}

/// Input events reach the scene in order: a move turns the snake, a signal waits for
/// dispatch.
pub open spec fn spec_apply_events(model: SceneModel, events: Seq<GameEvent>) -> SceneModel
    decreases events.len(),
{
    if events.len() == 0 {
        model
    } else {
        let before = spec_apply_events(model, events.drop_last());
        match events.last() {
            GameEvent::Moved(direction) => SceneModel { snake: spec_request_movement(before.snake, direction), ..before },
            GameEvent::Signal(signal) => SceneModel { pending: before.pending.push(SceneSignal::Game(signal)), ..before },
        }
    }
}

/// The food in play: the apple's cell, unless it was eaten.
pub open spec fn spec_food(ctx: SceneContext, model: SceneModel) -> Seq<(GameObjectId, Vector2Int)> {
    if model.apple_eaten {
        Seq::empty()
    } else {
        seq![(ctx.apple_id, model.apple.position)]
    }
}

/// One update of the objects of a game in play after `delta` nanoseconds: the snake ticks,
/// then resolves its collisions with the walls, itself and the food in play; what it
/// reports waits for dispatch.
pub open spec fn spec_update_objects(ctx: SceneContext, model: SceneModel, delta: u64) -> SceneModel {
    let ticked = spec_tick(model.snake, delta);
    let (snake, signal) = spec_resolve_collisions(ticked, ctx.snake_id, ctx.bounds, spec_food(ctx, model));
    SceneModel {
        snake,
        pending: match signal {
            Some(signal) => model.pending.push(SceneSignal::Snake(signal)),
            None => model.pending,
        },
        ..model
    }
}

/// The contents of the status line: a start prompt, a pause notice and a game over notice
/// that names the reset key in upper case, each with the state in which it shows.
pub open spec fn spec_status_lines() -> Seq<(Seq<char>, GameState)> {
    seq![
        ("Press any key to start"@, GameState::NotStarted),
        ("Paused"@, GameState::Paused),
        ("Game over! Press 'R' to restart."@, GameState::GameOver),
    ]
}

/// The upper-case form of an ASCII lower-case letter; any other character as it is.
pub open spec fn spec_ascii_uppercase(character: char) -> char {
    if 'a' <= character && character <= 'z' {
        (character as u32 - 32) as char
    } else {
        character
    }
}

fn ascii_uppercase(character: char) -> (r: char)
    ensures
        r == spec_ascii_uppercase(character),
{
    if 'a' <= character && character <= 'z' {
        ((character as u8) - 32) as char
    } else {
        character
    }
}

/// The game over notice, which names the reset key in upper case.
fn game_over_notice() -> (r: String)
    ensures
        r@ == spec_status_lines()[2].0,
{
    let mut notice = String::new();
    push_str(&mut notice, "Game over! Press '");
    push_char(&mut notice, ascii_uppercase(InputKey::RESET_CHARACTER));
    push_str(&mut notice, "' to restart.");
    proof {
        reveal_strlit("Game over! Press '");
        reveal_strlit("' to restart.");
        reveal_strlit("Game over! Press 'R' to restart.");
        assert(notice@ =~= spec_status_lines()[2].0);
    }
    notice
}

/// A dead snake neither moves nor eats: updating the objects leaves the scene as it was,
/// even with the apple under the snake's head.
pub proof fn lemma_dead_snake_changes_nothing(ctx: SceneContext, model: SceneModel, delta: u64)
    requires
        model.snake.lifecycle is Dead,
    ensures
        spec_update_objects(ctx, model, delta) == model,
{
}

/// An eaten apple of the scene comes back uneaten, with the coin sound, on a playable cell
/// that the snake does not occupy, whenever such a cell exists.
pub proof fn lemma_eaten_apple_returns_on_a_free_cell<R: RandomSource>(
    ctx: SceneContext,
    model: SceneModel,
    after: SceneModel,
    sounds: Seq<Sound>,
    source: R,
    source_after: R,
)
    requires
        spec_apple_step(
            ctx,
            model,
            AppleSignal::Eaten { apple_id: ctx.apple_id },
            Ok::<(SceneModel, Seq<Sound>), SceneError>((after, sounds)),
            source,
            source_after,
        ),
        spec_free_cells(model.snake).len() > 0,
    ensures
        !after.apple_eaten,
        sounds == seq![Sound::Coin],
        in_bounds(spec_board_playable_bounds(), after.apple.position),
        !spec_occupied_cells(model.snake.parts, model.snake.transform).contains(after.apple.position),
        after.snake == model.snake,
        after.state == model.state,
{
    let free = spec_free_cells(model.snake);
    let index = choose|index: usize|
        #![trigger source.draws(&source_after, free.len() as usize, index)]
        index < free.len() && source.draws(&source_after, free.len() as usize, index) && Ok::<(SceneModel, Seq<Sound>), SceneError>(
            (after, sounds),
        ) == Ok::<(SceneModel, Seq<Sound>), SceneError>((spec_apple_at(model, free[index as int]), seq![Sound::Coin]));
    assert(free.contains(free[index as int]));
    lemma_vacant_cells_members(
        spec_board_playable_bounds(),
        spec_occupied_cells(model.snake.parts, model.snake.transform),
        free[index as int],
    );
}

/// A reset that goes through starts a fresh round: the game is in play, the snake is born
/// again in the middle of the playable bounds, the apple waits uneaten on a playable cell the
/// new snake does not occupy, and the status line shows the round in play.
pub proof fn lemma_reset_starts_a_fresh_round<R: RandomSource>(
    ctx: SceneContext,
    model: SceneModel,
    after: SceneModel,
    sounds: Seq<Sound>,
    source: R,
    source_after: R,
)
    requires
        spec_game_step(
            ctx,
            model,
            GameSignal::Reset,
            Ok::<(SceneModel, Seq<Sound>), SceneError>((after, sounds)),
            source,
            source_after,
        ),
    ensures
        model.state == GameState::NotStarted,
        after.state == GameState::InGame,
        after.snake == spec_respawned_snake(ctx.bounds),
        after.snake.parts.len() == SnakeBody::MIN_SIZE,
        after.snake.lifecycle is Alive,
        !after.apple_eaten,
        in_bounds(spec_board_playable_bounds(), after.apple.position),
        !spec_occupied_cells(after.snake.parts, after.snake.transform).contains(after.apple.position),
        after.visible == spec_visibility(ctx.text_states, GameState::InGame),
        after.pending == model.pending,
        sounds.len() == 0,
{
    let snake = spec_respawned_snake(ctx.bounds);
    let free = spec_free_cells(snake);
    let index = choose|index: usize|
        #![trigger source.draws(&source_after, free.len() as usize, index)]
        index < free.len() && source.draws(&source_after, free.len() as usize, index) && if model.state
            != GameState::NotStarted {
            Ok::<(SceneModel, Seq<Sound>), SceneError>((after, sounds)) == Err::<(SceneModel, Seq<Sound>), SceneError>(
                SceneError::Game(GameError::AlreadyStarted),
            )
        } else {
            Ok::<(SceneModel, Seq<Sound>), SceneError>((after, sounds)) == Ok::<(SceneModel, Seq<Sound>), SceneError>(
                (
                    SceneModel {
                        state: GameState::InGame,
                        visible: spec_visibility(ctx.text_states, GameState::InGame),
                        ..spec_apple_at(SceneModel { snake, ..model }, free[index as int])
                    },
                    Seq::empty(),
                ),
            )
        };
    assert(free.contains(free[index as int]));
    lemma_vacant_cells_members(spec_board_playable_bounds(), spec_occupied_cells(snake.parts, snake.transform), free[index as int]);
}

/// Signals emitted while a signal is delivered only join the back of the queue: a delivery
/// never removes or reorders what waits, so it waits for the next dispatch.
pub proof fn lemma_delivery_only_queues<R: RandomSource>(
    ctx: SceneContext,
    model: SceneModel,
    signal: SceneSignal,
    after: SceneModel,
    sounds: Seq<Sound>,
    source: R,
    source_after: R,
)
    requires
        spec_dispatch_step(ctx, model, signal, Ok::<(SceneModel, Seq<Sound>), SceneError>((after, sounds)), source, source_after),
    ensures
        model.pending.len() <= after.pending.len(),
        after.pending.take(model.pending.len() as int) == model.pending,
{
    match signal {
        SceneSignal::Snake(s) => {
            assert(after.pending.take(model.pending.len() as int) =~= model.pending);
        },
        SceneSignal::Apple(s) => {
            let free = spec_free_cells(model.snake);
            if free.len() > 0 && s == (AppleSignal::Eaten { apple_id: ctx.apple_id }) {
                let index = choose|index: usize|
                    #![trigger source.draws(&source_after, free.len() as usize, index)]
                    index < free.len() && source.draws(&source_after, free.len() as usize, index)
                        && Ok::<(SceneModel, Seq<Sound>), SceneError>((after, sounds)) == Ok::<(SceneModel, Seq<Sound>), SceneError>(
                        (spec_apple_at(model, free[index as int]), seq![Sound::Coin]),
                    );
            }
            assert(after.pending.take(model.pending.len() as int) =~= model.pending);
        },
        SceneSignal::Game(s) => {
            if s == GameSignal::Reset {
                lemma_reset_starts_a_fresh_round(ctx, model, after, sounds, source, source_after);
            }
            assert(after.pending.take(model.pending.len() as int) =~= model.pending);
        },
    }
}

/// Whether two lists of status texts differ at most in what they show: the same texts, with
/// the same ids, positions, glyphs and states, in the same order.
pub open spec fn spec_same_texts(a: Seq<StatusText>, b: Seq<StatusText>) -> bool {
    &&& a.len() == b.len()
    &&& forall|i: int|
        0 <= i < a.len() ==> {
            &&& (#[trigger] a[i]).state == b[i].state
            &&& a[i].text.spec_id() == b[i].text.spec_id()
            &&& a[i].text.spec_position() == b[i].text.spec_position()
            &&& a[i].text.spec_glyphs() == b[i].text.spec_glyphs()
        }
}

/// A status line added to `mid`, which had the first `k` lines, leaves `after` with `k + 1`.
proof fn lemma_line_added(before: SnakeScene, mid: SnakeScene, after: SnakeScene, k: int)
    requires
        0 <= k < spec_status_lines().len(),
        mid.spec_lines_added(&before, k),
        after.wf(),
        after.game.spec_state() == mid.game.spec_state(),
        after.game.spec_inputs() == mid.game.spec_inputs(),
        after.game.spec_playable_bounds() == mid.game.spec_playable_bounds(),
        after.snake == mid.snake,
        after.apple == mid.apple,
        after.pending == mid.pending,
        after.status_texts@.len() == mid.status_texts@.len() + 1,
        after.status_texts@.drop_last() == mid.status_texts@,
        after.status_texts@.last().state == spec_status_lines()[k].1,
        after.status_texts@.last().text.spec_visible() == (mid.game.spec_state() == spec_status_lines()[k].1),
        after.status_texts@.last().text.spec_position() == (Vector2Int { x: 0, y: BOARD_SIZE_Y as i32 }),
        after.status_texts@.last().text.spec_glyphs() == spec_status_lines()[k].0.map_values(
            |c: char| Texture { character: TextureCharacter::Fixed(spec_displayed(c)), color: TextureColor::White },
        ),
        after.game.spec_objects() == mid.game.spec_objects().push(after.status_texts@.last().text.spec_id()),
    ensures
        after.spec_lines_added(&before, k + 1),
{
    let lines = spec_status_lines();
    let n = before.spec_status_texts().len() as int;
    let states_k = Seq::new(k as nat, |i: int| lines[i].1);
    let states_k1 = Seq::new((k + 1) as nat, |i: int| lines[i].1);
    let texts = after.status_texts@;
    assert(states_k1 =~= states_k.push(lines[k].1));
    assert forall|i: int| 0 <= i < texts.len() - 1 implies texts[i] == mid.status_texts@[i] by {
        assert(texts.drop_last()[i] == texts[i]);
    }
    assert(after.spec_context().text_states =~= mid.spec_context().text_states.push(lines[k].1));
    assert(after.spec_context().text_states =~= before.spec_context().text_states + states_k1);
    assert(mid.spec_model().state == before.spec_model().state);
    assert(spec_visibility(states_k1, before.spec_model().state) =~= spec_visibility(states_k, before.spec_model().state).push(
        lines[k].1 == before.spec_model().state,
    ));
    assert(after.spec_model().visible =~= mid.spec_model().visible.push(lines[k].1 == before.spec_model().state));
    assert(after.spec_model().visible =~= before.spec_model().visible + spec_visibility(states_k1, before.spec_model().state));
    assert(after.spec_status_texts().take(n) =~= before.spec_status_texts()) by {
        assert forall|i: int| 0 <= i < n implies after.spec_status_texts()[i] == before.spec_status_texts()[i] by {
            assert(mid.spec_status_texts().take(n)[i] == mid.spec_status_texts()[i]);
        }
    }
    assert(after.spec_game().spec_objects() =~= before.spec_game().spec_objects() + Seq::new(
        (k + 1) as nat,
        |i: int| after.spec_status_texts()[n + i].text.spec_id(),
    ));
    assert forall|i: int| 0 <= i < k + 1 implies {
        let text = (#[trigger] after.spec_status_texts()[n + i]).text;
        &&& text.spec_position() == (Vector2Int { x: 0, y: BOARD_SIZE_Y as i32 })
        &&& text.spec_glyphs() == lines[i].0.map_values(
            |c: char| Texture { character: TextureCharacter::Fixed(spec_displayed(c)), color: TextureColor::White },
        )
    } by {
        if i < k {
            assert(after.spec_status_texts()[n + i] == mid.spec_status_texts()[n + i]);
        }
    }
}

/// A status line refused at `mid`, which had the first `k` lines, leaves `after` with those
/// same `k` lines.
proof fn lemma_line_refused(before: SnakeScene, mid: SnakeScene, after: SnakeScene, k: int)
    requires
        mid.spec_lines_added(&before, k),
        after.wf(),
        after.game.spec_state() == mid.game.spec_state(),
        after.game.spec_inputs() == mid.game.spec_inputs(),
        after.game.spec_playable_bounds() == mid.game.spec_playable_bounds(),
        after.snake == mid.snake,
        after.apple == mid.apple,
        after.pending == mid.pending,
        after.status_texts@ == mid.status_texts@,
        after.game.spec_objects() == mid.game.spec_objects(),
    ensures
        after.spec_lines_added(&before, k),
{
    assert(after.spec_model().visible =~= mid.spec_model().visible);
    assert(after.spec_context().text_states =~= mid.spec_context().text_states);
}

/// The snake game: its rules, board, snake, apple and status line, and the signals they
/// emitted that wait for the next dispatch.
pub struct SnakeScene {
    game: Game,
    board: Board,
    snake: Snake,
    apple: Apple,
    status_texts: Vec<StatusText>,
    pending: Vec<SceneSignal>,
}

impl SnakeScene {
    pub closed spec fn spec_model(&self) -> SceneModel {
        SceneModel {
            state: self.game.spec_state(),
            snake: self.snake.model(),
            apple: self.apple.spec_transform(),
            apple_eaten: self.apple.spec_eaten(),
            visible: Seq::new(self.status_texts@.len(), |i: int| self.status_texts@[i].text.spec_visible()),
            pending: self.pending@,
        }
    }

    pub closed spec fn spec_context(&self) -> SceneContext {
        SceneContext {
            snake_id: self.snake.spec_id(),
            apple_id: self.apple.spec_id(),
            text_states: Seq::new(self.status_texts@.len(), |i: int| self.status_texts@[i].state),
            bounds: self.game.spec_playable_bounds(),
        }
    }

    /// The keys waiting for the next update, oldest first.
    pub closed spec fn spec_inputs(&self) -> Seq<InputKey> {
        self.game.spec_inputs()
    }

    pub closed spec fn spec_game(&self) -> Game {
        self.game
    }

    /// The game and the snake are well formed, in the standard bounds.
    pub closed spec fn wf(&self) -> bool {
        &&& self.game.wf()
        &&& self.snake.wf()
        &&& self.game.spec_playable_bounds() == spec_game_playable_bounds()
    }

    /// The status texts, in the order they were added.
    pub closed spec fn spec_status_texts(&self) -> Seq<StatusText> {
        self.status_texts@
    }

    /// Places the snake and then the apple in `game` and sets up the scene around them, with
    /// an empty status line and no signal waiting. Fails when an id is already placed.
    pub fn register_snake_objects(game: Game, snake: Snake, apple: Apple) -> (r: Result<SnakeScene, SceneError>)
        requires
            game.wf(),
            snake.wf(),
        ensures
            ({
                let ids = game.spec_objects();
                let snake_id = snake.spec_id();
                let apple_id = apple.spec_id();
                match r {
                    Ok(scene) => {
                        &&& !ids.contains(snake_id)
                        &&& !ids.push(snake_id).contains(apple_id)
                        &&& scene.wf()
                        &&& scene.spec_model() == (SceneModel {
                            state: game.spec_state(),
                            snake: snake.model(),
                            apple: apple.spec_transform(),
                            apple_eaten: apple.spec_eaten(),
                            visible: Seq::empty(),
                            pending: Seq::empty(),
                        })
                        &&& scene.spec_context() == (SceneContext {
                            snake_id,
                            apple_id,
                            text_states: Seq::empty(),
                            bounds: spec_game_playable_bounds(),
                        })
                        &&& scene.spec_inputs() == game.spec_inputs()
                        &&& scene.spec_game().spec_objects() == ids.push(snake_id).push(apple_id)
                    },
                    Err(error) => if ids.contains(snake_id) {
                        error == SceneError::InsertObject(InsertObjectError::ObjectAlreadyPlaced { id: snake_id })
                    } else {
                        &&& ids.push(snake_id).contains(apple_id)
                        &&& error == SceneError::InsertObject(InsertObjectError::ObjectAlreadyPlaced { id: apple_id })
                    },
                }
            }),
    {
        let mut game = game;
        let snake_id = snake.id();
        let apple_id = apple.id();
        proof {
            game.lemma_playable_bounds();
        }
        match game.insert_object(snake_id) {
            Err(error) => return Err(SceneError::InsertObject(error)),
            Ok(()) => {},
        }
        match game.insert_object(apple_id) {
            Err(error) => return Err(SceneError::InsertObject(error)),
            Ok(()) => {},
        }
        let scene = SnakeScene { game, board: Board::new(), snake, apple, status_texts: Vec::new(), pending: Vec::new() };
        proof {
            assert(scene.spec_model().visible =~= Seq::<bool>::empty());
            assert(scene.spec_context().text_states =~= Seq::<GameState>::empty());
        }
        Ok(scene)
    }

    /// Adds a text at `position`, shown while the game is in `state`, and places it in the
    /// game.
    fn add_status_text(&mut self, position: Vector2Int, content: &str, state: GameState) -> (r: Result<(), SceneError>)
        requires
            old(self).wf(),
        ensures
            final(self).wf(),
            final(self).game.spec_state() == old(self).game.spec_state(),
            final(self).game.spec_inputs() == old(self).game.spec_inputs(),
            final(self).game.spec_frame_time_elapsed() == old(self).game.spec_frame_time_elapsed(),
            final(self).game.spec_playable_bounds() == old(self).game.spec_playable_bounds(),
            final(self).board == old(self).board,
            final(self).snake == old(self).snake,
            final(self).apple == old(self).apple,
            final(self).pending == old(self).pending,
            r is Err ==> {
                &&& r matches Err(SceneError::InsertObject(InsertObjectError::ObjectAlreadyPlaced { id }))
                    && old(self).game.spec_objects().contains(id) && id.is_random_v4()
                &&& final(self).status_texts@ == old(self).status_texts@
                &&& final(self).game.spec_objects() == old(self).game.spec_objects()
            },
            r is Ok ==> {
                let added = final(self).status_texts@.last();
                &&& final(self).status_texts@.len() == old(self).status_texts@.len() + 1
                &&& final(self).status_texts@.drop_last() == old(self).status_texts@
                &&& added.state == state
                &&& added.text.spec_visible() == (old(self).game.spec_state() == state)
                &&& added.text.spec_position() == position
                &&& added.text.spec_glyphs() == content@.map_values(
                    |c: char| Texture { character: TextureCharacter::Fixed(spec_displayed(c)), color: TextureColor::White },
                )
                &&& final(self).game.spec_objects() == old(self).game.spec_objects().push(added.text.spec_id())
            },
    {
        let mut text = Text::new(position, content, TextureColor::White);
        text.set_visible(self.game.state() == state);
        match self.game.insert_object(text.id()) {
            Err(error) => return Err(SceneError::InsertObject(error)),
            Ok(()) => {},
        }
        self.status_texts.push(StatusText { text, state });
        proof {
            assert(self.status_texts@.drop_last() =~= old(self).status_texts@);
        }
        Ok(())
    }

    /// Whether the scene is `before` with the first `k` lines of the status line added below
    /// the board, each shown only in its state and placed in the game, and nothing else
    /// changed.
    pub open spec fn spec_lines_added(&self, before: &SnakeScene, k: int) -> bool {
        let lines = spec_status_lines();
        let states = Seq::new(k as nat, |i: int| lines[i].1);
        let n = before.spec_status_texts().len() as int;
        &&& self.wf()
        &&& self.spec_inputs() == before.spec_inputs()
        &&& self.spec_context() == (SceneContext {
            text_states: before.spec_context().text_states + states,
            ..before.spec_context()
        })
        &&& self.spec_model() == (SceneModel {
            visible: before.spec_model().visible + spec_visibility(states, before.spec_model().state),
            ..before.spec_model()
        })
        &&& self.spec_status_texts().len() == n + k
        &&& self.spec_status_texts().take(n) == before.spec_status_texts()
        &&& self.spec_game().spec_objects() == before.spec_game().spec_objects() + Seq::new(
            k as nat,
            |i: int| self.spec_status_texts()[n + i].text.spec_id(),
        )
        &&& forall|i: int|
            0 <= i < k ==> {
                let text = (#[trigger] self.spec_status_texts()[n + i]).text;
                &&& text.spec_position() == (Vector2Int { x: 0, y: BOARD_SIZE_Y as i32 })
                &&& text.spec_glyphs() == lines[i].0.map_values(
                    |c: char| Texture { character: TextureCharacter::Fixed(spec_displayed(c)), color: TextureColor::White },
                )
            }
    }

    /// Adds the status line below the board: the start prompt, the pause notice and the game
    /// over notice, in that order, each shown only in its state, and places them in the game.
    /// Each text draws a fresh random identity; when the one drawn for a line is already
    /// placed, the lines before it stay, that line and the ones after it are not added, and
    /// the error names the identity that collided.
    pub fn register_status_line(&mut self) -> (r: Result<(), SceneError>)
        requires
            old(self).wf(),
        ensures
            final(self).wf(),
            final(self).spec_inputs() == old(self).spec_inputs(),
            final(self).spec_context().snake_id == old(self).spec_context().snake_id,
            final(self).spec_context().apple_id == old(self).spec_context().apple_id,
            final(self).spec_context().bounds == old(self).spec_context().bounds,
            r is Ok ==> final(self).spec_lines_added(old(self), spec_status_lines().len() as int),
            r matches Err(error) ==> exists|k: int|
                #![trigger final(self).spec_lines_added(old(self), k)]
                {
                    &&& 0 <= k < spec_status_lines().len()
                    &&& final(self).spec_lines_added(old(self), k)
                    &&& error matches SceneError::InsertObject(InsertObjectError::ObjectAlreadyPlaced { id })
                        && final(self).spec_game().spec_objects().contains(id) && id.is_random_v4()
                },
    {
        let position = Vector2Int::new(0, BOARD_SIZE_Y as i32);
        let notice = game_over_notice();
        proof {
            reveal_strlit("Press any key to start");
            reveal_strlit("Paused");
        }
        let ghost before = *self;
        proof {
            let lines = spec_status_lines();
            let n = before.spec_status_texts().len() as int;
            assert(Seq::new(0, |i: int| lines[i].1) =~= Seq::<GameState>::empty());
            assert(before.spec_context().text_states + Seq::<GameState>::empty() =~= before.spec_context().text_states);
            assert(before.spec_model().visible + spec_visibility(Seq::<GameState>::empty(), before.spec_model().state)
                =~= before.spec_model().visible);
            assert(before.spec_status_texts().take(n) =~= before.spec_status_texts());
            assert(before.spec_game().spec_objects() + Seq::new(0, |i: int| before.spec_status_texts()[n + i].text.spec_id())
                =~= before.spec_game().spec_objects());
        }
        let contents: [&str; 3] = ["Press any key to start", "Paused", notice.as_str()];
        let states: [GameState; 3] = [GameState::NotStarted, GameState::Paused, GameState::GameOver];
        let mut k: usize = 0;
        while k < 3
            invariant
                k <= 3,
                before == *old(self),
                position == (Vector2Int { x: 0, y: BOARD_SIZE_Y as i32 }),
                contents@.len() == 3 && states@.len() == 3,
                forall|i: int| 0 <= i < 3 ==> (#[trigger] contents@[i])@ == spec_status_lines()[i].0,
                forall|i: int| 0 <= i < 3 ==> #[trigger] states@[i] == spec_status_lines()[i].1,
                self.spec_lines_added(&before, k as int),
            decreases 3 - k,
        {
            let ghost mid = *self;
            match self.add_status_text(position, contents[k], states[k]) {
                Err(error) => {
                    proof {
                        lemma_line_refused(before, mid, *self, k as int);
                    }
                    return Err(error);
                },
                Ok(()) => {},
            }
            proof {
                lemma_line_added(before, mid, *self, k as int);
            }
            k = k + 1;
        }
        Ok(())
    }

    /// Sets up a new game: the snake in the middle of the playable bounds, the apple at a
    /// random playable cell the snake leaves free, then the status line. Fails when no cell
    /// is free, or when a fresh object id is already placed.
    pub fn register_snake_scene<R: RandomSource>(random: &mut R) -> (r: Result<SnakeScene, SceneError>)
        ensures
            ({
                let snake = spec_respawned_snake(spec_game_playable_bounds());
                let lines = spec_status_lines();
                let states = Seq::new(lines.len(), |i: int| lines[i].1);
                match r {
                    Ok(scene) => {
                        &&& scene.wf()
                        &&& scene.spec_inputs() == Seq::<InputKey>::empty()
                        &&& scene.spec_context().text_states == states
                        &&& scene.spec_context().bounds == spec_game_playable_bounds()
                        &&& exists|index: usize|
                            #![trigger old(random).draws(final(random), spec_free_cells(snake).len() as usize, index)]
                            index < spec_free_cells(snake).len() && old(random).draws(
                                final(random),
                                spec_free_cells(snake).len() as usize,
                                index,
                            ) && scene.spec_model() == (SceneModel {
                                state: GameState::NotStarted,
                                snake,
                                apple: Transform { position: spec_free_cells(snake)[index as int], ..Transform::spec_default() },
                                apple_eaten: false,
                                visible: spec_visibility(states, GameState::NotStarted),
                                pending: Seq::empty(),
                            })
                    },
                    Err(error) => {
                        ||| error == SceneError::NoVacantCell && spec_free_cells(snake).len() == 0
                        ||| error matches SceneError::InsertObject(_)
                    },
                }
            }),
    {
        let game = Game::new();
        let mut snake = Snake::spawn();
        snake.set_position(game.playable_bounds().middle());
        let occupied = snake.occupied_cells();
        let position = match Board::vacant_position(occupied.as_slice(), random) {
            Some(position) => position,
            None => return Err(SceneError::NoVacantCell),
        };
        let apple = Apple::spawn(position);
        let ghost index: usize;
        proof {
            assert(snake.model() == spec_respawned_snake(spec_game_playable_bounds()));
            let free = spec_free_cells(snake.model());
            index = choose|index: usize|
                #![trigger old(random).draws(random, free.len() as usize, index)]
                index < free.len() && old(random).draws(random, free.len() as usize, index) && Some(position) == Some(
                    free[index as int],
                );
        }
        let mut scene = match SnakeScene::register_snake_objects(game, snake, apple) {
            Ok(scene) => scene,
            Err(error) => return Err(error),
        };
        match scene.register_status_line() {
            Ok(()) => {},
            Err(error) => return Err(error),
        }
        proof {
            let lines = spec_status_lines();
            let states = Seq::new(lines.len(), |i: int| lines[i].1);
            assert(Seq::<GameState>::empty() + states =~= states);
            assert(Seq::<bool>::empty() + spec_visibility(states, GameState::NotStarted) =~= spec_visibility(states, GameState::NotStarted));
            let free = spec_free_cells(spec_respawned_snake(spec_game_playable_bounds()));
            assert(old(random).draws(random, free.len() as usize, index));
            assert(position == free[index as int]);
        }
        Ok(scene)
    }

    /// Shows each status text exactly when the game is in its state.
    fn show_status(&mut self)
        requires
            old(self).wf(),
        ensures
            final(self).wf(),
            final(self).game == old(self).game,
            final(self).snake == old(self).snake,
            final(self).apple == old(self).apple,
            final(self).pending == old(self).pending,
            final(self).board == old(self).board,
            spec_same_texts(final(self).status_texts@, old(self).status_texts@),
            final(self).status_texts@.len() == old(self).status_texts@.len(),
            forall|i: int| 0 <= i < old(self).status_texts@.len() ==> {
                let text = #[trigger] final(self).status_texts@[i];
                &&& text.state == old(self).status_texts@[i].state
                &&& text.text.spec_visible() == (text.state == old(self).game.spec_state())
            },
    {
        let state = self.game.state();
        let mut i: usize = 0;
        while i < self.status_texts.len()
            invariant
                self.wf(),
                state == self.game.spec_state(),
                self.game == old(self).game,
                self.snake == old(self).snake,
                self.apple == old(self).apple,
                self.pending == old(self).pending,
                self.board == old(self).board,
                spec_same_texts(self.status_texts@, old(self).status_texts@),
                i <= self.status_texts@.len(),
                self.status_texts@.len() == old(self).status_texts@.len(),
                forall|j: int| 0 <= j < self.status_texts@.len() ==> (#[trigger] self.status_texts@[j]).state == old(self).status_texts@[j].state,
                forall|j: int| 0 <= j < i ==> (#[trigger] self.status_texts@[j]).text.spec_visible() == (self.status_texts@[j].state == state),
            decreases self.status_texts@.len() - i,
        {
            let shown = self.status_texts[i].state == state;
            self.status_texts[i].text.set_visible(shown);
            i = i + 1;
        }
    }

    /// Hands a snake signal to its listeners: first the apple, which may be eaten, then the
    /// listener that ends the game when this scene's snake dies.
    fn handle_snake_signal(&mut self, signal: SnakeSignal) -> (r: Vec<Sound>)
        requires
            old(self).wf(),
        ensures
            final(self).wf(),
            final(self).spec_context() == old(self).spec_context(),
            final(self).spec_inputs() == old(self).spec_inputs(),
            final(self).spec_game().spec_objects() == old(self).spec_game().spec_objects(),
            final(self).spec_game().spec_frame_time_elapsed() == old(self).spec_game().spec_frame_time_elapsed(),
            final(self).spec_board() == old(self).spec_board(),
            spec_same_texts(final(self).spec_status_texts(), old(self).spec_status_texts()),
            (final(self).spec_model(), r@) == spec_snake_signal(old(self).spec_context(), old(self).spec_model(), signal),
    {
        let ghost ctx = self.spec_context();
        let ghost before = self.spec_model();
        let mut sounds: Vec<Sound> = Vec::new();
        let heard = self.apple.on_snake_signal(&signal);
        match heard {
            Some(heard) => self.pending.push(SceneSignal::Apple(heard)),
            None => {},
        }
        match signal {
            SnakeSignal::Killed { snake_id } => {
                if snake_id == self.snake.id() {
                    sounds.push(Sound::Impact);
                    let over = self.game.end();
                    self.pending.push(SceneSignal::Game(over));
                }
            },
            SnakeSignal::FoodEaten { .. } => {},
        }
        proof {
            assert(self.spec_model().visible =~= before.visible);
            assert(self.spec_context().text_states =~= ctx.text_states);
            let (model, played) = spec_snake_signal(ctx, before, signal);
            assert(sounds@ =~= played);
            assert(self.spec_model() == model);
        }
        sounds
    }

    /// Hands an apple signal to its listener: when this scene's apple was eaten, it comes back
    /// at a random playable cell the snake leaves free, and the coin sound plays.
    fn handle_apple_signal<R: RandomSource>(&mut self, signal: AppleSignal, random: &mut R) -> (r: Vec<Sound>)
        requires
            old(self).wf(),
        ensures
            final(self).wf(),
            final(self).spec_context() == old(self).spec_context(),
            final(self).spec_inputs() == old(self).spec_inputs(),
            final(self).spec_game().spec_objects() == old(self).spec_game().spec_objects(),
            final(self).spec_game().spec_frame_time_elapsed() == old(self).spec_game().spec_frame_time_elapsed(),
            final(self).spec_board() == old(self).spec_board(),
            spec_same_texts(final(self).spec_status_texts(), old(self).spec_status_texts()),
            spec_apple_step(
                old(self).spec_context(),
                old(self).spec_model(),
                signal,
                Ok::<(SceneModel, Seq<Sound>), SceneError>((final(self).spec_model(), r@)),
                *old(random),
                *final(random),
            ),
    {
        let ghost ctx = self.spec_context();
        let ghost before = self.spec_model();
        let mut sounds: Vec<Sound> = Vec::new();
        let AppleSignal::Eaten { apple_id } = signal;
        if apple_id == self.apple.id() {
            let occupied = self.snake.occupied_cells();
            match Board::vacant_position(occupied.as_slice(), random) {
                Some(position) => {
                    self.apple.respawn(position);
                    proof {
                        let free = spec_free_cells(before.snake);
                        let index = choose|index: usize|
                            #![trigger old(random).draws(random, free.len() as usize, index)]
                            index < free.len() && old(random).draws(random, free.len() as usize, index)
                                && Some(position) == Some(free[index as int]);
                        assert(self.spec_model().visible =~= before.visible);
                        assert(self.spec_model() == spec_apple_at(before, free[index as int]));
                        assert(old(random).draws(random, free.len() as usize, index));
                    }
                },
                None => {},
            }
            sounds.push(Sound::Coin);
        }
        proof {
            assert(self.spec_model().visible =~= before.visible);
            assert(self.spec_context().text_states =~= ctx.text_states);
            assert(sounds@ =~= if apple_id == ctx.apple_id { seq![Sound::Coin] } else { Seq::empty() });
        }
        sounds
    }

    /// Hands a game signal to its listeners: the scene's, which starts a fresh round on a
    /// reset and plays the pause sounds, then the status line's.
    fn handle_game_signal<R: RandomSource>(&mut self, signal: GameSignal, random: &mut R) -> (r: Result<Vec<Sound>, SceneError>)
        requires
            old(self).wf(),
        ensures
            final(self).wf(),
            final(self).spec_context() == old(self).spec_context(),
            final(self).spec_inputs() == old(self).spec_inputs(),
            final(self).spec_game().spec_objects() == old(self).spec_game().spec_objects(),
            final(self).spec_game().spec_frame_time_elapsed() == old(self).spec_game().spec_frame_time_elapsed(),
            final(self).spec_board() == old(self).spec_board(),
            spec_same_texts(final(self).spec_status_texts(), old(self).spec_status_texts()),
            spec_game_step(
                old(self).spec_context(),
                old(self).spec_model(),
                signal,
                spec_played(r, final(self).spec_model()),
                *old(random),
                *final(random),
            ),
    {
        let ghost ctx = self.spec_context();
        let ghost before = self.spec_model();
        let mut sounds: Vec<Sound> = Vec::new();
        match signal {
            GameSignal::Reset => {
                let bounds = self.game.playable_bounds();
                proof {
                    self.game.lemma_playable_bounds();
                }
                self.snake.respawn(Transform { position: bounds.middle(), rotation: TransformRotation::new() });
                let occupied = self.snake.occupied_cells();
                proof {
                    assert(self.snake.model() == spec_respawned_snake(ctx.bounds));
                }
                let ghost index: usize;
                match Board::vacant_position(occupied.as_slice(), random) {
                    Some(position) => {
                        self.apple.respawn(position);
                        proof {
                            let free = spec_free_cells(self.snake.model());
                            index = choose|index: usize|
                                #![trigger old(random).draws(random, free.len() as usize, index)]
                                index < free.len() && old(random).draws(random, free.len() as usize, index)
                                    && Some(position) == Some(free[index as int]);
                            assert(old(random).draws(random, free.len() as usize, index));
                        }
                    },
                    None => return Err(SceneError::NoVacantCell),
                }
                let ghost respawned = self.spec_model();
                match self.game.start() {
                    Ok(()) => {},
                    Err(error) => {
                        proof {
                            let free = spec_free_cells(spec_respawned_snake(ctx.bounds));
                            assert(old(random).draws(random, free.len() as usize, index));
                        }
                        return Err(SceneError::Game(error));
                    },
                }
                self.show_status();
                proof {
                    assert(self.spec_model().visible =~= spec_visibility(ctx.text_states, GameState::InGame));
                    assert(self.spec_context().text_states =~= ctx.text_states);
                    assert(sounds@ =~= Seq::<Sound>::empty());
                    assert(self.spec_model() == (SceneModel {
                        state: GameState::InGame,
                        visible: spec_visibility(ctx.text_states, GameState::InGame),
                        ..respawned
                    }));
                }
                return Ok(sounds);
            },
            GameSignal::PauseChanged { is_paused } => {
                sounds.push(if is_paused { Sound::Pause } else { Sound::Unpause });
            },
            GameSignal::Over => {},
        }
        self.show_status();
        proof {
            assert(self.spec_model().visible =~= spec_visibility(ctx.text_states, before.state));
            assert(self.spec_context().text_states =~= ctx.text_states);
            assert(sounds@ =~= match signal {
                GameSignal::PauseChanged { is_paused } => seq![if is_paused { Sound::Pause } else { Sound::Unpause }],
                _ => Seq::<Sound>::empty(),
            });
        }
        Ok(sounds)
    }

    /// Delivers one signal to its listeners, in their registration order.
    fn deliver<R: RandomSource>(&mut self, signal: SceneSignal, random: &mut R) -> (r: Result<Vec<Sound>, SceneError>)
        requires
            old(self).wf(),
        ensures
            final(self).wf(),
            final(self).spec_context() == old(self).spec_context(),
            final(self).spec_inputs() == old(self).spec_inputs(),
            final(self).spec_game().spec_objects() == old(self).spec_game().spec_objects(),
            final(self).spec_game().spec_frame_time_elapsed() == old(self).spec_game().spec_frame_time_elapsed(),
            final(self).spec_board() == old(self).spec_board(),
            spec_same_texts(final(self).spec_status_texts(), old(self).spec_status_texts()),
            spec_dispatch_step(
                old(self).spec_context(),
                old(self).spec_model(),
                signal,
                spec_played(r, final(self).spec_model()),
                *old(random),
                *final(random),
            ),
    {
        match signal {
            SceneSignal::Snake(signal) => Ok(self.handle_snake_signal(signal)),
            SceneSignal::Apple(signal) => Ok(self.handle_apple_signal(signal, random)),
            SceneSignal::Game(signal) => self.handle_game_signal(signal, random),
        }
    }

    /// Delivers the waiting signals, oldest first; signals emitted meanwhile wait for the
    /// next dispatch. The first failed delivery stops the dispatch. Returns the sounds to
    /// play, in order.
    pub fn dispatch_pending<R: RandomSource>(&mut self, random: &mut R) -> (r: Result<Vec<Sound>, SceneError>)
        requires
            old(self).wf(),
        ensures
            final(self).wf(),
            final(self).spec_context() == old(self).spec_context(),
            final(self).spec_inputs() == old(self).spec_inputs(),
            final(self).spec_game().spec_objects() == old(self).spec_game().spec_objects(),
            final(self).spec_game().spec_frame_time_elapsed() == old(self).spec_game().spec_frame_time_elapsed(),
            final(self).spec_board() == old(self).spec_board(),
            spec_same_texts(final(self).spec_status_texts(), old(self).spec_status_texts()),
            spec_dispatched(
                old(self).spec_context(),
                SceneModel { pending: Seq::empty(), ..old(self).spec_model() },
                old(self).spec_model().pending,
                spec_sounds(r),
                final(self).spec_model(),
                *old(random),
                *final(random),
            ),
    {
        let mut signals: Vec<SceneSignal> = Vec::new();
        core::mem::swap(&mut signals, &mut self.pending);
        let ghost ctx = self.spec_context();
        let ghost start = self.spec_model();
        proof {
            assert(start.visible =~= old(self).spec_model().visible);
            assert(start == SceneModel { pending: Seq::empty(), ..old(self).spec_model() });
        }
        let mut sounds: Vec<Sound> = Vec::new();
        let ghost mut trace: Seq<SceneModel> = seq![start];
        let ghost mut played: Seq<Seq<Sound>> = Seq::empty();
        let ghost mut sources: Seq<R> = seq![*random];
        let mut i: usize = 0;
        while i < signals.len()
            invariant
                self.wf(),
                ctx == self.spec_context(),
                ctx == old(self).spec_context(),
                self.spec_inputs() == old(self).spec_inputs(),
                self.game.spec_objects() == old(self).game.spec_objects(),
                self.game.spec_frame_time_elapsed() == old(self).game.spec_frame_time_elapsed(),
                self.board == old(self).board,
                spec_same_texts(self.status_texts@, old(self).status_texts@),
                signals@ == old(self).spec_model().pending,
                i <= signals@.len(),
                spec_delivered(ctx, signals@, trace, played, sources, i as int),
                sources.len() == i + 1,
                sources[0] == *old(random),
                sources.last() == *random,
                start == (SceneModel { pending: Seq::empty(), ..old(self).spec_model() }),
                trace[0] == start,
                trace.last() == self.spec_model(),
                sounds@ == played.flatten(),
            decreases signals@.len() - i,
        {
            let signal = signals[i];
            let ghost before = self.spec_model();
            let ghost source_before = *random;
            match self.deliver(signal, random) {
                Ok(mut heard) => {
                    let ghost h = heard@;
                    sounds.append(&mut heard);
                    proof {
                        played.lemma_flatten_push(h);
                        let next_trace = trace.push(self.spec_model());
                        let next_played = played.push(h);
                        let next_sources = sources.push(*random);
                        assert forall|j: int| 0 <= j < i + 1 implies #[trigger] spec_dispatch_step(
                            ctx,
                            next_trace[j],
                            signals@[j],
                            Ok::<(SceneModel, Seq<Sound>), SceneError>((next_trace[j + 1], next_played[j])),
                            next_sources[j],
                            next_sources[j + 1],
                        ) by {
                            if j < i {
                                assert(next_trace[j] == trace[j]);
                                assert(next_trace[j + 1] == trace[j + 1]);
                                assert(next_played[j] == played[j]);
                                assert(next_sources[j] == sources[j]);
                                assert(next_sources[j + 1] == sources[j + 1]);
                            } else {
                                assert(next_trace[j] == before);
                                assert(next_sources[j] == source_before);
                            }
                        }
                        trace = next_trace;
                        played = next_played;
                        sources = next_sources;
                    }
                },
                Err(error) => {
                    proof {
                        let error_sources = sources.push(*random);
                        assert(trace[i as int] == before);
                        assert(error_sources[i as int] == source_before);
                        assert(spec_dispatch_step(
                            ctx,
                            trace[i as int],
                            signals@[i as int],
                            Err::<(SceneModel, Seq<Sound>), SceneError>(error),
                            error_sources[i as int],
                            error_sources[i + 1],
                        ));
                        assert forall|j: int| 0 <= j < i implies #[trigger] spec_dispatch_step(
                            ctx,
                            trace[j],
                            signals@[j],
                            Ok::<(SceneModel, Seq<Sound>), SceneError>((trace[j + 1], played[j])),
                            error_sources[j],
                            error_sources[j + 1],
                        ) by {
                            assert(error_sources[j] == sources[j]);
                            assert(error_sources[j + 1] == sources[j + 1]);
                        }
                        assert(spec_delivered(ctx, signals@, trace, played, error_sources, i as int));
                    }
                    return Err(error);
                },
            }
            i = i + 1;
        }
        Ok(sounds)
    }

    /// Runs one update after `delta_time` nanoseconds: applies the queued keys (a quit key
    /// ends the update at once), lets the objects of a game in play move and collide, then
    /// dispatches the waiting signals. Returns whether to go on, and the sounds to play in
    /// order. Fails when a delivery fails, or when the snake cannot grow any further.
    pub fn update<R: RandomSource>(&mut self, delta_time: u64, random: &mut R) -> (r: Result<(GameUpdate, Vec<Sound>), SceneError>)
        requires
            old(self).wf(),
        ensures
            final(self).wf(),
            final(self).spec_context() == old(self).spec_context(),
            final(self).spec_inputs() == Seq::<InputKey>::empty(),
            final(self).spec_game().spec_objects() == old(self).spec_game().spec_objects(),
            final(self).spec_game().spec_frame_time_elapsed() == old(self).spec_game().spec_frame_time_elapsed(),
            final(self).spec_board() == old(self).spec_board(),
            spec_same_texts(final(self).spec_status_texts(), old(self).spec_status_texts()),
            ({
                let ctx = old(self).spec_context();
                let outcome = spec_apply_inputs(old(self).spec_model().state, old(self).spec_inputs(), 0);
                let applied = spec_apply_events(SceneModel { state: outcome.state, ..old(self).spec_model() }, outcome.events);
                let in_play = applied.state == GameState::InGame;
                if outcome.update == GameUpdate::Quit {
                    &&& r matches Ok((update, sounds)) && update == GameUpdate::Quit && sounds@.len() == 0
                    &&& final(self).spec_model() == applied
                    &&& *final(random) == *old(random)
                } else if in_play && applied.snake.parts.len() >= u16::MAX && is_food(
                    spec_contact(spec_tick(applied.snake, delta_time), ctx.bounds, spec_food(ctx, applied)),
                ) {
                    &&& r matches Err(error) && error == SceneError::SnakeAtMaximumSize
                    &&& *final(random) == *old(random)
                } else {
                    let updated = if in_play { spec_update_objects(ctx, applied, delta_time) } else { applied };
                    &&& r matches Ok((update, _)) ==> update == GameUpdate::Continue
                    &&& spec_dispatched(
                        ctx,
                        SceneModel { pending: Seq::empty(), ..updated },
                        updated.pending,
                        spec_update_sounds(r),
                        final(self).spec_model(),
                        *old(random),
                        *final(random),
                    )
                }
            }),
    {
        let ghost ctx = self.spec_context();
        let (update, events) = self.game.apply_input();
        let ghost after_input = self.spec_model();
        proof {
            assert(after_input.visible =~= old(self).spec_model().visible);
            assert(self.spec_context().text_states =~= ctx.text_states);
            assert(spec_apply_events(after_input, events@.take(0)) == after_input);
        }
        let mut i: usize = 0;
        while i < events.len()
            invariant
                self.wf(),
                ctx == self.spec_context(),
                i <= events@.len(),
                self.spec_model() == spec_apply_events(after_input, events@.take(i as int)),
                self.spec_inputs() == Seq::<InputKey>::empty(),
                self.game.spec_objects() == old(self).game.spec_objects(),
                self.game.spec_frame_time_elapsed() == old(self).game.spec_frame_time_elapsed(),
                self.board == old(self).board,
                spec_same_texts(self.status_texts@, old(self).status_texts@),
            decreases events@.len() - i,
        {
            let ghost before = self.spec_model();
            match events[i] {
                GameEvent::Moved(direction) => self.snake.request_movement(direction),
                GameEvent::Signal(signal) => self.pending.push(SceneSignal::Game(signal)),
            }
            proof {
                assert(events@.take(i + 1).drop_last() =~= events@.take(i as int));
                assert(self.spec_model().visible =~= before.visible);
                assert(self.spec_context().text_states =~= ctx.text_states);
            }
            i = i + 1;
        }
        proof {
            assert(events@.take(events@.len() as int) =~= events@);
        }
        if update == GameUpdate::Quit {
            return Ok((GameUpdate::Quit, Vec::new()));
        }
        if self.game.state() == GameState::InGame {
            let ghost applied = self.spec_model();
            let bounds = self.game.playable_bounds();
            self.snake.tick(delta_time);
            let mut food: Vec<(GameObjectId, Vector2Int)> = Vec::new();
            match self.apple.collision_cell() {
                Some(cell) => food.push(cell),
                None => {},
            }
            proof {
                assert(food@ =~= spec_food(ctx, applied));
            }
            if self.snake.hp() == u16::MAX {
                match self.snake.contact(bounds, food.as_slice()) {
                    Some(SnakeContact::Food(_)) => return Err(SceneError::SnakeAtMaximumSize),
                    _ => {},
                }
            }
            match self.snake.resolve_collisions(bounds, food.as_slice()) {
                Some(signal) => self.pending.push(SceneSignal::Snake(signal)),
                None => {},
            }
            proof {
                assert(self.spec_model().visible =~= applied.visible);
                assert(self.spec_context().text_states =~= ctx.text_states);
                assert(self.spec_model() == spec_update_objects(ctx, applied, delta_time));
            }
        }
        match self.dispatch_pending(random) {
            Ok(sounds) => Ok((GameUpdate::Continue, sounds)),
            Err(error) => Err(error),
        }
    }

    pub closed spec fn spec_board(&self) -> Board {
        self.board
    }

    pub closed spec fn spec_snake(&self) -> Snake {
        self.snake
    }

    pub closed spec fn spec_apple(&self) -> Apple {
        self.apple
    }

    /// Every cell the scene draws, before ordering by depth: the board at the origin, then
    /// the snake, the apple and each status text at their positions, in the order they were
    /// placed in the game.
    pub open spec fn spec_scene_cells(&self) -> Seq<RenderCell> {
        let texts = self.spec_status_texts();
        spec_placed_cells(Vector2Int { x: 0, y: 0 }, &self.spec_board()) + spec_placed_cells(
            self.spec_snake().model().transform.position,
            &self.spec_snake(),
        ) + spec_placed_cells(self.spec_apple().spec_transform().position, &self.spec_apple()) + Seq::new(
            texts.len(),
            |i: int| spec_placed_cells(texts[i].text.spec_position(), &texts[i].text),
        ).flatten()
    }

    /// The frame the scene draws: its cells ordered by depth on the board's grid.
    pub fn render_frame(&self) -> (r: RenderFrame)
        ensures
            r.spec_viewport() == (RenderViewport { width_cells: BOARD_SIZE_X, height_cells: BOARD_SIZE_Y }),
            r.spec_cells() == sorted_by_z(self.spec_scene_cells()),
    {
        let mut cells: Vec<RenderCell> = Vec::new();
        append_render_cells(&mut cells, Vector2Int::new(0, 0), &self.board);
        append_render_cells(&mut cells, self.snake.head_position(), &self.snake);
        append_render_cells(&mut cells, self.apple.position(), &self.apple);
        let ghost objects = cells@;
        let ghost texts = self.status_texts@;
        let ghost per_text = Seq::new(
            texts.len(),
            |i: int| spec_placed_cells(texts[i].text.spec_position(), &texts[i].text),
        );
        proof {
            assert(per_text.take(0) =~= Seq::<Seq<RenderCell>>::empty());
            assert(cells@ =~= objects + per_text.take(0).flatten());
        }
        let mut i: usize = 0;
        while i < self.status_texts.len()
            invariant
                i <= texts.len(),
                texts == self.status_texts@,
                per_text == Seq::new(
                    texts.len(),
                    |i: int| spec_placed_cells(texts[i].text.spec_position(), &texts[i].text),
                ),
                cells@ == objects + per_text.take(i as int).flatten(),
            decreases texts.len() - i,
        {
            let text = &self.status_texts[i].text;
            append_render_cells(&mut cells, text.position(), text);
            proof {
                assert(per_text.take(i + 1) =~= per_text.take(i as int).push(per_text[i as int]));
                per_text.take(i as int).lemma_flatten_push(per_text[i as int]);
            }
            i = i + 1;
        }
        proof {
            assert(per_text.take(texts.len() as int) =~= per_text);
        }
        RenderFrame::new(RenderViewport::new(BOARD_SIZE_X, BOARD_SIZE_Y), cells)
    }

    /// Advances the frame clock by `delta_time` nanoseconds and draws a frame once a whole
    /// frame interval has elapsed.
    pub fn render_frame_if_due(&mut self, delta_time: u64) -> (r: Option<RenderFrame>)
        requires
            old(self).wf(),
        ensures
            final(self).wf(),
            final(self).spec_model() == old(self).spec_model(),
            final(self).spec_context() == old(self).spec_context(),
            final(self).spec_inputs() == old(self).spec_inputs(),
            final(self).spec_scene_cells() == old(self).spec_scene_cells(),
            ({
                let elapsed = spec_frame_time(old(self).spec_game().spec_frame_time_elapsed(), delta_time);
                &&& r is Some <==> elapsed == FRAME_INTERVAL_NANOS
                &&& final(self).spec_game().spec_frame_time_elapsed() == if r is Some { 0 } else { elapsed }
                &&& r matches Some(frame) ==> frame.spec_cells() == sorted_by_z(old(self).spec_scene_cells())
                    && frame.spec_viewport() == (RenderViewport { width_cells: BOARD_SIZE_X, height_cells: BOARD_SIZE_Y })
            }),
    {
        if !self.game.frame_due(delta_time) {
            return None;
        }
        Some(self.render_frame())
    }

    /// Queues a key for the next update, if there is one.
    pub fn queue_input(&mut self, input_key: Option<InputKey>)
        requires
            old(self).wf(),
        ensures
            final(self).wf(),
            final(self).spec_model() == old(self).spec_model(),
            final(self).spec_context() == old(self).spec_context(),
            final(self).spec_inputs() == match input_key {
                Some(key) => spec_pushed(old(self).spec_inputs(), key),
                None => old(self).spec_inputs(),
            },
    {
        self.game.queue_input(input_key);
    }

    /// Starts a game that has not started.
    pub fn start(&mut self) -> (r: Result<(), GameError>)
        requires
            old(self).wf(),
        ensures
            final(self).wf(),
            final(self).spec_context() == old(self).spec_context(),
            final(self).spec_inputs() == old(self).spec_inputs(),
            old(self).spec_model().state == GameState::NotStarted ==> r is Ok && final(self).spec_model() == (SceneModel {
                state: GameState::InGame,
                ..old(self).spec_model()
            }),
            old(self).spec_model().state != GameState::NotStarted ==> r == Err::<(), GameError>(GameError::AlreadyStarted)
                && final(self).spec_model() == old(self).spec_model(),
    {
        let r = self.game.start();
        proof {
            assert(self.spec_model().visible =~= old(self).spec_model().visible);
        }
        r
    }

    /// Moves a living snake's head to `position`.
    pub fn set_snake_position(&mut self, position: Vector2Int)
        requires
            old(self).wf(),
        ensures
            final(self).wf(),
            final(self).spec_context() == old(self).spec_context(),
            final(self).spec_inputs() == old(self).spec_inputs(),
            final(self).spec_model() == (SceneModel {
                snake: if old(self).spec_model().snake.lifecycle is Alive {
                    SnakeModel {
                        transform: Transform { position, ..old(self).spec_model().snake.transform },
                        ..old(self).spec_model().snake
                    }
                } else {
                    old(self).spec_model().snake
                },
                ..old(self).spec_model()
            }),
    {
        self.snake.set_position(position);
        proof {
            assert(self.spec_model().visible =~= old(self).spec_model().visible);
        }
    }

    /// Turns a living snake's look towards `direction`.
    pub fn rotate_snake_to(&mut self, direction: MoveDirection)
        requires
            old(self).wf(),
        ensures
            final(self).wf(),
            final(self).spec_context() == old(self).spec_context(),
            final(self).spec_inputs() == old(self).spec_inputs(),
            final(self).spec_model() == (SceneModel {
                snake: if old(self).spec_model().snake.lifecycle is Alive {
                    let (parts, transform) = spec_rotate_to(
                        old(self).spec_model().snake.parts,
                        old(self).spec_model().snake.transform,
                        direction,
                    );
                    SnakeModel { parts, transform, ..old(self).spec_model().snake }
                } else {
                    old(self).spec_model().snake
                },
                ..old(self).spec_model()
            }),
    {
        self.snake.rotate_to(direction);
        proof {
            assert(self.spec_model().visible =~= old(self).spec_model().visible);
        }
    }

    /// Grows a living snake by one part; fails when it cannot grow any further.
    pub fn add_snake_part(&mut self) -> (r: Result<(), SceneError>)
        requires
            old(self).wf(),
        ensures
            final(self).wf(),
            final(self).spec_context() == old(self).spec_context(),
            final(self).spec_inputs() == old(self).spec_inputs(),
            old(self).spec_model().snake.parts.len() >= u16::MAX ==> r == Err::<(), SceneError>(SceneError::SnakeAtMaximumSize)
                && final(self).spec_model() == old(self).spec_model(),
            old(self).spec_model().snake.parts.len() < u16::MAX ==> r is Ok && final(self).spec_model() == (SceneModel {
                snake: if old(self).spec_model().snake.lifecycle is Alive {
                    SnakeModel { parts: grown_parts(old(self).spec_model().snake.parts), ..old(self).spec_model().snake }
                } else {
                    old(self).spec_model().snake
                },
                ..old(self).spec_model()
            }),
    {
        if self.snake.hp() == u16::MAX {
            return Err(SceneError::SnakeAtMaximumSize);
        }
        self.snake.add_part();
        proof {
            assert(self.spec_model().visible =~= old(self).spec_model().visible);
        }
        Ok(())
    }

    /// The snake meets `contact`; what it reports waits for the next dispatch. Fails when a
    /// meal would grow the snake past its maximum size.
    pub fn collide_snake(&mut self, contact: SnakeContact) -> (r: Result<(), SceneError>)
        requires
            old(self).wf(),
        ensures
            final(self).wf(),
            final(self).spec_context() == old(self).spec_context(),
            final(self).spec_inputs() == old(self).spec_inputs(),
            old(self).spec_model().snake.parts.len() >= u16::MAX && is_food(Some(contact)) ==> r == Err::<(), SceneError>(
                SceneError::SnakeAtMaximumSize,
            ) && final(self).spec_model() == old(self).spec_model(),
            !(old(self).spec_model().snake.parts.len() >= u16::MAX && is_food(Some(contact))) ==> r is Ok && ({
                let before = old(self).spec_model();
                let (snake, signal) = if before.snake.lifecycle is Alive {
                    spec_collision(before.snake, old(self).spec_context().snake_id, contact)
                } else {
                    (before.snake, None)
                };
                final(self).spec_model() == (SceneModel {
                    snake,
                    pending: match signal {
                        Some(signal) => before.pending.push(SceneSignal::Snake(signal)),
                        None => before.pending,
                    },
                    ..before
                })
            }),
    {
        if self.snake.hp() == u16::MAX {
            match contact {
                SnakeContact::Food(_) => return Err(SceneError::SnakeAtMaximumSize),
                SnakeContact::Solid => {},
            }
        }
        match self.snake.on_collision(contact) {
            Some(signal) => self.pending.push(SceneSignal::Snake(signal)),
            None => {},
        }
        proof {
            assert(self.spec_model().visible =~= old(self).spec_model().visible);
        }
        Ok(())
    }

    /// Places the apple at `position`, uneaten.
    pub fn respawn_apple(&mut self, position: Vector2Int)
        requires
            old(self).wf(),
        ensures
            final(self).wf(),
            final(self).spec_context() == old(self).spec_context(),
            final(self).spec_inputs() == old(self).spec_inputs(),
            final(self).spec_model() == spec_apple_at(old(self).spec_model(), position),
    {
        self.apple.respawn(position);
        proof {
            assert(self.spec_model().visible =~= old(self).spec_model().visible);
        }
    }

    /// The game, its frame clock and the placed object ids.
    pub fn game(&self) -> (r: &Game)
        ensures
            *r == self.spec_game(),
    {
        &self.game
    }

    pub fn state(&self) -> (r: GameState)
        ensures
            r == self.spec_model().state,
    {
        self.game.state()
    }

    pub fn playable_bounds(&self) -> (r: Bounds)
        ensures
            r == self.spec_context().bounds,
    {
        self.game.playable_bounds()
    }

    pub fn snake(&self) -> (r: &Snake)
        ensures
            r.model() == self.spec_model().snake,
            r.spec_id() == self.spec_context().snake_id,
    {
        &self.snake
    }

    pub fn apple(&self) -> (r: &Apple)
        ensures
            r.spec_transform() == self.spec_model().apple,
            r.spec_eaten() == self.spec_model().apple_eaten,
            r.spec_id() == self.spec_context().apple_id,
    {
        &self.apple
    }

    pub fn status_texts(&self) -> (r: &Vec<StatusText>)
        ensures
            r@.len() == self.spec_model().visible.len(),
            forall|i: int| 0 <= i < r@.len() ==> (#[trigger] r@[i]).text.spec_visible() == self.spec_model().visible[i]
                && r@[i].state == self.spec_context().text_states[i],
    {
        &self.status_texts
    }
}

} // verus!
