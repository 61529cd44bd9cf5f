use std::convert::Infallible;

use rust_snake::game::{
    Game, GameError, GameEvent, GameSignal, GameState, GameUpdate, InsertObjectError,
    FRAME_INTERVAL_NANOS,
};
use rust_snake::assets;
use rust_snake::input_queue::InputKey;
use rust_snake::models::apple::Apple;
use rust_snake::models::snake::Snake;
use rust_snake::scene::SnakeScene;
use rust_snake::signal::{EmittedSignals, SignalBusBuilder, SignalListener, SignalQueue};
use rust_snake::{GameObjectId, MoveDirection, Vector2Int};

const GAME_SIGNAL: u64 = 7;

struct Recorder;

impl SignalListener<GameSignal, Vec<GameSignal>, Infallible> for Recorder {
    fn handles(
        &self,
        _signal: GameSignal,
        _before: Vec<GameSignal>,
        _after: Vec<GameSignal>,
        _emitted: EmittedSignals<GameSignal>,
        _result: Result<(), Infallible>,
    ) -> bool {
        true
    }

    fn handle(
        &self,
        signal: &GameSignal,
        received: &mut Vec<GameSignal>,
        _signals: &mut SignalQueue<GameSignal>,
    ) -> Result<(), Infallible> {
        received.push(*signal);
        Ok(())
    }
}

#[test]
fn emits_game_signal_variants_through_one_emitter() {
    let mut signals = SignalBusBuilder::<GameSignal, Recorder>::new();
    let emitter = signals.register(GAME_SIGNAL).unwrap();
    signals.on(GAME_SIGNAL, Recorder);
    let mut signals = signals.build();
    let mut game = Game::new();
    let mut received = Vec::new();

    let paused = game.toggle_pause();
    signals.emit(&emitter, paused);
    let unpaused = game.toggle_pause();
    signals.emit(&emitter, unpaused);
    let over = game.end();
    signals.emit(&emitter, over);
    let reset = game.reset();
    signals.emit(&emitter, reset);
    assert!(received.is_empty());
    signals.dispatch_pending(&mut received).unwrap();

    assert_eq!(
        received,
        [
            GameSignal::PauseChanged { is_paused: true },
            GameSignal::PauseChanged { is_paused: false },
            GameSignal::Over,
            GameSignal::Reset,
        ]
    );
}

#[test]
fn inserts_objects_at_the_same_position() {
    let mut game = Game::new();
    let position = Vector2Int::new(24, 7);
    let mut snake = Snake::spawn();
    snake.set_position(position);
    let apple = Apple::spawn(position);

    assert!(game.insert_object(GameObjectId::new()).is_ok());
    let scene = SnakeScene::register_snake_objects(game, snake, apple).unwrap();
    assert_eq!(scene.game().object_render_order().len(), 3);
    assert_eq!(
        scene
            .render_frame()
            .cells()
            .iter()
            .filter(|cell| {
                cell.position_world() == position
                    && (cell.texture() == assets::snake_head() || cell.texture() == assets::apple())
            })
            .count(),
        2
    );
}

#[test]
fn rejects_an_object_with_a_duplicate_id() {
    let mut game = Game::new();
    let id = GameObjectId::new();

    assert!(
        game.insert_object(id).is_ok(),
        "the first object should be inserted"
    );
    assert_eq!(
        game.insert_object(id),
        Err(InsertObjectError::ObjectAlreadyPlaced { id })
    );
    assert_eq!(game.object_render_order(), &vec![id]);
}

#[test]
fn playable_bounds_exclude_the_board_walls() {
    let bounds = Game::new().playable_bounds();

    assert_eq!(bounds.start, Vector2Int::new(1, 1));
    assert_eq!(bounds.end, Vector2Int::new(22, 22));
}

#[test]
fn queues_input_until_it_is_flushed() {
    let mut game = Game::new();
    game.queue_input(Some(InputKey::Move(MoveDirection::Up)));
    game.queue_input(None);
    game.queue_input(Some(InputKey::Quit));

    assert_eq!(
        game.flush_input().into_iter().collect::<Vec<_>>(),
        [InputKey::Move(MoveDirection::Up), InputKey::Quit]
    );
    assert!(game.flush_input().is_empty());
}

#[test]
fn start_and_unpause_are_refused_in_the_wrong_state() {
    let mut game = Game::new();
    assert_eq!(game.state(), GameState::NotStarted);
    assert_eq!(game.unpause(), Err(GameError::NotPaused));
    assert_eq!(game.start(), Ok(()));
    assert_eq!(game.state(), GameState::InGame);
    assert_eq!(game.start(), Err(GameError::AlreadyStarted));
    assert_eq!(
        GameError::AlreadyStarted.message(),
        "game already started, it cannot be started."
    );
    assert_eq!(
        GameError::NotPaused.message(),
        "game is not paused, it cannot be unpaused."
    );
    game.toggle_pause();
    assert_eq!(game.state(), GameState::Paused);
    assert_eq!(game.unpause(), Ok(()));
    assert_eq!(game.state(), GameState::InGame);
}

#[test]
fn a_move_starts_the_game_and_reaches_the_move_handlers() {
    let mut game = Game::new();
    game.queue_input(Some(InputKey::Move(MoveDirection::Left)));

    let (update, events) = game.apply_input();

    assert_eq!(update, GameUpdate::Continue);
    assert_eq!(events, [GameEvent::Moved(MoveDirection::Left)]);
    assert_eq!(game.state(), GameState::InGame);
    assert!(game.flush_input().is_empty());
}

#[test]
fn any_other_key_starts_the_game() {
    let mut game = Game::new();
    game.queue_input(Some(InputKey::Other));

    let (update, events) = game.apply_input();

    assert_eq!(update, GameUpdate::Continue);
    assert!(events.is_empty());
    assert_eq!(game.state(), GameState::InGame);
}

#[test]
fn quit_stops_applying_inputs() {
    let mut game = Game::new();
    game.queue_input(Some(InputKey::Pause));
    game.queue_input(Some(InputKey::Quit));
    game.queue_input(Some(InputKey::Pause));

    let (update, events) = game.apply_input();

    assert_eq!(update, GameUpdate::Quit);
    assert_eq!(
        events,
        [GameEvent::Signal(GameSignal::PauseChanged { is_paused: true })]
    );
    assert_eq!(game.state(), GameState::Paused);
}

#[test]
fn after_game_over_only_reset_is_heard_and_nothing_after_it() {
    let mut game = Game::new();
    game.end();
    game.queue_input(Some(InputKey::Move(MoveDirection::Up)));
    game.queue_input(Some(InputKey::Reset));
    let (update, events) = game.apply_input();
    assert_eq!(update, GameUpdate::Continue);
    assert!(events.is_empty());
    assert_eq!(game.state(), GameState::GameOver);

    game.queue_input(Some(InputKey::Reset));
    game.queue_input(Some(InputKey::Move(MoveDirection::Up)));
    let (update, events) = game.apply_input();
    assert_eq!(update, GameUpdate::Continue);
    assert_eq!(events, [GameEvent::Signal(GameSignal::Reset)]);
    assert_eq!(game.state(), GameState::NotStarted);
}

#[test]
fn reset_is_heard_only_in_play() {
    let mut game = Game::new();
    game.queue_input(Some(InputKey::Reset));
    let (_, events) = game.apply_input();
    assert!(events.is_empty());
    assert_eq!(game.state(), GameState::NotStarted);

    game.start().unwrap();
    game.queue_input(Some(InputKey::Reset));
    let (_, events) = game.apply_input();
    assert_eq!(events, [GameEvent::Signal(GameSignal::Reset)]);
    assert_eq!(game.state(), GameState::NotStarted);
}

#[test]
fn a_move_unpauses_a_paused_game() {
    let mut game = Game::new();
    game.start().unwrap();
    game.toggle_pause();
    game.queue_input(Some(InputKey::Move(MoveDirection::Down)));
    let (_, events) = game.apply_input();
    assert_eq!(events, [GameEvent::Moved(MoveDirection::Down)]);
    assert_eq!(game.state(), GameState::InGame);
}

#[test]
fn a_frame_is_due_once_per_interval() {
    let mut game = Game::new();
    assert!(!game.frame_due(FRAME_INTERVAL_NANOS - 1));
    assert!(game.frame_due(1));
    assert!(!game.frame_due(0));
    assert!(game.frame_due(u64::MAX));
    assert!(game.frame_due(FRAME_INTERVAL_NANOS));
}

#[test]
fn insert_error_names_the_object_by_its_uuid() {
    let id = GameObjectId::new();
    let text = id.to_string();

    assert_eq!(text.len(), 36);
    for (index, character) in text.chars().enumerate() {
        if [8, 13, 18, 23].contains(&index) {
            assert_eq!(character, '-');
        } else {
            assert!(character.is_ascii_hexdigit() && !character.is_ascii_uppercase());
        }
    }
    assert_eq!(text.chars().nth(14), Some('4'));
    assert!(matches!(text.chars().nth(19), Some('8' | '9' | 'a' | 'b')));
    let digits: String = text.chars().filter(|character| *character != '-').collect();
    assert_eq!(u128::from_str_radix(&digits, 16), Ok(id.value()));
    assert_eq!(
        InsertObjectError::ObjectAlreadyPlaced { id }.message(),
        format!("object {text} is already placed")
    );
}

#[test]
fn pausing_twice_returns_to_play() {
    let mut game = Game::new();
    game.start().unwrap();
    assert_eq!(
        game.toggle_pause(),
        GameSignal::PauseChanged { is_paused: true }
    );
    assert_eq!(
        game.toggle_pause(),
        GameSignal::PauseChanged { is_paused: false }
    );
    assert_eq!(game.state(), GameState::InGame);
}
