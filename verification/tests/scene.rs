use rust_snake::assets;
use rust_snake::audio::Sound;
use rust_snake::game::{Game, GameState, GameUpdate};
use rust_snake::input_queue::InputKey;
use rust_snake::models::apple::Apple;
use rust_snake::models::snake::{Snake, SnakeContact};
use rust_snake::random::RandRandomSource;
use rust_snake::scene::{SceneError, SnakeScene};
use rust_snake::{Bounds, GameObject, MoveDirection, Rotation, Vector2Int};

fn new_scene() -> SnakeScene {
    let game = Game::new();
    let mut snake = Snake::spawn();
    let apple = Apple::spawn(Vector2Int::new(18, 18));
    snake.set_position(game.playable_bounds().middle());
    SnakeScene::register_snake_objects(game, snake, apple).unwrap()
}

fn snake_cells(scene: &SnakeScene) -> Vec<(Vector2Int, rust_snake::Texture, Rotation)> {
    scene
        .render_frame()
        .cells()
        .iter()
        .filter(|cell| {
            cell.texture() == assets::snake_head() || cell.texture() == assets::snake_part()
        })
        .map(|cell| (cell.position_world(), cell.texture(), cell.rotation()))
        .collect()
}

#[test]
fn collision_grows_the_snake_and_respawns_the_apple_on_the_next_update() {
    let mut scene = new_scene();
    let mut random = RandRandomSource::new(0);
    let position = scene.apple().position();
    scene.set_snake_position(position);
    let size = scene.snake().hp();
    scene.start().unwrap();

    scene.update(0, &mut random).unwrap();

    assert_eq!(scene.snake().hp(), size + 1);
    assert!(scene.apple().eaten());
    let (update, sounds) = scene.update(0, &mut random).unwrap();
    assert_eq!(update, GameUpdate::Continue);
    assert_eq!(sounds, [Sound::Coin]);
    assert!(!scene.apple().eaten());
    let position = scene.apple().position();
    let Bounds { start, end } = scene.playable_bounds();
    assert!((start.x..end.x).contains(&position.x));
    assert!((start.y..end.y).contains(&position.y));
    assert!(!scene.snake().occupied_cells().contains(&position));
    assert_eq!(snake_cells(&scene).len(), usize::from(size + 1));
}

#[test]
fn dead_snake_does_not_consume_an_overlapping_apple() {
    let mut scene = new_scene();
    let mut random = RandRandomSource::new(0);
    let position = Vector2Int::new(10, 10);
    scene.respawn_apple(position);
    scene.set_snake_position(position);
    scene.collide_snake(SnakeContact::Solid).unwrap();
    let size = scene.snake().hp();
    scene.start().unwrap();

    let (_, sounds) = scene.update(0, &mut random).unwrap();

    assert_eq!(scene.state(), GameState::GameOver);
    assert_eq!(sounds, [Sound::Impact]);
    assert_eq!(scene.snake().hp(), size);
    assert!(!scene.apple().eaten());
    assert_eq!(scene.apple().position(), position);
}

#[test]
fn reset_respawns_objects_during_play_and_after_game_over() {
    for game_over in [false, true] {
        let mut scene = new_scene();
        let mut random = RandRandomSource::new(0);
        let size = scene.snake().hp();
        scene.start().unwrap();
        scene.add_snake_part().unwrap();
        scene.set_snake_position(Vector2Int::new(2, 2));
        if game_over {
            scene.collide_snake(SnakeContact::Solid).unwrap();
            scene.update(0, &mut random).unwrap();
            assert_eq!(scene.state(), GameState::GameOver);
        }

        scene.queue_input(Some(InputKey::Reset));
        scene.update(0, &mut random).unwrap();

        assert_eq!(scene.state(), GameState::InGame);
        assert!(scene.snake().is_alive());
        assert_eq!(scene.snake().hp(), size);
        assert_eq!(scene.snake().position(), scene.playable_bounds().middle());
        assert!(!scene.apple().eaten());
    }
}

#[test]
fn render_frame_resolves_rotated_snake_parts_relative_to_the_snake() {
    let mut scene = new_scene();
    scene.set_snake_position(Vector2Int::new(10, 10));
    scene.rotate_snake_to(MoveDirection::Down);

    assert_eq!(
        snake_cells(&scene),
        [
            (Vector2Int::new(10, 10), assets::snake_head(), Rotation::down()),
            (Vector2Int::new(9, 10), assets::snake_part(), Rotation::right()),
            (Vector2Int::new(8, 10), assets::snake_part(), Rotation::right()),
            (Vector2Int::new(7, 10), assets::snake_part(), Rotation::right()),
        ]
    );
}

#[test]
fn render_frame_places_objects_above_the_board_at_world_positions() {
    let mut scene = new_scene();
    let position = Vector2Int::new(4, 7);
    scene.respawn_apple(position);

    let frame = scene.render_frame();

    assert_eq!(
        frame
            .cells()
            .iter()
            .filter(|cell| cell.position_world() == position)
            .map(|cell| cell.texture())
            .collect::<Vec<_>>(),
        [assets::blank(), assets::apple()]
    );
    assert_eq!(frame.viewport().width_cells(), 24);
    assert_eq!(frame.viewport().height_cells(), 24);
}

#[test]
fn quit_ends_the_update_before_anything_moves() {
    let mut scene = new_scene();
    let mut random = RandRandomSource::new(0);
    scene.start().unwrap();
    let head = scene.snake().position();
    scene.queue_input(Some(InputKey::Quit));

    let (update, sounds) = scene.update(1_000_000_000, &mut random).unwrap();

    assert_eq!(update, GameUpdate::Quit);
    assert!(sounds.is_empty());
    assert_eq!(scene.snake().position(), head);
}

#[test]
fn a_move_key_starts_the_game_and_moves_the_snake() {
    let mut scene = new_scene();
    let mut random = RandRandomSource::new(0);
    let head = scene.snake().position();
    scene.queue_input(Some(InputKey::Move(MoveDirection::Up)));

    let (update, sounds) = scene.update(0, &mut random).unwrap();

    assert_eq!(update, GameUpdate::Continue);
    assert!(sounds.is_empty());
    assert_eq!(scene.state(), GameState::InGame);
    assert_eq!(scene.snake().position(), Vector2Int::new(head.x, head.y - 1));
}

#[test]
fn the_snake_waits_for_its_movement_interval() {
    let mut scene = new_scene();
    let mut random = RandRandomSource::new(0);
    scene.start().unwrap();
    let head = scene.snake().position();

    scene.update(50_000_000, &mut random).unwrap();
    assert_eq!(scene.snake().position(), head);
    scene.update(50_000_000, &mut random).unwrap();
    assert_eq!(scene.snake().position(), Vector2Int::new(head.x + 1, head.y));
}

#[test]
fn pausing_plays_the_pause_sounds_and_stops_the_snake() {
    let mut scene = new_scene();
    let mut random = RandRandomSource::new(0);
    scene.start().unwrap();
    let head = scene.snake().position();

    scene.queue_input(Some(InputKey::Pause));
    let (_, sounds) = scene.update(200_000_000, &mut random).unwrap();
    assert_eq!(sounds, [Sound::Pause]);
    assert_eq!(scene.state(), GameState::Paused);
    assert_eq!(scene.snake().position(), head);

    scene.queue_input(Some(InputKey::Pause));
    let (_, sounds) = scene.update(0, &mut random).unwrap();
    assert_eq!(sounds, [Sound::Unpause]);
    assert_eq!(scene.state(), GameState::InGame);
}

#[test]
fn hitting_the_wall_ends_the_game() {
    let mut scene = new_scene();
    let mut random = RandRandomSource::new(0);
    scene.start().unwrap();
    scene.set_snake_position(Vector2Int::new(0, 10));

    let (_, sounds) = scene.update(0, &mut random).unwrap();

    assert_eq!(sounds, [Sound::Impact]);
    assert_eq!(scene.state(), GameState::GameOver);
    assert!(!scene.snake().is_alive());
}

#[test]
fn status_line_shows_the_text_of_the_current_state() {
    let mut random = RandRandomSource::new(3);
    let mut scene = SnakeScene::register_snake_scene(&mut random).unwrap();
    let visible = |scene: &SnakeScene| -> Vec<bool> {
        scene.status_texts().iter().map(|status| status.text.visible()).collect()
    };
    assert_eq!(scene.status_texts().len(), 3);
    assert_eq!(visible(&scene), [true, false, false]);
    assert_eq!(scene.snake().position(), Vector2Int::new(11, 11));
    assert!(!scene.apple().eaten());

    scene.start().unwrap();
    scene.queue_input(Some(InputKey::Pause));
    scene.update(0, &mut random).unwrap();
    assert_eq!(visible(&scene), [false, true, false]);

    scene.queue_input(Some(InputKey::Pause));
    scene.update(0, &mut random).unwrap();
    assert_eq!(visible(&scene), [false, false, false]);

    scene.set_snake_position(Vector2Int::new(0, 0));
    scene.update(0, &mut random).unwrap();
    assert_eq!(scene.state(), GameState::GameOver);
    scene.update(0, &mut random).unwrap();
    assert_eq!(visible(&scene), [false, false, true]);

    let notice: String = scene
        .render_frame()
        .cells()
        .iter()
        .filter(|cell| cell.position_world().y == 24)
        .map(|cell| cell.texture().character(Rotation::right()))
        .collect();
    assert_eq!(notice, "Game over! Press 'R' to restart.");
}

#[test]
fn a_reset_in_the_same_update_as_a_move_is_refused() {
    let mut scene = new_scene();
    let mut random = RandRandomSource::new(0);
    scene.start().unwrap();
    scene.queue_input(Some(InputKey::Reset));
    scene.queue_input(Some(InputKey::Move(MoveDirection::Up)));

    assert_eq!(
        scene.update(0, &mut random),
        Err(SceneError::Game(rust_snake::game::GameError::AlreadyStarted))
    );
}
