use rust_snake::assets;
use rust_snake::models::snake::{
    detect_contact, Snake, SnakeBody, SnakeContact, SnakeError, SnakeSignal, MOVEMENT_INTERVAL_NANOS,
};
use rust_snake::{Bounds, GameObject, GameObjectId, Move, MoveDirection, Render, Rotation, Texture, Vector2Int};

const ONE_MILLISECOND: u64 = 1_000_000;

fn spawn_snake() -> Snake {
    Snake::spawn()
}

fn render_positions_local(snake: &Snake) -> Vec<Vector2Int> {
    snake
        .render_items()
        .into_iter()
        .map(|item| item.position_local())
        .collect()
}

fn render_textures(snake: &Snake) -> Vec<Texture> {
    snake
        .render_items()
        .into_iter()
        .map(|item| item.texture())
        .collect()
}

fn assert_head_looks(snake: &Snake, expected_rotation: Rotation) {
    let head = snake
        .render_items()
        .into_iter()
        .next()
        .expect("a snake should render a head");

    assert_eq!(
        (head.texture(), head.rotation()),
        (assets::snake_head(), expected_rotation)
    );
}

#[test]
fn body_accepts_inclusive_size_bounds() {
    assert!(SnakeBody::try_new(SnakeBody::MIN_SIZE).is_ok());
    assert!(SnakeBody::try_new(SnakeBody::MAX_SIZE).is_ok());
}

#[test]
fn body_rejects_invalid_sizes() {
    let invalid_max = SnakeBody::MAX_SIZE + 1;
    let invalid_min = SnakeBody::MIN_SIZE - 1;

    assert_eq!(
        SnakeBody::try_new(invalid_min),
        Err(SnakeError::SizeTooSmall {
            min: SnakeBody::MIN_SIZE,
            actual: invalid_min,
        })
    );
    assert_eq!(
        SnakeBody::try_new(invalid_max),
        Err(SnakeError::SizeTooBig {
            max: SnakeBody::MAX_SIZE,
            actual: invalid_max,
        })
    )
}

#[test]
fn solid_contacts_take_precedence_over_food() {
    let bounds = Bounds {
        start: Vector2Int::new(1, 1),
        end: Vector2Int::new(23, 23),
    };
    let head = Vector2Int::new(10, 10);
    let tail_previous = Vector2Int::new(9, 10);
    let food_id = GameObjectId::new();
    let food_other_id = GameObjectId::new();
    for (head, body, food, expected) in [
        (
            head,
            vec![head],
            vec![(food_id, head)],
            Some(SnakeContact::Solid),
        ),
        (
            Vector2Int::new(23, 10),
            vec![],
            vec![(food_id, Vector2Int::new(23, 10))],
            Some(SnakeContact::Solid),
        ),
        (
            head,
            vec![tail_previous],
            vec![(food_other_id, tail_previous), (food_id, head)],
            Some(SnakeContact::Food(food_id)),
        ),
        (head, vec![tail_previous], vec![], None),
        (tail_previous, vec![head], vec![(food_id, head)], None),
    ] {
        assert_eq!(detect_contact(head, &body, bounds, &food), expected);
    }
}

#[test]
fn hp_is_derived_from_body_size() {
    let mut snake = spawn_snake();
    let body_size = SnakeBody::MIN_SIZE + 3;
    snake.set_body(SnakeBody::try_new(body_size).unwrap());

    assert_eq!(snake.hp(), body_size);
}

#[test]
fn move_forward_moves_once_and_keeps_body_positions_local_to_the_snake() {
    let mut snake = spawn_snake();
    snake.set_position(Vector2Int::new(10, 10));

    snake.tick(MOVEMENT_INTERVAL_NANOS);

    assert_eq!(snake.position(), Vector2Int::new(11, 10));
    assert_eq!(
        render_positions_local(&snake),
        [
            Vector2Int::new(0, 0),
            Vector2Int::new(-1, 0),
            Vector2Int::new(-2, 0),
            Vector2Int::new(-3, 0),
        ]
    );
}

#[test]
fn input_movement_does_reset_the_tick_interval() {
    let mut snake = spawn_snake();
    let position = Vector2Int::new(10, 10);
    let one_millisecond = ONE_MILLISECOND;
    let almost_one_interval = MOVEMENT_INTERVAL_NANOS - one_millisecond;
    snake.set_position(position);

    snake.tick(almost_one_interval);
    snake.request_movement(MoveDirection::Right);
    snake.request_movement(MoveDirection::Right);
    snake.tick(0);
    snake.tick(one_millisecond);

    assert_eq!(snake.position(), Vector2Int::new(11, 10));

    snake.tick(almost_one_interval);

    assert_eq!(snake.position(), Vector2Int::new(12, 10));
}

#[test]
fn killed_snake_does_not_move() {
    let mut snake = spawn_snake();
    let position = Vector2Int::new(10, 10);
    snake.set_position(position);
    snake.kill();

    snake.request_movement(MoveDirection::Down);
    snake.tick(MOVEMENT_INTERVAL_NANOS);

    assert_eq!(snake.position(), position);
}

#[test]
fn move_forward_preserves_the_body_trail_after_a_turn() {
    let mut snake = spawn_snake();
    snake.set_position(Vector2Int::new(10, 10));
    snake.tick(MOVEMENT_INTERVAL_NANOS);
    snake.request_movement(MoveDirection::Down);
    snake.tick(0);

    assert_eq!(snake.position(), Vector2Int::new(11, 11));
    assert_eq!(
        render_positions_local(&snake),
        [
            Vector2Int::new(0, 0),
            Vector2Int::new(0, -1),
            Vector2Int::new(-1, -1),
            Vector2Int::new(-2, -1),
        ]
    );
    assert_eq!(
        render_textures(&snake),
        [
            assets::snake_head(),
            assets::snake_part(),
            assets::snake_part(),
            assets::snake_part(),
        ]
    );
    assert_head_looks(&snake, Rotation::down());
}

#[test]
fn latest_valid_look_replaces_the_next_movement() {
    let mut snake = spawn_snake();
    snake.set_position(Vector2Int::new(10, 10));

    snake.rotate_to(MoveDirection::Up);
    assert_head_looks(&snake, Rotation::up());

    snake.rotate_to(MoveDirection::Left);
    assert_head_looks(&snake, Rotation::up());

    snake.rotate_to(MoveDirection::Down);
    assert_head_looks(&snake, Rotation::down());
    snake.tick(MOVEMENT_INTERVAL_NANOS);

    assert_eq!(snake.position(), Vector2Int::new(10, 11));
    assert_head_looks(&snake, Rotation::down());
}

#[test]
fn looking_in_the_body_direction_cancels_the_next_turn() {
    let mut snake = spawn_snake();
    snake.set_position(Vector2Int::new(10, 10));
    snake.rotate_to(MoveDirection::Up);

    snake.rotate_to(MoveDirection::Right);
    snake.tick(MOVEMENT_INTERVAL_NANOS);

    assert_eq!(snake.position(), Vector2Int::new(11, 10));
    assert_head_looks(&snake, Rotation::right());
}

#[test]
fn tick_consumes_the_look_for_subsequent_validation() {
    let mut snake = spawn_snake();
    snake.set_position(Vector2Int::new(10, 10));
    snake.rotate_to(MoveDirection::Down);

    snake.tick(MOVEMENT_INTERVAL_NANOS);
    snake.rotate_to(MoveDirection::Left);
    snake.tick(MOVEMENT_INTERVAL_NANOS);

    assert_eq!(snake.position(), Vector2Int::new(9, 11));
}

#[test]
fn food_contact_grows_and_reports_while_solid_contact_kills_once() {
    let mut snake = spawn_snake();
    let food_id = GameObjectId::new();
    let size = snake.hp();
    assert_eq!(
        snake.on_collision(SnakeContact::Food(food_id)),
        Some(SnakeSignal::FoodEaten { food_id })
    );
    assert_eq!(snake.hp(), size + 1);
    assert_eq!(
        snake.on_collision(SnakeContact::Solid),
        Some(SnakeSignal::Killed { snake_id: snake.id() })
    );
    assert!(!snake.is_alive());
    assert_eq!(snake.on_collision(SnakeContact::Food(food_id)), None);
    assert_eq!(snake.kill(), None);
    assert_eq!(snake.hp(), size + 1);
}

#[test]
fn resolving_collisions_hits_walls_body_and_food() {
    let bounds = Bounds {
        start: Vector2Int::new(1, 1),
        end: Vector2Int::new(23, 23),
    };
    let food_id = GameObjectId::new();
    let mut snake = spawn_snake();
    snake.set_position(Vector2Int::new(10, 10));
    assert_eq!(snake.resolve_collisions(bounds, &[]), None);
    assert_eq!(
        snake.resolve_collisions(bounds, &[(food_id, Vector2Int::new(10, 10))]),
        Some(SnakeSignal::FoodEaten { food_id })
    );
    assert_eq!(snake.hp(), SnakeBody::MIN_SIZE + 1);
    snake.set_position(Vector2Int::new(23, 10));
    assert_eq!(
        snake.resolve_collisions(bounds, &[]),
        Some(SnakeSignal::Killed { snake_id: snake.id() })
    );
    assert_eq!(snake.resolve_collisions(bounds, &[]), None);
}

#[test]
fn respawn_restores_a_living_default_snake() {
    let mut snake = spawn_snake();
    snake.add_part();
    snake.kill();
    let transform = rust_snake::Transform {
        position: Vector2Int::new(5, 6),
        rotation: rust_snake::TransformRotation::new(),
    };
    snake.respawn(transform);
    assert!(snake.is_alive());
    assert_eq!(snake.hp(), SnakeBody::MIN_SIZE);
    assert_eq!(snake.head_position(), Vector2Int::new(5, 6));
    assert_eq!(
        snake.occupied_cells(),
        [
            Vector2Int::new(5, 6),
            Vector2Int::new(4, 6),
            Vector2Int::new(3, 6),
            Vector2Int::new(2, 6),
        ]
    );
}

#[test]
fn adding_a_part_copies_the_tail() {
    let mut body = SnakeBody::try_new(SnakeBody::MIN_SIZE).unwrap();
    body.add_part();
    let parts = body.parts_textures();
    assert_eq!(parts.len(), 5);
    assert_eq!(parts[4], parts[3]);
}

#[test]
fn a_look_never_turns_the_snake_straight_back() {
    let mut snake = spawn_snake();
    snake.set_position(Vector2Int::new(10, 10));

    snake.rotate_to(MoveDirection::Left);
    assert_head_looks(&snake, Rotation::right());
    snake.tick(MOVEMENT_INTERVAL_NANOS);
    assert_eq!(snake.position(), Vector2Int::new(11, 10));

    snake.rotate_to(MoveDirection::Up);
    snake.rotate_to(MoveDirection::Down);
    assert_head_looks(&snake, Rotation::down());
    snake.tick(MOVEMENT_INTERVAL_NANOS);
    assert_eq!(snake.position(), Vector2Int::new(11, 11));
}
