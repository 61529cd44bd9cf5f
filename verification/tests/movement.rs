use rust_snake::movement::{compute_move_forward, compute_new_rotation};
use rust_snake::{MoveDirection, Rotation, TransformRotation, Vector2Int};

#[test]
fn compute_move_forward_moves_in_the_facing_direction() {
    let position = Vector2Int::new(10, 10);
    let cases = [
        (Rotation::right(), Vector2Int::new(12, 10)),
        (Rotation::down(), Vector2Int::new(10, 12)),
        (Rotation::left(), Vector2Int::new(8, 10)),
        (Rotation::up(), Vector2Int::new(10, 8)),
    ];

    for (rotation, expected_position) in cases {
        assert_eq!(
            Some(expected_position),
            compute_move_forward(position, rotation, 2)
        );
    }
}

#[test]
fn compute_new_rotation_computes_some() {
    let cases = [
        (Rotation::left(), MoveDirection::Up, Rotation::up()),
        (Rotation::right(), MoveDirection::Up, Rotation::up()),
        (Rotation::up(), MoveDirection::Left, Rotation::left()),
        (Rotation::down(), MoveDirection::Right, Rotation::right()),
    ];

    for (rotation, input_key, expected_rotation) in cases {
        assert_eq!(
            Some(expected_rotation),
            compute_new_rotation(input_key, rotation)
        );
    }
}

#[test]
fn compute_new_rotation_returns_none_when_no_rotation_necessary() {
    let cases = [
        (Rotation::up(), MoveDirection::Up),
        (Rotation::down(), MoveDirection::Up),
        (Rotation::left(), MoveDirection::Left),
        (Rotation::right(), MoveDirection::Right),
    ];

    for (rotation, input_key) in cases {
        assert_eq!(None, compute_new_rotation(input_key, rotation));
    }
}

#[test]
fn off_axis_rotation_does_not_move() {
    assert_eq!(
        compute_move_forward(Vector2Int::new(0, 0), Rotation::new(45), 1),
        None
    );
}

#[test]
fn rotations_wrap_around_a_full_turn() {
    assert_eq!(Rotation::new(450).into_inner(), 90);
    assert_eq!(Rotation::up().rotate(Rotation::left()).into_inner(), 90);
    assert_eq!(Rotation::from(MoveDirection::Left), Rotation::left());
}

#[test]
fn looking_back_to_the_body_cancels_a_pending_turn() {
    let mut rotation = TransformRotation::new();
    assert_eq!(rotation.look_to(MoveDirection::Up), Rotation::up());
    assert_eq!(rotation.look_to(MoveDirection::Left), Rotation::up());
    assert_eq!(rotation.look_to(MoveDirection::Right), Rotation::right());
    assert_eq!(rotation.look(), rotation.body());
    rotation.look_to(MoveDirection::Down);
    assert_eq!(rotation.consume_look(), Rotation::down());
    assert_eq!(rotation.look(), Rotation::down());
}
