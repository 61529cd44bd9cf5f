use vstd::prelude::*;

use crate::geometry::{Rotation, Vector2Int};

verus! {

#[derive(Debug, PartialEq, Eq, Clone, Copy, Structural)]
pub enum MoveDirection {
    Up,
    Down,
    Left,
    Right,
}

/// Objects that can be turned towards a direction.
pub trait Move {
    fn rotate_to(&mut self, direction: MoveDirection);
}

/// The offset of one move of `magnitude` cells towards a rotation, or `None` when the
/// rotation is not one of the four directions. `(0,0)` is top-left, so up is negative `y`.
pub open spec fn spec_forward_offset(degrees: u16, magnitude: int) -> Option<(int, int)> {
    if degrees == 0 {
        Some((magnitude, 0))
    } else if degrees == 90 {
        Some((0, magnitude))
    } else if degrees == 180 {
        Some((-magnitude, 0))
    } else if degrees == 270 {
        Some((0, -magnitude))
    } else {
        None
    }
}

/// Where a move of `magnitude` cells from `position` towards `rotation` ends.
pub open spec fn spec_move_forward(position: Vector2Int, rotation: Rotation, magnitude: int) -> Option<Vector2Int> {
    match spec_forward_offset(rotation.degrees(), magnitude) {
        Some((dx, dy)) => Some(position.spec_saturating_add(Vector2Int { x: dx as i32, y: dy as i32 })),
        None => None,
    }
}

/// (0,0) is top-left, so up is negative `y`
pub fn compute_move_forward(position: Vector2Int, rotation: Rotation, magnitude: i32) -> (r: Option<Vector2Int>)
    requires
        magnitude > i32::MIN,
    ensures
        r == spec_move_forward(position, rotation, magnitude as int),
{
    let degrees = rotation.into_inner();
    let movement_offset = if degrees == 0 {
        Vector2Int::new(magnitude, 0)
    } else if degrees == 90 {
        Vector2Int::new(0, magnitude)
    } else if degrees == 180 {
        Vector2Int::new(-magnitude, 0)
    } else if degrees == 270 {
        Vector2Int::new(0, -magnitude)
    } else {
        return None;
    };
    Some(position.saturating_add(movement_offset))
}

/// The rotation an input turns towards: a quarter turn from the current axis, or none if
/// no change is necessary (same direction, or a reversal).
pub open spec fn spec_new_rotation(direction: MoveDirection, rotation: Rotation) -> Option<Rotation> {
    let horizontal = rotation.degrees() == 0 || rotation.degrees() == 180;
    let vertical = rotation.degrees() == 90 || rotation.degrees() == 270;
    match direction {
        MoveDirection::Up => if horizontal { Some(Rotation::spec_from_direction(MoveDirection::Up)) } else { None },
        MoveDirection::Down => if horizontal { Some(Rotation::spec_from_direction(MoveDirection::Down)) } else { None },
        MoveDirection::Right => if vertical { Some(Rotation::spec_from_direction(MoveDirection::Right)) } else { None },
        MoveDirection::Left => if vertical { Some(Rotation::spec_from_direction(MoveDirection::Left)) } else { None },
    }
}

/// A turn always faces the pressed direction, and it is a quarter turn: a turn is given
/// exactly when the current rotation is one of the four directions and lies a quarter turn
/// away from the pressed one (never for the same direction or straight back).
pub proof fn lemma_turn_faces_the_pressed_direction(direction: MoveDirection, rotation: Rotation)
    ensures
        spec_new_rotation(direction, rotation) matches Some(turned) ==> turned == Rotation::spec_from_direction(direction),
        spec_new_rotation(direction, rotation) is Some <==> (rotation.degrees() < 360 && (
        Rotation::spec_from_direction(direction).degrees() - rotation.degrees()) % 180 == 90),
{
    Rotation::lemma_from_direction_degrees(direction);
}

/// computes some new rotation by input, or none if no change to it is necessary.
pub fn compute_new_rotation(direction: MoveDirection, rotation: Rotation) -> (r: Option<Rotation>)
    ensures
        r == spec_new_rotation(direction, rotation),
{
    let degrees = rotation.into_inner();
    let horizontal = degrees == 0 || degrees == 180;
    let vertical = degrees == 90 || degrees == 270;
    match direction {
        MoveDirection::Up => if horizontal { Some(Rotation::from_direction(MoveDirection::Up)) } else { None },
        MoveDirection::Down => if horizontal { Some(Rotation::from_direction(MoveDirection::Down)) } else { None },
        MoveDirection::Right => if vertical { Some(Rotation::from_direction(MoveDirection::Right)) } else { None },
        MoveDirection::Left => if vertical { Some(Rotation::from_direction(MoveDirection::Left)) } else { None },
    }
}

} // verus!
