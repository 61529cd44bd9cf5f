use vstd::prelude::*;

use crate::movement::{compute_new_rotation, spec_new_rotation, MoveDirection};

verus! {

/// Half of `value`, rounded down: the greatest integer not above `value / 2`.
pub open spec fn half_rounded_down(value: int) -> int {
    value / 2
}

/// `a + b` clamped to the range of `i32`.
pub open spec fn saturating_sum(a: int, b: int) -> int {
    if a + b > i32::MAX {
        i32::MAX as int
    } else if a + b < i32::MIN {
        i32::MIN as int
    } else {
        a + b
    }
}

/// Adds two `i32` values, clamping at the bounds of the type.
pub fn saturating_add_i32(a: i32, b: i32) -> (r: i32)
    ensures
        r == saturating_sum(a as int, b as int),
{
    if b > 0 && a > i32::MAX - b {
        i32::MAX
    } else if b < 0 && a < i32::MIN - b {
        i32::MIN
    } else {
        a + b
    }
}

/// A cell coordinate; `(0, 0)` is the top-left corner and `y` grows downwards.
#[derive(Debug, PartialEq, Eq, Hash, Clone, Copy, Structural)]
pub struct Vector2Int {
    pub x: i32,
    pub y: i32,
}

impl Vector2Int {
    pub fn zero() -> (r: Self)
        ensures
            r.x == 0 && r.y == 0,
    {
        Vector2Int { x: 0, y: 0 }
    }

    pub fn new(x: i32, y: i32) -> (r: Self)
        ensures
            r.x == x && r.y == y,
    {
        Self { x, y }
    }

    /// Whether the coordinate-wise sums of `self` and `rhs` fit in `i32`.
    pub open spec fn midpoint_fits(self, rhs: Self) -> bool {
        &&& i32::MIN <= self.x + rhs.x <= i32::MAX
        &&& i32::MIN <= self.y + rhs.y <= i32::MAX
    }

    /// calculates the midpoint, each coordinate rounded down
    pub fn midpoint(self, rhs: Self) -> (r: Self)
        requires
            self.midpoint_fits(rhs),
        ensures
            r.x == half_rounded_down(self.x + rhs.x),
            r.y == half_rounded_down(self.y + rhs.y),
    {
        Self { x: halve(self.x + rhs.x), y: halve(self.y + rhs.y) }
    }

    /// The sum of two vectors, each coordinate clamped to the range of `i32`.
    pub open spec fn spec_saturating_add(self, rhs: Self) -> Self {
        Vector2Int {
            x: saturating_sum(self.x as int, rhs.x as int) as i32,
            y: saturating_sum(self.y as int, rhs.y as int) as i32,
        }
    }

    pub fn saturating_add(self, rhs: Self) -> (r: Self)
        ensures
            r == self.spec_saturating_add(rhs),
    {
        Self { x: saturating_add_i32(self.x, rhs.x), y: saturating_add_i32(self.y, rhs.y) }
    }

    pub fn add_assign(&mut self, rhs: Self)
        ensures
            *final(self) == old(self).spec_saturating_add(rhs),
    {
        *self = self.saturating_add(rhs);
    }
}

fn halve(value: i32) -> (r: i32)
    ensures
        r == half_rounded_down(value as int),
{
    if value >= 0 {
        value / 2
    } else {
        let magnitude: i64 = -(value as i64);
        let half: i64 = (magnitude + 1) / 2;
        -(half as i32)
    }
}

impl core::ops::Add for Vector2Int {
    type Output = Self;

    fn add(self, rhs: Self) -> (r: Self) {
        self.saturating_add(rhs)
    }
}

impl vstd::std_specs::ops::AddSpecImpl for Vector2Int {
    open spec fn obeys_add_spec() -> bool {
        true
    }

    open spec fn add_req(self, rhs: Self) -> bool {
        true
    }

    open spec fn add_spec(self, rhs: Self) -> Self {
        self.spec_saturating_add(rhs)
    }
}

impl Default for Vector2Int {
    fn default() -> (r: Self)
        ensures
            r.x == 0 && r.y == 0,
    {
        Self::zero()
    }
}


/// A half-open rectangle of cells: `start` is included, `end` is not.
#[derive(Debug, PartialEq, Eq, Clone, Copy, Structural)]
pub struct Bounds {
    pub start: Vector2Int,
    pub end: Vector2Int,
}

impl Bounds {
    pub fn middle(&self) -> (r: Vector2Int)
        requires
            self.start.midpoint_fits(self.end),
        ensures
            r.x == half_rounded_down(self.start.x + self.end.x),
            r.y == half_rounded_down(self.start.y + self.end.y),
    {
        self.start.midpoint(self.end)
    }
}

/// A rotation in degrees, always below `Rotation::DEGREES_UPPER`.
#[derive(Debug, PartialEq, Eq, Clone, Copy, Structural)]
pub struct Rotation(u16);

impl Rotation {
    pub const DEGREES_UPPER: u16 = 360;

    #[verifier::type_invariant]
    spec fn below_upper(self) -> bool {
        self.0 < 360
    }

    /// The rotation in degrees.
    pub closed spec fn degrees(self) -> u16 {
        self.0
    }

    pub fn right() -> (r: Self)
        ensures
            r.degrees() == 0,
            r == Self::spec_from_direction(MoveDirection::Right),
    {
        Rotation(0)
    }

    pub fn down() -> (r: Self)
        ensures
            r.degrees() == 90,
            r == Self::spec_from_direction(MoveDirection::Down),
    {
        Rotation(90)
    }

    pub fn left() -> (r: Self)
        ensures
            r.degrees() == 180,
            r == Self::spec_from_direction(MoveDirection::Left),
    {
        Rotation(180)
    }

    pub fn up() -> (r: Self)
        ensures
            r.degrees() == 270,
            r == Self::spec_from_direction(MoveDirection::Up),
    {
        Rotation(270)
    }

    pub fn new(value: u16) -> (r: Self)
        ensures
            r.degrees() == value % 360,
    {
        Rotation(value % Self::DEGREES_UPPER)
    }

    /// Adds two rotations, wrapping around a full turn.
    pub fn rotate(self, rotation: Rotation) -> (r: Self)
        ensures
            r.degrees() == (self.degrees() + rotation.degrees()) % 360,
    {
        proof {
            use_type_invariant(self);
            use_type_invariant(rotation);
        }
        Self::new(self.into_inner() + rotation.into_inner())
    }

    pub fn into_inner(self) -> (r: u16)
        ensures
            r == self.degrees(),
            r < 360,
    {
        proof {
            use_type_invariant(self);
        }
        self.0
    }

    /// The rotation that faces `direction`.
    pub closed spec fn spec_from_direction(direction: MoveDirection) -> Rotation {
        match direction {
            MoveDirection::Right => Rotation(0),
            MoveDirection::Down => Rotation(90),
            MoveDirection::Left => Rotation(180),
            MoveDirection::Up => Rotation(270),
        }
    }

    pub proof fn lemma_from_direction_degrees(direction: MoveDirection)
        ensures
            Self::spec_from_direction(direction).degrees() == match direction {
                MoveDirection::Right => 0u16,
                MoveDirection::Down => 90u16,
                MoveDirection::Left => 180u16,
                MoveDirection::Up => 270u16,
            },
    {
    }

    pub fn from_direction(direction: MoveDirection) -> (r: Self)
        ensures
            r == Self::spec_from_direction(direction),
            r.degrees() == match direction {
                MoveDirection::Right => 0u16,
                MoveDirection::Down => 90u16,
                MoveDirection::Left => 180u16,
                MoveDirection::Up => 270u16,
            },
    {
        match direction {
            MoveDirection::Right => Rotation(0),
            MoveDirection::Down => Rotation(90),
            MoveDirection::Left => Rotation(180),
            MoveDirection::Up => Rotation(270),
        }
    }

    /// Degrees equality decides rotation equality.
    pub proof fn lemma_degrees_injective(a: Rotation, b: Rotation)
        ensures
            (a.degrees() == b.degrees()) == (a == b),
    {
    }
}

impl From<(i32, i32)> for Vector2Int {
    fn from(value: (i32, i32)) -> (r: Self) {
        Self::new(value.0, value.1)
    }
}

impl vstd::std_specs::convert::FromSpecImpl<(i32, i32)> for Vector2Int {
    open spec fn obeys_from_spec() -> bool {
        true
    }

    open spec fn from_spec(v: (i32, i32)) -> Self {
        Vector2Int { x: v.0, y: v.1 }
    }
}

impl From<MoveDirection> for Rotation {
    fn from(value: MoveDirection) -> (r: Self) {
        Self::from_direction(value)
    }
}

impl vstd::std_specs::convert::FromSpecImpl<MoveDirection> for Rotation {
    open spec fn obeys_from_spec() -> bool {
        true
    }

    open spec fn from_spec(v: MoveDirection) -> Self {
        Rotation::spec_from_direction(v)
    }
}

impl Default for Rotation {
    fn default() -> (r: Self)
        ensures
            r.degrees() == 0,
    {
        Rotation(0)
    }
}

/// The rotation of an object: the rotation of its body, and the rotation its head looks
/// towards, which the body takes on its next move.
#[derive(Debug, PartialEq, Eq, Clone, Copy, Structural)]
pub struct TransformRotation {
    pub body: Rotation,
    pub look: Option<Rotation>,
}

impl TransformRotation {
    pub open spec fn spec_look(self) -> Rotation {
        match self.look {
            Some(rotation) => rotation,
            None => self.body,
        }
    }

    /// The rotation a `look_to(direction)` leaves behind.
    pub open spec fn spec_look_to(self, direction: MoveDirection) -> TransformRotation {
        if Rotation::spec_from_direction(direction) == self.body {
            TransformRotation { body: self.body, look: None }
        } else {
            match spec_new_rotation(direction, self.body) {
                Some(rotation) => TransformRotation { body: self.body, look: Some(rotation) },
                None => self,
            }
        }
    }

    pub fn new() -> (r: Self)
        ensures
            r.body.degrees() == 0,
            r.body == Rotation::spec_from_direction(MoveDirection::Right),
            r.look is None,
    {
        TransformRotation { body: Rotation::right(), look: None }
    }

    pub fn body(self) -> (r: Rotation)
        ensures
            r == self.body,
    {
        self.body
    }

    pub fn look(self) -> (r: Rotation)
        ensures
            r == self.spec_look(),
    {
        match self.look {
            Some(rotation) => rotation,
            None => self.body,
        }
    }

    /// Turns the look towards `direction` when the body can turn there; looking where the
    /// body already faces cancels a pending turn. Returns the resulting look.
    pub fn look_to(&mut self, direction: MoveDirection) -> (r: Rotation)
        ensures
            *final(self) == old(self).spec_look_to(direction),
            r == final(self).spec_look(),
    {
        let requested_rotation = Rotation::from_direction(direction);
        if requested_rotation == self.body {
            self.look = None;
        } else {
            match compute_new_rotation(direction, self.body) {
                Some(rotation) => {
                    self.look = Some(rotation);
                },
                None => {},
            }
        }
        self.look()
    }

    /// The body takes on the look, which is then cleared. Returns the new body rotation.
    pub fn consume_look(&mut self) -> (r: Rotation)
        ensures
            final(self).body == old(self).spec_look(),
            final(self).look is None,
            r == final(self).body,
    {
        self.body = self.look();
        self.look = None;
        self.body
    }
}

/// Whether a pending look turns the body less than half way round: a look never points
/// straight back against the body.
pub open spec fn spec_no_reversal(rotation: TransformRotation) -> bool {
    rotation.look matches Some(look) ==> (look.degrees() + 180) % 360 != rotation.body.degrees()
}

/// Looking where the body already faces cancels a pending turn: the look is the body again.
pub proof fn lemma_look_to_body_cancels(rotation: TransformRotation, direction: MoveDirection)
    requires
        Rotation::spec_from_direction(direction) == rotation.body,
    ensures
        rotation.spec_look_to(direction).spec_look() == rotation.body,
        rotation.spec_look_to(direction).look is None,
{
}

/// No sequence of looks turns the body straight back: a look that does not point back
/// against the body stays so after any further look.
pub proof fn lemma_look_never_reverses(rotation: TransformRotation, direction: MoveDirection)
    requires
        spec_no_reversal(rotation),
    ensures
        spec_no_reversal(rotation.spec_look_to(direction)),
        rotation.spec_look_to(direction).body == rotation.body,
{
}

impl Default for TransformRotation {
    fn default() -> (r: Self)
        ensures
            r.body.degrees() == 0,
            r.look is None,
    {
        Self::new()
    }
}

/// Position and rotation of a game object.
#[derive(Debug, PartialEq, Eq, Clone, Copy, Structural)]
pub struct Transform {
    pub position: Vector2Int,
    pub rotation: TransformRotation,
}

impl Transform {
    /// The transform at the origin facing right, with no pending look.
    pub open spec fn spec_default() -> Transform {
        Transform {
            position: Vector2Int { x: 0, y: 0 },
            rotation: TransformRotation { body: Rotation::spec_from_direction(MoveDirection::Right), look: None },
        }
    }

    pub fn new() -> (r: Self)
        ensures
            r.position.x == 0 && r.position.y == 0,
            r.rotation.body.degrees() == 0,
            r.rotation.body == Rotation::spec_from_direction(MoveDirection::Right),
            r.rotation.look is None,
            r == Self::spec_default(),
    {
        Transform { position: Vector2Int::zero(), rotation: TransformRotation::new() }
    }
}

impl Default for Transform {
    fn default() -> (r: Self)
        ensures
            r.position.x == 0 && r.position.y == 0,
            r.rotation.body.degrees() == 0,
            r.rotation.look is None,
    {
        Self::new()
    }
}

} // verus!
