use vstd::prelude::*;

use crate::assets::{snake_head, snake_part, spec_snake_head, spec_snake_part};
use crate::collision::{contains_position, in_bounds, ColliderShape};
use crate::game_object::{GameObject, GameObjectId};
use crate::geometry::{Bounds, Rotation, Transform, TransformRotation, Vector2Int};
use crate::movement::{compute_move_forward, spec_move_forward, Move, MoveDirection};
use crate::render::{Render, RenderItem, RenderSpace, Texture, ZIndex};

verus! {

/// the snake's body part
#[derive(Debug, PartialEq, Eq, Clone, Copy, Structural)]
pub struct SnakePart {
    /// position relative to the snake's head
    pub position: Vector2Int,
    /// direction the part is facing
    pub rotation: Rotation,
    pub texture: Texture,
}

impl SnakePart {
    pub fn default_part() -> (r: Self)
        ensures
            r == spec_default_part(),
    {
        SnakePart { position: Vector2Int::zero(), rotation: Rotation::right(), texture: snake_part() }
    }
}

/// A right-facing body part at the snake's origin.
pub open spec fn spec_default_part() -> SnakePart {
    SnakePart {
        position: Vector2Int { x: 0, y: 0 },
        rotation: Rotation::spec_from_direction(MoveDirection::Right),
        texture: spec_snake_part(),
    }
}

/// Part `index` of a freshly made body: laid out leftwards from the head, facing right.
pub open spec fn initial_part(index: int) -> SnakePart {
    SnakePart {
        position: Vector2Int { x: (-index) as i32, y: 0 },
        rotation: Rotation::spec_from_direction(MoveDirection::Right),
        texture: if index == 0 { spec_snake_head() } else { spec_snake_part() },
    }
}

/// The parts of a freshly made body of `size` parts.
pub open spec fn initial_parts(size: nat) -> Seq<SnakePart> {
    Seq::new(size, |index: int| initial_part(index))
}

/// `a - b` coordinate-wise.
pub open spec fn difference(a: Vector2Int, b: Vector2Int) -> Vector2Int {
    Vector2Int { x: (a.x - b.x) as i32, y: (a.y - b.y) as i32 }
}

/// The parts after the head moved by `offset`: the head stays at the origin and every
/// other part takes the place and rotation its predecessor had, relative to the moved head.
pub open spec fn moved_parts(parts: Seq<SnakePart>, offset: Vector2Int) -> Seq<SnakePart> {
    if offset == (Vector2Int { x: 0, y: 0 }) {
        parts
    } else {
        Seq::new(
            parts.len(),
            |i: int|
                if i == 0 {
                    SnakePart { position: Vector2Int { x: 0, y: 0 }, ..parts[0] }
                } else {
                    SnakePart {
                        position: difference(parts[i - 1].position, offset),
                        rotation: parts[i - 1].rotation,
                        texture: parts[i].texture,
                    }
                },
        )
    }
}

/// The parts after growing by one: a copy of the tail, or a default part on an empty body.
pub open spec fn grown_parts(parts: Seq<SnakePart>) -> Seq<SnakePart> {
    if parts.len() == 0 {
        parts.push(spec_default_part())
    } else {
        parts.push(parts.last())
    }
}

/// Whether `offset` moves at most one cell along each axis.
pub open spec fn is_unit_step(offset: Vector2Int) -> bool {
    -1 <= offset.x <= 1 && -1 <= offset.y <= 1
}

#[derive(Debug, PartialEq, Eq, Clone, Copy, Structural)]
pub enum SnakeError {
    SizeTooSmall { min: u16, actual: u16 },
    SizeTooBig { max: u16, actual: u16 },
}

/// The body of a snake, head first.
#[derive(Debug, PartialEq, Eq, Clone)]
pub struct SnakeBody {
    parts: Vec<SnakePart>,
}

impl SnakeBody {
    pub const MIN_SIZE: u16 = 4;

    pub const MAX_SIZE: u16 = 500;

    pub closed spec fn spec_parts(&self) -> Seq<SnakePart> {
        self.parts@
    }

    /// The body has at most `u16::MAX` parts, and part `i` lies within `i` cells of the
    /// head along each axis.
    pub open spec fn wf(&self) -> bool {
        parts_wf(self.spec_parts())
    }

    pub fn try_new(size: u16) -> (r: Result<Self, SnakeError>)
        ensures
            size < Self::MIN_SIZE ==> r == Err::<Self, SnakeError>(
                SnakeError::SizeTooSmall { min: Self::MIN_SIZE, actual: size },
            ),
            Self::MIN_SIZE <= size <= Self::MAX_SIZE ==> (r matches Ok(body) && body.spec_parts()
                == initial_parts(size as nat) && body.wf()),
            size > Self::MAX_SIZE ==> r == Err::<Self, SnakeError>(
                SnakeError::SizeTooBig { max: Self::MAX_SIZE, actual: size },
            ),
    {
        if size < Self::MIN_SIZE {
            return Err(SnakeError::SizeTooSmall { min: Self::MIN_SIZE, actual: size });
        }
        if size > Self::MAX_SIZE {
            return Err(SnakeError::SizeTooBig { max: Self::MAX_SIZE, actual: size });
        }
        Ok(Self::from_valid_size(size))
    }

    /// A body of `size` parts laid out leftwards from the head.
    pub fn from_valid_size(size: u16) -> (r: Self)
        ensures
            r.spec_parts() == initial_parts(size as nat),
            r.wf(),
    {
        let mut parts: Vec<SnakePart> = Vec::with_capacity(Self::MAX_SIZE as usize);
        let mut index: u16 = 0;
        while index < size
            invariant
                index <= size,
                parts@ == initial_parts(index as nat),
            decreases size - index,
        {
            let texture = if index == 0 {
                snake_head()
            } else {
                snake_part()
            };
            let x: i32 = -(index as i32);
            parts.push(SnakePart { position: Vector2Int::new(x, 0), rotation: Rotation::right(), texture });
            proof {
                Rotation::lemma_from_direction_degrees(MoveDirection::Right);
                Rotation::lemma_degrees_injective(Rotation::spec_from_direction(MoveDirection::Right), parts@.last().rotation);
                assert(parts@ =~= initial_parts((index + 1) as nat));
            }
            index = index + 1;
        }
        let body = Self { parts };
        proof {
            assert(body.spec_parts() =~= initial_parts(size as nat));
        }
        body
    }

    /// moves the front part in the direction, and every other part in the direction of the
    /// following part.
    fn move_parts_forward(&mut self, movement_offset: Vector2Int)
        requires
            shift_fits(old(self).spec_parts(), movement_offset),
        ensures
            final(self).spec_parts() == moved_parts(old(self).spec_parts(), movement_offset),
            old(self).wf() && is_unit_step(movement_offset) ==> final(self).wf(),
    {
        if movement_offset == Vector2Int::zero() {
            return;
        }
        let ghost parts_old = self.parts@;
        let ghost moved = moved_parts(parts_old, movement_offset);
        let len = self.parts.len();
        let mut idx = len;
        while idx > 1
            invariant
                1 <= len ==> 1 <= idx,
                idx <= len,
                len == parts_old.len(),
                self.parts@.len() == len,
                shift_fits(parts_old, movement_offset),
                movement_offset != (Vector2Int { x: 0, y: 0 }),
                moved == moved_parts(parts_old, movement_offset),
                forall|j: int| 0 <= j < idx ==> self.parts@[j] == parts_old[j],
                forall|j: int| idx <= j < len ==> self.parts@[j] == moved[j],
            decreases idx,
        {
            idx = idx - 1;
            let predecessor = self.parts[idx - 1];
            assert(predecessor == parts_old[idx - 1]);
            assert(i32::MIN <= parts_old[idx - 1].position.x - movement_offset.x <= i32::MAX);
            let part = self.parts[idx];
            let position = Vector2Int::new(
                predecessor.position.x - movement_offset.x,
                predecessor.position.y - movement_offset.y,
            );
            self.parts.set(idx, SnakePart { position, rotation: predecessor.rotation, texture: part.texture });
        }
        if len > 0 {
            let head = self.parts[0];
            self.parts.set(0, SnakePart { position: Vector2Int::zero(), ..head });
        }
        proof {
            assert(self.parts@ =~= moved);
            if parts_wf(parts_old) && is_unit_step(movement_offset) {
                lemma_moved_parts_wf(parts_old, movement_offset);
            }
        }
    }

    /// pushes a new part at the tail position
    pub fn add_part(&mut self)
        requires
            old(self).wf(),
            old(self).spec_parts().len() < u16::MAX,
        ensures
            final(self).spec_parts() == grown_parts(old(self).spec_parts()),
            final(self).wf(),
    {
        proof {
            lemma_grown_parts_wf(self.parts@);
        }
        let len = self.parts.len();
        if len == 0 {
            self.parts.push(SnakePart::default_part());
            return;
        }
        let part_new = self.parts[len - 1];
        self.parts.push(part_new);
    }

    /// The number of parts.
    pub fn size(&self) -> (r: u16)
        requires
            self.wf(),
        ensures
            r == self.spec_parts().len(),
    {
        self.parts.len() as u16
    }

    /// The position, texture and rotation of each part, head first.
    pub fn parts_textures(&self) -> (r: Vec<(Vector2Int, Texture, Rotation)>)
        ensures
            r@.len() == self.spec_parts().len(),
            forall|i: int| 0 <= i < r@.len() ==> #[trigger] r@[i] == (
                self.spec_parts()[i].position,
                self.spec_parts()[i].texture,
                self.spec_parts()[i].rotation,
            ),
    {
        let mut out: Vec<(Vector2Int, Texture, Rotation)> = Vec::new();
        let mut i: usize = 0;
        while i < self.parts.len()
            invariant
                i <= self.parts@.len(),
                out@.len() == i,
                forall|j: int| 0 <= j < i ==> #[trigger] out@[j] == (
                    self.parts@[j].position,
                    self.parts@[j].texture,
                    self.parts@[j].rotation,
                ),
            decreases self.parts@.len() - i,
        {
            let part = self.parts[i];
            out.push((part.position, part.texture, part.rotation));
            i = i + 1;
        }
        out
    }

    /// Sets the rotation of the head part, if there is one.
    fn set_head_rotation(&mut self, rotation: Rotation)
        ensures
            final(self).spec_parts() == with_head_rotation(old(self).spec_parts(), rotation),
            final(self).wf() == old(self).wf(),
    {
        if self.parts.len() > 0 {
            let head = self.parts[0];
            self.parts.set(0, SnakePart { rotation, ..head });
            assert(forall|i: int| 0 <= i < self.parts@.len() ==> #[trigger] self.parts@[i].position == old(self).parts@[i].position);
            assert(parts_wf(self.parts@) == parts_wf(old(self).parts@)) by {
                if parts_wf(old(self).parts@) {
                    assert forall|i: int| 0 <= i < self.parts@.len() implies -i <= #[trigger] self.parts@[i].position.x <= i && -i <= self.parts@[i].position.y <= i by {
                        assert(self.parts@[i].position == old(self).parts@[i].position);
                    }
                }
                if parts_wf(self.parts@) {
                    assert forall|i: int| 0 <= i < old(self).parts@.len() implies -i <= #[trigger] old(self).parts@[i].position.x <= i && -i <= old(self).parts@[i].position.y <= i by {
                        assert(self.parts@[i].position == old(self).parts@[i].position);
                    }
                }
            }
        }
    }
}

/// The parts with the head turned to `rotation`; an empty body stays empty.
pub open spec fn with_head_rotation(parts: Seq<SnakePart>, rotation: Rotation) -> Seq<SnakePart> {
    if parts.len() == 0 {
        parts
    } else {
        parts.update(0, SnakePart { rotation, ..parts[0] })
    }
}

/// At most `u16::MAX` parts, part `i` within `i` cells of the head along each axis.
pub open spec fn parts_wf(parts: Seq<SnakePart>) -> bool {
    &&& parts.len() <= u16::MAX
    &&& forall|i: int|
        0 <= i < parts.len() ==> -i <= #[trigger] parts[i].position.x <= i && -i <= parts[i].position.y <= i
}

/// Whether shifting every part but the last by `offset` stays within `i32`.
pub open spec fn shift_fits(parts: Seq<SnakePart>, offset: Vector2Int) -> bool {
    forall|i: int|
        0 <= i < parts.len() - 1 ==> i32::MIN <= #[trigger] parts[i].position.x - offset.x <= i32::MAX && i32::MIN
            <= parts[i].position.y - offset.y <= i32::MAX
}

/// A well-formed body can be shifted by a unit step.
proof fn lemma_unit_shift_fits(parts: Seq<SnakePart>, offset: Vector2Int)
    requires
        parts_wf(parts),
        is_unit_step(offset),
    ensures
        shift_fits(parts, offset),
{
    assert forall|i: int| 0 <= i < parts.len() - 1 implies i32::MIN <= #[trigger] parts[i].position.x - offset.x
        <= i32::MAX && i32::MIN <= parts[i].position.y - offset.y <= i32::MAX by {
        assert(-i <= parts[i].position.x <= i);
    }
}

/// Moving by a unit step keeps a well-formed body well-formed.
pub proof fn lemma_moved_parts_wf(parts: Seq<SnakePart>, offset: Vector2Int)
    requires
        parts_wf(parts),
        is_unit_step(offset),
    ensures
        parts_wf(moved_parts(parts, offset)),
        moved_parts(parts, offset).len() == parts.len(),
{
    let moved = moved_parts(parts, offset);
    if offset != (Vector2Int { x: 0, y: 0 }) {
        assert forall|i: int| 0 <= i < moved.len() implies -i <= #[trigger] moved[i].position.x <= i
            && -i <= moved[i].position.y <= i by {
            if i > 0 {
                assert(-(i - 1) <= parts[i - 1].position.x <= i - 1);
                assert(-(i - 1) <= parts[i - 1].position.y <= i - 1);
            }
        }
    }
}

/// Growing keeps a well-formed body well-formed while it stays below `u16::MAX` parts.
pub proof fn lemma_grown_parts_wf(parts: Seq<SnakePart>)
    requires
        parts_wf(parts),
        parts.len() < u16::MAX,
    ensures
        parts_wf(grown_parts(parts)),
        grown_parts(parts).len() == parts.len() + 1,
{
    let grown = grown_parts(parts);
    assert forall|i: int| 0 <= i < grown.len() implies -i <= #[trigger] grown[i].position.x <= i
        && -i <= grown[i].position.y <= i by {
        if i < parts.len() {
            assert(grown[i] == parts[i]);
        } else if parts.len() > 0 {
            assert(grown[i] == parts[i - 1]);
        }
    }
}

impl Default for SnakeBody {
    fn default() -> (r: Self)
        ensures
            r.spec_parts() == initial_parts(Self::MIN_SIZE as nat),
            r.wf(),
    {
        Self::from_valid_size(Self::MIN_SIZE)
    }
}


/// Time between two moves of a snake that receives no input, in nanoseconds.
pub const MOVEMENT_INTERVAL_NANOS: u64 = 100_000_000;

#[derive(Debug, Clone, Copy, PartialEq, Eq, Structural)]
pub enum SnakeSignal {
    Killed { snake_id: GameObjectId },
    FoodEaten { food_id: GameObjectId },
}

#[derive(Debug, Clone, Copy, PartialEq, Eq, Structural)]
pub enum SnakeContact {
    Solid,
    Food(GameObjectId),
}

/// Movement timing of a living snake, in nanoseconds.
#[derive(Debug, Clone, Copy, PartialEq, Eq, Structural)]
pub struct Alive {
    pub movement_interval: u64,
    pub movement_time_elapsed: u64,
    pub movement_requested: bool,
}

/// What a dead snake keeps of its timing.
#[derive(Debug, Clone, Copy, PartialEq, Eq, Structural)]
pub struct Dead {
    pub movement_interval: u64,
}

#[derive(Debug, Clone, Copy, PartialEq, Eq, Structural)]
pub struct SnakeState<State> {
    pub state: State,
}

#[derive(Debug, Clone, Copy, PartialEq, Eq, Structural)]
pub enum SnakeLifecycle {
    Alive(SnakeState<Alive>),
    Dead(SnakeState<Dead>),
}

/// A living state with no time elapsed and no movement requested.
pub open spec fn spec_alive(movement_interval: u64) -> SnakeState<Alive> {
    SnakeState { state: Alive { movement_interval, movement_time_elapsed: 0, movement_requested: false } }
}

/// The lifecycle of a freshly spawned snake.
pub open spec fn spec_spawned() -> SnakeLifecycle {
    SnakeLifecycle::Alive(spec_alive(MOVEMENT_INTERVAL_NANOS))
}

impl SnakeState<Alive> {
    pub fn alive(movement_interval: u64) -> (r: Self)
        ensures
            r == spec_alive(movement_interval),
    {
        SnakeState { state: Alive { movement_interval, movement_time_elapsed: 0, movement_requested: false } }
    }

    pub fn kill(self) -> (r: SnakeState<Dead>)
        ensures
            r.state.movement_interval == self.state.movement_interval,
    {
        SnakeState { state: Dead { movement_interval: self.state.movement_interval } }
    }
}

impl SnakeState<Dead> {
    pub fn respawn(self) -> (r: SnakeState<Alive>)
        ensures
            r == spec_alive(self.state.movement_interval),
    {
        SnakeState::alive(self.state.movement_interval)
    }
}

impl SnakeLifecycle {
    pub fn spawned() -> (r: Self)
        ensures
            r == spec_spawned(),
    {
        SnakeLifecycle::Alive(SnakeState::alive(MOVEMENT_INTERVAL_NANOS))
    }
}

/// The physical state of a snake: its body parts, head transform and lifecycle.
pub struct SnakeModel {
    pub parts: Seq<SnakePart>,
    pub transform: Transform,
    pub lifecycle: SnakeLifecycle,
}

/// The state after a move of `magnitude` cells towards the look: the look becomes the body
/// rotation; when the rotation points in one of the four directions, the head moves, the
/// body follows and the elapsed movement time restarts.
pub open spec fn spec_move_forward_model(state: Alive, parts: Seq<SnakePart>, transform: Transform, magnitude: int) -> SnakeModel {
    let rotation = TransformRotation { body: transform.rotation.spec_look(), look: None };
    match spec_move_forward(transform.position, rotation.body, magnitude) {
        None => SnakeModel {
            parts,
            transform: Transform { position: transform.position, rotation },
            lifecycle: SnakeLifecycle::Alive(SnakeState { state }),
        },
        Some(position) => SnakeModel {
            parts: moved_parts(parts, difference(position, transform.position)),
            transform: Transform { position, rotation },
            lifecycle: SnakeLifecycle::Alive(SnakeState { state: Alive { movement_time_elapsed: 0, ..state } }),
        },
    }
}

/// The state after `delta` nanoseconds: a living snake accumulates elapsed time up to its
/// movement interval and moves one cell when the interval has elapsed or a movement was
/// requested; the request is consumed. A dead snake does not change.
pub open spec fn spec_tick(model: SnakeModel, delta: u64) -> SnakeModel {
    match model.lifecycle {
        SnakeLifecycle::Dead(_) => model,
        SnakeLifecycle::Alive(alive) => {
            let s = alive.state;
            let sum = s.movement_time_elapsed + delta;
            let saturated: int = if sum > u64::MAX { u64::MAX as int } else { sum };
            let elapsed: u64 = if saturated < s.movement_interval { saturated as u64 } else { s.movement_interval };
            let state = Alive { movement_interval: s.movement_interval, movement_time_elapsed: elapsed, movement_requested: false };
            if s.movement_requested || elapsed == s.movement_interval {
                spec_move_forward_model(state, model.parts, model.transform, 1)
            } else {
                SnakeModel { lifecycle: SnakeLifecycle::Alive(SnakeState { state }), ..model }
            }
        },
    }
}

/// The parts and transform after turning the look towards `direction`; the head part faces
/// the resulting look.
pub open spec fn spec_rotate_to(parts: Seq<SnakePart>, transform: Transform, direction: MoveDirection) -> (Seq<SnakePart>, Transform) {
    let rotation = transform.rotation.spec_look_to(direction);
    (with_head_rotation(parts, rotation.spec_look()), Transform { rotation, ..transform })
}

/// The contact of a head at `head` with the walls outside `bounds`, the snake's own
/// `body` cells and `food`: any solid contact first, then the first food at the head.
pub open spec fn spec_detect_contact(
    head: Vector2Int,
    body: Seq<Vector2Int>,
    bounds: Bounds,
    food: Seq<(GameObjectId, Vector2Int)>,
) -> Option<SnakeContact> {
    if !in_bounds(bounds, head) || body.contains(head) {
        Some(SnakeContact::Solid)
    } else {
        match first_food_at(food, head, 0) {
            Some(id) => Some(SnakeContact::Food(id)),
            None => None,
        }
    }
}

/// The id of the first food from index `from` on that lies at `head`.
pub open spec fn first_food_at(food: Seq<(GameObjectId, Vector2Int)>, head: Vector2Int, from: int) -> Option<GameObjectId>
    decreases food.len() - from,
{
    if from < 0 || from >= food.len() {
        None
    } else if food[from].1 == head {
        Some(food[from].0)
    } else {
        first_food_at(food, head, from + 1)
    }
}

pub fn detect_contact(
    head: Vector2Int,
    body: &[Vector2Int],
    bounds: Bounds,
    food: &[(GameObjectId, Vector2Int)],
) -> (r: Option<SnakeContact>)
    ensures
        r == spec_detect_contact(head, body@, bounds, food@),
{
    if ColliderShape::OutsideBounds(bounds).contains_cell(head) || contains_position(body, head) {
        return Some(SnakeContact::Solid);
    }
    let mut i: usize = 0;
    while i < food.len()
        invariant
            i <= food@.len(),
            in_bounds(bounds, head),
            !body@.contains(head),
            first_food_at(food@, head, 0) == first_food_at(food@, head, i as int),
        decreases food@.len() - i,
    {
        let (id, position) = food[i];
        assert(food@[i as int] == (id, position));
        if ColliderShape::Cell(position).contains_cell(head) {
            assert(first_food_at(food@, head, i as int) == Some(id));
            assert(!(!in_bounds(bounds, head) || body@.contains(head)));
            return Some(SnakeContact::Food(id));
        }
        i = i + 1;
    }
    None
}

/// The state after a movement request: a living snake turns its look towards `direction`
/// and asks to move on its next tick; a dead snake does not change.
pub open spec fn spec_request_movement(model: SnakeModel, direction: MoveDirection) -> SnakeModel {
    match model.lifecycle {
        SnakeLifecycle::Alive(state) => {
            let (parts, transform) = spec_rotate_to(model.parts, model.transform, direction);
            SnakeModel {
                parts,
                transform,
                lifecycle: SnakeLifecycle::Alive(SnakeState { state: Alive { movement_requested: true, ..state.state } }),
            }
        },
        SnakeLifecycle::Dead(_) => model,
    }
}

/// The contact of a living snake's head with the walls outside `bounds`, the rest of its
/// body and `food`; a dead snake has none.
pub open spec fn spec_contact(model: SnakeModel, bounds: Bounds, food: Seq<(GameObjectId, Vector2Int)>) -> Option<SnakeContact> {
    match model.lifecycle {
        SnakeLifecycle::Dead(_) => None,
        SnakeLifecycle::Alive(_) => spec_detect_contact(
            model.transform.position,
            tail_cells(spec_occupied_cells(model.parts, model.transform)),
            bounds,
            food,
        ),
    }
}

/// Whether `contact` is food, which makes a snake grow.
pub open spec fn is_food(contact: Option<SnakeContact>) -> bool {
    contact matches Some(SnakeContact::Food(_))
}

/// The state and report after a living snake checks its head against the walls outside
/// `bounds`, the rest of its body and `food`; a dead snake checks nothing.
pub open spec fn spec_resolve_collisions(
    model: SnakeModel,
    id: GameObjectId,
    bounds: Bounds,
    food: Seq<(GameObjectId, Vector2Int)>,
) -> (SnakeModel, Option<SnakeSignal>) {
    match spec_contact(model, bounds, food) {
        None => (model, None),
        Some(contact) => spec_collision(model, id, contact),
    }
}

/// A dead snake stays where it is: time changes nothing about it.
pub proof fn lemma_dead_snake_does_not_move(model: SnakeModel, delta: u64)
    requires
        model.lifecycle is Dead,
    ensures
        spec_tick(model, delta) == model,
{
}

/// Moving never changes the length of the body, and a living snake stays alive.
pub proof fn lemma_tick_keeps_the_body_size(model: SnakeModel, delta: u64)
    ensures
        spec_tick(model, delta).parts.len() == model.parts.len(),
        (model.lifecycle is Alive) == (spec_tick(model, delta).lifecycle is Alive),
{
}

/// A move consumes the look: the body turns to where the snake looked, and the next look is
/// checked against that new body rotation.
pub proof fn lemma_tick_consumes_the_look(model: SnakeModel, delta: u64)
    requires
        model.lifecycle matches SnakeLifecycle::Alive(state) && (state.state.movement_requested
            || state.state.movement_time_elapsed + delta >= state.state.movement_interval),
    ensures
        spec_tick(model, delta).transform.rotation == (TransformRotation {
            body: model.transform.rotation.spec_look(),
            look: None,
        }),
{
}

/// Food makes a living snake exactly one part longer and reports the food eaten; a solid
/// contact kills it without changing its body.
pub proof fn lemma_contact_outcomes(model: SnakeModel, id: GameObjectId, food_id: GameObjectId)
    requires
        model.lifecycle is Alive,
    ensures
        spec_collision(model, id, SnakeContact::Food(food_id)).0.parts.len() == model.parts.len() + 1,
        spec_collision(model, id, SnakeContact::Food(food_id)).1 == Some(SnakeSignal::FoodEaten { food_id }),
        spec_collision(model, id, SnakeContact::Solid).0.parts == model.parts,
        spec_collision(model, id, SnakeContact::Solid).0.lifecycle is Dead,
        spec_collision(model, id, SnakeContact::Solid).1 == Some(SnakeSignal::Killed { snake_id: id }),
{
}

/// What a living snake's head runs into. Let the world cell of part `i` be the head's
/// position moved by that part's offset. The contact is solid whenever the head lies outside
/// `bounds` or on the world cell of any part after the head, the tail included; food is
/// reported only for a head inside the bounds and off the body, and it is the first food
/// lying at the head; no contact is reported exactly when the head is inside the bounds, off
/// every part after the head and on no food. A dead snake reports nothing.
pub proof fn lemma_contact_checks_walls_body_and_food(model: SnakeModel, bounds: Bounds, food: Seq<(GameObjectId, Vector2Int)>)
    ensures
        model.lifecycle is Dead ==> spec_contact(model, bounds, food) is None,
        model.lifecycle is Alive ==> {
            let head = model.transform.position;
            let on_body = exists|i: int|
                1 <= i < model.parts.len() && head == #[trigger] head.spec_saturating_add(model.parts[i].position);
            let on_food = exists|j: int| 0 <= j < food.len() && #[trigger] food[j].1 == head;
            &&& (!in_bounds(bounds, head) || on_body) ==> spec_contact(model, bounds, food) == Some(SnakeContact::Solid)
            &&& spec_contact(model, bounds, food) is None <==> (in_bounds(bounds, head) && !on_body && !on_food)
            &&& spec_contact(model, bounds, food) matches Some(SnakeContact::Food(id)) ==> {
                &&& in_bounds(bounds, head)
                &&& !on_body
                &&& exists|j: int|
                    0 <= j < food.len() && #[trigger] food[j] == (id, head) && forall|k: int| 0 <= k < j ==> food[k].1 != head
            }
        },
{
    if model.lifecycle is Alive {
        let head = model.transform.position;
        let cells = spec_occupied_cells(model.parts, model.transform);
        let body = tail_cells(cells);
        assert forall|i: int| 1 <= i < model.parts.len() implies body.contains(#[trigger] head.spec_saturating_add(model.parts[i].position)) by {
            assert(body[i - 1] == cells[i]);
        }
        assert forall|v: Vector2Int| body.contains(v) implies exists|i: int|
            1 <= i < model.parts.len() && v == #[trigger] head.spec_saturating_add(model.parts[i].position) by {
            let m = choose|m: int| 0 <= m < body.len() && body[m] == v;
            assert(body[m] == cells[m + 1]);
        }
        let on_body = exists|i: int|
            1 <= i < model.parts.len() && head == #[trigger] head.spec_saturating_add(model.parts[i].position);
        let on_food = exists|j: int| 0 <= j < food.len() && #[trigger] food[j].1 == head;
        assert(body.contains(head) <==> on_body);
        assert(spec_contact(model, bounds, food) == spec_detect_contact(head, body, bounds, food));
        lemma_first_food_at(food, head, 0);
        match first_food_at(food, head, 0) {
            Some(id) => {
                let j = choose|j: int|
                    0 <= j < food.len() && #[trigger] food[j] == (id, head) && forall|k: int| 0 <= k < j ==> food[k].1 != head;
                assert(food[j].1 == head);
            },
            None => {},
        }
        assert(first_food_at(food, head, 0) is None <==> !on_food);
    }
}

/// The first food at `head` from index `from` on: when there is one, it lies at `head` and
/// no food between `from` and it does; when there is none, no food from `from` on lies at
/// `head`.
proof fn lemma_first_food_at(food: Seq<(GameObjectId, Vector2Int)>, head: Vector2Int, from: int)
    requires
        0 <= from,
    ensures
        first_food_at(food, head, from) matches Some(id) ==> exists|j: int|
            from <= j < food.len() && #[trigger] food[j] == (id, head) && forall|k: int| from <= k < j ==> food[k].1 != head,
        first_food_at(food, head, from) is None ==> forall|j: int| from <= j < food.len() ==> #[trigger] food[j].1 != head,
    decreases food.len() - from,
{
    if from < food.len() && food[from].1 != head {
        lemma_first_food_at(food, head, from + 1);
    } else if from < food.len() {
        assert(food[from] == (food[from].0, head));
    }
}

/// The cells after the first; none for an empty sequence.
pub open spec fn tail_cells(cells: Seq<Vector2Int>) -> Seq<Vector2Int> {
    if cells.len() == 0 {
        cells
    } else {
        cells.subrange(1, cells.len() as int)
    }
}

/// The cells the snake occupies in the world, head first.
pub open spec fn spec_occupied_cells(parts: Seq<SnakePart>, transform: Transform) -> Seq<Vector2Int> {
    Seq::new(parts.len(), |i: int| transform.position.spec_saturating_add(parts[i].position))
}

/// snake player
#[derive(Debug)]
pub struct Snake {
    id: GameObjectId,
    body: SnakeBody,
    transform: Transform,
    lifecycle: SnakeLifecycle,
}

impl Snake {
    pub closed spec fn spec_id(&self) -> GameObjectId {
        self.id
    }

    pub closed spec fn model(&self) -> SnakeModel {
        SnakeModel { parts: self.body.spec_parts(), transform: self.transform, lifecycle: self.lifecycle }
    }

    pub closed spec fn wf(&self) -> bool {
        self.body.wf()
    }

    pub open spec fn spec_is_alive(&self) -> bool {
        self.model().lifecycle is Alive
    }

    pub fn spawn() -> (r: Self)
        ensures
            r.wf(),
            r.model() == (SnakeModel {
                parts: initial_parts(SnakeBody::MIN_SIZE as nat),
                transform: Transform { position: Vector2Int { x: 0, y: 0 }, rotation: TransformRotation { body: Rotation::spec_from_direction(MoveDirection::Right), look: None } },
                lifecycle: spec_spawned(),
            }),
    {
        Self { id: GameObjectId::new(), body: SnakeBody::default(), transform: Transform::new(), lifecycle: SnakeLifecycle::spawned() }
    }

    pub fn respawn(&mut self, transform: Transform)
        ensures
            final(self).wf(),
            final(self).spec_id() == old(self).spec_id(),
            final(self).model() == (SnakeModel { parts: initial_parts(SnakeBody::MIN_SIZE as nat), transform, lifecycle: spec_spawned() }),
    {
        self.body = SnakeBody::default();
        self.transform = transform;
        self.lifecycle = SnakeLifecycle::spawned();
    }

    /// Replaces the body.
    pub fn set_body(&mut self, body: SnakeBody)
        requires
            body.wf(),
        ensures
            final(self).wf(),
            final(self).spec_id() == old(self).spec_id(),
            final(self).model() == (SnakeModel { parts: body.spec_parts(), ..old(self).model() }),
    {
        self.body = body;
    }

    /// A living snake dies and reports it; a dead one stays as it is.
    pub fn kill(&mut self) -> (r: Option<SnakeSignal>)
        requires
            old(self).wf(),
        ensures
            final(self).wf(),
            final(self).spec_id() == old(self).spec_id(),
            final(self).model().parts == old(self).model().parts,
            final(self).model().transform == old(self).model().transform,
            match old(self).model().lifecycle {
                SnakeLifecycle::Alive(state) => {
                    &&& final(self).model().lifecycle == SnakeLifecycle::Dead(SnakeState { state: Dead { movement_interval: state.state.movement_interval } })
                    &&& r == Some(SnakeSignal::Killed { snake_id: old(self).spec_id() })
                },
                SnakeLifecycle::Dead(_) => final(self).model().lifecycle == old(self).model().lifecycle && r is None,
            },
    {
        match self.lifecycle {
            SnakeLifecycle::Alive(state) => {
                self.lifecycle = SnakeLifecycle::Dead(state.kill());
                Some(SnakeSignal::Killed { snake_id: self.id })
            },
            SnakeLifecycle::Dead(_) => None,
        }
    }

    /// Checks the head against the walls outside `bounds`, the rest of the body and `food`,
    /// and reacts to the contact found; a dead snake checks nothing.
    /// The contact the head makes with the walls outside `bounds`, the rest of the body and
    /// `food`: any solid contact first, then the first food at the head. A dead snake makes
    /// none.
    pub fn contact(&self, bounds: Bounds, food: &[(GameObjectId, Vector2Int)]) -> (r: Option<SnakeContact>)
        ensures
            r == spec_contact(self.model(), bounds, food@),
    {
        if !self.is_alive() {
            return None;
        }
        let cells = self.occupied_cells();
        let head = self.head_position();
        proof {
            assert(Seq::<Vector2Int>::empty() =~= tail_cells(Seq::<Vector2Int>::empty()));
        }
        if cells.len() > 0 {
            detect_contact(head, &cells[1..cells.len()], bounds, food)
        } else {
            let empty: Vec<Vector2Int> = Vec::new();
            detect_contact(head, empty.as_slice(), bounds, food)
        }
    }

    pub fn resolve_collisions(&mut self, bounds: Bounds, food: &[(GameObjectId, Vector2Int)]) -> (r: Option<SnakeSignal>)
        requires
            old(self).wf(),
            old(self).model().parts.len() < u16::MAX || !is_food(spec_contact(old(self).model(), bounds, food@)),
        ensures
            final(self).wf(),
            final(self).spec_id() == old(self).spec_id(),
            !old(self).spec_is_alive() ==> final(self).model() == old(self).model() && r is None,
            old(self).spec_is_alive() ==> {
                let cells = spec_occupied_cells(old(self).model().parts, old(self).model().transform);
                let contact = spec_detect_contact(old(self).model().transform.position, tail_cells(cells), bounds, food@);
                match contact {
                    None => final(self).model() == old(self).model() && r is None,
                    Some(contact) => spec_collision(old(self).model(), old(self).spec_id(), contact) == (final(self).model(), r),
                }
            },
            (final(self).model(), r) == spec_resolve_collisions(old(self).model(), old(self).spec_id(), bounds, food@),
    {
        match self.contact(bounds, food) {
            Some(contact) => self.on_collision(contact),
            None => None,
        }
    }

    /// Reacts to a contact: a solid contact kills the snake, food makes it grow and reports
    /// the food eaten. A dead snake ignores contacts.
    pub fn on_collision(&mut self, contact: SnakeContact) -> (r: Option<SnakeSignal>)
        requires
            old(self).wf(),
            old(self).model().parts.len() < u16::MAX || !is_food(Some(contact)),
        ensures
            final(self).wf(),
            final(self).spec_id() == old(self).spec_id(),
            !old(self).spec_is_alive() ==> final(self).model() == old(self).model() && r is None,
            old(self).spec_is_alive() ==> spec_collision(old(self).model(), old(self).spec_id(), contact) == (final(self).model(), r),
    {
        if !self.is_alive() {
            return None;
        }
        match contact {
            SnakeContact::Solid => self.kill(),
            SnakeContact::Food(food_id) => {
                self.add_part();
                Some(SnakeSignal::FoodEaten { food_id })
            },
        }
    }

    /// Advances the snake by `delta_time` nanoseconds.
    pub fn tick(&mut self, delta_time: u64)
        requires
            old(self).wf(),
        ensures
            final(self).wf(),
            final(self).spec_id() == old(self).spec_id(),
            final(self).model() == spec_tick(old(self).model(), delta_time),
    {
        match self.lifecycle {
            SnakeLifecycle::Dead(_) => {},
            SnakeLifecycle::Alive(state) => {
                let s = state.state;
                let sum = s.movement_time_elapsed.saturating_add(delta_time);
                let elapsed = if sum < s.movement_interval { sum } else { s.movement_interval };
                let did_movement_interval_elapse = elapsed == s.movement_interval;
                let movement_requested = s.movement_requested;
                let after = Alive { movement_interval: s.movement_interval, movement_time_elapsed: elapsed, movement_requested: false };
                self.lifecycle = SnakeLifecycle::Alive(SnakeState { state: after });
                if movement_requested || did_movement_interval_elapse {
                    proof {
                        lemma_move_offset(self.transform.position, self.transform.rotation.spec_look(), 1);
                        let moved = spec_move_forward(self.transform.position, self.transform.rotation.spec_look(), 1);
                        if moved is Some {
                            lemma_unit_shift_fits(self.body.spec_parts(), difference(moved->0, self.transform.position));
                        }
                    }
                    self.move_forward(after, 1);
                }
            },
        }
    }

    /// Moves `magnitude` cells towards the look, as `spec_move_forward_model` describes. A
    /// move of at most one cell keeps the body well formed.
    fn move_forward(&mut self, state: Alive, magnitude: i32)
        requires
            old(self).body.wf(),
            magnitude > i32::MIN,
            old(self).lifecycle == SnakeLifecycle::Alive(SnakeState { state }),
            spec_move_forward(old(self).transform.position, old(self).transform.rotation.spec_look(), magnitude as int) matches Some(
                position,
            ) ==> shift_fits(old(self).model().parts, difference(position, old(self).transform.position)),
        ensures
            -1 <= magnitude <= 1 ==> final(self).wf(),
            final(self).id == old(self).id,
            final(self).model() == spec_move_forward_model(state, old(self).model().parts, old(self).model().transform, magnitude as int),
    {
        let position_previous = self.transform.position;
        let facing_direction = self.transform.rotation.consume_look();
        let position = match compute_move_forward(position_previous, facing_direction, magnitude) {
            Some(position) => position,
            None => return,
        };
        self.transform.position = position;
        proof {
            lemma_move_offset(position_previous, facing_direction, magnitude as int);
        }
        let movement_offset = Vector2Int::new(
            position.x - position_previous.x,
            position.y - position_previous.y,
        );
        self.body.move_parts_forward(movement_offset);
        self.lifecycle = SnakeLifecycle::Alive(SnakeState { state: Alive { movement_time_elapsed: 0, ..state } });
    }

    pub fn hp(&self) -> (r: u16)
        requires
            self.wf(),
        ensures
            r == self.model().parts.len(),
    {
        self.body.size()
    }

    /// A living snake grows by one part; a dead one does not change.
    pub fn add_part(&mut self)
        requires
            old(self).wf(),
            old(self).model().parts.len() < u16::MAX,
        ensures
            final(self).wf(),
            final(self).spec_id() == old(self).spec_id(),
            old(self).spec_is_alive() ==> final(self).model() == (SnakeModel { parts: grown_parts(old(self).model().parts), ..old(self).model() }),
            !old(self).spec_is_alive() ==> final(self).model() == old(self).model(),
    {
        if self.is_alive() {
            self.body.add_part();
        }
    }

    /// Moves a living snake's head to `position`; a dead one stays.
    pub fn set_position(&mut self, position: Vector2Int)
        ensures
            final(self).wf() == old(self).wf(),
            final(self).spec_id() == old(self).spec_id(),
            old(self).spec_is_alive() ==> final(self).model() == (SnakeModel {
                transform: Transform { position, ..old(self).model().transform },
                ..old(self).model()
            }),
            !old(self).spec_is_alive() ==> final(self).model() == old(self).model(),
    {
        if self.is_alive() {
            self.transform.position = position;
        }
    }

    /// direction the snake's head is facing at, dictated by it's rotation
    pub fn head_direction(&self) -> (r: Rotation)
        ensures
            r == self.model().transform.rotation.spec_look(),
    {
        self.transform.rotation.look()
    }

    pub fn head_position(&self) -> (r: Vector2Int)
        ensures
            r == self.model().transform.position,
    {
        self.transform.position
    }

    /// The world cells of the parts, head first.
    pub fn occupied_cells(&self) -> (r: Vec<Vector2Int>)
        ensures
            r@ == spec_occupied_cells(self.model().parts, self.model().transform),
    {
        let mut cells: Vec<Vector2Int> = Vec::new();
        let mut i: usize = 0;
        while i < self.body.parts.len()
            invariant
                i <= self.body.parts@.len(),
                cells@ == spec_occupied_cells(self.body.parts@, self.transform).take(i as int),
            decreases self.body.parts@.len() - i,
        {
            let part = self.body.parts[i];
            cells.push(self.transform.position.saturating_add(part.position));
            proof {
                assert(cells@ =~= spec_occupied_cells(self.body.parts@, self.transform).take(i + 1));
            }
            i = i + 1;
        }
        proof {
            assert(cells@ =~= spec_occupied_cells(self.body.parts@, self.transform));
        }
        cells
    }

    pub fn is_alive(&self) -> (r: bool)
        ensures
            r == self.spec_is_alive(),
    {
        match self.lifecycle {
            SnakeLifecycle::Alive(_) => true,
            SnakeLifecycle::Dead(_) => false,
        }
    }

    /// A living snake turns towards `direction` and asks to move on the next tick.
    pub fn request_movement(&mut self, direction: MoveDirection)
        requires
            old(self).wf(),
        ensures
            final(self).wf(),
            final(self).spec_id() == old(self).spec_id(),
            !old(self).spec_is_alive() ==> final(self).model() == old(self).model(),
            old(self).model().lifecycle matches SnakeLifecycle::Alive(state) ==> {
                let (parts, transform) = spec_rotate_to(old(self).model().parts, old(self).model().transform, direction);
                final(self).model() == (SnakeModel {
                    parts,
                    transform,
                    lifecycle: SnakeLifecycle::Alive(SnakeState { state: Alive { movement_requested: true, ..state.state } }),
                })
            },
            final(self).model() == spec_request_movement(old(self).model(), direction),
    {
        match self.lifecycle {
            SnakeLifecycle::Alive(state) => {
                self.rotate_towards(direction);
                self.lifecycle = SnakeLifecycle::Alive(SnakeState { state: Alive { movement_requested: true, ..state.state } });
            },
            SnakeLifecycle::Dead(_) => {},
        }
    }

    fn rotate_towards(&mut self, direction: MoveDirection)
        ensures
            final(self).wf() == old(self).wf(),
            final(self).id == old(self).id,
            final(self).lifecycle == old(self).lifecycle,
            (final(self).body.spec_parts(), final(self).transform) == spec_rotate_to(old(self).body.spec_parts(), old(self).transform, direction),
    {
        let look_rotation = self.transform.rotation.look_to(direction);
        self.body.set_head_rotation(look_rotation);
    }
}

/// The state and report after a contact with a living snake.
pub open spec fn spec_collision(model: SnakeModel, id: GameObjectId, contact: SnakeContact) -> (SnakeModel, Option<SnakeSignal>) {
    match contact {
        SnakeContact::Solid => match model.lifecycle {
            SnakeLifecycle::Alive(state) => (
                SnakeModel { lifecycle: SnakeLifecycle::Dead(SnakeState { state: Dead { movement_interval: state.state.movement_interval } }), ..model },
                Some(SnakeSignal::Killed { snake_id: id }),
            ),
            SnakeLifecycle::Dead(_) => (model, None),
        },
        SnakeContact::Food(food_id) => (
            SnakeModel { parts: grown_parts(model.parts), ..model },
            Some(SnakeSignal::FoodEaten { food_id }),
        ),
    }
}

/// A move of `magnitude` cells from `position` changes each coordinate by at most
/// `magnitude`, so by at most one for a one-cell move.
proof fn lemma_move_offset(position: Vector2Int, rotation: Rotation, magnitude: int)
    requires
        i32::MIN < magnitude <= i32::MAX,
    ensures
        spec_move_forward(position, rotation, magnitude) matches Some(moved) ==> i32::MIN <= moved.x - position.x
            <= i32::MAX && i32::MIN <= moved.y - position.y <= i32::MAX && (-1 <= magnitude <= 1 ==> is_unit_step(
            difference(moved, position),
        )),
{
}

impl Render for Snake {
    /// Each body part, head first, as a glyph at its place relative to the head.
    open spec fn spec_render_items(&self) -> Seq<RenderItem> {
        Seq::new(
            self.model().parts.len(),
            |i: int| RenderItem {
                position_local: self.model().parts[i].position,
                texture: self.model().parts[i].texture,
                rotation: self.model().parts[i].rotation,
                z_index: ZIndex(0),
                fills_cell: false,
                space: RenderSpace::World,
            },
        )
    }

    fn render_items(&self) -> (r: Vec<RenderItem>) {
        let parts = self.body.parts_textures();
        let mut items: Vec<RenderItem> = Vec::new();
        let mut i: usize = 0;
        while i < parts.len()
            invariant
                i <= parts@.len(),
                parts@.len() == self.body.spec_parts().len(),
                forall|j: int| 0 <= j < parts@.len() ==> #[trigger] parts@[j] == (
                    self.body.spec_parts()[j].position,
                    self.body.spec_parts()[j].texture,
                    self.body.spec_parts()[j].rotation,
                ),
                items@ == self.spec_render_items().take(i as int),
            decreases parts@.len() - i,
        {
            let (position_local, texture, rotation) = parts[i];
            items.push(RenderItem::glyph(position_local, texture, rotation, ZIndex::default()));
            proof {
                assert(items@ =~= self.spec_render_items().take(i + 1));
            }
            i = i + 1;
        }
        proof {
            assert(items@ =~= self.spec_render_items());
        }
        items
    }
}

impl GameObject for Snake {
    fn position(&self) -> (r: Vector2Int)
        ensures
            r == self.model().transform.position,
    {
        self.transform.position
    }

    fn rotation(&self) -> (r: Rotation)
        ensures
            r == self.model().transform.rotation.spec_look(),
    {
        self.transform.rotation.look()
    }

    fn id(&self) -> (r: GameObjectId)
        ensures
            r == self.spec_id(),
    {
        self.id
    }
}

impl Move for Snake {
    /// A living snake turns its look towards `direction`; a dead one does not turn.
    fn rotate_to(&mut self, direction: MoveDirection)
        ensures
            final(self).spec_id() == old(self).spec_id(),
            final(self).wf() == old(self).wf(),
            !old(self).spec_is_alive() ==> final(self).model() == old(self).model(),
            old(self).spec_is_alive() ==> {
                let (parts, transform) = spec_rotate_to(old(self).model().parts, old(self).model().transform, direction);
                final(self).model() == (SnakeModel { parts, transform, ..old(self).model() })
            },
    {
        if !self.is_alive() {
            return;
        }
        self.rotate_towards(direction);
    }
}

} // verus!
