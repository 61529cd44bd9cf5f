use vstd::prelude::*;

use crate::assets::{apple, spec_apple};
use crate::game_object::{GameObject, GameObjectId};
use crate::geometry::{Rotation, Transform, Vector2Int};
use crate::models::snake::SnakeSignal;
use crate::render::{Render, RenderItem, RenderSpace, ZIndex};

verus! {

#[derive(Debug, Clone, Copy, PartialEq, Eq, Structural)]
pub enum AppleSignal {
    Eaten { apple_id: GameObjectId },
}

/// Food for the snake.
pub struct Apple {
    id: GameObjectId,
    transform: Transform,
    eaten: bool,
}

impl Apple {
    pub closed spec fn spec_id(&self) -> GameObjectId {
        self.id
    }

    pub closed spec fn spec_transform(&self) -> Transform {
        self.transform
    }

    pub closed spec fn spec_eaten(&self) -> bool {
        self.eaten
    }

    /// An uneaten apple at `position` with a fresh identity.
    pub fn spawn(position: Vector2Int) -> (r: Self)
        ensures
            r.spec_transform() == (Transform { position, ..Transform::spec_default() }),
            !r.spec_eaten(),
    {
        let transform = Transform::new();
        Self { id: GameObjectId::new(), transform: Transform { position, ..transform }, eaten: false }
    }

    /// An uneaten apple whose id is reported as food eaten becomes eaten and reports that
    /// it was eaten; every other signal leaves it as it is.
    pub fn on_snake_signal(&mut self, signal: &SnakeSignal) -> (r: Option<AppleSignal>)
        ensures
            final(self).spec_id() == old(self).spec_id(),
            final(self).spec_transform() == old(self).spec_transform(),
            (*signal == SnakeSignal::FoodEaten { food_id: old(self).spec_id() } && !old(self).spec_eaten()) ==> {
                &&& final(self).spec_eaten()
                &&& r == Some(AppleSignal::Eaten { apple_id: old(self).spec_id() })
            },
            !(*signal == SnakeSignal::FoodEaten { food_id: old(self).spec_id() } && !old(self).spec_eaten()) ==> {
                &&& final(self).spec_eaten() == old(self).spec_eaten()
                &&& r is None
            },
    {
        match signal {
            SnakeSignal::FoodEaten { food_id } => {
                if *food_id == self.id && !self.eaten {
                    self.eaten = true;
                    Some(AppleSignal::Eaten { apple_id: self.id })
                } else {
                    None
                }
            },
            SnakeSignal::Killed { .. } => None,
        }
    }

    /// The id and cell of an uneaten apple; none once eaten.
    pub fn collision_cell(&self) -> (r: Option<(GameObjectId, Vector2Int)>)
        ensures
            r == if self.spec_eaten() {
                None
            } else {
                Some((self.spec_id(), self.spec_transform().position))
            },
    {
        if self.eaten {
            None
        } else {
            Some((self.id, self.transform.position))
        }
    }

    pub fn eaten(&self) -> (r: bool)
        ensures
            r == self.spec_eaten(),
    {
        self.eaten
    }

    /// Places the apple at `position`, uneaten.
    pub fn respawn(&mut self, position: Vector2Int)
        ensures
            final(self).spec_id() == old(self).spec_id(),
            final(self).spec_transform() == (Transform { position, ..old(self).spec_transform() }),
            !final(self).spec_eaten(),
    {
        self.transform.position = position;
        self.eaten = false;
    }
}

impl GameObject for Apple {
    fn rotation(&self) -> (r: Rotation)
        ensures
            r == self.spec_transform().rotation.spec_look(),
    {
        self.transform.rotation.look()
    }

    fn id(&self) -> (r: GameObjectId)
        ensures
            r == self.spec_id(),
    {
        self.id
    }

    fn position(&self) -> (r: Vector2Int)
        ensures
            r == self.spec_transform().position,
    {
        self.transform.position
    }
}

impl Render for Apple {
    /// Nothing once eaten, else the apple glyph at the object's origin.
    open spec fn spec_render_items(&self) -> Seq<RenderItem> {
        if self.spec_eaten() {
            Seq::empty()
        } else {
            seq![RenderItem {
                position_local: Vector2Int { x: 0, y: 0 },
                texture: spec_apple(),
                rotation: self.spec_transform().rotation.spec_look(),
                z_index: ZIndex(0),
                fills_cell: false,
                space: RenderSpace::World,
            }]
        }
    }

    fn render_items(&self) -> (r: Vec<RenderItem>) {
        let mut items: Vec<RenderItem> = Vec::new();
        if self.eaten {
            return items;
        }
        items.push(
            RenderItem::glyph(Vector2Int::zero(), apple(), self.transform.rotation.look(), ZIndex::default()),
        );
        proof {
            assert(items@ =~= self.spec_render_items());
        }
        items
    }
}

} // verus!
