use vstd::prelude::*;

use crate::geometry::{Rotation, Vector2Int};
use crate::movement::MoveDirection;

verus! {

/// Draw order key where lower values render first.
#[derive(Debug, Clone, Copy, PartialEq, Eq, PartialOrd, Ord, Hash, Structural)]
pub struct ZIndex(pub i32);

impl ZIndex {
    pub fn new(value: i32) -> (r: Self)
        ensures
            r.0 == value,
    {
        ZIndex(value)
    }

    /// The layer below everything else.
    pub fn background() -> (r: Self)
        ensures
            r.0 == -1,
    {
        ZIndex(-1)
    }

    pub fn value(self) -> (r: i32)
        ensures
            r == self.0,
    {
        self.0
    }
}

impl Default for ZIndex {
    fn default() -> (r: Self)
        ensures
            r.0 == 0,
    {
        ZIndex(0)
    }
}

#[derive(Debug, Clone, Copy, PartialEq, Eq, Structural)]
pub enum TextureColor {
    White,
    DarkGreen,
    Green,
    Gold,
    Red,
}

/// The glyph of a texture: one character, or one per facing direction.
#[derive(Debug, Clone, Copy, PartialEq, Eq, Structural)]
pub enum TextureCharacter {
    Fixed(char),
    Rotated { right: char, down: char, left: char, up: char },
}

#[derive(Debug, Clone, Copy, PartialEq, Eq, Structural)]
pub struct Texture {
    pub character: TextureCharacter,
    pub color: TextureColor,
}

impl Texture {
    pub fn new(character: char, color: TextureColor) -> (r: Self)
        ensures
            r.character == TextureCharacter::Fixed(character),
            r.color == color,
    {
        Self { character: TextureCharacter::Fixed(character), color }
    }

    pub fn new_rotated(right: char, down: char, left: char, up: char, color: TextureColor) -> (r: Self)
        ensures
            r.character == (TextureCharacter::Rotated { right, down, left, up }),
            r.color == color,
    {
        Self { character: TextureCharacter::Rotated { right, down, left, up }, color }
    }

    pub fn color(self) -> (r: TextureColor)
        ensures
            r == self.color,
    {
        self.color
    }

    /// The character drawn for this texture at a rotation; rotations other than down, left
    /// and up draw the right-facing character.
    pub open spec fn spec_character(self, rotation: Rotation) -> char {
        match self.character {
            TextureCharacter::Fixed(character) => character,
            TextureCharacter::Rotated { right, down, left, up } => {
                if rotation.degrees() == 90 {
                    down
                } else if rotation.degrees() == 180 {
                    left
                } else if rotation.degrees() == 270 {
                    up
                } else {
                    right
                }
            },
        }
    }

    pub fn character(self, rotation: Rotation) -> (r: char)
        ensures
            r == self.spec_character(rotation),
    {
        match self.character {
            TextureCharacter::Fixed(character) => character,
            TextureCharacter::Rotated { right, down, left, up } => {
                let degrees = rotation.into_inner();
                if degrees == 90 {
                    down
                } else if degrees == 180 {
                    left
                } else if degrees == 270 {
                    up
                } else {
                    right
                }
            },
        }
    }
}

#[derive(Debug, Clone, Copy, PartialEq, Eq, Structural)]
pub enum RenderSpace {
    World,
    Screen,
}

/// One glyph to draw, positioned relative to the object that renders it.
#[derive(Debug, Clone, Copy, PartialEq, Eq, Structural)]
pub struct RenderItem {
    pub position_local: Vector2Int,
    pub texture: Texture,
    pub rotation: Rotation,
    pub z_index: ZIndex,
    pub fills_cell: bool,
    pub space: RenderSpace,
}

impl RenderItem {
    /// A world glyph that covers one terminal column.
    pub fn glyph(position_local: Vector2Int, texture: Texture, rotation: Rotation, z_index: ZIndex) -> (r: Self)
        ensures
            r == (RenderItem { position_local, texture, rotation, z_index, fills_cell: false, space: RenderSpace::World }),
    {
        Self { position_local, texture, rotation, z_index, fills_cell: false, space: RenderSpace::World }
    }

    /// A world glyph that fills its whole grid cell.
    pub fn filled_cell(position_local: Vector2Int, texture: Texture, rotation: Rotation, z_index: ZIndex) -> (r: Self)
        ensures
            r == (RenderItem { position_local, texture, rotation, z_index, fills_cell: true, space: RenderSpace::World }),
    {
        Self { position_local, texture, rotation, z_index, fills_cell: true, space: RenderSpace::World }
    }

    /// A right-facing glyph placed in screen space.
    pub fn screen_glyph(position_local: Vector2Int, texture: Texture, z_index: ZIndex) -> (r: Self)
        ensures
            r.position_local == position_local,
            r.texture == texture,
            r.rotation.degrees() == 0,
            r.rotation == Rotation::spec_from_direction(MoveDirection::Right),
            r.z_index == z_index,
            !r.fills_cell,
            r.space == RenderSpace::Screen,
    {
        Self {
            position_local,
            texture,
            rotation: Rotation::right(),
            z_index,
            fills_cell: false,
            space: RenderSpace::Screen,
        }
    }

    pub fn space(self) -> (r: RenderSpace)
        ensures
            r == self.space,
    {
        self.space
    }

    pub fn position_local(self) -> (r: Vector2Int)
        ensures
            r == self.position_local,
    {
        self.position_local
    }

    pub fn texture(self) -> (r: Texture)
        ensures
            r == self.texture,
    {
        self.texture
    }

    pub fn rotation(self) -> (r: Rotation)
        ensures
            r == self.rotation,
    {
        self.rotation
    }

    pub fn z_index(self) -> (r: ZIndex)
        ensures
            r == self.z_index,
    {
        self.z_index
    }

    pub fn fills_cell(self) -> (r: bool)
        ensures
            r == self.fills_cell,
    {
        self.fills_cell
    }
}

/// Objects that draw themselves as a list of render items.
pub trait Render {
    spec fn spec_render_items(&self) -> Seq<RenderItem>;

    fn render_items(&self) -> (r: Vec<RenderItem>)
        ensures
            r@ == self.spec_render_items(),
    ;
}

} // verus!
