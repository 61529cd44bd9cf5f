use vstd::prelude::*;

use crate::render::{Texture, TextureCharacter, TextureColor};

verus! {

pub open spec fn spec_snake_head() -> Texture {
    Texture { character: TextureCharacter::Fixed('>'), color: TextureColor::DarkGreen }
}

pub fn snake_head() -> (r: Texture)
    ensures
        r == spec_snake_head(),
{
    Texture::new('>', TextureColor::DarkGreen)
}

pub open spec fn spec_snake_part() -> Texture {
    Texture { character: TextureCharacter::Fixed('~'), color: TextureColor::DarkGreen }
}

pub fn snake_part() -> (r: Texture)
    ensures
        r == spec_snake_part(),
{
    Texture::new('~', TextureColor::DarkGreen)
}

pub open spec fn spec_wall_x() -> Texture {
    Texture { character: TextureCharacter::Fixed('|'), color: TextureColor::White }
}

pub fn wall_x() -> (r: Texture)
    ensures
        r == spec_wall_x(),
{
    Texture::new('|', TextureColor::White)
}

pub open spec fn spec_wall_y() -> Texture {
    Texture { character: TextureCharacter::Fixed('_'), color: TextureColor::White }
}

pub fn wall_y() -> (r: Texture)
    ensures
        r == spec_wall_y(),
{
    Texture::new('_', TextureColor::White)
}

/// A wall drawn as `|` facing right or left and as `_` facing down or up.
pub open spec fn spec_wall() -> Texture {
    Texture {
        character: TextureCharacter::Rotated { right: '|', down: '_', left: '|', up: '_' },
        color: TextureColor::White,
    }
}

pub fn wall() -> (r: Texture)
    ensures
        r == spec_wall(),
{
    Texture::new_rotated('|', '_', '|', '_', TextureColor::White)
}

pub open spec fn spec_wall_diagonal() -> Texture {
    Texture { character: TextureCharacter::Fixed('x'), color: TextureColor::White }
}

pub fn wall_diagonal() -> (r: Texture)
    ensures
        r == spec_wall_diagonal(),
{
    Texture::new('x', TextureColor::White)
}

pub open spec fn spec_blank() -> Texture {
    Texture { character: TextureCharacter::Fixed(' '), color: TextureColor::White }
}

pub fn blank() -> (r: Texture)
    ensures
        r == spec_blank(),
{
    Texture::new(' ', TextureColor::White)
}

pub open spec fn spec_apple() -> Texture {
    Texture { character: TextureCharacter::Fixed('&'), color: TextureColor::Red }
}

pub fn apple() -> (r: Texture)
    ensures
        r == spec_apple(),
{
    Texture::new('&', TextureColor::Red)
}

} // verus!
