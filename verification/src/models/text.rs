use vstd::prelude::*;

use crate::game_object::{GameObject, GameObjectId};
use crate::geometry::{Rotation, Vector2Int};
use crate::render::{Render, RenderItem, RenderSpace, Texture, TextureCharacter, TextureColor, ZIndex};

verus! {

/// The glyph shown for `character`: printable ASCII and space as they are, `?` otherwise.
pub open spec fn spec_displayed(character: char) -> char {
    if ('!' <= character && character <= '~') || character == ' ' {
        character
    } else {
        '?'
    }
}

fn displayed(character: char) -> (r: char)
    ensures
        r == spec_displayed(character),
{
    if ('!' <= character && character <= '~') || character == ' ' {
        character
    } else {
        '?'
    }
}

/// renderable text tui widget
pub struct Text {
    id: GameObjectId,
    position: Vector2Int,
    glyphs: Vec<Texture>,
    visible: bool,
}

impl Text {
    pub closed spec fn spec_id(&self) -> GameObjectId {
        self.id
    }

    pub closed spec fn spec_position(&self) -> Vector2Int {
        self.position
    }

    pub closed spec fn spec_glyphs(&self) -> Seq<Texture> {
        self.glyphs@
    }

    pub closed spec fn spec_visible(&self) -> bool {
        self.visible
    }

    /// Visible text at `position`, one glyph of `color` per character of `content`.
    pub fn new(position: Vector2Int, content: &str, color: TextureColor) -> (r: Self)
        ensures
            r.spec_position() == position,
            r.spec_visible(),
            r.spec_id().is_random_v4(),
            r.spec_glyphs() == content@.map_values(
                |c: char| Texture { character: TextureCharacter::Fixed(spec_displayed(c)), color },
            ),
    {
        let length = content.unicode_len();
        let mut glyphs: Vec<Texture> = Vec::new();
        let mut i: usize = 0;
        while i < length
            invariant
                i <= length,
                length == content@.len(),
                glyphs@ == content@.take(i as int).map_values(
                    |c: char| Texture { character: TextureCharacter::Fixed(spec_displayed(c)), color },
                ),
            decreases length - i,
        {
            let character = content.get_char(i);
            glyphs.push(Texture::new(displayed(character), color));
            proof {
                assert(content@.take(i + 1) =~= content@.take(i as int).push(character));
                assert(glyphs@ =~= content@.take(i + 1).map_values(
                    |c: char| Texture { character: TextureCharacter::Fixed(spec_displayed(c)), color },
                ));
            }
            i = i + 1;
        }
        proof {
            assert(content@.take(length as int) =~= content@);
        }
        Self { id: GameObjectId::new(), position, glyphs, visible: true }
    }

    /// Whether the text is drawn.
    pub fn visible(&self) -> (r: bool)
        ensures
            r == self.spec_visible(),
    {
        self.visible
    }

    pub fn set_visible(&mut self, visible: bool)
        ensures
            final(self).spec_visible() == visible,
            final(self).spec_id() == old(self).spec_id(),
            final(self).spec_position() == old(self).spec_position(),
            final(self).spec_glyphs() == old(self).spec_glyphs(),
    {
        self.visible = visible;
    }
}

impl GameObject for Text {
    fn id(&self) -> (r: GameObjectId)
        ensures
            r == self.spec_id(),
    {
        self.id
    }

    fn position(&self) -> (r: Vector2Int)
        ensures
            r == self.spec_position(),
    {
        self.position
    }

    fn rotation(&self) -> (r: Rotation)
        ensures
            r.degrees() == 0,
    {
        Rotation::right()
    }
}

impl Render for Text {
    /// Nothing when hidden, else one screen glyph per column of the first row, at most
    /// `i32::MAX` of them.
    open spec fn spec_render_items(&self) -> Seq<RenderItem> {
        if !self.spec_visible() {
            Seq::empty()
        } else {
            let count = if self.spec_glyphs().len() <= i32::MAX { self.spec_glyphs().len() } else { i32::MAX as nat };
            Seq::new(
                count,
                |i: int| RenderItem {
                    position_local: Vector2Int { x: i as i32, y: 0 },
                    texture: self.spec_glyphs()[i],
                    rotation: Rotation::spec_from_direction(crate::movement::MoveDirection::Right),
                    z_index: ZIndex(1i32),
                    fills_cell: false,
                    space: RenderSpace::Screen,
                },
            )
        }
    }

    fn render_items(&self) -> (r: Vec<RenderItem>) {
        let mut items: Vec<RenderItem> = Vec::new();
        if !self.visible {
            return items;
        }
        let mut i: usize = 0;
        while i < self.glyphs.len() && i < 2147483647
            invariant
                self.visible,
                i <= self.glyphs@.len(),
                i <= i32::MAX,
                items@ == self.spec_render_items().take(i as int),
            decreases self.glyphs@.len() - i,
        {
            items.push(RenderItem::screen_glyph(Vector2Int::new(i as i32, 0), self.glyphs[i], ZIndex::new(1)));
            proof {
                assert(items@ =~= self.spec_render_items().take(i + 1));
            }
            i = i + 1;
        }
        proof {
            assert(items@ =~= self.spec_render_items());
        }
        items
    }
}

} // verus!
