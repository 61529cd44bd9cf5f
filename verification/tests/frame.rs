use rust_snake::frame::{append_render_cells, RenderCell, RenderFrame, RenderViewport};
use rust_snake::models::apple::Apple;
use rust_snake::{assets, Rotation, Texture, TextureColor, Vector2Int, ZIndex};

fn render_cell(character: char, z_index: ZIndex) -> RenderCell {
    RenderCell::new(
        Vector2Int::zero(),
        Texture::new(character, TextureColor::White),
        Rotation::right(),
        z_index,
    )
}

#[test]
fn frame_orders_cells_by_z_index_and_preserves_equal_order() {
    let frame = RenderFrame::new(
        RenderViewport::new(24, 24),
        vec![
            render_cell('h', ZIndex::default()),
            render_cell('b', ZIndex::background()),
            render_cell('s', ZIndex::default()),
        ],
    );

    assert_eq!(
        frame
            .cells()
            .iter()
            .map(|cell| cell.texture().character(Rotation::right()))
            .collect::<Vec<_>>(),
        ['b', 'h', 's']
    );
}

#[test]
fn frame_keeps_every_cell_and_orders_many_layers() {
    let frame = RenderFrame::new(
        RenderViewport::new(3, 3),
        vec![
            render_cell('c', ZIndex::new(5)),
            render_cell('a', ZIndex::new(-3)),
            render_cell('d', ZIndex::new(5)),
            render_cell('b', ZIndex::new(0)),
            render_cell('e', ZIndex::new(9)),
        ],
    );
    assert_eq!(
        frame
            .cells()
            .iter()
            .map(|cell| cell.texture().character(Rotation::right()))
            .collect::<String>(),
        "abcde"
    );
    assert_eq!(frame.viewport(), RenderViewport::new(3, 3));
}

#[test]
fn appended_cells_are_placed_at_the_object_origin() {
    let apple = Apple::spawn(Vector2Int::new(4, 7));
    let mut cells = Vec::new();
    append_render_cells(&mut cells, Vector2Int::new(4, 7), &apple);
    assert_eq!(cells.len(), 1);
    assert_eq!(cells[0].position_world(), Vector2Int::new(4, 7));
    assert_eq!(cells[0].texture(), assets::apple());
    assert!(!cells[0].fills_cell());
}
