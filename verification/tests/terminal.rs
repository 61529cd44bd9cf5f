use rust_snake::assets;
use rust_snake::frame::{RenderCell, RenderFrame, RenderViewport};
use rust_snake::terminal::{CrosstermRenderer, RenderError, TerminalPosition, GRID_CELL_WIDTH_COLUMNS};
use rust_snake::{Rotation, Texture, TextureColor, Vector2Int, ZIndex};

fn background_texture() -> Texture {
    Texture::new('b', TextureColor::White)
}

fn filled_render_cell(position_world: Vector2Int, texture: Texture, rotation: Rotation) -> RenderCell {
    RenderCell::from_filled_cell(position_world, texture, rotation, ZIndex::background())
}

fn count_texture(bytes: &[u8], texture: Texture, rotation: Rotation) -> usize {
    std::str::from_utf8(bytes)
        .expect("Crossterm test output should be valid UTF-8")
        .chars()
        .filter(|character| *character == texture.character(rotation))
        .count()
}

#[test]
fn render_frame_prints_cells_at_their_world_positions() {
    let frame = RenderFrame::new(
        RenderViewport::new(24, 24),
        vec![
            RenderCell::new(
                Vector2Int::new(1, 1),
                assets::apple(),
                Rotation::default(),
                ZIndex::default(),
            ),
            RenderCell::new(
                Vector2Int::new(2, 3),
                assets::snake_part(),
                Rotation::default(),
                ZIndex::default(),
            ),
        ],
    );
    let mut renderer = CrosstermRenderer::new(Vec::new());

    renderer.render(&frame).unwrap();

    assert_eq!(
        count_texture(&renderer.output, assets::apple(), Rotation::default()),
        1
    );
    assert_eq!(
        count_texture(&renderer.output, assets::snake_part(), Rotation::default()),
        1
    );
    assert!(renderer
        .output
        .windows(6)
        .any(|window| window == b"\x1b[2;2H"));
}

#[test]
fn identical_frame_is_not_written_twice() {
    let frame = RenderFrame::new(
        RenderViewport::new(1, 1),
        vec![RenderCell::new(
            Vector2Int::new(0, 0),
            assets::apple(),
            Rotation::default(),
            ZIndex::default(),
        )],
    );
    let mut renderer = CrosstermRenderer::new(Vec::new());

    renderer.render(&frame).unwrap();
    let output_len_first = renderer.output.len();
    renderer.render(&frame).unwrap();

    assert_eq!(renderer.output.len(), output_len_first);
}

#[test]
fn a_cell_is_written_between_the_codes_of_its_color() {
    let frame = RenderFrame::new(
        RenderViewport::new(1, 1),
        vec![RenderCell::new(
            Vector2Int::new(0, 0),
            assets::apple(),
            Rotation::default(),
            ZIndex::default(),
        )],
    );
    let mut renderer = CrosstermRenderer::new(Vec::new());

    renderer.render(&frame).unwrap();

    let contains = |needle: &[u8]| renderer.output.windows(needle.len()).any(|window| window == needle);
    let colored: &[u8] = b"\x1b[1;1H\x1b[38;5;9m&\x1b[39m";
    let plain: &[u8] = b"\x1b[1;1H\x1b[m&\x1b[m";
    assert!(contains(colored) || contains(plain));
    assert_eq!(count_texture(&renderer.output, assets::apple(), Rotation::default()), 1);
}

#[test]
fn changed_frame_is_written_as_a_synchronized_update() {
    let frame = RenderFrame::new(
        RenderViewport::new(1, 1),
        vec![RenderCell::new(
            Vector2Int::new(0, 0),
            assets::apple(),
            Rotation::default(),
            ZIndex::default(),
        )],
    );
    let mut renderer = CrosstermRenderer::new(Vec::new());

    renderer.render(&frame).unwrap();

    assert!(renderer.output.starts_with(b"\x1b[?2026h"));
    assert!(renderer.output.ends_with(b"\x1b[?2026l"));
}

#[test]
fn overlapped_cells_write_only_the_topmost_visual() {
    let frame = RenderFrame::new(
        RenderViewport::new(1, 1),
        vec![
            filled_render_cell(
                Vector2Int::new(0, 0),
                background_texture(),
                Rotation::default(),
            ),
            RenderCell::new(
                Vector2Int::new(0, 0),
                assets::apple(),
                Rotation::default(),
                ZIndex::default(),
            ),
        ],
    );
    let mut renderer = CrosstermRenderer::new(Vec::new());

    renderer.render(&frame).unwrap();

    assert_eq!(
        count_texture(&renderer.output, background_texture(), Rotation::default()),
        0
    );
    assert_eq!(
        count_texture(&renderer.output, assets::apple(), Rotation::default()),
        1
    );
}

#[test]
fn moving_object_writes_only_new_and_vacated_cells() {
    let viewport = RenderViewport::new(2, 1);
    let frame_at = |apple_x| {
        RenderFrame::new(
            viewport,
            vec![
                filled_render_cell(
                    Vector2Int::new(0, 0),
                    background_texture(),
                    Rotation::default(),
                ),
                filled_render_cell(
                    Vector2Int::new(1, 0),
                    background_texture(),
                    Rotation::default(),
                ),
                RenderCell::new(
                    Vector2Int::new(apple_x, 0),
                    assets::apple(),
                    Rotation::default(),
                    ZIndex::default(),
                ),
            ],
        )
    };
    let mut renderer = CrosstermRenderer::new(Vec::new());
    renderer.render(&frame_at(0)).unwrap();
    renderer.output.clear();

    renderer.render(&frame_at(1)).unwrap();

    assert_eq!(
        count_texture(&renderer.output, background_texture(), Rotation::default()),
        1
    );
    assert_eq!(
        count_texture(&renderer.output, assets::apple(), Rotation::default()),
        1
    );
}

#[test]
fn smaller_viewport_clears_cells_outside_the_new_frame() {
    let frame_wide = RenderFrame::new(
        RenderViewport::new(2, 1),
        vec![
            filled_render_cell(
                Vector2Int::new(0, 0),
                background_texture(),
                Rotation::default(),
            ),
            filled_render_cell(
                Vector2Int::new(1, 0),
                background_texture(),
                Rotation::default(),
            ),
        ],
    );
    let frame_narrow = RenderFrame::new(
        RenderViewport::new(1, 1),
        vec![filled_render_cell(
            Vector2Int::new(0, 0),
            background_texture(),
            Rotation::default(),
        )],
    );
    let mut renderer = CrosstermRenderer::new(Vec::new());
    renderer.render(&frame_wide).unwrap();
    renderer.output.clear();

    renderer.render(&frame_narrow).unwrap();

    assert!(renderer.output.windows(4).any(|bytes| bytes == b"\x1b[2J"));
}

#[test]
fn empty_viewport_clears_the_previous_frame() {
    let frame_visible = RenderFrame::new(
        RenderViewport::new(1, 1),
        vec![filled_render_cell(
            Vector2Int::new(0, 0),
            background_texture(),
            Rotation::default(),
        )],
    );
    let frame_empty = RenderFrame::new(RenderViewport::new(0, 0), Vec::new());
    let mut renderer = CrosstermRenderer::new(Vec::new());
    renderer.render(&frame_visible).unwrap();
    renderer.output.clear();

    renderer.render(&frame_empty).unwrap();

    assert!(renderer.output.windows(4).any(|bytes| bytes == b"\x1b[2J"));
}

#[test]
fn filled_cells_use_projected_grid_widths() {
    let viewport = RenderViewport::new(4, 1);
    let frame = RenderFrame::new(
        viewport,
        vec![
            filled_render_cell(
                Vector2Int::new(0, 0),
                assets::wall_diagonal(),
                Rotation::default(),
            ),
            filled_render_cell(Vector2Int::new(1, 0), assets::wall(), Rotation::down()),
            filled_render_cell(
                Vector2Int::new(3, 0),
                assets::wall_diagonal(),
                Rotation::default(),
            ),
        ],
    );
    let mut renderer = CrosstermRenderer::new(Vec::new());

    renderer.render(&frame).unwrap();

    assert_eq!(
        count_texture(&renderer.output, assets::wall_diagonal(), Rotation::default()),
        2
    );
    assert_eq!(
        count_texture(&renderer.output, assets::wall(), Rotation::down()),
        GRID_CELL_WIDTH_COLUMNS
    );
}

#[test]
fn terminal_columns_follow_projected_cell_widths() {
    let cases = [(0, 0), (1, 1), (22, 43), (23, 45)];

    for (grid_x, terminal_column) in cases {
        assert_eq!(
            TerminalPosition::project_grid_column(grid_x).unwrap(),
            terminal_column
        );
    }
}

#[test]
fn render_rejects_positions_outside_the_viewport() {
    let viewport = RenderViewport::new(24, 24);
    for (position, error_expected) in [
        (
            Vector2Int::new(-1, 0),
            "render cell x position -1 cannot be represented in the terminal grid",
        ),
        (
            Vector2Int::new(24, 0),
            "render cell x position 24 is outside the viewport",
        ),
        (
            Vector2Int::new(0, -1),
            "render cell y position -1 cannot be represented in the terminal grid",
        ),
        (
            Vector2Int::new(0, 24),
            "render cell y position 24 is outside the viewport",
        ),
    ] {
        let frame = RenderFrame::new(
            viewport,
            vec![RenderCell::new(
                position,
                assets::apple(),
                Rotation::default(),
                ZIndex::default(),
            )],
        );
        let mut renderer = CrosstermRenderer::new(Vec::new());

        let error = renderer.render(&frame).unwrap_err();

        assert_eq!(error.to_string(), error_expected);
    }
}

#[test]
fn oversized_viewports_and_grids_are_refused() {
    assert_eq!(
        TerminalPosition::project_grid_column(40_000),
        Err(RenderError::GridTooWide)
    );
    assert_eq!(TerminalPosition::project_grid_column(32_768), Ok(65_535));
    let mut renderer = CrosstermRenderer::new(Vec::new());
    assert_eq!(
        renderer.render(&RenderFrame::new(RenderViewport::new(32_769, 1), Vec::new())),
        Err(RenderError::ViewportTooWide)
    );
    assert_eq!(
        renderer.render(&RenderFrame::new(RenderViewport::new(1, 70_000), Vec::new())),
        Err(RenderError::ViewportTooTall)
    );
    assert_eq!(RenderError::ViewportTooTall.to_string(), "render viewport height exceeds terminal row capacity");
    assert!(renderer.output.is_empty());
}

#[test]
fn a_failed_delivery_sends_the_next_frame_whole() {
    let frame = RenderFrame::new(
        RenderViewport::new(1, 1),
        vec![RenderCell::new(Vector2Int::new(0, 0), assets::apple(), Rotation::default(), ZIndex::default())],
    );
    let mut renderer = CrosstermRenderer::new(Vec::new());
    renderer.render(&frame).unwrap();
    let first = renderer.take_output();
    assert!(!first.is_empty());
    renderer.forget_previous_frame();
    renderer.render(&frame).unwrap();
    assert_eq!(count_texture(&renderer.output, assets::apple(), Rotation::default()), 1);
}
