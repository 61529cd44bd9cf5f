use rust_snake::assets;
use rust_snake::board::{create_default_board, Board, BOARD_SIZE_X, BOARD_SIZE_Y};
use rust_snake::collision::ColliderShape;
use rust_snake::random::{RandRandomSource, RandomSource};
use rust_snake::{Render, Rotation, Vector2Int, ZIndex};

#[test]
fn create_default_board_surrounds_blank_inside_with_walls() {
    let board = create_default_board();
    let x_max = BOARD_SIZE_X - 1;
    let y_max = BOARD_SIZE_Y - 1;

    assert_eq!(
        [
            board[0][0],
            board[0][y_max],
            board[x_max][0],
            board[x_max][y_max],
        ],
        [assets::wall_diagonal(); 4]
    );

    assert!(board[0][1..y_max]
        .iter()
        .all(|texture| *texture == assets::wall()));
    assert!(board[x_max][1..y_max]
        .iter()
        .all(|texture| *texture == assets::wall()));

    assert!(board[1..x_max].iter().all(|col| col[0] == assets::wall()));
    assert!(board[1..x_max].iter().all(|col| col[y_max] == assets::wall()));

    assert_eq!(Board::rotation_at(0, 1), Rotation::right());
    assert_eq!(Board::rotation_at(1, 0), Rotation::down());

    assert!(board[1..x_max].iter().all(|col| {
        col[1..y_max]
            .iter()
            .all(|texture| *texture == assets::blank())
    }));

    let boundary = ColliderShape::OutsideBounds(Board::playable_bounds());
    for (x, column) in board.iter().enumerate() {
        for (y, texture) in column.iter().enumerate() {
            assert_eq!(
                boundary.contains_cell(Vector2Int::new(x as i32, y as i32)),
                *texture != assets::blank(),
            );
        }
    }
}

#[test]
fn board_renders_every_cell_as_background() {
    let board = Board::new();
    let items = board.render_items();
    assert_eq!(items.len(), BOARD_SIZE_X * BOARD_SIZE_Y);
    assert_eq!(items[1].position_local(), Vector2Int::new(1, 0));
    assert_eq!(items[BOARD_SIZE_X].position_local(), Vector2Int::new(0, 1));
    assert!(items.iter().all(|item| item.fills_cell() && item.z_index() == ZIndex::background()));
    assert_eq!(items[1].texture(), assets::wall());
    assert_eq!(items[1].rotation(), Rotation::down());
    assert_eq!(board.texture_at(5, 7), assets::blank());
}

struct FixedIndex(usize);

impl RandomSource for FixedIndex {
    fn draws(&self, _after: &Self, length: usize, index: usize) -> bool {
        index == self.0 % length
    }

    fn index(&mut self, length: usize) -> usize {
        self.0 % length
    }
}

#[test]
fn vacant_position_picks_among_the_vacant_playable_cells() {
    let occupied = [Vector2Int::new(1, 1), Vector2Int::new(2, 1)];
    assert_eq!(
        Board::vacant_position(&occupied, &mut FixedIndex(0)),
        Some(Vector2Int::new(3, 1))
    );
    assert_eq!(
        Board::vacant_position_at(&occupied, 22 * 22 - 3),
        Some(Vector2Int::new(22, 22))
    );
    assert_eq!(Board::vacant_position_at(&occupied, 22 * 22 - 2), None);

    let mut random = RandRandomSource::new(7);
    for _ in 0..20 {
        let position = Board::vacant_position(&occupied, &mut random).unwrap();
        assert!(!occupied.contains(&position));
        assert!(!ColliderShape::OutsideBounds(Board::playable_bounds()).contains_cell(position));
    }
}

#[test]
fn a_full_board_has_no_vacant_position() {
    let mut occupied = Vec::new();
    for y in 1..23 {
        for x in 1..23 {
            occupied.push(Vector2Int::new(x, y));
        }
    }
    assert_eq!(Board::vacant_position(&occupied, &mut RandRandomSource::new(0)), None);
}
