use rust_snake::collision::{vacant_cells, ColliderShape};
use rust_snake::{Bounds, Vector2Int};

#[test]
fn shapes_detect_cells_and_exclude_the_end_bound() {
    let bounds = Bounds {
        start: Vector2Int::new(1, 1),
        end: Vector2Int::new(23, 23),
    };
    for (position, outside) in [
        (Vector2Int::new(1, 1), false),
        (Vector2Int::new(22, 22), false),
        (Vector2Int::new(0, 10), true),
        (Vector2Int::new(10, 0), true),
        (Vector2Int::new(23, 10), true),
        (Vector2Int::new(10, 23), true),
        (Vector2Int::new(-1, 10), true),
        (Vector2Int::new(24, 10), true),
    ] {
        assert_eq!(
            ColliderShape::OutsideBounds(bounds).contains_cell(position),
            outside
        );
        assert!(ColliderShape::Cell(position).contains_cell(position));
        assert!(!ColliderShape::Cell(position).contains_cell(position + Vector2Int::new(1, 0)));
    }
}

#[test]
fn vacancy_excludes_occupied_cells_and_handles_a_full_board() {
    let bounds = Bounds {
        start: Vector2Int::new(1, 1),
        end: Vector2Int::new(3, 3),
    };
    let cells = vacant_cells(bounds, &[]);
    assert_eq!(
        cells,
        [
            Vector2Int::new(1, 1),
            Vector2Int::new(2, 1),
            Vector2Int::new(1, 2),
            Vector2Int::new(2, 2),
        ]
    );
    assert_eq!(
        vacant_cells(
            bounds,
            &[cells[0], cells[0], cells[1], cells[2], Vector2Int::zero()]
        ),
        [cells[3]]
    );
    assert!(vacant_cells(bounds, &cells).is_empty());
    assert!(vacant_cells(
        Bounds {
            start: bounds.end,
            end: bounds.start
        },
        &[]
    )
    .is_empty());
}

#[test]
fn vacant_cells_are_exactly_the_unoccupied_cells_inside_the_bounds() {
    let bounds = Bounds {
        start: Vector2Int::new(-1, 2),
        end: Vector2Int::new(2, 4),
    };
    let occupied = [Vector2Int::new(0, 2), Vector2Int::new(5, 5)];
    let cells = vacant_cells(bounds, &occupied);
    assert_eq!(
        cells,
        [
            Vector2Int::new(-1, 2),
            Vector2Int::new(1, 2),
            Vector2Int::new(-1, 3),
            Vector2Int::new(0, 3),
            Vector2Int::new(1, 3),
        ]
    );
    for y in -2..7 {
        for x in -3..5 {
            let position = Vector2Int::new(x, y);
            let inside = !ColliderShape::OutsideBounds(bounds).contains_cell(position);
            assert_eq!(
                cells.contains(&position),
                inside && !occupied.contains(&position)
            );
        }
    }
}

#[test]
fn vector_addition_saturates() {
    let max = Vector2Int::new(i32::MAX, i32::MIN);
    assert_eq!(
        max + Vector2Int::new(1, -1),
        Vector2Int::new(i32::MAX, i32::MIN)
    );
    assert_eq!(
        Vector2Int::new(3, -4) + Vector2Int::new(-5, 6),
        Vector2Int::new(-2, 2)
    );
    assert_eq!(Vector2Int::from((3, -4)), Vector2Int::new(3, -4));
}

#[test]
fn midpoint_rounds_down() {
    let bounds = Bounds {
        start: Vector2Int::new(1, 1),
        end: Vector2Int::new(22, 22),
    };
    assert_eq!(bounds.middle(), Vector2Int::new(11, 11));
    assert_eq!(
        Vector2Int::new(-3, 0).midpoint(Vector2Int::new(0, -5)),
        Vector2Int::new(-2, -3)
    );
    assert_eq!(
        Vector2Int::new(-1, 3).midpoint(Vector2Int::new(0, 0)),
        Vector2Int::new(-1, 1)
    );
}
