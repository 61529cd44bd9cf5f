use vstd::prelude::*;

use crate::geometry::{Bounds, Vector2Int};

verus! {

#[derive(Debug, Clone, Copy, PartialEq, Eq, Structural)]
pub enum ColliderShape {
    Cell(Vector2Int),
    OutsideBounds(Bounds),
}

/// Whether `position` lies in the half-open rectangle of `bounds`.
pub open spec fn in_bounds(bounds: Bounds, position: Vector2Int) -> bool {
    &&& bounds.start.x <= position.x < bounds.end.x
    &&& bounds.start.y <= position.y < bounds.end.y
}

impl ColliderShape {
    pub open spec fn spec_contains_cell(self, position: Vector2Int) -> bool {
        match self {
            ColliderShape::Cell(cell) => cell == position,
            ColliderShape::OutsideBounds(bounds) => !in_bounds(bounds, position),
        }
    }

    /// A cell shape holds its one cell; an outside-bounds shape holds every cell that is not
    /// inside the bounds, the end bound excluded from the inside.
    pub fn contains_cell(self, position: Vector2Int) -> (r: bool)
        ensures
            r == self.spec_contains_cell(position),
    {
        match self {
            ColliderShape::Cell(cell) => cell == position,
            ColliderShape::OutsideBounds(bounds) => {
                !(bounds.start.x <= position.x && position.x < bounds.end.x) || !(bounds.start.y
                    <= position.y && position.y < bounds.end.y)
            },
        }
    }
}

/// The vacant cells of row `y`, for `x` from `x_start` up to (not including) `x_upto`,
/// left to right.
pub open spec fn vacant_row(y: i32, x_start: int, x_upto: int, occupied: Seq<Vector2Int>) -> Seq<Vector2Int>
    decreases x_upto - x_start,
{
    if x_upto <= x_start {
        Seq::empty()
    } else {
        let cell = Vector2Int { x: (x_upto - 1) as i32, y };
        let before = vacant_row(y, x_start, x_upto - 1, occupied);
        if occupied.contains(cell) {
            before
        } else {
            before.push(cell)
        }
    }
}

/// The vacant cells of the rows of `bounds` above `y_upto`, top to bottom, each row left
/// to right.
pub open spec fn vacant_rows(bounds: Bounds, y_upto: int, occupied: Seq<Vector2Int>) -> Seq<Vector2Int>
    decreases y_upto - bounds.start.y,
{
    if y_upto <= bounds.start.y {
        Seq::empty()
    } else {
        vacant_rows(bounds, y_upto - 1, occupied) + vacant_row(
            (y_upto - 1) as i32,
            bounds.start.x as int,
            bounds.end.x as int,
            occupied,
        )
    }
}

/// Every cell of `bounds` that `occupied` does not hold, in row-major order.
pub open spec fn spec_vacant_cells(bounds: Bounds, occupied: Seq<Vector2Int>) -> Seq<Vector2Int> {
    vacant_rows(bounds, bounds.end.y as int, occupied)
}

pub fn vacant_cells(bounds: Bounds, occupied: &[Vector2Int]) -> (r: Vec<Vector2Int>)
    ensures
        r@ == spec_vacant_cells(bounds, occupied@),
{
    let mut cells: Vec<Vector2Int> = Vec::new();
    if bounds.end.y <= bounds.start.y {
        return cells;
    }
    let mut y: i32 = bounds.start.y;
    while y < bounds.end.y
        invariant
            bounds.start.y <= y <= bounds.end.y,
            cells@ == vacant_rows(bounds, y as int, occupied@),
        decreases bounds.end.y - y,
    {
        let ghost rows_before = cells@;
        let mut x: i32 = bounds.start.x;
        if bounds.start.x < bounds.end.x {
            while x < bounds.end.x
                invariant
                    bounds.start.x <= x <= bounds.end.x,
                    bounds.start.y <= y < bounds.end.y,
                    cells@ == rows_before + vacant_row(y, bounds.start.x as int, x as int, occupied@),
                decreases bounds.end.x - x,
            {
                let cell = Vector2Int::new(x, y);
                let occupied_here = contains_position(occupied, cell);
                if !occupied_here {
                    cells.push(cell);
                }
                proof {
                    assert(cell == Vector2Int { x: ((x + 1) - 1) as i32, y });
                }
                x = x + 1;
            }
        }
        proof {
            assert(vacant_row(y, bounds.start.x as int, bounds.end.x as int, occupied@)
                == vacant_row(y, bounds.start.x as int, x as int, occupied@));
        }
        y = y + 1;
    }
    cells
}

/// Whether `positions` holds `position`.
pub fn contains_position(positions: &[Vector2Int], position: Vector2Int) -> (r: bool)
    ensures
        r == positions@.contains(position),
{
    let mut i: usize = 0;
    while i < positions.len()
        invariant
            0 <= i <= positions@.len(),
            forall|j: int| 0 <= j < i ==> positions@[j] != position,
        decreases positions@.len() - i,
    {
        if positions[i] == position {
            assert(positions@[i as int] == position);
            return true;
        }
        i = i + 1;
    }
    false
}

/// The row-`y` vacancy list holds exactly the unoccupied cells of that row in the range.
pub proof fn lemma_vacant_row_members(y: i32, x_start: int, x_upto: int, occupied: Seq<Vector2Int>, cell: Vector2Int)
    requires
        i32::MIN <= x_start,
        x_upto <= i32::MAX + 1,
    ensures
        vacant_row(y, x_start, x_upto, occupied).contains(cell) <==> (cell.y == y && x_start <= cell.x
            < x_upto && !occupied.contains(cell)),
    decreases x_upto - x_start,
{
    if x_upto > x_start {
        lemma_vacant_row_members(y, x_start, x_upto - 1, occupied, cell);
        let last = Vector2Int { x: (x_upto - 1) as i32, y };
        let before = vacant_row(y, x_start, x_upto - 1, occupied);
        if !occupied.contains(last) {
            assert(before.push(last).contains(cell) <==> (before.contains(cell) || cell == last)) by {
                if before.push(last).contains(cell) {
                    let k = choose|k: int| 0 <= k < before.push(last).len() && before.push(last)[k] == cell;
                    if k < before.len() {
                        assert(before[k] == cell);
                    }
                }
                if before.contains(cell) {
                    let k = choose|k: int| 0 <= k < before.len() && before[k] == cell;
                    assert(before.push(last)[k] == cell);
                }
                if cell == last {
                    assert(before.push(last)[before.len() as int] == cell);
                }
            }
        }
    }
}

/// A cell is reported vacant exactly when it lies inside the bounds and is not
/// occupied.
pub proof fn lemma_vacant_cells_members(bounds: Bounds, occupied: Seq<Vector2Int>, cell: Vector2Int)
    ensures
        spec_vacant_cells(bounds, occupied).contains(cell) <==> (in_bounds(bounds, cell)
            && !occupied.contains(cell)),
{
    lemma_vacant_rows_members(bounds, bounds.end.y as int, occupied, cell);
}

proof fn lemma_vacant_rows_members(bounds: Bounds, y_upto: int, occupied: Seq<Vector2Int>, cell: Vector2Int)
    requires
        y_upto <= bounds.end.y,
    ensures
        vacant_rows(bounds, y_upto, occupied).contains(cell) <==> (bounds.start.x <= cell.x
            < bounds.end.x && bounds.start.y <= cell.y < y_upto && !occupied.contains(cell)),
    decreases y_upto - bounds.start.y,
{
    if y_upto > bounds.start.y {
        lemma_vacant_rows_members(bounds, y_upto - 1, occupied, cell);
        let row_y = (y_upto - 1) as i32;
        lemma_vacant_row_members(row_y, bounds.start.x as int, bounds.end.x as int, occupied, cell);
        let above = vacant_rows(bounds, y_upto - 1, occupied);
        let row = vacant_row(row_y, bounds.start.x as int, bounds.end.x as int, occupied);
        assert((above + row).contains(cell) <==> (above.contains(cell) || row.contains(cell))) by {
            if (above + row).contains(cell) {
                let k = choose|k: int| 0 <= k < (above + row).len() && (above + row)[k] == cell;
                if k < above.len() {
                    assert(above[k] == cell);
                } else {
                    assert(row[k - above.len()] == cell);
                }
            }
            if above.contains(cell) {
                let k = choose|k: int| 0 <= k < above.len() && above[k] == cell;
                assert((above + row)[k] == cell);
            }
            if row.contains(cell) {
                let k = choose|k: int| 0 <= k < row.len() && row[k] == cell;
                assert((above + row)[above.len() + k] == cell);
            }
        }
    }
}

} // verus!
