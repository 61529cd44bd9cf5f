use vstd::prelude::*;

use crossterm::cursor::MoveTo;
use crossterm::style::{Color, PrintStyledContent, Stylize};
use crossterm::terminal::{BeginSynchronizedUpdate, Clear, ClearType, EndSynchronizedUpdate};
use crossterm::QueueableCommand;

use crate::frame::{RenderCell, RenderFrame, RenderViewport};
use crate::geometry::Vector2Int;
use crate::render::TextureColor;
use crate::text_format::{decimal_digits, push_signed_decimal, push_str, signed_decimal};

verus! {

/// Terminal columns drawn for one grid cell between the first and last column.
pub const GRID_CELL_WIDTH_COLUMNS: usize = 2;

/// Why a frame cannot be drawn on the terminal.
#[derive(Debug, Clone, Copy, PartialEq, Eq, Structural)]
pub enum RenderError {
    XNotRepresentable(i32),
    YNotRepresentable(i32),
    XOutsideViewport(i32),
    YOutsideViewport(i32),
    GridTooWide,
    ViewportTooWide,
    ViewportTooTall,
}

impl RenderError {
    pub open spec fn spec_message(self) -> Seq<char> {
        match self {
            RenderError::XNotRepresentable(x) => "render cell x position "@ + signed_decimal(x as int)
                + " cannot be represented in the terminal grid"@,
            RenderError::YNotRepresentable(y) => "render cell y position "@ + signed_decimal(y as int)
                + " cannot be represented in the terminal grid"@,
            RenderError::XOutsideViewport(x) => "render cell x position "@ + signed_decimal(x as int)
                + " is outside the viewport"@,
            RenderError::YOutsideViewport(y) => "render cell y position "@ + signed_decimal(y as int)
                + " is outside the viewport"@,
            RenderError::GridTooWide => "render grid width exceeds terminal column capacity"@,
            RenderError::ViewportTooWide => "render viewport width exceeds terminal column capacity"@,
            RenderError::ViewportTooTall => "render viewport height exceeds terminal row capacity"@,
        }
    }

    /// The error message.
    pub fn to_string(&self) -> (r: String)
        ensures
            r@ == self.spec_message(),
    {
        let mut text = String::new();
        match *self {
            RenderError::XNotRepresentable(x) => {
                push_str(&mut text, "render cell x position ");
                push_signed_decimal(&mut text, x as i64);
                push_str(&mut text, " cannot be represented in the terminal grid");
            },
            RenderError::YNotRepresentable(y) => {
                push_str(&mut text, "render cell y position ");
                push_signed_decimal(&mut text, y as i64);
                push_str(&mut text, " cannot be represented in the terminal grid");
            },
            RenderError::XOutsideViewport(x) => {
                push_str(&mut text, "render cell x position ");
                push_signed_decimal(&mut text, x as i64);
                push_str(&mut text, " is outside the viewport");
            },
            RenderError::YOutsideViewport(y) => {
                push_str(&mut text, "render cell y position ");
                push_signed_decimal(&mut text, y as i64);
                push_str(&mut text, " is outside the viewport");
            },
            RenderError::GridTooWide => {
                push_str(&mut text, "render grid width exceeds terminal column capacity");
            },
            RenderError::ViewportTooWide => {
                push_str(&mut text, "render viewport width exceeds terminal column capacity");
            },
            RenderError::ViewportTooTall => {
                push_str(&mut text, "render viewport height exceeds terminal row capacity");
            },
        }
        proof {
            assert(text@ =~= self.spec_message());
        }
        text
    }
}

/// The terminal column of grid column `g`: the first grid column takes one terminal
/// column, every later one starts two columns after the previous.
pub open spec fn spec_projected(g: int) -> int {
    if g == 0 {
        0
    } else {
        2 * (g - 1) + 1
    }
}

/// Grid columns keep their order on the terminal, and each grid column ends where the next
/// begins: the first takes one terminal column, every later one two.
pub proof fn lemma_projection_tiles_the_row(a: int, b: int)
    requires
        0 <= a < b,
    ensures
        spec_projected(a) < spec_projected(b),
        spec_projected(a + 1) == spec_projected(a) + if a == 0 { 1 } else { GRID_CELL_WIDTH_COLUMNS as int },
{
}

/// The terminal width of a viewport `w` cells wide, before any capacity check.
pub open spec fn spec_terminal_width(w: int) -> int {
    if w == 0 {
        0
    } else {
        spec_projected(w - 1) + 1
    }
}

/// The terminal width of a viewport `w` cells wide, or why it does not fit in `u16`.
pub open spec fn spec_width_result(w: int) -> Result<u16, RenderError> {
    if w == 0 {
        Ok(0u16)
    } else if spec_projected(w - 1) > u16::MAX {
        Err(RenderError::GridTooWide)
    } else if spec_projected(w - 1) + 1 > u16::MAX {
        Err(RenderError::ViewportTooWide)
    } else {
        Ok((spec_projected(w - 1) + 1) as u16)
    }
}

/// A terminal column and row.
#[derive(Debug, Clone, Copy, PartialEq, Eq, Structural)]
pub struct TerminalPosition {
    pub column: u16,
    pub row: u16,
}

/// The terminal position of a world cell in `viewport`, or why it has none. The checks
/// run in this order: x negative, y negative or beyond `u16`, x outside, y outside, and the
/// projected column beyond `u16`.
pub open spec fn spec_position(position: Vector2Int, viewport: RenderViewport) -> Result<TerminalPosition, RenderError> {
    if position.x < 0 {
        Err(RenderError::XNotRepresentable(position.x))
    } else if position.y < 0 || position.y > u16::MAX {
        Err(RenderError::YNotRepresentable(position.y))
    } else if position.x >= viewport.width_cells {
        Err(RenderError::XOutsideViewport(position.x))
    } else if position.y >= viewport.height_cells {
        Err(RenderError::YOutsideViewport(position.y))
    } else if spec_projected(position.x as int) > u16::MAX {
        Err(RenderError::GridTooWide)
    } else {
        Ok(TerminalPosition { column: spec_projected(position.x as int) as u16, row: position.y as u16 })
    }
}

impl TerminalPosition {
    pub fn new(column: u16, row: u16) -> (r: Self)
        ensures
            r == (TerminalPosition { column, row }),
    {
        Self { column, row }
    }

    pub fn column(self) -> (r: u16)
        ensures
            r == self.column,
    {
        self.column
    }

    pub fn row(self) -> (r: u16)
        ensures
            r == self.row,
    {
        self.row
    }

    /// The terminal column where grid column `grid_column` starts.
    pub fn project_grid_column(grid_column: usize) -> (r: Result<u16, RenderError>)
        ensures
            spec_projected(grid_column as int) <= u16::MAX ==> r == Ok::<u16, RenderError>(
                spec_projected(grid_column as int) as u16,
            ),
            spec_projected(grid_column as int) > u16::MAX ==> r == Err::<u16, RenderError>(RenderError::GridTooWide),
    {
        if grid_column == 0 {
            return Ok(0);
        }
        if grid_column - 1 > 32767 {
            return Err(RenderError::GridTooWide);
        }
        let column = (grid_column - 1) * GRID_CELL_WIDTH_COLUMNS + 1;
        if column > 65535 {
            return Err(RenderError::GridTooWide);
        }
        Ok(column as u16)
    }

    pub fn try_from_render_position(position_world: Vector2Int, viewport: RenderViewport) -> (r: Result<Self, RenderError>)
        ensures
            r == spec_position(position_world, viewport),
    {
        if position_world.x < 0 {
            return Err(RenderError::XNotRepresentable(position_world.x));
        }
        if position_world.y < 0 || position_world.y > 65535 {
            return Err(RenderError::YNotRepresentable(position_world.y));
        }
        let grid_column = position_world.x as usize;
        let row = position_world.y as u16;
        if grid_column >= viewport.width_cells() {
            return Err(RenderError::XOutsideViewport(position_world.x));
        }
        if (row as usize) >= viewport.height_cells() {
            return Err(RenderError::YOutsideViewport(position_world.y));
        }
        let column = match Self::project_grid_column(grid_column) {
            Ok(column) => column,
            Err(error) => return Err(error),
        };
        Ok(Self::new(column, row))
    }
}

/// One terminal column: its position, character and color.
#[derive(Debug, Clone, Copy, PartialEq, Eq, Structural)]
pub struct TerminalCell {
    pub position: TerminalPosition,
    pub character: char,
    pub color: TextureColor,
}

impl TerminalCell {
    pub open spec fn spec_blank(position: TerminalPosition) -> TerminalCell {
        TerminalCell { position, character: ' ', color: TextureColor::White }
    }

    pub fn blank(position: TerminalPosition) -> (r: Self)
        ensures
            r == Self::spec_blank(position),
    {
        Self { position, character: ' ', color: TextureColor::White }
    }

    /// The cell showing what `cell` draws.
    pub open spec fn spec_composite(self, cell: RenderCell) -> TerminalCell {
        TerminalCell {
            character: cell.texture.spec_character(cell.rotation),
            color: cell.texture.color,
            ..self
        }
    }

    pub fn composite(&mut self, cell: RenderCell)
        ensures
            *final(self) == old(self).spec_composite(cell),
    {
        self.character = cell.texture().character(cell.rotation());
        self.color = cell.texture().color();
    }
}

/// The blank cells of a terminal `w` columns by `h` rows, row by row.
pub open spec fn spec_blank_cells(w: int, h: int) -> Seq<TerminalCell> {
    Seq::new(
        (w * h) as nat,
        |k: int| TerminalCell::spec_blank(TerminalPosition { column: (k % w) as u16, row: (k / w) as u16 }),
    )
}

/// How many terminal columns a filled cell at `position` covers: one on the first and last
/// column, two elsewhere.
pub open spec fn spec_grid_cell_width(position: TerminalPosition, width_columns: u16) -> int {
    if position.column == 0 || position.column == (if width_columns == 0 { 0 } else { width_columns - 1 }) {
        1
    } else {
        GRID_CELL_WIDTH_COLUMNS as int
    }
}

/// `cells` with the columns from `lo` up to `hi` showing what `cell` draws.
pub open spec fn spec_paint(cells: Seq<TerminalCell>, lo: int, hi: int, cell: RenderCell) -> Seq<TerminalCell> {
    Seq::new(cells.len(), |k: int| if lo <= k < hi { cells[k].spec_composite(cell) } else { cells[k] })
}

/// The cells after drawing `cell` on them, or why it cannot be drawn.
pub open spec fn spec_composite_cell(cells: Seq<TerminalCell>, width_columns: u16, viewport: RenderViewport, cell: RenderCell) -> Result<Seq<TerminalCell>, RenderError> {
    match spec_position(cell.position_world, viewport) {
        Err(error) => Err(error),
        Ok(position) => {
            let index = position.row * width_columns + position.column;
            let width = if cell.fills_cell { spec_grid_cell_width(position, width_columns) } else { 1 };
            Ok(spec_paint(cells, index, index + width, cell))
        },
    }
}

/// The cells after drawing the first `upto` render cells in order; the first cell that
/// cannot be drawn decides the error.
pub open spec fn spec_composite_all(cells: Seq<TerminalCell>, width_columns: u16, viewport: RenderViewport, render_cells: Seq<RenderCell>, upto: int) -> Result<Seq<TerminalCell>, RenderError>
    decreases upto,
{
    if upto <= 0 {
        Ok(cells)
    } else {
        match spec_composite_all(cells, width_columns, viewport, render_cells, upto - 1) {
            Err(error) => Err(error),
            Ok(drawn) => spec_composite_cell(drawn, width_columns, viewport, render_cells[upto - 1]),
        }
    }
}

/// The width, height and cells of the terminal frame that draws `render_cells` on
/// `viewport`, or why it cannot be drawn.
pub open spec fn spec_compose(viewport: RenderViewport, render_cells: Seq<RenderCell>) -> Result<(u16, u16, Seq<TerminalCell>), RenderError> {
    match spec_width_result(viewport.width_cells as int) {
        Err(error) => Err(error),
        Ok(width) => if viewport.height_cells > u16::MAX {
            Err(RenderError::ViewportTooTall)
        } else {
            match spec_composite_all(
                spec_blank_cells(width as int, viewport.height_cells as int),
                width,
                viewport,
                render_cells,
                render_cells.len() as int,
            ) {
                Err(error) => Err(error),
                Ok(cells) => Ok((width, viewport.height_cells as u16, cells)),
            }
        },
    }
}

/// The cells of `current` that differ from the cell at the same index of `previous`, among
/// the first `upto`, in order.
pub open spec fn spec_changed(current: Seq<TerminalCell>, previous: Seq<TerminalCell>, upto: int) -> Seq<TerminalCell>
    decreases upto,
{
    if upto <= 0 {
        Seq::empty()
    } else {
        let before = spec_changed(current, previous, upto - 1);
        if current[upto - 1] != previous[upto - 1] {
            before.push(current[upto - 1])
        } else {
            before
        }
    }
}

/// The changed cells among the first `upto`: every cell that differs from the cell at the
/// same index of `previous` (in position, character or color) is among them, and each of
/// them is such a cell; there are at most `upto`.
pub proof fn lemma_changed_cells_are_exactly_the_differing_ones(current: Seq<TerminalCell>, previous: Seq<TerminalCell>, upto: int)
    requires
        0 <= upto <= current.len(),
        upto <= previous.len(),
    ensures
        forall|i: int| 0 <= i < upto && current[i] != previous[i] ==> spec_changed(current, previous, upto).contains(#[trigger] current[i]),
        forall|k: int| 0 <= k < spec_changed(current, previous, upto).len() ==> exists|i: int|
            0 <= i < upto && current[i] != previous[i] && #[trigger] spec_changed(current, previous, upto)[k] == current[i],
        spec_changed(current, previous, upto).len() <= upto,
    decreases upto,
{
    if upto > 0 {
        lemma_changed_cells_are_exactly_the_differing_ones(current, previous, upto - 1);
        let before = spec_changed(current, previous, upto - 1);
        let after = spec_changed(current, previous, upto);
        assert forall|i: int| 0 <= i < upto && current[i] != previous[i] implies after.contains(#[trigger] current[i]) by {
            if i < upto - 1 {
                let m = choose|m: int| 0 <= m < before.len() && before[m] == current[i];
                assert(after[m] == current[i]);
            } else {
                assert(after[after.len() - 1] == current[i]);
            }
        }
        assert forall|k: int| 0 <= k < after.len() implies exists|i: int|
            0 <= i < upto && current[i] != previous[i] && #[trigger] after[k] == current[i] by {
            if k < before.len() {
                assert(after[k] == before[k]);
            } else {
                assert(after[k] == current[upto - 1]);
            }
        }
    }
}

/// What a frame writes after `previous`: with no previous frame, or one of another size,
/// every cell; else exactly the cells that differ from the previous frame's cell at the same
/// index, in character, color or position.
pub proof fn lemma_updates_are_the_changed_cells(shown: TerminalFrame, previous: Option<TerminalFrame>)
    requires
        shown.wf(),
        previous matches Some(p) ==> p.wf(),
    ensures
        previous is None ==> shown.spec_cell_updates(previous) == shown.cells@,
        size_changed(previous, shown) ==> shown.spec_cell_updates(previous) == shown.cells@,
        previous matches Some(p) ==> !size_changed(previous, shown) ==> {
            let updates = shown.spec_cell_updates(previous);
            &&& forall|i: int| 0 <= i < shown.cells@.len() && shown.cells@[i] != p.cells@[i] ==> updates.contains(
                #[trigger] shown.cells@[i],
            )
            &&& forall|k: int| 0 <= k < updates.len() ==> exists|i: int|
                0 <= i < shown.cells@.len() && shown.cells@[i] != p.cells@[i] && #[trigger] updates[k] == shown.cells@[i]
        },
{
    if let Some(p) = previous {
        if !size_changed(previous, shown) {
            assert(shown.cells@.len() == p.cells@.len());
            lemma_changed_cells_are_exactly_the_differing_ones(shown.cells@, p.cells@, shown.cells@.len() as int);
        }
    }
}

/// A composed terminal screen.
#[derive(Debug, Clone, PartialEq, Eq)]
pub struct TerminalFrame {
    pub viewport: RenderViewport,
    pub width_columns: u16,
    pub height_rows: u16,
    pub cells: Vec<TerminalCell>,
}

impl TerminalFrame {
    /// The frame covers its viewport and holds one cell per terminal column and row.
    pub open spec fn wf(&self) -> bool {
        &&& spec_width_result(self.viewport.width_cells as int) == Ok::<u16, RenderError>(self.width_columns)
        &&& self.height_rows == self.viewport.height_cells
        &&& self.cells@.len() == self.width_columns * self.height_rows
        &&& forall|i: int| 0 <= i < self.cells@.len() ==> #[trigger] self.cells@[i].position.column < self.width_columns
            && self.cells@[i].position.row < self.height_rows
    }

    /// The cells a frame sends when `previous` was shown before: every cell the first time
    /// or after the size changed, else only the cells that differ.
    pub open spec fn spec_cell_updates(&self, previous: Option<TerminalFrame>) -> Seq<TerminalCell> {
        match previous {
            None => self.cells@,
            Some(previous) => if previous.width_columns != self.width_columns || previous.height_rows
                != self.height_rows {
                self.cells@
            } else {
                spec_changed(
                    self.cells@,
                    previous.cells@,
                    if self.cells@.len() <= previous.cells@.len() { self.cells@.len() as int } else { previous.cells@.len() as int },
                )
            },
        }
    }

    /// A blank frame for `viewport`, or why the viewport does not fit the terminal.
    pub fn try_from_render_viewport(viewport: RenderViewport) -> (r: Result<Self, RenderError>)
        ensures
            match spec_width_result(viewport.width_cells as int) {
                Err(error) => r == Err::<Self, RenderError>(error),
                Ok(width) => if viewport.height_cells > u16::MAX {
                    r == Err::<Self, RenderError>(RenderError::ViewportTooTall)
                } else {
                    r matches Ok(frame) && frame.wf() && frame.viewport == viewport && frame.width_columns == width
                        && frame.height_rows == viewport.height_cells && frame.cells@ == spec_blank_cells(
                        width as int,
                        viewport.height_cells as int,
                    )
                },
            },
    {
        let width_columns = match Self::terminal_width_columns(viewport) {
            Ok(width_columns) => width_columns,
            Err(error) => return Err(error),
        };
        if viewport.height_cells() > 65535 {
            return Err(RenderError::ViewportTooTall);
        }
        let height_rows = viewport.height_cells() as u16;
        let mut cells: Vec<TerminalCell> = Vec::new();
        let mut row: u16 = 0;
        while row < height_rows
            invariant
                row <= height_rows,
                cells@ == spec_blank_cells(width_columns as int, height_rows as int).take(row * width_columns),
                cells@.len() == row * width_columns,
                forall|i: int| 0 <= i < cells@.len() ==> #[trigger] cells@[i].position.column < width_columns
                    && cells@[i].position.row < height_rows,
            decreases height_rows - row,
        {
            let mut column: u16 = 0;
            while column < width_columns
                invariant
                    row < height_rows,
                    column <= width_columns,
                    cells@ == spec_blank_cells(width_columns as int, height_rows as int).take(
                        row * width_columns + column,
                    ),
                    cells@.len() == row * width_columns + column,
                    forall|i: int| 0 <= i < cells@.len() ==> #[trigger] cells@[i].position.column < width_columns
                        && cells@[i].position.row < height_rows,
                decreases width_columns - column,
            {
                cells.push(TerminalCell::blank(TerminalPosition::new(column, row)));
                proof {
                    let w = width_columns as int;
                    let h = height_rows as int;
                    let k = row * w + column;
                    assert(k % w == column as int && k / w == row as int && k < w * h) by (nonlinear_arith)
                        requires
                            k == row * w + column,
                            column < w,
                            row < h,
                            0 <= row,
                            0 <= column,
                    ;
                    assert(cells@ =~= spec_blank_cells(w, h).take(k + 1));
                }
                column = column + 1;
            }
            proof {
                assert((row + 1) * width_columns == row * width_columns + width_columns) by (nonlinear_arith);
            }
            row = row + 1;
        }
        proof {
            let w = width_columns as int;
            let h = height_rows as int;
            assert(h * w == w * h) by (nonlinear_arith);
            assert(spec_blank_cells(w, h).len() == h * w);
            assert(cells@ =~= spec_blank_cells(w, h));
        }
        Ok(Self { viewport, width_columns, height_rows, cells })
    }

    /// The terminal width of a viewport.
    pub fn terminal_width_columns(viewport: RenderViewport) -> (r: Result<u16, RenderError>)
        ensures
            r == spec_width_result(viewport.width_cells as int),
    {
        if viewport.width_cells() == 0 {
            return Ok(0);
        }
        let grid_column_last = viewport.width_cells() - 1;
        let terminal_column_last = match TerminalPosition::project_grid_column(grid_column_last) {
            Ok(column) => column,
            Err(error) => return Err(error),
        };
        if terminal_column_last == 65535 {
            return Err(RenderError::ViewportTooWide);
        }
        Ok(terminal_column_last + 1)
    }

    /// The cells to send after `previous` was shown.
    pub fn cell_updates(&self, previous: Option<&Self>) -> (r: Vec<TerminalCell>)
        ensures
            r@ == self.spec_cell_updates(
                match previous {
                    Some(frame) => Some(*frame),
                    None => None,
                },
            ),
    {
        let previous = match previous {
            None => return self.cells.clone(),
            Some(previous) => previous,
        };
        if previous.width_columns != self.width_columns || previous.height_rows != self.height_rows {
            return self.cells.clone();
        }
        let upto = if self.cells.len() <= previous.cells.len() {
            self.cells.len()
        } else {
            previous.cells.len()
        };
        let mut updates: Vec<TerminalCell> = Vec::new();
        let mut i: usize = 0;
        while i < upto
            invariant
                i <= upto,
                upto <= self.cells@.len(),
                upto <= previous.cells@.len(),
                updates@ == spec_changed(self.cells@, previous.cells@, i as int),
            decreases upto - i,
        {
            let cell = self.cells[i];
            let cell_previous = previous.cells[i];
            if cell != cell_previous {
                updates.push(cell);
            }
            i = i + 1;
        }
        updates
    }

    /// The index of the cell at `position`, row by row.
    pub fn cell_index(&self, position: TerminalPosition) -> (r: usize)
        requires
            position.row < self.height_rows,
            position.column < self.width_columns,
        ensures
            r == position.row * self.width_columns + position.column,
    {
        proof {
            assert(position.row * self.width_columns + position.column <= 65535 * 65535 + 65535) by (nonlinear_arith)
                requires
                    position.row <= 65535,
                    self.width_columns <= 65535,
                    position.column <= 65535,
            ;
        }
        (position.row as usize) * (self.width_columns as usize) + (position.column as usize)
    }

    /// How many terminal columns a filled cell at `position` covers.
    pub fn grid_cell_width_columns(&self, position: TerminalPosition) -> (r: usize)
        ensures
            r == spec_grid_cell_width(position, self.width_columns),
    {
        let last = if self.width_columns == 0 {
            0
        } else {
            self.width_columns - 1
        };
        if position.column() == 0 || position.column() == last {
            1
        } else {
            GRID_CELL_WIDTH_COLUMNS
        }
    }

    pub fn viewport(&self) -> (r: RenderViewport)
        ensures
            r == self.viewport,
    {
        self.viewport
    }
}


/// A position inside a well-formed frame's viewport lies on the frame, and a cell drawn
/// there, one or two columns wide, stays on its row.
proof fn lemma_position_on_frame(frame: TerminalFrame, world: Vector2Int, position: TerminalPosition, fills: bool)
    requires
        frame.wf(),
        spec_position(world, frame.viewport) == Ok::<TerminalPosition, RenderError>(position),
    ensures
        position.row < frame.height_rows,
        position.column < frame.width_columns,
        ({
            let index = position.row * frame.width_columns + position.column;
            let width = if fills { spec_grid_cell_width(position, frame.width_columns) } else { 1 };
            0 <= index && index + width <= frame.cells@.len()
        }),
{
    let w = frame.width_columns as int;
    let h = frame.height_rows as int;
    let row = position.row as int;
    let column = position.column as int;
    assert(column + (if fills { spec_grid_cell_width(position, frame.width_columns) } else { 1 }) <= w);
    assert(row * w + w <= h * w) by (nonlinear_arith)
        requires
            row < h,
            0 <= w,
    ;
    assert(h * w == w * h) by (nonlinear_arith);
    assert(0 <= row * w) by (nonlinear_arith)
        requires
            0 <= row,
            0 <= w,
    ;
}

/// Once a render cell cannot be drawn, drawing more cells keeps that error.
proof fn lemma_composite_error_sticks(cells: Seq<TerminalCell>, width_columns: u16, viewport: RenderViewport, render_cells: Seq<RenderCell>, failed_upto: int, upto: int, error: RenderError)
    requires
        1 <= failed_upto <= upto,
        spec_composite_all(cells, width_columns, viewport, render_cells, failed_upto) == Err::<Seq<TerminalCell>, RenderError>(error),
    ensures
        spec_composite_all(cells, width_columns, viewport, render_cells, upto) == Err::<Seq<TerminalCell>, RenderError>(error),
    decreases upto - failed_upto,
{
    if failed_upto < upto {
        lemma_composite_error_sticks(cells, width_columns, viewport, render_cells, failed_upto, upto - 1, error);
    }
}

/// Calls `QueueableCommand::queue` with `BeginSynchronizedUpdate` on a byte buffer: its
/// ANSI form `ESC [ ? 2 0 2 6 h`; writing to a `Vec<u8>` does not fail. These are the bytes crossterm writes on every platform that takes ANSI commands (all but
/// Windows consoles older than Windows 10, where `queue` makes a console call instead and
/// writes nothing); the library assumes such a terminal.
#[verifier::external_body]
fn queue_begin_synchronized_update(output: &mut Vec<u8>)
    ensures
        final(output)@ == old(output)@ + spec_begin_synchronized_update(),
{
    let _ = output.queue(BeginSynchronizedUpdate);
}

/// Calls `QueueableCommand::queue` with `EndSynchronizedUpdate`: `ESC [ ? 2 0 2 6 l`. These are the bytes crossterm writes on every platform that takes ANSI commands (all but
/// Windows consoles older than Windows 10, where `queue` makes a console call instead and
/// writes nothing); the library assumes such a terminal.
#[verifier::external_body]
fn queue_end_synchronized_update(output: &mut Vec<u8>)
    ensures
        final(output)@ == old(output)@ + spec_end_synchronized_update(),
{
    let _ = output.queue(EndSynchronizedUpdate);
}

/// Calls `QueueableCommand::queue` with `Clear(ClearType::All)`: `ESC [ 2 J`. These are the bytes crossterm writes on every platform that takes ANSI commands (all but
/// Windows consoles older than Windows 10, where `queue` makes a console call instead and
/// writes nothing); the library assumes such a terminal.
#[verifier::external_body]
fn queue_clear_all(output: &mut Vec<u8>)
    ensures
        final(output)@ == old(output)@ + spec_clear_all(),
{
    let _ = output.queue(Clear(ClearType::All));
}

/// Calls `QueueableCommand::queue` with `MoveTo(column, row)`, written as `ESC [`, the row
/// plus one, `;`, the column plus one and `H`. The command adds one to each coordinate in
/// `u16`, so neither may be `u16::MAX`. These are the bytes crossterm writes on every platform that takes ANSI commands (all but
/// Windows consoles older than Windows 10, where `queue` makes a console call instead and
/// writes nothing); the library assumes such a terminal.
#[verifier::external_body]
fn queue_move_to(output: &mut Vec<u8>, column: u16, row: u16)
    requires
        column < u16::MAX,
        row < u16::MAX,
    ensures
        final(output)@ == old(output)@ + spec_move_to(column, row),
{
    let _ = output.queue(MoveTo(column, row));
}

/// The UTF-8 encoding of `c`.
pub open spec fn spec_utf8(c: char) -> Seq<u8> {
    let v = c as int;
    if v < 0x80 {
        seq![v as u8]
    } else if v < 0x800 {
        seq![(0xC0 + v / 64) as u8, (0x80 + v % 64) as u8]
    } else if v < 0x10000 {
        seq![(0xE0 + v / 4096) as u8, (0x80 + (v / 64) % 64) as u8, (0x80 + v % 64) as u8]
    } else {
        seq![
            (0xF0 + v / 262144) as u8,
            (0x80 + (v / 4096) % 64) as u8,
            (0x80 + (v / 64) % 64) as u8,
            (0x80 + v % 64) as u8,
        ]
    }
}

/// Calls `QueueableCommand::queue` with `PrintStyledContent` of `character` in the
/// foreground color that `color` stands for (`Gold` is drawn in crossterm's `DarkYellow`).
/// crossterm writes the set-foreground code of the color, `ESC [ 38 ; 5 ; n m`, the
/// character in UTF-8 and the code that resets the foreground, `ESC [ 39 m`. When its color
/// output is switched off (the `NO_COLOR` environment variable is set, or a program switched
/// it off) each code shrinks to `ESC [ m`. Which of the two forms each code takes is read
/// from that switch at the moment it is written, so the contract states both possibilities
/// for each of the two codes and does not say which one comes out. These are the bytes
/// crossterm writes on every platform that takes ANSI commands (all but Windows consoles
/// older than Windows 10, where `queue` makes a console call instead and writes nothing);
/// the library assumes such a terminal.
#[verifier::external_body]
fn queue_styled_character(output: &mut Vec<u8>, character: char, color: TextureColor)
    ensures
        exists|colored_set: bool, colored_reset: bool|
            final(output)@ == old(output)@ + spec_styled_character(character, color, colored_set, colored_reset),
{
    let color = match color {
        TextureColor::White => Color::White,
        TextureColor::DarkGreen => Color::DarkGreen,
        TextureColor::Green => Color::Green,
        TextureColor::Gold => Color::DarkYellow,
        TextureColor::Red => Color::Red,
    };
    let _ = output.queue(PrintStyledContent(character.with(color)));
}

/// The number in crossterm's 256-color code of each texture color: `White` is 15,
/// `DarkGreen` 2, `Green` 10, `Gold` (crossterm's `DarkYellow`) 3 and `Red` 9.
pub open spec fn spec_color_number(color: TextureColor) -> Seq<char> {
    match color {
        TextureColor::White => seq!['1', '5'],
        TextureColor::DarkGreen => seq!['2'],
        TextureColor::Green => seq!['1', '0'],
        TextureColor::Gold => seq!['3'],
        TextureColor::Red => seq!['9'],
    }
}

/// The code that sets the foreground to `color`: `ESC [ 38 ; 5 ; n m`.
pub open spec fn spec_set_foreground(color: TextureColor) -> Seq<u8> {
    ascii(seq!['\x1b', '[', '3', '8', ';', '5', ';'] + spec_color_number(color) + seq!['m'])
}

/// The code that resets the foreground: `ESC [ 39 m`.
pub open spec fn spec_reset_foreground() -> Seq<u8> {
    ascii(seq!['\x1b', '[', '3', '9', 'm'])
}

/// A color code written while color output is switched off: `ESC [ m`.
pub open spec fn spec_empty_style() -> Seq<u8> {
    ascii(seq!['\x1b', '[', 'm'])
}

/// `character` in UTF-8 drawn in `color`: the set-foreground code before it and the reset
/// code after it, each in its full form when the flag for it holds and as `ESC [ m` when
/// color output was switched off.
pub open spec fn spec_styled_character(character: char, color: TextureColor, colored_set: bool, colored_reset: bool) -> Seq<u8> {
    (if colored_set { spec_set_foreground(color) } else { spec_empty_style() }) + spec_utf8(character) + (if colored_reset {
        spec_reset_foreground()
    } else {
        spec_empty_style()
    })
}

/// The bytes of an ASCII text.
pub open spec fn ascii(text: Seq<char>) -> Seq<u8> {
    text.map_values(|c: char| c as u8)
}

pub open spec fn spec_begin_synchronized_update() -> Seq<u8> {
    ascii(seq!['\x1b', '[', '?', '2', '0', '2', '6', 'h'])
}

pub open spec fn spec_end_synchronized_update() -> Seq<u8> {
    ascii(seq!['\x1b', '[', '?', '2', '0', '2', '6', 'l'])
}

pub open spec fn spec_clear_all() -> Seq<u8> {
    ascii(seq!['\x1b', '[', '2', 'J'])
}

/// One synchronized update: its start, a screen clear when asked, `body` and its end.
pub open spec fn spec_synchronized_update(clear: bool, body: Seq<u8>) -> Seq<u8> {
    spec_begin_synchronized_update() + (if clear { spec_clear_all() } else { Seq::empty() }) + body
        + spec_end_synchronized_update()
}

pub open spec fn spec_move_to(column: u16, row: u16) -> Seq<u8> {
    ascii(seq!['\x1b', '['] + decimal_digits((row + 1) as nat) + seq![';'] + decimal_digits((column + 1) as nat) + seq!['H'])
}

/// The bytes that write `updates` in order: for each, the cursor move to its cell, then its
/// character drawn in its color, the two color codes around it in the forms that the flags
/// at the same index of `colored` give.
pub open spec fn spec_update_bytes(updates: Seq<TerminalCell>, colored: Seq<(bool, bool)>) -> Seq<u8> {
    Seq::new(
        updates.len(),
        |i: int| spec_update_piece(updates[i], colored[i]),
    ).flatten()
}

/// The bytes that write one update: the cursor move to its cell, then its character drawn
/// in its color.
pub open spec fn spec_update_piece(update: TerminalCell, colored: (bool, bool)) -> Seq<u8> {
    spec_move_to(update.position.column, update.position.row) + spec_styled_character(
        update.character,
        update.color,
        colored.0,
        colored.1,
    )
}

/// Whether `output` is what writing `updates` as one synchronized update after `old_output`
/// gives, the screen cleared first when `clear` holds: each update's character is drawn in
/// its color at its cell, in order. Whether each color code came out in full or as
/// `ESC [ m` is what crossterm's color switch gave at the time.
pub open spec fn spec_presented(old_output: Seq<u8>, clear: bool, updates: Seq<TerminalCell>, output: Seq<u8>) -> bool {
    exists|colored: Seq<(bool, bool)>|
        #![trigger spec_update_bytes(updates, colored)]
        colored.len() == updates.len() && output == old_output + spec_synchronized_update(
            clear,
            spec_update_bytes(updates, colored),
        )
}

/// Whether `output` is what showing `shown` after `previous` writes after `old_output`:
/// nothing when no cell changed and the size stayed, else one synchronized update that
/// clears the screen first when the size changed and writes each changed cell, in order,
/// at its position.
pub open spec fn spec_rendered(old_output: Seq<u8>, previous: Option<TerminalFrame>, shown: TerminalFrame, output: Seq<u8>) -> bool {
    if shown.spec_cell_updates(previous).len() == 0 && !size_changed(previous, shown) {
        output == old_output
    } else {
        spec_presented(old_output, size_changed(previous, shown), shown.spec_cell_updates(previous), output)
    }
}

/// Drawing what the screen already shows writes nothing: a frame of the same size and
/// cells as the one shown last adds no byte to the output.
pub proof fn lemma_same_frame_writes_nothing(previous: TerminalFrame, shown: TerminalFrame, old_output: Seq<u8>, output: Seq<u8>)
    requires
        previous.width_columns == shown.width_columns,
        previous.height_rows == shown.height_rows,
        previous.cells@ == shown.cells@,
        spec_rendered(old_output, Some(previous), shown, output),
    ensures
        output == old_output,
{
    lemma_nothing_changed(shown.cells@, shown.cells@.len() as int);
}

/// Comparing cells with themselves finds no change.
proof fn lemma_nothing_changed(cells: Seq<TerminalCell>, upto: int)
    ensures
        spec_changed(cells, cells, upto).len() == 0,
    decreases upto,
{
    if upto > 0 {
        lemma_nothing_changed(cells, upto - 1);
    }
}

/// Whether a frame was shown before and had another size than `shown`.
pub open spec fn size_changed(previous: Option<TerminalFrame>, shown: TerminalFrame) -> bool {
    previous matches Some(p) && (p.width_columns != shown.width_columns || p.height_rows != shown.height_rows)
}

/// Draws frames on an ANSI terminal, writing only what changed since the last frame into
/// an output buffer.
pub struct CrosstermRenderer {
    pub output: Vec<u8>,
    pub terminal_frame_previous: Option<TerminalFrame>,
}

impl CrosstermRenderer {
    pub fn new(output: Vec<u8>) -> (r: Self)
        ensures
            r.output@ == output@,
            r.terminal_frame_previous is None,
    {
        Self { output, terminal_frame_previous: None }
    }

    /// Takes the bytes written so far, leaving the buffer empty.
    pub fn take_output(&mut self) -> (r: Vec<u8>)
        ensures
            r@ == old(self).output@,
            final(self).output@ == Seq::<u8>::empty(),
            final(self).terminal_frame_previous == old(self).terminal_frame_previous,
    {
        let mut taken: Vec<u8> = Vec::new();
        core::mem::swap(&mut taken, &mut self.output);
        taken
    }

    /// Forgets the last frame, so that the next frame is sent whole; for when the written
    /// bytes could not be delivered.
    pub fn forget_previous_frame(&mut self)
        ensures
            final(self).output@ == old(self).output@,
            final(self).terminal_frame_previous is None,
    {
        self.terminal_frame_previous = None;
    }

    /// The composed terminal frame of `frame`, or why it cannot be drawn.
    pub fn compose_terminal_frame(frame: &RenderFrame) -> (r: Result<TerminalFrame, RenderError>)
        ensures
            match spec_compose(frame.spec_viewport(), frame.spec_cells()) {
                Err(error) => r == Err::<TerminalFrame, RenderError>(error),
                Ok((width, height, cells)) => r matches Ok(composed) && composed.wf() && composed.viewport
                    == frame.spec_viewport() && composed.width_columns == width && composed.height_rows == height
                    && composed.cells@ == cells,
            },
    {
        let mut terminal_frame = match TerminalFrame::try_from_render_viewport(frame.viewport()) {
            Ok(terminal_frame) => terminal_frame,
            Err(error) => return Err(error),
        };
        let ghost blank = terminal_frame.cells@;
        let cells = frame.cells();
        let mut i: usize = 0;
        while i < cells.len()
            invariant
                i <= cells@.len(),
                cells@ == frame.spec_cells(),
                terminal_frame.wf(),
                terminal_frame.viewport == frame.spec_viewport(),
                spec_width_result(frame.spec_viewport().width_cells as int) == Ok::<u16, RenderError>(terminal_frame.width_columns),
                terminal_frame.height_rows == frame.spec_viewport().height_cells,
                blank == spec_blank_cells(terminal_frame.width_columns as int, terminal_frame.height_rows as int),
                spec_composite_all(blank, terminal_frame.width_columns, terminal_frame.viewport, cells@, i as int)
                    == Ok::<Seq<TerminalCell>, RenderError>(terminal_frame.cells@),
            decreases cells@.len() - i,
        {
            let drawn = Self::composite_render_cell(&mut terminal_frame, cells[i]);
            match drawn {
                Err(error) => {
                    proof {
                        lemma_composite_error_sticks(blank, terminal_frame.width_columns, terminal_frame.viewport, cells@, i + 1, cells@.len() as int, error);
                    }
                    return Err(error);
                },
                Ok(()) => {},
            }
            i = i + 1;
        }
        Ok(terminal_frame)
    }

    /// Draws one render cell on the terminal frame.
    pub fn composite_render_cell(terminal_frame: &mut TerminalFrame, cell: RenderCell) -> (r: Result<(), RenderError>)
        requires
            old(terminal_frame).wf(),
        ensures
            final(terminal_frame).wf(),
            final(terminal_frame).viewport == old(terminal_frame).viewport,
            final(terminal_frame).width_columns == old(terminal_frame).width_columns,
            final(terminal_frame).height_rows == old(terminal_frame).height_rows,
            match spec_composite_cell(old(terminal_frame).cells@, old(terminal_frame).width_columns, old(terminal_frame).viewport, cell) {
                Err(error) => r == Err::<(), RenderError>(error) && final(terminal_frame).cells@ == old(terminal_frame).cells@,
                Ok(cells) => r is Ok && final(terminal_frame).cells@ == cells,
            },
    {
        let position = match TerminalPosition::try_from_render_position(cell.position_world(), terminal_frame.viewport()) {
            Ok(position) => position,
            Err(error) => return Err(error),
        };
        proof {
            lemma_position_on_frame(*terminal_frame, cell.position_world, position, cell.fills_cell);
        }
        let cell_index = terminal_frame.cell_index(position);
        let width_columns = if cell.fills_cell() {
            terminal_frame.grid_cell_width_columns(position)
        } else {
            1
        };
        let ghost before = terminal_frame.cells@;
        let len = terminal_frame.cells.len();
        assert(cell_index + width_columns <= len);
        let end = cell_index + width_columns;
        let mut k: usize = cell_index;
        while k < end
            invariant
                end == cell_index + width_columns,
                cell_index <= k <= cell_index + width_columns,
                cell_index + width_columns <= before.len(),
                terminal_frame.cells@.len() == before.len(),
                terminal_frame.viewport == old(terminal_frame).viewport,
                terminal_frame.width_columns == old(terminal_frame).width_columns,
                terminal_frame.height_rows == old(terminal_frame).height_rows,
                forall|j: int| 0 <= j < before.len() ==> #[trigger] terminal_frame.cells@[j].position == before[j].position,
                forall|j: int| 0 <= j < before.len() ==> #[trigger] terminal_frame.cells@[j] == if cell_index <= j < k {
                    before[j].spec_composite(cell)
                } else {
                    before[j]
                },
            decreases end - k,
        {
            let mut terminal_cell = terminal_frame.cells[k];
            terminal_cell.composite(cell);
            terminal_frame.cells.set(k, terminal_cell);
            k = k + 1;
        }
        proof {
            assert(terminal_frame.cells@ =~= spec_paint(before, cell_index as int, (cell_index + width_columns) as int, cell));
        }
        Ok(())
    }

    /// Writes the updates of a composed frame as one synchronized update, clearing the
    /// screen first when asked, and remembers the frame.
    fn present_terminal_frame(&mut self, terminal_frame: TerminalFrame, cell_updates: Vec<TerminalCell>, clear_before_render: bool)
        requires
            cells_within(cell_updates@, u16::MAX as int, u16::MAX as int),
        ensures
            final(self).terminal_frame_previous == Some(terminal_frame),
            spec_presented(old(self).output@, clear_before_render, cell_updates@, final(self).output@),
    {
        let ghost start = self.output@;
        queue_begin_synchronized_update(&mut self.output);
        if clear_before_render {
            queue_clear_all(&mut self.output);
        }
        let ghost header = self.output@;
        let ghost mut colored: Seq<(bool, bool)> = Seq::empty();
        proof {
            assert(Seq::new(0, |k: int| spec_update_piece(cell_updates@.take(0)[k], colored[k]))
                =~= Seq::<Seq<u8>>::empty());
            assert(self.output@ =~= header + spec_update_bytes(cell_updates@.take(0), colored));
        }
        let mut i: usize = 0;
        while i < cell_updates.len()
            invariant
                i <= cell_updates@.len(),
                cells_within(cell_updates@, u16::MAX as int, u16::MAX as int),
                colored.len() == i,
                self.output@ == header + spec_update_bytes(cell_updates@.take(i as int), colored),
            decreases cell_updates@.len() - i,
        {
            let update = cell_updates[i];
            assert(cell_updates@[i as int] == update);
            let ghost before = self.output@;
            queue_move_to(&mut self.output, update.position.column, update.position.row);
            let ghost moved = self.output@;
            queue_styled_character(&mut self.output, update.character, update.color);
            proof {
                let (colored_set, colored_reset) = choose|colored_set: bool, colored_reset: bool|
                    self.output@ == moved + spec_styled_character(update.character, update.color, colored_set, colored_reset);
                let written = spec_update_piece(update, (colored_set, colored_reset));
                assert(self.output@ =~= before + written);
                let pieces = Seq::new(i as nat, |k: int| spec_update_piece(cell_updates@.take(i as int)[k], colored[k]));
                let next_colored = colored.push((colored_set, colored_reset));
                let next_pieces = Seq::new(
                    (i + 1) as nat,
                    |k: int| spec_update_piece(cell_updates@.take(i + 1)[k], next_colored[k]),
                );
                assert(next_pieces =~= pieces.push(written));
                pieces.lemma_flatten_push(written);
                assert(self.output@ =~= header + spec_update_bytes(cell_updates@.take(i + 1), next_colored));
                colored = next_colored;
            }
            i = i + 1;
        }
        proof {
            assert(cell_updates@.take(cell_updates@.len() as int) =~= cell_updates@);
        }
        let ghost body = spec_update_bytes(cell_updates@, colored);
        queue_end_synchronized_update(&mut self.output);
        proof {
            let clear = if clear_before_render { spec_clear_all() } else { Seq::<u8>::empty() };
            assert(header =~= start + spec_begin_synchronized_update() + clear);
            assert(self.output@ =~= start + spec_synchronized_update(clear_before_render, body));
        }
        self.terminal_frame_previous = Some(terminal_frame);
    }

    /// Draws a frame: composes it, then writes the cells that changed since the last frame
    /// as one synchronized update, clearing the screen first when the size changed. Nothing
    /// is written when nothing changed. The frame becomes the last frame; a frame that cannot
    /// be drawn changes nothing.
    #[verifier::spinoff_prover]
    pub fn render(&mut self, frame: &RenderFrame) -> (r: Result<(), RenderError>)
        ensures
            match spec_compose(frame.spec_viewport(), frame.spec_cells()) {
                Err(error) => {
                    &&& r == Err::<(), RenderError>(error)
                    &&& final(self).output@ == old(self).output@
                    &&& final(self).terminal_frame_previous == old(self).terminal_frame_previous
                },
                Ok((width, height, cells)) => {
                    &&& r is Ok
                    &&& final(self).terminal_frame_previous matches Some(shown)
                    &&& shown.wf()
                    &&& shown.viewport == frame.spec_viewport()
                    &&& shown.width_columns == width
                    &&& shown.height_rows == height
                    &&& shown.cells@ == cells
                    &&& spec_rendered(old(self).output@, old(self).terminal_frame_previous, shown, final(self).output@)
                },
            },
    {
        let terminal_frame = match Self::compose_terminal_frame(frame) {
            Ok(terminal_frame) => terminal_frame,
            Err(error) => return Err(error),
        };
        let viewport_changed = match &self.terminal_frame_previous {
            Some(previous) => previous.width_columns != terminal_frame.width_columns || previous.height_rows
                != terminal_frame.height_rows,
            None => false,
        };
        let cell_updates = terminal_frame.cell_updates(self.terminal_frame_previous.as_ref());
        proof {
            assert(cell_updates@ == terminal_frame.spec_cell_updates(old(self).terminal_frame_previous));
            assert(viewport_changed == size_changed(old(self).terminal_frame_previous, terminal_frame));
        }
        if cell_updates.len() == 0 && !viewport_changed {
            proof {
                assert(spec_rendered(old(self).output@, old(self).terminal_frame_previous, terminal_frame, self.output@));
            }
            self.terminal_frame_previous = Some(terminal_frame);
            return Ok(());
        }
        proof {
            lemma_updates_on_frame(terminal_frame, old(self).terminal_frame_previous);
        }
        let ghost output_before = self.output@;
        let ghost shown = terminal_frame;
        self.present_terminal_frame(terminal_frame, cell_updates, viewport_changed);
        proof {
            let updates = shown.spec_cell_updates(old(self).terminal_frame_previous);
            assert(!(updates.len() == 0 && !viewport_changed));
            assert(spec_rendered(old(self).output@, old(self).terminal_frame_previous, shown, self.output@));
        }
        Ok(())
    }
}

/// Whether every cell lies within `width` columns and `height` rows.
pub open spec fn cells_within(cells: Seq<TerminalCell>, width: int, height: int) -> bool {
    forall|i: int| #![trigger cells[i]] 0 <= i < cells.len() ==> cells[i].position.column < width && cells[i].position.row < height
}

/// Every update of a well-formed frame lies on the frame.
proof fn lemma_updates_on_frame(frame: TerminalFrame, previous: Option<TerminalFrame>)
    requires
        frame.wf(),
    ensures
        cells_within(frame.spec_cell_updates(previous), frame.width_columns as int, frame.height_rows as int),
{
    let updates = frame.spec_cell_updates(previous);
    assert(cells_within(frame.cells@, frame.width_columns as int, frame.height_rows as int));
    match previous {
        None => {},
        Some(p) => {
            if !(p.width_columns != frame.width_columns || p.height_rows != frame.height_rows) {
                let upto = if frame.cells@.len() <= p.cells@.len() { frame.cells@.len() as int } else { p.cells@.len() as int };
                lemma_changed_members(frame.cells@, p.cells@, upto);
                assert forall|i: int| 0 <= i < updates.len() implies #[trigger] updates[i].position.column < frame.width_columns
                    && updates[i].position.row < frame.height_rows by {
                    let k = choose|k: int| 0 <= k < frame.cells@.len() && updates[i] == frame.cells@[k];
                    assert(frame.cells@[k].position.column < frame.width_columns);
                }
            }
        },
    }
}

/// The changed cells are cells of `current`.
proof fn lemma_changed_members(current: Seq<TerminalCell>, previous: Seq<TerminalCell>, upto: int)
    requires
        0 <= upto <= current.len(),
    ensures
        forall|i: int| 0 <= i < spec_changed(current, previous, upto).len() ==> exists|k: int| 0 <= k < current.len()
            && #[trigger] spec_changed(current, previous, upto)[i] == current[k],
    decreases upto,
{
    if upto > 0 {
        lemma_changed_members(current, previous, upto - 1);
        let before = spec_changed(current, previous, upto - 1);
        assert forall|i: int| 0 <= i < spec_changed(current, previous, upto).len() implies exists|k: int| 0 <= k
            < current.len() && #[trigger] spec_changed(current, previous, upto)[i] == current[k] by {
            if i < before.len() {
                assert(spec_changed(current, previous, upto)[i] == before[i]);
            } else {
                assert(spec_changed(current, previous, upto)[i] == current[upto - 1]);
            }
        }
    }
}

} // verus!
