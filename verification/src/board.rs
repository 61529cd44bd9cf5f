use vstd::prelude::*;

use crate::assets::{blank, spec_blank, spec_wall, spec_wall_diagonal, wall, wall_diagonal};
use crate::collision::{spec_vacant_cells, vacant_cells};
use crate::geometry::{Bounds, Rotation, Vector2Int};
use crate::movement::MoveDirection;
use crate::random::RandomSource;
use crate::render::{Render, RenderItem, RenderSpace, Texture, ZIndex};

verus! {

pub const BOARD_SIZE_X: usize = 24;

pub const BOARD_SIZE_Y: usize = 24;

#[derive(Debug, Clone, Copy, PartialEq, Eq, Structural)]
pub enum BoardPosition {
    Corner,
    WallX,
    WallY,
    Inside,
}

impl BoardPosition {
    pub open spec fn spec_new(x_is_edge: bool, y_is_edge: bool) -> BoardPosition {
        if x_is_edge && y_is_edge {
            BoardPosition::Corner
        } else if x_is_edge {
            BoardPosition::WallX
        } else if y_is_edge {
            BoardPosition::WallY
        } else {
            BoardPosition::Inside
        }
    }

    pub fn new(x_is_edge: bool, y_is_edge: bool) -> (r: Self)
        ensures
            r == Self::spec_new(x_is_edge, y_is_edge),
    {
        match (x_is_edge, y_is_edge) {
            (true, true) => Self::Corner,
            (true, false) => Self::WallX,
            (false, true) => Self::WallY,
            (false, false) => Self::Inside,
        }
    }
}

/// Where a cell lies on the board: on a corner, a vertical wall (`x` on an edge), a
/// horizontal wall (`y` on an edge), or inside.
pub open spec fn spec_classify(x: int, y: int) -> BoardPosition {
    BoardPosition::spec_new(
        x == 0 || x == BOARD_SIZE_X - 1,
        y == 0 || y == BOARD_SIZE_Y - 1,
    )
}

/// The texture of a board cell: diagonals on corners, walls on edges, blank inside.
pub open spec fn spec_board_texture(x: int, y: int) -> Texture {
    match spec_classify(x, y) {
        BoardPosition::Corner => spec_wall_diagonal(),
        BoardPosition::WallX | BoardPosition::WallY => spec_wall(),
        BoardPosition::Inside => spec_blank(),
    }
}

/// The rotation a board cell is drawn with: down on horizontal walls, right elsewhere.
pub open spec fn spec_board_rotation(x: int, y: int) -> Rotation {
    match spec_classify(x, y) {
        BoardPosition::WallY => Rotation::spec_from_direction(MoveDirection::Down),
        _ => Rotation::spec_from_direction(MoveDirection::Right),
    }
}

/// The default board, indexed `[x][y]`.
pub open spec fn spec_default_board(board: Seq<Seq<Texture>>) -> bool {
    &&& board.len() == BOARD_SIZE_X
    &&& forall|x: int| 0 <= x < BOARD_SIZE_X ==> #[trigger] board[x].len() == BOARD_SIZE_Y
    &&& forall|x: int, y: int| 0 <= x < BOARD_SIZE_X && 0 <= y < BOARD_SIZE_Y ==> #[trigger] board[x][y]
        == spec_board_texture(x, y)
}

/// The board's playing area: every cell off the walls.
pub open spec fn spec_board_playable_bounds() -> Bounds {
    Bounds {
        start: Vector2Int { x: 1, y: 1 },
        end: Vector2Int { x: (BOARD_SIZE_X - 1) as i32, y: (BOARD_SIZE_Y - 1) as i32 },
    }
}

fn classify_position(position: Vector2Int) -> (r: BoardPosition)
    ensures
        r == spec_classify(position.x as int, position.y as int),
{
    let x_max = (BOARD_SIZE_X - 1) as i32;
    let y_max = (BOARD_SIZE_Y - 1) as i32;
    let x_is_edge = position.x == 0 || position.x == x_max;
    let y_is_edge = position.y == 0 || position.y == y_max;
    BoardPosition::new(x_is_edge, y_is_edge)
}

/// The walled board the game is played on.
#[derive(Debug)]
pub struct Board {
    inner: Vec<Vec<Texture>>,
}

fn texture_for(x: usize, y: usize) -> (r: Texture)
    requires
        x < BOARD_SIZE_X,
        y < BOARD_SIZE_Y,
    ensures
        r == spec_board_texture(x as int, y as int),
{
    match classify_position(Vector2Int::new(x as i32, y as i32)) {
        BoardPosition::Corner => wall_diagonal(),
        BoardPosition::WallX | BoardPosition::WallY => wall(),
        BoardPosition::Inside => blank(),
    }
}

/// The textures of the default board, indexed `[x][y]`.
pub fn create_default_board() -> (r: Vec<Vec<Texture>>)
    ensures
        spec_default_board(r@.map_values(|column: Vec<Texture>| column@)),
{
    let mut board: Vec<Vec<Texture>> = Vec::new();
    let mut x: usize = 0;
    while x < BOARD_SIZE_X
        invariant
            x <= BOARD_SIZE_X,
            board@.len() == x,
            forall|i: int| 0 <= i < x ==> #[trigger] board@[i]@.len() == BOARD_SIZE_Y,
            forall|i: int, j: int| 0 <= i < x && 0 <= j < BOARD_SIZE_Y ==> #[trigger] board@[i]@[j]
                == spec_board_texture(i, j),
        decreases BOARD_SIZE_X - x,
    {
        let mut column: Vec<Texture> = Vec::new();
        let mut y: usize = 0;
        while y < BOARD_SIZE_Y
            invariant
                x < BOARD_SIZE_X,
                y <= BOARD_SIZE_Y,
                column@.len() == y,
                forall|j: int| 0 <= j < y ==> #[trigger] column@[j] == spec_board_texture(x as int, j),
            decreases BOARD_SIZE_Y - y,
        {
            column.push(texture_for(x, y));
            y = y + 1;
        }
        board.push(column);
        x = x + 1;
    }
    proof {
        let view = board@.map_values(|column: Vec<Texture>| column@);
        assert forall|i: int| 0 <= i < BOARD_SIZE_X implies #[trigger] view[i].len() == BOARD_SIZE_Y by {
            assert(view[i] == board@[i]@);
        }
        assert forall|i: int, j: int| 0 <= i < BOARD_SIZE_X && 0 <= j < BOARD_SIZE_Y implies #[trigger] view[i][j]
            == spec_board_texture(i, j) by {
            assert(view[i] == board@[i]@);
        }
    }
    board
}

impl Board {
    #[verifier::type_invariant]
    spec fn is_default_board(self) -> bool {
        spec_default_board(self.inner@.map_values(|column: Vec<Texture>| column@))
    }

    /// The textures of the board, indexed `[x][y]`.
    pub closed spec fn spec_textures(&self) -> Seq<Seq<Texture>> {
        self.inner@.map_values(|column: Vec<Texture>| column@)
    }

    /// The walled board: diagonal corners, walls along the edges and blank cells inside.
    pub fn new() -> (r: Self)
        ensures
            spec_default_board(r.spec_textures()),
    {
        Self { inner: create_default_board() }
    }

    pub fn texture_at(&self, board_x: usize, board_y: usize) -> (r: Texture)
        requires
            board_x < BOARD_SIZE_X,
            board_y < BOARD_SIZE_Y,
        ensures
            r == spec_board_texture(board_x as int, board_y as int),
    {
        proof {
            use_type_invariant(self);
            let view = self.inner@.map_values(|column: Vec<Texture>| column@);
            assert(view[board_x as int] == self.inner@[board_x as int]@);
            assert(view[board_x as int][board_y as int] == spec_board_texture(board_x as int, board_y as int));
        }
        self.inner[board_x][board_y]
    }

    pub fn rotation_at(board_x: usize, board_y: usize) -> (r: Rotation)
        requires
            board_x <= i32::MAX,
            board_y <= i32::MAX,
        ensures
            r == spec_board_rotation(board_x as int, board_y as int),
    {
        let position = Vector2Int::new(board_x as i32, board_y as i32);
        match classify_position(position) {
            BoardPosition::WallY => Rotation::down(),
            _ => Rotation::right(),
        }
    }

    pub fn playable_bounds() -> (r: Bounds)
        ensures
            r == spec_board_playable_bounds(),
    {
        Bounds {
            start: Vector2Int::new(1, 1),
            end: Vector2Int::new((BOARD_SIZE_X - 1) as i32, (BOARD_SIZE_Y - 1) as i32),
        }
    }

    /// The vacant playable cell at `index` in row-major order, if there is one.
    pub fn vacant_position_at(occupied: &[Vector2Int], index: usize) -> (r: Option<Vector2Int>)
        ensures
            ({
                let vacant = spec_vacant_cells(spec_board_playable_bounds(), occupied@);
                r == if index < vacant.len() { Some(vacant[index as int]) } else { None }
            }),
    {
        let vacant = vacant_cells(Self::playable_bounds(), occupied);
        if index < vacant.len() {
            Some(vacant[index])
        } else {
            None
        }
    }

    /// A random vacant playable cell: the one at the index the source draws below the number
    /// of vacant cells, in row-major order. None, and no draw, when every playable cell is
    /// occupied.
    pub fn vacant_position<R: RandomSource>(occupied: &[Vector2Int], random: &mut R) -> (r: Option<Vector2Int>)
        ensures
            ({
                let vacant = spec_vacant_cells(spec_board_playable_bounds(), occupied@);
                &&& r is None <==> vacant.len() == 0
                &&& vacant.len() == 0 ==> *final(random) == *old(random)
                &&& vacant.len() > 0 ==> exists|index: usize|
                    #![trigger old(random).draws(final(random), vacant.len() as usize, index)]
                    index < vacant.len() && old(random).draws(final(random), vacant.len() as usize, index) && r
                        == Some(vacant[index as int])
                &&& r matches Some(position) ==> vacant.contains(position)
            }),
    {
        let length = vacant_cells(Self::playable_bounds(), occupied).len();
        if length == 0 {
            return None;
        }
        let index = random.index(length);
        let position = Self::vacant_position_at(occupied, index);
        proof {
            let vacant = spec_vacant_cells(spec_board_playable_bounds(), occupied@);
            assert(vacant[index as int] == vacant[index as int]);
            assert(vacant.contains(vacant[index as int]));
            assert(length == vacant.len());
            assert(old(random).draws(random, vacant.len() as usize, index));
        }
        position
    }
}

impl Default for Board {
    fn default() -> Self {
        Self::new()
    }
}

impl Render for Board {
    /// Every cell of the board as a background filled cell, row by row.
    open spec fn spec_render_items(&self) -> Seq<RenderItem> {
        Seq::new(
            (BOARD_SIZE_X * BOARD_SIZE_Y) as nat,
            |k: int| {
                let x = k % (BOARD_SIZE_X as int);
                let y = k / (BOARD_SIZE_X as int);
                RenderItem {
                    position_local: Vector2Int { x: x as i32, y: y as i32 },
                    texture: spec_board_texture(x, y),
                    rotation: spec_board_rotation(x, y),
                    z_index: ZIndex(-1i32),
                    fills_cell: true,
                    space: RenderSpace::World,
                }
            },
        )
    }

    fn render_items(&self) -> (r: Vec<RenderItem>) {
        let mut items: Vec<RenderItem> = Vec::new();
        let mut board_y: usize = 0;
        while board_y < BOARD_SIZE_Y
            invariant
                board_y <= BOARD_SIZE_Y,
                items@ == self.spec_render_items().take((board_y * BOARD_SIZE_X) as int),
            decreases BOARD_SIZE_Y - board_y,
        {
            let mut board_x: usize = 0;
            while board_x < BOARD_SIZE_X
                invariant
                    board_y < BOARD_SIZE_Y,
                    board_x <= BOARD_SIZE_X,
                    items@ == self.spec_render_items().take((board_y * BOARD_SIZE_X + board_x) as int),
                decreases BOARD_SIZE_X - board_x,
            {
                let item = RenderItem::filled_cell(
                    Vector2Int::new(board_x as i32, board_y as i32),
                    self.texture_at(board_x, board_y),
                    Self::rotation_at(board_x, board_y),
                    ZIndex::background(),
                );
                items.push(item);
                proof {
                    let k = (board_y * BOARD_SIZE_X + board_x) as int;
                    assert(k % 24 == board_x as int && k / 24 == board_y as int) by (nonlinear_arith)
                        requires
                            k == board_y * 24 + board_x,
                            board_x < 24,
                    ;
                    assert(items@ =~= self.spec_render_items().take(k + 1));
                }
                board_x = board_x + 1;
            }
            board_y = board_y + 1;
        }
        proof {
            assert(items@ =~= self.spec_render_items());
        }
        items
    }
}

} // verus!
