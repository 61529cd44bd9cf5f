use vstd::prelude::*;

use crate::geometry::{Rotation, Vector2Int};
use crate::render::{Render, RenderItem, Texture, ZIndex};

verus! {

/// The size of the drawable grid, in cells.
#[derive(Debug, Clone, Copy, PartialEq, Eq, Structural)]
pub struct RenderViewport {
    pub width_cells: usize,
    pub height_cells: usize,
}

impl RenderViewport {
    pub fn new(width_cells: usize, height_cells: usize) -> (r: Self)
        ensures
            r.width_cells == width_cells && r.height_cells == height_cells,
    {
        Self { width_cells, height_cells }
    }

    pub fn width_cells(self) -> (r: usize)
        ensures
            r == self.width_cells,
    {
        self.width_cells
    }

    pub fn height_cells(self) -> (r: usize)
        ensures
            r == self.height_cells,
    {
        self.height_cells
    }
}

/// A glyph placed at its world position.
#[derive(Debug, Clone, Copy, PartialEq, Eq, Structural)]
pub struct RenderCell {
    pub position_world: Vector2Int,
    pub texture: Texture,
    pub rotation: Rotation,
    pub z_index: ZIndex,
    pub fills_cell: bool,
}

impl RenderCell {
    /// A cell that covers one terminal column.
    pub fn new(position_world: Vector2Int, texture: Texture, rotation: Rotation, z_index: ZIndex) -> (r: Self)
        ensures
            r == (RenderCell { position_world, texture, rotation, z_index, fills_cell: false }),
    {
        Self { position_world, texture, rotation, z_index, fills_cell: false }
    }

    /// A cell that fills its whole grid cell.
    pub fn from_filled_cell(position_world: Vector2Int, texture: Texture, rotation: Rotation, z_index: ZIndex) -> (r: Self)
        ensures
            r == (RenderCell { position_world, texture, rotation, z_index, fills_cell: true }),
    {
        Self { position_world, texture, rotation, z_index, fills_cell: true }
    }

    pub open spec fn spec_from_render_item(position_origin: Vector2Int, item: RenderItem) -> RenderCell {
        RenderCell {
            position_world: position_origin.spec_saturating_add(item.position_local),
            texture: item.texture,
            rotation: item.rotation,
            z_index: item.z_index,
            fills_cell: item.fills_cell,
        }
    }

    /// The item placed relative to `position_origin`.
    pub fn from_render_item(position_origin: Vector2Int, item: RenderItem) -> (r: Self)
        ensures
            r == Self::spec_from_render_item(position_origin, item),
    {
        Self {
            position_world: position_origin.saturating_add(item.position_local()),
            texture: item.texture(),
            rotation: item.rotation(),
            z_index: item.z_index(),
            fills_cell: item.fills_cell(),
        }
    }

    pub fn position_world(self) -> (r: Vector2Int)
        ensures
            r == self.position_world,
    {
        self.position_world
    }

    pub fn texture(self) -> (r: Texture)
        ensures
            r == self.texture,
    {
        self.texture
    }

    pub fn rotation(self) -> (r: Rotation)
        ensures
            r == self.rotation,
    {
        self.rotation
    }

    pub fn z_index(self) -> (r: ZIndex)
        ensures
            r == self.z_index,
    {
        self.z_index
    }

    pub fn fills_cell(self) -> (r: bool)
        ensures
            r == self.fills_cell,
    {
        self.fills_cell
    }
}

/// The index of the first cell from `from` on whose z-index is above `z`, or the length.
pub open spec fn first_above(cells: Seq<RenderCell>, z: i32, from: int) -> int
    decreases cells.len() - from,
{
    if from < 0 || from >= cells.len() {
        cells.len() as int
    } else if cells[from].z_index.0 > z {
        from
    } else {
        first_above(cells, z, from + 1)
    }
}

/// `cell` inserted after every cell whose z-index is not above its own.
pub open spec fn insert_by_z(sorted: Seq<RenderCell>, cell: RenderCell) -> Seq<RenderCell> {
    sorted.insert(first_above(sorted, cell.z_index.0, 0), cell)
}

/// The cells ordered by z-index, cells of equal z-index in the order they were given.
pub open spec fn sorted_by_z(cells: Seq<RenderCell>) -> Seq<RenderCell>
    decreases cells.len(),
{
    if cells.len() == 0 {
        cells
    } else {
        insert_by_z(sorted_by_z(cells.drop_last()), cells.last())
    }
}

/// Whether z-indices never decrease along `cells`.
pub open spec fn z_ordered(cells: Seq<RenderCell>) -> bool {
    forall|i: int, j: int| 0 <= i <= j < cells.len() ==> cells[i].z_index.0 <= cells[j].z_index.0
}

fn first_above_exec(cells: &Vec<RenderCell>, z: i32) -> (r: usize)
    ensures
        r == first_above(cells@, z, 0),
{
    let mut j: usize = 0;
    while j < cells.len() && cells[j].z_index.0 <= z
        invariant
            j <= cells@.len(),
            first_above(cells@, z, 0) == first_above(cells@, z, j as int),
        decreases cells@.len() - j,
    {
        j = j + 1;
    }
    j
}

/// A frame to draw: the viewport and its cells, lowest z-index first.
#[derive(Debug, Clone, PartialEq, Eq)]
pub struct RenderFrame {
    viewport: RenderViewport,
    cells: Vec<RenderCell>,
}

impl RenderFrame {
    pub closed spec fn spec_viewport(&self) -> RenderViewport {
        self.viewport
    }

    pub closed spec fn spec_cells(&self) -> Seq<RenderCell> {
        self.cells@
    }

    /// Orders the cells by z-index; cells of equal z-index keep their order.
    pub fn new(viewport: RenderViewport, cells: Vec<RenderCell>) -> (r: Self)
        ensures
            r.spec_viewport() == viewport,
            r.spec_cells() == sorted_by_z(cells@),
    {
        let mut sorted: Vec<RenderCell> = Vec::new();
        let mut i: usize = 0;
        while i < cells.len()
            invariant
                i <= cells@.len(),
                sorted@ == sorted_by_z(cells@.take(i as int)),
            decreases cells@.len() - i,
        {
            let cell = cells[i];
            let position = first_above_exec(&sorted, cell.z_index.0);
            proof {
                lemma_first_above_bounds(sorted@, cell.z_index.0, 0);
            }
            sorted.insert(position, cell);
            proof {
                let prefix = cells@.take(i + 1);
                assert(prefix.drop_last() =~= cells@.take(i as int));
                assert(prefix.last() == cell);
            }
            i = i + 1;
        }
        proof {
            assert(cells@.take(cells@.len() as int) =~= cells@);
        }
        Self { viewport, cells: sorted }
    }

    pub fn cells(&self) -> (r: &[RenderCell])
        ensures
            r@ == self.spec_cells(),
    {
        self.cells.as_slice()
    }

    pub fn viewport(&self) -> (r: RenderViewport)
        ensures
            r == self.spec_viewport(),
    {
        self.viewport
    }
}

proof fn lemma_first_above_bounds(cells: Seq<RenderCell>, z: i32, from: int)
    requires
        0 <= from <= cells.len(),
    ensures
        from <= first_above(cells, z, from) <= cells.len(),
        forall|k: int| from <= k < first_above(cells, z, from) ==> cells[k].z_index.0 <= z,
        first_above(cells, z, from) < cells.len() ==> cells[first_above(cells, z, from)].z_index.0 > z,
    decreases cells.len() - from,
{
    if from < cells.len() && cells[from].z_index.0 <= z {
        lemma_first_above_bounds(cells, z, from + 1);
    }
}

/// The cells of a frame are ordered by z-index.
pub proof fn lemma_sorted_by_z_ordered(cells: Seq<RenderCell>)
    ensures
        z_ordered(sorted_by_z(cells)),
    decreases cells.len(),
{
    if cells.len() > 0 {
        let rest = sorted_by_z(cells.drop_last());
        lemma_sorted_by_z_ordered(cells.drop_last());
        let cell = cells.last();
        let z = cell.z_index.0;
        lemma_first_above_bounds(rest, z, 0);
        let p = first_above(rest, z, 0);
        let out = rest.insert(p, cell);
        assert forall|i: int, j: int| 0 <= i <= j < out.len() implies out[i].z_index.0 <= out[j].z_index.0 by {
            if j < p {
            } else if j == p {
                if i < p {
                    assert(rest[i].z_index.0 <= z);
                }
            } else {
                assert(out[j] == rest[j - 1]);
                if i < p {
                    assert(out[i] == rest[i]);
                } else if i == p {
                    if p < rest.len() {
                        assert(rest[p].z_index.0 > z);
                        assert(rest[p].z_index.0 <= rest[j - 1].z_index.0);
                    }
                } else {
                    assert(out[i] == rest[i - 1]);
                }
            }
        }
    }
}

/// A frame holds exactly the cells it was given, each as often.
pub proof fn lemma_sorted_by_z_permutes(cells: Seq<RenderCell>)
    ensures
        sorted_by_z(cells).to_multiset() == cells.to_multiset(),
    decreases cells.len(),
{
    if cells.len() > 0 {
        let rest = sorted_by_z(cells.drop_last());
        lemma_sorted_by_z_permutes(cells.drop_last());
        lemma_first_above_bounds(rest, cells.last().z_index.0, 0);
        let p = first_above(rest, cells.last().z_index.0, 0);
        vstd::seq_lib::to_multiset_insert(rest, p, cells.last());
        vstd::seq_lib::to_multiset_build(cells.drop_last(), cells.last());
        assert(cells.drop_last().push(cells.last()) =~= cells);
    }
}

/// The cells of z-index `z`, in their order.
pub open spec fn cells_at_depth(cells: Seq<RenderCell>, z: i32) -> Seq<RenderCell>
    decreases cells.len(),
{
    if cells.len() == 0 {
        cells
    } else {
        let before = cells_at_depth(cells.drop_last(), z);
        if cells.last().z_index.0 == z {
            before.push(cells.last())
        } else {
            before
        }
    }
}

/// Ordering by depth is stable: the cells of each z-index keep the order they were given in.
pub proof fn lemma_sorted_by_z_stable(cells: Seq<RenderCell>, z: i32)
    ensures
        cells_at_depth(sorted_by_z(cells), z) == cells_at_depth(cells, z),
    decreases cells.len(),
{
    if cells.len() > 0 {
        let cell = cells.last();
        let rest = sorted_by_z(cells.drop_last());
        lemma_sorted_by_z_stable(cells.drop_last(), z);
        lemma_sorted_by_z_ordered(cells.drop_last());
        lemma_first_above_bounds(rest, cell.z_index.0, 0);
        let p = first_above(rest, cell.z_index.0, 0);
        let head = rest.take(p);
        let tail = rest.skip(p);
        assert(rest =~= head + tail);
        assert(rest.insert(p, cell) =~= head + (seq![cell] + tail));
        lemma_depth_of_concat(head, tail, z);
        lemma_depth_of_concat(head, seq![cell] + tail, z);
        lemma_depth_of_concat(seq![cell], tail, z);
        assert(seq![cell].drop_last() =~= Seq::<RenderCell>::empty());
        assert(seq![cell].last() == cell);
        assert(cells_at_depth(Seq::<RenderCell>::empty(), z) == Seq::<RenderCell>::empty());
        assert(cells_at_depth(seq![cell].drop_last(), z) == Seq::<RenderCell>::empty());
        if z == cell.z_index.0 {
            assert forall|k: int| 0 <= k < tail.len() implies tail[k].z_index.0 != z by {
                assert(tail[k] == rest[p + k]);
                assert(rest[p].z_index.0 <= rest[p + k].z_index.0);
            }
            lemma_depth_elsewhere(tail, z);
            assert(cells_at_depth(seq![cell], z) =~= seq![cell]);
            assert(cells_at_depth(sorted_by_z(cells), z) =~= cells_at_depth(head, z).push(cell));
            assert(cells_at_depth(rest, z) =~= cells_at_depth(head, z));
        } else {
            assert(cells_at_depth(seq![cell], z) =~= Seq::<RenderCell>::empty());
            assert(cells_at_depth(sorted_by_z(cells), z) =~= cells_at_depth(head, z) + cells_at_depth(tail, z));
        }
    }
}

/// The cells of one depth in two sequences put together are those of each, in order.
proof fn lemma_depth_of_concat(a: Seq<RenderCell>, b: Seq<RenderCell>, z: i32)
    ensures
        cells_at_depth(a + b, z) == cells_at_depth(a, z) + cells_at_depth(b, z),
    decreases b.len(),
{
    if b.len() == 0 {
        assert(a + b =~= a);
        assert(cells_at_depth(a, z) + cells_at_depth(b, z) =~= cells_at_depth(a, z));
    } else {
        lemma_depth_of_concat(a, b.drop_last(), z);
        assert((a + b).drop_last() =~= a + b.drop_last());
        assert((a + b).last() == b.last());
        if b.last().z_index.0 == z {
            assert(cells_at_depth(a, z) + cells_at_depth(b.drop_last(), z).push(b.last()) =~= (cells_at_depth(a, z)
                + cells_at_depth(b.drop_last(), z)).push(b.last()));
        }
    }
}

/// A sequence with no cell of z-index `z` has none at that depth.
proof fn lemma_depth_elsewhere(cells: Seq<RenderCell>, z: i32)
    requires
        forall|k: int| 0 <= k < cells.len() ==> cells[k].z_index.0 != z,
    ensures
        cells_at_depth(cells, z) == Seq::<RenderCell>::empty(),
    decreases cells.len(),
{
    if cells.len() > 0 {
        lemma_depth_elsewhere(cells.drop_last(), z);
    }
}

/// Appends the cells of a renderable placed at `position_origin`.
pub fn append_render_cells<R: Render>(cells: &mut Vec<RenderCell>, position_origin: Vector2Int, renderable: &R)
    ensures
        final(cells)@ == old(cells)@ + renderable.spec_render_items().map_values(
            |item: RenderItem| RenderCell::spec_from_render_item(position_origin, item),
        ),
{
    let items = renderable.render_items();
    let ghost start = cells@;
    let mut i: usize = 0;
    while i < items.len()
        invariant
            i <= items@.len(),
            items@ == renderable.spec_render_items(),
            cells@ == start + items@.take(i as int).map_values(
                |item: RenderItem| RenderCell::spec_from_render_item(position_origin, item),
            ),
        decreases items@.len() - i,
    {
        cells.push(RenderCell::from_render_item(position_origin, items[i]));
        proof {
            assert(items@.take(i + 1).map_values(|item: RenderItem| RenderCell::spec_from_render_item(position_origin, item))
                =~= items@.take(i as int).map_values(|item: RenderItem| RenderCell::spec_from_render_item(position_origin, item)).push(
                RenderCell::spec_from_render_item(position_origin, items@[i as int])));
        }
        i = i + 1;
    }
    proof {
        assert(items@.take(items@.len() as int) =~= items@);
    }
}

} // verus!
