//! The 2D buildability grid: one cell per tile, consulted by placement
//! requests and level authoring.  Cells are addressed through the linear
//! index `y * width + x` into a row-major vector.

use vstd::prelude::*;

verus! {

/// Classification of one tile.
#[derive(Clone, Copy, Debug, PartialEq, Eq, Structural)]
pub enum GridCell {
    Walkable,
    Buildable,
    Occupied,
}

/// Largest grid side length.
pub const GRID_SIDE_MAX: u32 = 16_384;

/// Largest tile side length, in milliunits.  Keeps every cell center within
/// the world bounds.
pub const CELL_SIZE_MAX: i64 = 200_000;

/// A row-major grid of cells, each `cell_size` milliunits on a side.
#[derive(Clone, Debug)]
pub struct Grid {
    pub width: u32,
    pub height: u32,
    pub cell_size: i64,
    pub grid: Vec<GridCell>,
}

/// Mathematical model of a grid.
#[verifier::ext_equal]
pub struct GridView {
    pub width: u32,
    pub height: u32,
    pub cell_size: i64,
    pub grid: Seq<GridCell>,
}

impl GridView {
    /// Linear index of cell `(x, y)`.
    pub open spec fn index_of(self, x: u32, y: u32) -> int {
        y * self.width + x
    }

    /// The cell at `(x, y)`, if the linear index is in range.
    pub open spec fn cell(self, x: u32, y: u32) -> Option<GridCell> {
        if self.index_of(x, y) < self.grid.len() {
            Some(self.grid[self.index_of(x, y)])
        } else {
            None
        }
    }

    /// Dimensions are bounded and the vector matches them.
    pub open spec fn wf(self) -> bool {
        &&& self.grid.len() == self.width * self.height
        &&& self.width <= GRID_SIDE_MAX
        &&& self.height <= GRID_SIDE_MAX
        &&& 0 < self.cell_size <= CELL_SIZE_MAX
    }
}

impl View for Grid {
    type V = GridView;

    open spec fn view(&self) -> GridView {
        GridView {
            width: self.width,
            height: self.height,
            cell_size: self.cell_size,
            grid: self.grid@,
        }
    }
}

/// The linear cell index of any `u32` pair fits in a `u64`.
proof fn lemma_linear_index_bound(x: u32, y: u32, width: u32)
    ensures
        0 <= y * width + x <= u64::MAX,
{
    assert(y * width + x <= u64::MAX) by (nonlinear_arith)
        requires
            y <= u32::MAX,
            width <= u32::MAX,
            x <= u32::MAX,
    ;
}

impl Grid {
    /// A grid of the given dimensions with every cell buildable.
    pub fn new(width: u32, height: u32, cell_size: i64) -> (g: Self)
        requires
            width <= GRID_SIDE_MAX,
            height <= GRID_SIDE_MAX,
            0 < cell_size <= CELL_SIZE_MAX,
        ensures
            g@.wf(),
            g@.width == width,
            g@.height == height,
            g@.cell_size == cell_size,
            forall|x: u32, y: u32| (#[trigger] g@.cell(x, y)) matches Some(c) ==> c
                == GridCell::Buildable,
    {
        assert((width as int) * (height as int) <= 16_384 * 16_384) by (nonlinear_arith)
            requires
                width <= 16_384,
                height <= 16_384,
        ;
        let n: usize = (width as usize) * (height as usize);
        let mut cells: Vec<GridCell> = Vec::new();
        let mut i: usize = 0;
        while i < n
            invariant
                i <= n,
                cells@.len() == i,
                forall|k: int| 0 <= k < i ==> cells@[k] == GridCell::Buildable,
            decreases n - i,
        {
            cells.push(GridCell::Buildable);
            i = i + 1;
        }
        Grid { width, height, cell_size, grid: cells }
    }

    /// The cell at `(x, y)`, or `None` when the linear index is out of
    /// range.
    pub fn get_cell(&self, x: u32, y: u32) -> (c: Option<GridCell>)
        ensures
            c == self@.cell(x, y),
    {
        proof {
            lemma_linear_index_bound(x, y, self.width);
        }
        let idx: u64 = (y as u64) * (self.width as u64) + (x as u64);
        if idx < self.grid.len() as u64 {
            Some(self.grid[idx as usize])
        } else {
            None
        }
    }

    /// Overwrite the cell at `(x, y)`; reports whether the index was in
    /// range.
    pub fn set_cell(&mut self, x: u32, y: u32, value: GridCell) -> (hit: bool)
        ensures
            hit == (old(self)@.index_of(x, y) < old(self)@.grid.len()),
            hit ==> final(self)@ == (GridView {
                grid: old(self)@.grid.update(old(self)@.index_of(x, y), value),
                ..old(self)@
            }),
            !hit ==> final(self)@ == old(self)@,
    {
        proof {
            lemma_linear_index_bound(x, y, self.width);
        }
        let idx: u64 = (y as u64) * (self.width as u64) + (x as u64);
        if idx < self.grid.len() as u64 {
            self.grid.set(idx as usize, value);
            true
        } else {
            false
        }
    }

    /// The cell exists and is walkable.
    pub fn is_walkable(&self, x: u32, y: u32) -> (r: bool)
        ensures
            r == (self@.cell(x, y) == Some(GridCell::Walkable)),
    {
        match self.get_cell(x, y) {
            Some(c) => matches!(c, GridCell::Walkable),
            None => false,
        }
    }

    /// The cell exists and is buildable.
    pub fn is_buildable(&self, x: u32, y: u32) -> (r: bool)
        ensures
            r == (self@.cell(x, y) == Some(GridCell::Buildable)),
    {
        match self.get_cell(x, y) {
            Some(c) => matches!(c, GridCell::Buildable),
            None => false,
        }
    }

    /// The cell exists and is occupied.
    pub fn is_occupied(&self, x: u32, y: u32) -> (r: bool)
        ensures
            r == (self@.cell(x, y) == Some(GridCell::Occupied)),
    {
        match self.get_cell(x, y) {
            Some(c) => matches!(c, GridCell::Occupied),
            None => false,
        }
    }
}

} // verus!
