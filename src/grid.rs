use vstd::prelude::*;
use crate::material::Material;

verus! {

/// A fixed-size rectangle of cells addressed by (column, row), row 0 at the
/// top, stored row by row.
pub struct Grid {
    width: usize,
    height: usize,
    cells: Vec<Material>,
}

/// The mathematical picture of a grid: its size and its cells row by row.
pub ghost struct GridView {
    pub width: int,
    pub height: int,
    pub cells: Seq<Material>,
}

/// Position of cell (x, y) in the row-by-row layout of a grid `w` wide.
pub open spec fn cell_index(w: int, x: int, y: int) -> int {
    y * w + x
}

/// A cell of a `w` by `h` grid lies before the end of the layout.
pub proof fn lemma_cell_index_in_range(w: int, h: int, x: int, y: int)
    requires
        0 <= x < w,
        0 <= y < h,
    ensures
        0 <= y * w,
        0 <= cell_index(w, x, y) < w * h,
{
    assert(0 <= y * w) by (nonlinear_arith)
        requires
            0 <= y,
            0 <= w,
    ;
    assert(y * w + x < w * h) by (nonlinear_arith)
        requires
            0 <= x < w,
            0 <= y < h,
    ;
}

impl GridView {
    /// Every cell of the rectangle holds exactly one material, and the sizes
    /// are machine integers.
    pub open spec fn wf(self) -> bool {
        &&& 0 <= self.width <= usize::MAX
        &&& 0 <= self.height <= usize::MAX
        &&& self.cells.len() == self.width * self.height
        &&& self.cells.len() <= usize::MAX
    }

    pub open spec fn in_bounds(self, x: int, y: int) -> bool {
        0 <= x < self.width && 0 <= y < self.height
    }

    pub open spec fn at(self, x: int, y: int) -> Material {
        self.cells[cell_index(self.width, x, y)]
    }

    pub open spec fn same_shape(self, other: GridView) -> bool {
        self.width == other.width && self.height == other.height
    }

    /// The grid with cell (x, y) overwritten by `m`.
    pub open spec fn placed(self, x: int, y: int, m: Material) -> GridView {
        GridView { cells: self.cells.update(cell_index(self.width, x, y), m), ..self }
    }
}

impl View for Grid {
    type V = GridView;

    closed spec fn view(&self) -> GridView {
        GridView { width: self.width as int, height: self.height as int, cells: self.cells@ }
    }
}

impl Grid {
    /// A `width` by `height` grid of air.
    pub fn new(width: usize, height: usize) -> (g: Grid)
        requires
            width * height <= usize::MAX,
        ensures
            g@.wf(),
            g@.width == width,
            g@.height == height,
            forall|x: int, y: int| g@.in_bounds(x, y) ==> #[trigger] g@.at(x, y) == Material::Air,
    {
        let n: usize = width * height;
        let mut cells: Vec<Material> = Vec::new();
        let mut i: usize = 0;
        while i < n
            invariant
                i <= n,
                cells@.len() == i,
                forall|j: int| 0 <= j < i ==> cells@[j] == Material::Air,
            decreases n - i,
        {
            cells.push(Material::Air);
            i += 1;
        }
        let g = Grid { width, height, cells };
        assert forall|x: int, y: int| g@.in_bounds(x, y) implies #[trigger] g@.at(x, y)
            == Material::Air by {
            lemma_cell_index_in_range(width as int, height as int, x, y);
        }
        g
    }

    pub fn width(&self) -> (r: usize)
        ensures
            r == self@.width,
    {
        self.width
    }

    pub fn height(&self) -> (r: usize)
        ensures
            r == self@.height,
    {
        self.height
    }

    /// The number of cells.
    pub(crate) fn cell_count(&self) -> (r: usize)
        requires
            self@.wf(),
        ensures
            r == self@.width * self@.height,
    {
        self.cells.len()
    }

    /// The material at (x, y), or `None` outside the grid.
    pub fn get(&self, x: usize, y: usize) -> (r: Option<Material>)
        requires
            self@.wf(),
        ensures
            r == (if self@.in_bounds(x as int, y as int) {
                Some(self@.at(x as int, y as int))
            } else {
                None
            }),
    {
        if x < self.width && y < self.height {
            Some(self.at(x, y))
        } else {
            None
        }
    }

    /// The material at a cell known to lie inside the grid.
    pub(crate) fn at(&self, x: usize, y: usize) -> (r: Material)
        requires
            self@.wf(),
            self@.in_bounds(x as int, y as int),
        ensures
            r == self@.at(x as int, y as int),
    {
        proof {
            lemma_cell_index_in_range(self.width as int, self.height as int, x as int, y as int);
        }
        self.cells[y * self.width + x]
    }

    /// Overwrites a cell known to lie inside the grid.
    pub(crate) fn set(&mut self, x: usize, y: usize, m: Material)
        requires
            old(self)@.wf(),
            old(self)@.in_bounds(x as int, y as int),
        ensures
            final(self)@ == old(self)@.placed(x as int, y as int, m),
            final(self)@.wf(),
    {
        proof {
            lemma_cell_index_in_range(self.width as int, self.height as int, x as int, y as int);
        }
        let i = y * self.width + x;
        self.cells.set(i, m);
    }

    /// Makes this grid a copy of `other`, which has the same size.
    pub(crate) fn copy_from(&mut self, other: &Grid)
        requires
            old(self)@.wf(),
            other@.wf(),
            old(self)@.same_shape(other@),
        ensures
            final(self)@ == other@,
    {
        let n: usize = other.cells.len();
        let mut i: usize = 0;
        while i < n
            invariant
                i <= n,
                n == other.cells@.len(),
                self.cells@.len() == n,
                self.width == other.width,
                self.height == other.height,
                forall|j: int| 0 <= j < i ==> self.cells@[j] == other.cells@[j],
            decreases n - i,
        {
            self.cells.set(i, other.cells[i]);
            i += 1;
        }
        assert(self.cells@ =~= other.cells@);
    }
}

/// A `width` by `height` grid filled with air.
pub fn new_grid(width: usize, height: usize) -> (g: Grid)
    requires
        width * height <= usize::MAX,
    ensures
        g@.wf(),
        g@.width == width,
        g@.height == height,
        forall|x: int, y: int| g@.in_bounds(x, y) ==> #[trigger] g@.at(x, y) == Material::Air,
{
    Grid::new(width, height)
}

/// Writes `m` at (x, y) whatever the cell held, ignoring density; a
/// coordinate outside the grid leaves it unchanged.
pub fn place(grid: &mut Grid, x: usize, y: usize, m: Material)
    requires
        old(grid)@.wf(),
    ensures
        final(grid)@.wf(),
        final(grid)@ == (if old(grid)@.in_bounds(x as int, y as int) {
            old(grid)@.placed(x as int, y as int, m)
        } else {
            old(grid)@
        }),
{
    if x < grid.width() && y < grid.height() {
        grid.set(x, y, m);
    }
}

/// Placing a material and reading the same in-range cell at once gives that
/// material back, whatever the cell held before.
pub proof fn lemma_place_then_read(g: GridView, x: int, y: int, m: Material)
    requires
        g.wf(),
        g.in_bounds(x, y),
    ensures
        g.placed(x, y, m).wf(),
        g.placed(x, y, m).at(x, y) == m,
{
    lemma_cell_index_in_range(g.width, g.height, x, y);
}

} // verus!
