use vstd::prelude::*;
use crate::grid::{Grid, GridView};
use crate::material::Material;

verus! {

/// The side a cell tries first when it looks for a diagonal or sideways move.
#[derive(Clone, Copy, Debug, PartialEq, Eq, Structural)]
pub enum Side {
    Left,
    Right,
}

impl Side {
    pub open spec fn opposite(self) -> Side {
        match self {
            Side::Left => Side::Right,
            Side::Right => Side::Left,
        }
    }

    /// The column next to `x` on this side.
    pub open spec fn column_from(self, x: int) -> int {
        match self {
            Side::Left => x - 1,
            Side::Right => x + 1,
        }
    }
}

/// Sand may slide to column `c`: the column lies inside the grid and both
/// the cell below-beside and the one under it would give way to sand.
pub open spec fn sand_may_slide(g: GridView, c: int, y: int) -> bool {
    &&& 0 <= c < g.width
    &&& g.at(c, y + 1).displaced_by(Material::Sand)
    &&& g.at(c, y + 2).displaced_by(Material::Sand)
}

/// Where sand at (x, y) moves: straight down into anything lighter, else
/// diagonally down on the first side, then the other, where the two cells
/// of that column below it are lighter; `None` when it rests.
pub open spec fn sand_target(g: GridView, x: int, y: int, side: Side) -> Option<(int, int)> {
    if y + 1 >= g.height {
        None
    } else if g.at(x, y + 1).displaced_by(Material::Sand) {
        Some((x, y + 1))
    } else if y + 2 >= g.height {
        None
    } else if sand_may_slide(g, side.column_from(x), y) {
        Some((side.column_from(x), y + 1))
    } else if sand_may_slide(g, side.opposite().column_from(x), y) {
        Some((side.opposite().column_from(x), y + 1))
    } else {
        None
    }
}

/// Cell (c, r) lies inside the grid and holds air.
pub open spec fn open_air(g: GridView, c: int, r: int) -> bool {
    0 <= c < g.width && g.at(c, r) == Material::Air
}

/// Where water at (x, y) moves: into air straight below, else diagonally
/// below on the first side then the other, else sideways on the first side
/// then the other; `None` when it rests or stands on the bottom row.
pub open spec fn water_target(g: GridView, x: int, y: int, side: Side) -> Option<(int, int)> {
    let near = side.column_from(x);
    let far = side.opposite().column_from(x);
    if y + 1 >= g.height {
        None
    } else if g.at(x, y + 1) == Material::Air {
        Some((x, y + 1))
    } else if open_air(g, near, y + 1) {
        Some((near, y + 1))
    } else if open_air(g, far, y + 1) {
        Some((far, y + 1))
    } else if open_air(g, near, y) {
        Some((near, y))
    } else if open_air(g, far, y) {
        Some((far, y))
    } else {
        None
    }
}

/// Where material `m` at (x, y) moves in grid `g`; air never moves.
pub open spec fn fall_target(g: GridView, m: Material, x: int, y: int, side: Side) -> Option<
    (int, int),
> {
    match m {
        Material::Sand => sand_target(g, x, y, side),
        Material::Water => water_target(g, x, y, side),
        Material::Air => None,
    }
}

/// `m` moves from (x, y) into (tx, ty), and (x, y) takes what (tx, ty) held.
pub open spec fn swapped(g: GridView, m: Material, x: int, y: int, tx: int, ty: int) -> GridView {
    g.placed(tx, ty, m).placed(x, y, g.at(tx, ty))
}

/// The grid after material `m` at (x, y) has taken its move, if any.
pub open spec fn after_fall(g: GridView, m: Material, x: int, y: int, side: Side) -> GridView {
    match fall_target(g, m, x, y, side) {
        Some((tx, ty)) => swapped(g, m, x, y, tx, ty),
        None => g,
    }
}

/// The column beside `x` on `side`, when it lies inside a grid `w` wide.
fn column_beside(x: usize, w: usize, side: Side) -> (r: Option<usize>)
    requires
        x < w,
    ensures
        r == (if 0 <= side.column_from(x as int) < w {
            Some(side.column_from(x as int) as usize)
        } else {
            None
        }),
{
    match side {
        Side::Left => if x > 0 {
            Some(x - 1)
        } else {
            None
        },
        Side::Right => if x + 1 < w {
            Some(x + 1)
        } else {
            None
        },
    }
}

/// The side tried first for a uniform draw of 0 or 1.
pub(crate) fn side_from_draw(r: i32) -> (side: Side)
    requires
        0 <= r < 2,
    ensures
        side == (if r == 0 {
            Side::Right
        } else {
            Side::Left
        }),
{
    if r == 0 {
        Side::Right
    } else {
        Side::Left
    }
}

fn opposite(side: Side) -> (r: Side)
    ensures
        r == side.opposite(),
{
    match side {
        Side::Left => Side::Right,
        Side::Right => Side::Left,
    }
}

/// Sand may slide into column `c`, read from `g`; two rows below `y` exist.
fn sand_slides(g: &Grid, c: Option<usize>, y: usize) -> (r: bool)
    requires
        g@.wf(),
        y + 2 < g@.height,
        c matches Some(c) ==> c < g@.width,
    ensures
        r == (c matches Some(c) && sand_may_slide(g@, c as int, y as int)),
{
    match c {
        Some(c) => g.at(c, y + 1).is_displaceable_by(Material::Sand) && g.at(
            c,
            y + 2,
        ).is_displaceable_by(Material::Sand),
        None => false,
    }
}

/// Cell (c, r) holds air, read from `g`; row `r` exists.
fn air_at(g: &Grid, c: Option<usize>, r: usize) -> (b: bool)
    requires
        g@.wf(),
        r < g@.height,
        c matches Some(c) ==> c < g@.width,
    ensures
        b == (c matches Some(c) && open_air(g@, c as int, r as int)),
{
    match c {
        Some(c) => g.at(c, r) == Material::Air,
        None => false,
    }
}

fn sand_move(g: &Grid, x: usize, y: usize, side: Side) -> (r: Option<(usize, usize)>)
    requires
        g@.wf(),
        g@.in_bounds(x as int, y as int),
    ensures
        sand_target(g@, x as int, y as int, side) == match r {
            Some((tx, ty)) => Some((tx as int, ty as int)),
            None => None::<(int, int)>,
        },
{
    if y + 1 >= g.height() {
        return None;
    }
    if g.at(x, y + 1).is_displaceable_by(Material::Sand) {
        return Some((x, y + 1));
    }
    if y + 2 >= g.height() {
        return None;
    }
    let near = column_beside(x, g.width(), side);
    let far = column_beside(x, g.width(), opposite(side));
    if sand_slides(g, near, y) {
        return Some((near.unwrap(), y + 1));
    }
    if sand_slides(g, far, y) {
        return Some((far.unwrap(), y + 1));
    }
    None
}

fn water_move(g: &Grid, x: usize, y: usize, side: Side) -> (r: Option<(usize, usize)>)
    requires
        g@.wf(),
        g@.in_bounds(x as int, y as int),
    ensures
        water_target(g@, x as int, y as int, side) == match r {
            Some((tx, ty)) => Some((tx as int, ty as int)),
            None => None::<(int, int)>,
        },
{
    if y + 1 >= g.height() {
        return None;
    }
    if g.at(x, y + 1) == Material::Air {
        return Some((x, y + 1));
    }
    let near = column_beside(x, g.width(), side);
    let far = column_beside(x, g.width(), opposite(side));
    if air_at(g, near, y + 1) {
        return Some((near.unwrap(), y + 1));
    }
    if air_at(g, far, y + 1) {
        return Some((far.unwrap(), y + 1));
    }
    if air_at(g, near, y) {
        return Some((near.unwrap(), y));
    }
    if air_at(g, far, y) {
        return Some((far.unwrap(), y));
    }
    None
}

impl Material {
    /// Applies this material's movement rule to the cell (x, y) of `cells`:
    /// sand sinks into anything lighter, straight down or else diagonally,
    /// water flows into air below, diagonally below, or beside it, and air
    /// stays. A move swaps the two cells; `side` is the side tried first.
    pub fn fall(&self, x: usize, y: usize, cells: &mut Grid, side: Side)
        requires
            old(cells)@.wf(),
            old(cells)@.in_bounds(x as int, y as int),
        ensures
            final(cells)@.wf(),
            final(cells)@ == after_fall(old(cells)@, *self, x as int, y as int, side),
    {
        let target = match self {
            Material::Sand => sand_move(cells, x, y, side),
            Material::Water => water_move(cells, x, y, side),
            Material::Air => None,
        };
        if let Some((tx, ty)) = target {
            let displaced = cells.at(tx, ty);
            cells.set(tx, ty, *self);
            cells.set(x, y, displaced);
        }
    }
}

/// Whatever the material, the position and the side drawn, a move goes to a
/// different cell that lies inside the grid, one column aside at most, in
/// the same row or the one below.
pub proof fn lemma_fall_target_in_bounds(g: GridView, m: Material, x: int, y: int, side: Side)
    requires
        g.wf(),
        g.in_bounds(x, y),
    ensures
        fall_target(g, m, x, y, side) matches Some((tx, ty)) ==> {
            &&& g.in_bounds(tx, ty)
            &&& (tx, ty) != (x, y)
            &&& x - 1 <= tx <= x + 1
            &&& y <= ty <= y + 1
            &&& g.at(tx, ty).displaced_by(m)
        },
{
}

} // verus!
