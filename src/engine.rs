use vstd::prelude::*;
use crate::grid::{Grid, GridView, cell_index, lemma_cell_index_in_range};
use crate::material::Material;
use crate::rules::{Side, after_fall, fall_target, swapped, side_from_draw, lemma_fall_target_in_bounds};

verus! {

/// One cell's turn in a pass. The material comes from the live grid; it
/// moves within `dest` only while it still occupies its own cell there,
/// so a cell already displaced earlier in the pass does not move again.
pub open spec fn step(live: GridView, dest: GridView, x: int, y: int, side: Side) -> GridView {
    let m = live.at(x, y);
    if dest.at(x, y) == m {
        after_fall(dest, m, x, y, side)
    } else {
        dest
    }
}

/// The side drawn for cell (x, y).
pub open spec fn side_at(live: GridView, sides: Seq<Side>, x: int, y: int) -> Side {
    sides[cell_index(live.width, x, y)]
}

/// `dest` after the first `n` cells of row `y` have taken their turn, left
/// to right.
pub open spec fn scan_row(live: GridView, dest: GridView, sides: Seq<Side>, y: int, n: int) -> GridView
    decreases n,
{
    if n <= 0 {
        dest
    } else {
        let before = scan_row(live, dest, sides, y, n - 1);
        step(live, before, n - 1, y, side_at(live, sides, n - 1, y))
    }
}

/// The destination after the first `n` rows have been scanned, top first,
/// starting from a copy of the live grid.
pub open spec fn scan_rows(live: GridView, sides: Seq<Side>, n: int) -> GridView
    decreases n,
{
    if n <= 0 {
        live
    } else {
        scan_row(live, scan_rows(live, sides, n - 1), sides, n - 1, live.width)
    }
}

/// The grid after one tick in which cell (x, y) drew `side_at(live, sides, x, y)`.
pub open spec fn ticked(live: GridView, sides: Seq<Side>) -> GridView {
    scan_rows(live, sides, live.height)
}

proof fn lemma_swap_keeps_materials(g: GridView, m: Material, x: int, y: int, tx: int, ty: int)
    requires
        g.wf(),
        g.in_bounds(x, y),
        g.in_bounds(tx, ty),
        (x, y) != (tx, ty),
        g.at(x, y) == m,
    ensures
        swapped(g, m, x, y, tx, ty).wf(),
        swapped(g, m, x, y, tx, ty).same_shape(g),
        swapped(g, m, x, y, tx, ty).cells.to_multiset() == g.cells.to_multiset(),
{
    broadcast use vstd::seq_lib::group_to_multiset_ensures;
    broadcast use vstd::multiset::group_multiset_axioms;

    let w = g.width;
    let i = cell_index(w, x, y);
    let t = cell_index(w, tx, ty);
    lemma_cell_index_in_range(w, g.height, x, y);
    lemma_cell_index_in_range(w, g.height, tx, ty);
    if i == t {
        assert((y - ty) * w == tx - x) by (nonlinear_arith)
            requires
                y * w + x == ty * w + tx,
        ;
        if y != ty {
            assert((y - ty) * w >= w || (y - ty) * w <= -w) by (nonlinear_arith)
                requires
                    y != ty,
                    w >= 0,
            ;
        }
    }
    let c = g.cells;
    let c1 = c.update(t, m);
    assert(c1[i] == m);
    assert(c1.to_multiset() == c.to_multiset().insert(m).remove(c[t]));
    assert(c1.update(i, c[t]).to_multiset() == c1.to_multiset().insert(c[t]).remove(m));
    assert(c.to_multiset().count(c[t]) > 0);
    assert(c.to_multiset().count(m) > 0);
    assert(c1.update(i, c[t]).to_multiset() =~= c.to_multiset());
}

proof fn lemma_step_keeps_materials(live: GridView, dest: GridView, x: int, y: int, side: Side)
    requires
        live.wf(),
        dest.wf(),
        dest.same_shape(live),
        live.in_bounds(x, y),
    ensures
        step(live, dest, x, y, side).wf(),
        step(live, dest, x, y, side).same_shape(live),
        step(live, dest, x, y, side).cells.to_multiset() == dest.cells.to_multiset(),
{
    let m = live.at(x, y);
    if dest.at(x, y) == m {
        lemma_fall_target_in_bounds(dest, m, x, y, side);
        if let Some((tx, ty)) = fall_target(dest, m, x, y, side) {
            lemma_swap_keeps_materials(dest, m, x, y, tx, ty);
        }
    }
}

proof fn lemma_scan_row_keeps_materials(
    live: GridView,
    dest: GridView,
    sides: Seq<Side>,
    y: int,
    n: int,
)
    requires
        live.wf(),
        dest.wf(),
        dest.same_shape(live),
        0 <= y < live.height,
        n <= live.width,
    ensures
        scan_row(live, dest, sides, y, n).wf(),
        scan_row(live, dest, sides, y, n).same_shape(live),
        scan_row(live, dest, sides, y, n).cells.to_multiset() == dest.cells.to_multiset(),
    decreases n,
{
    if n > 0 {
        lemma_scan_row_keeps_materials(live, dest, sides, y, n - 1);
        let before = scan_row(live, dest, sides, y, n - 1);
        lemma_step_keeps_materials(live, before, n - 1, y, side_at(live, sides, n - 1, y));
    }
}

proof fn lemma_scan_rows_keeps_materials(live: GridView, sides: Seq<Side>, n: int)
    requires
        live.wf(),
        n <= live.height,
    ensures
        scan_rows(live, sides, n).wf(),
        scan_rows(live, sides, n).same_shape(live),
        scan_rows(live, sides, n).cells.to_multiset() == live.cells.to_multiset(),
    decreases n,
{
    if n > 0 {
        lemma_scan_rows_keeps_materials(live, sides, n - 1);
        lemma_scan_row_keeps_materials(live, scan_rows(live, sides, n - 1), sides, n - 1, live.width);
    }
}

/// A tick only moves materials around: the grid keeps its size, and each
/// material occurs in as many cells after the tick as before it.
pub proof fn lemma_tick_keeps_materials(live: GridView, sides: Seq<Side>)
    requires
        live.wf(),
    ensures
        ticked(live, sides).wf(),
        ticked(live, sides).same_shape(live),
        ticked(live, sides).cells.to_multiset() == live.cells.to_multiset(),
{
    lemma_scan_rows_keeps_materials(live, sides, live.height);
}

/// The buffer just before cell (x, y) takes its turn in a tick.
pub open spec fn before_turn(live: GridView, sides: Seq<Side>, x: int, y: int) -> GridView {
    scan_row(live, scan_rows(live, sides, y), sides, y, x)
}

/// Every cell from position `k` of the layout on that holds sand in the live
/// grid still holds sand in `dest`.
spec fn sand_kept_from(live: GridView, dest: GridView, k: int) -> bool {
    forall|x: int, y: int|
        live.in_bounds(x, y) && cell_index(live.width, x, y) >= k && live.at(x, y)
            == Material::Sand ==> #[trigger] dest.at(x, y) == Material::Sand
}

proof fn lemma_step_keeps_sand(live: GridView, dest: GridView, x: int, y: int, side: Side)
    requires
        live.wf(),
        dest.wf(),
        dest.same_shape(live),
        live.in_bounds(x, y),
        sand_kept_from(live, dest, cell_index(live.width, x, y)),
    ensures
        sand_kept_from(live, step(live, dest, x, y, side), cell_index(live.width, x, y) + 1),
{
    let m = live.at(x, y);
    let k = cell_index(live.width, x, y);
    if dest.at(x, y) == m {
        lemma_fall_target_in_bounds(dest, m, x, y, side);
        if let Some((tx, ty)) = fall_target(dest, m, x, y, side) {
            let after = step(live, dest, x, y, side);
            let t = cell_index(live.width, tx, ty);
            lemma_cell_index_in_range(live.width, live.height, tx, ty);
            assert forall|x2: int, y2: int|
                live.in_bounds(x2, y2) && cell_index(live.width, x2, y2) >= k + 1 && live.at(
                    x2,
                    y2,
                ) == Material::Sand implies #[trigger] after.at(x2, y2) == Material::Sand by {
                lemma_cell_index_in_range(live.width, live.height, x2, y2);
                assert(dest.at(x2, y2) == Material::Sand);
                assert(cell_index(live.width, x2, y2) != t);
            }
        }
    }
}

proof fn lemma_scan_row_keeps_sand(live: GridView, dest: GridView, sides: Seq<Side>, y: int, n: int)
    requires
        live.wf(),
        dest.wf(),
        dest.same_shape(live),
        0 <= y < live.height,
        0 <= n <= live.width,
        sand_kept_from(live, dest, y * live.width),
    ensures
        sand_kept_from(live, scan_row(live, dest, sides, y, n), y * live.width + n),
    decreases n,
{
    if n > 0 {
        lemma_scan_row_keeps_sand(live, dest, sides, y, n - 1);
        lemma_scan_row_keeps_materials(live, dest, sides, y, n - 1);
        let before = scan_row(live, dest, sides, y, n - 1);
        lemma_step_keeps_sand(live, before, n - 1, y, side_at(live, sides, n - 1, y));
    }
}

proof fn lemma_scan_rows_keep_sand(live: GridView, sides: Seq<Side>, n: int)
    requires
        live.wf(),
        0 <= n <= live.height,
    ensures
        sand_kept_from(live, scan_rows(live, sides, n), n * live.width),
    decreases n,
{
    if n > 0 {
        lemma_scan_rows_keep_sand(live, sides, n - 1);
        lemma_scan_rows_keeps_materials(live, sides, n - 1);
        assert((n - 1) * live.width + live.width == n * live.width) by (nonlinear_arith);
        lemma_scan_row_keeps_sand(live, scan_rows(live, sides, n - 1), sides, n - 1, live.width);
    }
}

/// Sand gives way to nothing, so no earlier move in a tick takes it from
/// its cell: a cell that holds sand in the live grid still holds sand in
/// the buffer when its own turn comes.
pub proof fn lemma_sand_waits_for_its_turn(live: GridView, sides: Seq<Side>, x: int, y: int)
    requires
        live.wf(),
        live.in_bounds(x, y),
        live.at(x, y) == Material::Sand,
    ensures
        before_turn(live, sides, x, y).at(x, y) == Material::Sand,
{
    lemma_scan_rows_keep_sand(live, sides, y);
    lemma_scan_rows_keeps_materials(live, sides, y);
    lemma_scan_row_keeps_sand(live, scan_rows(live, sides, y), sides, y, x);
}

/// No sand keeps a cell below it that gives way: when a cell holding sand
/// in the live grid takes its turn and the cell straight below gives way to
/// sand, it sinks, whichever side was drawn. The cell below then holds sand
/// and its own cell what was below.
pub proof fn lemma_sand_sinks_in_its_turn(live: GridView, sides: Seq<Side>, x: int, y: int)
    requires
        live.wf(),
        live.in_bounds(x, y),
        y + 1 < live.height,
        live.at(x, y) == Material::Sand,
        before_turn(live, sides, x, y).at(x, y + 1).displaced_by(Material::Sand),
    ensures
        ({
            let before = before_turn(live, sides, x, y);
            let after = step(live, before, x, y, side_at(live, sides, x, y));
            &&& after == swapped(before, Material::Sand, x, y, x, y + 1)
            &&& after.at(x, y + 1) == Material::Sand
            &&& after.at(x, y) == before.at(x, y + 1)
        }),
{
    let before = before_turn(live, sides, x, y);
    lemma_sand_waits_for_its_turn(live, sides, x, y);
    lemma_scan_rows_keeps_materials(live, sides, y);
    lemma_scan_row_keeps_materials(live, scan_rows(live, sides, y), sides, y, x);
    let w = live.width;
    lemma_cell_index_in_range(w, live.height, x, y);
    lemma_cell_index_in_range(w, live.height, x, y + 1);
    assert(cell_index(w, x, y + 1) == cell_index(w, x, y) + w) by (nonlinear_arith);
}

/// Advances the simulation by one tick, with `sides` giving, row by row,
/// the side each cell tries first. The buffer is first brought level with
/// the grid; cells then take their turns top row first, left to right, each
/// reading the grid for its own material and moving within the buffer, so
/// later cells see the moves of earlier ones. At the end the grid takes the
/// buffer's contents.
pub fn tick_with(grid: &mut Grid, buffer: &mut Grid, sides: &Vec<Side>)
    requires
        old(grid)@.wf(),
        old(buffer)@.wf(),
        old(buffer)@.same_shape(old(grid)@),
        sides@.len() == old(grid)@.width * old(grid)@.height,
    ensures
        final(grid)@ == ticked(old(grid)@, sides@),
        final(buffer)@ == final(grid)@,
        final(grid)@.wf(),
        final(grid)@.same_shape(old(grid)@),
        final(grid)@.cells.to_multiset() == old(grid)@.cells.to_multiset(),
{
    let ghost live = grid@;
    buffer.copy_from(grid);
    let w = grid.width();
    let h = grid.height();
    let mut y: usize = 0;
    while y < h
        invariant
            grid@ == live,
            live.wf(),
            w == live.width,
            h == live.height,
            sides@.len() == w * h,
            y <= h,
            buffer@ == scan_rows(live, sides@, y as int),
            buffer@.wf(),
            buffer@.same_shape(live),
        decreases h - y,
    {
        let ghost row_start = buffer@;
        let mut x: usize = 0;
        while x < w
            invariant
                grid@ == live,
                live.wf(),
                w == live.width,
                h == live.height,
                sides@.len() == w * h,
                y < h,
                x <= w,
                row_start == scan_rows(live, sides@, y as int),
                buffer@ == scan_row(live, row_start, sides@, y as int, x as int),
                buffer@.wf(),
                buffer@.same_shape(live),
            decreases w - x,
        {
            proof {
                lemma_cell_index_in_range(w as int, h as int, x as int, y as int);
            }
            let m = grid.at(x, y);
            let side = sides[y * w + x];
            if buffer.at(x, y) == m {
                m.fall(x, y, buffer, side);
            }
            x += 1;
        }
        y += 1;
    }
    grid.copy_from(buffer);
    proof {
        lemma_tick_keeps_materials(live, sides@);
    }
}

/// Relies on macroquad::rand::gen_range (quad-rand's global generator): for
/// the bounds 0 and 2 it returns 0 or 1.
#[verifier::external_body]
fn random_zero_or_one() -> (r: i32)
    ensures
        0 <= r < 2,
{
    macroquad::rand::gen_range(0, 2)
}

/// Advances the simulation by one tick, drawing for every cell, uniformly
/// and independently, the side it tries first.
pub fn tick(grid: &mut Grid, buffer: &mut Grid)
    requires
        old(grid)@.wf(),
        old(buffer)@.wf(),
        old(buffer)@.same_shape(old(grid)@),
    ensures
        exists|sides: Seq<Side>|
            sides.len() == old(grid)@.width * old(grid)@.height && final(grid)@ == ticked(
                old(grid)@,
                sides,
            ),
        final(buffer)@ == final(grid)@,
        final(grid)@.wf(),
        final(grid)@.same_shape(old(grid)@),
        final(grid)@.cells.to_multiset() == old(grid)@.cells.to_multiset(),
{
    let n = grid.cell_count();
    let mut sides: Vec<Side> = Vec::new();
    let mut i: usize = 0;
    while i < n
        invariant
            i <= n,
            sides@.len() == i,
        decreases n - i,
    {
        sides.push(side_from_draw(random_zero_or_one()));
        i += 1;
    }
    tick_with(grid, buffer, &sides);
}

} // verus!
