//! What holds of every grid, whatever its size and its cells.

use crate::grid::{lemma_cell_of_index, lemma_index, lemma_step_alive, lemma_wrap, Grid};
use vstd::prelude::*;

verus! {

/// The next generation hangs on nothing but the present one: grids of the same
/// dimensions and the same cells have the same next generation.
pub proof fn step_is_deterministic(a: Grid, b: Grid)
    requires
        a.width == b.width,
        a.height == b.height,
        a.cells.len() == b.cells.len(),
        forall|i: int| 0 <= i < a.cells.len() ==> a.cells[i] == b.cells[i],
    ensures
        a.step() == b.step(),
{
    assert(a.cells =~= b.cells);
    assert(a == b);
}

/// The top and the bottom row are neighbours: the row above row 0 is the last
/// row, the row below the last row is row 0, and a live cell in either counts
/// among the live neighbours of the cell in the same column of the other.
pub proof fn top_and_bottom_rows_are_neighbors(g: Grid, col: int)
    requires
        g.wf(),
        0 <= col < g.width,
    ensures
        g.neighbor(0, col, g.up(), 0) == (g.height - 1, col),
        g.neighbor(g.height - 1, col, 1, 0) == (0int, col),
        g.alive(g.height - 1, col) ==> g.live_neighbors(0, col) >= 1,
        g.alive(0, col) ==> g.live_neighbors(g.height - 1, col) >= 1,
{
    let h = g.height as int;
    lemma_wrap(0, h);
    lemma_wrap(h - 1, h);
    lemma_wrap(col, g.width as int);
    if g.alive(h - 1, col) {
        if h == 1 {
            assert(g.live_at(0, col, 1, 0) == 1);
        } else {
            assert(g.live_at(0, col, g.up(), 0) == 1);
        }
    }
    if g.alive(0, col) {
        assert(g.live_at(h - 1, col, 1, 0) == 1);
    }
}

/// The leftmost and the rightmost column are neighbours: the column left of
/// column 0 is the last column, the column right of the last column is column 0,
/// and a live cell in either counts among the live neighbours of the cell in the
/// same row of the other.
pub proof fn left_and_right_columns_are_neighbors(g: Grid, row: int)
    requires
        g.wf(),
        0 <= row < g.height,
    ensures
        g.neighbor(row, 0, 0, g.left()) == (row, g.width - 1),
        g.neighbor(row, g.width - 1, 0, 1) == (row, 0int),
        g.alive(row, g.width - 1) ==> g.live_neighbors(row, 0) >= 1,
        g.alive(row, 0) ==> g.live_neighbors(row, g.width - 1) >= 1,
{
    let w = g.width as int;
    lemma_wrap(0, w);
    lemma_wrap(w - 1, w);
    lemma_wrap(row, g.height as int);
    if g.alive(row, w - 1) {
        if w == 1 {
            assert(g.live_at(row, 0, 0, 1) == 1);
        } else {
            assert(g.live_at(row, 0, 0, g.left()) == 1);
        }
    }
    if g.alive(row, 0) {
        assert(g.live_at(row, w - 1, 0, 1) == 1);
    }
}

/// A dead cell with exactly three live neighbours is alive in the next generation.
pub proof fn birth(g: Grid, row: int, col: int)
    requires
        g.wf(),
        g.in_bounds(row, col),
        !g.alive(row, col),
        g.live_neighbors(row, col) == 3,
    ensures
        g.step().alive(row, col),
{
    lemma_step_alive(g, row, col);
}

/// A cell that is alone dies, and nothing is born beside it: where one cell is
/// alive and has no live neighbour, the next generation is dead all over.
pub proof fn lone_cell_dies(g: Grid, row: int, col: int)
    requires
        g.wf(),
        g.in_bounds(row, col),
        forall|r: int, c: int|
            g.in_bounds(r, c) ==> (#[trigger] g.alive(r, c) <==> (r == row && c == col)),
        g.live_neighbors(row, col) == 0,
    ensures
        g.step() == Grid::dead(g.width, g.height),
{
    let w = g.width as int;
    let h = g.height as int;
    lemma_wrap(row, h);
    lemma_wrap(col, w);
    // The cell is no neighbour of itself, so the grid is at least two cells each way.
    assert(g.live_at(row, col, 1, 0) == 0 && g.live_at(row, col, 0, 1) == 0);
    assert(h >= 2 && w >= 2);
    assert forall|i: int| 0 <= i < g.cells.len() implies !g.step().cells[i] by {
        let r = i / w;
        let c = i % w;
        lemma_cell_of_index(g, i);
        lemma_step_alive(g, r, c);
        lemma_wrap(r, h);
        lemma_wrap(c, w);
        if r == row && c == col {
        } else {
            // Of the three row offsets at most two lead to the live cell's row, and
            // of the three column offsets at most two to its column; where the row
            // or the column is the live cell's own, none of the other two does.
            assert(g.live_neighbors(r, c) != 3);
        }
    }
    assert(g.step().cells =~= Grid::dead(g.width, g.height).cells);
}

/// Whether `(r, c)` is one of the four cells of the block, two by two, whose top
/// left cell is `(row, col)`; at the far edges the block goes on at the near ones.
pub open spec fn in_block(g: Grid, row: int, col: int, r: int, c: int) -> bool {
    &&& r == row || r == (row + 1) % (g.height as int)
    &&& c == col || c == (col + 1) % (g.width as int)
}

/// A block stands still: on a grid at least three cells wide and high, where the
/// four cells of a block are alive and no other, the next generation is the same.
pub proof fn block_is_still(g: Grid, row: int, col: int)
    requires
        g.wf(),
        g.width >= 3,
        g.height >= 3,
        g.in_bounds(row, col),
        forall|r: int, c: int|
            g.in_bounds(r, c) ==> (#[trigger] g.alive(r, c) <==> in_block(g, row, col, r, c)),
    ensures
        g.step() == g,
{
    let w = g.width as int;
    let h = g.height as int;
    lemma_wrap(row, h);
    lemma_wrap(col, w);
    assert forall|i: int| 0 <= i < g.cells.len() implies g.step().cells[i] == g.cells[i] by {
        let r = i / w;
        let c = i % w;
        lemma_cell_of_index(g, i);
        lemma_step_alive(g, r, c);
        lemma_wrap(r, h);
        lemma_wrap(c, w);
        if g.alive(r, c) {
            assert(g.live_neighbors(r, c) == 3);
        } else {
            assert(g.live_neighbors(r, c) != 3);
        }
    }
    assert(g.step().cells =~= g.cells);
}

} // verus!
