//! The mathematical model: a grid of flags on a torus, and the rule that takes one
//! generation to the next.

use vstd::prelude::*;

verus! {

/// One generation: the dimensions and a flag per cell, row after row.
#[verifier::ext_equal]
pub struct Grid {
    pub width: nat,
    pub height: nat,
    pub cells: Seq<bool>,
}

/// The state of a cell in the next generation, given its state and the number of
/// its live neighbours: a live cell stays alive with two or three of them, a dead
/// cell comes alive with exactly three.
pub open spec fn next_state(alive: bool, live_neighbors: nat) -> bool {
    if alive {
        live_neighbors == 2 || live_neighbors == 3
    } else {
        live_neighbors == 3
    }
}

impl Grid {
    /// Both dimensions are positive and there is one flag per cell.
    pub open spec fn wf(self) -> bool {
        &&& self.width >= 1
        &&& self.height >= 1
        &&& self.cells.len() == self.width * self.height
    }

    /// `(row, col)` names a cell of the grid.
    pub open spec fn in_bounds(self, row: int, col: int) -> bool {
        0 <= row < self.height && 0 <= col < self.width
    }

    /// Where the flag of `(row, col)` stands in `cells`.
    pub open spec fn index(self, row: int, col: int) -> int {
        row * self.width + col
    }

    /// Whether the cell at `(row, col)` is alive.
    pub open spec fn alive(self, row: int, col: int) -> bool {
        self.cells[self.index(row, col)]
    }

    /// The cell reached from `(row, col)` by going `dr` rows down and `dc` columns
    /// to the right, the edges of the grid being joined.
    pub open spec fn neighbor(self, row: int, col: int, dr: int, dc: int) -> (int, int) {
        ((row + dr) % (self.height as int), (col + dc) % (self.width as int))
    }

    /// The offset that leads one row up: a full turn less one.
    pub open spec fn up(self) -> int {
        self.height - 1
    }

    /// The offset that leads one column to the left: a full turn less one.
    pub open spec fn left(self) -> int {
        self.width - 1
    }

    /// 1 if the offset `(dr, dc)` leads from `(row, col)` to a live cell, else 0.
    /// The zero offset leads nowhere: a cell is no neighbour of itself.
    pub open spec fn live_at(self, row: int, col: int, dr: int, dc: int) -> nat {
        let (r, c) = self.neighbor(row, col, dr, dc);
        if (dr != 0 || dc != 0) && self.alive(r, c) {
            1
        } else {
            0
        }
    }

    /// The number of live neighbours of `(row, col)`: of the offsets up, none and
    /// down, each with left, none and right, those that lead to a live cell.
    ///
    /// On a grid two cells wide or high two offsets lead to one cell, which then
    /// counts once for each. On a grid one cell wide or high the offset up or left
    /// is itself zero, so that fewer than eight offsets are left to count.
    pub open spec fn live_neighbors(self, row: int, col: int) -> nat {
        self.live_at(row, col, self.up(), self.left()) + self.live_at(row, col, self.up(), 0)
            + self.live_at(row, col, self.up(), 1) + self.live_at(row, col, 0, self.left())
            + self.live_at(row, col, 0, 1) + self.live_at(row, col, 1, self.left())
            + self.live_at(row, col, 1, 0) + self.live_at(row, col, 1, 1)
    }

    /// The next generation: every cell judged by the rule against this generation.
    pub open spec fn step(self) -> Grid {
        Grid {
            width: self.width,
            height: self.height,
            cells: Seq::new(
                self.cells.len(),
                |i: int|
                    next_state(
                        self.cells[i],
                        self.live_neighbors(i / (self.width as int), i % (self.width as int)),
                    ),
            ),
        }
    }

    /// This grid with the cell at `(row, col)` turned from dead to alive or back.
    pub open spec fn toggled(self, row: int, col: int) -> Grid {
        Grid {
            width: self.width,
            height: self.height,
            cells: self.cells.update(self.index(row, col), !self.alive(row, col)),
        }
    }

    /// Every one of `locations`, each a row and a column, names a cell of the grid.
    pub open spec fn holds_all(self, locations: Seq<(u32, u32)>) -> bool {
        forall|k: int|
            0 <= k < locations.len() ==> self.in_bounds(
                (#[trigger] locations[k]).0 as int,
                locations[k].1 as int,
            )
    }

    /// Some one of `locations` names the cell whose flag stands at place `i`.
    pub open spec fn lists(self, locations: Seq<(u32, u32)>, i: int) -> bool {
        exists|k: int|
            0 <= k < locations.len() && self.index(
                (#[trigger] locations[k]).0 as int,
                locations[k].1 as int,
            ) == i
    }

    /// This grid with the cells at `locations` alive and every other cell as it was.
    pub open spec fn with_alive(self, locations: Seq<(u32, u32)>) -> Grid {
        Grid {
            width: self.width,
            height: self.height,
            cells: Seq::new(self.cells.len(), |i: int| self.cells[i] || self.lists(locations, i)),
        }
    }

    /// A grid of the given dimensions with every cell dead.
    pub open spec fn dead(width: nat, height: nat) -> Grid {
        Grid { width, height, cells: Seq::new(width * height, |i: int| false) }
    }
}

/// The flag of a cell in bounds stands inside `cells`, and row and column are
/// read back from its place by division and remainder.
pub proof fn lemma_index(g: Grid, row: int, col: int)
    requires
        g.wf(),
        g.in_bounds(row, col),
    ensures
        0 <= g.index(row, col) < g.cells.len(),
        g.index(row, col) / (g.width as int) == row,
        g.index(row, col) % (g.width as int) == col,
{
    let w = g.width as int;
    let h = g.height as int;
    assert(row * w + w <= h * w) by (nonlinear_arith)
        requires
            0 <= row < h,
            w >= 1,
    ;
    assert(0 <= row * w) by (nonlinear_arith)
        requires
            0 <= row,
            w >= 1,
    ;
    vstd::arithmetic::div_mod::lemma_fundamental_div_mod_converse(row * w + col, w, row, col);
}

/// Every place in `cells` is the place of one cell in bounds.
pub proof fn lemma_cell_of_index(g: Grid, i: int)
    requires
        g.wf(),
        0 <= i < g.cells.len(),
    ensures
        g.in_bounds(i / (g.width as int), i % (g.width as int)),
        g.index(i / (g.width as int), i % (g.width as int)) == i,
{
    let w = g.width as int;
    let h = g.height as int;
    vstd::arithmetic::div_mod::lemma_fundamental_div_mod(i, w);
    vstd::arithmetic::div_mod::lemma_div_pos_is_pos(i, w);
    vstd::arithmetic::div_mod::lemma_mod_bound(i, w);
    let q = i / w;
    assert(w * q == q * w) by (nonlinear_arith);
    if q >= h {
        assert(q * w >= h * w) by (nonlinear_arith)
            requires
                q >= h,
                w >= 1,
        ;
    }
}

/// In the next generation a cell is what the rule makes of its state and of the
/// number of its live neighbours in this one.
pub proof fn lemma_step_alive(g: Grid, row: int, col: int)
    requires
        g.wf(),
        g.in_bounds(row, col),
    ensures
        g.step().alive(row, col) == next_state(g.alive(row, col), g.live_neighbors(row, col)),
{
    lemma_index(g, row, col);
}

/// Stepping one row or one column away on the torus: inside the grid it is the
/// cell next door, at an edge it is the cell at the far edge.
pub proof fn lemma_wrap(i: int, n: int)
    requires
        0 <= i < n,
    ensures
        (i - 1) % n == (if i == 0 { n - 1 } else { i - 1 }),
        (i + 0) % n == i,
        (i + 1) % n == (if i == n - 1 { 0 } else { i + 1 }),
        (i + (n - 1)) % n == (i - 1) % n,
{
    vstd::arithmetic::div_mod::lemma_small_mod(i as nat, n as nat);
    if i == 0 {
        vstd::arithmetic::div_mod::lemma_fundamental_div_mod_converse(i - 1, n, -1, n - 1);
        vstd::arithmetic::div_mod::lemma_small_mod((n - 1) as nat, n as nat);
    } else {
        vstd::arithmetic::div_mod::lemma_small_mod((i - 1) as nat, n as nat);
        vstd::arithmetic::div_mod::lemma_fundamental_div_mod_converse(i + (n - 1), n, 1, i - 1);
    }
    if i == n - 1 {
        vstd::arithmetic::div_mod::lemma_fundamental_div_mod_converse(i + 1, n, 1, 0);
    } else {
        vstd::arithmetic::div_mod::lemma_small_mod((i + 1) as nat, n as nat);
    }
}

/// Listing one location more names the places named before and the place of
/// that location, and no other.
pub proof fn lemma_lists_one_more(g: Grid, locations: Seq<(u32, u32)>, k: int, i: int)
    requires
        0 <= k < locations.len(),
    ensures
        g.lists(locations.take(k + 1), i) <==> (g.lists(locations.take(k), i) || g.index(
            locations[k].0 as int,
            locations[k].1 as int,
        ) == i),
{
    let shorter = locations.take(k);
    let longer = locations.take(k + 1);
    if g.lists(shorter, i) {
        let j = choose|j: int|
            0 <= j < shorter.len() && g.index((#[trigger] shorter[j]).0 as int, shorter[j].1 as int)
                == i;
        assert(longer[j] == shorter[j]);
        assert(g.lists(longer, i));
    }
    if g.index(locations[k].0 as int, locations[k].1 as int) == i {
        assert(longer[k] == locations[k]);
        assert(g.lists(longer, i));
    }
    if g.lists(longer, i) {
        let j = choose|j: int|
            0 <= j < longer.len() && g.index((#[trigger] longer[j]).0 as int, longer[j].1 as int)
                == i;
        if j < k {
            assert(shorter[j] == longer[j]);
            assert(g.lists(shorter, i));
        } else {
            assert(longer[j] == locations[k]);
        }
    }
}

} // verus!
