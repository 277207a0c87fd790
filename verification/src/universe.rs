//! The engine: a universe of cells that lives from one generation to the next.

use crate::bitset::{bits, packed};
use crate::error::UniverseError;
use crate::grid::{lemma_index, lemma_lists_one_more, next_state, Grid};
use crate::random::random_bool;
use fixedbitset::FixedBitSet;
use vstd::prelude::*;

verus! {

/// The width of a universe made by `Universe::new`.
pub const DEFAULT_WIDTH: u32 = 64;

/// The height of a universe made by `Universe::new`.
pub const DEFAULT_HEIGHT: u32 = 64;

/// A rectangular torus of cells, one bit per cell, stored row after row.
pub struct Universe {
    width: u32,
    height: u32,
    cells: FixedBitSet,
}

impl View for Universe {
    type V = Grid;

    closed spec fn view(&self) -> Grid {
        Grid { width: self.width as nat, height: self.height as nat, cells: bits(self.cells) }
    }
}

/// The state of a cell in the next generation.
fn rule(alive: bool, live_neighbors: u8) -> (next: bool)
    ensures
        next == next_state(alive, live_neighbors as nat),
{
    match (alive, live_neighbors) {
        (true, x) if x < 2 => false,
        (true, 2) | (true, 3) => true,
        (true, x) if x > 3 => false,
        (false, 3) => true,
        (otherwise, _) => otherwise,
    }
}

/// Why no universe can have these dimensions, if none can: a dimension is zero,
/// or the cells are more than a 32-bit index can tell apart.
pub open spec fn dimensions_error(width: nat, height: nat) -> Option<UniverseError> {
    if width == 0 || height == 0 {
        Some(UniverseError::ZeroDimension)
    } else if width * height > u32::MAX {
        Some(UniverseError::TooLarge)
    } else {
        None
    }
}

/// Why no universe can be made of these dimensions and `flags` flags, if none
/// can: the dimensions come first, then the number of flags.
pub open spec fn seeding_error(width: nat, height: nat, flags: nat) -> Option<UniverseError> {
    if dimensions_error(width, height) is Some {
        dimensions_error(width, height)
    } else if flags != width * height {
        Some(UniverseError::LengthMismatch)
    } else {
        None
    }
}

/// The number of cells of a grid of these dimensions, or why there is no such grid.
fn cell_count(width: u32, height: u32) -> (count: Result<usize, UniverseError>)
    ensures
        match count {
            Ok(n) => dimensions_error(width as nat, height as nat) is None && n == width * height,
            Err(e) => dimensions_error(width as nat, height as nat) == Some(e),
        },
{
    if width == 0 || height == 0 {
        return Err(UniverseError::ZeroDimension);
    }
    match width.checked_mul(height) {
        Some(n) => Ok(n as usize),
        None => Err(UniverseError::TooLarge),
    }
}

/// The offset that the loops over a cell's surroundings take at turn `k`: first
/// the one that wraps backwards on an axis of `n` cells, then none, then one forward.
spec fn delta(n: nat, k: int) -> int {
    if k == 0 {
        n - 1
    } else if k == 1 {
        0
    } else {
        1
    }
}

/// The live cells found in the row at offset `dr` once `n` column offsets are done.
spec fn counted_in_row(g: Grid, row: int, col: int, dr: int, n: int) -> nat {
    (if n >= 1 { g.live_at(row, col, dr, delta(g.width, 0)) } else { 0 })
        + (if n >= 2 { g.live_at(row, col, dr, delta(g.width, 1)) } else { 0 })
        + (if n >= 3 { g.live_at(row, col, dr, delta(g.width, 2)) } else { 0 })
}

/// The live cells found once `m` row offsets are done.
spec fn counted(g: Grid, row: int, col: int, m: int) -> nat {
    (if m >= 1 { counted_in_row(g, row, col, delta(g.height, 0), 3) } else { 0 })
        + (if m >= 2 { counted_in_row(g, row, col, delta(g.height, 1), 3) } else { 0 })
        + (if m >= 3 { counted_in_row(g, row, col, delta(g.height, 2), 3) } else { 0 })
}

impl Universe {
    /// What the constructors establish and every operation keeps: the grid is well
    /// formed, and the number of its cells fits the 32-bit arithmetic that finds a
    /// cell's bit.
    pub open spec fn wf(&self) -> bool {
        &&& self@.wf()
        &&& self@.width * self@.height <= u32::MAX
    }

    /// A universe of the given dimensions whose cells are alive as `alive` says,
    /// row after row.
    fn filled(width: u32, height: u32, alive: &[bool]) -> (universe: Universe)
        requires
            seeding_error(width as nat, height as nat, alive@.len()) is None,
        ensures
            universe.wf(),
            universe@ == (Grid { width: width as nat, height: height as nat, cells: alive@ }),
    {
        let size = alive.len();
        let mut cells = FixedBitSet::with_capacity(size);
        for i in 0..size
            invariant
                size == alive@.len(),
                bits(cells).len() == size,
                forall|k: int| 0 <= k < i ==> bits(cells)[k] == alive@[k],
        {
            cells.set(i, alive[i]);
        }
        assert(bits(cells) =~= alive@);
        Universe { width, height, cells }
    }

    /// A universe of the default size in which every cell is alive or dead as a
    /// random draw decides, one draw for each cell.
    pub fn new() -> (universe: Universe)
        ensures
            universe.wf(),
            universe@.width == DEFAULT_WIDTH,
            universe@.height == DEFAULT_HEIGHT,
    {
        let size = (DEFAULT_WIDTH * DEFAULT_HEIGHT) as usize;
        let mut draws: Vec<bool> = Vec::with_capacity(size);
        for i in 0..size
            invariant
                draws@.len() == i,
        {
            draws.push(random_bool());
        }
        Universe::filled(DEFAULT_WIDTH, DEFAULT_HEIGHT, draws.as_slice())
    }

    /// A universe of the given dimensions whose cells are alive as `alive` says,
    /// row after row: the way to a universe that does not hang on chance.
    pub fn from_cells(width: u32, height: u32, alive: &[bool]) -> (made: Result<
        Universe,
        UniverseError,
    >)
        ensures
            match made {
                Ok(universe) => {
                    &&& seeding_error(width as nat, height as nat, alive@.len()) is None
                    &&& universe.wf()
                    &&& universe@ == (Grid {
                        width: width as nat,
                        height: height as nat,
                        cells: alive@,
                    })
                },
                Err(e) => seeding_error(width as nat, height as nat, alive@.len()) == Some(e),
            },
    {
        match cell_count(width, height) {
            Ok(size) => {
                if alive.len() == size {
                    Ok(Universe::filled(width, height, alive))
                } else {
                    Err(UniverseError::LengthMismatch)
                }
            },
            Err(e) => Err(e),
        }
    }

    /// The number of columns.
    pub fn width(&self) -> (width: u32)
        ensures
            width == self@.width,
    {
        self.width
    }

    /// The number of rows.
    pub fn height(&self) -> (height: u32)
        ensures
            height == self@.height,
    {
        self.height
    }

    /// The cells as they are stored: bits packed into 32-bit blocks, the cell at
    /// `(row, column)` at place `row * width + column`.
    pub fn cells(&self) -> (blocks: &[u32])
        ensures
            packed(blocks@, self@.cells),
    {
        self.cells.as_slice()
    }

    /// The cells as a bit set, the cell at `(row, column)` at place
    /// `row * width + column`.
    pub fn get_cells(&self) -> (cells: &FixedBitSet)
        ensures
            bits(*cells) == self@.cells,
    {
        &self.cells
    }

    /// The place of the bit of `(row, column)`.
    fn get_index(&self, row: u32, column: u32) -> (idx: usize)
        requires
            self.wf(),
            self@.in_bounds(row as int, column as int),
        ensures
            idx == self@.index(row as int, column as int),
            idx < self@.cells.len(),
    {
        proof {
            lemma_index(self@, row as int, column as int);
        }
        ((row * self.width) + column) as usize
    }

    /// The number of live neighbours of the cell at `(row, column)`.
    fn live_neighbor_count(&self, row: u32, column: u32) -> (count: u8)
        requires
            self.wf(),
            self@.in_bounds(row as int, column as int),
        ensures
            count == self@.live_neighbors(row as int, column as int),
    {
        let delta_rows: [u32; 3] = [self.height - 1, 0, 1];
        let delta_cols: [u32; 3] = [self.width - 1, 0, 1];
        let mut count: u8 = 0;
        for i in 0..3usize
            invariant
                self.wf(),
                self@.in_bounds(row as int, column as int),
                forall|k: int| 0 <= k < 3 ==> delta_rows[k] == delta(self@.height, k),
                forall|k: int| 0 <= k < 3 ==> delta_cols[k] == delta(self@.width, k),
                count == counted(self@, row as int, column as int, i as int),
        {
            let delta_row = delta_rows[i];
            for j in 0..3usize
                invariant
                    self.wf(),
                    self@.in_bounds(row as int, column as int),
                    0 <= i < 3,
                    delta_row == delta(self@.height, i as int),
                    forall|k: int| 0 <= k < 3 ==> delta_cols[k] == delta(self@.width, k),
                    count == counted(self@, row as int, column as int, i as int) + counted_in_row(
                        self@,
                        row as int,
                        column as int,
                        delta_row as int,
                        j as int,
                    ),
            {
                let delta_col = delta_cols[j];
                if delta_row != 0 || delta_col != 0 {
                    let neighbor_row = ((row as u64 + delta_row as u64) % (self.height as u64)) as u32;
                    let neighbor_col = ((column as u64 + delta_col as u64) % (self.width as u64)) as u32;
                    let idx = self.get_index(neighbor_row, neighbor_col);
                    if self.cells.contains(idx) {
                        count += 1;
                    }
                }
            }
        }
        count
    }

    /// Advances the universe by one generation: every cell is judged by the rule
    /// against the generation that was there when the call began.
    pub fn tick(&mut self)
        requires
            old(self).wf(),
        ensures
            final(self).wf(),
            final(self)@ == old(self)@.step(),
    {
        let ghost now = self@;
        let mut next = self.cells.clone();
        assert(0 * now.width == 0 && now.height * now.width == now.width * now.height)
            by (nonlinear_arith);
        for row in 0..self.height
            invariant
                self.wf(),
                self@ == now,
                bits(next).len() == now.cells.len(),
                forall|i: int| 0 <= i < row * now.width ==> bits(next)[i] == now.step().cells[i],
        {
            for col in 0..self.width
                invariant
                    self.wf(),
                    self@ == now,
                    0 <= row < now.height,
                    bits(next).len() == now.cells.len(),
                    forall|i: int|
                        0 <= i < row * now.width + col ==> bits(next)[i] == now.step().cells[i],
            {
                let idx = self.get_index(row, col);
                let cell = self.cells.contains(idx);
                let live_neighbors = self.live_neighbor_count(row, col);
                proof {
                    lemma_index(now, row as int, col as int);
                }
                next.set(idx, rule(cell, live_neighbors));
            }
            assert(row * now.width + now.width == (row + 1) * now.width) by (nonlinear_arith);
        }
        assert(bits(next) =~= now.step().cells);
        self.cells = next;
    }

    /// Turns the cell at `(row, column)` from dead to alive or back. A cell outside
    /// the grid is an error, and nothing changes.
    pub fn toggle_cell(&mut self, row: u32, column: u32) -> (done: Result<(), UniverseError>)
        requires
            old(self).wf(),
        ensures
            final(self).wf(),
            match done {
                Ok(_) => {
                    &&& old(self)@.in_bounds(row as int, column as int)
                    &&& final(self)@ == old(self)@.toggled(row as int, column as int)
                },
                Err(e) => {
                    &&& e == UniverseError::OutOfRange
                    &&& !old(self)@.in_bounds(row as int, column as int)
                    &&& final(self)@ == old(self)@
                },
            },
    {
        if row >= self.height || column >= self.width {
            return Err(UniverseError::OutOfRange);
        }
        let idx = self.get_index(row, column);
        let value = self.cells.contains(idx);
        self.cells.set(idx, !value);
        Ok(())
    }

    /// Makes the cells at `cells`, each a row and a column, alive, and leaves every
    /// other cell as it was; a cell named twice is alive all the same. If any of
    /// them lies outside the grid that is an error, and nothing changes.
    pub fn set_cells(&mut self, cells: &[(u32, u32)]) -> (done: Result<(), UniverseError>)
        requires
            old(self).wf(),
        ensures
            final(self).wf(),
            match done {
                Ok(_) => {
                    &&& old(self)@.holds_all(cells@)
                    &&& final(self)@ == old(self)@.with_alive(cells@)
                },
                Err(e) => {
                    &&& e == UniverseError::OutOfRange
                    &&& !old(self)@.holds_all(cells@)
                    &&& final(self)@ == old(self)@
                },
            },
    {
        let ghost before = self@;
        for k in 0..cells.len()
            invariant
                self.wf(),
                self@ == before,
                before.holds_all(cells@.take(k as int)),
        {
            let (row, col) = cells[k];
            if row >= self.height || col >= self.width {
                assert(!before.in_bounds(cells@[k as int].0 as int, cells@[k as int].1 as int));
                return Err(UniverseError::OutOfRange);
            }
            assert forall|j: int| 0 <= j < k + 1 implies before.in_bounds(
                (#[trigger] cells@.take(k + 1)[j]).0 as int,
                cells@.take(k + 1)[j].1 as int,
            ) by {
                if j < k {
                    assert(cells@.take(k + 1)[j] == cells@.take(k as int)[j]);
                }
            }
        }
        assert(cells@.take(cells@.len() as int) =~= cells@);
        for k in 0..cells.len()
            invariant
                self.wf(),
                self@.width == before.width,
                self@.height == before.height,
                before.holds_all(cells@),
                self@.cells.len() == before.cells.len(),
                forall|i: int|
                    0 <= i < before.cells.len() ==> #[trigger] self@.cells[i] == (before.cells[i]
                        || before.lists(cells@.take(k as int), i)),
        {
            let (row, col) = cells[k];
            assert(before.in_bounds(cells@[k as int].0 as int, cells@[k as int].1 as int));
            let idx = self.get_index(row, col);
            let ghost earlier = self@.cells;
            self.cells.set(idx, true);
            assert forall|i: int| 0 <= i < before.cells.len() implies self@.cells[i] == (
            before.cells[i] || before.lists(cells@.take(k + 1), i)) by {
                lemma_lists_one_more(before, cells@, k as int, i);
                assert(self@.cells[i] == (i == idx || earlier[i]));
            }
        }
        assert(cells@.take(cells@.len() as int) =~= cells@);
        assert(self@.cells =~= before.with_alive(cells@).cells);
        Ok(())
    }

    /// Sets the width and leaves every cell dead. A width that no universe of
    /// this height can have is an error, and nothing changes.
    pub fn set_width(&mut self, width: u32) -> (done: Result<(), UniverseError>)
        requires
            old(self).wf(),
        ensures
            final(self).wf(),
            match done {
                Ok(_) => {
                    &&& dimensions_error(width as nat, old(self)@.height) is None
                    &&& final(self)@ == Grid::dead(width as nat, old(self)@.height)
                },
                Err(e) => {
                    &&& dimensions_error(width as nat, old(self)@.height) == Some(e)
                    &&& final(self)@ == old(self)@
                },
            },
    {
        match cell_count(width, self.height) {
            Ok(size) => {
                self.width = width;
                self.cells = FixedBitSet::with_capacity(size);
                Ok(())
            },
            Err(e) => Err(e),
        }
    }

    /// Sets the height and leaves every cell dead. A height that no universe of
    /// this width can have is an error, and nothing changes.
    pub fn set_height(&mut self, height: u32) -> (done: Result<(), UniverseError>)
        requires
            old(self).wf(),
        ensures
            final(self).wf(),
            match done {
                Ok(_) => {
                    &&& dimensions_error(old(self)@.width, height as nat) is None
                    &&& final(self)@ == Grid::dead(old(self)@.width, height as nat)
                },
                Err(e) => {
                    &&& dimensions_error(old(self)@.width, height as nat) == Some(e)
                    &&& final(self)@ == old(self)@
                },
            },
    {
        match cell_count(self.width, height) {
            Ok(size) => {
                self.height = height;
                self.cells = FixedBitSet::with_capacity(size);
                Ok(())
            },
            Err(e) => Err(e),
        }
    }
}

impl Default for Universe {
    /// A universe as `Universe::new` makes it.
    fn default() -> (universe: Self)
        ensures
            universe.wf(),
            universe@.width == DEFAULT_WIDTH,
            universe@.height == DEFAULT_HEIGHT,
    {
        Universe::new()
    }
}

} // verus!
