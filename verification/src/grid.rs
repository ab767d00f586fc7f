use crate::rules::{
    alive_at, clamp_index, dead_grid, height_of, in_grid, live_neighbours, next_generation,
    next_state, one_if, rectangular, rule, width_of, with_cell,
};
use vstd::prelude::*;

verus! {

/// A matrix of cells of fixed size, indexed by row and column. A cell is
/// either alive (`true`) or dead (`false`).
pub struct Grid {
    cells: Vec<Vec<bool>>,
}

impl View for Grid {
    type V = Seq<Seq<bool>>;

    /// The rows of the grid, top to bottom, each a sequence of cells from
    /// left to right.
    closed spec fn view(&self) -> Seq<Seq<bool>> {
        Seq::new(self.cells@.len(), |r: int| self.cells@[r]@)
    }
}

/// Whether a seed coordinate, clamped to a grid of the given size, names
/// the cell `(row, column)`.
pub open spec fn seeds_cell(
    seed: (usize, usize),
    width: int,
    height: int,
    row: int,
    column: int,
) -> bool {
    clamp_index(seed.0 as int, height) == row && clamp_index(seed.1 as int, width) == column
}

/// Whether one of the seed coordinates names the cell `(row, column)`.
pub open spec fn seeded_cell(
    live: Seq<(usize, usize)>,
    width: int,
    height: int,
    row: int,
    column: int,
) -> bool {
    exists|i: int| 0 <= i < live.len() && seeds_cell(#[trigger] live[i], width, height, row, column)
}

/// The grid of the given size whose live cells are exactly those named by
/// the seed coordinates, each given as `(row, column)` and clamped to the grid.
pub open spec fn seeded(live: Seq<(usize, usize)>, width: int, height: int) -> Seq<Seq<bool>> {
    Seq::new(
        height as nat,
        |r: int| Seq::new(width as nat, |c: int| seeded_cell(live, width, height, r, c)),
    )
}

/// Forces an index into `0..count`.
fn clamp(index: usize, count: usize) -> (clamped: usize)
    requires
        count > 0,
    ensures
        clamped == clamp_index(index as int, count as int),
        clamped < count,
{
    if index >= count {
        count - 1
    } else {
        index
    }
}

impl Grid {
    /// A well-formed grid is rectangular and has at least one cell.
    pub open spec fn wf(&self) -> bool {
        rectangular(self@)
    }

    /// Creates a grid of the given size with every cell dead.
    pub fn new(width: usize, height: usize) -> (grid: Grid)
        requires
            width > 0,
            height > 0,
        ensures
            grid.wf(),
            width_of(grid@) == width,
            height_of(grid@) == height,
            grid@ == dead_grid(width as nat, height as nat),
    {
        let mut cells: Vec<Vec<bool>> = Vec::new();
        let mut row: usize = 0;
        while row < height
            invariant
                row <= height,
                cells@.len() == row,
                forall|r: int| 0 <= r < row ==> (#[trigger] cells@[r])@ == Seq::new(
                    width as nat,
                    |c: int| false,
                ),
            decreases height - row,
        {
            let mut line: Vec<bool> = Vec::new();
            let mut column: usize = 0;
            while column < width
                invariant
                    column <= width,
                    line@ == Seq::new(column as nat, |c: int| false),
                decreases width - column,
            {
                line.push(false);
                column += 1;
                assert(line@ =~= Seq::new(column as nat, |c: int| false));
            }
            cells.push(line);
            row += 1;
        }
        let grid = Grid { cells };
        assert(grid@ =~~= dead_grid(width as nat, height as nat));
        grid
    }

    /// Creates a grid of the given size whose live cells are those named in
    /// `live`, each as `(row, column)`. A coordinate beyond the grid is
    /// clamped to the last row or column.
    pub fn with_cells(width: usize, height: usize, live: &[(usize, usize)]) -> (grid: Grid)
        requires
            width > 0,
            height > 0,
        ensures
            grid.wf(),
            width_of(grid@) == width,
            height_of(grid@) == height,
            grid@ == seeded(live@, width as int, height as int),
    {
        let mut grid = Grid::new(width, height);
        let mut i: usize = 0;
        assert(grid@ =~~= seeded(live@.take(0), width as int, height as int));
        while i < live.len()
            invariant
                i <= live.len(),
                width > 0,
                height > 0,
                grid@ == seeded(live@.take(i as int), width as int, height as int),
            decreases live.len() - i,
        {
            let row = clamp(live[i].0, height);
            let column = clamp(live[i].1, width);
            let ghost before = live@.take(i as int);
            let ghost after = live@.take(i + 1);
            grid.write(row, column, true);
            proof {
                assert(after =~= before.push(live@[i as int]));
                let w = width as int;
                let h = height as int;
                assert forall|r: int, c: int| 0 <= r < h && 0 <= c < w implies seeded_cell(
                    after,
                    w,
                    h,
                    r,
                    c,
                ) == (seeded_cell(before, w, h, r, c) || (r == row && c == column)) by {
                    if seeded_cell(before, w, h, r, c) {
                        let k = choose|k: int|
                            0 <= k < before.len() && seeds_cell(#[trigger] before[k], w, h, r, c);
                        assert(after[k] == before[k]);
                    }
                    if r == row && c == column {
                        assert(seeds_cell(after[i as int], w, h, r, c));
                    }
                    if seeded_cell(after, w, h, r, c) {
                        let k = choose|k: int|
                            0 <= k < after.len() && seeds_cell(#[trigger] after[k], w, h, r, c);
                        if k < i {
                            assert(before[k] == after[k]);
                        }
                    }
                }
                assert(grid@ =~~= seeded(after, w, h));
            }
            i += 1;
        }
        assert(live@.take(live@.len() as int) =~= live@);
        grid
    }

    /// The number of columns.
    pub fn width(&self) -> (width: usize)
        requires
            self.wf(),
        ensures
            width == width_of(self@),
            width > 0,
    {
        self.cells[0].len()
    }

    /// The number of rows.
    pub fn height(&self) -> (height: usize)
        requires
            self.wf(),
        ensures
            height == height_of(self@),
            height > 0,
    {
        self.cells.len()
    }

    /// Whether the cell at `(row, column)` is alive.
    pub fn read(&self, row: usize, column: usize) -> (alive: bool)
        requires
            self.wf(),
            in_grid(self@, row as int, column as int),
        ensures
            alive == self@[row as int][column as int],
            alive == alive_at(self@, row as int, column as int),
    {
        assert(self@[row as int].len() == self@[0].len());
        self.cells[row][column]
    }

    /// Sets the cell at `(row, column)` to `value` and leaves every other
    /// cell as it was.
    pub fn write(&mut self, row: usize, column: usize, value: bool)
        requires
            old(self).wf(),
            in_grid(old(self)@, row as int, column as int),
        ensures
            final(self).wf(),
            final(self)@ == with_cell(old(self)@, row as int, column as int, value),
            width_of(final(self)@) == width_of(old(self)@),
            height_of(final(self)@) == height_of(old(self)@),
    {
        assert(self@[row as int].len() == self@[0].len());
        self.cells[row][column] = value;
        assert(self@ =~~= with_cell(old(self)@, row as int, column as int, value));
        assert forall|r: int| 0 <= r < self@.len() implies (#[trigger] self@[r]).len()
            == self@[0].len() by {
            assert(old(self)@[r].len() == old(self)@[0].len());
        }
    }

    /// Counts the live cells among the eight positions around
    /// `(row, column)`. Positions outside the grid hold no cell.
    pub fn live_neighbours(&self, row: usize, column: usize) -> (count: u8)
        requires
            self.wf(),
            in_grid(self@, row as int, column as int),
        ensures
            count == live_neighbours(self@, row as int, column as int),
            count <= 8,
    {
        let height = self.height();
        let width = self.width();
        let ghost g = self@;
        let ghost r = row as int;
        let ghost c = column as int;
        let mut count: u8 = 0;
        if column > 0 {
            if self.read(row, column - 1) {
                count += 1;
            }
            if row > 0 {
                if self.read(row - 1, column - 1) {
                    count += 1;
                }
            }
        }
        assert(count == one_if(alive_at(g, r, c - 1)) + one_if(alive_at(g, r - 1, c - 1)));
        if row > 0 {
            if self.read(row - 1, column) {
                count += 1;
            }
            if column < width - 1 {
                if self.read(row - 1, column + 1) {
                    count += 1;
                }
            }
        }
        assert(count == one_if(alive_at(g, r, c - 1)) + one_if(alive_at(g, r - 1, c - 1)) + one_if(
            alive_at(g, r - 1, c),
        ) + one_if(alive_at(g, r - 1, c + 1)));
        if column < width - 1 {
            if self.read(row, column + 1) {
                count += 1;
            }
            if row < height - 1 {
                if self.read(row + 1, column + 1) {
                    count += 1;
                }
            }
        }
        assert(count == one_if(alive_at(g, r, c - 1)) + one_if(alive_at(g, r - 1, c - 1)) + one_if(
            alive_at(g, r - 1, c),
        ) + one_if(alive_at(g, r - 1, c + 1)) + one_if(alive_at(g, r, c + 1)) + one_if(
            alive_at(g, r + 1, c + 1),
        ));
        if row < height - 1 {
            if self.read(row + 1, column) {
                count += 1;
            }
            if column > 0 {
                if self.read(row + 1, column - 1) {
                    count += 1;
                }
            }
        }
        count
    }

    /// Computes the generation that follows this one. Every cell of the
    /// result is decided from this grid alone, which is left untouched.
    pub fn next_generation(&self) -> (next: Grid)
        requires
            self.wf(),
        ensures
            next.wf(),
            next@ == next_generation(self@),
            width_of(next@) == width_of(self@),
            height_of(next@) == height_of(self@),
    {
        let height = self.height();
        let width = self.width();
        let mut cells: Vec<Vec<bool>> = Vec::new();
        let mut row: usize = 0;
        while row < height
            invariant
                self.wf(),
                height == height_of(self@),
                width == width_of(self@),
                row <= height,
                cells@.len() == row,
                forall|r: int| 0 <= r < row ==> (#[trigger] cells@[r])@ == next_generation(self@)[r],
            decreases height - row,
        {
            let mut line: Vec<bool> = Vec::new();
            let mut column: usize = 0;
            assert(self@[row as int].len() == self@[0].len());
            while column < width
                invariant
                    self.wf(),
                    height == height_of(self@),
                    width == width_of(self@),
                    row < height,
                    column <= width,
                    line@ == Seq::new(
                        column as nat,
                        |c: int| rule(self@[row as int][c], live_neighbours(self@, row as int, c)),
                    ),
                decreases width - column,
            {
                let count = self.live_neighbours(row, column);
                let alive = self.read(row, column);
                line.push(next_state(alive, count));
                column += 1;
                assert(line@ =~= Seq::new(
                    column as nat,
                    |c: int| rule(self@[row as int][c], live_neighbours(self@, row as int, c)),
                ));
            }
            assert(line@ =~= next_generation(self@)[row as int]);
            cells.push(line);
            row += 1;
        }
        let next = Grid { cells };
        assert(next@ =~~= next_generation(self@));
        proof {
            crate::rules::lemma_next_generation_shape(self@);
        }
        next
    }
}

impl Clone for Grid {
    /// An independent copy with the same cells.
    fn clone(&self) -> (copy: Grid)
        ensures
            copy@ == self@,
    {
        let mut cells: Vec<Vec<bool>> = Vec::new();
        let mut row: usize = 0;
        while row < self.cells.len()
            invariant
                row <= self.cells@.len(),
                cells@.len() == row,
                forall|r: int| 0 <= r < row ==> (#[trigger] cells@[r])@ == self.cells@[r]@,
            decreases self.cells@.len() - row,
        {
            let mut line: Vec<bool> = Vec::new();
            let mut column: usize = 0;
            while column < self.cells[row].len()
                invariant
                    row < self.cells@.len(),
                    column <= self.cells@[row as int]@.len(),
                    line@ == self.cells@[row as int]@.take(column as int),
                decreases self.cells@[row as int]@.len() - column,
            {
                line.push(self.cells[row][column]);
                column += 1;
                assert(line@ =~= self.cells@[row as int]@.take(column as int));
            }
            assert(line@ =~= self.cells@[row as int]@);
            cells.push(line);
            row += 1;
        }
        let copy = Grid { cells };
        assert(copy@ =~~= self@);
        copy
    }
}

} // verus!
