use vstd::prelude::*;

verus! {

/// A grid as rows of cells: at least one row, at least one column, and
/// every row as long as the first.
pub open spec fn rectangular(g: Seq<Seq<bool>>) -> bool {
    &&& g.len() > 0
    &&& g[0].len() > 0
    &&& forall|r: int| 0 <= r < g.len() ==> (#[trigger] g[r]).len() == g[0].len()
}

/// Number of rows.
pub open spec fn height_of(g: Seq<Seq<bool>>) -> nat {
    g.len()
}

/// Number of columns.
pub open spec fn width_of(g: Seq<Seq<bool>>) -> nat {
    if g.len() > 0 {
        g[0].len()
    } else {
        0
    }
}

/// Whether `(row, column)` names a cell of the grid.
pub open spec fn in_grid(g: Seq<Seq<bool>>, row: int, column: int) -> bool {
    0 <= row < height_of(g) && 0 <= column < width_of(g)
}

/// Liveness at any position of the plane: positions outside the grid hold
/// no cell and count as dead.
pub open spec fn alive_at(g: Seq<Seq<bool>>, row: int, column: int) -> bool {
    in_grid(g, row, column) && g[row][column]
}

/// One for a live cell, zero otherwise.
pub open spec fn one_if(b: bool) -> nat {
    if b {
        1
    } else {
        0
    }
}

/// How many of the eight positions around `(row, column)` hold a live cell.
pub open spec fn live_neighbours(g: Seq<Seq<bool>>, row: int, column: int) -> nat {
    one_if(alive_at(g, row - 1, column - 1)) + one_if(alive_at(g, row - 1, column)) + one_if(
        alive_at(g, row - 1, column + 1),
    ) + one_if(alive_at(g, row, column - 1)) + one_if(alive_at(g, row, column + 1)) + one_if(
        alive_at(g, row + 1, column - 1),
    ) + one_if(alive_at(g, row + 1, column)) + one_if(alive_at(g, row + 1, column + 1))
}

/// How many of the eight positions around `(row, column)` lie inside the grid.
pub open spec fn neighbour_positions(g: Seq<Seq<bool>>, row: int, column: int) -> nat {
    one_if(in_grid(g, row - 1, column - 1)) + one_if(in_grid(g, row - 1, column)) + one_if(
        in_grid(g, row - 1, column + 1),
    ) + one_if(in_grid(g, row, column - 1)) + one_if(in_grid(g, row, column + 1)) + one_if(
        in_grid(g, row + 1, column - 1),
    ) + one_if(in_grid(g, row + 1, column)) + one_if(in_grid(g, row + 1, column + 1))
}

/// The fate of one cell: a live cell survives with two or three live
/// neighbours, a dead cell comes alive with exactly three.
pub open spec fn rule(alive: bool, neighbours: nat) -> bool {
    if alive {
        neighbours == 2 || neighbours == 3
    } else {
        neighbours == 3
    }
}

/// The generation that follows `g`: every cell decided from `g` alone.
pub open spec fn next_generation(g: Seq<Seq<bool>>) -> Seq<Seq<bool>> {
    Seq::new(
        g.len(),
        |r: int| Seq::new(g[r].len(), |c: int| rule(g[r][c], live_neighbours(g, r, c))),
    )
}

/// The grid after `steps` generations.
pub open spec fn generations(g: Seq<Seq<bool>>, steps: nat) -> Seq<Seq<bool>>
    decreases steps,
{
    if steps == 0 {
        g
    } else {
        next_generation(generations(g, (steps - 1) as nat))
    }
}

/// The grid of the given size with every cell dead.
pub open spec fn dead_grid(width: nat, height: nat) -> Seq<Seq<bool>> {
    Seq::new(height, |r: int| Seq::new(width, |c: int| false))
}

/// No cell of the grid is alive.
pub open spec fn all_dead(g: Seq<Seq<bool>>) -> bool {
    forall|r: int, c: int| 0 <= r < g.len() && 0 <= c < g[r].len() ==> !(#[trigger] g[r][c])
}

/// The grid with the cell at `(row, column)` set to `value`.
pub open spec fn with_cell(g: Seq<Seq<bool>>, row: int, column: int, value: bool) -> Seq<
    Seq<bool>,
> {
    g.update(row, g[row].update(column, value))
}

/// An index forced into `0..count`: below the range it becomes the first
/// index, at or beyond the end the last.
pub open spec fn clamp_index(index: int, count: int) -> int {
    if index < 0 {
        0
    } else if index >= count {
        count - 1
    } else {
        index
    }
}

/// The cell index along one axis for a pixel coordinate: the coordinate
/// divided by the cell size, rounded down, then clamped to the grid.
pub open spec fn cell_index(pixel: int, cell_size: int, count: int) -> int {
    clamp_index(pixel / cell_size, count)
}

/// Decides whether a cell lives in the next generation.
pub fn next_state(alive: bool, neighbours: u8) -> (next: bool)
    ensures
        next == rule(alive, neighbours as nat),
{
    if alive {
        neighbours == 2 || neighbours == 3
    } else {
        neighbours == 3
    }
}

/// Maps a pixel coordinate to a cell index along an axis of `count` cells,
/// each `cell_size` pixels wide. Coordinates left of the grid map to the
/// first cell, coordinates at or beyond its extent to the last.
pub fn pixel_to_cell(pixel: i64, cell_size: u32, count: usize) -> (index: usize)
    requires
        cell_size > 0,
        count > 0,
    ensures
        index == cell_index(pixel as int, cell_size as int, count as int),
        index < count,
{
    if pixel < 0 {
        assert((pixel as int) / (cell_size as int) < 0) by (nonlinear_arith)
            requires
                pixel < 0,
                cell_size > 0,
        ;
        0
    } else {
        let quotient: u64 = (pixel as u64) / (cell_size as u64);
        assert(quotient as int == (pixel as int) / (cell_size as int));
        assert(0 <= (pixel as int) / (cell_size as int)) by (nonlinear_arith)
            requires
                pixel >= 0,
                cell_size > 0,
        ;
        if quotient >= count as u64 {
            count - 1
        } else {
            quotient as usize
        }
    }
}

/// The next generation has the shape of the one before it.
pub proof fn lemma_next_generation_shape(g: Seq<Seq<bool>>)
    requires
        rectangular(g),
    ensures
        rectangular(next_generation(g)),
        height_of(next_generation(g)) == height_of(g),
        width_of(next_generation(g)) == width_of(g),
{
    let n = next_generation(g);
    assert forall|r: int| 0 <= r < n.len() implies (#[trigger] n[r]).len() == n[0].len() by {
        assert(g[r].len() == g[0].len());
    }
}

/// A cell with exactly three live neighbours is alive in the next
/// generation, whether it was alive or dead.
pub proof fn lemma_three_neighbours_alive(g: Seq<Seq<bool>>, row: int, column: int)
    requires
        rectangular(g),
        in_grid(g, row, column),
        live_neighbours(g, row, column) == 3,
    ensures
        alive_at(next_generation(g), row, column),
{
    lemma_next_generation_shape(g);
    assert(g[row].len() == g[0].len());
}

/// A live cell dies with fewer than two live neighbours, stays alive with
/// two or three, and dies with four or more.
pub proof fn lemma_live_cell_fate(g: Seq<Seq<bool>>, row: int, column: int)
    requires
        rectangular(g),
        in_grid(g, row, column),
        alive_at(g, row, column),
    ensures
        live_neighbours(g, row, column) <= 1 ==> !alive_at(next_generation(g), row, column),
        2 <= live_neighbours(g, row, column) <= 3 ==> alive_at(next_generation(g), row, column),
        live_neighbours(g, row, column) >= 4 ==> !alive_at(next_generation(g), row, column),
{
    lemma_next_generation_shape(g);
    assert(g[row].len() == g[0].len());
}

/// A dead cell comes alive with exactly three live neighbours and stays
/// dead with any other number.
pub proof fn lemma_dead_cell_fate(g: Seq<Seq<bool>>, row: int, column: int)
    requires
        rectangular(g),
        in_grid(g, row, column),
        !alive_at(g, row, column),
    ensures
        alive_at(next_generation(g), row, column) <==> live_neighbours(g, row, column) == 3,
{
    lemma_next_generation_shape(g);
    assert(g[row].len() == g[0].len());
}

/// A grid with no live cell has none after any number of generations.
pub proof fn lemma_dead_grid_stays_dead(g: Seq<Seq<bool>>, steps: nat)
    requires
        rectangular(g),
        all_dead(g),
    ensures
        rectangular(generations(g, steps)),
        all_dead(generations(g, steps)),
        generations(g, steps) == g,
    decreases steps,
{
    if steps > 0 {
        lemma_dead_grid_stays_dead(g, (steps - 1) as nat);
        lemma_next_generation_shape(g);
        let n = next_generation(g);
        assert forall|r: int| 0 <= r < g.len() implies #[trigger] n[r] == g[r] by {
            assert forall|c: int| 0 <= c < g[r].len() implies n[r][c] == g[r][c] by {
                lemma_no_live_neighbours(g, r, c);
                assert(!g[r][c]);
            }
            assert(n[r] =~= g[r]);
        }
        assert(n =~= g);
    }
}

/// In a grid with no live cell, no cell has a live neighbour.
pub proof fn lemma_no_live_neighbours(g: Seq<Seq<bool>>, row: int, column: int)
    requires
        rectangular(g),
        all_dead(g),
    ensures
        live_neighbours(g, row, column) == 0,
{
    assert forall|r: int, c: int| !alive_at(g, r, c) by {
        if in_grid(g, r, c) {
            assert(g[r].len() == g[0].len());
            assert(!g[r][c]);
        }
    }
}

/// Only positions inside the grid count as neighbours: a corner cell has
/// at most three live neighbours, a cell on an edge at most five, any cell
/// at most eight.
pub proof fn lemma_neighbours_inside_grid(g: Seq<Seq<bool>>, row: int, column: int)
    requires
        rectangular(g),
        in_grid(g, row, column),
    ensures
        live_neighbours(g, row, column) <= neighbour_positions(g, row, column),
        neighbour_positions(g, row, column) <= 8,
        (row == 0 || row == height_of(g) - 1) && (column == 0 || column == width_of(g) - 1)
            ==> neighbour_positions(g, row, column) <= 3,
        (row == 0 || row == height_of(g) - 1 || column == 0 || column == width_of(g) - 1)
            ==> neighbour_positions(g, row, column) <= 5,
{
}

/// A pixel coordinate at or beyond the grid's extent along an axis maps to
/// the last cell of that axis, and a negative one to the first.
pub proof fn lemma_pixel_outside_extent(pixel: int, cell_size: int, count: int)
    requires
        cell_size > 0,
        count > 0,
    ensures
        pixel >= count * cell_size ==> cell_index(pixel, cell_size, count) == count - 1,
        pixel < 0 ==> cell_index(pixel, cell_size, count) == 0,
        0 <= cell_index(pixel, cell_size, count) < count,
{
    if pixel >= count * cell_size {
        assert(pixel / cell_size >= count) by (nonlinear_arith)
            requires
                pixel >= count * cell_size,
                cell_size > 0,
        ;
    }
    if pixel < 0 {
        assert(pixel / cell_size < 0) by (nonlinear_arith)
            requires
                pixel < 0,
                cell_size > 0,
        ;
    }
}

/// A pixel coordinate inside the grid's extent maps to the cell that
/// contains it.
pub proof fn lemma_pixel_inside_extent(pixel: int, cell_size: int, count: int)
    requires
        cell_size > 0,
        count > 0,
        0 <= pixel < count * cell_size,
    ensures
        cell_index(pixel, cell_size, count) == pixel / cell_size,
        cell_index(pixel, cell_size, count) * cell_size <= pixel < (cell_index(
            pixel,
            cell_size,
            count,
        ) + 1) * cell_size,
{
    let q = pixel / cell_size;
    assert(0 <= q < count && q * cell_size <= pixel < (q + 1) * cell_size) by (nonlinear_arith)
        requires
            q == pixel / cell_size,
            0 <= pixel < count * cell_size,
            cell_size > 0,
            count > 0,
    ;
}

} // verus!
