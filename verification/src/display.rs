use crate::grid::Grid;
use crate::rules::{height_of, in_grid, rectangular, width_of};
use vstd::arithmetic::div_mod::lemma_fundamental_div_mod_converse;
use vstd::prelude::*;

verus! {

/// What a tile shows.
#[derive(Clone, Copy, Debug, PartialEq, Eq, Structural)]
pub enum TileKind {
    /// A dead cell.
    Dead,
    /// A live cell.
    Alive,
    /// The cell under the mouse.
    Cursor,
}

/// A square to draw: its top-left corner in pixels, the length of its
/// side, and what it shows.
#[derive(Clone, Copy, Debug, PartialEq, Eq, Structural)]
pub struct Tile {
    pub x: u32,
    pub y: u32,
    pub side: u32,
    pub kind: TileKind,
}

/// Whether a grid of cells of the given size fits the pixel range.
pub open spec fn fits_pixels(g: Seq<Seq<bool>>, cell_size: int) -> bool {
    &&& cell_size > 0
    &&& width_of(g) * cell_size <= u32::MAX
    &&& height_of(g) * cell_size <= u32::MAX
}

/// The square that covers the cell at `(row, column)`, one pixel short of
/// the next cell on each axis.
pub open spec fn square_at(row: int, column: int, cell_size: int, kind: TileKind) -> Tile {
    Tile {
        x: (column * cell_size) as u32,
        y: (row * cell_size) as u32,
        side: (cell_size - 1) as u32,
        kind,
    }
}

/// The tile of the cell at `(row, column)`.
pub open spec fn cell_tile(g: Seq<Seq<bool>>, row: int, column: int, cell_size: int) -> Tile {
    square_at(
        row,
        column,
        cell_size,
        if g[row][column] {
            TileKind::Alive
        } else {
            TileKind::Dead
        },
    )
}

/// One tile for each cell, row by row from the top, each row from the left.
pub open spec fn grid_tiles(g: Seq<Seq<bool>>, cell_size: int) -> Seq<Tile> {
    Seq::new(
        height_of(g) * width_of(g),
        |i: int| cell_tile(g, i / (width_of(g) as int), i % (width_of(g) as int), cell_size),
    )
}

/// The tile that marks the cell under the mouse, if there is one.
pub open spec fn cursor_tiles(mouse: Option<(usize, usize)>, cell_size: int) -> Seq<Tile> {
    match mouse {
        Some(cell) => seq![square_at(cell.0 as int, cell.1 as int, cell_size, TileKind::Cursor)],
        None => Seq::empty(),
    }
}

/// Everything to draw, in drawing order: the cells, then the cursor on top.
pub open spec fn scene(g: Seq<Seq<bool>>, mouse: Option<(usize, usize)>, cell_size: int) -> Seq<
    Tile,
> {
    grid_tiles(g, cell_size) + cursor_tiles(mouse, cell_size)
}

/// Computes the square that covers the cell at `(row, column)`.
fn square(row: usize, column: usize, cell_size: u32, kind: TileKind) -> (tile: Tile)
    requires
        cell_size > 0,
        (row + 1) * cell_size <= u32::MAX,
        (column + 1) * cell_size <= u32::MAX,
    ensures
        tile == square_at(row as int, column as int, cell_size as int, kind),
{
    assert(row * cell_size <= u32::MAX && row <= u32::MAX && column * cell_size <= u32::MAX
        && column <= u32::MAX) by (nonlinear_arith)
        requires
            cell_size > 0,
            (row + 1) * cell_size <= u32::MAX,
            (column + 1) * cell_size <= u32::MAX,
    ;
    Tile {
        x: (column as u32) * cell_size,
        y: (row as u32) * cell_size,
        side: cell_size - 1,
        kind,
    }
}

/// Lists the tiles that show a grid and the cell under the mouse: one
/// tile per cell in row-major order, then the cursor tile if the mouse is
/// over a cell.
pub fn tiles(grid: &Grid, mouse: Option<(usize, usize)>, cell_size: u32) -> (list: Vec<Tile>)
    requires
        grid.wf(),
        fits_pixels(grid@, cell_size as int),
        mouse matches Some(cell) ==> in_grid(grid@, cell.0 as int, cell.1 as int),
    ensures
        list@ == scene(grid@, mouse, cell_size as int),
        list@.len() == height_of(grid@) * width_of(grid@) + (if mouse is Some {
            1nat
        } else {
            0nat
        }),
{
    let height = grid.height();
    let width = grid.width();
    let ghost g = grid@;
    let ghost w = width as int;
    let ghost cs = cell_size as int;
    let mut list: Vec<Tile> = Vec::new();
    let mut row: usize = 0;
    while row < height
        invariant
            grid.wf(),
            g == grid@,
            w == width,
            cs == cell_size,
            fits_pixels(g, cs),
            height == height_of(g),
            width == width_of(g),
            row <= height,
            list@.len() == row * w,
            forall|i: int| 0 <= i < list@.len() ==> #[trigger] list@[i] == cell_tile(g, i / w, i % w, cs),
        decreases height - row,
    {
        let mut column: usize = 0;
        while column < width
            invariant
                grid.wf(),
                g == grid@,
                w == width,
                cs == cell_size,
                fits_pixels(g, cs),
                height == height_of(g),
                width == width_of(g),
                row < height,
                column <= width,
                list@.len() == row * w + column,
                forall|i: int| 0 <= i < list@.len() ==> #[trigger] list@[i] == cell_tile(g, i / w, i % w, cs),
            decreases width - column,
        {
            let kind = if grid.read(row, column) {
                TileKind::Alive
            } else {
                TileKind::Dead
            };
            proof {
                lemma_cell_inside_pixels(row as int, column as int, height as int, w, cs);
                lemma_fundamental_div_mod_converse(row * w + column, w, row as int, column as int);
            }
            list.push(square(row, column, cell_size, kind));
            column += 1;
        }
        assert((row + 1) * w == row * w + w) by (nonlinear_arith);
        row += 1;
    }
    assert(list@ =~= grid_tiles(g, cs)) by {
        assert(height * w == height_of(g) * width_of(g));
    }
    match mouse {
        Some(cell) => {
            proof {
                lemma_cell_inside_pixels(cell.0 as int, cell.1 as int, height as int, w, cs);
            }
            list.push(square(cell.0, cell.1, cell_size, TileKind::Cursor));
        },
        None => {},
    }
    assert(list@ =~= scene(g, mouse, cs));
    list
}

/// The square of a cell inside the grid lies inside the grid's pixel extent.
proof fn lemma_cell_inside_pixels(row: int, column: int, height: int, width: int, cell_size: int)
    requires
        0 <= row < height,
        0 <= column < width,
        cell_size > 0,
    ensures
        (row + 1) * cell_size <= height * cell_size,
        (column + 1) * cell_size <= width * cell_size,
{
    assert((row + 1) * cell_size <= height * cell_size) by (nonlinear_arith)
        requires
            row + 1 <= height,
            cell_size > 0,
    ;
    assert((column + 1) * cell_size <= width * cell_size) by (nonlinear_arith)
        requires
            column + 1 <= width,
            cell_size > 0,
    ;
}

/// The tile of the cell at `(row, column)` stands at index
/// `row * width + column` of the grid's tiles.
pub proof fn lemma_tile_of_cell(g: Seq<Seq<bool>>, row: int, column: int, cell_size: int)
    requires
        rectangular(g),
        in_grid(g, row, column),
    ensures
        0 <= row * width_of(g) + column < grid_tiles(g, cell_size).len(),
        grid_tiles(g, cell_size)[row * width_of(g) + column] == cell_tile(
            g,
            row,
            column,
            cell_size,
        ),
{
    let w = width_of(g) as int;
    let h = height_of(g) as int;
    lemma_fundamental_div_mod_converse(row * w + column, w, row, column);
    assert(0 <= row * w + column < h * w) by (nonlinear_arith)
        requires
            0 <= row < h,
            0 <= column < w,
    ;
}

} // verus!
