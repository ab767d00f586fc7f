use crate::display::{fits_pixels, scene, tiles, Tile};
use crate::grid::{seeded, Grid};
use crate::rules::{
    alive_at, cell_index, dead_grid, height_of, in_grid, lemma_next_generation_shape,
    lemma_pixel_outside_extent, next_generation, pixel_to_cell, rectangular, width_of, with_cell,
};
use vstd::prelude::*;

verus! {

/// Side of a cell in pixels.
pub const CELL_SIZE: u32 = 15;

/// Number of columns of the default grid.
pub const GRID_X_COUNT: u32 = 25;

/// Number of rows of the default grid.
pub const GRID_Y_COUNT: u32 = 20;

/// Time is counted in ticks; this many make a second.
pub const TICKS_PER_SECOND: u64 = 1_000_000;

/// Ticks between two generations by default: one second.
pub const STEP_INTERVAL: u64 = 1_000_000;

/// The simulation: the current generation, the time since the last step,
/// and where the mouse is and whether its button is held.
pub struct Application {
    grid: Grid,
    timer: u64,
    step_interval: u64,
    cell_size: u32,
    mouse_posit: Option<(usize, usize)>,
    mouse_pressed: bool,
}

/// What an `Application` holds, as plain mathematical values.
pub struct State {
    /// The current generation, as rows of cells.
    pub grid: Seq<Seq<bool>>,
    /// Ticks gathered since the last step.
    pub timer: nat,
    /// Ticks after which a step is due.
    pub step_interval: nat,
    /// Side of a cell in pixels.
    pub cell_size: nat,
    /// The cell under the mouse as `(row, column)`, if known.
    pub mouse_posit: Option<(usize, usize)>,
    /// Whether the mouse button is held.
    pub mouse_pressed: bool,
}

/// What must hold of every state: the grid is rectangular and fits the
/// pixel range, a step is not yet due, and the cell under the mouse, if
/// any, is a cell of the grid.
pub open spec fn valid(s: State) -> bool {
    &&& rectangular(s.grid)
    &&& fits_pixels(s.grid, s.cell_size as int)
    &&& s.timer < s.step_interval
    &&& match s.mouse_posit {
        Some(cell) => in_grid(s.grid, cell.0 as int, cell.1 as int),
        None => true,
    }
}

/// The state right after construction.
pub open spec fn initial(grid: Seq<Seq<bool>>, cell_size: nat, step_interval: nat) -> State {
    State { grid, timer: 0, step_interval, cell_size, mouse_posit: None, mouse_pressed: false }
}

/// Whether `dt` more ticks make a step due.
pub open spec fn step_due(s: State, dt: nat) -> bool {
    s.timer + dt >= s.step_interval
}

/// The state after `dt` ticks have passed: once a step is due the grid
/// advances by exactly one generation and the timer starts again at zero,
/// however far the threshold was passed; otherwise the ticks are added to
/// the timer.
pub open spec fn after_update(s: State, dt: nat) -> State {
    if step_due(s, dt) {
        State { grid: next_generation(s.grid), timer: 0, ..s }
    } else {
        State { timer: s.timer + dt, ..s }
    }
}

/// The grid with the given cell, if any, set alive.
pub open spec fn painted(g: Seq<Seq<bool>>, cell: Option<(usize, usize)>) -> Seq<Seq<bool>> {
    match cell {
        Some(cell) => with_cell(g, cell.0 as int, cell.1 as int, true),
        None => g,
    }
}

/// The state after the mouse button went down: the cell under the mouse,
/// if known, becomes alive.
pub open spec fn after_mouse_pressed(s: State) -> State {
    State { grid: painted(s.grid, s.mouse_posit), mouse_pressed: true, ..s }
}

/// The state after the mouse button came up: the mouse no longer marks a cell.
pub open spec fn after_mouse_released(s: State) -> State {
    State { mouse_posit: None, mouse_pressed: false, ..s }
}

/// The cell, as `(row, column)`, under the pixel position `(x, y)`.
pub open spec fn cell_under(s: State, x: int, y: int) -> (usize, usize) {
    (
        cell_index(y, s.cell_size as int, height_of(s.grid) as int) as usize,
        cell_index(x, s.cell_size as int, width_of(s.grid) as int) as usize,
    )
}

/// The state after the mouse moved to the pixel position `(x, y)`: the
/// cell there is under the mouse, and becomes alive if the button is held.
pub open spec fn after_mouse_moved(s: State, x: int, y: int) -> State {
    let cell = cell_under(s, x, y);
    State {
        grid: if s.mouse_pressed {
            painted(s.grid, Some(cell))
        } else {
            s.grid
        },
        mouse_posit: Some(cell),
        ..s
    }
}

impl View for Application {
    type V = State;

    closed spec fn view(&self) -> State {
        State {
            grid: self.grid@,
            timer: self.timer as nat,
            step_interval: self.step_interval as nat,
            cell_size: self.cell_size as nat,
            mouse_posit: self.mouse_posit,
            mouse_pressed: self.mouse_pressed,
        }
    }
}

impl Application {
    /// Whether this value is in a valid state.
    pub open spec fn wf(&self) -> bool {
        valid(self@)
    }

    /// Creates the default simulation: an empty grid of `GRID_X_COUNT` by
    /// `GRID_Y_COUNT` cells of `CELL_SIZE` pixels, stepping every
    /// `STEP_INTERVAL` ticks.
    pub fn new() -> (app: Application)
        ensures
            app.wf(),
            app@ == initial(
                dead_grid(GRID_X_COUNT as nat, GRID_Y_COUNT as nat),
                CELL_SIZE as nat,
                STEP_INTERVAL as nat,
            ),
            width_of(app@.grid) == GRID_X_COUNT,
            height_of(app@.grid) == GRID_Y_COUNT,
    {
        Application {
            grid: Grid::new(GRID_X_COUNT as usize, GRID_Y_COUNT as usize),
            timer: 0,
            step_interval: STEP_INTERVAL,
            cell_size: CELL_SIZE,
            mouse_posit: None,
            mouse_pressed: false,
        }
    }

    /// Creates a simulation of the given size, cell size and step interval
    /// whose live cells are those named in `live` as `(row, column)`, each
    /// clamped to the grid.
    pub fn with_config(
        width: usize,
        height: usize,
        cell_size: u32,
        step_interval: u64,
        live: &[(usize, usize)],
    ) -> (app: Application)
        requires
            width > 0,
            height > 0,
            cell_size > 0,
            step_interval > 0,
            width * cell_size <= u32::MAX,
            height * cell_size <= u32::MAX,
        ensures
            app.wf(),
            app@ == initial(
                seeded(live@, width as int, height as int),
                cell_size as nat,
                step_interval as nat,
            ),
            width_of(app@.grid) == width,
            height_of(app@.grid) == height,
    {
        Application {
            grid: Grid::with_cells(width, height, live),
            timer: 0,
            step_interval,
            cell_size,
            mouse_posit: None,
            mouse_pressed: false,
        }
    }

    /// Lets `dt` ticks pass. When the ticks gathered since the last step
    /// reach the step interval, the grid advances by one generation and the
    /// timer starts again at zero.
    pub fn update(&mut self, dt: u64)
        requires
            old(self).wf(),
        ensures
            final(self).wf(),
            final(self)@ == after_update(old(self)@, dt as nat),
    {
        if dt >= self.step_interval - self.timer {
            self.timer = 0;
            self.check_neighbours();
        } else {
            self.timer = self.timer + dt;
        }
    }

    /// Replaces the grid by its next generation.
    fn check_neighbours(&mut self)
        requires
            old(self).grid.wf(),
        ensures
            final(self).grid.wf(),
            final(self).grid@ == next_generation(old(self).grid@),
            width_of(final(self).grid@) == width_of(old(self).grid@),
            height_of(final(self).grid@) == height_of(old(self).grid@),
            final(self).timer == old(self).timer,
            final(self).step_interval == old(self).step_interval,
            final(self).cell_size == old(self).cell_size,
            final(self).mouse_posit == old(self).mouse_posit,
            final(self).mouse_pressed == old(self).mouse_pressed,
    {
        let new_grid = self.grid.next_generation();
        self.grid = new_grid;
    }

    /// Records that the mouse button went down, and sets the cell under
    /// the mouse alive if one is known.
    pub fn mouse_pressed(&mut self)
        requires
            old(self).wf(),
        ensures
            final(self).wf(),
            final(self)@ == after_mouse_pressed(old(self)@),
    {
        self.mouse_pressed = true;
        match self.mouse_posit {
            Some(cell) => {
                self.grid.write(cell.0, cell.1, true);
            },
            None => {},
        }
    }

    /// Records that the mouse button came up; the mouse marks no cell
    /// until it moves again.
    pub fn mouse_released(&mut self)
        requires
            old(self).wf(),
        ensures
            final(self).wf(),
            final(self)@ == after_mouse_released(old(self)@),
    {
        self.mouse_pressed = false;
        self.mouse_posit = None;
    }

    /// Records that the mouse moved to `position`, given in pixels as
    /// `[x, y]`. The position is turned into a cell and clamped to the
    /// grid; while the button is held that cell is set alive.
    pub fn mouse_moved(&mut self, position: [i64; 2])
        requires
            old(self).wf(),
        ensures
            final(self).wf(),
            final(self)@ == after_mouse_moved(old(self)@, position[0] as int, position[1] as int),
    {
        let column = pixel_to_cell(position[0], self.cell_size, self.grid.width());
        let row = pixel_to_cell(position[1], self.cell_size, self.grid.height());
        self.mouse_posit = Some((row, column));
        if self.mouse_pressed {
            self.grid.write(row, column, true);
        }
    }

    /// The grid and the cell under the mouse as `(row, column)`, for
    /// display. Nothing changes: what is returned depends on the state
    /// alone, so that two calls with no event between them return the same.
    pub fn current_state(&self) -> (state: (&Grid, Option<(usize, usize)>))
        ensures
            state.0@ == self@.grid,
            state.1 == self@.mouse_posit,
    {
        (&self.grid, self.mouse_posit)
    }

    /// Ticks gathered since the last step.
    pub fn timer(&self) -> (ticks: u64)
        ensures
            ticks == self@.timer,
    {
        self.timer
    }

    /// Whether the mouse button is held.
    pub fn is_mouse_pressed(&self) -> (held: bool)
        ensures
            held == self@.mouse_pressed,
    {
        self.mouse_pressed
    }

    /// Side of a cell in pixels.
    pub fn cell_size(&self) -> (pixels: u32)
        ensures
            pixels == self@.cell_size,
    {
        self.cell_size
    }

    /// Ticks after which a step is due.
    pub fn step_interval(&self) -> (ticks: u64)
        ensures
            ticks == self@.step_interval,
    {
        self.step_interval
    }

    /// Lists what to draw, in drawing order: one tile for each cell, row
    /// by row, then the tile of the cell under the mouse.
    pub fn render(&self) -> (list: Vec<Tile>)
        requires
            self.wf(),
        ensures
            list@ == scene(self@.grid, self@.mouse_posit, self@.cell_size as int),
    {
        tiles(&self.grid, self.mouse_posit, self.cell_size)
    }
}

/// A step keeps a valid state valid, whatever the number of ticks.
pub proof fn lemma_update_valid(s: State, dt: nat)
    requires
        valid(s),
    ensures
        valid(after_update(s, dt)),
{
    lemma_next_generation_shape(s.grid);
}

/// The mouse only ever sets cells alive: a cell that was alive before the
/// button went down, or before the mouse moved, is alive after it, and the
/// grid keeps its size.
pub proof fn lemma_mouse_never_clears(s: State, x: int, y: int, row: int, column: int)
    requires
        valid(s),
        alive_at(s.grid, row, column),
    ensures
        alive_at(after_mouse_pressed(s).grid, row, column),
        alive_at(after_mouse_moved(s, x, y).grid, row, column),
        alive_at(after_mouse_released(s).grid, row, column),
        valid(after_mouse_pressed(s)),
        valid(after_mouse_moved(s, x, y)),
        valid(after_mouse_released(s)),
{
    lemma_mouse_valid(s, x, y);
    assert(s.grid[row].len() == s.grid[0].len());
    let cell = cell_under(s, x, y);
    assert(s.grid[cell.0 as int].len() == s.grid[0].len());
    match s.mouse_posit {
        Some(at) => {
            assert(s.grid[at.0 as int].len() == s.grid[0].len());
        },
        None => {},
    }
}

/// Every mouse event keeps a valid state valid.
pub proof fn lemma_mouse_valid(s: State, x: int, y: int)
    requires
        valid(s),
    ensures
        valid(after_mouse_pressed(s)),
        valid(after_mouse_moved(s, x, y)),
        valid(after_mouse_released(s)),
{
    lemma_pixel_outside_extent(y, s.cell_size as int, height_of(s.grid) as int);
    lemma_pixel_outside_extent(x, s.cell_size as int, width_of(s.grid) as int);
    let cell = cell_under(s, x, y);
    lemma_with_cell_shape(s.grid, cell.0 as int, cell.1 as int, true);
    match s.mouse_posit {
        Some(at) => {
            lemma_with_cell_shape(s.grid, at.0 as int, at.1 as int, true);
        },
        None => {},
    }
}

/// Setting one cell keeps the shape of the grid.
pub proof fn lemma_with_cell_shape(g: Seq<Seq<bool>>, row: int, column: int, value: bool)
    requires
        rectangular(g),
        in_grid(g, row, column),
    ensures
        rectangular(with_cell(g, row, column, value)),
        width_of(with_cell(g, row, column, value)) == width_of(g),
        height_of(with_cell(g, row, column, value)) == height_of(g),
{
    let n = with_cell(g, row, column, value);
    assert forall|r: int| 0 <= r < n.len() implies (#[trigger] n[r]).len() == n[0].len() by {
        assert(g[r].len() == g[0].len());
    }
    assert(g[row].len() == g[0].len());
}

/// Ticks that together stay below the step interval cause no step; ticks
/// that reach it cause exactly one, and the timer then stands at zero
/// whatever the overshoot.
pub proof fn lemma_threshold(s: State, first: nat, second: nat)
    requires
        valid(s),
    ensures
        s.timer + first + second < s.step_interval ==> after_update(
            after_update(s, first),
            second,
        ) == (State { timer: s.timer + first + second, ..s }),
        s.timer + first < s.step_interval && s.timer + first + second >= s.step_interval
            ==> after_update(after_update(s, first), second) == (State {
            grid: next_generation(s.grid),
            timer: 0,
            ..s
        }),
{
}

/// A moved mouse at or beyond the grid's extent in pixels is over the
/// last column, or the last row; left of or above the grid it is over the
/// first.
pub proof fn lemma_mouse_clamped(s: State, x: int, y: int)
    requires
        valid(s),
    ensures
        in_grid(s.grid, cell_under(s, x, y).0 as int, cell_under(s, x, y).1 as int),
        after_mouse_moved(s, x, y).mouse_posit == Some(cell_under(s, x, y)),
        x >= width_of(s.grid) * s.cell_size ==> cell_under(s, x, y).1 == width_of(s.grid) - 1,
        y >= height_of(s.grid) * s.cell_size ==> cell_under(s, x, y).0 == height_of(s.grid) - 1,
        x < 0 ==> cell_under(s, x, y).1 == 0,
        y < 0 ==> cell_under(s, x, y).0 == 0,
{
    let w = width_of(s.grid) as int;
    let h = height_of(s.grid) as int;
    let cs = s.cell_size as int;
    lemma_pixel_outside_extent(y, cs, h);
    lemma_pixel_outside_extent(x, cs, w);
    assert(w <= u32::MAX && h <= u32::MAX) by (nonlinear_arith)
        requires
            cs > 0,
            0 < w,
            0 < h,
            w * cs <= u32::MAX,
            h * cs <= u32::MAX,
    ;
}

} // verus!
