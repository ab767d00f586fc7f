use life::grid::Grid;
use life::rules::{next_state, pixel_to_cell};

fn live_cells(grid: &Grid) -> Vec<(usize, usize)> {
    let mut cells = Vec::new();
    for row in 0..grid.height() {
        for column in 0..grid.width() {
            if grid.read(row, column) {
                cells.push((row, column));
            }
        }
    }
    cells
}

fn full_grid(width: usize, height: usize) -> Grid {
    let mut grid = Grid::new(width, height);
    for row in 0..height {
        for column in 0..width {
            grid.write(row, column, true);
        }
    }
    grid
}

#[test]
fn new_grid_is_dead_and_has_its_size() {
    let grid = Grid::new(25, 20);
    assert_eq!(grid.width(), 25);
    assert_eq!(grid.height(), 20);
    assert_eq!(live_cells(&grid), vec![]);
}

#[test]
fn smallest_grid_has_one_cell() {
    let mut grid = Grid::new(1, 1);
    assert_eq!(grid.width(), 1);
    assert_eq!(grid.height(), 1);
    assert!(!grid.read(0, 0));
    assert_eq!(grid.live_neighbours(0, 0), 0);
    grid.write(0, 0, true);
    assert_eq!(grid.live_neighbours(0, 0), 0);
    let next = grid.next_generation();
    assert!(!next.read(0, 0));
}

#[test]
fn write_sets_one_cell_only() {
    let mut grid = Grid::new(4, 3);
    grid.write(2, 3, true);
    assert!(grid.read(2, 3));
    assert_eq!(live_cells(&grid), vec![(2, 3)]);
    grid.write(0, 1, true);
    assert_eq!(live_cells(&grid), vec![(0, 1), (2, 3)]);
    grid.write(2, 3, false);
    assert_eq!(live_cells(&grid), vec![(0, 1)]);
    assert_eq!(grid.width(), 4);
    assert_eq!(grid.height(), 3);
}

#[test]
fn clone_is_an_independent_copy() {
    let mut grid = Grid::new(5, 5);
    grid.write(1, 2, true);
    grid.write(4, 0, true);
    let mut copy = grid.clone();
    assert_eq!(copy.width(), 5);
    assert_eq!(copy.height(), 5);
    assert_eq!(live_cells(&copy), vec![(1, 2), (4, 0)]);
    copy.write(3, 3, true);
    copy.write(1, 2, false);
    assert_eq!(live_cells(&grid), vec![(1, 2), (4, 0)]);
    assert_eq!(live_cells(&copy), vec![(3, 3), (4, 0)]);
}

#[test]
fn with_cells_seeds_the_named_cells() {
    let grid = Grid::with_cells(6, 4, &[(1, 2), (3, 5), (1, 2), (0, 0)]);
    assert_eq!(grid.width(), 6);
    assert_eq!(grid.height(), 4);
    assert_eq!(live_cells(&grid), vec![(0, 0), (1, 2), (3, 5)]);
}

#[test]
fn with_cells_without_seeds_is_dead() {
    let grid = Grid::with_cells(3, 2, &[]);
    assert_eq!(live_cells(&grid), vec![]);
}

#[test]
fn with_cells_clamps_to_the_last_row_and_column() {
    let grid = Grid::with_cells(6, 4, &[(4, 1), (2, 6), (100, 100), (usize::MAX, 0)]);
    assert_eq!(live_cells(&grid), vec![(2, 5), (3, 0), (3, 1), (3, 5)]);
}

#[test]
fn neighbours_of_a_lone_corner_cell() {
    let grid = Grid::with_cells(5, 5, &[(0, 0)]);
    assert_eq!(grid.live_neighbours(0, 0), 0);
    assert_eq!(grid.live_neighbours(0, 1), 1);
    assert_eq!(grid.live_neighbours(1, 0), 1);
    assert_eq!(grid.live_neighbours(1, 1), 1);
    assert_eq!(grid.live_neighbours(2, 2), 0);
    assert_eq!(grid.live_neighbours(4, 4), 0);
    assert_eq!(grid.live_neighbours(0, 4), 0);
    assert_eq!(grid.live_neighbours(4, 0), 0);
}

#[test]
fn neighbours_never_reach_outside_the_grid() {
    let grid = full_grid(4, 3);
    assert_eq!(grid.live_neighbours(0, 0), 3);
    assert_eq!(grid.live_neighbours(0, 3), 3);
    assert_eq!(grid.live_neighbours(2, 0), 3);
    assert_eq!(grid.live_neighbours(2, 3), 3);
    assert_eq!(grid.live_neighbours(0, 1), 5);
    assert_eq!(grid.live_neighbours(2, 2), 5);
    assert_eq!(grid.live_neighbours(1, 0), 5);
    assert_eq!(grid.live_neighbours(1, 3), 5);
    assert_eq!(grid.live_neighbours(1, 1), 8);
    assert_eq!(grid.live_neighbours(1, 2), 8);
}

#[test]
fn neighbours_in_a_single_row_and_a_single_column() {
    let row = full_grid(3, 1);
    assert_eq!(row.live_neighbours(0, 0), 1);
    assert_eq!(row.live_neighbours(0, 1), 2);
    assert_eq!(row.live_neighbours(0, 2), 1);
    let column = full_grid(1, 3);
    assert_eq!(column.live_neighbours(0, 0), 1);
    assert_eq!(column.live_neighbours(1, 0), 2);
    assert_eq!(column.live_neighbours(2, 0), 1);
}

#[test]
fn neighbours_count_each_of_the_eight_positions() {
    let around = [(0, 0), (0, 1), (0, 2), (1, 0), (1, 2), (2, 0), (2, 1), (2, 2)];
    for position in around.iter() {
        let grid = Grid::with_cells(3, 3, &[*position]);
        assert_eq!(grid.live_neighbours(1, 1), 1);
    }
    let centre = Grid::with_cells(3, 3, &[(1, 1)]);
    assert_eq!(centre.live_neighbours(1, 1), 0);
    let all = Grid::with_cells(3, 3, &around);
    assert_eq!(all.live_neighbours(1, 1), 8);
}

#[test]
fn rule_for_a_live_cell() {
    assert!(!next_state(true, 0));
    assert!(!next_state(true, 1));
    assert!(next_state(true, 2));
    assert!(next_state(true, 3));
    assert!(!next_state(true, 4));
    assert!(!next_state(true, 5));
    assert!(!next_state(true, 6));
    assert!(!next_state(true, 7));
    assert!(!next_state(true, 8));
}

#[test]
fn rule_for_a_dead_cell() {
    assert!(!next_state(false, 0));
    assert!(!next_state(false, 1));
    assert!(!next_state(false, 2));
    assert!(next_state(false, 3));
    assert!(!next_state(false, 4));
    assert!(!next_state(false, 5));
    assert!(!next_state(false, 6));
    assert!(!next_state(false, 7));
    assert!(!next_state(false, 8));
}

#[test]
fn three_neighbours_give_life_to_dead_and_live_cells() {
    let dead_centre = Grid::with_cells(3, 3, &[(0, 0), (0, 2), (2, 1)]);
    assert_eq!(dead_centre.live_neighbours(1, 1), 3);
    assert!(dead_centre.next_generation().read(1, 1));
    let live_centre = Grid::with_cells(3, 3, &[(0, 0), (0, 2), (2, 1), (1, 1)]);
    assert_eq!(live_centre.live_neighbours(1, 1), 3);
    assert!(live_centre.next_generation().read(1, 1));
}

#[test]
fn live_cell_dies_alone_and_in_a_crowd() {
    let alone = Grid::with_cells(3, 3, &[(1, 1)]);
    assert!(!alone.next_generation().read(1, 1));
    let one = Grid::with_cells(3, 3, &[(1, 1), (0, 0)]);
    assert!(!one.next_generation().read(1, 1));
    let two = Grid::with_cells(3, 3, &[(1, 1), (0, 0), (2, 2)]);
    assert!(two.next_generation().read(1, 1));
    let four = Grid::with_cells(3, 3, &[(1, 1), (0, 0), (2, 2), (0, 2), (2, 0)]);
    assert!(!four.next_generation().read(1, 1));
    let eight = full_grid(3, 3);
    assert!(!eight.next_generation().read(1, 1));
}

#[test]
fn dead_cell_needs_exactly_three() {
    let two = Grid::with_cells(3, 3, &[(0, 0), (2, 2)]);
    assert!(!two.next_generation().read(1, 1));
    let four = Grid::with_cells(3, 3, &[(0, 0), (2, 2), (0, 2), (2, 0)]);
    assert!(!four.next_generation().read(1, 1));
}

#[test]
fn dead_grid_stays_dead() {
    let mut grid = Grid::new(7, 5);
    for _ in 0..10 {
        grid = grid.next_generation();
        assert_eq!(grid.width(), 7);
        assert_eq!(grid.height(), 5);
        assert_eq!(live_cells(&grid), vec![]);
    }
}

#[test]
fn next_generation_leaves_the_grid_untouched() {
    let grid = Grid::with_cells(5, 5, &[(2, 1), (2, 2), (2, 3)]);
    let next = grid.next_generation();
    assert_eq!(live_cells(&grid), vec![(2, 1), (2, 2), (2, 3)]);
    assert_eq!(live_cells(&next), vec![(1, 2), (2, 2), (3, 2)]);
}

#[test]
fn block_is_still() {
    let grid = Grid::with_cells(4, 4, &[(1, 1), (1, 2), (2, 1), (2, 2)]);
    let next = grid.next_generation();
    assert_eq!(live_cells(&next), vec![(1, 1), (1, 2), (2, 1), (2, 2)]);
}

#[test]
fn glider_moves_without_order_dependence() {
    let grid = Grid::with_cells(6, 6, &[(0, 1), (1, 2), (2, 0), (2, 1), (2, 2)]);
    let next = grid.next_generation();
    assert_eq!(live_cells(&next), vec![(1, 0), (1, 2), (2, 1), (2, 2), (3, 1)]);
}

#[test]
fn blinker_at_the_edge_is_cut_off() {
    let grid = Grid::with_cells(3, 3, &[(0, 0), (0, 1), (0, 2)]);
    let next = grid.next_generation();
    assert_eq!(live_cells(&next), vec![(0, 1), (1, 1)]);
}

#[test]
fn pixel_to_cell_divides_and_rounds_down() {
    assert_eq!(pixel_to_cell(0, 15, 25), 0);
    assert_eq!(pixel_to_cell(14, 15, 25), 0);
    assert_eq!(pixel_to_cell(15, 15, 25), 1);
    assert_eq!(pixel_to_cell(29, 15, 25), 1);
    assert_eq!(pixel_to_cell(30, 15, 25), 2);
    assert_eq!(pixel_to_cell(359, 15, 25), 23);
    assert_eq!(pixel_to_cell(360, 15, 25), 24);
    assert_eq!(pixel_to_cell(374, 15, 25), 24);
    assert_eq!(pixel_to_cell(7, 1, 10), 7);
}

#[test]
fn pixel_to_cell_clamps_to_the_grid() {
    assert_eq!(pixel_to_cell(375, 15, 25), 24);
    assert_eq!(pixel_to_cell(376, 15, 25), 24);
    assert_eq!(pixel_to_cell(100_000, 15, 25), 24);
    assert_eq!(pixel_to_cell(i64::MAX, 15, 25), 24);
    assert_eq!(pixel_to_cell(i64::MAX, 1, usize::MAX), i64::MAX as usize);
    assert_eq!(pixel_to_cell(-1, 15, 25), 0);
    assert_eq!(pixel_to_cell(-15, 15, 25), 0);
    assert_eq!(pixel_to_cell(-16, 15, 25), 0);
    assert_eq!(pixel_to_cell(i64::MIN, 15, 25), 0);
    assert_eq!(pixel_to_cell(300, 15, 20), 19);
    assert_eq!(pixel_to_cell(5, 15, 1), 0);
    assert_eq!(pixel_to_cell(500, 15, 1), 0);
}
