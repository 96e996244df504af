use rusty_life::grid::Grid;

fn grid_with_live_cells(width: usize, height: usize, live: &[(usize, usize)]) -> Grid {
    let mut cells = vec![false; width * height];
    for &(x, y) in live {
        cells[x + y * width] = true;
    }
    Grid::from_cells(width, height, cells)
}

fn assert_live_cells(grid: &Grid, width: usize, height: usize, live: &[(usize, usize)]) {
    for y in 0..height {
        for x in 0..width {
            let expected = live.contains(&(x, y));
            assert_eq!(grid.cell_state(x, y), expected, "cell ({}, {})", x, y);
        }
    }
}

#[test]
fn from_cells_uses_row_major_indexing() {
    let grid = Grid::from_cells(2, 2, vec![true, false, false, true]);
    assert_eq!(grid.num_cells(), 4);
    assert!(grid.cell_state(0, 0));
    assert!(!grid.cell_state(1, 0));
    assert!(!grid.cell_state(0, 1));
    assert!(grid.cell_state(1, 1));
}

#[test]
fn new_produces_a_full_grid() {
    let mut rng = rand::rng();
    let grid = Grid::new(7, 3, &mut rng);
    assert_eq!(grid.num_cells(), 21);
    for y in 0..3 {
        for x in 0..7 {
            // Every cell is readable: the value is random, the storage is not.
            let _ = grid.cell_state(x, y);
        }
    }
}

#[test]
fn new_accepts_empty_dimensions() {
    let mut rng = rand::rng();
    let grid = Grid::new(0, 5, &mut rng);
    assert_eq!(grid.num_cells(), 0);
    let grid = Grid::new(4, 0, &mut rng);
    assert_eq!(grid.num_cells(), 0);
}

#[test]
fn update_preserves_dimensions() {
    let grid = grid_with_live_cells(3, 5, &[(0, 0), (2, 4), (1, 2)]);
    let next = grid.update();
    assert_eq!(next.num_cells(), 15);
    let next = next.update();
    assert_eq!(next.num_cells(), 15);
}

#[test]
fn update_is_deterministic() {
    let live = [(1, 1), (2, 1), (3, 2), (0, 3), (4, 4)];
    let a = grid_with_live_cells(5, 5, &live).update();
    let b = grid_with_live_cells(5, 5, &live).update();
    assert_eq!(a.num_cells(), b.num_cells());
    for y in 0..5 {
        for x in 0..5 {
            assert_eq!(a.cell_state(x, y), b.cell_state(x, y), "cell ({}, {})", x, y);
        }
    }
}

#[test]
fn all_dead_grid_stays_all_dead() {
    let mut grid = grid_with_live_cells(4, 4, &[]);
    for _ in 0..3 {
        grid = grid.update();
        assert_eq!(grid.num_cells(), 16);
        assert_live_cells(&grid, 4, 4, &[]);
    }
}

#[test]
fn block_is_a_still_life() {
    let block = [(1, 1), (2, 1), (1, 2), (2, 2)];
    let mut grid = grid_with_live_cells(4, 4, &block);
    for _ in 0..2 {
        grid = grid.update();
        assert_live_cells(&grid, 4, 4, &block);
    }
}

#[test]
fn blinker_oscillates_with_period_two() {
    let horizontal = [(1, 2), (2, 2), (3, 2)];
    let vertical = [(2, 1), (2, 2), (2, 3)];
    let grid = grid_with_live_cells(5, 5, &horizontal);
    let after_one = grid.update();
    assert_live_cells(&after_one, 5, 5, &vertical);
    let after_two = after_one.update();
    assert_live_cells(&after_two, 5, 5, &horizontal);
}

#[test]
fn dead_cell_with_three_live_neighbours_is_born() {
    // An L-tromino: (2, 2) is dead and touches exactly its three cells.
    let grid = grid_with_live_cells(5, 5, &[(1, 1), (2, 1), (1, 2)]);
    assert_eq!(grid.num_live_neighbours(2, 2), 3);
    assert!(grid.next_state_of_cell(2, 2));
    assert!(grid.update().cell_state(2, 2));
}

#[test]
fn dead_cell_with_two_live_neighbours_stays_dead() {
    let grid = grid_with_live_cells(5, 5, &[(1, 1), (2, 1)]);
    assert_eq!(grid.num_live_neighbours(2, 2), 2);
    assert!(!grid.next_state_of_cell(2, 2));
    assert!(!grid.update().cell_state(2, 2));
}

#[test]
fn dead_cell_with_four_live_neighbours_stays_dead() {
    let grid = grid_with_live_cells(5, 5, &[(1, 1), (2, 1), (3, 1), (1, 2)]);
    assert_eq!(grid.num_live_neighbours(2, 2), 4);
    assert!(!grid.next_state_of_cell(2, 2));
    assert!(!grid.update().cell_state(2, 2));
}

#[test]
fn live_cell_with_one_live_neighbour_dies() {
    let grid = grid_with_live_cells(5, 5, &[(2, 2), (2, 1)]);
    assert_eq!(grid.num_live_neighbours(2, 2), 1);
    assert!(!grid.next_state_of_cell(2, 2));
    assert!(!grid.update().cell_state(2, 2));
}

#[test]
fn live_cell_with_two_live_neighbours_survives() {
    let grid = grid_with_live_cells(5, 5, &[(2, 2), (1, 1), (3, 3)]);
    assert_eq!(grid.num_live_neighbours(2, 2), 2);
    assert!(grid.next_state_of_cell(2, 2));
    assert!(grid.update().cell_state(2, 2));
}

#[test]
fn live_cell_with_three_live_neighbours_survives() {
    let grid = grid_with_live_cells(5, 5, &[(2, 2), (1, 1), (3, 3), (2, 1)]);
    assert_eq!(grid.num_live_neighbours(2, 2), 3);
    assert!(grid.next_state_of_cell(2, 2));
    assert!(grid.update().cell_state(2, 2));
}

#[test]
fn live_cell_with_four_live_neighbours_dies() {
    let grid = grid_with_live_cells(5, 5, &[(2, 2), (1, 1), (3, 3), (2, 1), (2, 3)]);
    assert_eq!(grid.num_live_neighbours(2, 2), 4);
    assert!(!grid.next_state_of_cell(2, 2));
    assert!(!grid.update().cell_state(2, 2));
}

#[test]
fn neighbour_lookups_wrap_around_the_edges() {
    let grid = grid_with_live_cells(4, 4, &[(3, 0), (0, 3)]);
    // The corner cell sees a live neighbour on the opposite vertical edge
    // and one on the opposite horizontal edge.
    assert_eq!(grid.num_live_neighbours(0, 0), 2);
}

#[test]
fn wrapped_neighbours_feed_the_birth_rule() {
    // All three live cells touch (0, 0) only through wraparound.
    let grid = grid_with_live_cells(4, 4, &[(3, 0), (0, 3), (3, 3)]);
    assert_eq!(grid.num_live_neighbours(0, 0), 3);
    assert!(grid.update().cell_state(0, 0));
}

#[test]
fn next_state_of_cell_num_matches_coordinates() {
    let grid = grid_with_live_cells(5, 5, &[(1, 2), (2, 2), (3, 2)]);
    for cell_num in 0..25 {
        let x = cell_num % 5;
        let y = cell_num / 5;
        assert_eq!(
            grid.next_state_of_cell_num(cell_num),
            grid.next_state_of_cell(x, y),
            "cell index {}",
            cell_num
        );
    }
}
