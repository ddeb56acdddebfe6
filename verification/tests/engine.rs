use game_of_life::cell::Cell;
use game_of_life::grid::Universe;

/// A width-by-height universe with every cell `Dead`.
fn dead_grid(width: i32, height: i32) -> Universe {
    let mut u = Universe::new();
    u.set_width(width);
    u.set_height(height);
    u
}

/// The coordinates of every `Alive` cell, in row-major order.
fn alive_coords(u: &Universe) -> Vec<(i32, i32)> {
    let mut out = Vec::new();
    for row in 0..u.height() {
        for col in 0..u.width() {
            let idx = (row * u.width() + col) as usize;
            if u.get_cells()[idx] == Cell::Alive {
                out.push((row, col));
            }
        }
    }
    out
}

#[test]
fn new_is_100_by_100() {
    let u = Universe::new();
    assert_eq!(u.width(), 100);
    assert_eq!(u.height(), 100);
    assert_eq!(u.cells().len(), 100 * 100);
}

#[test]
fn resize_reallocates_to_product_of_dimensions() {
    let mut u = Universe::new();
    u.set_width(7);
    assert_eq!(u.width(), 7);
    assert_eq!(u.height(), 100);
    assert_eq!(u.cells().len(), 700);
    u.set_height(3);
    assert_eq!(u.width(), 7);
    assert_eq!(u.height(), 3);
    assert_eq!(u.cells().len(), 21);
    assert!(u.cells().iter().all(|c| *c == Cell::Dead));
}

#[test]
fn resize_discards_prior_content() {
    let mut u = dead_grid(5, 5);
    u.toggle_cell(2, 2);
    u.set_width(5);
    assert!(u.cells().iter().all(|c| *c == Cell::Dead));
}

#[test]
fn zero_sized_grids_are_allowed() {
    let mut u = dead_grid(0, 9);
    assert_eq!(u.cells().len(), 0);
    u.set_height(0);
    u.set_width(4);
    assert_eq!(u.cells().len(), 0);
}

#[test]
fn reset_makes_every_cell_dead() {
    let mut u = Universe::new();
    u.reset_universe();
    assert_eq!(u.width(), 100);
    assert_eq!(u.height(), 100);
    assert_eq!(u.cells().len(), 100 * 100);
    assert!(u.cells().iter().all(|c| *c == Cell::Dead));
}

#[test]
fn toggle_flips_exactly_one_cell() {
    let mut u = dead_grid(5, 5);
    u.toggle_cell(2, 3);
    assert_eq!(alive_coords(&u), vec![(2, 3)]);
}

#[test]
fn toggle_twice_restores_the_grid() {
    let mut u = dead_grid(5, 5);
    u.toggle_cell(1, 4);
    let before = u.cells().clone();
    u.toggle_cell(2, 3);
    u.toggle_cell(2, 3);
    assert_eq!(u.cells(), &before);
}

#[test]
fn set_cells_marks_only_the_listed_coordinates() {
    let mut u = dead_grid(6, 4);
    u.set_cells(&[(1, 2), (3, 5), (0, 0)]);
    assert_eq!(alive_coords(&u), vec![(0, 0), (1, 2), (3, 5)]);
}

#[test]
fn neighbor_count_is_zero_on_an_empty_grid() {
    let u = dead_grid(5, 5);
    for row in 0..5 {
        for col in 0..5 {
            assert_eq!(u.live_neighbor_count(row, col), 0);
        }
    }
}

#[test]
fn neighbor_count_excludes_the_cell_itself() {
    let mut u = dead_grid(5, 5);
    u.set_cells(&[(2, 2)]);
    assert_eq!(u.live_neighbor_count(2, 2), 0);
    assert_eq!(u.live_neighbor_count(1, 1), 1);
    assert_eq!(u.live_neighbor_count(3, 2), 1);
    assert_eq!(u.live_neighbor_count(0, 2), 0);
}

#[test]
fn neighbor_count_wraps_toroidally() {
    let mut u = dead_grid(3, 3);
    u.set_cells(&[(0, 0)]);
    assert_eq!(u.live_neighbor_count(2, 2), 1);
    assert_eq!(u.live_neighbor_count(0, 2), 1);
    assert_eq!(u.live_neighbor_count(2, 0), 1);
    assert_eq!(u.live_neighbor_count(1, 1), 1);
}

#[test]
fn neighbor_count_never_exceeds_eight() {
    let mut u = dead_grid(4, 4);
    let mut all: Vec<(i32, i32)> = Vec::new();
    for row in 0..4 {
        for col in 0..4 {
            all.push((row, col));
        }
    }
    u.set_cells(&all);
    for row in 0..4 {
        for col in 0..4 {
            assert_eq!(u.live_neighbor_count(row, col), 8);
        }
    }
}

#[test]
fn lone_cell_dies_of_underpopulation() {
    let mut u = dead_grid(5, 5);
    u.set_cells(&[(2, 2)]);
    u.tick();
    assert!(u.cells().iter().all(|c| *c == Cell::Dead));
}

#[test]
fn dead_cell_with_three_neighbors_is_born() {
    let mut u = dead_grid(6, 6);
    u.set_cells(&[(1, 1), (1, 3), (3, 2)]);
    u.tick();
    // (2, 2) touches all three live cells and comes alive.
    let alive = alive_coords(&u);
    assert!(alive.contains(&(2, 2)));
}

#[test]
fn live_cell_with_four_neighbors_dies_of_overpopulation() {
    let mut u = dead_grid(7, 7);
    u.set_cells(&[(3, 3), (2, 3), (4, 3), (3, 2), (3, 4)]);
    u.tick();
    let alive = alive_coords(&u);
    assert!(!alive.contains(&(3, 3)));
}

#[test]
fn blinker_oscillates_with_period_two() {
    let mut u = dead_grid(5, 5);
    u.set_cells(&[(2, 1), (2, 2), (2, 3)]);
    u.tick();
    assert_eq!(alive_coords(&u), vec![(1, 2), (2, 2), (3, 2)]);
    u.tick();
    assert_eq!(alive_coords(&u), vec![(2, 1), (2, 2), (2, 3)]);
}

#[test]
fn block_is_a_still_life() {
    let mut u = dead_grid(6, 6);
    u.set_cells(&[(1, 1), (1, 2), (2, 1), (2, 2)]);
    let before = u.cells().clone();
    for _ in 0..5 {
        u.tick();
        assert_eq!(u.cells(), &before);
    }
}

#[test]
fn empty_grid_stays_empty() {
    let mut u = dead_grid(7, 4);
    for _ in 0..3 {
        u.tick();
        assert!(u.cells().iter().all(|c| *c == Cell::Dead));
    }
}
