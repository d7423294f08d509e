use game_of_life::{Cell, CreationError, Universe};

/// Builds a universe with exactly the given cells alive.
fn universe_from(width: u32, height: u32, live: &[(u32, u32)]) -> Universe {
    let mut draws = vec![false; (width * height) as usize];
    for &(row, col) in live {
        draws[(row * width + col) as usize] = true;
    }
    Universe::new(width, height, draws).unwrap()
}

/// The error a construction call comes back with; fails the test when the
/// call succeeds.
fn creation_error(width: u32, height: u32, draws: Vec<bool>) -> CreationError {
    match Universe::new(width, height, draws) {
        Ok(_) => panic!("construction unexpectedly succeeded"),
        Err(e) => e,
    }
}

/// Collects the coordinates of the live cells, in row-major order.
fn live_cells(u: &Universe) -> Vec<(u32, u32)> {
    let w = u.width();
    let mut live = Vec::new();
    for (i, &cell) in u.cells().iter().enumerate() {
        if cell == Cell::Alive {
            live.push((i as u32 / w, i as u32 % w));
        }
    }
    live
}

#[test]
fn construction_fills_the_whole_grid() {
    for &(w, h) in &[(1u32, 1u32), (3, 7), (16, 2), (64, 64)] {
        let n = (w * h) as usize;
        let mut draws = vec![false; n];
        for i in (0..n).step_by(3) {
            draws[i] = true;
        }
        let u = Universe::new(w, h, draws).unwrap();
        assert_eq!(u.width(), w);
        assert_eq!(u.height(), h);
        assert_eq!(u.cells().len(), n);
        assert!(u.well_formed());
    }
}

#[test]
fn all_dead_seed_yields_all_dead() {
    let u = Universe::new(5, 4, vec![false; 20]).unwrap();
    assert!(u.cells().iter().all(|&c| c == Cell::Dead));
}

#[test]
fn all_alive_seed_yields_all_alive() {
    let u = Universe::new(5, 4, vec![true; 20]).unwrap();
    assert!(u.cells().iter().all(|&c| c == Cell::Alive));
}

#[test]
fn zero_width_is_rejected() {
    assert_eq!(creation_error(0, 5, Vec::new()), CreationError::ZeroDimension);
}

#[test]
fn zero_height_is_rejected() {
    assert_eq!(creation_error(5, 0, Vec::new()), CreationError::ZeroDimension);
}

#[test]
fn short_seed_is_rejected() {
    assert_eq!(creation_error(5, 4, vec![true; 19]), CreationError::SeedLength);
}

#[test]
fn corner_neighbors_wrap_around() {
    // The eight toroidal neighbors of (0, 0) on a 4x4 grid.
    let neighbors = [
        (3u32, 3u32),
        (3, 0),
        (3, 1),
        (0, 3),
        (0, 1),
        (1, 3),
        (1, 0),
        (1, 1),
    ];
    let u = universe_from(4, 4, &neighbors);
    assert_eq!(u.live_neighbor_count(0, 0), 8);

    // A cell out of the corner's wrapped neighborhood is not counted.
    let far = universe_from(4, 4, &[(2, 2)]);
    assert_eq!(far.live_neighbor_count(0, 0), 0);
}

#[test]
fn neighbor_count_in_the_interior() {
    let u = universe_from(5, 5, &[(1, 1), (1, 2), (2, 1), (2, 2)]);
    assert_eq!(u.live_neighbor_count(1, 1), 3);
    assert_eq!(u.live_neighbor_count(0, 0), 1);
    assert_eq!(u.live_neighbor_count(1, 3), 2);
    assert_eq!(u.live_neighbor_count(4, 4), 0);
}

#[test]
fn block_is_stable() {
    let block = [(2u32, 2u32), (2, 3), (3, 2), (3, 3)];
    let mut u = universe_from(6, 6, &block);
    let before = u.cells().clone();
    u.tick();
    assert_eq!(u.cells(), &before);
}

#[test]
fn blinker_oscillates_with_period_two() {
    let horizontal = [(3u32, 2u32), (3, 3), (3, 4)];
    let vertical = [(2u32, 3u32), (3, 3), (4, 3)];
    let mut u = universe_from(7, 7, &horizontal);
    u.tick();
    assert_eq!(live_cells(&u), vertical.to_vec());
    u.tick();
    assert_eq!(live_cells(&u), horizontal.to_vec());
}

#[test]
fn tick_is_deterministic() {
    let pattern = [(0u32, 1u32), (1, 2), (2, 0), (2, 1), (2, 2)];
    let mut a = universe_from(8, 8, &pattern);
    let mut b = universe_from(8, 8, &pattern);
    for _ in 0..4 {
        a.tick();
        b.tick();
        assert_eq!(a.cells(), b.cells());
    }
}

#[test]
fn vertical_line_on_three_by_three_fills_the_torus() {
    // [Dead, Alive, Dead / Dead, Alive, Dead / Dead, Alive, Dead]: on a
    // 3x3 torus the eight neighbors of any cell are the eight other cells,
    // so every live cell sees two live neighbors and survives, and every
    // dead cell sees all three live cells and is born.
    let mut u = universe_from(3, 3, &[(0, 1), (1, 1), (2, 1)]);
    u.tick();
    assert!(u.cells().iter().all(|&c| c == Cell::Alive));
    // And with all nine cells alive, every cell has eight live neighbors
    // and dies.
    u.tick();
    assert!(u.cells().iter().all(|&c| c == Cell::Dead));
}

#[test]
fn lone_cell_on_one_by_one_torus_dies() {
    // Its eight wrapped neighbors are all the cell itself.
    let mut u = universe_from(1, 1, &[(0, 0)]);
    assert_eq!(u.live_neighbor_count(0, 0), 8);
    u.tick();
    assert_eq!(u.cells(), &vec![Cell::Dead]);
}

#[test]
fn render_draws_one_line_per_row() {
    let u = universe_from(3, 2, &[(0, 0), (1, 2)]);
    assert_eq!(u.render(), "◼◻◻\n◻◻◼\n");
}

#[test]
fn cells_view_reflects_the_tick() {
    let mut u = universe_from(4, 4, &[(1, 1)]);
    assert_eq!(u.cells()[5], Cell::Alive);
    u.tick();
    // A lone cell starves.
    assert_eq!(u.cells()[5], Cell::Dead);
    assert_eq!(live_cells(&u), Vec::new());
}
