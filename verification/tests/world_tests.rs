use life::world::Cell;
use life::world::ValidationError;
use life::world::World;

fn live_coords(w: &World, width: usize, height: usize) -> Vec<(usize, usize)> {
    let mut coords = Vec::new();
    for y in 0..height {
        for x in 0..width {
            if matches!(w.get(x, y), Cell::Live) {
                coords.push((x, y));
            }
        }
    }
    coords
}

#[test]
fn cell_weight_values() {
    assert_eq!(Cell::Live.n(), 1);
    assert_eq!(Cell::Dead.n(), 0);
}

#[test]
fn new_succeeds_with_all_cells_dead() {
    for (width, height) in [(3, 3), (3, 7), (7, 3), (40, 20)] {
        let w = World::new(width, height).unwrap();
        assert!(live_coords(&w, width, height).is_empty());
    }
}

#[test]
fn new_rejects_small_dimensions() {
    for (width, height) in [(2, 5), (5, 2), (0, 0), (2, 2), (1, 40)] {
        let r = World::new(width, height);
        assert!(matches!(r, Err(ValidationError::InvalidDimensions)));
    }
}

#[test]
fn validation_error_message() {
    let e = match World::new(1, 1) {
        Err(e) => e,
        Ok(_) => panic!("dimensions below 3 must be rejected"),
    };
    assert_eq!(e.message(), "the world cannot be smaller than 3x3");
}

#[test]
fn set_changes_only_the_one_cell() {
    let mut w = World::new(4, 4).unwrap();
    w.set(2, 1, Cell::Live);
    assert_eq!(live_coords(&w, 4, 4), vec![(2, 1)]);
    w.set(2, 1, Cell::Dead);
    assert!(live_coords(&w, 4, 4).is_empty());
}

#[test]
fn corner_wraparound_neighbor_count() {
    // Only the four corners are live: each corner of the torus is a
    // neighbor of each other corner through the wrapped edges, so the
    // count at (0, 0) must be 3 in both axes' wrap.
    let mut w = World::new(5, 4).unwrap();
    w.set(0, 0, Cell::Live);
    w.set(4, 0, Cell::Live);
    w.set(0, 3, Cell::Live);
    w.set(4, 3, Cell::Live);
    assert_eq!(w.count_neighbors(0, 0), 3);
    assert_eq!(w.count_neighbors(4, 0), 3);
    assert_eq!(w.count_neighbors(0, 3), 3);
    assert_eq!(w.count_neighbors(4, 3), 3);
    // A cell away from the corners sees none of them.
    assert_eq!(w.count_neighbors(2, 2), 0);
}

#[test]
fn neighbor_count_without_wrap() {
    let mut w = World::new(5, 5).unwrap();
    w.set(1, 1, Cell::Live);
    w.set(2, 1, Cell::Live);
    w.set(3, 1, Cell::Live);
    assert_eq!(w.count_neighbors(2, 2), 3);
    assert_eq!(w.count_neighbors(2, 1), 2);
    assert_eq!(w.count_neighbors(2, 0), 3);
    assert_eq!(w.count_neighbors(0, 1), 1);
}

/// Builds a 7x7 world whose center cell has the given state and exactly
/// `neighbors` live neighbors, advances it once, and returns the center's
/// new state.
fn advance_center(center_live: bool, neighbors: u8) -> bool {
    let mut w = World::new(7, 7).unwrap();
    let mut tmp = World::new(7, 7).unwrap();
    if center_live {
        w.set(3, 3, Cell::Live);
    }
    let spots = [
        (2, 2),
        (3, 2),
        (4, 2),
        (2, 3),
        (4, 3),
        (2, 4),
        (3, 4),
        (4, 4),
    ];
    for i in 0..neighbors as usize {
        let (x, y) = spots[i];
        w.set(x, y, Cell::Live);
    }
    w.advance(&mut tmp);
    matches!(w.get(3, 3), Cell::Live)
}

#[test]
fn rule_table_live_cells() {
    assert!(!advance_center(true, 0));
    assert!(!advance_center(true, 1));
    assert!(advance_center(true, 2));
    assert!(advance_center(true, 3));
    assert!(!advance_center(true, 4));
    assert!(!advance_center(true, 5));
    assert!(!advance_center(true, 6));
    assert!(!advance_center(true, 7));
    assert!(!advance_center(true, 8));
}

#[test]
fn rule_table_dead_cells() {
    assert!(!advance_center(false, 0));
    assert!(!advance_center(false, 1));
    assert!(!advance_center(false, 2));
    assert!(advance_center(false, 3));
    assert!(!advance_center(false, 4));
    assert!(!advance_center(false, 5));
    assert!(!advance_center(false, 6));
    assert!(!advance_center(false, 7));
    assert!(!advance_center(false, 8));
}

fn seed_glider(w: &mut World, mx: usize, my: usize) {
    w.set(mx + 1, my - 1, Cell::Live);
    w.set(mx - 1, my, Cell::Live);
    w.set(mx + 1, my, Cell::Live);
    w.set(mx, my + 1, Cell::Live);
    w.set(mx + 1, my + 1, Cell::Live);
}

#[test]
fn glider_translates_diagonally_every_four_generations() {
    let width = 40;
    let height = 20;
    let mut w = World::new(width, height).unwrap();
    let mut tmp = World::new(width, height).unwrap();
    let mx = width / 2;
    let my = height / 2;
    seed_glider(&mut w, mx, my);
    let before = live_coords(&w, width, height);
    for _ in 0..4 {
        w.advance(&mut tmp);
    }
    let mut after = live_coords(&w, width, height);
    after.sort();
    let mut translated: Vec<(usize, usize)> = before
        .iter()
        .map(|&(x, y)| ((x + 1) % width, (y + 1) % height))
        .collect();
    translated.sort();
    assert_eq!(after, translated);
}

#[test]
fn glider_crosses_the_edge_seamlessly() {
    // Seed the glider near the bottom-right corner and run long enough for
    // it to wrap: after 4 * lcm(width, height) generations it is back at
    // its seed cells.
    let width = 8;
    let height = 8;
    let mut w = World::new(width, height).unwrap();
    let mut tmp = World::new(width, height).unwrap();
    seed_glider(&mut w, 5, 5);
    let before = w.as_string();
    for _ in 0..(4 * 8) {
        w.advance(&mut tmp);
    }
    assert_eq!(w.as_string(), before);
}

#[test]
fn rendering_matches_the_grid_exactly() {
    let mut w = World::new(3, 3).unwrap();
    assert_eq!(w.as_string(), "...\n...\n...\n");
    w.set(1, 0, Cell::Live);
    w.set(2, 2, Cell::Live);
    assert_eq!(w.as_string(), ".O.\n...\n..O\n");
}

#[test]
fn rendering_twice_yields_identical_output() {
    let mut w = World::new(5, 4).unwrap();
    w.set(0, 0, Cell::Live);
    w.set(3, 2, Cell::Live);
    let s1 = w.as_string();
    let s2 = w.as_string();
    assert_eq!(s1, s2);
}

#[test]
fn all_dead_grid_is_a_stable_fixed_point() {
    let mut w = World::new(8, 5).unwrap();
    let mut tmp = World::new(8, 5).unwrap();
    let blank = w.as_string();
    for _ in 0..10 {
        w.advance(&mut tmp);
        assert_eq!(w.as_string(), blank);
    }
}

#[test]
fn scratch_contents_play_no_role() {
    // Two equal worlds advanced with differently polluted scratch buffers
    // stay equal, generation after generation.
    let width = 9;
    let height = 7;
    let mut w1 = World::new(width, height).unwrap();
    let mut w2 = World::new(width, height).unwrap();
    seed_glider(&mut w1, 4, 3);
    seed_glider(&mut w2, 4, 3);
    let mut tmp1 = World::new(width, height).unwrap();
    let mut tmp2 = World::new(width, height).unwrap();
    for y in 0..height {
        for x in 0..width {
            if (x + y) % 2 == 0 {
                tmp2.set(x, y, Cell::Live);
            }
        }
    }
    for _ in 0..6 {
        w1.advance(&mut tmp1);
        w2.advance(&mut tmp2);
        assert_eq!(w1.as_string(), w2.as_string());
    }
}
