use conway::world::Grid;
use conway::world::get_live_neighbor_count;
use conway::world::get_updated_world;

fn grid_from(n: usize, live: &[(usize, usize)]) -> Grid {
    let live: Vec<(usize, usize)> = live.to_vec();
    Grid::from_cells(n, &live).expect("valid pattern")
}

fn alive_cells(g: &Grid) -> Vec<(usize, usize)> {
    let n = g.dim();
    let mut out: Vec<(usize, usize)> = Vec::new();
    for y in 0..n {
        for x in 0..n {
            if g.is_live(x, y) {
                out.push((x, y));
            }
        }
    }
    out
}

#[test]
fn grid_new_rejects_zero_side() {
    assert!(Grid::new(0).is_none());
}

#[test]
fn grid_new_is_all_dead() {
    let g = Grid::new(3).expect("positive side");
    assert_eq!(g.dim(), 3);
    assert!(alive_cells(&g).is_empty());
}

#[test]
fn from_cells_rejects_out_of_range() {
    assert!(Grid::from_cells(0, &vec![]).is_none());
    assert!(Grid::from_cells(2, &vec![(2, 0)]).is_none());
    assert!(Grid::from_cells(2, &vec![(0, 0), (1, 2)]).is_none());
}

#[test]
fn from_cells_sets_exactly_the_listed_cells() {
    let g = grid_from(3, &[(0, 0), (2, 1)]);
    assert_eq!(alive_cells(&g), vec![(0, 0), (2, 1)]);
}

#[test]
fn neighbor_count_exact_values() {
    // A fully live 3x3 grid: 8 around the center, 3 at a corner, 5 at an edge.
    let all: Vec<(usize, usize)> = (0..3).flat_map(|y| (0..3).map(move |x| (x, y))).collect();
    let g = Grid::from_cells(3, &all).expect("valid pattern");
    assert_eq!(get_live_neighbor_count((1, 1), &g), 8);
    assert_eq!(get_live_neighbor_count((0, 0), &g), 3);
    assert_eq!(get_live_neighbor_count((1, 0), &g), 5);
}

#[test]
fn neighbor_count_never_exceeds_eight() {
    let all: Vec<(usize, usize)> = (0..4).flat_map(|y| (0..4).map(move |x| (x, y))).collect();
    let g = Grid::from_cells(4, &all).expect("valid pattern");
    for y in 0..4 {
        for x in 0..4 {
            assert!(get_live_neighbor_count((x, y), &g) <= 8);
        }
    }
}

#[test]
fn corner_counts_no_wrapped_neighbor() {
    // Only the far corner is live: (0, 0) must count zero neighbors, not a
    // wrapped (n-1, n-1).
    let g = grid_from(3, &[(2, 2), (0, 0)]);
    assert_eq!(get_live_neighbor_count((0, 0), &g), 0);
    // Live cells along the far edges contribute nothing at (0, 0) either.
    let g = grid_from(4, &[(0, 0), (3, 0), (0, 3), (3, 3), (3, 1), (1, 3)]);
    assert_eq!(get_live_neighbor_count((0, 0), &g), 0);
}

#[test]
fn block_is_a_still_life() {
    let block = [(2, 2), (2, 3), (3, 2), (3, 3)];
    let mut g = grid_from(6, &block);
    for _ in 0..5 {
        g = get_updated_world(&g);
        assert_eq!(alive_cells(&g), vec![(2, 2), (3, 2), (2, 3), (3, 3)]);
    }
}

#[test]
fn block_scenario_one_step() {
    // Side 4, block at {(2,2),(2,3),(3,2),(3,3)}: after one step the same
    // four cells are alive and every other cell is dead.
    let g = grid_from(4, &[(2, 2), (2, 3), (3, 2), (3, 3)]);
    let next = get_updated_world(&g);
    assert_eq!(next.dim(), 4);
    assert_eq!(alive_cells(&next), vec![(2, 2), (3, 2), (2, 3), (3, 3)]);
}

#[test]
fn blinker_oscillates_with_period_two() {
    let vertical = grid_from(3, &[(1, 0), (1, 1), (1, 2)]);
    let horizontal = get_updated_world(&vertical);
    assert_eq!(alive_cells(&horizontal), vec![(0, 1), (1, 1), (2, 1)]);
    let back = get_updated_world(&horizontal);
    assert_eq!(back, vertical);
}

#[test]
fn glider_translates_after_four_steps() {
    // Glider phase 0 with origin (1, 1) on a side-8 grid; after 4 steps the
    // same shape stands with origin (2, 2).
    let phase0 = [(1, 0), (2, 1), (0, 2), (1, 2), (2, 2)];
    let start: Vec<(usize, usize)> = phase0.iter().map(|&(u, v)| (u + 1, v + 1)).collect();
    let expected: Vec<(usize, usize)> = phase0.iter().map(|&(u, v)| (u + 2, v + 2)).collect();
    let mut g = Grid::from_cells(8, &start).expect("valid pattern");
    for _ in 0..4 {
        g = get_updated_world(&g);
    }
    let expected_grid = Grid::from_cells(8, &expected).expect("valid pattern");
    assert_eq!(g, expected_grid);
}

#[test]
fn step_is_deterministic() {
    let g = grid_from(5, &[(0, 0), (1, 2), (2, 2), (3, 2), (4, 4), (2, 1)]);
    let a = get_updated_world(&g);
    let b = get_updated_world(&g);
    assert_eq!(a, b);
    let a2 = get_updated_world(&a);
    let b2 = get_updated_world(&b);
    assert_eq!(a2, b2);
}
