//! The grid model: creation size, initial state, and toggling.

use cell_grid::grid::Grid;

#[test]
fn create_yields_dimension_squared_unfilled_cells() {
    for d in [1u8, 2, 4, 16, 31] {
        let g = Grid::create(d);
        assert_eq!(g.dimension(), d);
        assert_eq!(g.cell_count(), (d as usize) * (d as usize));
        for row in 0..d {
            for col in 0..d {
                assert!(!g.is_filled(row, col));
            }
        }
    }
}

#[test]
fn toggle_flips_only_the_target_cell() {
    let mut g = Grid::create(4);
    g.toggle(1, 2);
    for row in 0..4u8 {
        for col in 0..4u8 {
            assert_eq!(g.is_filled(row, col), row == 1 && col == 2);
        }
    }
}

#[test]
fn double_toggle_restores_the_cell() {
    let mut g = Grid::create(3);
    g.toggle(2, 0);
    assert!(g.is_filled(2, 0));
    g.toggle(2, 0);
    for row in 0..3u8 {
        for col in 0..3u8 {
            assert!(!g.is_filled(row, col));
        }
    }
}

#[test]
fn toggles_of_distinct_cells_are_independent() {
    let mut g = Grid::create(2);
    g.toggle(0, 0);
    g.toggle(1, 1);
    assert!(g.is_filled(0, 0));
    assert!(g.is_filled(1, 1));
    assert!(!g.is_filled(0, 1));
    assert!(!g.is_filled(1, 0));
    g.toggle(0, 0);
    assert!(!g.is_filled(0, 0));
    assert!(g.is_filled(1, 1));
}
