use automata_sandbox::edit::{place, place_with_mass, EditError};
use automata_sandbox::flow::{clamp, stable_state, step, SEED_MASS};
use automata_sandbox::grid::{Cell, ConfigurationError, Grid, Material, MASS_UNIT, MAX_TOTAL_MASS};

fn cell_at(g: &Grid, x: usize, y: usize) -> Cell {
    g.get(x, y)
}

fn set(g: &mut Grid, x: usize, y: usize, material: Material, mass: u64) {
    let w = g.width();
    g.cells[y * w + x] = Cell { material, mass };
}

fn total(g: &Grid) -> u64 {
    g.total_mass_of()
}

#[test]
fn water_levels_sideways_on_ground() {
    let mut g = Grid::new(5, 5).unwrap();
    for x in 0..5 {
        set(&mut g, x, 0, Material::Ground, 0);
    }
    set(&mut g, 2, 1, Material::Water, 5 * MASS_UNIT);
    step(&mut g);
    assert_eq!(cell_at(&g, 2, 1), Cell { material: Material::Water, mass: 30_000 });
    assert_eq!(cell_at(&g, 1, 1), Cell { material: Material::Water, mass: 10_000 });
    assert_eq!(cell_at(&g, 3, 1), Cell { material: Material::Water, mass: 10_000 });
    assert!(cell_at(&g, 2, 1).mass < 5 * MASS_UNIT);
    assert_eq!(cell_at(&g, 2, 0), Cell { material: Material::Ground, mass: 0 });
    assert_eq!(cell_at(&g, 2, 2).mass, 0);
    assert_eq!(total(&g), 50_000);
}

#[test]
fn water_falls_and_spreads_in_open_air() {
    let mut g = Grid::new(5, 5).unwrap();
    set(&mut g, 2, 2, Material::Water, 30_000);
    step(&mut g);
    assert_eq!(cell_at(&g, 2, 1), Cell { material: Material::Water, mass: 10_000 });
    assert_eq!(cell_at(&g, 1, 2), Cell { material: Material::Water, mass: 6_000 });
    assert_eq!(cell_at(&g, 3, 2), Cell { material: Material::Water, mass: 6_000 });
    assert_eq!(cell_at(&g, 2, 2), Cell { material: Material::Water, mass: 8_000 });
    assert_eq!(total(&g), 30_000);
}

#[test]
fn border_swallows_what_flows_into_it() {
    let mut g = Grid::new(5, 5).unwrap();
    set(&mut g, 1, 1, Material::Water, 50_000);
    step(&mut g);
    for x in 0..5 {
        assert_eq!(cell_at(&g, x, 0).mass, 0);
        assert_eq!(cell_at(&g, x, 4).mass, 0);
    }
    for y in 0..5 {
        assert_eq!(cell_at(&g, 0, y).mass, 0);
        assert_eq!(cell_at(&g, 4, y).mass, 0);
    }
    assert_eq!(cell_at(&g, 1, 1).mass, 20_000);
    assert_eq!(cell_at(&g, 2, 1).mass, 10_000);
    // Reclassified before the sink: the ring cells that received water say so.
    assert_eq!(cell_at(&g, 1, 0), Cell { material: Material::Water, mass: 0 });
    assert_eq!(cell_at(&g, 0, 1), Cell { material: Material::Water, mass: 0 });
    assert_eq!(total(&g), 50_000 - 20_000);
}

#[test]
fn masses_stay_non_negative_over_many_ticks() {
    let mut g = Grid::new(8, 8).unwrap();
    for x in 0..8 {
        set(&mut g, x, 0, Material::Ground, 0);
    }
    set(&mut g, 3, 5, Material::Water, 200_000);
    set(&mut g, 4, 2, Material::Ground, 0);
    let mut before = total(&g);
    for _ in 0..50 {
        step(&mut g);
        let after = total(&g);
        assert!(after <= before);
        before = after;
        for y in 0..8 {
            for x in 0..8 {
                let c = cell_at(&g, x, y);
                if c.material == Material::Ground {
                    assert_eq!(c.mass, 0);
                }
            }
        }
    }
    assert_eq!(cell_at(&g, 4, 2).material, Material::Ground);
}

#[test]
fn flat_pool_is_at_rest() {
    let mut g = Grid::new(5, 5).unwrap();
    for x in 0..5 {
        set(&mut g, x, 0, Material::Ground, 0);
    }
    set(&mut g, 0, 1, Material::Ground, 0);
    set(&mut g, 4, 1, Material::Ground, 0);
    for x in 1..4 {
        set(&mut g, x, 1, Material::Water, MASS_UNIT);
    }
    let before = g.cells.clone();
    step(&mut g);
    assert_eq!(g.cells, before);
    step(&mut g);
    assert_eq!(g.cells, before);
}

#[test]
fn equal_grids_step_alike() {
    let mut a = Grid::new(6, 6).unwrap();
    set(&mut a, 2, 3, Material::Water, 70_000);
    set(&mut a, 3, 2, Material::Acid, 12_345);
    set(&mut a, 2, 1, Material::Ground, 0);
    let mut b = Grid::new(6, 6).unwrap();
    b.cells = a.cells.clone();
    for _ in 0..5 {
        step(&mut a);
        step(&mut b);
        assert_eq!(a.cells, b.cells);
    }
}

#[test]
fn acid_keeps_its_kind() {
    let mut g = Grid::new(5, 5).unwrap();
    for x in 0..5 {
        set(&mut g, x, 0, Material::Ground, 0);
    }
    set(&mut g, 2, 1, Material::Acid, 5 * MASS_UNIT);
    step(&mut g);
    assert_eq!(cell_at(&g, 2, 1).material, Material::Acid);
    assert_eq!(cell_at(&g, 1, 1).material, Material::Water);
}

#[test]
fn tiny_mass_is_empty() {
    let mut g = Grid::new(3, 3).unwrap();
    set(&mut g, 1, 1, Material::Water, 1);
    set(&mut g, 1, 0, Material::Ground, 0);
    set(&mut g, 0, 1, Material::Ground, 0);
    set(&mut g, 2, 1, Material::Ground, 0);
    set(&mut g, 1, 2, Material::Ground, 0);
    step(&mut g);
    assert_eq!(cell_at(&g, 1, 1), Cell { material: Material::Empty, mass: 1 });
}

#[test]
fn stable_state_values() {
    assert_eq!(stable_state(0), 10_000);
    assert_eq!(stable_state(10_000), 10_000);
    assert_eq!(stable_state(10_001), 99_820);
    assert_eq!(stable_state(30_000), 99_860);
    assert_eq!(stable_state(200_199), 100_199);
    assert_eq!(stable_state(200_200), 100_200);
    assert_eq!(stable_state(1_000_000), 500_100);
}

#[test]
fn clamp_values() {
    assert_eq!(clamp(5, 0, 3), 3);
    assert_eq!(clamp(0, 1, 3), 1);
    assert_eq!(clamp(2, 1, 3), 2);
    assert_eq!(clamp(7, 7, 7), 7);
}

#[test]
fn grid_too_small() {
    assert!(matches!(Grid::new(2, 5), Err(ConfigurationError::TooSmall)));
    assert!(matches!(Grid::new(5, 0), Err(ConfigurationError::TooSmall)));
    let g = Grid::new(3, 3).unwrap();
    assert_eq!(g.width(), 3);
    assert_eq!(g.height(), 3);
    assert_eq!(g.cells.len(), 9);
}

#[test]
fn grid_too_large() {
    assert!(matches!(Grid::new(usize::MAX, 3), Err(ConfigurationError::TooLarge)));
}

#[test]
fn placing_ground_stamps_a_cross() {
    let mut g = Grid::new(7, 7).unwrap();
    assert_eq!(place(&mut g, 3, 3, Material::Ground), Ok(()));
    let mut grounds = 0;
    for y in 0..7 {
        for x in 0..7 {
            if cell_at(&g, x, y).material == Material::Ground {
                grounds += 1;
            }
        }
    }
    assert_eq!(grounds, 5);
    for (x, y) in [(3, 3), (2, 3), (4, 3), (3, 2), (3, 4)] {
        assert_eq!(cell_at(&g, x, y), Cell { material: Material::Ground, mass: 0 });
    }
}

#[test]
fn placing_ground_at_a_corner_is_clipped() {
    let mut g = Grid::new(4, 4).unwrap();
    assert_eq!(place(&mut g, 0, 0, Material::Ground), Ok(()));
    let grounds = g.cells.iter().filter(|c| c.material == Material::Ground).count();
    assert_eq!(grounds, 3);
}

#[test]
fn placing_water_fills_all_but_ground() {
    let mut g = Grid::new(5, 5).unwrap();
    set(&mut g, 2, 1, Material::Ground, 0);
    assert_eq!(place(&mut g, 2, 2, Material::Water), Ok(()));
    assert_eq!(cell_at(&g, 2, 2), Cell { material: Material::Water, mass: SEED_MASS });
    assert_eq!(cell_at(&g, 1, 2), Cell { material: Material::Water, mass: SEED_MASS });
    assert_eq!(cell_at(&g, 3, 2), Cell { material: Material::Water, mass: SEED_MASS });
    assert_eq!(cell_at(&g, 2, 3), Cell { material: Material::Water, mass: SEED_MASS });
    assert_eq!(cell_at(&g, 2, 1), Cell { material: Material::Ground, mass: 0 });
    assert_eq!(total(&g), 4 * SEED_MASS);
}

#[test]
fn placing_with_mass_uses_that_mass() {
    let mut g = Grid::new(5, 5).unwrap();
    assert_eq!(place_with_mass(&mut g, 2, 2, 777), Ok(()));
    assert_eq!(cell_at(&g, 2, 2), Cell { material: Material::Water, mass: 777 });
    assert_eq!(cell_at(&g, 2, 3), Cell { material: Material::Water, mass: 777 });
    assert_eq!(total(&g), 5 * 777);
}

#[test]
fn erasing_clears_mass_only() {
    let mut g = Grid::new(5, 5).unwrap();
    assert_eq!(place(&mut g, 2, 2, Material::Water), Ok(()));
    set(&mut g, 2, 3, Material::Ground, 0);
    assert_eq!(place(&mut g, 2, 2, Material::Empty), Ok(()));
    assert_eq!(total(&g), 0);
    assert_eq!(cell_at(&g, 2, 2), Cell { material: Material::Water, mass: 0 });
    assert_eq!(cell_at(&g, 2, 3), Cell { material: Material::Ground, mass: 0 });
}

#[test]
fn placing_off_the_grid_is_refused() {
    let mut g = Grid::new(5, 5).unwrap();
    assert_eq!(place(&mut g, 5, 2, Material::Ground), Err(EditError::OutOfBounds));
    assert_eq!(place(&mut g, 2, 9, Material::Water), Err(EditError::OutOfBounds));
    assert!(g.cells.iter().all(|c| *c == Cell { material: Material::Empty, mass: 0 }));
}

#[test]
fn placing_past_the_mass_limit_is_refused() {
    let mut g = Grid::new(5, 5).unwrap();
    let per_cell = MAX_TOTAL_MASS / 5;
    assert_eq!(place_with_mass(&mut g, 2, 2, per_cell), Ok(()));
    let before = g.cells.clone();
    assert_eq!(place_with_mass(&mut g, 1, 1, per_cell), Err(EditError::MassLimit));
    assert_eq!(g.cells, before);
    assert_eq!(place_with_mass(&mut g, 2, 2, per_cell), Ok(()));
}

#[test]
fn clearing_empties_every_cell() {
    let mut g = Grid::new(4, 4).unwrap();
    assert_eq!(place(&mut g, 1, 1, Material::Water), Ok(()));
    assert_eq!(place(&mut g, 2, 2, Material::Ground), Ok(()));
    g.clear();
    assert!(g.cells.iter().all(|c| *c == Cell::empty()));
}

#[test]
fn rotation_turns_materials() {
    let mut g = Grid::new(3, 3).unwrap();
    // Ground at column 0, row 2 (top left with row 0 at the bottom).
    set(&mut g, 0, 2, Material::Ground, 0);
    set(&mut g, 1, 1, Material::Water, 500);
    g.rotate_canvas_clockwise();
    // The cell at (x, y) takes its material from (y, n - 1 - x).
    assert_eq!(cell_at(&g, 0, 0).material, Material::Ground);
    assert_eq!(cell_at(&g, 0, 2).material, Material::Empty);
    assert_eq!(cell_at(&g, 1, 1), Cell { material: Material::Water, mass: 500 });
    g.rotate_canvas_anticlockwise();
    assert_eq!(cell_at(&g, 0, 2).material, Material::Ground);
    assert_eq!(cell_at(&g, 0, 0).material, Material::Empty);
}

#[test]
fn rotation_drops_mass_under_new_ground() {
    let mut g = Grid::new(3, 3).unwrap();
    set(&mut g, 0, 2, Material::Ground, 0);
    set(&mut g, 0, 0, Material::Water, 900);
    g.rotate_canvas_clockwise();
    assert_eq!(cell_at(&g, 0, 0), Cell { material: Material::Ground, mass: 0 });
    assert_eq!(total(&g), 0);
}

#[test]
fn placing_water_on_ground_turns_the_point_to_water() {
    let mut g = Grid::new(5, 5).unwrap();
    assert_eq!(place(&mut g, 2, 2, Material::Ground), Ok(()));
    assert_eq!(place(&mut g, 2, 2, Material::Water), Ok(()));
    assert_eq!(cell_at(&g, 2, 2), Cell { material: Material::Water, mass: SEED_MASS });
    for (x, y) in [(1, 2), (3, 2), (2, 1), (2, 3)] {
        assert_eq!(cell_at(&g, x, y), Cell { material: Material::Ground, mass: 0 });
    }
    assert_eq!(total(&g), SEED_MASS);
    assert_eq!(place_with_mass(&mut g, 2, 2, 42), Ok(()));
    assert_eq!(cell_at(&g, 2, 2), Cell { material: Material::Water, mass: 42 });
}
