use automata_sandbox::cave::{
    cave_from_rolls, count_neighbours, do_cave_generation_step, generate, initialize_cave,
    DENSITY_SCALE,
};
use automata_sandbox::grid::{Cell, ConfigurationError, Grid, Material};
use rand::rngs::StdRng;
use rand::SeedableRng;

fn materials(g: &Grid) -> Vec<Material> {
    g.cells.iter().map(|c| c.material).collect()
}

#[test]
fn same_seed_same_cave() {
    let mut a = StdRng::seed_from_u64(42);
    let mut b = StdRng::seed_from_u64(42);
    let ga = generate(50, 50, &mut a, 380, 4, 3, 4).unwrap();
    let gb = generate(50, 50, &mut b, 380, 4, 3, 4).unwrap();
    assert_eq!(ga.width(), 50);
    assert_eq!(ga.height(), 50);
    assert_eq!(materials(&ga), materials(&gb));
    assert!(ga.cells.iter().all(|c| c.mass == 0));
    assert!(ga
        .cells
        .iter()
        .all(|c| c.material == Material::Ground || c.material == Material::Empty));
}

#[test]
fn full_density_gives_solid_rock() {
    let mut rng = StdRng::seed_from_u64(7);
    let g = generate(6, 4, &mut rng, DENSITY_SCALE, 2, 3, 4).unwrap();
    assert!(g.cells.iter().all(|c| *c == Cell { material: Material::Ground, mass: 0 }));
}

#[test]
fn zero_density_leaves_only_corners() {
    let mut rng = StdRng::seed_from_u64(7);
    let g = generate(5, 5, &mut rng, 0, 1, 3, 4).unwrap();
    for y in 0..5 {
        for x in 0..5 {
            let corner = (x == 0 || x == 4) && (y == 0 || y == 4);
            let want = if corner { Material::Ground } else { Material::Empty };
            assert_eq!(g.get(x, y).material, want);
        }
    }
}

#[test]
fn generate_rejects_bad_settings() {
    let mut rng = StdRng::seed_from_u64(1);
    assert!(matches!(generate(2, 9, &mut rng, 380, 4, 3, 4), Err(ConfigurationError::TooSmall)));
    assert!(matches!(
        generate(usize::MAX, 9, &mut rng, 380, 4, 3, 4),
        Err(ConfigurationError::TooLarge)
    ));
    assert!(matches!(generate(9, 9, &mut rng, 380, 0, 3, 4), Err(ConfigurationError::NoIterations)));
    assert!(matches!(
        generate(9, 9, &mut rng, 1001, 4, 3, 4),
        Err(ConfigurationError::DensityOutOfRange)
    ));
}

#[test]
fn cave_needs_one_roll_per_cell() {
    let rolls = vec![0u32; 8];
    assert!(matches!(
        cave_from_rolls(3, 3, &rolls, 380, 1, 3, 4),
        Err(ConfigurationError::RollCount)
    ));
}

#[test]
fn cave_from_rolls_follows_the_rule() {
    // Row 0 first: a solid bottom row and one solid cell in the middle.
    let rolls = vec![0, 0, 0, 999, 0, 999, 999, 999, 999];
    let g = cave_from_rolls(3, 3, &rolls, 500, 1, 3, 4).unwrap();
    // Solid cells keep at least 3 solid neighbours. Open cells on the
    // sides see 3 outside cells and 2 solid ones, top corners 5 outside
    // cells: above the birth limit. The top middle sees 3 outside and 1
    // solid cell and stays open.
    let want = [
        Material::Ground, Material::Ground, Material::Ground,
        Material::Ground, Material::Ground, Material::Ground,
        Material::Ground, Material::Empty, Material::Ground,
    ];
    assert_eq!(materials(&g), want.to_vec());
}

#[test]
fn neighbours_count_the_outside_as_solid() {
    let map = vec![false; 9];
    assert_eq!(count_neighbours(&map, 3, 3, 0, 0), 5);
    assert_eq!(count_neighbours(&map, 3, 3, 1, 0), 3);
    assert_eq!(count_neighbours(&map, 3, 3, 1, 1), 0);
    let full = vec![true; 9];
    assert_eq!(count_neighbours(&full, 3, 3, 1, 1), 8);
    let mut one = vec![false; 9];
    one[2] = true;
    assert_eq!(count_neighbours(&one, 3, 3, 1, 1), 1);
    assert_eq!(count_neighbours(&one, 3, 3, 0, 0), 5);
}

#[test]
fn one_pass_births_and_deaths() {
    let mut map = vec![false; 16];
    map[5] = true;
    let next = do_cave_generation_step(&map, 4, 4, 3, 4);
    // The lone solid cell at (1, 1) has 0 solid neighbours: it dies. Corners
    // see 5 outside cells and are born; edges see 3 (and 4 at most with the
    // lone cell), which is not above the birth limit.
    let mut want = vec![false; 16];
    for i in [0, 3, 12, 15] {
        want[i] = true;
    }
    assert_eq!(next, want);
}

#[test]
fn initial_map_compares_rolls_with_density() {
    let rolls = vec![0, 379, 380, 999];
    assert_eq!(initialize_cave(&rolls, 380), vec![true, true, false, false]);
}
