//! Cave terrain from a birth and death cellular automaton over a solid map.

use crate::grid::{
    lemma_index,
    lemma_index_bounds,
    mass_sum,
    Cell,
    ConfigurationError,
    Grid,
    Material,
};
use rand::rngs::StdRng;
use rand::Rng;
use vstd::prelude::*;

verus! {

/// Densities and rolls are counted in parts per thousand.
pub const DENSITY_SCALE: u32 = 1000;

/// Relies on rand's `StdRng`, the seedable generator the rolls are drawn
/// from; it is carried through unopened.
#[verifier::external_type_specification]
#[verifier::external_body]
pub struct ExStdRng(StdRng);

/// Relies on rand's `Rng::gen_range` over `0..bound`: a value below `bound`.
/// It panics on an empty range, which `bound > 0` rules out.
#[verifier::external_body]
fn roll_below(rng: &mut StdRng, bound: u32) -> (r: u32)
    requires
        bound > 0,
    ensures
        r < bound,
{
    rng.gen_range(0..bound)
}

/// The cell at column `x`, row `y` of a `w` by `h` map is solid; everything
/// off the map counts as solid.
pub open spec fn solid_at(map: Seq<bool>, w: int, h: int, x: int, y: int) -> bool {
    x < 0 || y < 0 || x >= w || y >= h || map[y * w + x]
}

/// Solid cells among the first `k` of the 3x3 block around `(x, y)`, read row
/// by row from its lower left corner, the centre left out.
pub open spec fn neighbours_upto(map: Seq<bool>, w: int, h: int, x: int, y: int, k: int) -> int
    decreases k,
{
    if k <= 0 {
        0
    } else {
        neighbours_upto(map, w, h, x, y, k - 1) + if k - 1 != 4 && solid_at(
            map,
            w,
            h,
            x + (k - 1) % 3 - 1,
            y + (k - 1) / 3 - 1,
        ) {
            1int
        } else {
            0int
        }
    }
}

/// Solid cells among the eight around `(x, y)`.
pub open spec fn solid_neighbours(map: Seq<bool>, w: int, h: int, x: int, y: int) -> int {
    neighbours_upto(map, w, h, x, y, 9)
}

/// A solid cell stays solid with at least `death` solid neighbours; an open
/// one turns solid with more than `birth`.
pub open spec fn cave_rule(solid: bool, n: int, death: int, birth: int) -> bool {
    if solid {
        n >= death
    } else {
        n > birth
    }
}

/// One synchronous pass of the rule over the whole map.
pub open spec fn smoothed(map: Seq<bool>, w: int, h: int, death: int, birth: int) -> Seq<bool> {
    Seq::new(
        map.len(),
        |i: int| cave_rule(map[i], solid_neighbours(map, w, h, i % w, i / w), death, birth),
    )
}

pub open spec fn smoothed_times(
    map: Seq<bool>,
    w: int,
    h: int,
    death: int,
    birth: int,
    k: nat,
) -> Seq<bool>
    decreases k,
{
    if k == 0 {
        map
    } else {
        smoothed(smoothed_times(map, w, h, death, birth, (k - 1) as nat), w, h, death, birth)
    }
}

/// The starting map: a cell is solid when its roll falls below the density.
pub open spec fn seeded(rolls: Seq<u32>, density: u32) -> Seq<bool> {
    Seq::new(rolls.len(), |i: int| rolls[i] < density)
}

/// The solid map that the rolls give after `iterations` passes.
pub open spec fn cave_map(
    rolls: Seq<u32>,
    w: int,
    h: int,
    density: u32,
    iterations: nat,
    death: int,
    birth: int,
) -> Seq<bool> {
    smoothed_times(seeded(rolls, density), w, h, death, birth, iterations)
}

/// Solid cells become ground, open ones empty, all without mass.
pub open spec fn terrain(map: Seq<bool>) -> Seq<Cell> {
    Seq::new(
        map.len(),
        |i: int|
            Cell {
                material: if map[i] {
                    Material::Ground
                } else {
                    Material::Empty
                },
                mass: 0,
            },
    )
}

/// The error, if any, for a cave of this shape and these settings.
pub open spec fn cave_config_error(width: usize, height: usize, density: u32, iterations: u32) -> Option<
    ConfigurationError,
> {
    if width < 3 || height < 3 {
        Some(ConfigurationError::TooSmall)
    } else if width * height > usize::MAX {
        Some(ConfigurationError::TooLarge)
    } else if iterations == 0 {
        Some(ConfigurationError::NoIterations)
    } else if density > DENSITY_SCALE {
        Some(ConfigurationError::DensityOutOfRange)
    } else {
        None
    }
}

fn check_cave_config(width: usize, height: usize, density: u32, iterations: u32) -> (r: Result<
    usize,
    ConfigurationError,
>)
    ensures
        match cave_config_error(width, height, density, iterations) {
            Some(e) => r == Err::<usize, _>(e),
            None => r == Ok::<usize, ConfigurationError>((width * height) as usize),
        },
{
    if width < 3 || height < 3 {
        return Err(ConfigurationError::TooSmall);
    }
    let n = match width.checked_mul(height) {
        Some(n) => n,
        None => {
            return Err(ConfigurationError::TooLarge);
        },
    };
    if iterations == 0 {
        return Err(ConfigurationError::NoIterations);
    }
    if density > DENSITY_SCALE {
        return Err(ConfigurationError::DensityOutOfRange);
    }
    Ok(n)
}

/// Whether the cell at offset `(dx - 1, dy - 1)` from `(x, y)` is solid.
fn is_solid(map: &Vec<bool>, w: usize, h: usize, x: usize, y: usize, dx: usize, dy: usize) -> (r:
    bool)
    requires
        map@.len() == w * h,
        x < w,
        y < h,
        dx < 3,
        dy < 3,
    ensures
        r == solid_at(map@, w as int, h as int, x + dx - 1, y + dy - 1),
{
    if (x == 0 && dx == 0) || (y == 0 && dy == 0) {
        return true;
    }
    let nx = if dx == 0 {
        x - 1
    } else {
        x + (dx - 1)
    };
    let ny = if dy == 0 {
        y - 1
    } else {
        y + (dy - 1)
    };
    if nx >= w || ny >= h {
        true
    } else {
        let n = map.len();
        proof {
            lemma_index_bounds(w as int, h as int, nx as int, ny as int);
        }
        map[ny * w + nx]
    }
}

/// Solid cells among the eight around `(x, y)`, the outside counting as
/// solid.
pub fn count_neighbours(map: &Vec<bool>, w: usize, h: usize, x: usize, y: usize) -> (r: u32)
    requires
        map@.len() == w * h,
        x < w,
        y < h,
    ensures
        r == solid_neighbours(map@, w as int, h as int, x as int, y as int),
        r <= 8,
{
    let mut count: u32 = 0;
    let mut k: usize = 0;
    while k < 9
        invariant
            map@.len() == w * h,
            x < w,
            y < h,
            k <= 9,
            count == neighbours_upto(map@, w as int, h as int, x as int, y as int, k as int),
            count <= k,
            k > 4 ==> count < k,
        decreases 9 - k,
    {
        if k != 4 && is_solid(map, w, h, x, y, k % 3, k / 3) {
            count += 1;
        }
        k += 1;
    }
    count
}

/// One synchronous pass of the birth and death rule over a `w` by `h` map.
pub fn do_cave_generation_step(map: &Vec<bool>, w: usize, h: usize, death: u32, birth: u32) -> (r:
    Vec<bool>)
    requires
        w > 0,
        map@.len() == w * h,
    ensures
        r@ == smoothed(map@, w as int, h as int, death as int, birth as int),
{
    let n = map.len();
    let mut next: Vec<bool> = Vec::with_capacity(n);
    let mut i: usize = 0;
    let mut x: usize = 0;
    let mut y: usize = 0;
    while i < n
        invariant
            w > 0,
            n == map@.len(),
            n == w * h,
            i <= n,
            x < w,
            i == y * w + x,
            next@.len() == i,
            forall|j: int|
                0 <= j < i ==> #[trigger] next@[j] == smoothed(
                    map@,
                    w as int,
                    h as int,
                    death as int,
                    birth as int,
                )[j],
        decreases n - i,
    {
        proof {
            lemma_index(w as int, x as int, y as int);
            assert(y < h) by (nonlinear_arith)
                requires
                    i == y * w + x,
                    0 <= x,
                    i < w * h,
                    w > 0,
            ;
        }
        let nbs = count_neighbours(map, w, h, x, y);
        let solid = if map[i] {
            nbs >= death
        } else {
            nbs > birth
        };
        next.push(solid);
        proof {
            assert((y + 1) * w == y * w + w) by (nonlinear_arith);
        }
        i += 1;
        x += 1;
        if x == w {
            x = 0;
            y += 1;
        }
    }
    proof {
        assert(next@ == smoothed(map@, w as int, h as int, death as int, birth as int));
    }
    next
}

/// The starting map of a cave from one roll per cell.
pub fn initialize_cave(rolls: &Vec<u32>, density: u32) -> (r: Vec<bool>)
    ensures
        r@ == seeded(rolls@, density),
{
    let n = rolls.len();
    let mut map: Vec<bool> = Vec::with_capacity(n);
    let mut i: usize = 0;
    while i < n
        invariant
            n == rolls@.len(),
            i <= n,
            map@.len() == i,
            forall|j: int| 0 <= j < i ==> #[trigger] map@[j] == (rolls@[j] < density),
        decreases n - i,
    {
        map.push(rolls[i] < density);
        i += 1;
    }
    proof {
        assert(map@ == seeded(rolls@, density));
    }
    map
}

/// The grid of ground and empty cells a solid map stands for.
fn terrain_grid(map: &Vec<bool>, w: usize, h: usize) -> (g: Grid)
    requires
        3 <= w,
        3 <= h,
        map@.len() == w * h,
    ensures
        g.wf(),
        g.width == w,
        g.height == h,
        g.cells@ == terrain(map@),
{
    let n = map.len();
    let mut cells: Vec<Cell> = Vec::with_capacity(n);
    let mut i: usize = 0;
    while i < n
        invariant
            n == map@.len(),
            i <= n,
            cells@ == terrain(map@).take(i as int),
            mass_sum(cells@) == 0,
        decreases n - i,
    {
        let c = Cell {
            material: if map[i] {
                Material::Ground
            } else {
                Material::Empty
            },
            mass: 0,
        };
        proof {
            assert(terrain(map@).take(i + 1) == terrain(map@).take(i as int).push(c));
            assert(cells@.push(c).drop_last() == cells@);
        }
        cells.push(c);
        i += 1;
    }
    proof {
        assert(terrain(map@).take(n as int) == terrain(map@));
    }
    Grid { width: w, height: h, cells }
}

/// A cave from one roll per cell: a cell starts solid when its roll is below
/// `density`, then `iterations` passes of the birth and death rule run, and
/// solid cells become ground.
pub fn cave_from_rolls(
    width: usize,
    height: usize,
    rolls: &Vec<u32>,
    density: u32,
    iterations: u32,
    death_limit: u32,
    birth_limit: u32,
) -> (r: Result<Grid, ConfigurationError>)
    ensures
        match cave_config_error(width, height, density, iterations) {
            Some(e) => r == Err::<Grid, _>(e),
            None => if rolls@.len() != width * height {
                r == Err::<Grid, _>(ConfigurationError::RollCount)
            } else {
                r is Ok && {
                    let g = r->Ok_0;
                    &&& g.wf()
                    &&& g.width == width
                    &&& g.height == height
                    &&& g.cells@ == terrain(
                        cave_map(
                            rolls@,
                            width as int,
                            height as int,
                            density,
                            iterations as nat,
                            death_limit as int,
                            birth_limit as int,
                        ),
                    )
                }
            },
        },
{
    let n = match check_cave_config(width, height, density, iterations) {
        Ok(n) => n,
        Err(e) => {
            return Err(e);
        },
    };
    if rolls.len() != n {
        return Err(ConfigurationError::RollCount);
    }
    let mut map = initialize_cave(rolls, density);
    let mut k: u32 = 0;
    while k < iterations
        invariant
            k <= iterations,
            width >= 3,
            map@.len() == width * height,
            map@ == smoothed_times(
                seeded(rolls@, density),
                width as int,
                height as int,
                death_limit as int,
                birth_limit as int,
                k as nat,
            ),
        decreases iterations - k,
    {
        map = do_cave_generation_step(&map, width, height, death_limit, birth_limit);
        k += 1;
    }
    Ok(terrain_grid(&map, width, height))
}

/// A cave drawn from `rng`: each cell starts solid with probability
/// `density / DENSITY_SCALE`, then `cave_from_rolls` shapes it.
pub fn generate(
    width: usize,
    height: usize,
    rng: &mut StdRng,
    density: u32,
    iterations: u32,
    death_limit: u32,
    birth_limit: u32,
) -> (r: Result<Grid, ConfigurationError>)
    ensures
        match cave_config_error(width, height, density, iterations) {
            Some(e) => r == Err::<Grid, _>(e),
            None => r is Ok && {
                let g = r->Ok_0;
                &&& g.wf()
                &&& g.width == width
                &&& g.height == height
                &&& exists|rolls: Seq<u32>|
                    {
                        &&& rolls.len() == width * height
                        &&& forall|i: int| 0 <= i < rolls.len() ==> rolls[i] < DENSITY_SCALE
                        &&& g.cells@ == terrain(
                            cave_map(
                                rolls,
                                width as int,
                                height as int,
                                density,
                                iterations as nat,
                                death_limit as int,
                                birth_limit as int,
                            ),
                        )
                    }
            },
        },
{
    let n = match check_cave_config(width, height, density, iterations) {
        Ok(n) => n,
        Err(e) => {
            return Err(e);
        },
    };
    let mut rolls: Vec<u32> = Vec::with_capacity(n);
    let mut i: usize = 0;
    while i < n
        invariant
            i <= n,
            rolls@.len() == i,
            forall|j: int| 0 <= j < i ==> rolls@[j] < DENSITY_SCALE,
        decreases n - i,
    {
        let roll = roll_below(rng, DENSITY_SCALE);
        rolls.push(roll);
        i += 1;
    }
    let r = cave_from_rolls(width, height, &rolls, density, iterations, death_limit, birth_limit);
    proof {
        assert(forall|j: int| 0 <= j < rolls@.len() ==> rolls@[j] < DENSITY_SCALE);
    }
    r
}

/// A cave depends on its rolls and settings alone: the same rolls give the
/// same solid map, and so the same grid.
pub proof fn lemma_cave_deterministic(
    a: Seq<u32>,
    b: Seq<u32>,
    w: int,
    h: int,
    density: u32,
    iterations: nat,
    death: int,
    birth: int,
)
    requires
        a == b,
    ensures
        terrain(cave_map(a, w, h, density, iterations, death, birth)) == terrain(
            cave_map(b, w, h, density, iterations, death, birth),
        ),
{
}

} // verus!
