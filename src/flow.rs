//! The flow solver: one tick of push-only mass transfer between neighbouring
//! cells, every flow read from the grid as it stood when the tick began.

use crate::grid::{
    copy_cells,
    lemma_index,
    lemma_index_split,
    lemma_mass_le_sum,
    lemma_mass_sum_update,
    mass_sum,
    Cell,
    Grid,
    Material,
    MASS_UNIT,
    MAX_TOTAL_MASS,
};
use vstd::prelude::*;

verus! {

/// The mass one cell holds before compression sets in.
pub const MAX_MASS: u64 = 100_000;

/// How much more than its neighbour above a cell may hold.
pub const MAX_COMPRESS: u64 = 200;

/// A non-ground cell holding no more than this is empty.
pub const MIN_MASS: u64 = 1;

/// Flows above this are damped.
pub const MIN_FLOW: u64 = 100;

/// The most mass that moves vertically out of one cell in one tick.
pub const MAX_SPEED: u64 = 10_000;

/// A damped flow is scaled by `DAMP_NUM / DAMP_DEN`.
pub const DAMP_NUM: u64 = 4;

pub const DAMP_DEN: u64 = 5;

/// The mass that placing a fluid puts in each stamped cell.
pub const SEED_MASS: u64 = 1_000_000;

pub open spec fn min_int(a: int, b: int) -> int {
    if a < b {
        a
    } else {
        b
    }
}

pub open spec fn clamped(v: int, lo: int, hi: int) -> int {
    if v < lo {
        lo
    } else if v > hi {
        hi
    } else {
        v
    }
}

/// How much of `total` the lower of two stacked cells holds at rest.
pub open spec fn stable_state_spec(total: int) -> int {
    if total <= MASS_UNIT {
        MASS_UNIT as int
    } else if total < 2 * MAX_MASS + MAX_COMPRESS {
        (MAX_MASS * MAX_MASS + total * MAX_COMPRESS) / ((MAX_MASS + MAX_COMPRESS) as int)
    } else {
        (total + MAX_COMPRESS) / 2
    }
}

pub open spec fn damped(f: int) -> int {
    if f > MIN_FLOW {
        f * DAMP_NUM / (DAMP_DEN as int)
    } else {
        f
    }
}

/// `val` brought into `[min, max]`, testing the lower bound first.
pub fn clamp(val: u64, min: u64, max: u64) -> (r: u64)
    ensures
        r == clamped(val as int, min as int, max as int),
{
    if val < min {
        min
    } else {
        if val > max {
            max
        } else {
            val
        }
    }
}

/// How much of `total` the lower of two stacked cells holds at rest.
pub fn stable_state(total: u64) -> (r: u64)
    requires
        total <= u64::MAX - MAX_COMPRESS,
    ensures
        r == stable_state_spec(total as int),
{
    if total <= MASS_UNIT {
        MASS_UNIT
    } else if total < 2 * MAX_MASS + MAX_COMPRESS {
        assert(total * MAX_COMPRESS <= (2 * MAX_MASS + MAX_COMPRESS) * MAX_COMPRESS)
            by (nonlinear_arith)
            requires
                total < 2 * MAX_MASS + MAX_COMPRESS,
        ;
        (MAX_MASS * MAX_MASS + total * MAX_COMPRESS) / (MAX_MASS + MAX_COMPRESS)
    } else {
        (total + MAX_COMPRESS) / 2
    }
}

fn damp(f: u64) -> (r: u64)
    requires
        f <= 2 * MAX_TOTAL_MASS,
    ensures
        r == damped(f as int),
        r <= f,
{
    if f > MIN_FLOW {
        f * DAMP_NUM / DAMP_DEN
    } else {
        f
    }
}

/// Cells that push mass: interior and not ground.
pub open spec fn moves(g: Grid, i: int) -> bool {
    g.interior(i) && !g.is_ground(i)
}

/// Downward flow out of a cell of mass `m` onto one of mass `mb`.
pub open spec fn down_amount(m: int, mb: int) -> int {
    clamped(damped(stable_state_spec(m + mb) - mb), 0, min_int(m, MAX_SPEED as int))
}

/// Sideways flow out of a cell of mass `m` towards one of mass `mn`, when
/// `rem` of its mass is still unspent.
pub open spec fn side_amount(m: int, mn: int, rem: int) -> int {
    clamped(damped((m - mn) / 4), 0, rem)
}

/// Upward flow out of a cell with `rem` unspent mass under one of mass `ma`.
pub open spec fn up_amount(rem: int, ma: int) -> int {
    clamped(damped(rem - stable_state_spec(rem + ma)), 0, min_int(rem, MAX_SPEED as int))
}

/// Mass cell `i` sends to the cell below it.
#[verifier::opaque]
pub open spec fn down_flow(g: Grid, i: int) -> int {
    if moves(g, i) && !g.is_ground(i - g.width) {
        down_amount(g.mass_of(i), g.mass_of(i - g.width))
    } else {
        0
    }
}

/// Mass cell `i` sends to its left neighbour.
#[verifier::opaque]
pub open spec fn left_flow(g: Grid, i: int) -> int {
    if moves(g, i) && !g.is_ground(i - 1) {
        side_amount(g.mass_of(i), g.mass_of(i - 1), g.mass_of(i) - down_flow(g, i))
    } else {
        0
    }
}

/// Mass cell `i` sends to its right neighbour.
#[verifier::opaque]
pub open spec fn right_flow(g: Grid, i: int) -> int {
    if moves(g, i) && !g.is_ground(i + 1) {
        side_amount(
            g.mass_of(i),
            g.mass_of(i + 1),
            g.mass_of(i) - down_flow(g, i) - left_flow(g, i),
        )
    } else {
        0
    }
}

/// Mass cell `i` sends to the cell above it: only what is compressed.
#[verifier::opaque]
pub open spec fn up_flow(g: Grid, i: int) -> int {
    if moves(g, i) && !g.is_ground(i + g.width) {
        up_amount(
            g.mass_of(i) - down_flow(g, i) - left_flow(g, i) - right_flow(g, i),
            g.mass_of(i + g.width),
        )
    } else {
        0
    }
}

pub open spec fn outflow(g: Grid, i: int) -> int {
    down_flow(g, i) + left_flow(g, i) + right_flow(g, i) + up_flow(g, i)
}

pub open spec fn inflow(g: Grid, i: int) -> int {
    down_flow(g, i + g.width) + up_flow(g, i - g.width) + right_flow(g, i - 1) + left_flow(
        g,
        i + 1,
    )
}

/// Mass of cell `i` once every transfer of a tick is applied, all of them
/// computed from the grid as it was at the start of the tick.
pub open spec fn flowed_mass(g: Grid, i: int) -> int {
    g.mass_of(i) - outflow(g, i) + inflow(g, i)
}

/// Mass of cell `i` once the transfers of the cells before index `p` are
/// applied.
pub open spec fn partial_mass(g: Grid, i: int, p: int) -> int {
    let w = g.width as int;
    g.mass_of(i) - (if i < p {
        outflow(g, i)
    } else {
        0
    }) + (if i + w < p {
        down_flow(g, i + w)
    } else {
        0
    }) + (if i - w < p {
        up_flow(g, i - w)
    } else {
        0
    }) + (if i - 1 < p {
        right_flow(g, i - 1)
    } else {
        0
    }) + (if i + 1 < p {
        left_flow(g, i + 1)
    } else {
        0
    })
}

/// The four flows out of a cell are non-negative and together no more than
/// its mass.
pub proof fn lemma_flow_bounds(g: Grid, i: int)
    requires
        g.wf(),
    ensures
        0 <= down_flow(g, i),
        0 <= left_flow(g, i),
        0 <= right_flow(g, i),
        0 <= up_flow(g, i),
        moves(g, i) ==> outflow(g, i) <= g.mass_of(i),
        !moves(g, i) ==> outflow(g, i) == 0,
{
    reveal(down_flow);
    reveal(left_flow);
    reveal(right_flow);
    reveal(up_flow);
}

/// The four neighbours of an interior cell lie in the grid.
pub proof fn lemma_interior_neighbors(g: Grid, i: int)
    requires
        g.wf(),
        g.interior(i),
    ensures
        0 <= i - g.width,
        i + g.width < g.len(),
{
    let w = g.width as int;
    let h = g.height as int;
    lemma_index_split(w, i);
    let r = i / w;
    let c = i % w;
    assert(0 <= (r - 1) * w + c && (r + 1) * w + c < h * w) by (nonlinear_arith)
        requires
            1 <= r <= h - 2,
            0 <= c < w,
    ;
    assert((r - 1) * w == r * w - w && (r + 1) * w == r * w + w) by (nonlinear_arith);
}

fn down_amount_of(m: u64, mb: u64) -> (r: u64)
    requires
        m <= MAX_TOTAL_MASS,
        mb <= MAX_TOTAL_MASS,
    ensures
        r == down_amount(m as int, mb as int),
{
    let s = stable_state(m + mb);
    let raw = if s > mb {
        s - mb
    } else {
        0
    };
    let cap = if m < MAX_SPEED {
        m
    } else {
        MAX_SPEED
    };
    clamp(damp(raw), 0, cap)
}

fn side_amount_of(m: u64, mn: u64, rem: u64) -> (r: u64)
    requires
        m <= MAX_TOTAL_MASS,
    ensures
        r == side_amount(m as int, mn as int, rem as int),
{
    let raw = if m > mn {
        (m - mn) / 4
    } else {
        0
    };
    clamp(damp(raw), 0, rem)
}

fn up_amount_of(rem: u64, ma: u64) -> (r: u64)
    requires
        rem <= MAX_TOTAL_MASS,
        ma <= MAX_TOTAL_MASS,
    ensures
        r == up_amount(rem as int, ma as int),
{
    let s = stable_state(rem + ma);
    let raw = if rem > s {
        rem - s
    } else {
        0
    };
    let cap = if rem < MAX_SPEED {
        rem
    } else {
        MAX_SPEED
    };
    clamp(damp(raw), 0, cap)
}

/// The four flows out of a cell that moves, in the order down, left, right,
/// up, read from `g` alone.
fn cell_flows(g: &Grid, p: usize) -> (f: (u64, u64, u64, u64))
    requires
        g.wf(),
        moves(*g, p as int),
    ensures
        f.0 == down_flow(*g, p as int),
        f.1 == left_flow(*g, p as int),
        f.2 == right_flow(*g, p as int),
        f.3 == up_flow(*g, p as int),
{
    let w = g.width;
    let n = g.cells.len();
    proof {
        reveal(down_flow);
        reveal(left_flow);
        reveal(right_flow);
        reveal(up_flow);
        lemma_interior_neighbors(*g, p as int);
        lemma_mass_le_sum(g.cells@, p as int);
        lemma_mass_le_sum(g.cells@, p - w);
        lemma_mass_le_sum(g.cells@, p + w);
        lemma_flow_bounds(*g, p as int);
    }
    let m = g.cells[p].mass;
    let below = g.cells[p - w];
    let down: u64 = if below.material.is_ground() {
        0
    } else {
        down_amount_of(m, below.mass)
    };
    let left = g.cells[p - 1];
    let to_left: u64 = if left.material.is_ground() {
        0
    } else {
        side_amount_of(m, left.mass, m - down)
    };
    let right = g.cells[p + 1];
    let to_right: u64 = if right.material.is_ground() {
        0
    } else {
        side_amount_of(m, right.mass, m - down - to_left)
    };
    let above = g.cells[p + w];
    let up: u64 = if above.material.is_ground() {
        0
    } else {
        up_amount_of(m - down - to_left - to_right, above.mass)
    };
    (down, to_left, to_right, up)
}

fn add_mass(next: &mut Vec<Cell>, q: usize, amt: u64)
    requires
        q < old(next)@.len(),
        mass_sum(old(next)@) + amt <= MAX_TOTAL_MASS,
    ensures
        final(next)@ == old(next)@.update(
            q as int,
            Cell {
                material: old(next)@[q as int].material,
                mass: (old(next)@[q as int].mass + amt) as u64,
            },
        ),
        mass_sum(final(next)@) == mass_sum(old(next)@) + amt,
        final(next)@[q as int].mass == old(next)@[q as int].mass + amt,
{
    proof {
        lemma_mass_le_sum(next@, q as int);
    }
    let c = next[q];
    let nc = Cell { material: c.material, mass: c.mass + amt };
    proof {
        lemma_mass_sum_update(next@, q as int, nc);
    }
    next.set(q, nc);
}

fn take_mass(next: &mut Vec<Cell>, q: usize, amt: u64)
    requires
        q < old(next)@.len(),
        amt <= old(next)@[q as int].mass,
    ensures
        final(next)@ == old(next)@.update(
            q as int,
            Cell {
                material: old(next)@[q as int].material,
                mass: (old(next)@[q as int].mass - amt) as u64,
            },
        ),
        mass_sum(final(next)@) == mass_sum(old(next)@) - amt,
        final(next)@[q as int].mass == old(next)@[q as int].mass - amt,
{
    let c = next[q];
    let nc = Cell { material: c.material, mass: c.mass - amt };
    proof {
        lemma_mass_sum_update(next@, q as int, nc);
    }
    next.set(q, nc);
}

/// The cells after every transfer of one tick, before reclassification and
/// the border sink: materials are kept, masses are `flowed_mass`.
fn transfer(g: &Grid) -> (next: Vec<Cell>)
    requires
        g.wf(),
    ensures
        next@.len() == g.len(),
        forall|i: int| 0 <= i < g.len() ==> #[trigger] next@[i].mass == flowed_mass(*g, i),
        forall|i: int| 0 <= i < g.len() ==> #[trigger] next@[i].material == g.cells@[i].material,
        mass_sum(next@) == g.total_mass(),
{
    let n = g.cells.len();
    let w = g.width;
    let h = g.height;
    let mut next = copy_cells(&g.cells);
    proof {
        assert forall|j: int| 0 <= j < n implies #[trigger] next@[j].mass == partial_mass(
            *g,
            j,
            0,
        ) by {
            lemma_flow_bounds(*g, j - w);
            lemma_flow_bounds(*g, j - 1);
        }
    }
    let mut p: usize = 0;
    let mut x: usize = 0;
    let mut y: usize = 0;
    while p < n
        invariant
            g.wf(),
            n == g.len(),
            w == g.width,
            h == g.height,
            p <= n,
            x < w,
            y <= p,
            p == y * w + x,
            next@.len() == n,
            forall|j: int| 0 <= j < n ==> #[trigger] next@[j].mass == partial_mass(*g, j, p as int),
            forall|j: int| 0 <= j < n ==> #[trigger] next@[j].material == g.cells@[j].material,
            mass_sum(next@) == g.total_mass(),
        decreases n - p,
    {
        proof {
            lemma_index(w as int, x as int, y as int);
            lemma_flow_bounds(*g, p as int);
        }
        let ghost before = next@;
        if 1 <= x && x + 1 < w && 1 <= y && y < h - 1 && !g.cells[p].material.is_ground() {
            let (d, l, r, u) = cell_flows(g, p);
            proof {
                lemma_interior_neighbors(*g, p as int);
                lemma_flow_bounds(*g, p - w);
                lemma_flow_bounds(*g, p - 1);
            }
            take_mass(&mut next, p, d + l + r + u);
            add_mass(&mut next, p - w, d);
            add_mass(&mut next, p - 1, l);
            add_mass(&mut next, p + 1, r);
            add_mass(&mut next, p + w, u);
            proof {
                assert forall|j: int| 0 <= j < n implies #[trigger] next@[j].mass == partial_mass(
                    *g,
                    j,
                    p + 1,
                ) by {
                    assert(before[j].mass == partial_mass(*g, j, p as int));
                }
                assert forall|j: int| 0 <= j < n implies #[trigger] next@[j].material
                    == g.cells@[j].material by {
                    assert(before[j].material == g.cells@[j].material);
                }
            }
        } else {
            proof {
                assert forall|j: int| 0 <= j < n implies #[trigger] next@[j].mass == partial_mass(
                    *g,
                    j,
                    p + 1,
                ) by {
                    assert(before[j].mass == partial_mass(*g, j, p as int));
                }
            }
        }
        proof {
            assert(y * w >= y) by (nonlinear_arith)
                requires
                    w >= 1,
                    y >= 0,
            ;
            assert((y + 1) * w == y * w + w) by (nonlinear_arith);
        }
        p += 1;
        x += 1;
        if x == w {
            x = 0;
            y += 1;
        }
    }
    proof {
        assert forall|j: int| 0 <= j < g.len() implies #[trigger] next@[j].mass == flowed_mass(
            *g,
            j,
        ) by {
            lemma_flow_bounds(*g, j + w);
            lemma_flow_bounds(*g, j - w);
            lemma_flow_bounds(*g, j + 1);
            lemma_flow_bounds(*g, j - 1);
            assert(next@[j].mass == partial_mass(*g, j, n as int));
        }
    }
    next
}

/// Material of a cell once it holds `mass`: ground stays ground, a cell
/// holding more than `MIN_MASS` is fluid (a fluid keeps its kind, anything
/// else turns to water), and the rest is empty.
pub open spec fn reclassified(mat: Material, mass: int) -> Material {
    if mat == Material::Ground {
        Material::Ground
    } else if mass > MIN_MASS {
        if mat.is_fluid() {
            mat
        } else {
            Material::Water
        }
    } else {
        Material::Empty
    }
}

/// Mass of cell `i` after one tick: the border ring is emptied.
pub open spec fn next_mass(g: Grid, i: int) -> int {
    if g.interior(i) {
        flowed_mass(g, i)
    } else {
        0
    }
}

/// Material of cell `i` after one tick, judged before the border is emptied.
pub open spec fn next_material(g: Grid, i: int) -> Material {
    reclassified(g.cells@[i].material, flowed_mass(g, i))
}

/// The mass that the transfers leave in border cells with index below `k`.
pub open spec fn border_sink_upto(g: Grid, k: int) -> int
    decreases k,
{
    if k <= 0 {
        0
    } else {
        border_sink_upto(g, k - 1) + if g.on_border(k - 1) {
            flowed_mass(g, k - 1)
        } else {
            0
        }
    }
}

/// The mass one tick discards at the edge of the grid.
pub open spec fn border_sink(g: Grid) -> int {
    border_sink_upto(g, g.len())
}

/// No cell's mass goes negative in a tick: a cell never sends more than it
/// holds, and what it receives is never negative.
pub proof fn lemma_mass_stays_nonnegative(g: Grid, i: int)
    requires
        g.wf(),
        0 <= i < g.len(),
    ensures
        flowed_mass(g, i) >= 0,
        next_mass(g, i) >= 0,
{
    lemma_flow_bounds(g, i);
    lemma_flow_bounds(g, i + g.width);
    lemma_flow_bounds(g, i - g.width);
    lemma_flow_bounds(g, i + 1);
    lemma_flow_bounds(g, i - 1);
}

/// Ground neither gives nor receives mass.
pub proof fn lemma_ground_stays_dry(g: Grid, i: int)
    requires
        g.wf(),
        0 <= i < g.len(),
        g.is_ground(i),
    ensures
        flowed_mass(g, i) == 0,
{
    reveal(down_flow);
    reveal(left_flow);
    reveal(right_flow);
    reveal(up_flow);
    assert(i + g.width - g.width == i);
}

/// The discarded mass is never negative.
pub proof fn lemma_border_sink_nonneg(g: Grid, k: int)
    requires
        g.wf(),
        k <= g.len(),
    ensures
        border_sink_upto(g, k) >= 0,
    decreases k,
{
    if k > 0 {
        lemma_border_sink_nonneg(g, k - 1);
        lemma_mass_stays_nonnegative(g, k - 1);
    }
}

fn reclassify(mat: Material, mass: u64) -> (r: Material)
    ensures
        r == reclassified(mat, mass as int),
{
    if mat.is_ground() {
        Material::Ground
    } else if mass > MIN_MASS {
        if mat.is_fluid_kind() {
            mat
        } else {
            Material::Water
        }
    } else {
        Material::Empty
    }
}

/// Advances the grid by one tick: every interior cell that is not ground
/// pushes mass down, left, right and up, all flows computed from the grid as
/// it was; then each cell is reclassified by its new mass, and the mass in
/// the border ring is discarded.
pub fn step(grid: &mut Grid)
    requires
        old(grid).wf(),
    ensures
        final(grid).wf(),
        final(grid).width == old(grid).width,
        final(grid).height == old(grid).height,
        forall|i: int|
            0 <= i < old(grid).len() ==> #[trigger] final(grid).cells@[i].mass == next_mass(
                *old(grid),
                i,
            ),
        forall|i: int|
            0 <= i < old(grid).len() ==> #[trigger] final(grid).cells@[i].material
                == next_material(*old(grid), i),
        forall|i: int| old(grid).on_border(i) ==> #[trigger] final(grid).cells@[i].mass == 0,
        final(grid).total_mass() == old(grid).total_mass() - border_sink(*old(grid)),
{
    let mut next = transfer(grid);
    let ghost g = *grid;
    let n = grid.cells.len();
    let w = grid.width;
    let h = grid.height;
    let mut p: usize = 0;
    let mut x: usize = 0;
    let mut y: usize = 0;
    while p < n
        invariant
            g == *grid,
            g.wf(),
            n == g.len(),
            w == g.width,
            h == g.height,
            p <= n,
            x < w,
            y <= p,
            p == y * w + x,
            next@.len() == n,
            forall|j: int| 0 <= j < p ==> #[trigger] next@[j].mass == next_mass(g, j),
            forall|j: int| 0 <= j < p ==> #[trigger] next@[j].material == next_material(g, j),
            forall|j: int| p <= j < n ==> #[trigger] next@[j].mass == flowed_mass(g, j),
            forall|j: int| p <= j < n ==> #[trigger] next@[j].material == g.cells@[j].material,
            mass_sum(next@) == g.total_mass() - border_sink_upto(g, p as int),
        decreases n - p,
    {
        proof {
            lemma_index(w as int, x as int, y as int);
            lemma_mass_stays_nonnegative(g, p as int);
        }
        let c = next[p];
        let inside = 1 <= x && x + 1 < w && 1 <= y && y < h - 1;
        let nc = Cell {
            material: reclassify(c.material, c.mass),
            mass: if inside {
                c.mass
            } else {
                0
            },
        };
        proof {
            lemma_mass_sum_update(next@, p as int, nc);
        }
        next.set(p, nc);
        proof {
            assert(y * w >= y) by (nonlinear_arith)
                requires
                    w >= 1,
                    y >= 0,
            ;
            assert((y + 1) * w == y * w + w) by (nonlinear_arith);
        }
        p += 1;
        x += 1;
        if x == w {
            x = 0;
            y += 1;
        }
    }
    proof {
        lemma_border_sink_nonneg(g, n as int);
        assert forall|i: int| 0 <= i < next@.len() && next@[i].material == Material::Ground implies next@[i].mass == 0 by {
            lemma_ground_stays_dry(g, i);
        }
    }
    grid.cells = next;
}

/// Every cell holds at least one unit at rest beneath any neighbour.
pub proof fn lemma_stable_state_at_least_unit(total: int)
    requires
        total >= 0,
    ensures
        stable_state_spec(total) >= MASS_UNIT,
{
}

/// Cell `i` of a flat pool of depth `m`: a fluid cell is interior, holds
/// `m`, sits on ground and has ground or fluid on both sides; any other cell
/// holds no mass.
pub open spec fn pool_cell(g: Grid, m: int, i: int) -> bool {
    if g.cells@[i].material.is_fluid() {
        &&& g.interior(i)
        &&& g.mass_of(i) == m
        &&& g.is_ground(i - g.width)
        &&& (g.is_ground(i - 1) || g.cells@[i - 1].material.is_fluid())
        &&& (g.is_ground(i + 1) || g.cells@[i + 1].material.is_fluid())
    } else {
        g.mass_of(i) == 0
    }
}

/// A flat pool at rest, of depth `m` with `MIN_MASS < m <= MASS_UNIT`.
pub open spec fn flat_pool(g: Grid, m: int) -> bool {
    &&& MIN_MASS < m <= MASS_UNIT
    &&& forall|i: int| 0 <= i < g.len() ==> #[trigger] pool_cell(g, m, i)
}

proof fn lemma_flat_pool_down(g: Grid, m: int, i: int)
    requires
        g.wf(),
        flat_pool(g, m),
        moves(g, i),
    ensures
        down_flow(g, i) == 0,
{
    reveal(down_flow);
    assert(pool_cell(g, m, i));
}

proof fn lemma_flat_pool_left(g: Grid, m: int, i: int)
    requires
        g.wf(),
        flat_pool(g, m),
        moves(g, i),
        down_flow(g, i) == 0,
    ensures
        left_flow(g, i) == 0,
{
    reveal(left_flow);
    lemma_interior_neighbors(g, i);
    assert(pool_cell(g, m, i));
    assert(pool_cell(g, m, i - 1));
}

proof fn lemma_flat_pool_right(g: Grid, m: int, i: int)
    requires
        g.wf(),
        flat_pool(g, m),
        moves(g, i),
        down_flow(g, i) == 0,
        left_flow(g, i) == 0,
    ensures
        right_flow(g, i) == 0,
{
    reveal(right_flow);
    lemma_interior_neighbors(g, i);
    assert(pool_cell(g, m, i));
    assert(pool_cell(g, m, i + 1));
}

proof fn lemma_flat_pool_up(g: Grid, m: int, i: int)
    requires
        g.wf(),
        flat_pool(g, m),
        moves(g, i),
        down_flow(g, i) == 0,
        left_flow(g, i) == 0,
        right_flow(g, i) == 0,
    ensures
        up_flow(g, i) == 0,
{
    reveal(up_flow);
    lemma_interior_neighbors(g, i);
    assert(pool_cell(g, m, i));
    lemma_stable_state_at_least_unit(g.mass_of(i) + g.mass_of(i + g.width));
}

proof fn lemma_flat_pool_still(g: Grid, m: int, i: int)
    requires
        g.wf(),
        flat_pool(g, m),
    ensures
        outflow(g, i) == 0,
{
    lemma_flow_bounds(g, i);
    if moves(g, i) {
        lemma_flat_pool_down(g, m, i);
        lemma_flat_pool_left(g, m, i);
        lemma_flat_pool_right(g, m, i);
        lemma_flat_pool_up(g, m, i);
    }
}

proof fn lemma_flat_pool_cell(g: Grid, m: int, i: int)
    requires
        g.wf(),
        flat_pool(g, m),
        0 <= i < g.len(),
    ensures
        next_mass(g, i) == g.mass_of(i),
        next_material(g, i) == g.cells@[i].material,
{
    lemma_flat_pool_still(g, m, i);
    lemma_flat_pool_still(g, m, i + g.width);
    lemma_flat_pool_still(g, m, i - g.width);
    lemma_flat_pool_still(g, m, i + 1);
    lemma_flat_pool_still(g, m, i - 1);
    lemma_flow_bounds(g, i + g.width);
    lemma_flow_bounds(g, i - g.width);
    lemma_flow_bounds(g, i + 1);
    lemma_flow_bounds(g, i - 1);
    assert(pool_cell(g, m, i));
}

/// A flat pool of depth at most one unit is at rest: a tick leaves every
/// cell's mass and material as they were.
pub proof fn lemma_flat_pool_is_fixed_point(g: Grid, m: int)
    requires
        g.wf(),
        flat_pool(g, m),
    ensures
        forall|i: int| 0 <= i < g.len() ==> #[trigger] next_mass(g, i) == g.mass_of(i),
        forall|i: int| 0 <= i < g.len() ==> #[trigger] next_material(g, i) == g.cells@[i].material,
{
    assert forall|i: int| 0 <= i < g.len() implies #[trigger] next_mass(g, i) == g.mass_of(i) by {
        lemma_flat_pool_cell(g, m, i);
    }
    assert forall|i: int| 0 <= i < g.len() implies #[trigger] next_material(g, i)
        == g.cells@[i].material by {
        lemma_flat_pool_cell(g, m, i);
    }
}

/// A tick depends on the grid's shape and cells alone: grids that agree on
/// them step to the same masses and materials.
pub proof fn lemma_step_deterministic(a: Grid, b: Grid)
    requires
        a.width == b.width,
        a.height == b.height,
        a.cells@ == b.cells@,
    ensures
        forall|i: int|
            #[trigger] next_mass(a, i) == next_mass(b, i) && next_material(a, i) == next_material(
                b,
                i,
            ),
{
    reveal(down_flow);
    reveal(left_flow);
    reveal(right_flow);
    reveal(up_flow);
}

/// Sum of a sequence of integers.
pub open spec fn int_sum(s: Seq<int>) -> int
    decreases s.len(),
{
    if s.len() == 0 {
        0
    } else {
        int_sum(s.drop_last()) + s.last()
    }
}

/// Every cell's mass once all transfers of a tick are applied, before the
/// border is emptied.
pub open spec fn flowed_masses(g: Grid) -> Seq<int> {
    Seq::new(g.cells@.len(), |j: int| flowed_mass(g, j))
}

spec fn partial_masses(g: Grid, p: int) -> Seq<int> {
    Seq::new(g.cells@.len(), |j: int| partial_mass(g, j, p))
}

proof fn lemma_int_sum_update(s: Seq<int>, i: int, v: int)
    requires
        0 <= i < s.len(),
    ensures
        int_sum(s.update(i, v)) == int_sum(s) - s[i] + v,
    decreases s.len(),
{
    if i == s.len() - 1 {
        assert(s.update(i, v).drop_last() == s.drop_last());
    } else {
        assert(s.update(i, v).drop_last() == s.drop_last().update(i, v));
        lemma_int_sum_update(s.drop_last(), i, v);
    }
}

proof fn lemma_int_sum_of_masses(s: Seq<Cell>)
    ensures
        int_sum(Seq::new(s.len(), |j: int| s[j].mass as int)) == mass_sum(s),
    decreases s.len(),
{
    if s.len() > 0 {
        lemma_int_sum_of_masses(s.drop_last());
        assert(Seq::new(s.len(), |j: int| s[j].mass as int).drop_last() == Seq::new(
            s.drop_last().len(),
            |j: int| s.drop_last()[j].mass as int,
        ));
    }
}

/// Applying the transfers of one more cell keeps the sum.
proof fn lemma_partial_step(g: Grid, p: int)
    requires
        g.wf(),
        0 <= p < g.len(),
    ensures
        int_sum(partial_masses(g, p + 1)) == int_sum(partial_masses(g, p)),
{
    let n = g.len();
    let w = g.width as int;
    let before = partial_masses(g, p);
    let after = partial_masses(g, p + 1);
    lemma_flow_bounds(g, p);
    if moves(g, p) {
        lemma_interior_neighbors(g, p);
        let d = down_flow(g, p);
        let l = left_flow(g, p);
        let r = right_flow(g, p);
        let u = up_flow(g, p);
        let s1 = before.update(p, before[p] - outflow(g, p));
        let s2 = s1.update(p - w, s1[p - w] + d);
        let s3 = s2.update(p - 1, s2[p - 1] + l);
        let s4 = s3.update(p + 1, s3[p + 1] + r);
        let s5 = s4.update(p + w, s4[p + w] + u);
        lemma_int_sum_update(before, p, before[p] - outflow(g, p));
        lemma_int_sum_update(s1, p - w, s1[p - w] + d);
        lemma_int_sum_update(s2, p - 1, s2[p - 1] + l);
        lemma_int_sum_update(s3, p + 1, s3[p + 1] + r);
        lemma_int_sum_update(s4, p + w, s4[p + w] + u);
        assert(after =~= s5);
    } else {
        assert(after =~= before);
    }
}

proof fn lemma_partial_sums(g: Grid, p: int)
    requires
        g.wf(),
        0 <= p <= g.len(),
    ensures
        int_sum(partial_masses(g, p)) == g.total_mass(),
    decreases p,
{
    if p == 0 {
        assert forall|j: int| 0 <= j < g.len() implies partial_masses(g, 0)[j] == g.cells@[j].mass
            as int by {
            lemma_flow_bounds(g, j - g.width);
            lemma_flow_bounds(g, j - 1);
        }
        assert(partial_masses(g, 0) =~= Seq::new(
            g.cells@.len(),
            |j: int| g.cells@[j].mass as int,
        ));
        lemma_int_sum_of_masses(g.cells@);
    } else {
        lemma_partial_sums(g, p - 1);
        lemma_partial_step(g, p - 1);
    }
}

/// Transfers between cells neither make nor lose mass: summed over the grid,
/// the masses after every transfer of a tick equal the masses before it.
pub proof fn lemma_transfers_conserve_mass(g: Grid)
    requires
        g.wf(),
    ensures
        int_sum(flowed_masses(g)) == g.total_mass(),
{
    lemma_partial_sums(g, g.len());
    assert forall|j: int| 0 <= j < g.len() implies partial_masses(g, g.len())[j] == flowed_masses(
        g,
    )[j] by {
        lemma_flow_bounds(g, j + g.width);
        lemma_flow_bounds(g, j - g.width);
        lemma_flow_bounds(g, j + 1);
        lemma_flow_bounds(g, j - 1);
    }
    assert(partial_masses(g, g.len()) =~= flowed_masses(g));
}

} // verus!
