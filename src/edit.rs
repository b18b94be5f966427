//! User edits: stamping ground, fluid or emptiness onto a point and its four
//! neighbours.

use crate::flow::SEED_MASS;
use crate::grid::{
    copy_cells,
    lemma_index,
    lemma_index_bounds,
    lemma_index_split,
    lemma_mass_le_sum,
    lemma_mass_sum_update,
    mass_sum,
    Cell,
    Grid,
    Material,
    MAX_TOTAL_MASS,
};
use vstd::prelude::*;

verus! {

/// Why an edit was refused; the grid is then left as it was.
#[derive(Clone, Copy, PartialEq, Eq, Structural, Debug)]
pub enum EditError {
    /// The point lies off the grid.
    OutOfBounds,
    /// The grid would hold more than `MAX_TOTAL_MASS`.
    MassLimit,
}

/// Cell `j` is the point `(x, y)` or one of its four orthogonal neighbours.
pub open spec fn in_stamp(g: Grid, j: int, x: int, y: int) -> bool {
    let cx = g.col(j);
    let cy = g.row(j);
    &&& 0 <= j < g.len()
    &&& (cx == x && (cy == y || cy == y - 1 || cy == y + 1)) || (cy == y && (cx == x - 1 || cx
        == x + 1))
}

/// A cell after an edit with `material`, `center` telling whether it is the
/// point itself: ground and its mass-free state replace the cell; empty
/// keeps the material and clears the mass; a fluid fills the point, whatever
/// it was, and every neighbour but ground with `mass`.
pub open spec fn stamped(c: Cell, material: Material, mass: u64, center: bool) -> Cell {
    if material == Material::Ground {
        Cell { material: Material::Ground, mass: 0 }
    } else if material == Material::Empty {
        Cell { material: c.material, mass: 0 }
    } else if c.material == Material::Ground && !center {
        c
    } else {
        Cell { material, mass }
    }
}

/// The cells of `g` after an edit with `material` at `(x, y)`.
pub open spec fn stamped_cells(g: Grid, x: int, y: int, material: Material, mass: u64) -> Seq<
    Cell,
> {
    Seq::new(
        g.cells@.len(),
        |j: int|
            if in_stamp(g, j, x, y) {
                stamped(g.cells@[j], material, mass, g.col(j) == x && g.row(j) == y)
            } else {
                g.cells@[j]
            },
    )
}

fn stamp_cell(c: Cell, material: Material, mass: u64, center: bool) -> (r: Cell)
    ensures
        r == stamped(c, material, mass, center),
{
    match material {
        Material::Ground => Cell { material: Material::Ground, mass: 0 },
        Material::Empty => Cell { material: c.material, mass: 0 },
        _ => {
            if c.material.is_ground() && !center {
                c
            } else {
                Cell { material, mass }
            }
        },
    }
}

/// Stamps cell `j` and returns the new sum of masses.
fn stamp_at(
    cells: &mut Vec<Cell>,
    j: usize,
    material: Material,
    mass: u64,
    center: bool,
    total: u128,
) -> (t: u128)
    requires
        j < old(cells)@.len(),
        total == mass_sum(old(cells)@),
        total <= 0x1_0000_0000_0000_0000_0000_0000,
    ensures
        final(cells)@ == old(cells)@.update(
            j as int,
            stamped(old(cells)@[j as int], material, mass, center),
        ),
        t == mass_sum(final(cells)@),
        t <= total + 0xFFFF_FFFF_FFFF_FFFF,
{
    let c = cells[j];
    let nc = stamp_cell(c, material, mass, center);
    proof {
        lemma_mass_le_sum(cells@, j as int);
        lemma_mass_sum_update(cells@, j as int, nc);
    }
    cells.set(j, nc);
    total - c.mass as u128 + nc.mass as u128
}

/// The five indices of a stamp centred on `(x, y)` are the cells it covers.
proof fn lemma_stamp_indices(g: Grid, x: int, y: int, j: int)
    requires
        g.wf(),
        0 <= x < g.width,
        0 <= y < g.height,
        0 <= j < g.len(),
    ensures
        in_stamp(g, j, x, y) <==> {
            let w = g.width as int;
            let i = y * w + x;
            ||| j == i
            ||| (x > 0 && j == i - 1)
            ||| (x + 1 < w && j == i + 1)
            ||| (y > 0 && j == i - w)
            ||| (y + 1 < g.height && j == i + w)
        },
        (g.col(j) == x && g.row(j) == y) <==> j == y * g.width + x,
{
    let w = g.width as int;
    let i = y * w + x;
    lemma_index_split(w, j);
    lemma_index(w, x, y);
    if x > 0 {
        lemma_index(w, x - 1, y);
    }
    if x + 1 < w {
        lemma_index(w, x + 1, y);
    }
    assert((y - 1) * w == y * w - w) by (nonlinear_arith);
    assert((y + 1) * w == y * w + w) by (nonlinear_arith);
    if y > 0 {
        lemma_index(w, x, y - 1);
    }
    lemma_index(w, x, y + 1);
    let cx = j % w;
    let cy = j / w;
    let h = g.height as int;
    assert(j == cy * w + cx);
    assert(cy < h) by (nonlinear_arith)
        requires
            j == cy * w + cx,
            0 <= cx,
            j < w * h,
            w > 0,
    ;
    if cx == x && cy == y - 1 {
        assert(cy * w == y * w - w);
    } else if cx == x && cy == y + 1 {
        assert(cy * w == y * w + w);
    } else if cx == x && cy == y {
        assert(cy * w == y * w);
    } else if cy == y {
        assert(cy * w == y * w);
    }
}

/// What an edit with `material` (fluids filling with `mass`) at `(x, y)`
/// does: off the grid it is refused; past the mass limit it is refused;
/// otherwise the cells become `stamped_cells`. A refused edit changes
/// nothing.
pub open spec fn edit_outcome(
    before: Grid,
    after: Grid,
    x: int,
    y: int,
    material: Material,
    mass: u64,
    r: Result<(), EditError>,
) -> bool {
    let off = x >= before.width || y >= before.height;
    &&& after.wf()
    &&& after.width == before.width
    &&& after.height == before.height
    &&& (r == Err::<(), _>(EditError::OutOfBounds) <==> off)
    &&& (r == Err::<(), _>(EditError::MassLimit) <==> (!off && mass_sum(
        stamped_cells(before, x, y, material, mass),
    ) > MAX_TOTAL_MASS))
    &&& (r is Ok ==> after.cells@ == stamped_cells(before, x, y, material, mass))
    &&& (r is Err ==> after.cells@ == before.cells@)
}

fn place_stamp(grid: &mut Grid, x: usize, y: usize, material: Material, mass: u64) -> (r: Result<
    (),
    EditError,
>)
    requires
        old(grid).wf(),
    ensures
        edit_outcome(*old(grid), *final(grid), x as int, y as int, material, mass, r),
{
    let w = grid.width;
    let h = grid.height;
    if x >= w || y >= h {
        return Err(EditError::OutOfBounds);
    }
    let n = grid.cells.len();
    proof {
        lemma_index_bounds(w as int, h as int, x as int, y as int);
        assert((y as int - 1) * w == y * w - w && (y as int + 1) * w == y * w + w)
            by (nonlinear_arith);
        if y + 1 < h {
            lemma_index_bounds(w as int, h as int, x as int, y + 1);
        }
        if x + 1 < w {
            lemma_index_bounds(w as int, h as int, x + 1, y as int);
        }
    }
    let total = grid.total_mass_of() as u128;
    let mut cells = copy_cells(&grid.cells);
    let i = y * w + x;
    let mut t = stamp_at(&mut cells, i, material, mass, true, total);
    if x > 0 {
        t = stamp_at(&mut cells, i - 1, material, mass, false, t);
    }
    if x + 1 < w {
        t = stamp_at(&mut cells, i + 1, material, mass, false, t);
    }
    if y > 0 {
        t = stamp_at(&mut cells, i - w, material, mass, false, t);
    }
    if y + 1 < h {
        t = stamp_at(&mut cells, i + w, material, mass, false, t);
    }
    proof {
        assert forall|j: int| 0 <= j < n implies #[trigger] cells@[j] == stamped_cells(
            *grid,
            x as int,
            y as int,
            material,
            mass,
        )[j] by {
            lemma_stamp_indices(*grid, x as int, y as int, j);
        }
        assert(cells@ == stamped_cells(*grid, x as int, y as int, material, mass));
        assert forall|j: int|
            0 <= j < n && #[trigger] cells@[j].material == Material::Ground implies cells@[j].mass
            == 0 by {
            assert(grid.is_ground(j) ==> grid.mass_of(j) == 0);
        }
    }
    if t > MAX_TOTAL_MASS as u128 {
        return Err(EditError::MassLimit);
    }
    grid.cells = cells;
    Ok(())
}

/// A user edit at `(x, y)` and its four neighbours: ground walls them in,
/// empty clears their mass, and a fluid fills the point itself, ground or
/// not, and every neighbour but ground with `SEED_MASS`.
pub fn place(grid: &mut Grid, x: usize, y: usize, material: Material) -> (r: Result<
    (),
    EditError,
>)
    requires
        old(grid).wf(),
    ensures
        edit_outcome(*old(grid), *final(grid), x as int, y as int, material, SEED_MASS, r),
{
    place_stamp(grid, x, y, material, SEED_MASS)
}

/// Fills `(x, y)`, ground or not, and its four neighbours but ground with
/// water of `mass`.
pub fn place_with_mass(grid: &mut Grid, x: usize, y: usize, mass: u64) -> (r: Result<
    (),
    EditError,
>)
    requires
        old(grid).wf(),
    ensures
        edit_outcome(*old(grid), *final(grid), x as int, y as int, Material::Water, mass, r),
{
    place_stamp(grid, x, y, Material::Water, mass)
}

/// Number of ground cells in a sequence.
pub open spec fn ground_count(s: Seq<Cell>) -> int
    decreases s.len(),
{
    if s.len() == 0 {
        0
    } else {
        ground_count(s.drop_last()) + if s.last().material == Material::Ground {
            1int
        } else {
            0int
        }
    }
}

proof fn lemma_ground_count_update(s: Seq<Cell>, i: int, c: Cell)
    requires
        0 <= i < s.len(),
    ensures
        ground_count(s.update(i, c)) == ground_count(s) - (if s[i].material == Material::Ground {
            1int
        } else {
            0int
        }) + (if c.material == Material::Ground {
            1int
        } else {
            0int
        }),
    decreases s.len(),
{
    if i == s.len() - 1 {
        assert(s.update(i, c).drop_last() == s.drop_last());
    } else {
        assert(s.update(i, c).drop_last() == s.drop_last().update(i, c));
        lemma_ground_count_update(s.drop_last(), i, c);
    }
}

/// Placing ground at an interior point where none of the five stamped cells
/// is ground makes exactly five more ground cells.
pub proof fn lemma_ground_stamp_adds_five(g: Grid, x: int, y: int, mass: u64)
    requires
        g.wf(),
        1 <= x < g.width - 1,
        1 <= y < g.height - 1,
        forall|j: int| #[trigger] in_stamp(g, j, x, y) ==> !g.is_ground(j),
    ensures
        ground_count(stamped_cells(g, x, y, Material::Ground, mass)) == ground_count(g.cells@) + 5,
{
    let w = g.width as int;
    let h = g.height as int;
    let i = y * w + x;
    let gc = Cell { material: Material::Ground, mass: 0 };
    lemma_index_bounds(w, h, x, y);
    lemma_index_bounds(w, h, x, y - 1);
    lemma_index_bounds(w, h, x, y + 1);
    assert((y - 1) * w == y * w - w) by (nonlinear_arith);
    assert((y + 1) * w == y * w + w) by (nonlinear_arith);
    let s0 = g.cells@;
    let s1 = s0.update(i, gc);
    let s2 = s1.update(i - 1, gc);
    let s3 = s2.update(i + 1, gc);
    let s4 = s3.update(i - w, gc);
    let s5 = s4.update(i + w, gc);
    lemma_stamp_indices(g, x, y, i);
    lemma_stamp_indices(g, x, y, i - 1);
    lemma_stamp_indices(g, x, y, i + 1);
    lemma_stamp_indices(g, x, y, i - w);
    lemma_stamp_indices(g, x, y, i + w);
    lemma_ground_count_update(s0, i, gc);
    lemma_ground_count_update(s1, i - 1, gc);
    lemma_ground_count_update(s2, i + 1, gc);
    lemma_ground_count_update(s3, i - w, gc);
    lemma_ground_count_update(s4, i + w, gc);
    assert forall|j: int| 0 <= j < g.len() implies #[trigger] stamped_cells(
        g,
        x,
        y,
        Material::Ground,
        mass,
    )[j] == s5[j] by {
        lemma_stamp_indices(g, x, y, j);
    }
    assert(stamped_cells(g, x, y, Material::Ground, mass) =~= s5);
}

} // verus!
