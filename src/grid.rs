//! Cells, materials and the grid that holds them.

use vstd::arithmetic::div_mod::lemma_fundamental_div_mod_converse;
use vstd::prelude::*;

verus! {

/// Units of mass in one cell's worth of uncompressed fluid (the value 1.0).
pub const MASS_UNIT: u64 = 10_000;

/// The largest total mass a grid may hold; keeps every sum of masses far
/// from `u64::MAX`.
pub const MAX_TOTAL_MASS: u64 = 0x1000_0000_0000_0000;

/// What a cell is made of.
#[derive(Clone, Copy, PartialEq, Eq, Structural, Debug)]
pub enum Material {
    Empty,
    Ground,
    Water,
    Acid,
}

impl Material {
    pub open spec fn is_fluid(self) -> bool {
        self == Material::Water || self == Material::Acid
    }

    pub fn is_ground(&self) -> (r: bool)
        ensures
            r == (*self == Material::Ground),
    {
        match self {
            Material::Ground => true,
            _ => false,
        }
    }

    pub fn is_fluid_kind(&self) -> (r: bool)
        ensures
            r == self.is_fluid(),
    {
        match self {
            Material::Water => true,
            Material::Acid => true,
            _ => false,
        }
    }
}

/// One lattice site.
#[derive(Clone, Copy, PartialEq, Eq, Structural, Debug)]
pub struct Cell {
    pub material: Material,
    pub mass: u64,
}

impl Cell {
    pub fn empty() -> (r: Cell)
        ensures
            r == (Cell { material: Material::Empty, mass: 0 }),
    {
        Cell { material: Material::Empty, mass: 0 }
    }
}

impl Default for Material {
    fn default() -> (r: Material)
        ensures
            r == Material::Empty,
    {
        Material::Empty
    }
}

impl Default for Cell {
    fn default() -> (r: Cell)
        ensures
            r == Cell::empty_spec(),
    {
        Cell::empty()
    }
}

/// Why a grid or a cave could not be made.
#[derive(Clone, Copy, PartialEq, Eq, Structural, Debug)]
pub enum ConfigurationError {
    /// Fewer than three columns or rows.
    TooSmall,
    /// `width * height` does not fit in `usize`.
    TooLarge,
    /// A cave needs at least one smoothing pass.
    NoIterations,
    /// A density above `DENSITY_SCALE`.
    DensityOutOfRange,
    /// The number of random rolls differs from the number of cells.
    RollCount,
}

/// Sum of the masses of a sequence of cells.
pub open spec fn mass_sum(s: Seq<Cell>) -> int
    decreases s.len(),
{
    if s.len() == 0 {
        0
    } else {
        mass_sum(s.drop_last()) + s.last().mass
    }
}

/// A rectangular lattice of cells, stored row by row: the cell in column `x`
/// and row `y` sits at index `y * width + x`. Row 0 is the bottom row.
pub struct Grid {
    pub width: usize,
    pub height: usize,
    pub cells: Vec<Cell>,
}

impl Grid {
    pub open spec fn len(&self) -> int {
        self.cells@.len() as int
    }

    pub open spec fn idx(&self, x: int, y: int) -> int {
        y * self.width + x
    }

    pub open spec fn col(&self, i: int) -> int {
        i % (self.width as int)
    }

    pub open spec fn row(&self, i: int) -> int {
        i / (self.width as int)
    }

    pub open spec fn total_mass(&self) -> int {
        mass_sum(self.cells@)
    }

    /// Cells off the outer ring of rows and columns.
    pub open spec fn interior(&self, i: int) -> bool {
        &&& 0 <= i < self.len()
        &&& 1 <= self.col(i) < self.width - 1
        &&& 1 <= self.row(i) < self.height - 1
    }

    pub open spec fn on_border(&self, i: int) -> bool {
        0 <= i < self.len() && !self.interior(i)
    }

    pub open spec fn is_ground(&self, i: int) -> bool {
        self.cells@[i].material == Material::Ground
    }

    pub open spec fn mass_of(&self, i: int) -> int {
        self.cells@[i].mass as int
    }

    /// At least 3x3, one cell per site, ground holds no mass, and the total
    /// mass is bounded.
    pub open spec fn wf(&self) -> bool {
        &&& 3 <= self.width
        &&& 3 <= self.height
        &&& self.cells@.len() == self.width * self.height
        &&& forall|i: int|
            0 <= i < self.len() && #[trigger] self.is_ground(i) ==> self.mass_of(i) == 0
        &&& self.total_mass() <= MAX_TOTAL_MASS
    }

    /// A grid of empty cells.
    pub fn new(width: usize, height: usize) -> (r: Result<Grid, ConfigurationError>)
        ensures
            (width < 3 || height < 3) <==> r == Err::<Grid, _>(ConfigurationError::TooSmall),
            (width >= 3 && height >= 3 && width * height > usize::MAX) <==> r == Err::<
                Grid,
                _,
            >(ConfigurationError::TooLarge),
            (width >= 3 && height >= 3 && width * height <= usize::MAX) <==> r is Ok,
            r is Ok ==> {
                let g = r->Ok_0;
                &&& g.wf()
                &&& g.width == width
                &&& g.height == height
                &&& forall|i: int| 0 <= i < g.len() ==> g.cells@[i] == Cell::empty_spec()
            },
    {
        if width < 3 || height < 3 {
            return Err(ConfigurationError::TooSmall);
        }
        let n = match width.checked_mul(height) {
            Some(n) => n,
            None => {
                return Err(ConfigurationError::TooLarge);
            },
        };
        let mut cells: Vec<Cell> = Vec::with_capacity(n);
        let mut i: usize = 0;
        while i < n
            invariant
                i <= n,
                cells@.len() == i,
                forall|j: int| 0 <= j < i ==> cells@[j] == Cell::empty_spec(),
                mass_sum(cells@) == 0,
            decreases n - i,
        {
            proof {
                assert(cells@.push(Cell::empty_spec()).drop_last() == cells@);
            }
            cells.push(Cell::empty());
            i += 1;
        }
        Ok(Grid { width, height, cells })
    }

    pub fn width(&self) -> (r: usize)
        ensures
            r == self.width,
    {
        self.width
    }

    pub fn height(&self) -> (r: usize)
        ensures
            r == self.height,
    {
        self.height
    }

    /// The cell in column `x`, row `y`.
    pub fn get(&self, x: usize, y: usize) -> (r: Cell)
        requires
            self.wf(),
            x < self.width,
            y < self.height,
        ensures
            r == self.cells@[self.idx(x as int, y as int)],
    {
        let n = self.cells.len();
        proof {
            lemma_index_bounds(self.width as int, self.height as int, x as int, y as int);
        }
        self.cells[y * self.width + x]
    }

    /// The sum of all masses.
    pub fn total_mass_of(&self) -> (r: u64)
        requires
            self.wf(),
        ensures
            r == self.total_mass(),
    {
        let mut sum: u64 = 0;
        let mut i: usize = 0;
        while i < self.cells.len()
            invariant
                self.wf(),
                i <= self.cells@.len(),
                sum == mass_sum(self.cells@.take(i as int)),
            decreases self.cells@.len() - i,
        {
            proof {
                lemma_mass_sum_prefix_le(self.cells@, i as int + 1);
                assert(self.cells@.take(i as int + 1).drop_last() == self.cells@.take(i as int));
            }
            sum = sum + self.cells[i].mass;
            i += 1;
        }
        proof {
            assert(self.cells@.take(i as int) == self.cells@);
        }
        sum
    }
}

impl Cell {
    pub open spec fn empty_spec() -> Cell {
        Cell { material: Material::Empty, mass: 0 }
    }
}

/// Column and row of the cell at `y * w + x`.
pub proof fn lemma_index(w: int, x: int, y: int)
    requires
        0 <= x < w,
    ensures
        (y * w + x) % w == x,
        (y * w + x) / w == y,
{
    lemma_fundamental_div_mod_converse(y * w + x, w, y, x);
}

/// `y * w + x` lies in a `w` by `h` grid.
pub proof fn lemma_index_bounds(w: int, h: int, x: int, y: int)
    requires
        0 <= x < w,
        0 <= y < h,
    ensures
        0 <= y * w + x < w * h,
        0 <= y * w,
{
    assert(0 <= y * w) by (nonlinear_arith)
        requires
            0 <= y,
            0 <= w,
    ;
    assert(y * w + x < w * h) by (nonlinear_arith)
        requires
            0 <= x < w,
            0 <= y < h,
    ;
}

/// An index is its row times the width plus its column.
pub proof fn lemma_index_split(w: int, i: int)
    requires
        0 < w,
        0 <= i,
    ensures
        i == (i / w) * w + i % w,
        0 <= i % w < w,
        0 <= i / w,
{
    vstd::arithmetic::div_mod::lemma_fundamental_div_mod(i, w);
    vstd::arithmetic::div_mod::lemma_mod_pos_bound(i, w);
    vstd::arithmetic::div_mod::lemma_div_pos_is_pos(i, w);
    vstd::arithmetic::mul::lemma_mul_is_commutative(w, i / w);
}

pub proof fn lemma_mass_sum_nonneg(s: Seq<Cell>)
    ensures
        mass_sum(s) >= 0,
    decreases s.len(),
{
    if s.len() > 0 {
        lemma_mass_sum_nonneg(s.drop_last());
    }
}

/// A prefix holds no more mass than the whole.
pub proof fn lemma_mass_sum_prefix_le(s: Seq<Cell>, k: int)
    requires
        0 <= k <= s.len(),
    ensures
        0 <= mass_sum(s.take(k)) <= mass_sum(s),
    decreases s.len(),
{
    if k == s.len() {
        assert(s.take(k) == s);
        lemma_mass_sum_nonneg(s);
    } else {
        assert(s.drop_last().take(k) == s.take(k));
        lemma_mass_sum_prefix_le(s.drop_last(), k);
    }
}

/// One cell holds no more mass than the whole.
pub proof fn lemma_mass_le_sum(s: Seq<Cell>, i: int)
    requires
        0 <= i < s.len(),
    ensures
        s[i].mass <= mass_sum(s),
    decreases s.len(),
{
    if i == s.len() - 1 {
        lemma_mass_sum_nonneg(s.drop_last());
    } else {
        lemma_mass_le_sum(s.drop_last(), i);
    }
}

/// Replacing one cell changes the sum by the difference of the masses.
pub proof fn lemma_mass_sum_update(s: Seq<Cell>, i: int, c: Cell)
    requires
        0 <= i < s.len(),
    ensures
        mass_sum(s.update(i, c)) == mass_sum(s) - s[i].mass + c.mass,
    decreases s.len(),
{
    if i == s.len() - 1 {
        assert(s.update(i, c).drop_last() == s.drop_last());
    } else {
        assert(s.update(i, c).drop_last() == s.drop_last().update(i, c));
        lemma_mass_sum_update(s.drop_last(), i, c);
    }
}

/// A copy of a row of cells.
pub fn copy_cells(v: &Vec<Cell>) -> (r: Vec<Cell>)
    ensures
        r@ == v@,
{
    let n = v.len();
    let mut r: Vec<Cell> = Vec::with_capacity(n);
    let mut k: usize = 0;
    while k < n
        invariant
            k <= n,
            n == v@.len(),
            r@ == v@.take(k as int),
        decreases n - k,
    {
        proof {
            assert(v@.take(k as int + 1) == v@.take(k as int).push(v@[k as int]));
        }
        r.push(v[k]);
        k += 1;
    }
    proof {
        assert(v@.take(n as int) == v@);
    }
    r
}

/// A cell-by-cell lighter sequence holds no more mass.
pub proof fn lemma_mass_sum_pointwise_le(a: Seq<Cell>, b: Seq<Cell>)
    requires
        a.len() == b.len(),
        forall|i: int| 0 <= i < a.len() ==> #[trigger] a[i].mass <= b[i].mass,
    ensures
        mass_sum(a) <= mass_sum(b),
    decreases a.len(),
{
    if a.len() > 0 {
        lemma_mass_sum_pointwise_le(a.drop_last(), b.drop_last());
    }
}

impl Grid {
    /// Index of the cell whose material a quarter turn brings to cell `i` of
    /// a square grid. With row 0 at the bottom, `clockwise` takes the cell at
    /// `(x, y)` from `(y, n - 1 - x)`, the other way from `(n - 1 - y, x)`.
    pub open spec fn turn_source(&self, i: int, clockwise: bool) -> int {
        let n = self.width as int;
        let x = self.col(i);
        let y = self.row(i);
        if clockwise {
            (n - 1 - x) * n + y
        } else {
            x * n + (n - 1 - y)
        }
    }

    /// Turns the layout of materials of a square grid a quarter turn; masses
    /// stay where they are, but a cell that becomes ground loses its mass.
    pub fn rotate_materials(&mut self, clockwise: bool)
        requires
            old(self).wf(),
            old(self).width == old(self).height,
        ensures
            final(self).wf(),
            final(self).width == old(self).width,
            final(self).height == old(self).height,
            forall|i: int|
                0 <= i < old(self).len() ==> #[trigger] final(self).cells@[i] == (Cell {
                    material: old(self).cells@[old(self).turn_source(i, clockwise)].material,
                    mass: if old(self).cells@[old(self).turn_source(i, clockwise)].material
                        == Material::Ground {
                        0
                    } else {
                        old(self).cells@[i].mass
                    },
                }),
    {
        let ghost g = *self;
        let n = self.width;
        let len = self.cells.len();
        let mut cells: Vec<Cell> = Vec::with_capacity(len);
        let mut i: usize = 0;
        let mut x: usize = 0;
        let mut y: usize = 0;
        while i < len
            invariant
                g == *self,
                g.wf(),
                n == g.width,
                n == g.height,
                len == g.len(),
                i <= len,
                x < n,
                i == y * n + x,
                cells@.len() == i,
                forall|j: int|
                    0 <= j < i ==> #[trigger] cells@[j] == (Cell {
                        material: g.cells@[g.turn_source(j, clockwise)].material,
                        mass: if g.cells@[g.turn_source(j, clockwise)].material == Material::Ground {
                            0
                        } else {
                            g.cells@[j].mass
                        },
                    }),
                forall|j: int| 0 <= j < i ==> #[trigger] cells@[j].mass <= g.cells@[j].mass,
            decreases len - i,
        {
            proof {
                lemma_index(n as int, x as int, y as int);
                assert(y < n) by (nonlinear_arith)
                    requires
                        i == y * n + x,
                        0 <= x,
                        i < n * n,
                        n > 0,
                ;
                lemma_index_bounds(n as int, n as int, y as int, (n - 1 - x) as int);
                lemma_index_bounds(n as int, n as int, (n - 1 - y) as int, x as int);
            }
            let src = if clockwise {
                (n - 1 - x) * n + y
            } else {
                x * n + (n - 1 - y)
            };
            let m = self.cells[src].material;
            let c = Cell {
                material: m,
                mass: if m.is_ground() {
                    0
                } else {
                    self.cells[i].mass
                },
            };
            cells.push(c);
            proof {
                assert((y + 1) * n == y * n + n) by (nonlinear_arith);
            }
            i += 1;
            x += 1;
            if x == n {
                x = 0;
                y += 1;
            }
        }
        proof {
            lemma_mass_sum_pointwise_le(cells@, g.cells@);
            lemma_mass_sum_nonneg(cells@);
        }
        self.cells = cells;
    }

    /// Empties every cell.
    pub fn clear(&mut self)
        requires
            old(self).wf(),
        ensures
            final(self).wf(),
            final(self).width == old(self).width,
            final(self).height == old(self).height,
            forall|i: int| 0 <= i < old(self).len() ==> #[trigger] final(self).cells@[i] == Cell::empty_spec(),
    {
        let len = self.cells.len();
        let mut cells: Vec<Cell> = Vec::with_capacity(len);
        let mut i: usize = 0;
        while i < len
            invariant
                i <= len,
                cells@.len() == i,
                forall|j: int| 0 <= j < i ==> #[trigger] cells@[j] == Cell::empty_spec(),
                mass_sum(cells@) == 0,
            decreases len - i,
        {
            proof {
                assert(cells@.push(Cell::empty_spec()).drop_last() == cells@);
            }
            cells.push(Cell::empty());
            i += 1;
        }
        self.cells = cells;
    }
}

impl Grid {
    /// A quarter turn of the materials, see `rotate_materials`.
    pub fn rotate_canvas_clockwise(&mut self)
        requires
            old(self).wf(),
            old(self).width == old(self).height,
        ensures
            final(self).wf(),
            final(self).width == old(self).width,
            final(self).height == old(self).height,
            forall|i: int|
                0 <= i < old(self).len() ==> #[trigger] final(self).cells@[i] == (Cell {
                    material: old(self).cells@[old(self).turn_source(i, true)].material,
                    mass: if old(self).cells@[old(self).turn_source(i, true)].material
                        == Material::Ground {
                        0
                    } else {
                        old(self).cells@[i].mass
                    },
                }),
    {
        self.rotate_materials(true);
    }

    /// A quarter turn of the materials the other way, see `rotate_materials`.
    pub fn rotate_canvas_anticlockwise(&mut self)
        requires
            old(self).wf(),
            old(self).width == old(self).height,
        ensures
            final(self).wf(),
            final(self).width == old(self).width,
            final(self).height == old(self).height,
            forall|i: int|
                0 <= i < old(self).len() ==> #[trigger] final(self).cells@[i] == (Cell {
                    material: old(self).cells@[old(self).turn_source(i, false)].material,
                    mass: if old(self).cells@[old(self).turn_source(i, false)].material
                        == Material::Ground {
                        0
                    } else {
                        old(self).cells@[i].mass
                    },
                }),
    {
        self.rotate_materials(false);
    }
}

} // verus!
