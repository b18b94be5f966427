//! The material palette and the drawing of its swatches.

use crate::color::{hex_of, Color};
use crate::grid::{lemma_index, lemma_index_bounds, lemma_index_split, Material};
use vstd::prelude::*;

verus! {

/// A swatch for one material in the on-screen palette.
#[derive(Clone, Copy, PartialEq, Eq, Structural, Debug)]
pub struct Widget {
    pub active: bool,
    pub element: Material,
}

impl Widget {
    pub fn new(element: Material) -> (r: Widget)
        ensures
            r == (Widget { active: false, element }),
    {
        Widget { active: false, element }
    }

    pub fn toggle(&mut self)
        ensures
            *final(self) == (Widget { active: !old(self).active, element: old(self).element }),
    {
        self.active = !self.active;
    }

    /// Red while active, yellow otherwise.
    pub fn get_color(&self) -> (r: Color)
        ensures
            r == if self.active {
                Color::Red
            } else {
                Color::Yellow
            },
    {
        if self.active {
            Color::Red
        } else {
            Color::Yellow
        }
    }
}

/// The palette of materials a user draws with, and the one selected.
pub struct Palette {
    pub widgets: Vec<Widget>,
    pub selected: Material,
}

impl Palette {
    /// Swatches for ground and water, ground selected.
    pub fn new() -> (r: Palette)
        ensures
            r.selected == Material::Ground,
            r.widgets@ == seq![
                Widget { active: true, element: Material::Ground },
                Widget { active: false, element: Material::Water },
            ],
    {
        let mut p = Palette { widgets: Vec::new(), selected: Material::Ground };
        p.widgets.push(Widget::new(Material::Ground));
        p.widgets.push(Widget::new(Material::Water));
        p.select_element(Material::Ground);
        proof {
            assert(p.widgets@ =~= seq![
                Widget { active: true, element: Material::Ground },
                Widget { active: false, element: Material::Water },
            ]);
        }
        p
    }

    /// Selects `element`: exactly the swatches of that material are active.
    pub fn select_element(&mut self, element: Material)
        ensures
            final(self).selected == element,
            final(self).widgets@.len() == old(self).widgets@.len(),
            forall|i: int|
                0 <= i < old(self).widgets@.len() ==> #[trigger] final(self).widgets@[i] == (Widget {
                    active: old(self).widgets@[i].element == element,
                    element: old(self).widgets@[i].element,
                }),
    {
        self.selected = element;
        let n = self.widgets.len();
        let mut i: usize = 0;
        while i < n
            invariant
                i <= n,
                n == old(self).widgets@.len(),
                self.selected == element,
                self.widgets@.len() == n,
                forall|j: int|
                    0 <= j < i ==> #[trigger] self.widgets@[j] == (Widget {
                        active: old(self).widgets@[j].element == element,
                        element: old(self).widgets@[j].element,
                    }),
                forall|j: int| i <= j < n ==> #[trigger] self.widgets@[j] == old(self).widgets@[j],
            decreases n - i,
        {
            let w = self.widgets[i];
            self.widgets.set(i, Widget { active: w.element == element, element: w.element });
            i += 1;
        }
    }
}

/// Pixel `i` of a frame `width` pixels wide lies in the square of side
/// `length` with top left corner `(x, y)`, counting only rows above `py` and,
/// on row `py`, columns before `px`.
pub open spec fn painted_before(i: int, width: int, x: int, y: int, length: int, px: int, py: int) -> bool {
    let cx = i % width;
    let cy = i / width;
    &&& x <= cx < x + length
    &&& y <= cy < y + length
    &&& (cy < py || (cy == py && cx < px))
}

/// Paints a `length` by `length` square of `color` with its top left corner
/// at `(x, y)` into a frame `width` pixels wide, stored row by row.
pub fn render_rectangle(buff: &mut Vec<u32>, width: usize, x: usize, y: usize, length: usize, color: Color)
    requires
        width > 0,
        x + length <= width,
        (y + length) * width <= old(buff)@.len(),
    ensures
        final(buff)@.len() == old(buff)@.len(),
        forall|i: int|
            0 <= i < old(buff)@.len() ==> #[trigger] final(buff)@[i] == if painted_before(
                i,
                width as int,
                x as int,
                y as int,
                length as int,
                x as int,
                (y + length) as int,
            ) {
                hex_of(color)
            } else {
                old(buff)@[i]
            },
{
    let hex = color.get_hex();
    let n = buff.len();
    proof {
        assert((y + length) <= (y + length) * width) by (nonlinear_arith)
            requires
                width > 0,
        ;
    }
    let mut py: usize = y;
    while py < y + length
        invariant
            width > 0,
            n == old(buff)@.len(),
            y + length <= n,
            x + length <= width,
            (y + length) * width <= old(buff)@.len(),
            y <= py <= y + length,
            buff@.len() == old(buff)@.len(),
            hex == hex_of(color),
            forall|i: int|
                0 <= i < old(buff)@.len() ==> #[trigger] buff@[i] == if painted_before(
                    i,
                    width as int,
                    x as int,
                    y as int,
                    length as int,
                    x as int,
                    py as int,
                ) {
                    hex_of(color)
                } else {
                    old(buff)@[i]
                },
        decreases y + length - py,
    {
        let mut px: usize = x;
        while px < x + length
            invariant
                width > 0,
                n == old(buff)@.len(),
                x + length <= width,
                (y + length) * width <= old(buff)@.len(),
                y <= py < y + length,
                x <= px <= x + length,
                buff@.len() == old(buff)@.len(),
                hex == hex_of(color),
                forall|i: int|
                    0 <= i < old(buff)@.len() ==> #[trigger] buff@[i] == if painted_before(
                        i,
                        width as int,
                        x as int,
                        y as int,
                        length as int,
                        px as int,
                        py as int,
                    ) {
                        hex_of(color)
                    } else {
                        old(buff)@[i]
                    },
            decreases x + length - px,
        {
            proof {
                lemma_index_bounds(width as int, (y + length) as int, px as int, py as int);
                lemma_index(width as int, px as int, py as int);
                assert(width * (y + length) == (y + length) * width) by (nonlinear_arith);
            }
            let k = py * width + px;
            let ghost before = buff@;
            buff.set(k, hex);
            proof {
                assert forall|i: int| 0 <= i < old(buff)@.len() implies #[trigger] buff@[i]
                    == if painted_before(
                    i,
                    width as int,
                    x as int,
                    y as int,
                    length as int,
                    px + 1,
                    py as int,
                ) {
                    hex_of(color)
                } else {
                    old(buff)@[i]
                } by {
                    if i != k {
                        lemma_index_split(width as int, i);
                        assert(before[i] == buff@[i]);
                        assert(painted_before(i, width as int, x as int, y as int, length as int, px + 1, py as int)
                            == painted_before(i, width as int, x as int, y as int, length as int, px as int, py as int));
                    }
                }
            }
            px += 1;
        }
        proof {
            assert forall|i: int| 0 <= i < old(buff)@.len() implies #[trigger] buff@[i] == if painted_before(
                i,
                width as int,
                x as int,
                y as int,
                length as int,
                x as int,
                py + 1,
            ) {
                hex_of(color)
            } else {
                old(buff)@[i]
            } by {
                assert(painted_before(i, width as int, x as int, y as int, length as int, x as int, py + 1)
                    == painted_before(i, width as int, x as int, y as int, length as int, (x + length) as int, py as int));
            }
        }
        py += 1;
    }
}

} // verus!
