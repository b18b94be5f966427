//! Display colours.

use vstd::prelude::*;

verus! {

/// The colours of the display, as 24-bit RGB.
#[derive(Clone, Copy, PartialEq, Eq, Structural, Debug)]
pub enum Color {
    Black,
    White,
    Red,
    Yellow,
    Green,
    Cyan,
    Purple,
    Blue,
    Desert,
}

pub open spec fn hex_of(c: Color) -> u32 {
    match c {
        Color::Black => 0x000000,
        Color::White => 0xffffff,
        Color::Red => 0xff0000,
        Color::Yellow => 0xffff00,
        Color::Green => 0x00ff00,
        Color::Cyan => 0x00ffff,
        Color::Blue => 0x0000ff,
        Color::Purple => 0xff00ff,
        Color::Desert => 0xccae62,
    }
}

impl Color {
    pub fn get_hex(&self) -> (r: u32)
        ensures
            r == hex_of(*self),
    {
        match self {
            Color::Black => 0x000000,
            Color::White => 0xffffff,
            Color::Red => 0xff0000,
            Color::Yellow => 0xffff00,
            Color::Green => 0x00ff00,
            Color::Cyan => 0x00ffff,
            Color::Blue => 0x0000ff,
            Color::Purple => 0xff00ff,
            Color::Desert => 0xccae62,
        }
    }
}

} // verus!
