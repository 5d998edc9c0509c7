//! Mapping pointer positions in pixels to console cells.
use vstd::prelude::*;

use crate::console::Console;

verus! {

/// A non-negative rational number `num / den`: a position in cells with its
/// fraction of a cell kept exactly.
#[derive(Clone, Copy, PartialEq, Eq, Debug)]
pub struct Ratio {
    pub num: u64,
    pub den: u32,
}

impl Ratio {
    /// The whole number of cells: the ratio rounded down.
    pub fn trunc(&self) -> (r: u64)
        requires
            self.den > 0,
        ensures
            r == self.num / (self.den as u64),
    {
        self.num / (self.den as u64)
    }
}

impl Console {
    /// The cell position of pixel `(x, y)` on a `width × height` viewport:
    /// `x / width * console width` and `y / height * console height`, kept
    /// as exact ratios. No axis is flipped.
    pub fn pixel_to_pos(&self, x: u32, y: u32, width: u32, height: u32) -> (r: (Ratio, Ratio))
        requires
            width > 0,
            height > 0,
        ensures
            r.0.num == x * self@.width,
            r.0.den == width,
            r.1.num == y * self@.height,
            r.1.den == height,
    {
        let cw = self.get_width() as u64;
        let ch = self.get_height() as u64;
        assert((x as u64) * cw <= u32::MAX * u32::MAX) by (nonlinear_arith)
            requires
                x <= u32::MAX,
                cw <= u32::MAX,
        ;
        assert((y as u64) * ch <= u32::MAX * u32::MAX) by (nonlinear_arith)
            requires
                y <= u32::MAX,
                ch <= u32::MAX,
        ;
        (Ratio { num: (x as u64) * cw, den: width }, Ratio { num: (y as u64) * ch, den: height })
    }
}

} // verus!
