//! A lane identifier inside the 8x8 tile, and its two coordinate
//! accessors.
//!
//! The constructor packs `(x, y)` as `x * 8 + y`, while the accessor named
//! `x` reads the low three bits and the one named `y` the high three: the
//! accessor names are transposed against the constructor's arguments. The
//! bit layout is what every consumer (mask iteration, write-back) agrees
//! on, so it is kept exactly as it is end to end.

use vstd::prelude::*;

verus! {

/// A lane number in `[0, 64)`, identifying one pixel of a tile.
#[derive(Clone, Copy, Debug)]
pub struct TileIndex(pub u32);

impl TileIndex {
    pub fn from_xy(x: u32, y: u32) -> (r: TileIndex)
        requires
            x < 8,
            y < 8,
        ensures
            r.0 == x * 8 + y,
    {
        TileIndex(x * 8 + y)
    }

    /// The low three bits: the lane's column within the tile.
    pub fn x(self) -> (r: u32)
        ensures
            r == self.0 as int % 8,
    {
        let n = self.0;
        proof {
            assert(n & 0x7 == n % 8) by (bit_vector);
        }
        n & 0x7
    }

    /// The high bits: the lane's row within the tile.
    pub fn y(self) -> (r: u32)
        ensures
            r == self.0 as int / 8,
    {
        let n = self.0;
        proof {
            assert(n >> 3 == n / 8) by (bit_vector);
        }
        n >> 3
    }

    /// The column, in pixels of the next (eight times wider) level.
    pub fn x8(self) -> (r: u32)
        ensures
            r == (self.0 as int % 8) * 8,
    {
        self.x() * 8
    }

    /// The row, in pixels of the next level.
    pub fn y8(self) -> (r: u32)
        requires
            self.0 < 64,
        ensures
            r == (self.0 as int / 8) * 8,
    {
        self.y() * 8
    }
}

} // verus!
