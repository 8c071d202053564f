//! A position on the grid, packed into one number: the level in bits 28 and
//! 29, x in bits 14 to 27, z in bits 0 to 13.

use vstd::prelude::*;

verus! {

/// A level and a position along x and along z, in one number.
#[derive(Clone, Copy, Debug, PartialEq, Eq, Hash)]
pub struct CoordGrid {
    pub coord: u32,
}

impl CoordGrid {
    pub open spec fn x_of(self) -> u16 {
        ((self.coord >> 14) & 0x3fff) as u16
    }

    pub open spec fn z_of(self) -> u16 {
        (self.coord & 0x3fff) as u16
    }

    pub open spec fn level_of(self) -> u8 {
        ((self.coord >> 28) & 0x3) as u8
    }

    /// The zone that a position along one axis lies in: eight positions make
    /// a zone.
    pub open spec fn zone_of(pos: u16) -> u16 {
        pos / 8
    }

    /// A position along one axis, counted from the start of the sixth zone
    /// before its own.
    pub open spec fn local_of(pos: u16) -> int {
        pos - (pos / 8 - 6) * 8
    }

    /// The position `x`, `z` on `level`; of each part the bits that have a
    /// place are kept.
    pub fn new(level: u8, x: u16, z: u16) -> (grid: CoordGrid)
        ensures
            grid.coord == ((z as u32) & 0x3fff) | (((x as u32) & 0x3fff) << 14) | (((level as u32)
                & 0x3) << 28),
    {
        CoordGrid {
            coord: ((z as u32) & 0x3fff) | (((x as u32) & 0x3fff) << 14) | (((level as u32) & 0x3)
                << 28),
        }
    }

    pub fn x(&self) -> (x: u16)
        ensures
            x == self.x_of(),
            x < 0x4000,
    {
        let c: u32 = self.coord;
        assert((c >> 14) & 0x3fff < 0x4000) by (bit_vector);
        ((c >> 14) & 0x3fff) as u16
    }

    pub fn z(&self) -> (z: u16)
        ensures
            z == self.z_of(),
            z < 0x4000,
    {
        let c: u32 = self.coord;
        assert(c & 0x3fff < 0x4000) by (bit_vector);
        (c & 0x3fff) as u16
    }

    pub fn level(&self) -> (level: u8)
        ensures
            level == self.level_of(),
            level < 4,
    {
        let c: u32 = self.coord;
        assert((c >> 28) & 0x3 < 4) by (bit_vector);
        ((c >> 28) & 0x3) as u8
    }

    pub fn zone(pos: u16) -> (zone: u16)
        ensures
            zone == Self::zone_of(pos),
    {
        assert(pos >> 3 == pos / 8) by (bit_vector);
        pos >> 3
    }

    pub fn local_x(&self) -> (local: i32)
        ensures
            local == Self::local_of(self.x_of()),
            48 <= local < 56,
    {
        let x: u16 = self.x();
        x as i32 - (Self::zone(x) as i32 - 6) * 8
    }

    pub fn local_z(&self) -> (local: i32)
        ensures
            local == Self::local_of(self.z_of()),
            48 <= local < 56,
    {
        let z: u16 = self.z();
        z as i32 - (Self::zone(z) as i32 - 6) * 8
    }
}

} // verus!
