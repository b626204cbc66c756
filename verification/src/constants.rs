use vstd::prelude::*;

verus! {

/// Side length of one grid tile, in pixels; every catalog shape lives in a
/// `CELL_SIZE x CELL_SIZE` local square.
pub const CELL_SIZE: u16 = 16;

/// Low five bits of a cell's auxiliary byte select its slope type.
pub const BTS_SLOPE_TYPE_MASK: u8 = 0x1F;

/// Top two bits of a cell's auxiliary byte select its slope flip.
pub const BTS_SLOPE_FLIP_MASK: u8 = 0xC0;

} // verus!
