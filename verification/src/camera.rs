use vstd::prelude::*;

verus! {

/// Width of the tile grid, in tiles.
pub const MAP_W: usize = 36;

/// Height of the tile grid, in tiles.
pub const MAP_H: usize = 36;

/// Side of a square tile, in world pixels.
pub const TILE_SIZE: i64 = 32;

} // verus!
