//! Fixed dimensions of the cartridge's tile and tileset layout.

use vstd::prelude::*;

verus! {

/// Width and height of one tile, in pixels.
pub const SIZE_TILE: usize = 8;

/// Width and height of one block (a 2x2 arrangement of tiles), in pixels.
pub const SIZE_BLOCK: usize = SIZE_TILE * 2;

/// Number of palettes a tileset carries.
pub const NUM_PALETTES_IN_TILESET: usize = 16;

/// Number of colors in one palette.
pub const NUM_COLORS_IN_PALETTE: usize = 16;

/// Most blocks a primary tileset may hold.
pub const MAX_NUM_PRIMARY_BLOCKS: usize = 640;

/// Most blocks a secondary tileset may hold.
pub const MAX_NUM_SECONDARY_BLOCKS: usize = 384;

/// Most tiles a primary tileset may hold.
pub const MAX_NUM_PRIMARY_TILES: usize = 640;

/// Most tiles a secondary tileset may hold.
pub const MAX_NUM_SECONDARY_TILES: usize = 384;

} // verus!
