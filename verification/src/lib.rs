//! Decoders for the fixed binary layout of a Game Boy Advance cartridge
//! image: a bounds-checked binary cursor over the raw bytes, an LZ77
//! decompression engine, bitfield decoders for tiles, blocks and map cells,
//! composite tileset / map-layout decoders, and wildlife-encounter lookup.

pub mod constants;
pub mod encounter;
pub mod error;
pub mod graphics;
pub mod lz77;
pub mod mapping;
pub mod rom;
