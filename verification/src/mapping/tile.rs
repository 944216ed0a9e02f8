//! The tile record: one 16-bit word unpacked into a tile id, two flip
//! flags and a palette id.

use vstd::prelude::*;

use crate::error::{spec_rom_error, Error};
use crate::rom::{spec_read_u16_at, spec_seek, Rom};

verus! {

/// Marker for a tile that could not be decoded, carrying its address.
#[derive(Clone, Copy, Debug, PartialEq, Eq)]
pub struct InvalidTile(pub usize);

/// One 8x8 tile reference: a 10-bit tile id, horizontal and vertical flip
/// bits, and a 4-bit palette id.
#[derive(Clone, Copy, Debug, PartialEq, Eq)]
pub struct Tile {
    pub tile_id: u16,
    pub h_flip: bool,
    pub v_flip: bool,
    pub palette_id: u8,
}

/// The tile a 16-bit word unpacks to: bits 0-9 the tile id, bit 10 the
/// horizontal flip, bit 11 the vertical flip, bits 12-15 the palette id.
pub open spec fn spec_tile_from_word(value: u16) -> Tile {
    Tile {
        tile_id: (value & 0x3FF) as u16,
        h_flip: ((value >> 0xA) & 1) != 0,
        v_flip: ((value >> 0xB) & 1) != 0,
        palette_id: (value >> 0xC) as u8,
    }
}

/// What decoding the tile at `address` yields: a seek, then one 16-bit word
/// unpacked by `spec_tile_from_word`.
pub open spec fn spec_decode_tile(data: Seq<u8>, address: usize) -> Result<Tile, Error> {
    match spec_seek(data.len(), address) {
        Err(e) => Err(spec_rom_error(e)),
        Ok(p) => match spec_read_u16_at(data, p as int) {
            Err(e) => Err(spec_rom_error(e)),
            Ok(w) => Ok(spec_tile_from_word(w)),
        },
    }
}

impl Tile {
    /// Seeks to `address` and unpacks the 16-bit tile word there.
    pub fn read(address: usize, rom: &mut Rom) -> (r: Result<Tile, Error>)
        ensures
            final(rom).bytes() == old(rom).bytes(),
            r == spec_decode_tile(old(rom).bytes(), address),
    {
        match rom.seek_to(address) {
            Ok(()) => {},
            Err(e) => {
                return Err(Error::from(e));
            },
        }
        let value = match rom.read_u16() {
            Ok(v) => v,
            Err(e) => {
                return Err(Error::from(e));
            },
        };
        proof {
            assert((value >> 0xC) <= 15) by (bit_vector);
        }
        Ok(
            Tile {
                tile_id: value & 0x3FF,
                h_flip: ((value >> 0xA) & 1) != 0,
                v_flip: ((value >> 0xB) & 1) != 0,
                palette_id: (value >> 0xC) as u8,
            },
        )
    }
}

} // verus!
