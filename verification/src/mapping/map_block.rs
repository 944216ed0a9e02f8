//! The map grid cell: one 16-bit word holding a block id and a movement
//! permission, with write-back support.

use vstd::prelude::*;

use crate::error::{spec_rom_error, Error};
use crate::rom::{spec_read_u16_at, spec_seek, spec_write_le16, Rom, RomError};

verus! {

/// One cell of a map layout's grid: a 10-bit block id and a 6-bit movement
/// permission (collision and elevation bits).
#[derive(Clone, Copy, Debug, PartialEq, Eq)]
pub struct MapBlock {
    pub block_id: u16,
    pub permission: u8,
}

/// The cell a 16-bit word unpacks to: bits 0-9 the block id, bits 10-15
/// the permission.
pub open spec fn spec_map_block_from_word(value: u16) -> MapBlock {
    MapBlock { block_id: (value & 0x3FF) as u16, permission: (value >> 0xA) as u8 }
}

/// The 16-bit word a cell packs back to.
pub open spec fn spec_map_block_to_word(mb: MapBlock) -> u16 {
    (mb.block_id | ((mb.permission as u16) << 0xA)) as u16
}

/// What decoding the cell at `address` yields.
pub open spec fn spec_decode_map_block(data: Seq<u8>, address: usize) -> Result<MapBlock, Error> {
    match spec_seek(data.len(), address) {
        Err(e) => Err(spec_rom_error(e)),
        Ok(p) => match spec_read_u16_at(data, p as int) {
            Err(e) => Err(spec_rom_error(e)),
            Ok(w) => Ok(spec_map_block_from_word(w)),
        },
    }
}

impl MapBlock {
    /// Seeks to `address` and unpacks the 16-bit cell word there.
    pub fn read(address: usize, rom: &mut Rom) -> (r: Result<MapBlock, Error>)
        ensures
            final(rom).bytes() == old(rom).bytes(),
            r == spec_decode_map_block(old(rom).bytes(), address),
    {
        match rom.seek_to(address) {
            Ok(()) => {},
            Err(e) => {
                return Err(Error::from(e));
            },
        }
        let value = match rom.read_u16() {
            Ok(v) => v,
            Err(e) => {
                return Err(Error::from(e));
            },
        };
        proof {
            assert((value >> 0xA) <= 63) by (bit_vector);
        }
        Ok(MapBlock { block_id: value & 0x3FF, permission: (value >> 0xA) as u8 })
    }

    /// Seeks to `address` and writes the cell back as one 16-bit word.
    pub fn write(&self, address: usize, rom: &mut Rom) -> (r: Result<(), Error>)
        ensures
            match spec_seek(old(rom).bytes().len(), address) {
                Err(e) => {
                    &&& r == Err::<(), Error>(spec_rom_error(e))
                    &&& final(rom).bytes() == old(rom).bytes()
                },
                Ok(p) => if p + 2 <= old(rom).bytes().len() {
                    &&& r is Ok
                    &&& final(rom).bytes() == spec_write_le16(
                        old(rom).bytes(),
                        p as int,
                        spec_map_block_to_word(*self),
                    )
                    &&& final(rom).position() == p + 2
                } else {
                    &&& r == Err::<(), Error>(
                        spec_rom_error(RomError::OutOfBoundsError((p + 1) as usize)),
                    )
                    &&& final(rom).bytes() == old(rom).bytes()
                },
            },
    {
        match rom.seek_to(address) {
            Ok(()) => {},
            Err(e) => {
                return Err(Error::from(e));
            },
        }
        let value = self.block_id | ((self.permission as u16) << 0xA);
        match rom.write_u16(value) {
            Ok(()) => Ok(()),
            Err(e) => Err(Error::from(e)),
        }
    }
}

} // verus!
