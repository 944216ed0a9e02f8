//! One encounter entry: a level range and a species id, four bytes in the
//! cartridge, with write-back support.

use vstd::prelude::*;

use crate::error::{spec_rom_error, Error};
use crate::rom::{
    spec_read_u16_at, spec_read_u8_at, spec_seek, spec_write_le16, Rom, RomError,
};

verus! {

/// One wildlife encounter: the level range and the 16-bit species id.
#[derive(Clone, Copy, Debug, PartialEq, Eq)]
pub struct EncounterEntry {
    pub min_level: u8,
    pub max_level: u8,
    pub species: u16,
}

/// What decoding the entry at `address` yields: two level bytes, then the
/// species as a little-endian word.
pub open spec fn spec_decode_encounter_entry(data: Seq<u8>, address: usize) -> Result<
    EncounterEntry,
    Error,
> {
    match spec_seek(data.len(), address) {
        Err(e) => Err(spec_rom_error(e)),
        Ok(p) => match spec_read_u8_at(data, p as int) {
            Err(e) => Err(spec_rom_error(e)),
            Ok(min_level) => match spec_read_u8_at(data, p + 1) {
                Err(e) => Err(spec_rom_error(e)),
                Ok(max_level) => match spec_read_u16_at(data, p + 2) {
                    Err(e) => Err(spec_rom_error(e)),
                    Ok(species) => Ok(EncounterEntry { min_level, max_level, species }),
                },
            },
        },
    }
}

impl EncounterEntry {
    /// Seeks to `address` and decodes the four-byte entry there.
    pub fn read(address: usize, rom: &mut Rom) -> (r: Result<EncounterEntry, Error>)
        ensures
            final(rom).bytes() == old(rom).bytes(),
            r == spec_decode_encounter_entry(old(rom).bytes(), address),
    {
        match rom.seek_to(address) {
            Ok(()) => {},
            Err(e) => {
                return Err(Error::from(e));
            },
        }
        let min_level = match rom.read_u8() {
            Ok(v) => v,
            Err(e) => {
                return Err(Error::from(e));
            },
        };
        let max_level = match rom.read_u8() {
            Ok(v) => v,
            Err(e) => {
                return Err(Error::from(e));
            },
        };
        let species = match rom.read_u16() {
            Ok(v) => v,
            Err(e) => {
                return Err(Error::from(e));
            },
        };
        Ok(EncounterEntry { min_level, max_level, species })
    }

    /// Seeks to `address` and writes the entry back as four bytes.
    pub fn write(&self, address: usize, rom: &mut Rom) -> (r: Result<(), Error>)
        ensures
            match spec_seek(old(rom).bytes().len(), address) {
                Err(e) => {
                    &&& r == Err::<(), Error>(spec_rom_error(e))
                    &&& final(rom).bytes() == old(rom).bytes()
                },
                Ok(p) => if p + 4 <= old(rom).bytes().len() {
                    &&& r is Ok
                    &&& final(rom).bytes() == spec_write_le16(
                        old(rom).bytes().update(p as int, self.min_level).update(
                            p + 1,
                            self.max_level,
                        ),
                        p + 2,
                        self.species,
                    )
                    &&& final(rom).position() == p + 4
                } else if p + 2 <= old(rom).bytes().len() {
                    &&& r == Err::<(), Error>(
                        spec_rom_error(RomError::OutOfBoundsError((p + 3) as usize)),
                    )
                    &&& final(rom).bytes() == old(rom).bytes().update(
                        p as int,
                        self.min_level,
                    ).update(p + 1, self.max_level)
                } else {
                    &&& r == Err::<(), Error>(
                        spec_rom_error(RomError::OutOfBoundsError((p + 1) as usize)),
                    )
                    &&& final(rom).bytes() == old(rom).bytes().update(p as int, self.min_level)
                },
            },
    {
        match rom.seek_to(address) {
            Ok(()) => {},
            Err(e) => {
                return Err(Error::from(e));
            },
        }
        match rom.write_u8(self.min_level) {
            Ok(()) => {},
            Err(e) => {
                return Err(Error::from(e));
            },
        }
        match rom.write_u8(self.max_level) {
            Ok(()) => {},
            Err(e) => {
                return Err(Error::from(e));
            },
        }
        match rom.write_u16(self.species) {
            Ok(()) => Ok(()),
            Err(e) => Err(Error::from(e)),
        }
    }
}

} // verus!
