//! The per-map encounter descriptor: found by a linear scan of the
//! table-of-tables in 20-byte strides, keyed on bank and map number and
//! terminated by the (255, 255) sentinel.

use vstd::prelude::*;

use crate::encounter::encounter_table::{spec_read_encounter_table, EncounterTable, EncounterType};
use crate::error::{spec_rom_error, Error};
use crate::rom::{
    spec_in_virtual_range, spec_read_address_at, spec_read_u16_at, spec_read_u8_at, spec_seek, Rom,
};

verus! {

/// Physical offset of the table-of-tables in this cartridge revision.
pub const ENCOUNTER_TABLES_ADDRESS: usize = 0x3C9CB8;

/// One map's encounter descriptor: its bank and map number and the
/// addresses of its four per-terrain tables (the fishing address serves
/// all three rod kinds).
#[derive(Clone, Copy, Debug, PartialEq, Eq)]
pub struct EncounterTables {
    pub bank_num: usize,
    pub map_num: usize,
    pub _padding: u16,
    pub grass_address: usize,
    pub surf_address: usize,
    pub rock_smash_address: usize,
    pub fishing_address: usize,
}

/// What reading a descriptor at `address` yields: a bank byte, a map
/// byte, a padding word, then four pointer words.
pub open spec fn spec_read_encounter_tables(data: Seq<u8>, address: usize) -> Result<
    EncounterTables,
    Error,
> {
    match spec_seek(data.len(), address) {
        Err(e) => Err(spec_rom_error(e)),
        Ok(p) => match spec_read_u8_at(data, p as int) {
            Err(e) => Err(spec_rom_error(e)),
            Ok(bank) => match spec_read_u8_at(data, p + 1) {
                Err(e) => Err(spec_rom_error(e)),
                Ok(map) => match spec_read_u16_at(data, p + 2) {
                    Err(e) => Err(spec_rom_error(e)),
                    Ok(padding) => match spec_read_address_at(data, p + 4) {
                        Err(e) => Err(spec_rom_error(e)),
                        Ok(grass_address) => match spec_read_address_at(data, p + 8) {
                            Err(e) => Err(spec_rom_error(e)),
                            Ok(surf_address) => match spec_read_address_at(data, p + 12) {
                                Err(e) => Err(spec_rom_error(e)),
                                Ok(rock_smash_address) => match spec_read_address_at(data, p + 16) {
                                    Err(e) => Err(spec_rom_error(e)),
                                    Ok(fishing_address) => Ok(
                                        EncounterTables {
                                            bank_num: bank as usize,
                                            map_num: map as usize,
                                            _padding: padding,
                                            grass_address,
                                            surf_address,
                                            rock_smash_address,
                                            fishing_address,
                                        },
                                    ),
                                },
                            },
                        },
                    },
                },
            },
        },
    }
}

/// What the linear scan starting at `address` yields: the descriptor for
/// `(bank_num, map_num)` if one stands before the (255, 255) sentinel,
/// `None` at the sentinel, and the first read failure otherwise (on a
/// buffer with no sentinel the scan runs off the end and fails out of
/// bounds rather than looping forever). A stride that would pass the top
/// of the address space stops the scan as out of bounds too; on a real
/// buffer, whose length a `usize` bounds, that never happens.
pub open spec fn spec_scan_tables(
    data: Seq<u8>,
    address: usize,
    bank_num: usize,
    map_num: usize,
) -> Result<Option<EncounterTables>, Error>
    decreases 0xA000015 + data.len() - address,
    via spec_scan_tables_decreases
{
    match spec_read_encounter_tables(data, address) {
        Err(e) => Err(e),
        Ok(t) => if t.bank_num == 0xFF && t.map_num == 0xFF {
            Ok(None)
        } else if t.bank_num == bank_num && t.map_num == map_num {
            Ok(Some(t))
        } else if address + 20 <= usize::MAX {
            spec_scan_tables(data, (address + 20) as usize, bank_num, map_num)
        } else {
            Err(Error::OutOfBoundsError(address))
        },
    }
}

#[via_fn]
proof fn spec_scan_tables_decreases(data: Seq<u8>, address: usize, bank_num: usize, map_num: usize) {
    match spec_read_encounter_tables(data, address) {
        Err(_) => {},
        Ok(_) => {
            let p = spec_seek(data.len(), address)->Ok_0;
            assert(p + 20 <= data.len());
            if spec_in_virtual_range(address) {
                assert(address + 20 <= 0xA000014);
            } else {
                assert(p == address);
            }
        },
    }
}

impl EncounterTables {
    /// Scans the table-of-tables for the `(bank_num, map_num)` descriptor:
    /// a match returns it, the (255, 255) sentinel means no such map (an
    /// absent pair is not an error), and on a corrupt buffer with no
    /// sentinel the scan fails out of bounds rather than looping forever.
    pub fn get(rom: &mut Rom, bank_num: usize, map_num: usize) -> (r: Result<
        Option<EncounterTables>,
        Error,
    >)
        ensures
            final(rom).bytes() == old(rom).bytes(),
            r == spec_scan_tables(old(rom).bytes(), ENCOUNTER_TABLES_ADDRESS, bank_num, map_num),
    {
        let ghost data = old(rom).bytes();
        let mut address: usize = ENCOUNTER_TABLES_ADDRESS;
        loop
            invariant
                rom.bytes() == data,
                old(rom).bytes() == data,
                spec_scan_tables(data, address, bank_num, map_num) == spec_scan_tables(
                    data,
                    ENCOUNTER_TABLES_ADDRESS,
                    bank_num,
                    map_num,
                ),
            decreases 0xA000015 + data.len() - address,
        {
            let tables = match EncounterTables::read(address, rom) {
                Ok(t) => t,
                Err(e) => {
                    return Err(e);
                },
            };
            if tables.bank_num == 0xFF && tables.map_num == 0xFF {
                return Ok(None);
            }
            if tables.bank_num == bank_num && tables.map_num == map_num {
                return Ok(Some(tables));
            }
            proof {
                let p = spec_seek(data.len(), address)->Ok_0;
                assert(p + 20 <= data.len());
                if spec_in_virtual_range(address) {
                    assert(address + 20 <= 0xA000014);
                } else {
                    assert(p == address);
                }
                assert(address + 20 <= usize::MAX);
            }
            address = address + 20;
        }
    }
}

impl EncounterTables {
    /// Reads the 20-byte descriptor at `address`.
    pub fn read(address: usize, rom: &mut Rom) -> (r: Result<EncounterTables, Error>)
        ensures
            final(rom).bytes() == old(rom).bytes(),
            old(rom).bytes().len() + 8 <= usize::MAX,
            r == spec_read_encounter_tables(old(rom).bytes(), address),
    {
        match rom.seek_to(address) {
            Ok(()) => {},
            Err(e) => {
                return Err(Error::from(e));
            },
        }
        let bank_num = match rom.read_u8() {
            Ok(v) => v as usize,
            Err(e) => {
                return Err(Error::from(e));
            },
        };
        let map_num = match rom.read_u8() {
            Ok(v) => v as usize,
            Err(e) => {
                return Err(Error::from(e));
            },
        };
        let padding = match rom.read_u16() {
            Ok(v) => v,
            Err(e) => {
                return Err(Error::from(e));
            },
        };
        let grass_address = match rom.read_address() {
            Ok(v) => v,
            Err(e) => {
                return Err(Error::from(e));
            },
        };
        let surf_address = match rom.read_address() {
            Ok(v) => v,
            Err(e) => {
                return Err(Error::from(e));
            },
        };
        let rock_smash_address = match rom.read_address() {
            Ok(v) => v,
            Err(e) => {
                return Err(Error::from(e));
            },
        };
        let fishing_address = match rom.read_address() {
            Ok(v) => v,
            Err(e) => {
                return Err(Error::from(e));
            },
        };
        Ok(
            EncounterTables {
                bank_num,
                map_num,
                _padding: padding,
                grass_address,
                surf_address,
                rock_smash_address,
                fishing_address,
            },
        )
    }

    /// The per-kind table address this descriptor holds.
    pub open spec fn spec_address_of(&self, encounter_type: EncounterType) -> usize {
        match encounter_type {
            EncounterType::Grass => self.grass_address,
            EncounterType::Surf => self.surf_address,
            EncounterType::RockSmash => self.rock_smash_address,
            _ => self.fishing_address,
        }
    }

    /// Reads the table of the given kind; the kind picks which of the
    /// four addresses is followed, and the three rod kinds share the
    /// fishing address. Kind `NoEncounter` means "no table".
    pub fn get_encounter_table(&self, rom: &mut Rom, encounter_type: EncounterType) -> (r: Result<
        Option<EncounterTable>,
        Error,
    >)
        ensures
            final(rom).bytes() == old(rom).bytes(),
            r == spec_read_encounter_table(
                old(rom).bytes(),
                self.spec_address_of(encounter_type),
                encounter_type,
            ),
    {
        if matches!(encounter_type, EncounterType::NoEncounter) {
            return Ok(None);
        }
        let address = match encounter_type {
            EncounterType::NoEncounter => unreached(),
            EncounterType::Grass => self.grass_address,
            EncounterType::Surf => self.surf_address,
            EncounterType::RockSmash => self.rock_smash_address,
            EncounterType::OldRod => self.fishing_address,
            EncounterType::GoodRod => self.fishing_address,
            EncounterType::SuperRod => self.fishing_address,
        };
        EncounterTable::read(address, rom, encounter_type)
    }

    /// Reads the grass table.
    pub fn get_grass_encounter_table(&self, rom: &mut Rom) -> (r: Result<
        Option<EncounterTable>,
        Error,
    >)
        ensures
            final(rom).bytes() == old(rom).bytes(),
            r == spec_read_encounter_table(
                old(rom).bytes(),
                self.grass_address,
                EncounterType::Grass,
            ),
    {
        EncounterTable::read(self.grass_address, rom, EncounterType::Grass)
    }

    /// Reads the surf table.
    pub fn get_surf_encounter_table(&self, rom: &mut Rom) -> (r: Result<
        Option<EncounterTable>,
        Error,
    >)
        ensures
            final(rom).bytes() == old(rom).bytes(),
            r == spec_read_encounter_table(
                old(rom).bytes(),
                self.surf_address,
                EncounterType::Surf,
            ),
    {
        EncounterTable::read(self.surf_address, rom, EncounterType::Surf)
    }

    /// Reads the rock-smash table.
    pub fn get_rock_smash_encounter_table(&self, rom: &mut Rom) -> (r: Result<
        Option<EncounterTable>,
        Error,
    >)
        ensures
            final(rom).bytes() == old(rom).bytes(),
            r == spec_read_encounter_table(
                old(rom).bytes(),
                self.rock_smash_address,
                EncounterType::RockSmash,
            ),
    {
        EncounterTable::read(self.rock_smash_address, rom, EncounterType::RockSmash)
    }

    /// Reads the old-rod slice of the fishing table.
    pub fn get_old_rod_encounter_table(&self, rom: &mut Rom) -> (r: Result<
        Option<EncounterTable>,
        Error,
    >)
        ensures
            final(rom).bytes() == old(rom).bytes(),
            r == spec_read_encounter_table(
                old(rom).bytes(),
                self.fishing_address,
                EncounterType::OldRod,
            ),
    {
        EncounterTable::read(self.fishing_address, rom, EncounterType::OldRod)
    }

    /// Reads the good-rod slice of the fishing table.
    pub fn get_good_rod_encounter_table(&self, rom: &mut Rom) -> (r: Result<
        Option<EncounterTable>,
        Error,
    >)
        ensures
            final(rom).bytes() == old(rom).bytes(),
            r == spec_read_encounter_table(
                old(rom).bytes(),
                self.fishing_address,
                EncounterType::GoodRod,
            ),
    {
        EncounterTable::read(self.fishing_address, rom, EncounterType::GoodRod)
    }

    /// Reads the super-rod slice of the fishing table.
    pub fn get_super_rod_encounter_table(&self, rom: &mut Rom) -> (r: Result<
        Option<EncounterTable>,
        Error,
    >)
        ensures
            final(rom).bytes() == old(rom).bytes(),
            r == spec_read_encounter_table(
                old(rom).bytes(),
                self.fishing_address,
                EncounterType::SuperRod,
            ),
    {
        EncounterTable::read(self.fishing_address, rom, EncounterType::SuperRod)
    }
}

} // verus!
