//! One per-terrain encounter table: a rate and the address of its
//! fixed-size entry array. The entry count and the offset into the array
//! depend only on the table's kind.

use vstd::prelude::*;

use crate::encounter::constants::{
    ENCOUNTER_TABLE_SIZE_GOOD_ROD, ENCOUNTER_TABLE_SIZE_GRASS, ENCOUNTER_TABLE_SIZE_OLD_ROD,
    ENCOUNTER_TABLE_SIZE_ROCK_SMASH, ENCOUNTER_TABLE_SIZE_SUPER_ROD, ENCOUNTER_TABLE_SIZE_SURF,
};
use crate::encounter::encounter_entry::{spec_decode_encounter_entry, EncounterEntry};
use crate::error::{spec_rom_error, Error};
use crate::rom::{spec_read_address_at, spec_read_u32_at, spec_seek, Rom};

verus! {

/// The kind of an encounter table; it fixes the entry count and, for the
/// three rod kinds, the offset into the shared fishing array.
#[derive(Clone, Copy, Debug, PartialEq, Eq)]
pub enum EncounterType {
    NoEncounter,
    Grass,
    Surf,
    RockSmash,
    OldRod,
    GoodRod,
    SuperRod,
}

impl Default for EncounterType {
    /// The default kind is `NoEncounter`: no encounters.
    fn default() -> (r: EncounterType)
        ensures
            r == EncounterType::NoEncounter,
    {
        EncounterType::NoEncounter
    }
}

/// How many entries a table of this kind holds.
pub open spec fn spec_table_size(t: EncounterType) -> usize {
    match t {
        EncounterType::NoEncounter => 0,
        EncounterType::Grass => ENCOUNTER_TABLE_SIZE_GRASS,
        EncounterType::Surf => ENCOUNTER_TABLE_SIZE_SURF,
        EncounterType::RockSmash => ENCOUNTER_TABLE_SIZE_ROCK_SMASH,
        EncounterType::OldRod => ENCOUNTER_TABLE_SIZE_OLD_ROD,
        EncounterType::GoodRod => ENCOUNTER_TABLE_SIZE_GOOD_ROD,
        EncounterType::SuperRod => ENCOUNTER_TABLE_SIZE_SUPER_ROD,
    }
}

/// How many entries into the shared array a table of this kind starts.
pub open spec fn spec_table_offset(t: EncounterType) -> usize {
    match t {
        EncounterType::GoodRod => ENCOUNTER_TABLE_SIZE_OLD_ROD,
        EncounterType::SuperRod => (ENCOUNTER_TABLE_SIZE_OLD_ROD
            + ENCOUNTER_TABLE_SIZE_GOOD_ROD) as usize,
        _ => 0,
    }
}

/// A decoded encounter-table descriptor.
#[derive(Clone, Copy, Debug, PartialEq, Eq)]
pub struct EncounterTable {
    pub encounter_type: EncounterType,
    pub encounter_rate: u32,
    pub entries_address: usize,
}

/// What reading a table descriptor at `address` yields: no table at the
/// null address or for kind `None`, else a rate word and the entry-array
/// address.
pub open spec fn spec_read_encounter_table(
    data: Seq<u8>,
    address: usize,
    encounter_type: EncounterType,
) -> Result<Option<EncounterTable>, Error> {
    if address == 0 || encounter_type == EncounterType::NoEncounter {
        Ok(None)
    } else {
        match spec_seek(data.len(), address) {
            Err(e) => Err(spec_rom_error(e)),
            Ok(p) => match spec_read_u32_at(data, p as int) {
                Err(e) => Err(spec_rom_error(e)),
                Ok(rate) => match spec_read_address_at(data, p + 4) {
                    Err(e) => Err(spec_rom_error(e)),
                    Ok(ea) => Ok(
                        Some(
                            EncounterTable {
                                encounter_type,
                                encounter_rate: rate,
                                entries_address: ea,
                            },
                        ),
                    ),
                },
            },
        }
    }
}

/// What decoding the entries with indices `i..end` of the array at
/// `entries_address` yields, first failure first.
pub open spec fn spec_decode_entries(
    data: Seq<u8>,
    entries_address: usize,
    i: nat,
    end: nat,
) -> Result<Seq<EncounterEntry>, Error>
    decreases end - i,
{
    if i >= end {
        Ok(Seq::empty())
    } else {
        match spec_decode_encounter_entry(data, (entries_address + i * 4) as usize) {
            Err(e) => Err(e),
            Ok(en) => match spec_decode_entries(data, entries_address, i + 1, end) {
                Err(e) => Err(e),
                Ok(rest) => Ok(seq![en] + rest),
            },
        }
    }
}

impl EncounterTable {
    /// Reads the table descriptor at `address` of the given kind; the null
    /// address and the kind `None` both mean "no table", not an error.
    pub fn read(address: usize, rom: &mut Rom, encounter_type: EncounterType) -> (r: Result<
        Option<EncounterTable>,
        Error,
    >)
        ensures
            final(rom).bytes() == old(rom).bytes(),
            r == spec_read_encounter_table(old(rom).bytes(), address, encounter_type),
    {
        if address == 0 || matches!(encounter_type, EncounterType::NoEncounter) {
            return Ok(None);
        }
        match rom.seek_to(address) {
            Ok(()) => {},
            Err(e) => {
                return Err(Error::from(e));
            },
        }
        let encounter_rate = match rom.read_u32() {
            Ok(v) => v,
            Err(e) => {
                return Err(Error::from(e));
            },
        };
        let entries_address = match rom.read_address() {
            Ok(v) => v,
            Err(e) => {
                return Err(Error::from(e));
            },
        };
        Ok(Some(EncounterTable { encounter_type, encounter_rate, entries_address }))
    }

    /// Decodes this table's fixed-size run of entries, at the offset its
    /// kind dictates within the array at `entries_address`.
    pub fn get_entries(&self, rom: &mut Rom) -> (r: Result<Vec<EncounterEntry>, Error>)
        requires
            self.encounter_type != EncounterType::NoEncounter,
            self.entries_address + 4 * (spec_table_offset(self.encounter_type)
                + spec_table_size(self.encounter_type)) <= usize::MAX,
        ensures
            final(rom).bytes() == old(rom).bytes(),
            match r {
                Ok(v) => spec_decode_entries(
                    old(rom).bytes(),
                    self.entries_address,
                    spec_table_offset(self.encounter_type) as nat,
                    (spec_table_offset(self.encounter_type) + spec_table_size(
                        self.encounter_type,
                    )) as nat,
                ) == Ok::<Seq<EncounterEntry>, Error>(v@),
                Err(e) => spec_decode_entries(
                    old(rom).bytes(),
                    self.entries_address,
                    spec_table_offset(self.encounter_type) as nat,
                    (spec_table_offset(self.encounter_type) + spec_table_size(
                        self.encounter_type,
                    )) as nat,
                ) == Err::<Seq<EncounterEntry>, Error>(e),
            },
    {
        let encounter_table_size: usize = match self.encounter_type {
            EncounterType::NoEncounter => unreached(),
            EncounterType::Grass => ENCOUNTER_TABLE_SIZE_GRASS,
            EncounterType::Surf => ENCOUNTER_TABLE_SIZE_SURF,
            EncounterType::RockSmash => ENCOUNTER_TABLE_SIZE_ROCK_SMASH,
            EncounterType::OldRod => ENCOUNTER_TABLE_SIZE_OLD_ROD,
            EncounterType::GoodRod => ENCOUNTER_TABLE_SIZE_GOOD_ROD,
            EncounterType::SuperRod => ENCOUNTER_TABLE_SIZE_SUPER_ROD,
        };
        let offset: usize = match self.encounter_type {
            EncounterType::OldRod => 0,
            EncounterType::GoodRod => ENCOUNTER_TABLE_SIZE_OLD_ROD,
            EncounterType::SuperRod => ENCOUNTER_TABLE_SIZE_OLD_ROD + ENCOUNTER_TABLE_SIZE_GOOD_ROD,
            _ => 0,
        };
        let end = offset + encounter_table_size;
        let ghost data = old(rom).bytes();
        let ghost full = spec_decode_entries(data, self.entries_address, offset as nat, end as nat);
        let mut entries: Vec<EncounterEntry> = Vec::new();
        let mut i = offset;
        while i < end
            invariant
                offset <= i <= end,
                end == spec_table_offset(self.encounter_type) + spec_table_size(
                    self.encounter_type,
                ),
                self.entries_address + 4 * end <= usize::MAX,
                rom.bytes() == data,
                old(rom).bytes() == data,
                full == spec_decode_entries(
                    data,
                    self.entries_address,
                    spec_table_offset(self.encounter_type) as nat,
                    end as nat,
                ),
                match spec_decode_entries(data, self.entries_address, i as nat, end as nat) {
                    Ok(rest) => full == Ok::<Seq<EncounterEntry>, Error>(entries@ + rest),
                    Err(e) => full == Err::<Seq<EncounterEntry>, Error>(e),
                },
            decreases end - i,
        {
            let entry = match EncounterEntry::read(self.entries_address + i * 4, rom) {
                Ok(en) => en,
                Err(e) => {
                    return Err(e);
                },
            };
            let ghost entries_pre = entries@;
            entries.push(entry);
            proof {
                match spec_decode_entries(data, self.entries_address, (i + 1) as nat, end as nat) {
                    Ok(rest) => {
                        assert(entries@ + rest =~= entries_pre + (seq![entry] + rest));
                    },
                    Err(_) => {},
                }
            }
            i = i + 1;
        }
        proof {
            assert(spec_decode_entries(data, self.entries_address, end as nat, end as nat)
                == Ok::<Seq<EncounterEntry>, Error>(Seq::empty()));
            assert(entries@ + Seq::<EncounterEntry>::empty() =~= entries@);
        }
        Ok(entries)
    }
}

} // verus!
