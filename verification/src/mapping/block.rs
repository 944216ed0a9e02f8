//! The block (metatile): eight tiles in a 2x2 arrangement of the two
//! layers, plus metadata unpacked from a 32-bit attribute word whose
//! terrain, encounter and background fields have closed valid sets.

use vstd::prelude::*;

use crate::encounter::encounter_table::EncounterType;
use crate::error::{spec_rom_error, Error};
use crate::mapping::tile::{spec_decode_tile, Tile};
use crate::rom::{hex_string, spec_hex_str, spec_read_u32_at, spec_seek, Rom};

verus! {

/// How a block's layers are drawn relative to the hero. Only the raw
/// values 0, 2, 3 and 4 are valid.
#[derive(Clone, Copy, Debug, PartialEq, Eq)]
pub enum Background {
    Normal,
    Covered,
    Triple,
    Split,
}

/// The terrain class of a block. Only the raw values 0 through 3 are valid.
#[derive(Clone, Copy, Debug, PartialEq, Eq)]
pub enum Terrain {
    Normal,
    Grass,
    Water,
    Waterfall,
}

/// A block attribute word held an enumeration value outside its valid set;
/// each variant names the offending field and carries the raw value.
#[derive(Clone, Copy, Debug, PartialEq, Eq)]
pub enum InvalidBlock {
    InvalidTerrain(u32),
    InvalidBackground(u32),
    InvalidEncounter(u32),
}

/// What an invalid-block error reads as: the offending field, its raw
/// value in hexadecimal, and the valid set.
pub open spec fn spec_invalid_block_message(e: InvalidBlock) -> Seq<char> {
    match e {
        InvalidBlock::InvalidTerrain(v) => "Unknown terrain ("@ + spec_hex_str(v as nat)
            + ") (expected 0, 1, 2, or 3)!"@,
        InvalidBlock::InvalidBackground(v) => "Unknown background ("@ + spec_hex_str(v as nat)
            + ") (expected 0, 2, 3, or 4)!"@,
        InvalidBlock::InvalidEncounter(v) => "Unknown encounter ("@ + spec_hex_str(v as nat)
            + ") (expected 0, 1, or 2)!"@,
    }
}

impl InvalidBlock {
    /// The error as readable text.
    pub fn message(&self) -> (r: String)
        ensures
            r@ == spec_invalid_block_message(*self),
    {
        let mut s = String::new();
        match *self {
            InvalidBlock::InvalidTerrain(v) => {
                proof {
                    reveal_strlit("Unknown terrain (");
                    reveal_strlit(") (expected 0, 1, 2, or 3)!");
                }
                s.append("Unknown terrain (");
                let hex = hex_string(v as usize);
                s.append(hex.as_str());
                s.append(") (expected 0, 1, 2, or 3)!");
            },
            InvalidBlock::InvalidBackground(v) => {
                proof {
                    reveal_strlit("Unknown background (");
                    reveal_strlit(") (expected 0, 2, 3, or 4)!");
                }
                s.append("Unknown background (");
                let hex = hex_string(v as usize);
                s.append(hex.as_str());
                s.append(") (expected 0, 2, 3, or 4)!");
            },
            InvalidBlock::InvalidEncounter(v) => {
                proof {
                    reveal_strlit("Unknown encounter (");
                    reveal_strlit(") (expected 0, 1, or 2)!");
                }
                s.append("Unknown encounter (");
                let hex = hex_string(v as usize);
                s.append(hex.as_str());
                s.append(") (expected 0, 1, or 2)!");
            },
        }
        proof {
            assert(s@ =~= spec_invalid_block_message(*self));
        }
        s
    }
}

/// One 16x16 metatile: eight tile references and the decoded metadata of
/// its attribute word. Every live value holds only valid enumeration
/// members, since decoding validates them.
#[derive(Clone, Copy, Debug, PartialEq, Eq)]
pub struct Block {
    pub tiles: [Tile; 8],
    pub behavior: u16,
    pub terrain: Terrain,
    pub encounter: EncounterType,
    pub background: Background,
}

/// A block as its mathematical view: the tile sequence and the metadata.
pub struct BlockV {
    pub tiles: Seq<Tile>,
    pub behavior: u16,
    pub terrain: Terrain,
    pub encounter: EncounterType,
    pub background: Background,
}

impl View for Block {
    type V = BlockV;

    open spec fn view(&self) -> BlockV {
        BlockV {
            tiles: self.tiles@,
            behavior: self.behavior,
            terrain: self.terrain,
            encounter: self.encounter,
            background: self.background,
        }
    }
}

/// What unpacking a 32-bit attribute word yields: bits 0-8 the behavior,
/// bits 9-13 the terrain, bits 24-26 the encounter kind, bits 28-30 the
/// background, each checked against its closed valid set, terrain first.
pub open spec fn spec_block_meta(value: u32) -> Result<
    (u16, Terrain, EncounterType, Background),
    InvalidBlock,
> {
    let tr = (value & 0x3E00) >> 9;
    let en = (value & 0x7000000) >> 24;
    let bg = (value & 0x70000000) >> 28;
    if tr != 0 && tr != 1 && tr != 2 && tr != 3 {
        Err(InvalidBlock::InvalidTerrain(tr))
    } else if en != 0 && en != 1 && en != 2 {
        Err(InvalidBlock::InvalidEncounter(en))
    } else if bg != 0 && bg != 2 && bg != 3 && bg != 4 {
        Err(InvalidBlock::InvalidBackground(bg))
    } else {
        Ok(
            (
                (value & 0x1FF) as u16,
                if tr == 0 {
                    Terrain::Normal
                } else if tr == 1 {
                    Terrain::Grass
                } else if tr == 2 {
                    Terrain::Water
                } else {
                    Terrain::Waterfall
                },
                if en == 0 {
                    EncounterType::NoEncounter
                } else if en == 1 {
                    EncounterType::Grass
                } else {
                    EncounterType::Surf
                },
                if bg == 0 {
                    Background::Normal
                } else if bg == 2 {
                    Background::Covered
                } else if bg == 3 {
                    Background::Triple
                } else {
                    Background::Split
                },
            ),
        )
    }
}

/// What decoding the tiles with indices `i..8` of the block at `base`
/// yields, two bytes per tile, first failure first.
pub open spec fn spec_decode_tiles(data: Seq<u8>, base: int, i: nat) -> Result<Seq<Tile>, Error>
    decreases 8 - i,
{
    if i >= 8 {
        Ok(Seq::empty())
    } else {
        match spec_decode_tile(data, (base + i * 2) as usize) {
            Err(e) => Err(e),
            Ok(t) => match spec_decode_tiles(data, base, i + 1) {
                Err(e) => Err(e),
                Ok(rest) => Ok(seq![t] + rest),
            },
        }
    }
}

/// What decoding a whole block yields: its eight tiles at `block_address`,
/// then its attribute word at `block_attr_address`.
pub open spec fn spec_decode_block(
    data: Seq<u8>,
    block_address: usize,
    block_attr_address: usize,
) -> Result<BlockV, Error> {
    match spec_decode_tiles(data, block_address as int, 0) {
        Err(e) => Err(e),
        Ok(tiles) => match spec_seek(data.len(), block_attr_address) {
            Err(e) => Err(spec_rom_error(e)),
            Ok(p) => match spec_read_u32_at(data, p as int) {
                Err(e) => Err(spec_rom_error(e)),
                Ok(w) => match spec_block_meta(w) {
                    Err(ib) => Err(Error::InvalidBlock(ib)),
                    Ok((behavior, terrain, encounter, background)) => Ok(
                        BlockV { tiles, behavior, terrain, encounter, background },
                    ),
                },
            },
        },
    }
}

impl Block {
    /// Decodes the eight tiles at `block_address` and the attribute word at
    /// `block_attr_address` into one block, validating every enumeration
    /// field.
    #[verifier::rlimit(60)]
    pub fn read(block_address: usize, block_attr_address: usize, rom: &mut Rom) -> (r: Result<
        Block,
        Error,
    >)
        requires
            block_address + 14 <= usize::MAX,
        ensures
            final(rom).bytes() == old(rom).bytes(),
            match r {
                Ok(b) => spec_decode_block(old(rom).bytes(), block_address, block_attr_address)
                    == Ok::<BlockV, Error>(b@),
                Err(e) => spec_decode_block(old(rom).bytes(), block_address, block_attr_address)
                    == Err::<BlockV, Error>(e),
            },
    {
        let ghost data = old(rom).bytes();
        match rom.seek_to(block_address) {
            Ok(()) => {},
            Err(e) => {
                proof {
                    reveal_with_fuel(spec_decode_tiles, 2);
                }
                return Err(Error::from(e));
            },
        }
        let t0 = match Tile::read(block_address, rom) {
            Ok(t) => t,
            Err(e) => {
                proof {
                    reveal_with_fuel(spec_decode_tiles, 2);
                }
                return Err(e);
            },
        };
        let t1 = match Tile::read(block_address + 2, rom) {
            Ok(t) => t,
            Err(e) => {
                proof {
                    reveal_with_fuel(spec_decode_tiles, 3);
                }
                return Err(e);
            },
        };
        let t2 = match Tile::read(block_address + 4, rom) {
            Ok(t) => t,
            Err(e) => {
                proof {
                    reveal_with_fuel(spec_decode_tiles, 4);
                }
                return Err(e);
            },
        };
        let t3 = match Tile::read(block_address + 6, rom) {
            Ok(t) => t,
            Err(e) => {
                proof {
                    reveal_with_fuel(spec_decode_tiles, 5);
                }
                return Err(e);
            },
        };
        let t4 = match Tile::read(block_address + 8, rom) {
            Ok(t) => t,
            Err(e) => {
                proof {
                    reveal_with_fuel(spec_decode_tiles, 6);
                }
                return Err(e);
            },
        };
        let t5 = match Tile::read(block_address + 10, rom) {
            Ok(t) => t,
            Err(e) => {
                proof {
                    reveal_with_fuel(spec_decode_tiles, 7);
                }
                return Err(e);
            },
        };
        let t6 = match Tile::read(block_address + 12, rom) {
            Ok(t) => t,
            Err(e) => {
                proof {
                    reveal_with_fuel(spec_decode_tiles, 8);
                }
                return Err(e);
            },
        };
        let t7 = match Tile::read(block_address + 14, rom) {
            Ok(t) => t,
            Err(e) => {
                proof {
                    reveal_with_fuel(spec_decode_tiles, 9);
                }
                return Err(e);
            },
        };
        let tiles = [t0, t1, t2, t3, t4, t5, t6, t7];
        proof {
            reveal_with_fuel(spec_decode_tiles, 9);
            assert(tiles@ =~= seq![t0] + (seq![t1] + (seq![t2] + (seq![t3] + (seq![t4] + (seq![t5]
                + (seq![t6] + (seq![t7] + Seq::<Tile>::empty()))))))));
        }
        match rom.seek_to(block_attr_address) {
            Ok(()) => {},
            Err(e) => {
                return Err(Error::from(e));
            },
        }
        let value = match rom.read_u32() {
            Ok(v) => v,
            Err(e) => {
                return Err(Error::from(e));
            },
        };
        let behavior_raw = value & 0x1FF;
        let tr = (value & 0x3E00) >> 9;
        let en = (value & 0x7000000) >> 24;
        let bg = (value & 0x70000000) >> 28;
        proof {
            assert((value & 0x1FF) <= 0x1FF) by (bit_vector);
        }
        let behavior = behavior_raw as u16;
        let terrain = if tr == 0 {
            Terrain::Normal
        } else if tr == 1 {
            Terrain::Grass
        } else if tr == 2 {
            Terrain::Water
        } else if tr == 3 {
            Terrain::Waterfall
        } else {
            return Err(Error::InvalidBlock(InvalidBlock::InvalidTerrain(tr)));
        };
        let encounter = if en == 0 {
            EncounterType::NoEncounter
        } else if en == 1 {
            EncounterType::Grass
        } else if en == 2 {
            EncounterType::Surf
        } else {
            return Err(Error::InvalidBlock(InvalidBlock::InvalidEncounter(en)));
        };
        let background = if bg == 0 {
            Background::Normal
        } else if bg == 2 {
            Background::Covered
        } else if bg == 3 {
            Background::Triple
        } else if bg == 4 {
            Background::Split
        } else {
            return Err(Error::InvalidBlock(InvalidBlock::InvalidBackground(bg)));
        };
        Ok(Block { tiles, behavior, terrain, encounter, background })
    }
}

} // verus!
