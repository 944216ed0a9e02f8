//! The tileset descriptor and its composite decoders: tile image data
//! (raw or LZ77-compressed), the sixteen 16-color palettes, and the block
//! list with its three-way termination heuristic.

use vstd::prelude::*;

use crate::constants::{NUM_COLORS_IN_PALETTE, NUM_PALETTES_IN_TILESET};
use crate::error::{spec_rom_error, Error};
use crate::graphics::{spec_color_from_word, Color};
use crate::lz77::{lz77_decompress, spec_lz77_decompress, LzOutcome};
use crate::mapping::block::{spec_decode_block, Block, BlockV};
use crate::rom::{
    spec_le16, spec_read_address_at, spec_read_u16_at, spec_read_u8_at, spec_seek, Rom, RomError,
};

verus! {

/// A tileset descriptor: whether its tile image is compressed, whether it
/// contributes the secondary palette half, and the addresses of its tile
/// image, palettes, block grid and per-block attribute words, together
/// with the externally supplied maximum block count.
#[derive(Clone, Copy, Debug, PartialEq, Eq)]
pub struct MapTileset {
    pub is_compressed: bool,
    pub use_sec_palettes: bool,
    pub padding: u16,
    pub tilemap_addr: usize,
    pub palettes_addr: usize,
    pub blockmap_addr: usize,
    pub tileset_callback_addr: usize,
    pub block_attributes_addr: usize,
    pub max_block_count: usize,
}

/// What reading a tileset descriptor at `address` yields: two flag bytes,
/// a padding word, then five pointer words.
pub open spec fn spec_read_tileset(data: Seq<u8>, address: usize, max_block_count: usize) -> Result<
    MapTileset,
    Error,
> {
    match spec_seek(data.len(), address) {
        Err(e) => Err(spec_rom_error(e)),
        Ok(p) => match spec_read_u8_at(data, p as int) {
            Err(e) => Err(spec_rom_error(e)),
            Ok(c) => match spec_read_u8_at(data, p + 1) {
                Err(e) => Err(spec_rom_error(e)),
                Ok(s) => match spec_read_u16_at(data, p + 2) {
                    Err(e) => Err(spec_rom_error(e)),
                    Ok(padding) => match spec_read_address_at(data, p + 4) {
                        Err(e) => Err(spec_rom_error(e)),
                        Ok(tilemap_addr) => match spec_read_address_at(data, p + 8) {
                            Err(e) => Err(spec_rom_error(e)),
                            Ok(palettes_addr) => match spec_read_address_at(data, p + 12) {
                                Err(e) => Err(spec_rom_error(e)),
                                Ok(blockmap_addr) => match spec_read_address_at(data, p + 16) {
                                    Err(e) => Err(spec_rom_error(e)),
                                    Ok(tileset_callback_addr) => match spec_read_address_at(
                                        data,
                                        p + 20,
                                    ) {
                                        Err(e) => Err(spec_rom_error(e)),
                                        Ok(block_attributes_addr) => Ok(
                                            MapTileset {
                                                is_compressed: c != 0,
                                                use_sec_palettes: s != 0,
                                                padding,
                                                tilemap_addr,
                                                palettes_addr,
                                                blockmap_addr,
                                                tileset_callback_addr,
                                                block_attributes_addr,
                                                max_block_count,
                                            },
                                        ),
                                    },
                                },
                            },
                        },
                    },
                },
            },
        },
    }
}

/// The color at palette `i`, slot `j` of the palette block starting at
/// physical offset `p`: one 16-bit word per color, two bytes per word.
pub open spec fn spec_palette_color(data: Seq<u8>, p: int, i: int, j: int) -> Color {
    spec_color_from_word(spec_le16(data[p + 32 * i + 2 * j], data[p + 32 * i + 2 * j + 1]))
}

/// What reading a tileset's sixteen 16-color palettes yields: the color
/// grid when all 512 bytes lie within the buffer, else the out-of-bounds
/// offset of the first color word that does not fit.
pub open spec fn spec_tileset_palettes(data: Seq<u8>, ts: MapTileset) -> Result<
    Seq<Seq<Color>>,
    Error,
> {
    match spec_seek(data.len(), ts.palettes_addr) {
        Err(e) => Err(spec_rom_error(e)),
        Ok(p) => if p + 512 <= data.len() {
            Ok(
                Seq::new(
                    16,
                    |i: int| Seq::new(16, |j: int| spec_palette_color(data, p as int, i, j)),
                ),
            )
        } else {
            Err(
                Error::OutOfBoundsError(
                    #[verifier::truncate]
                    ((data.len() + 1 - ((data.len() - p) % 2)) as usize),
                ),
            )
        },
    }
}

/// The raw tile bytes of a tileset: decompressed from `tilemap_addr` when
/// compressed, else `max_block_count * 32` bytes read there directly.
pub open spec fn spec_tiles_bytes(data: Seq<u8>, ts: MapTileset) -> Result<Seq<u8>, Error> {
    if ts.is_compressed {
        match spec_lz77_decompress(data, ts.tilemap_addr) {
            LzOutcome::Done(s, _) => Ok(s),
            LzOutcome::Fail(e) => Err(Error::LzError(e)),
        }
    } else {
        match spec_seek(data.len(), ts.tilemap_addr) {
            Err(e) => Err(spec_rom_error(e)),
            Ok(p) => if p + ts.max_block_count * 0x20 <= data.len() {
                Ok(data.subrange(p as int, p + ts.max_block_count * 0x20))
            } else {
                Err(Error::OutOfBoundsError(p))
            },
        }
    }
}

/// A byte sequence cut into 32-byte tile records; a short remainder forms
/// the final record.
pub open spec fn spec_chunk32(s: Seq<u8>) -> Seq<Seq<u8>>
    decreases s.len(),
{
    if s.len() == 0 {
        Seq::empty()
    } else if s.len() <= 32 {
        seq![s]
    } else {
        seq![s.take(32)] + spec_chunk32(s.skip(32))
    }
}

/// The block list the termination heuristic produces, starting at block
/// index `i`: stop at `max_block_count`, at the first block whose start
/// address reaches the attribute region, or at the first failed decode
/// (whose error is discarded).
pub open spec fn spec_get_blocks(data: Seq<u8>, ts: MapTileset, i: nat) -> Seq<BlockV>
    decreases ts.max_block_count - i,
{
    if i >= ts.max_block_count {
        Seq::empty()
    } else if ts.blockmap_addr + i * 16 >= ts.block_attributes_addr {
        Seq::empty()
    } else {
        match spec_decode_block(
            data,
            (ts.blockmap_addr + i * 16) as usize,
            (ts.block_attributes_addr + i * 4) as usize,
        ) {
            Err(_) => Seq::empty(),
            Ok(b) => seq![b] + spec_get_blocks(data, ts, i + 1),
        }
    }
}

impl MapTileset {
    /// Reads the tileset descriptor at `address`; `max_block_count` is
    /// supplied by the caller, not stored in the cartridge.
    pub fn read(address: usize, rom: &mut Rom, max_block_count: usize) -> (r: Result<
        MapTileset,
        Error,
    >)
        ensures
            final(rom).bytes() == old(rom).bytes(),
            r == spec_read_tileset(old(rom).bytes(), address, max_block_count),
    {
        match rom.seek_to(address) {
            Ok(()) => {},
            Err(e) => {
                return Err(Error::from(e));
            },
        }
        let is_compressed = match rom.read_u8() {
            Ok(v) => v != 0,
            Err(e) => {
                return Err(Error::from(e));
            },
        };
        let use_sec_palettes = match rom.read_u8() {
            Ok(v) => v != 0,
            Err(e) => {
                return Err(Error::from(e));
            },
        };
        let padding = match rom.read_u16() {
            Ok(v) => v,
            Err(e) => {
                return Err(Error::from(e));
            },
        };
        let tilemap_addr = match rom.read_address() {
            Ok(v) => v,
            Err(e) => {
                return Err(Error::from(e));
            },
        };
        let palettes_addr = match rom.read_address() {
            Ok(v) => v,
            Err(e) => {
                return Err(Error::from(e));
            },
        };
        let blockmap_addr = match rom.read_address() {
            Ok(v) => v,
            Err(e) => {
                return Err(Error::from(e));
            },
        };
        let tileset_callback_addr = match rom.read_address() {
            Ok(v) => v,
            Err(e) => {
                return Err(Error::from(e));
            },
        };
        let block_attributes_addr = match rom.read_address() {
            Ok(v) => v,
            Err(e) => {
                return Err(Error::from(e));
            },
        };
        Ok(
            MapTileset {
                is_compressed,
                use_sec_palettes,
                padding,
                tilemap_addr,
                palettes_addr,
                blockmap_addr,
                tileset_callback_addr,
                block_attributes_addr,
                max_block_count,
            },
        )
    }

    /// Reads this tileset's tile image: the LZ77 stream at `tilemap_addr`
    /// when compressed, else `max_block_count * 32` raw bytes, cut into
    /// 32-byte tile records either way.
    pub fn get_tiles_data(&self, rom: &mut Rom) -> (r: Result<Vec<Vec<u8>>, Error>)
        requires
            self.max_block_count * 0x20 <= usize::MAX,
        ensures
            final(rom).bytes() == old(rom).bytes(),
            match r {
                Ok(v) => spec_tiles_bytes(old(rom).bytes(), *self) matches Ok(bytes)
                    && v.deep_view() == spec_chunk32(bytes),
                Err(e) => spec_tiles_bytes(old(rom).bytes(), *self) == Err::<Seq<u8>, Error>(e),
            },
    {
        let bytes: Vec<u8> = if self.is_compressed {
            match lz77_decompress(self.tilemap_addr, rom) {
                Ok(v) => v,
                Err(e) => {
                    return Err(Error::LzError(e));
                },
            }
        } else {
            match rom.seek_to(self.tilemap_addr) {
                Ok(()) => {},
                Err(e) => {
                    return Err(Error::from(e));
                },
            }
            match rom.read_data(self.max_block_count * 0x20) {
                Ok(v) => v,
                Err(e) => {
                    return Err(Error::from(e));
                },
            }
        };
        let mut tiles: Vec<Vec<u8>> = Vec::new();
        let mut i: usize = 0;
        proof {
            assert(tiles.deep_view() =~~= Seq::<Seq<u8>>::empty());
            assert(bytes@.skip(0) =~= bytes@);
            assert(Seq::<Seq<u8>>::empty() + spec_chunk32(bytes@) =~~= spec_chunk32(bytes@));
        }
        while i < bytes.len()
            invariant
                i <= bytes@.len(),
                bytes@.len() <= usize::MAX,
                i % 32 == 0 || i == bytes@.len(),
                spec_chunk32(bytes@) == tiles.deep_view() + spec_chunk32(bytes@.skip(i as int)),
            decreases bytes@.len() - i,
        {
            let csize = if bytes.len() - i < 32 {
                bytes.len() - i
            } else {
                32
            };
            let mut chunk: Vec<u8> = Vec::new();
            let mut k: usize = 0;
            while k < csize
                invariant
                    k <= csize,
                    i + csize <= bytes@.len(),
                    bytes@.len() <= usize::MAX,
                    chunk@ == bytes@.subrange(i as int, i + k),
                decreases csize - k,
            {
                chunk.push(bytes[i + k]);
                proof {
                    assert(chunk@ =~= bytes@.subrange(i as int, i + k + 1));
                }
                k = k + 1;
            }
            let ghost tiles_pre = tiles.deep_view();
            let ghost tiles_seq_pre = tiles@;
            let ghost rem = bytes@.skip(i as int);
            tiles.push(chunk);
            proof {
                assert(chunk.deep_view() =~= chunk@);
                assert(tiles.deep_view() =~~= tiles_pre.push(chunk@)) by {
                    assert forall|n: int| 0 <= n < tiles@.len() implies tiles.deep_view()[n]
                        == tiles_pre.push(chunk@)[n] by {
                        if n < tiles_seq_pre.len() {
                            assert(tiles@[n] == tiles_seq_pre[n]);
                        } else {
                            assert(tiles@[n] == chunk);
                        }
                    }
                }
                assert(rem.len() > 0);
                if rem.len() <= 32 {
                    assert(chunk@ =~= rem);
                    assert(spec_chunk32(rem) =~~= seq![chunk@]);
                    assert(bytes@.skip(i + csize).len() == 0);
                    assert(spec_chunk32(bytes@.skip(i + csize)) =~~= Seq::<Seq<u8>>::empty());
                    assert(tiles.deep_view() + spec_chunk32(bytes@.skip(i + csize)) =~~= tiles_pre
                        + spec_chunk32(rem));
                } else {
                    assert(chunk@ =~= rem.take(32));
                    assert(spec_chunk32(rem) == seq![rem.take(32)] + spec_chunk32(rem.skip(32)));
                    assert(rem.skip(32) =~= bytes@.skip(i + csize));
                    assert(tiles.deep_view() + spec_chunk32(bytes@.skip(i + csize)) =~~= tiles_pre
                        + spec_chunk32(rem));
                }
            }
            i = i + csize;
        }
        proof {
            assert(bytes@.skip(i as int).len() == 0);
            assert(spec_chunk32(bytes@.skip(i as int)) =~= Seq::<Seq<u8>>::empty());
            assert(tiles.deep_view() + Seq::<Seq<u8>>::empty() =~= tiles.deep_view());
        }
        Ok(tiles)
    }

    /// Reads the sixteen 16-color palettes at `palettes_addr`, each 16-bit
    /// word unpacked into an opaque 8-bit-channel color.
    pub fn get_palettes(&self, rom: &mut Rom) -> (r: Result<Vec<Vec<Color>>, Error>)
        ensures
            final(rom).bytes() == old(rom).bytes(),
            match r {
                Ok(v) => spec_tileset_palettes(old(rom).bytes(), *self) matches Ok(s)
                    && v@.map_values(|pal: Vec<Color>| pal@) == s && v@.len() == 16,
                Err(e) => spec_tileset_palettes(old(rom).bytes(), *self) == Err::<
                    Seq<Seq<Color>>,
                    Error,
                >(e),
            },
    {
        let ghost data = old(rom).bytes();
        match rom.seek_to(self.palettes_addr) {
            Ok(()) => {},
            Err(e) => {
                return Err(Error::from(e));
            },
        }
        let ghost p = rom.position();
        let mut palettes: Vec<Vec<Color>> = Vec::new();
        let mut i: usize = 0;
        while i < NUM_PALETTES_IN_TILESET
            invariant
                i <= 16,
                rom.bytes() == data,
                old(rom).bytes() == data,
                0 <= p < data.len(),
                data.len() + 8 <= usize::MAX,
                spec_seek(data.len(), self.palettes_addr) == Ok::<usize, RomError>(p as usize),
                rom.position() == p + 32 * i,
                i > 0 ==> p + 32 * i <= data.len(),
                palettes@.len() == i,
                forall|ii: int| 0 <= ii < i ==> #[trigger] palettes@[ii]@.len() == 16,
                forall|ii: int, jj: int|
                    0 <= ii < i && 0 <= jj < 16 ==> #[trigger] palettes@[ii]@[jj]
                        == spec_palette_color(data, p, ii, jj),
            decreases 16 - i,
        {
            let mut palette: Vec<Color> = Vec::new();
            let mut j: usize = 0;
            while j < NUM_COLORS_IN_PALETTE
                invariant
                    j <= 16,
                    i < 16,
                    rom.bytes() == data,
                    old(rom).bytes() == data,
                    0 <= p < data.len(),
                    data.len() + 8 <= usize::MAX,
                    spec_seek(data.len(), self.palettes_addr) == Ok::<usize, RomError>(
                        p as usize,
                    ),
                    rom.position() == p + 32 * i + 2 * j,
                    i + 1 > 0 && (i > 0 || j > 0) ==> p + 32 * i + 2 * j <= data.len(),
                    palette@.len() == j,
                    forall|jj: int|
                        0 <= jj < j ==> #[trigger] palette@[jj] == spec_palette_color(
                            data,
                            p,
                            i as int,
                            jj,
                        ),
                decreases 16 - j,
            {
                let word = match rom.read_u16() {
                    Ok(v) => v,
                    Err(e) => {
                        proof {
                            let pos = p + 32 * i + 2 * j;
                            assert(data.len() < pos + 2);
                            assert(pos <= data.len());
                            assert(data.len() - p == 2 * (16 * (i as int) + (j as int)) + (
                            data.len() - pos));
                            vstd::arithmetic::div_mod::lemma_mod_multiples_vanish(
                                16 * (i as int) + (j as int),
                                data.len() - pos,
                                2,
                            );
                            vstd::arithmetic::div_mod::lemma_small_mod(
                                (data.len() - pos) as nat,
                                2,
                            );
                            assert((data.len() - p) % 2 == data.len() - pos);
                            assert(pos + 1 == data.len() + 1 - ((data.len() - p) % 2));
                        }
                        return Err(Error::from(e));
                    },
                };
                palette.push(Color::new(word));
                j = j + 1;
            }
            palettes.push(palette);
            i = i + 1;
        }
        proof {
            let s = spec_tileset_palettes(data, *self)->Ok_0;
            assert(palettes@.map_values(|pal: Vec<Color>| pal@) =~~= s) by {
                assert forall|ii: int| 0 <= ii < 16 implies palettes@.map_values(
                    |pal: Vec<Color>| pal@,
                )[ii] == s[ii] by {
                    assert(palettes@[ii]@ =~= Seq::new(
                        16,
                        |j: int| spec_palette_color(data, p, ii, j),
                    ));
                }
            }
        }
        Ok(palettes)
    }

    /// Decodes blocks from `blockmap_addr` until `max_block_count` is
    /// reached, the next block's start address reaches the attribute
    /// region, or a decode fails (the failure is discarded: past the real
    /// end of a tileset a failed decode is expected). Never yields more
    /// than `max_block_count` blocks and never decodes a block starting at
    /// or past `block_attributes_addr`.
    pub fn get_blocks(&self, rom: &mut Rom) -> (blocks: Vec<Block>)
        requires
            self.blockmap_addr + 16 * self.max_block_count <= usize::MAX,
            self.block_attributes_addr + 4 * self.max_block_count <= usize::MAX,
        ensures
            final(rom).bytes() == old(rom).bytes(),
            blocks@.len() <= self.max_block_count,
            forall|i: int|
                #![trigger 16 * i]
                0 <= i < blocks@.len() ==> self.blockmap_addr + 16 * i
                    < self.block_attributes_addr,
            blocks@.map_values(|b: Block| b@) == spec_get_blocks(old(rom).bytes(), *self, 0),
    {
        let ghost data = old(rom).bytes();
        let mut blocks: Vec<Block> = Vec::new();
        let mut i: usize = 0;
        loop
            invariant_except_break
                i <= self.max_block_count,
                blocks@.len() == i,
                rom.bytes() == data,
                old(rom).bytes() == data,
                self.blockmap_addr + 16 * self.max_block_count <= usize::MAX,
                self.block_attributes_addr + 4 * self.max_block_count <= usize::MAX,
                forall|k: int|
                    #![trigger 16 * k]
                    0 <= k < i ==> self.blockmap_addr + 16 * k < self.block_attributes_addr,
                spec_get_blocks(data, *self, 0) == blocks@.map_values(|b: Block| b@)
                    + spec_get_blocks(data, *self, i as nat),
            ensures
                rom.bytes() == data,
                old(rom).bytes() == data,
                blocks@.len() <= self.max_block_count,
                forall|k: int|
                    #![trigger 16 * k]
                    0 <= k < blocks@.len() ==> self.blockmap_addr + 16 * k
                        < self.block_attributes_addr,
                spec_get_blocks(data, *self, 0) == blocks@.map_values(|b: Block| b@),
            decreases self.max_block_count - i,
        {
            if i >= self.max_block_count {
                proof {
                    assert(spec_get_blocks(data, *self, i as nat) =~= Seq::<BlockV>::empty());
                    assert(blocks@.map_values(|b: Block| b@) + Seq::<BlockV>::empty()
                        =~= blocks@.map_values(|b: Block| b@));
                }
                break ;
            }
            let block_addr = self.blockmap_addr + i * 16;
            let block_attr_addr = self.block_attributes_addr + i * 4;
            if block_addr >= self.block_attributes_addr {
                proof {
                    assert(spec_get_blocks(data, *self, i as nat) =~= Seq::<BlockV>::empty());
                    assert(blocks@.map_values(|b: Block| b@) + Seq::<BlockV>::empty()
                        =~= blocks@.map_values(|b: Block| b@));
                }
                break ;
            }
            match Block::read(block_addr, block_attr_addr, rom) {
                Ok(block) => {
                    let ghost blocks_pre = blocks@;
                    blocks.push(block);
                    proof {
                        assert(blocks@ =~= blocks_pre.push(block));
                        assert(blocks@.map_values(|b: Block| b@) =~= blocks_pre.map_values(
                            |b: Block| b@,
                        ).push(block@));
                        assert(blocks_pre.map_values(|b: Block| b@).push(block@)
                            =~= blocks_pre.map_values(|b: Block| b@) + seq![block@]);
                        assert(blocks_pre.map_values(|b: Block| b@) + (seq![block@]
                            + spec_get_blocks(data, *self, (i + 1) as nat)) =~= blocks@.map_values(
                            |b: Block| b@,
                        ) + spec_get_blocks(data, *self, (i + 1) as nat));
                    }
                },
                Err(_) => {
                    proof {
                        assert(spec_get_blocks(data, *self, i as nat) =~= Seq::<BlockV>::empty());
                        assert(blocks@.map_values(|b: Block| b@) + Seq::<BlockV>::empty()
                            =~= blocks@.map_values(|b: Block| b@));
                    }
                    break ;
                },
            };
            i = i + 1;
        }
        blocks
    }
}

} // verus!
