//! The map layout: grid dimensions, the grid of map cells, and the two
//! tilesets it composes into one 16-palette, up-to-1024-block space.

use vstd::prelude::*;

use crate::constants::{MAX_NUM_PRIMARY_BLOCKS, MAX_NUM_SECONDARY_BLOCKS};
use crate::error::{spec_rom_error, Error};
use crate::graphics::Color;
use crate::mapping::block::{Block, BlockV};
use crate::mapping::map_block::{spec_decode_map_block, spec_map_block_to_word, MapBlock};
use crate::mapping::map_tileset::{
    spec_chunk32, spec_get_blocks, spec_read_tileset, spec_tiles_bytes, spec_tileset_palettes,
    MapTileset,
};
use crate::rom::{
    spec_read_address_at, spec_read_u32_at, spec_read_u8_at, spec_seek, spec_write_le16, Rom,
    RomError,
};

verus! {

/// A map layout descriptor: the grid dimensions in block units, the
/// addresses of the border blocks and the main grid, and the addresses of
/// the primary and secondary tileset.
#[derive(Clone, Copy, Debug, PartialEq, Eq)]
pub struct MapLayout {
    pub width: u32,
    pub height: u32,
    pub border_blocks_addr: usize,
    pub map_blocks_addr: usize,
    pub pri_tileset_addr: usize,
    pub sec_tileset_addr: usize,
    pub border_width: u8,
    pub border_height: u8,
}

/// What reading a layout descriptor at `address` yields: two dimension
/// words, four pointer words, and two border-dimension bytes.
pub open spec fn spec_read_layout(data: Seq<u8>, address: usize) -> Result<MapLayout, Error> {
    match spec_seek(data.len(), address) {
        Err(e) => Err(spec_rom_error(e)),
        Ok(p) => match spec_read_u32_at(data, p as int) {
            Err(e) => Err(spec_rom_error(e)),
            Ok(width) => match spec_read_u32_at(data, p + 4) {
                Err(e) => Err(spec_rom_error(e)),
                Ok(height) => match spec_read_address_at(data, p + 8) {
                    Err(e) => Err(spec_rom_error(e)),
                    Ok(border_blocks_addr) => match spec_read_address_at(data, p + 12) {
                        Err(e) => Err(spec_rom_error(e)),
                        Ok(map_blocks_addr) => match spec_read_address_at(data, p + 16) {
                            Err(e) => Err(spec_rom_error(e)),
                            Ok(pri_tileset_addr) => match spec_read_address_at(data, p + 20) {
                                Err(e) => Err(spec_rom_error(e)),
                                Ok(sec_tileset_addr) => match spec_read_u8_at(data, p + 24) {
                                    Err(e) => Err(spec_rom_error(e)),
                                    Ok(border_width) => match spec_read_u8_at(data, p + 25) {
                                        Err(e) => Err(spec_rom_error(e)),
                                        Ok(border_height) => Ok(
                                            MapLayout {
                                                width,
                                                height,
                                                border_blocks_addr,
                                                map_blocks_addr,
                                                pri_tileset_addr,
                                                sec_tileset_addr,
                                                border_width,
                                                border_height,
                                            },
                                        ),
                                    },
                                },
                            },
                        },
                    },
                },
            },
        },
    }
}

/// The address of the grid cell at `(x, y)`: two bytes per cell, row by row.
pub open spec fn spec_map_block_addr(layout: MapLayout, x: int, y: int) -> int {
    layout.map_blocks_addr + y * 2 * layout.width + x * 2
}

/// What decoding the grid cells with linear indices `k..width*height`
/// yields, row by row, first failure first.
pub open spec fn spec_map_blocks(data: Seq<u8>, layout: MapLayout, k: nat) -> Result<
    Seq<MapBlock>,
    Error,
>
    decreases layout.width * layout.height - k,
{
    if k >= layout.width * layout.height {
        Ok(Seq::empty())
    } else {
        let x = k as int % layout.width as int;
        let y = k as int / layout.width as int;
        match spec_decode_map_block(data, spec_map_block_addr(layout, x, y) as usize) {
            Err(e) => Err(e),
            Ok(mb) => match spec_map_blocks(data, layout, k + 1) {
                Err(e) => Err(e),
                Ok(rest) => Ok(seq![mb] + rest),
            },
        }
    }
}

/// The combined palette set of a layout: palettes 0-6 from the primary
/// tileset, palettes 7-15 from the secondary.
pub open spec fn spec_layout_palettes(data: Seq<u8>, layout: MapLayout) -> Result<
    Seq<Seq<Color>>,
    Error,
> {
    match spec_read_tileset(data, layout.pri_tileset_addr, MAX_NUM_PRIMARY_BLOCKS) {
        Err(e) => Err(e),
        Ok(pri) => match spec_tileset_palettes(data, pri) {
            Err(e) => Err(e),
            Ok(pp) => match spec_read_tileset(
                data,
                layout.sec_tileset_addr,
                MAX_NUM_SECONDARY_BLOCKS,
            ) {
                Err(e) => Err(e),
                Ok(sec) => match spec_tileset_palettes(data, sec) {
                    Err(e) => Err(e),
                    Ok(sp) => Ok(
                        Seq::new(
                            16,
                            |i: int|
                                if i < 7 {
                                    pp[i]
                                } else {
                                    sp[i]
                                },
                        ),
                    ),
                },
            },
        },
    }
}

/// The combined tile records of a layout: the primary tileset's records,
/// then the secondary's. Failures surface in the order the decode meets
/// them: primary descriptor, secondary descriptor, primary tile data,
/// secondary tile data.
pub open spec fn spec_layout_tiles(data: Seq<u8>, layout: MapLayout) -> Result<Seq<Seq<u8>>, Error> {
    match spec_read_tileset(data, layout.pri_tileset_addr, MAX_NUM_PRIMARY_BLOCKS) {
        Err(e) => Err(e),
        Ok(pri) => match spec_read_tileset(
            data,
            layout.sec_tileset_addr,
            MAX_NUM_SECONDARY_BLOCKS,
        ) {
            Err(e) => Err(e),
            Ok(sec) => match spec_tiles_bytes(data, pri) {
                Err(e) => Err(e),
                Ok(pb) => match spec_tiles_bytes(data, sec) {
                    Err(e) => Err(e),
                    Ok(sb) => Ok(spec_chunk32(pb) + spec_chunk32(sb)),
                },
            },
        },
    }
}

/// The combined block list of a layout: the primary tileset's blocks, then
/// the secondary's.
pub open spec fn spec_layout_blocks(data: Seq<u8>, layout: MapLayout) -> Result<Seq<BlockV>, Error> {
    match spec_read_tileset(data, layout.pri_tileset_addr, MAX_NUM_PRIMARY_BLOCKS) {
        Err(e) => Err(e),
        Ok(pri) => match spec_read_tileset(
            data,
            layout.sec_tileset_addr,
            MAX_NUM_SECONDARY_BLOCKS,
        ) {
            Err(e) => Err(e),
            Ok(sec) => Ok(spec_get_blocks(data, pri, 0) + spec_get_blocks(data, sec, 0)),
        },
    }
}

/// Palette composition law: whenever the combined palette set exists, it
/// has exactly 16 entries, entries 0-6 equal the primary tileset's
/// palettes 0-6, and entries 7-15 equal the secondary tileset's palettes
/// 7-15.
pub proof fn lemma_palette_composition(data: Seq<u8>, layout: MapLayout)
    requires
        spec_layout_palettes(data, layout) is Ok,
    ensures
        spec_layout_palettes(data, layout)->Ok_0.len() == 16,
        spec_read_tileset(data, layout.pri_tileset_addr, MAX_NUM_PRIMARY_BLOCKS) matches Ok(pri)
            && spec_tileset_palettes(data, pri) matches Ok(pp) && forall|i: int|
            0 <= i < 7 ==> spec_layout_palettes(data, layout)->Ok_0[i] == #[trigger] pp[i],
        spec_read_tileset(data, layout.sec_tileset_addr, MAX_NUM_SECONDARY_BLOCKS) matches Ok(sec)
            && spec_tileset_palettes(data, sec) matches Ok(sp) && forall|i: int|
            7 <= i < 16 ==> spec_layout_palettes(data, layout)->Ok_0[i] == #[trigger] sp[i],
{
}

impl MapLayout {
    /// Reads the layout descriptor at `address`.
    pub fn read(address: usize, rom: &mut Rom) -> (r: Result<MapLayout, Error>)
        ensures
            final(rom).bytes() == old(rom).bytes(),
            r == spec_read_layout(old(rom).bytes(), address),
    {
        match rom.seek_to(address) {
            Ok(()) => {},
            Err(e) => {
                return Err(Error::from(e));
            },
        }
        let width = match rom.read_u32() {
            Ok(v) => v,
            Err(e) => {
                return Err(Error::from(e));
            },
        };
        let height = match rom.read_u32() {
            Ok(v) => v,
            Err(e) => {
                return Err(Error::from(e));
            },
        };
        let border_blocks_addr = match rom.read_address() {
            Ok(v) => v,
            Err(e) => {
                return Err(Error::from(e));
            },
        };
        let map_blocks_addr = match rom.read_address() {
            Ok(v) => v,
            Err(e) => {
                return Err(Error::from(e));
            },
        };
        let pri_tileset_addr = match rom.read_address() {
            Ok(v) => v,
            Err(e) => {
                return Err(Error::from(e));
            },
        };
        let sec_tileset_addr = match rom.read_address() {
            Ok(v) => v,
            Err(e) => {
                return Err(Error::from(e));
            },
        };
        let border_width = match rom.read_u8() {
            Ok(v) => v,
            Err(e) => {
                return Err(Error::from(e));
            },
        };
        let border_height = match rom.read_u8() {
            Ok(v) => v,
            Err(e) => {
                return Err(Error::from(e));
            },
        };
        Ok(
            MapLayout {
                width,
                height,
                border_blocks_addr,
                map_blocks_addr,
                pri_tileset_addr,
                sec_tileset_addr,
                border_width,
                border_height,
            },
        )
    }

    /// Decodes the grid cell at `(x, y)`.
    pub fn get_map_block_at(&self, rom: &mut Rom, x: usize, y: usize) -> (r: Result<
        MapBlock,
        Error,
    >)
        requires
            self.map_blocks_addr + y * 2 * self.width + x * 2 <= usize::MAX,
        ensures
            final(rom).bytes() == old(rom).bytes(),
            r == spec_decode_map_block(
                old(rom).bytes(),
                spec_map_block_addr(*self, x as int, y as int) as usize,
            ),
    {
        proof {
            assert(2 * (y * (self.width as usize)) == y * 2 * self.width) by (nonlinear_arith);
        }
        let map_block_addr = self.map_blocks_addr + 2 * (y * (self.width as usize)) + (x * 2);
        MapBlock::read(map_block_addr, rom)
    }

    /// Writes the grid cell at `(x, y)` back.
    pub fn set_map_block_at(&self, rom: &mut Rom, x: usize, y: usize, map_block: &MapBlock) -> (r:
        Result<(), Error>)
        requires
            self.map_blocks_addr + y * 2 * self.width + x * 2 <= usize::MAX,
        ensures
            match spec_seek(
                old(rom).bytes().len(),
                spec_map_block_addr(*self, x as int, y as int) as usize,
            ) {
                Err(e) => {
                    &&& r == Err::<(), Error>(spec_rom_error(e))
                    &&& final(rom).bytes() == old(rom).bytes()
                },
                Ok(p) => if p + 2 <= old(rom).bytes().len() {
                    &&& r is Ok
                    &&& final(rom).bytes() == spec_write_le16(
                        old(rom).bytes(),
                        p as int,
                        spec_map_block_to_word(*map_block),
                    )
                } else {
                    &&& r == Err::<(), Error>(
                        spec_rom_error(RomError::OutOfBoundsError((p + 1) as usize)),
                    )
                    &&& final(rom).bytes() == old(rom).bytes()
                },
            },
    {
        proof {
            assert(2 * (y * (self.width as usize)) == y * 2 * self.width) by (nonlinear_arith);
        }
        let map_block_addr = self.map_blocks_addr + 2 * (y * (self.width as usize)) + (x * 2);
        map_block.write(map_block_addr, rom)
    }

    /// Decodes the whole grid, row by row: `width * height` cells starting
    /// at `map_blocks_addr`.
    pub fn get_map_blocks(&self, rom: &mut Rom) -> (r: Result<Vec<MapBlock>, Error>)
        requires
            self.map_blocks_addr + 2 * (self.width * self.height) <= usize::MAX,
        ensures
            final(rom).bytes() == old(rom).bytes(),
            match r {
                Ok(v) => spec_map_blocks(old(rom).bytes(), *self, 0) == Ok::<Seq<MapBlock>, Error>(
                    v@,
                ) && v@.len() == self.width * self.height,
                Err(e) => spec_map_blocks(old(rom).bytes(), *self, 0) == Err::<
                    Seq<MapBlock>,
                    Error,
                >(e),
            },
    {
        let ghost data = old(rom).bytes();
        let ghost full = spec_map_blocks(data, *self, 0);
        let w = self.width as usize;
        let h = self.height as usize;
        let mut mapblocks: Vec<MapBlock> = Vec::new();
        let mut y: usize = 0;
        while y < h
            invariant
                y <= h,
                w == self.width && h == self.height,
                self.map_blocks_addr + 2 * (w * h) <= usize::MAX,
                rom.bytes() == data,
                old(rom).bytes() == data,
                full == spec_map_blocks(data, *self, 0),
                mapblocks@.len() == y * w,
                match spec_map_blocks(data, *self, (y * w) as nat) {
                    Ok(rest) => full == Ok::<Seq<MapBlock>, Error>(mapblocks@ + rest),
                    Err(e) => full == Err::<Seq<MapBlock>, Error>(e),
                },
            decreases h - y,
        {
            let mut x: usize = 0;
            while x < w
                invariant
                    x <= w,
                    y < h,
                    w == self.width && h == self.height,
                    self.map_blocks_addr + 2 * (w * h) <= usize::MAX,
                    rom.bytes() == data,
                    old(rom).bytes() == data,
                    full == spec_map_blocks(data, *self, 0),
                    mapblocks@.len() == y * w + x,
                    match spec_map_blocks(data, *self, (y * w + x) as nat) {
                        Ok(rest) => full == Ok::<Seq<MapBlock>, Error>(mapblocks@ + rest),
                        Err(e) => full == Err::<Seq<MapBlock>, Error>(e),
                    },
                decreases w - x,
            {
                proof {
                    assert(y * w + x < w * h && 2 * (y * w + x) + 2 <= 2 * (w * h) && y * 2 * w + x
                        * 2 == 2 * (y * w + x)) by (nonlinear_arith)
                        requires
                            x < w,
                            y < h,
                            0 <= x,
                            0 <= y,
                    ;
                    vstd::arithmetic::div_mod::lemma_fundamental_div_mod_converse(
                        (y * w + x) as int,
                        w as int,
                        y as int,
                        x as int,
                    );
                }
                let mb = match self.get_map_block_at(rom, x, y) {
                    Ok(mb) => mb,
                    Err(e) => {
                        return Err(e);
                    },
                };
                let ghost cells_pre = mapblocks@;
                mapblocks.push(mb);
                proof {
                    match spec_map_blocks(data, *self, (y * w + x + 1) as nat) {
                        Ok(rest) => {
                            assert(mapblocks@ + rest =~= cells_pre + (seq![mb] + rest));
                        },
                        Err(_) => {},
                    }
                }
                x = x + 1;
            }
            proof {
                assert((y + 1) * w == y * w + w) by (nonlinear_arith);
            }
            y = y + 1;
        }
        proof {
            assert(h * w >= self.width * self.height && h * w == w * h) by (nonlinear_arith)
                requires
                    w == self.width && h == self.height,
            ;
            assert(spec_map_blocks(data, *self, (h * w) as nat) == Ok::<Seq<MapBlock>, Error>(
                Seq::empty(),
            ));
            assert(mapblocks@ + Seq::<MapBlock>::empty() =~= mapblocks@);
        }
        Ok(mapblocks)
    }

    /// Reads the primary tileset this layout points at.
    pub fn get_pri_tileset(&self, rom: &mut Rom) -> (r: Result<MapTileset, Error>)
        ensures
            final(rom).bytes() == old(rom).bytes(),
            r == spec_read_tileset(old(rom).bytes(), self.pri_tileset_addr, MAX_NUM_PRIMARY_BLOCKS),
    {
        MapTileset::read(self.pri_tileset_addr, rom, MAX_NUM_PRIMARY_BLOCKS)
    }

    /// Reads the secondary tileset this layout points at.
    pub fn get_sec_tileset(&self, rom: &mut Rom) -> (r: Result<MapTileset, Error>)
        ensures
            final(rom).bytes() == old(rom).bytes(),
            r == spec_read_tileset(
                old(rom).bytes(),
                self.sec_tileset_addr,
                MAX_NUM_SECONDARY_BLOCKS,
            ),
    {
        MapTileset::read(self.sec_tileset_addr, rom, MAX_NUM_SECONDARY_BLOCKS)
    }

    /// Composes the two tilesets' palettes into the layout's sixteen:
    /// exactly 16 entries, 0-6 from the primary tileset, 7-15 from the
    /// secondary.
    pub fn get_palettes(&self, rom: &mut Rom) -> (r: Result<Vec<Vec<Color>>, Error>)
        ensures
            final(rom).bytes() == old(rom).bytes(),
            match r {
                Ok(v) => {
                    &&& spec_layout_palettes(old(rom).bytes(), *self) matches Ok(s)
                        && v@.map_values(|pal: Vec<Color>| pal@) == s
                    &&& v@.len() == 16
                },
                Err(e) => spec_layout_palettes(old(rom).bytes(), *self) == Err::<
                    Seq<Seq<Color>>,
                    Error,
                >(e),
            },
    {
        let ghost data = old(rom).bytes();
        let pri = match self.get_pri_tileset(rom) {
            Ok(ts) => ts,
            Err(e) => {
                return Err(e);
            },
        };
        let pri_palettes = match pri.get_palettes(rom) {
            Ok(v) => v,
            Err(e) => {
                return Err(e);
            },
        };
        let sec = match self.get_sec_tileset(rom) {
            Ok(ts) => ts,
            Err(e) => {
                return Err(e);
            },
        };
        let sec_palettes = match sec.get_palettes(rom) {
            Ok(v) => v,
            Err(e) => {
                return Err(e);
            },
        };
        let ghost pp = spec_tileset_palettes(data, pri)->Ok_0;
        let ghost sp = spec_tileset_palettes(data, sec)->Ok_0;
        let mut combined: Vec<Vec<Color>> = Vec::new();
        let mut i: usize = 0;
        while i < 7
            invariant
                i <= 7,
                pri_palettes@.len() == 16,
                combined@.len() == i,
                forall|k: int| 0 <= k < i ==> #[trigger] combined@[k]@ == pri_palettes@[k]@,
            decreases 7 - i,
        {
            let pal = clone_palette(&pri_palettes[i]);
            combined.push(pal);
            i = i + 1;
        }
        let mut j: usize = 7;
        while j < 16
            invariant
                7 <= j <= 16,
                pri_palettes@.len() == 16,
                sec_palettes@.len() == 16,
                combined@.len() == j,
                forall|k: int| 0 <= k < 7 ==> #[trigger] combined@[k]@ == pri_palettes@[k]@,
                forall|k: int| 7 <= k < j ==> #[trigger] combined@[k]@ == sec_palettes@[k]@,
            decreases 16 - j,
        {
            let pal = clone_palette(&sec_palettes[j]);
            combined.push(pal);
            j = j + 1;
        }
        proof {
            let s = spec_layout_palettes(data, *self)->Ok_0;
            assert(combined@.map_values(|pal: Vec<Color>| pal@) =~~= s) by {
                assert forall|k: int| 0 <= k < 16 implies combined@.map_values(
                    |pal: Vec<Color>| pal@,
                )[k] == s[k] by {
                    if k < 7 {
                        assert(combined@[k]@ == pri_palettes@.map_values(
                            |pal: Vec<Color>| pal@,
                        )[k]);
                    } else {
                        assert(combined@[k]@ == sec_palettes@.map_values(
                            |pal: Vec<Color>| pal@,
                        )[k]);
                    }
                }
            }
        }
        Ok(combined)
    }

    /// Reads the combined tile records of the layout: the primary
    /// tileset's, then the secondary's, 32 bytes each.
    pub fn get_tiles_data(&self, rom: &mut Rom) -> (r: Result<Vec<Vec<u8>>, Error>)
        ensures
            final(rom).bytes() == old(rom).bytes(),
            match r {
                Ok(v) => spec_layout_tiles(old(rom).bytes(), *self) matches Ok(s) && v.deep_view()
                    == s,
                Err(e) => spec_layout_tiles(old(rom).bytes(), *self) == Err::<Seq<Seq<u8>>, Error>(
                    e,
                ),
            },
    {
        let pri = match self.get_pri_tileset(rom) {
            Ok(ts) => ts,
            Err(e) => {
                return Err(e);
            },
        };
        let sec = match self.get_sec_tileset(rom) {
            Ok(ts) => ts,
            Err(e) => {
                return Err(e);
            },
        };
        proof {
            lemma_tileset_fields_bounded(old(rom).bytes(), self.pri_tileset_addr, pri);
            lemma_tileset_fields_bounded(old(rom).bytes(), self.sec_tileset_addr, sec);
        }
        let pri_tiles = match pri.get_tiles_data(rom) {
            Ok(v) => v,
            Err(e) => {
                return Err(e);
            },
        };
        let sec_tiles = match sec.get_tiles_data(rom) {
            Ok(v) => v,
            Err(e) => {
                return Err(e);
            },
        };
        let ghost pt_seq = pri_tiles@;
        let ghost st_seq = sec_tiles@;
        let ghost pt_dv = pri_tiles.deep_view();
        let ghost st_dv = sec_tiles.deep_view();
        let out = concat_vecs(pri_tiles, sec_tiles);
        proof {
            assert(out.deep_view() =~~= pt_dv + st_dv) by {
                assert forall|i: int| 0 <= i < out@.len() implies out.deep_view()[i] == (pt_dv
                    + st_dv)[i] by {
                    assert(out.deep_view()[i] == out@[i].deep_view());
                    if i < pt_seq.len() {
                        assert(out@[i] == pt_seq[i]);
                        assert(pt_dv[i] == pt_seq[i].deep_view());
                    } else {
                        assert(out@[i] == st_seq[i - pt_seq.len()]);
                        assert(st_dv[i - pt_seq.len()] == st_seq[i - pt_seq.len()].deep_view());
                    }
                }
            }
        }
        Ok(out)
    }

    /// Decodes the combined block list of the layout: the primary
    /// tileset's blocks, then the secondary's.
    pub fn get_blocks(&self, rom: &mut Rom) -> (r: Result<Vec<Block>, Error>)
        ensures
            final(rom).bytes() == old(rom).bytes(),
            match r {
                Ok(v) => spec_layout_blocks(old(rom).bytes(), *self) == Ok::<Seq<BlockV>, Error>(
                    v@.map_values(|b: Block| b@),
                ),
                Err(e) => spec_layout_blocks(old(rom).bytes(), *self) == Err::<Seq<BlockV>, Error>(
                    e,
                ),
            },
    {
        let pri = match self.get_pri_tileset(rom) {
            Ok(ts) => ts,
            Err(e) => {
                return Err(e);
            },
        };
        let sec = match self.get_sec_tileset(rom) {
            Ok(ts) => ts,
            Err(e) => {
                return Err(e);
            },
        };
        proof {
            lemma_tileset_fields_bounded(old(rom).bytes(), self.pri_tileset_addr, pri);
            lemma_tileset_fields_bounded(old(rom).bytes(), self.sec_tileset_addr, sec);
        }
        let pri_blocks = pri.get_blocks(rom);
        let sec_blocks = sec.get_blocks(rom);
        let ghost pb = pri_blocks@;
        let ghost sb = sec_blocks@;
        let out = concat_vecs(pri_blocks, sec_blocks);
        proof {
            assert(out@.map_values(|b: Block| b@) =~= pb.map_values(|b: Block| b@) + sb.map_values(
                |b: Block| b@,
            ));
        }
        Ok(out)
    }
}

/// Decoded pointer fields always lie at or below the top of the translated
/// virtual range, so the block-walk arithmetic cannot overflow.
proof fn lemma_tileset_fields_bounded(data: Seq<u8>, address: usize, ts: MapTileset)
    requires
        spec_read_tileset(data, address, MAX_NUM_PRIMARY_BLOCKS) == Ok::<MapTileset, Error>(ts)
            || spec_read_tileset(data, address, MAX_NUM_SECONDARY_BLOCKS) == Ok::<
            MapTileset,
            Error,
        >(ts),
    ensures
        ts.tilemap_addr <= 0x2000000,
        ts.blockmap_addr <= 0x2000000,
        ts.block_attributes_addr <= 0x2000000,
        ts.max_block_count <= 640,
{
}

/// Copies one palette element by element.
fn clone_palette(pal: &Vec<Color>) -> (r: Vec<Color>)
    ensures
        r@ == pal@,
{
    let mut out: Vec<Color> = Vec::new();
    let mut i: usize = 0;
    while i < pal.len()
        invariant
            i <= pal@.len(),
            out@ == pal@.take(i as int),
        decreases pal@.len() - i,
    {
        out.push(pal[i]);
        proof {
            assert(out@ =~= pal@.take(i + 1));
        }
        i = i + 1;
    }
    proof {
        assert(out@ =~= pal@);
    }
    out
}

/// Appends the elements of `b` to `a`, front to back.
fn concat_vecs<T>(a: Vec<T>, b: Vec<T>) -> (r: Vec<T>)
    ensures
        r@ == a@ + b@,
{
    let ghost a_seq = a@;
    let ghost b_seq = b@;
    let mut out = a;
    let mut rest = b;
    let n = rest.len();
    let mut taken: usize = 0;
    while taken < n
        invariant
            taken <= n,
            n == b_seq.len(),
            rest@ == b_seq.skip(taken as int),
            out@ == a_seq + b_seq.take(taken as int),
        decreases n - taken,
    {
        let head = rest.remove(0);
        out.push(head);
        proof {
            assert(out@ =~= a_seq + b_seq.take(taken + 1));
            assert(rest@ =~= b_seq.skip(taken + 1));
        }
        taken = taken + 1;
    }
    proof {
        assert(b_seq.take(n as int) =~= b_seq);
        assert(out@ =~= a_seq + b_seq);
    }
    out
}

} // verus!
