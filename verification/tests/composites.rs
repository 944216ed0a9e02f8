use gbarom::mapping::{MapBlock, MapHeader, MapLayout, MapTileset};
use gbarom::rom::Rom;

fn put_u16(data: &mut Vec<u8>, at: usize, v: u16) {
    data[at] = (v & 0xFF) as u8;
    data[at + 1] = (v >> 8) as u8;
}

fn put_u32(data: &mut Vec<u8>, at: usize, v: u32) {
    for k in 0..4 {
        data[at + k] = ((v >> (8 * k)) & 0xFF) as u8;
    }
}

fn put_ptr(data: &mut Vec<u8>, at: usize, target: u32) {
    put_u32(data, at, 0x8000000 + target);
}

/// One buffer holding two tileset descriptors, their palettes, a block
/// grid with attributes, a map grid, and a layout descriptor.
fn build_map_buffer() -> Vec<u8> {
    let mut data = vec![0u8; 0x600];
    // primary tileset descriptor at 0x10: uncompressed, palettes at 0x100,
    // blocks at 0x480 with attributes at 0x4A0, tiles at 0x10 (unused here)
    put_ptr(&mut data, 0x14, 0x10);
    put_ptr(&mut data, 0x18, 0x100);
    put_ptr(&mut data, 0x1C, 0x480);
    put_u32(&mut data, 0x20, 0);
    put_ptr(&mut data, 0x24, 0x4A0);
    // secondary tileset descriptor at 0x30: palettes at 0x300, blocks at
    // 0x4C0 with attributes at 0x4D0
    put_ptr(&mut data, 0x34, 0x10);
    put_ptr(&mut data, 0x38, 0x300);
    put_ptr(&mut data, 0x3C, 0x4C0);
    put_u32(&mut data, 0x40, 0);
    put_ptr(&mut data, 0x44, 0x4D0);
    // palettes: primary color words hold the palette index, secondary
    // color words hold the palette index plus one
    for i in 0..16 {
        for j in 0..16 {
            put_u16(&mut data, 0x100 + 32 * i + 2 * j, i as u16);
            put_u16(&mut data, 0x300 + 32 * i + 2 * j, i as u16 + 1);
        }
    }
    // layout descriptor at 0x50: 2x2 grid at 0x500, tilesets above
    put_u32(&mut data, 0x50, 2);
    put_u32(&mut data, 0x54, 2);
    put_u32(&mut data, 0x58, 0);
    put_ptr(&mut data, 0x5C, 0x500);
    put_ptr(&mut data, 0x60, 0x10);
    put_ptr(&mut data, 0x64, 0x30);
    data[0x68] = 1;
    data[0x69] = 2;
    // the grid: cell k holds block id k with permission k
    for k in 0..4u16 {
        put_u16(&mut data, 0x500 + 2 * k as usize, k | (k << 10));
    }
    data
}

#[test]
fn tileset_descriptor_reads_back() {
    let mut rom = Rom::new(build_map_buffer());
    let ts = MapTileset::read(0x10, &mut rom, 640).unwrap();
    assert!(!ts.is_compressed);
    assert_eq!(ts.tilemap_addr, 0x10);
    assert_eq!(ts.palettes_addr, 0x100);
    assert_eq!(ts.blockmap_addr, 0x480);
    assert_eq!(ts.tileset_callback_addr, 0);
    assert_eq!(ts.block_attributes_addr, 0x4A0);
    assert_eq!(ts.max_block_count, 640);
}

#[test]
fn layout_descriptor_reads_back() {
    let mut rom = Rom::new(build_map_buffer());
    let layout = MapLayout::read(0x50, &mut rom).unwrap();
    assert_eq!((layout.width, layout.height), (2, 2));
    assert_eq!(layout.map_blocks_addr, 0x500);
    assert_eq!(layout.pri_tileset_addr, 0x10);
    assert_eq!(layout.sec_tileset_addr, 0x30);
    assert_eq!((layout.border_width, layout.border_height), (1, 2));
}

#[test]
fn tileset_palettes_decode_colors() {
    let mut rom = Rom::new(build_map_buffer());
    let ts = MapTileset::read(0x10, &mut rom, 640).unwrap();
    let palettes = ts.get_palettes(&mut rom).unwrap();
    assert_eq!(palettes.len(), 16);
    for (i, palette) in palettes.iter().enumerate() {
        assert_eq!(palette.len(), 16);
        for color in palette {
            // color word i: the low five bits feed the red channel
            assert_eq!(color.r, ((i as u16 & 31) * 8) as u8);
            assert_eq!(color.a, 0xFF);
        }
    }
}

#[test]
fn layout_palettes_compose_primary_then_secondary() {
    let mut rom = Rom::new(build_map_buffer());
    let layout = MapLayout::read(0x50, &mut rom).unwrap();
    let pri = layout.get_pri_tileset(&mut rom).unwrap();
    let sec = layout.get_sec_tileset(&mut rom).unwrap();
    let pri_palettes = pri.get_palettes(&mut rom).unwrap();
    let sec_palettes = sec.get_palettes(&mut rom).unwrap();
    let combined = layout.get_palettes(&mut rom).unwrap();
    assert_eq!(combined.len(), 16);
    for i in 0..7 {
        assert_eq!(combined[i], pri_palettes[i]);
    }
    for i in 7..16 {
        assert_eq!(combined[i], sec_palettes[i]);
    }
}

#[test]
fn tileset_blocks_stop_at_attribute_region() {
    let mut rom = Rom::new(build_map_buffer());
    // the attribute region begins 32 bytes past the block grid: two blocks
    let ts = MapTileset::read(0x10, &mut rom, 640).unwrap();
    let blocks = ts.get_blocks(&mut rom);
    assert_eq!(blocks.len(), 2);
    assert!(blocks.len() <= ts.max_block_count);
}

#[test]
fn tileset_blocks_respect_max_block_count() {
    let mut rom = Rom::new(build_map_buffer());
    let ts = MapTileset::read(0x10, &mut rom, 1).unwrap();
    let blocks = ts.get_blocks(&mut rom);
    assert_eq!(blocks.len(), 1);
}

#[test]
fn layout_blocks_concatenate_both_tilesets() {
    let mut rom = Rom::new(build_map_buffer());
    let layout = MapLayout::read(0x50, &mut rom).unwrap();
    // primary holds two blocks, secondary one (0x4D0 - 0x4C0 = one stride)
    let blocks = layout.get_blocks(&mut rom).unwrap();
    assert_eq!(blocks.len(), 3);
}

#[test]
fn tiles_data_raw_path_chunks_by_32() {
    let mut rom = Rom::new(build_map_buffer());
    let ts = MapTileset {
        is_compressed: false,
        use_sec_palettes: false,
        padding: 0,
        tilemap_addr: 0x100,
        palettes_addr: 0x100,
        blockmap_addr: 0x480,
        tileset_callback_addr: 0,
        block_attributes_addr: 0x4A0,
        max_block_count: 2,
    };
    let tiles = ts.get_tiles_data(&mut rom).unwrap();
    assert_eq!(tiles.len(), 2);
    assert_eq!(tiles[0].len(), 32);
    assert_eq!(tiles[1].len(), 32);
    let raw = rom.get_data();
    assert_eq!(tiles[0], raw[0x100..0x120].to_vec());
    assert_eq!(tiles[1], raw[0x120..0x140].to_vec());
}

#[test]
fn tiles_data_compressed_path_matches_raw() {
    // the same 32 bytes, once raw and once behind a literal-only stream
    let payload: Vec<u8> = (0..32).collect();
    let mut data = vec![0u8; 0x100];
    for (k, b) in payload.iter().enumerate() {
        data[0x40 + k] = *b;
    }
    data[0x80] = 0x10;
    data[0x81] = 32;
    let mut at = 0x84;
    for group in payload.chunks(8) {
        data[at] = 0x00;
        at += 1;
        for b in group {
            data[at] = *b;
            at += 1;
        }
    }
    let mut rom = Rom::new(data);
    let raw_ts = MapTileset {
        is_compressed: false,
        use_sec_palettes: false,
        padding: 0,
        tilemap_addr: 0x40,
        palettes_addr: 0,
        blockmap_addr: 0,
        tileset_callback_addr: 0,
        block_attributes_addr: 0,
        max_block_count: 1,
    };
    let lz_ts = MapTileset {
        is_compressed: true,
        tilemap_addr: 0x80,
        ..raw_ts
    };
    let raw_tiles = raw_ts.get_tiles_data(&mut rom).unwrap();
    let lz_tiles = lz_ts.get_tiles_data(&mut rom).unwrap();
    assert_eq!(raw_tiles, lz_tiles);
    assert_eq!(raw_tiles, vec![payload]);
}

#[test]
fn map_grid_reads_row_by_row() {
    let mut rom = Rom::new(build_map_buffer());
    let layout = MapLayout::read(0x50, &mut rom).unwrap();
    let cells = layout.get_map_blocks(&mut rom).unwrap();
    assert_eq!(cells.len(), 4);
    for (k, cell) in cells.iter().enumerate() {
        assert_eq!(cell.block_id, k as u16);
        assert_eq!(cell.permission, k as u8);
    }
    assert_eq!(layout.get_map_block_at(&mut rom, 1, 1).unwrap(), cells[3]);
}

#[test]
fn map_grid_cell_writes_back() {
    let mut rom = Rom::new(build_map_buffer());
    let layout = MapLayout::read(0x50, &mut rom).unwrap();
    let cell = MapBlock {
        block_id: 0x3FF,
        permission: 63,
    };
    layout.set_map_block_at(&mut rom, 0, 1, &cell).unwrap();
    assert_eq!(layout.get_map_block_at(&mut rom, 0, 1).unwrap(), cell);
}

#[test]
fn map_header_lookup_chases_bank_and_map_tables() {
    let mut data = vec![0u8; 0x56000];
    // the bank-table pointer leads to the bank table, whose second slot
    // leads to a map table, whose second slot leads to the header
    put_ptr(&mut data, 0x5524C, 0x55000);
    put_ptr(&mut data, 0x55000, 0x55100);
    put_ptr(&mut data, 0x55004, 0x55180);
    put_ptr(&mut data, 0x55100, 0x55200);
    put_ptr(&mut data, 0x55180, 0x55200);
    put_ptr(&mut data, 0x55184, 0x55300);
    put_ptr(&mut data, 0x55200, 0x10);
    put_u32(&mut data, 0x55204, 0);
    put_ptr(&mut data, 0x55300, 0x20);
    put_ptr(&mut data, 0x55304, 0x30);
    let mut rom = Rom::new(data);
    let header = rom.get_map_header(0, 0).unwrap();
    assert_eq!(
        header,
        MapHeader {
            bank_num: 0,
            map_num: 0,
            layout_addr: 0x10,
            events_addr: 0
        }
    );
    let header11 = rom.get_map_header(1, 1).unwrap();
    assert_eq!(header11.layout_addr, 0x20);
    assert_eq!(header11.events_addr, 0x30);
}

#[test]
fn map_banks_names_list_header_positions() {
    let sizes: [u8; 43] = [
        5, 123, 60, 66, 4, 6, 8, 10, 6, 8, 20, 10, 8, 2, 10, 4, 2, 2, 2, 1, 1, 2, 2, 3, 2, 3, 2,
        1, 1, 1, 1, 7, 5, 5, 8, 8, 5, 5, 1, 1, 1, 2, 1,
    ];
    let mut data = vec![0u8; 0x60000];
    put_ptr(&mut data, 0x5524C, 0x55800);
    // every map of every bank points at the same header offset
    let mut table_at = 0x56000;
    for (bank, size) in sizes.iter().enumerate() {
        put_ptr(&mut data, 0x55800 + 4 * bank, table_at as u32);
        for m in 0..*size as usize {
            put_ptr(&mut data, table_at + 4 * m, 0x10);
        }
        table_at += 4 * *size as usize;
    }
    let mut rom = Rom::new(data);
    let banks = rom.get_map_banks_names().unwrap();
    assert_eq!(banks.len(), 43);
    for (bank, names) in banks.iter().enumerate() {
        assert_eq!(names.len(), sizes[bank] as usize);
        for name in names {
            assert_eq!(name, "0x10");
        }
    }
}

#[test]
fn map_banks_names_fail_on_short_buffer() {
    let mut rom = Rom::new(vec![0u8; 16]);
    assert!(rom.get_map_banks_names().is_err());
}
