use gbarom::error::Error;
use gbarom::graphics::Color;
use gbarom::mapping::{Background, Block, InvalidBlock, MapBlock, Terrain, Tile};
use gbarom::rom::Rom;

fn push_u16(data: &mut Vec<u8>, v: u16) {
    data.push((v & 0xFF) as u8);
    data.push((v >> 8) as u8);
}

fn push_u32(data: &mut Vec<u8>, v: u32) {
    for k in 0..4 {
        data.push(((v >> (8 * k)) & 0xFF) as u8);
    }
}

#[test]
fn tile_unpacks_id_flips_and_palette() {
    // word 0x0805: tile id 5, vertical flip bit (0xB) set, palette 0
    let mut data = vec![0u8];
    push_u16(&mut data, 0x0805);
    let mut rom = Rom::new(data);
    let tile = Tile::read(1, &mut rom).unwrap();
    assert_eq!(tile.tile_id, 5);
    assert!(!tile.h_flip);
    assert!(tile.v_flip);
    assert_eq!(tile.palette_id, 0);
}

#[test]
fn tile_unpacks_high_bits_as_palette() {
    // word 0x8005: bit 15 lies in the palette field, not the flip bits
    let mut data = vec![0u8];
    push_u16(&mut data, 0x8005);
    let mut rom = Rom::new(data);
    let tile = Tile::read(1, &mut rom).unwrap();
    assert_eq!(tile.tile_id, 5);
    assert!(!tile.h_flip);
    assert!(!tile.v_flip);
    assert_eq!(tile.palette_id, 8);
}

fn block_rom(attr: u32) -> Rom {
    // eight tile words at offset 16, the attribute word at offset 32
    let mut data = vec![0u8; 16];
    for t in 0..8u16 {
        push_u16(&mut data, t);
    }
    push_u32(&mut data, attr);
    Rom::new(data)
}

#[test]
fn block_decodes_tiles_and_metadata() {
    // behavior 0x123, terrain 2 (water), encounter 2 (surf), background 4 (split)
    let attr = 0x123 | (2 << 9) | (2 << 24) | (4 << 28);
    let mut rom = block_rom(attr);
    let block = Block::read(16, 32, &mut rom).unwrap();
    assert_eq!(block.behavior, 0x123);
    assert!(matches!(block.terrain, Terrain::Water));
    assert!(matches!(block.background, Background::Split));
    assert_eq!(block.tiles[0].tile_id, 0);
    assert_eq!(block.tiles[7].tile_id, 7);
}

#[test]
fn block_rejects_invalid_terrain() {
    // terrain bits equal 5, outside the valid set {0, 1, 2, 3}
    let mut rom = block_rom(5 << 9);
    assert_eq!(
        Block::read(16, 32, &mut rom),
        Err(Error::InvalidBlock(InvalidBlock::InvalidTerrain(5)))
    );
}

#[test]
fn block_rejects_invalid_encounter() {
    let mut rom = block_rom(5 << 24);
    assert_eq!(
        Block::read(16, 32, &mut rom),
        Err(Error::InvalidBlock(InvalidBlock::InvalidEncounter(5)))
    );
}

#[test]
fn block_rejects_invalid_background() {
    let mut rom = block_rom(1 << 28);
    assert_eq!(
        Block::read(16, 32, &mut rom),
        Err(Error::InvalidBlock(InvalidBlock::InvalidBackground(1)))
    );
}

#[test]
fn map_block_unpacks_and_round_trips() {
    let mut data = vec![0u8];
    push_u16(&mut data, (37 << 10) | 0x155);
    let mut rom = Rom::new(data);
    let mb = MapBlock::read(1, &mut rom).unwrap();
    assert_eq!(mb.block_id, 0x155);
    assert_eq!(mb.permission, 37);

    let back = MapBlock {
        block_id: 0x2AA,
        permission: 21,
    };
    back.write(1, &mut rom).unwrap();
    assert_eq!(MapBlock::read(1, &mut rom), Ok(back));
}

#[test]
fn color_unpacks_five_bit_channels() {
    // 0x7FFF: all three channels at 31, scaled by 8
    let c = Color::new(0x7FFF);
    assert_eq!((c.r, c.g, c.b, c.a), (248, 248, 248, 0xFF));
    let c2 = Color::new(0x001F);
    assert_eq!((c2.r, c2.g, c2.b), (248, 0, 0));
    assert_eq!(c2.to_rgb(), [248, 0, 0]);
    assert_eq!(c2.to_rgba(), 0xF80000FF);
}
