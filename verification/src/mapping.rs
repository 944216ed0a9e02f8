//! Typed records decoded from the cartridge's map data: tiles, blocks, map
//! grid cells, tilesets, map layouts and map headers.

pub mod block;
pub mod map_block;
pub mod map_header;
pub mod map_layout;
pub mod map_tileset;
pub mod tile;

pub use self::block::Background;
pub use self::block::Block;
pub use self::block::InvalidBlock;
pub use self::block::Terrain;
pub use self::map_block::MapBlock;
pub use self::map_header::MapHeader;
pub use self::map_layout::MapLayout;
pub use self::map_tileset::MapTileset;
pub use self::tile::InvalidTile;
pub use self::tile::Tile;
