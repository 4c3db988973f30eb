//! Game logic of "gluttony", a puzzle game about rolling a die across
//! tile-based levels: die orientation, movement, save progress, tile
//! activation, and the decoding of level data read from `tiled` maps.

pub mod dice;
pub mod rotation;
pub mod tilemap;
pub mod anim;
pub mod tile;
pub mod layers;
pub mod level;
pub mod map_scheme;
pub mod map_level;
pub mod moveable;
pub mod player;
pub mod special_tiles;
pub mod properties;
pub mod level_info;
pub mod tile_attributes;
pub mod tile_decoder;
pub mod tile_animation;
pub mod tiled_asset;
pub mod save;
pub mod credits;
pub mod game_flow;
