//! Gameplay rules of a small tile-based sandbox: character maps and tile
//! maps, the tiles to spawn or despawn when a map changes, house-map
//! markers, inventories, carrying, the oven's baking cycle, chatter lines,
//! and the discrete side of context-map steering: slots, combining,
//! picking and masking.
pub mod bitpack;
pub mod bitpack_map;
pub mod context_map;
pub mod inventory;
pub mod inventory_widget;
pub mod item_basics;
pub mod jabber;
pub mod map_asset;
pub mod markers;
pub mod oven;
pub mod player;
pub mod sprite_animation;
pub mod tile_map;
pub mod utils;
