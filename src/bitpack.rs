//! Sprite indices in the 1-bit tile sheet.
use vstd::prelude::*;

verus! {

/// The sheet's path among the game's assets.
pub const PATH: &'static str = "bit-pack/Tilesheet/monochrome_transparent.png";

/// The first magician sprite.
pub const MAGICIAN1: usize = 24;

/// The first tree sprite.
pub const TREE1: usize = 51;

/// Tints a sprite can be drawn with.
#[derive(Clone, Copy, Debug, PartialEq, Eq, Structural)]
pub enum TileColor {
    White,
    Black,
    Green,
    DarkGreen,
    Gray,
    Salmon,
    Yellow,
    /// The light green of trees, red 0.22, green 0.851, blue 0.451.
    Leaf,
}

} // verus!
