//! What each character of a house map stands for, and how it is dressed
//! and given a body.
use vstd::prelude::*;
use crate::bitpack::TileColor;
use crate::utils::SliceExt;

verus! {

/// A sprite of the 1-bit tile sheet with its tint.
#[derive(Clone, Copy, Debug, PartialEq, Eq, Structural)]
pub enum Dress {
    Bitpack(u32, TileColor),
}

/// What a map character places.
#[derive(Clone, Copy, Debug, PartialEq, Eq, Hash, Structural)]
pub enum Marker {
    Wall,
    Chair,
    Table,
    Window,
    Door,
    Bookshelf,
    Mirror,
    Oven,
    Bed,
    Dirt,
    RandomTree,
    PlayerSpawn,
    Player,
    Torch,
}

/// The body a marker gets in the physics world: a fixed tile or a ball
/// that can be pushed.
#[derive(Clone, Copy, Debug, PartialEq, Eq, Structural)]
pub enum PhysicsKind {
    SolidTile,
    DynamicBall,
}

/// How a marker is set up when it is placed.
#[derive(Clone, Copy, Debug, PartialEq, Eq, Structural)]
pub struct MarkerSetup {
    pub dress: Option<Dress>,
    pub physics: Option<PhysicsKind>,
    pub player_spawn: bool,
}

/// The tree sprites a tree marker picks from.
pub const TREE_SPRITES: [u32; 8] = [48, 49, 50, 51, 52, 53, 99, 100];

/// The marker that map character `c` places: `#` wall, `W` window, `D`
/// door, `c` chair, `=` table, `.` dirt, `b` bookshelf, `t` mirror, `B`
/// bed, `f` torch, `A` tree, `P` the player's spawn point, `o` oven.
pub open spec fn marker_of(c: u8) -> Option<Marker> {
    if c == 35 {
        Some(Marker::Wall)
    } else if c == 87 {
        Some(Marker::Window)
    } else if c == 68 {
        Some(Marker::Door)
    } else if c == 99 {
        Some(Marker::Chair)
    } else if c == 61 {
        Some(Marker::Table)
    } else if c == 46 {
        Some(Marker::Dirt)
    } else if c == 98 {
        Some(Marker::Bookshelf)
    } else if c == 116 {
        Some(Marker::Mirror)
    } else if c == 66 {
        Some(Marker::Bed)
    } else if c == 102 {
        Some(Marker::Torch)
    } else if c == 65 {
        Some(Marker::RandomTree)
    } else if c == 80 {
        Some(Marker::PlayerSpawn)
    } else if c == 111 {
        Some(Marker::Oven)
    } else {
        None
    }
}

/// The characters of a house map and their markers.
pub fn tile_markers() -> (r: Vec<(u8, Marker)>)
    ensures
        forall|k: int| 0 <= k < r@.len() ==> marker_of(#[trigger] r@[k].0) == Some(r@[k].1),
        forall|c: u8| #[trigger] marker_of(c) is Some ==> exists|k: int| 0 <= k < r@.len() && r@[k].0 == c,
{
    let r = vec![
        (35u8, Marker::Wall),
        (87u8, Marker::Window),
        (68u8, Marker::Door),
        (99u8, Marker::Chair),
        (61u8, Marker::Table),
        (46u8, Marker::Dirt),
        (98u8, Marker::Bookshelf),
        (116u8, Marker::Mirror),
        (66u8, Marker::Bed),
        (102u8, Marker::Torch),
        (65u8, Marker::RandomTree),
        (80u8, Marker::PlayerSpawn),
        (111u8, Marker::Oven),
    ];
    assert forall|c: u8| #[trigger] marker_of(c) is Some implies exists|k: int|
        0 <= k < r@.len() && r@[k].0 == c by {
        if c == 35 { assert(r@[0].0 == c); }
        else if c == 87 { assert(r@[1].0 == c); }
        else if c == 68 { assert(r@[2].0 == c); }
        else if c == 99 { assert(r@[3].0 == c); }
        else if c == 61 { assert(r@[4].0 == c); }
        else if c == 46 { assert(r@[5].0 == c); }
        else if c == 98 { assert(r@[6].0 == c); }
        else if c == 116 { assert(r@[7].0 == c); }
        else if c == 66 { assert(r@[8].0 == c); }
        else if c == 102 { assert(r@[9].0 == c); }
        else if c == 65 { assert(r@[10].0 == c); }
        else if c == 80 { assert(r@[11].0 == c); }
        else { assert(r@[12].0 == c); }
    }
    r
}

/// The marker placed by map character `c`, found in the table of
/// [`tile_markers`].
pub fn marker_for_tile(c: u8) -> (r: Option<Marker>)
    ensures
        r == marker_of(c),
{
    let table = tile_markers();
    let mut i: usize = 0;
    while i < table.len()
        invariant
            i <= table@.len(),
            forall|k: int| 0 <= k < table@.len() ==> marker_of(#[trigger] table@[k].0) == Some(table@[k].1),
            forall|c: u8| #[trigger] marker_of(c) is Some ==> exists|k: int| 0 <= k < table@.len() && table@[k].0 == c,
            forall|k: int| 0 <= k < i ==> table@[k].0 != c,
        decreases table@.len() - i,
    {
        if table[i].0 == c {
            return Some(table[i].1);
        }
        i = i + 1;
    }
    None
}

/// How `marker` is set up, for every marker but the player itself, which
/// is never placed from a map. A tree gets one of [`TREE_SPRITES`].
pub fn marker_setup(marker: Marker) -> (r: MarkerSetup)
    requires
        marker != Marker::Player,
    ensures
        r == (match marker {
            Marker::Wall => MarkerSetup { dress: Some(Dress::Bitpack(826, TileColor::Gray)), physics: Some(PhysicsKind::SolidTile), player_spawn: false },
            Marker::Chair => MarkerSetup { dress: Some(Dress::Bitpack(385, TileColor::Salmon)), physics: Some(PhysicsKind::DynamicBall), player_spawn: false },
            Marker::Table => MarkerSetup { dress: Some(Dress::Bitpack(386, TileColor::Salmon)), physics: Some(PhysicsKind::SolidTile), player_spawn: false },
            Marker::Window => MarkerSetup { dress: Some(Dress::Bitpack(827, TileColor::Gray)), physics: Some(PhysicsKind::SolidTile), player_spawn: false },
            Marker::Door => MarkerSetup { dress: Some(Dress::Bitpack(438, TileColor::Gray)), physics: None, player_spawn: false },
            Marker::Bookshelf => MarkerSetup { dress: Some(Dress::Bitpack(339, TileColor::Salmon)), physics: Some(PhysicsKind::SolidTile), player_spawn: false },
            Marker::Mirror => MarkerSetup { dress: Some(Dress::Bitpack(384, TileColor::Salmon)), physics: Some(PhysicsKind::SolidTile), player_spawn: false },
            Marker::Oven => MarkerSetup { dress: Some(Dress::Bitpack(392, TileColor::Salmon)), physics: Some(PhysicsKind::SolidTile), player_spawn: false },
            Marker::Bed => MarkerSetup { dress: Some(Dress::Bitpack(389, TileColor::Salmon)), physics: Some(PhysicsKind::SolidTile), player_spawn: false },
            Marker::Dirt => MarkerSetup { dress: Some(Dress::Bitpack(3, TileColor::Salmon)), physics: None, player_spawn: false },
            Marker::RandomTree => MarkerSetup { dress: r.dress, physics: Some(PhysicsKind::SolidTile), player_spawn: false },
            Marker::PlayerSpawn => MarkerSetup { dress: None, physics: None, player_spawn: true },
            Marker::Torch => MarkerSetup { dress: Some(Dress::Bitpack(724, TileColor::Yellow)), physics: None, player_spawn: false },
            Marker::Player => r,
        }),
        marker == Marker::RandomTree ==> exists|k: int|
            0 <= k < TREE_SPRITES@.len() && r.dress == Some(Dress::Bitpack(TREE_SPRITES@[k], TileColor::Leaf)),
{
    let solid = Some(PhysicsKind::SolidTile);
    match marker {
        Marker::Wall => MarkerSetup { dress: Some(Dress::Bitpack(826, TileColor::Gray)), physics: solid, player_spawn: false },
        Marker::Chair => MarkerSetup { dress: Some(Dress::Bitpack(385, TileColor::Salmon)), physics: Some(PhysicsKind::DynamicBall), player_spawn: false },
        Marker::Table => MarkerSetup { dress: Some(Dress::Bitpack(386, TileColor::Salmon)), physics: solid, player_spawn: false },
        Marker::Window => MarkerSetup { dress: Some(Dress::Bitpack(827, TileColor::Gray)), physics: solid, player_spawn: false },
        Marker::Door => MarkerSetup { dress: Some(Dress::Bitpack(9 * 48 + 6, TileColor::Gray)), physics: None, player_spawn: false },
        Marker::Bookshelf => MarkerSetup { dress: Some(Dress::Bitpack(7 * 48 + 3, TileColor::Salmon)), physics: solid, player_spawn: false },
        Marker::Mirror => MarkerSetup { dress: Some(Dress::Bitpack(8 * 48, TileColor::Salmon)), physics: solid, player_spawn: false },
        Marker::Oven => MarkerSetup { dress: Some(Dress::Bitpack(8 * 48 + 8, TileColor::Salmon)), physics: solid, player_spawn: false },
        Marker::Bed => MarkerSetup { dress: Some(Dress::Bitpack(8 * 48 + 5, TileColor::Salmon)), physics: solid, player_spawn: false },
        Marker::Dirt => MarkerSetup { dress: Some(Dress::Bitpack(3, TileColor::Salmon)), physics: None, player_spawn: false },
        Marker::RandomTree => {
            let sprites = TREE_SPRITES;
            let sprite = sprites.as_slice().random();
            MarkerSetup { dress: Some(Dress::Bitpack(sprite, TileColor::Leaf)), physics: solid, player_spawn: false }
        },
        Marker::PlayerSpawn => MarkerSetup { dress: None, physics: None, player_spawn: true },
        Marker::Torch => MarkerSetup { dress: Some(Dress::Bitpack(15 * 48 + 4, TileColor::Yellow)), physics: None, player_spawn: false },
        Marker::Player => MarkerSetup { dress: None, physics: None, player_spawn: false },
    }
}

} // verus!
