//! Tile maps: the non-empty characters of a file, each with its column and
//! line, and the spawn and despawn work that follows a change of the file.
use vstd::prelude::*;
use crate::bitpack::TileColor;
use crate::map_asset::{split_lines, NEWLINE, SPACE};

verus! {

/// A tile: its character, column and line.
#[derive(Clone, Copy, Debug, Default, PartialEq, Eq, Hash, Structural)]
pub struct Tile(pub u8, pub u32, pub u32);

/// The tiles read from a tile-map file, in file order.
#[derive(Debug, Default)]
pub struct TileMap {
    map: Vec<Tile>,
}

/// Whether byte `c` stands for a tile.
pub open spec fn is_tile_byte(c: u8) -> bool {
    c != NEWLINE && c != SPACE
}

/// The tiles of file `b`: each byte that is neither a newline nor a space,
/// at its column (its place in its line) and its line number.
pub open spec fn tiles_of(b: Seq<u8>) -> Seq<Tile>
    decreases b.len(),
{
    if b.len() == 0 {
        Seq::empty()
    } else {
        let p = b.drop_last();
        let t = tiles_of(p);
        if is_tile_byte(b.last()) {
            let ls = split_lines(p);
            t.push(Tile(b.last(), ls.last().len() as u32, (ls.len() - 1) as u32))
        } else {
            t
        }
    }
}

proof fn lemma_lines_bounded(b: Seq<u8>)
    ensures
        split_lines(b).len() >= 1,
        split_lines(b).len() <= b.len() + 1,
        split_lines(b).last().len() <= b.len(),
    decreases b.len(),
{
    if b.len() > 0 {
        lemma_lines_bounded(b.drop_last());
    }
}

/// Whether `v` holds `t`.
fn holds_tile(v: &Vec<Tile>, t: Tile) -> (r: bool)
    ensures
        r == v@.contains(t),
{
    let mut i: usize = 0;
    while i < v.len()
        invariant
            i <= v@.len(),
            forall|k: int| 0 <= k < i ==> v@[k] != t,
        decreases v@.len() - i,
    {
        if v[i] == t {
            return true;
        }
        i = i + 1;
    }
    false
}

/// What a tile character spawns.
#[derive(Clone, Copy, Debug, PartialEq, Eq, Structural)]
pub enum TileSpawn {
    Mage,
    Stone,
    Sprite { index: u32, color: TileColor },
}

/// The character `M`, a mage.
pub const MAGE_TILE: u8 = 77;

/// The character `.`, a stone.
pub const STONE_TILE: u8 = 46;

/// The character `A`, a large bush.
pub const LARGE_BUSH_TILE: u8 = 65;

/// The character `a`, a small bush.
pub const SMALL_BUSH_TILE: u8 = 97;

/// What character `c` spawns: `M` a mage, `.` a stone, `A` and `a` bushes
/// (sprites 49 and 48, dark green), anything else nothing.
pub fn spawn_kind(c: u8) -> (r: Option<TileSpawn>)
    ensures
        r == if c == MAGE_TILE {
            Some(TileSpawn::Mage)
        } else if c == STONE_TILE {
            Some(TileSpawn::Stone)
        } else if c == LARGE_BUSH_TILE {
            Some(TileSpawn::Sprite { index: 49, color: TileColor::DarkGreen })
        } else if c == SMALL_BUSH_TILE {
            Some(TileSpawn::Sprite { index: 48, color: TileColor::DarkGreen })
        } else {
            None::<TileSpawn>
        },
{
    if c == MAGE_TILE {
        Some(TileSpawn::Mage)
    } else if c == STONE_TILE {
        Some(TileSpawn::Stone)
    } else if c == LARGE_BUSH_TILE {
        Some(TileSpawn::Sprite { index: 49, color: TileColor::DarkGreen })
    } else if c == SMALL_BUSH_TILE {
        Some(TileSpawn::Sprite { index: 48, color: TileColor::DarkGreen })
    } else {
        None
    }
}

impl TileMap {
    /// The tiles, in file order.
    pub closed spec fn view_tiles(&self) -> Seq<Tile> {
        self.map@
    }

    /// Builds a tile map from its tiles.
    pub fn from_tiles(map: Vec<Tile>) -> (r: TileMap)
        ensures
            r.view_tiles() == map@,
    {
        TileMap { map }
    }

    /// The tiles, in file order.
    pub fn tiles(&self) -> (r: &Vec<Tile>)
        ensures
            r@ == self.view_tiles(),
    {
        &self.map
    }

    /// Whether the map holds `t`.
    pub fn contains(&self, t: Tile) -> (r: bool)
        ensures
            r == self.view_tiles().contains(t),
    {
        holds_tile(&self.map, t)
    }

    /// The positions in `existing` of the tiles that the map no longer
    /// holds: those are despawned after a change of the file.
    pub fn stale(&self, existing: &Vec<Tile>) -> (r: Vec<usize>)
        ensures
            r@ == Seq::new(existing@.len(), |k: int| k as usize).filter(
                |k: usize| !self.view_tiles().contains(existing@[k as int]),
            ),
    {
        let ghost pred = |k: usize| !self.view_tiles().contains(existing@[k as int]);
        let ghost all = Seq::new(existing@.len(), |k: int| k as usize);
        let mut r: Vec<usize> = Vec::new();
        let mut i: usize = 0;
        assert(all.take(0) =~= Seq::<usize>::empty());
        while i < existing.len()
            invariant
                i <= existing@.len(),
                all == Seq::new(existing@.len(), |k: int| k as usize),
                pred == (|k: usize| !self.view_tiles().contains(existing@[k as int])),
                r@ == all.take(i as int).filter(pred),
            decreases existing@.len() - i,
        {
            proof {
                assert(all.take(i + 1) =~= all.take(i as int).push(i));
                all.take(i as int).lemma_filter_push(i, pred);
            }
            if !self.contains(existing[i]) {
                r.push(i);
            }
            i = i + 1;
        }
        assert(all.take(existing@.len() as int) =~= all);
        r
    }

    /// The tiles of the map that `existing` lacks, in file order: those
    /// are spawned after a change of the file.
    pub fn missing(&self, existing: &Vec<Tile>) -> (r: Vec<Tile>)
        ensures
            r@ == self.view_tiles().filter(|t: Tile| !existing@.contains(t)),
    {
        let ghost pred = |t: Tile| !existing@.contains(t);
        let ghost all = self.map@;
        let mut r: Vec<Tile> = Vec::new();
        let mut i: usize = 0;
        assert(all.take(0) =~= Seq::<Tile>::empty());
        while i < self.map.len()
            invariant
                i <= all.len(),
                all == self.map@,
                pred == (|t: Tile| !existing@.contains(t)),
                r@ == all.take(i as int).filter(pred),
            decreases all.len() - i,
        {
            let t = self.map[i];
            proof {
                assert(all.take(i + 1) =~= all.take(i as int).push(t));
                all.take(i as int).lemma_filter_push(t, pred);
            }
            if !holds_tile(existing, t) {
                r.push(t);
            }
            i = i + 1;
        }
        assert(all.take(all.len() as int) =~= all);
        r
    }
}

/// Reads tile-map files.
#[derive(Debug, Default)]
pub struct TileMapLoader;

impl TileMapLoader {
    /// Reads a tile map from a file's bytes.
    pub fn load(&self, bytes: &[u8]) -> (r: TileMap)
        requires
            bytes@.len() <= u32::MAX,
        ensures
            r.view_tiles() == tiles_of(bytes@),
    {
        let ghost b = bytes@;
        let mut map: Vec<Tile> = Vec::new();
        let mut col: u32 = 0;
        let mut row: u32 = 0;
        let mut i: usize = 0;
        assert(b.take(0) =~= Seq::<u8>::empty());
        while i < bytes.len()
            invariant
                b == bytes@,
                b.len() <= u32::MAX,
                i <= b.len(),
                split_lines(b.take(i as int)).last().len() == col,
                split_lines(b.take(i as int)).len() - 1 == row,
                map@ == tiles_of(b.take(i as int)),
            decreases b.len() - i,
        {
            let c = bytes[i];
            proof {
                lemma_lines_bounded(b.take(i as int));
                assert(b.take(i + 1).drop_last() =~= b.take(i as int));
            }
            let ghost ls = split_lines(b.take(i as int));
            let ghost ls2 = split_lines(b.take(i + 1));
            if c == NEWLINE {
                col = 0;
                row = row + 1;
                assert(ls2.drop_last() =~= ls);
            } else {
                if c != SPACE {
                    map.push(Tile(c, col, row));
                }
                col = col + 1;
                assert(ls2.drop_last() =~= ls.drop_last());
            }
            i = i + 1;
        }
        assert(b.take(b.len() as int) =~= b);
        TileMap { map }
    }
}

} // verus!
