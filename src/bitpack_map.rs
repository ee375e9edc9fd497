//! Keeps the spawned tiles of a character map in step with the map: which
//! tiles stay and which go when the map changes, which places need a new
//! tile, and which sprite a tile shows.
use vstd::prelude::*;
use vstd::arithmetic::div_mod::lemma_fundamental_div_mod_converse;
use crate::bitpack::{TileColor, MAGICIAN1, TREE1};
use crate::map_asset::{MapAsset, MapTile, SPACE};

verus! {

/// A place of a map: its column and row.
pub type Coord = (u32, u32);

/// The place of tile `t`.
pub open spec fn coord_of(t: MapTile) -> Coord {
    (t.col, t.row)
}

/// What to do with the spawned tiles when their map changes.
#[derive(Debug)]
pub struct DespawnPlan {
    /// The places of the tiles that stay, in the order given.
    pub remains: Vec<Coord>,
    /// The positions, among the tiles given, of those that go.
    pub despawn: Vec<usize>,
}

/// Splits the spawned tiles `tiles` into those that `map` still holds,
/// which stay, and the others, which are despawned.
pub fn sync_despawn(tiles: &Vec<MapTile>, map: &MapAsset) -> (r: DespawnPlan)
    requires
        map.wf(),
    ensures
        r.remains@ == tiles@.filter(|t: MapTile| map.contains_spec(t)).map_values(
            |t: MapTile| coord_of(t),
        ),
        r.despawn@ == Seq::new(tiles@.len(), |k: int| k as usize).filter(
            |k: usize| !map.contains_spec(tiles@[k as int]),
        ),
{
    let ghost keep = |t: MapTile| map.contains_spec(t);
    let ghost go = |k: usize| !map.contains_spec(tiles@[k as int]);
    let ghost idx = Seq::new(tiles@.len(), |k: int| k as usize);
    let mut remains: Vec<Coord> = Vec::new();
    let mut despawn: Vec<usize> = Vec::new();
    let mut i: usize = 0;
    assert(tiles@.take(0) =~= Seq::<MapTile>::empty());
    assert(idx.take(0) =~= Seq::<usize>::empty());
    while i < tiles.len()
        invariant
            map.wf(),
            i <= tiles@.len(),
            keep == (|t: MapTile| map.contains_spec(t)),
            go == (|k: usize| !map.contains_spec(tiles@[k as int])),
            idx == Seq::new(tiles@.len(), |k: int| k as usize),
            remains@ == tiles@.take(i as int).filter(keep).map_values(|t: MapTile| coord_of(t)),
            despawn@ == idx.take(i as int).filter(go),
        decreases tiles@.len() - i,
    {
        let t = tiles[i];
        let ghost before = tiles@.take(i as int).filter(keep);
        proof {
            assert(tiles@.take(i + 1) =~= tiles@.take(i as int).push(t));
            tiles@.take(i as int).lemma_filter_push(t, keep);
            assert(idx.take(i + 1) =~= idx.take(i as int).push(i));
            idx.take(i as int).lemma_filter_push(i, go);
        }
        if map.contains(t) {
            remains.push((t.col, t.row));
            assert(before.push(t).map_values(|t: MapTile| coord_of(t)) =~= before.map_values(
                |t: MapTile| coord_of(t),
            ).push(coord_of(t)));
        } else {
            despawn.push(i);
        }
        i = i + 1;
    }
    assert(tiles@.take(tiles@.len() as int) =~= tiles@);
    assert(idx.take(tiles@.len() as int) =~= idx);
    DespawnPlan { remains, despawn }
}

/// Every tile of `map`, row by row.
pub open spec fn all_tiles(map: &MapAsset) -> Seq<MapTile> {
    Seq::new(
        map.tiles@.len(),
        |k: int|
            MapTile { tile: map.tiles@[k], col: (k % map.cols as int) as u32, row: (k / map.cols as int) as u32 },
    )
}

/// Whether tile `t` needs spawning when the places `existing` are taken.
pub open spec fn needs_spawn(t: MapTile, existing: Seq<Coord>) -> bool {
    t.tile != SPACE && !existing.contains(coord_of(t))
}

/// Whether `v` holds `c`.
fn holds_coord(v: &Vec<Coord>, c: Coord) -> (r: bool)
    ensures
        r == v@.contains(c),
{
    let mut i: usize = 0;
    while i < v.len()
        invariant
            i <= v@.len(),
            forall|k: int| 0 <= k < i ==> v@[k] != c,
        decreases v@.len() - i,
    {
        let e = v[i];
        if e.0 == c.0 && e.1 == c.1 {
            return true;
        }
        i = i + 1;
    }
    false
}

/// The tiles of `map`, row by row, that are not empty and whose place is
/// not among `existing`: those get spawned.
pub fn sync_spawn(map: &MapAsset, existing: &Vec<Coord>) -> (r: Vec<MapTile>)
    requires
        map.wf(),
    ensures
        r@ == all_tiles(map).filter(|t: MapTile| needs_spawn(t, existing@)),
{
    let ghost pred = |t: MapTile| needs_spawn(t, existing@);
    let ghost all = all_tiles(map);
    let mut r: Vec<MapTile> = Vec::new();
    let mut row: u32 = 0;
    assert(all.take(0) =~= Seq::<MapTile>::empty());
    while row < map.rows
        invariant
            map.wf(),
            row <= map.rows,
            all == all_tiles(map),
            pred == (|t: MapTile| needs_spawn(t, existing@)),
            r@ == all.take(row * map.cols).filter(pred),
        decreases map.rows - row,
    {
        let mut col: u32 = 0;
        while col < map.cols
            invariant
                map.wf(),
                row < map.rows,
                col <= map.cols,
                all == all_tiles(map),
                pred == (|t: MapTile| needs_spawn(t, existing@)),
                r@ == all.take(row * map.cols + col).filter(pred),
            decreases map.cols - col,
        {
            let ghost k = row * map.cols + col;
            let ghost cols = map.cols as int;
            proof {
                assert(0 <= row * cols && k < cols * map.rows && k == col + cols * row)
                    by (nonlinear_arith)
                    requires
                        col < cols,
                        row < map.rows,
                        k == row * cols + col,
                ;
                lemma_fundamental_div_mod_converse(k, cols, row as int, col as int);
                assert(all[k] == MapTile { tile: map.tile_at(col as int, row as int), col, row });
                assert(all.take(k + 1) =~= all.take(k).push(all[k]));
                all.take(k).lemma_filter_push(all[k], pred);
            }
            if let Some(t) = map.get(col, row) {
                if t.tile != SPACE && !holds_coord(existing, (col, row)) {
                    r.push(t);
                }
            }
            col = col + 1;
        }
        proof {
            assert(row * map.cols + map.cols == (row + 1) * map.cols) by (nonlinear_arith);
        }
        row = row + 1;
    }
    proof {
        assert(row * map.cols == map.cols * map.rows) by (nonlinear_arith)
            requires
                row == map.rows,
        ;
        assert(all.take(all.len() as int) =~= all);
    }
    r
}

/// The character `T`, a tree.
pub const TREE_TILE: u8 = 84;

/// The character `P`, a magician.
pub const MAGICIAN_TILE: u8 = 80;

/// The sprite and tint that tile `c` shows: `T` a green tree, `P` a black
/// magician, anything else sprite 0 in white.
pub fn tile_sprite(c: u8) -> (r: (u32, TileColor))
    ensures
        r == if c == TREE_TILE {
            (TREE1 as u32, TileColor::Green)
        } else if c == MAGICIAN_TILE {
            (MAGICIAN1 as u32, TileColor::Black)
        } else {
            (0u32, TileColor::White)
        },
{
    if c == TREE_TILE {
        (TREE1 as u32, TileColor::Green)
    } else if c == MAGICIAN_TILE {
        (MAGICIAN1 as u32, TileColor::Black)
    } else {
        (0, TileColor::White)
    }
}

} // verus!
