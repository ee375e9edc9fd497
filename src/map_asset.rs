//! A character map: a grid of byte tiles, stored row by row.
use vstd::prelude::*;

verus! {

/// A grid of `cols` by `rows` tiles; the tile at `(col, row)` is
/// `tiles[col + cols * row]`.
#[derive(Debug, Default)]
pub struct MapAsset {
    pub tiles: Vec<u8>,
    pub cols: u32,
    pub rows: u32,
}

/// One tile of a map together with its place.
#[derive(Clone, Copy, Debug, PartialEq, Eq, Structural)]
pub struct MapTile {
    pub tile: u8,
    pub col: u32,
    pub row: u32,
}

impl MapAsset {
    /// The grid holds exactly one tile per place.
    pub open spec fn wf(&self) -> bool {
        self.tiles@.len() == self.cols as int * self.rows as int
    }

    /// Whether `(col, row)` lies inside the grid.
    pub open spec fn in_grid(&self, col: int, row: int) -> bool {
        0 <= col < self.cols && 0 <= row < self.rows
    }

    /// The tile stored for `(col, row)`.
    pub open spec fn tile_at(&self, col: int, row: int) -> u8 {
        self.tiles@[col + self.cols * row]
    }

    /// What `get` returns for `(col, row)`.
    pub open spec fn get_spec(&self, col: u32, row: u32) -> Option<MapTile> {
        if self.in_grid(col as int, row as int) {
            Some(MapTile { tile: self.tile_at(col as int, row as int), col, row })
        } else {
            None
        }
    }

    /// Whether `t` is a tile of this map, at its place.
    pub open spec fn contains_spec(&self, t: MapTile) -> bool {
        self.in_grid(t.col as int, t.row as int) && self.tile_at(t.col as int, t.row as int) == t.tile
    }

    /// The position in `tiles` of an in-grid place.
    fn index_of(&self, col: u32, row: u32) -> (r: usize)
        requires
            self.wf(),
            self.in_grid(col as int, row as int),
        ensures
            r as int == col + self.cols * row,
            r < self.tiles@.len(),
    {
        let len = self.tiles.len();
        proof {
            assert(0 <= self.cols * row && col + self.cols * row < self.cols * self.rows)
                by (nonlinear_arith)
                requires
                    col < self.cols,
                    row < self.rows,
            ;
        }
        col as usize + self.cols as usize * row as usize
    }

    /// The tile at `(col, row)`, or `None` outside the grid.
    pub fn get(&self, col: u32, row: u32) -> (r: Option<MapTile>)
        requires
            self.wf(),
        ensures
            r == self.get_spec(col, row),
    {
        if col < self.cols && row < self.rows {
            let tile = self.tiles[self.index_of(col, row)];
            Some(MapTile { tile, col, row })
        } else {
            None
        }
    }

    /// Whether the map holds tile `t.tile` at `(t.col, t.row)`.
    pub fn contains(&self, t: MapTile) -> (r: bool)
        requires
            self.wf(),
        ensures
            r == self.contains_spec(t),
    {
        t.col < self.cols && t.row < self.rows && self.tiles[self.index_of(t.col, t.row)] == t.tile
    }
}

/// The byte that ends a line of a map file.
pub const NEWLINE: u8 = 10;

/// The byte of an empty tile.
pub const SPACE: u8 = 32;

/// The lines of `b`, split at each newline; a file without newlines is one
/// line, and a file that ends in a newline ends in an empty line.
pub open spec fn split_lines(b: Seq<u8>) -> Seq<Seq<u8>>
    decreases b.len(),
{
    if b.len() == 0 {
        seq![Seq::empty()]
    } else {
        let ls = split_lines(b.drop_last());
        if b.last() == NEWLINE {
            ls.push(Seq::empty())
        } else {
            ls.update(ls.len() - 1, ls.last().push(b.last()))
        }
    }
}

/// The length of the longest line in `ls` (0 for no lines).
pub open spec fn max_len(ls: Seq<Seq<u8>>) -> nat
    decreases ls.len(),
{
    if ls.len() == 0 {
        0
    } else {
        let m = max_len(ls.drop_last());
        if ls.last().len() > m {
            ls.last().len()
        } else {
            m
        }
    }
}

/// `n` empty tiles.
pub open spec fn spaces(n: nat) -> Seq<u8> {
    Seq::new(n, |_i: int| SPACE)
}

/// Line `l` filled up with empty tiles to width `w`.
pub open spec fn pad(l: Seq<u8>, w: nat) -> Seq<u8> {
    l + spaces((w - l.len()) as nat)
}

/// The lines `ls`, each filled up to width `w`, one after the other.
pub open spec fn grid(ls: Seq<Seq<u8>>, w: nat) -> Seq<u8>
    decreases ls.len(),
{
    if ls.len() == 0 {
        Seq::empty()
    } else {
        grid(ls.drop_last(), w) + pad(ls.last(), w)
    }
}

/// Whether the map read from a file with lines `ls` fits the grid's
/// integer types.
pub open spec fn fits(ls: Seq<Seq<u8>>) -> bool {
    &&& ls.len() <= u32::MAX
    &&& max_len(ls) <= u32::MAX
    &&& ls.len() * max_len(ls) <= usize::MAX
}

proof fn lemma_split_lines_nonempty(b: Seq<u8>)
    ensures
        split_lines(b).len() >= 1,
    decreases b.len(),
{
    if b.len() > 0 {
        lemma_split_lines_nonempty(b.drop_last());
    }
}

/// One more byte never makes the longest line shorter.
proof fn lemma_max_len_step(b: Seq<u8>, i: int)
    requires
        0 <= i < b.len(),
    ensures
        max_len(split_lines(b.take(i))) <= max_len(split_lines(b.take(i + 1))),
{
    let ls = split_lines(b.take(i));
    lemma_split_lines_nonempty(b.take(i));
    assert(b.take(i + 1).drop_last() =~= b.take(i));
    let ls2 = split_lines(b.take(i + 1));
    if b[i] != NEWLINE {
        assert(ls2.drop_last() =~= ls.drop_last());
    } else {
        assert(ls2.drop_last() =~= ls);
    }
}

/// The longest line of a prefix is no longer than that of the whole file.
proof fn lemma_max_len_prefix(b: Seq<u8>, i: int, j: int)
    requires
        0 <= i <= j <= b.len(),
    ensures
        max_len(split_lines(b.take(i))) <= max_len(split_lines(b.take(j))),
    decreases j - i,
{
    if i < j {
        lemma_max_len_step(b, j - 1);
        lemma_max_len_prefix(b, i, j - 1);
    }
}

/// Every line is at most as long as the longest one.
proof fn lemma_max_len_bounds(ls: Seq<Seq<u8>>, k: int)
    requires
        0 <= k < ls.len(),
    ensures
        ls[k].len() <= max_len(ls),
    decreases ls.len(),
{
    if k < ls.len() - 1 {
        lemma_max_len_bounds(ls.drop_last(), k);
    }
}

/// A grid of lines no longer than `w` holds `w` tiles per line, and the
/// tile `c` of line `r` stands at `c + w * r`.
proof fn lemma_grid_index(ls: Seq<Seq<u8>>, w: nat, r: int, c: int)
    requires
        forall|k: int| 0 <= k < ls.len() ==> #[trigger] ls[k].len() <= w,
        0 <= r < ls.len(),
        0 <= c < w,
    ensures
        grid(ls, w).len() == ls.len() * w,
        c + w * r < ls.len() * w,
        grid(ls, w)[c + w * r] == pad(ls[r], w)[c],
    decreases ls.len(),
{
    lemma_grid_len(ls, w);
    let n = ls.len();
    assert(c + w * r < n * w) by (nonlinear_arith)
        requires
            r < n,
            c < w,
    ;
    if r < n - 1 {
        lemma_grid_index(ls.drop_last(), w, r, c);
        assert(ls.drop_last()[r] == ls[r]);
    } else {
        lemma_grid_len(ls.drop_last(), w);
        assert(w * r == (n - 1) * w) by (nonlinear_arith)
            requires
                r == n - 1,
        ;
    }
}

proof fn lemma_grid_len(ls: Seq<Seq<u8>>, w: nat)
    requires
        forall|k: int| 0 <= k < ls.len() ==> #[trigger] ls[k].len() <= w,
    ensures
        grid(ls, w).len() == ls.len() * w,
    decreases ls.len(),
{
    if ls.len() > 0 {
        let d = ls.drop_last();
        assert forall|k: int| 0 <= k < d.len() implies #[trigger] d[k].len() <= w by {
            assert(d[k] == ls[k]);
        }
        lemma_grid_len(d, w);
        assert(ls.len() * w == d.len() * w + w) by (nonlinear_arith)
            requires
                d.len() == ls.len() - 1,
        ;
    }
}

/// Appends `n` empty tiles to `v`.
fn push_spaces(v: &mut Vec<u8>, n: usize)
    ensures
        final(v)@ == old(v)@ + spaces(n as nat),
{
    let mut k: usize = 0;
    while k < n
        invariant
            k <= n,
            v@ == old(v)@ + spaces(k as nat),
        decreases n - k,
    {
        v.push(SPACE);
        k = k + 1;
        assert(v@ =~= old(v)@ + spaces(k as nat));
    }
}

/// Reads map files: one line of the file is one row of tiles.
#[derive(Debug, Default)]
pub struct MapAssetLoader;

impl MapAssetLoader {
    /// Reads a map from a file's bytes. The rows are the file's lines, the
    /// width is that of the longest line, and shorter lines are filled up
    /// with empty tiles. `None` when the grid does not fit its integer types.
    pub fn load(&self, bytes: &[u8]) -> (r: Option<MapAsset>)
        ensures
            r.is_some() == fits(split_lines(bytes@)),
            r matches Some(m) ==> {
                let ls = split_lines(bytes@);
                &&& m.wf()
                &&& m.rows == ls.len()
                &&& m.cols == max_len(ls)
                &&& m.tiles@ == grid(ls, max_len(ls))
            },
    {
        let ghost b = bytes@;
        let n = bytes.len();
        let mut newlines: usize = 0;
        let mut cur: usize = 0;
        let mut widest: usize = 0;
        let mut i: usize = 0;
        assert(b.take(0) =~= Seq::<u8>::empty());
        while i < n
            invariant
                n == b.len(),
                b == bytes@,
                i <= n,
                newlines <= i,
                cur <= i,
                widest <= i,
                split_lines(b.take(i as int)).len() == newlines + 1,
                split_lines(b.take(i as int)).last().len() == cur,
                max_len(split_lines(b.take(i as int)).drop_last()) == widest,
            decreases n - i,
        {
            let ghost ls = split_lines(b.take(i as int));
            proof {
                lemma_split_lines_nonempty(b.take(i as int));
                assert(b.take(i + 1).drop_last() =~= b.take(i as int));
            }
            let ghost ls2 = split_lines(b.take(i + 1));
            if bytes[i] == NEWLINE {
                assert(ls2.drop_last() =~= ls);
                if cur > widest {
                    widest = cur;
                }
                newlines = newlines + 1;
                cur = 0;
            } else {
                assert(ls2.drop_last() =~= ls.drop_last());
                cur = cur + 1;
            }
            i = i + 1;
        }
        proof {
            assert(b.take(n as int) =~= b);
            lemma_split_lines_nonempty(b);
        }
        let cols: usize = if cur > widest {
            cur
        } else {
            widest
        };
        if newlines >= u32::MAX as usize || cols > u32::MAX as usize {
            return None;
        }
        let rows: usize = newlines + 1;
        assert(rows * cols <= u32::MAX * u32::MAX) by (nonlinear_arith)
            requires
                rows <= u32::MAX,
                cols <= u32::MAX,
        ;
        let area: u64 = rows as u64 * cols as u64;
        if area > usize::MAX as u64 {
            return None;
        }
        let area = area as usize;
        let ghost ls_all = split_lines(b);
        let mut tiles: Vec<u8> = Vec::with_capacity(area);
        let mut acc: usize = 0;
        i = 0;
        while i < n
            invariant
                n == b.len(),
                b == bytes@,
                i <= n,
                acc <= i,
                cols == max_len(ls_all),
                ls_all == split_lines(b),
                split_lines(b.take(i as int)).last().len() == acc,
                tiles@ == grid(split_lines(b.take(i as int)).drop_last(), cols as nat) + split_lines(
                    b.take(i as int),
                ).last(),
            decreases n - i,
        {
            let ghost ls = split_lines(b.take(i as int));
            proof {
                lemma_split_lines_nonempty(b.take(i as int));
                assert(b.take(i + 1).drop_last() =~= b.take(i as int));
                lemma_max_len_prefix(b, i as int, n as int);
                assert(b.take(n as int) =~= b);
                lemma_max_len_bounds(ls, ls.len() - 1);
            }
            let ghost ls2 = split_lines(b.take(i + 1));
            if bytes[i] == NEWLINE {
                push_spaces(&mut tiles, cols - acc);
                acc = 0;
                assert(ls2.drop_last() =~= ls);
                assert(ls2.last() =~= Seq::<u8>::empty());
                assert(tiles@ =~= grid(ls2.drop_last(), cols as nat) + ls2.last());
            } else {
                tiles.push(bytes[i]);
                acc = acc + 1;
                assert(ls2.drop_last() =~= ls.drop_last());
                assert(tiles@ =~= grid(ls2.drop_last(), cols as nat) + ls2.last());
            }
            i = i + 1;
        }
        proof {
            assert(b.take(n as int) =~= b);
            lemma_max_len_bounds(ls_all, ls_all.len() - 1);
        }
        push_spaces(&mut tiles, cols - acc);
        proof {
            assert(tiles@ =~= grid(ls_all, cols as nat));
            assert forall|k: int| 0 <= k < ls_all.len() implies #[trigger] ls_all[k].len()
                <= cols by {
                lemma_max_len_bounds(ls_all, k);
            }
            lemma_grid_len(ls_all, cols as nat);
            assert(ls_all.len() * cols == cols * ls_all.len()) by (nonlinear_arith);
            assert(cols == max_len(ls_all));
            assert(rows == ls_all.len());
        }
        Some(MapAsset { tiles, cols: cols as u32, rows: rows as u32 })
    }
}

/// The tile that a loaded map holds at `(col, row)` is byte `col` of line
/// `row` of the file, or an empty tile past the end of that line.
pub proof fn lemma_loaded_tile(bytes: Seq<u8>, m: MapAsset, col: int, row: int)
    requires
        m.rows == split_lines(bytes).len(),
        m.cols == max_len(split_lines(bytes)),
        m.tiles@ == grid(split_lines(bytes), max_len(split_lines(bytes))),
        m.in_grid(col, row),
    ensures
        m.tile_at(col, row) == if col < split_lines(bytes)[row].len() {
            split_lines(bytes)[row][col]
        } else {
            SPACE
        },
{
    let ls = split_lines(bytes);
    assert forall|k: int| 0 <= k < ls.len() implies #[trigger] ls[k].len() <= max_len(ls) by {
        lemma_max_len_bounds(ls, k);
    }
    lemma_grid_index(ls, max_len(ls), row, col);
}

/// A tile belongs to a map exactly when looking up its place gives it back.
pub proof fn lemma_contains_iff_get(map: &MapAsset, t: MapTile)
    requires
        map.wf(),
    ensures
        map.contains_spec(t) <==> map.get_spec(t.col, t.row) == Some(t),
{
}

} // verus!
