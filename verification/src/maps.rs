//! Tiles, their world placement, and per-frame viewport culling with
//! deduplicated tile requests.

use vstd::prelude::*;
use vstd::arithmetic::power2::pow2;

use crate::{HALF_MAP_MILLI, MAP_SIZE_MILLI};
use crate::resources::{
    index_spec, lemma_index_monotone, lemma_request_contains_new,
    lemma_request_preserves, request_spec, tile_path_spec, LoadedTiles, Lod,
    MapType,
};

verus! {

/// One tile's identity: layer, level and grid cell. Identity is
/// structural: two tiles with equal components are the same tile.
#[derive(Debug, Clone, Copy, PartialEq, Eq, Structural)]
pub struct Tile {
    pub map_type: MapType,
    pub lod: Lod,
    pub x_idx: u32,
    pub y_idx: u32,
}

impl Tile {
    /// Whether the tile's cell lies in both closed index ranges.
    pub open spec fn in_ranges_spec(self, x_lo: u32, x_hi: u32, y_lo: u32, y_hi: u32) -> bool {
        x_lo <= self.x_idx <= x_hi && y_lo <= self.y_idx <= y_hi
    }

    /// Whether the tile's cell lies in both closed index ranges.
    pub fn is_in_ranges(&self, x_lo: u32, x_hi: u32, y_lo: u32, y_hi: u32) -> (r: bool)
        ensures
            r == self.in_ranges_spec(x_lo, x_hi, y_lo, y_hi),
    {
        x_lo <= self.x_idx && self.x_idx <= x_hi && y_lo <= self.y_idx && self.y_idx <= y_hi
    }
}

/// The culling rule: a tile is shown when it belongs to the current
/// layer and is either the full-map backdrop (level zero), coarser than
/// the current level, or inside the visible index rectangle. Tiles
/// coarser than the current level are deliberately never range-checked.
pub open spec fn tile_visible_spec(
    t: Tile,
    map_type: MapType,
    lod: Lod,
    x_lo: u32,
    x_hi: u32,
    y_lo: u32,
    y_hi: u32,
) -> bool {
    t.map_type == map_type && (t.lod.0 == 0 || t.lod.0 < lod.0 || t.in_ranges_spec(
        x_lo,
        x_hi,
        y_lo,
        y_hi,
    ))
}

/// Decides one tile's visibility for the current frame.
pub fn tile_visible(
    t: &Tile,
    map_type: MapType,
    lod: Lod,
    x_lo: u32,
    x_hi: u32,
    y_lo: u32,
    y_hi: u32,
) -> (r: bool)
    ensures
        r == tile_visible_spec(*t, map_type, lod, x_lo, x_hi, y_lo, y_hi),
{
    t.map_type == map_type && (t.lod.0 == 0 || t.lod.0 < lod.0 || t.is_in_ranges(
        x_lo,
        x_hi,
        y_lo,
        y_hi,
    ))
}

/// Visibility of every known tile, in order.
pub fn update_visibility(
    tiles: &Vec<Tile>,
    map_type: MapType,
    lod: Lod,
    x_lo: u32,
    x_hi: u32,
    y_lo: u32,
    y_hi: u32,
) -> (r: Vec<bool>)
    ensures
        r@.len() == tiles@.len(),
        forall|i: int| 0 <= i < tiles@.len()
            ==> r@[i] == tile_visible_spec(tiles@[i], map_type, lod, x_lo, x_hi, y_lo, y_hi),
{
    let mut r: Vec<bool> = Vec::new();
    let mut i: usize = 0;
    while i < tiles.len()
        invariant
            i <= tiles@.len(),
            r@.len() == i,
            forall|j: int| 0 <= j < i
                ==> r@[j] == tile_visible_spec(tiles@[j], map_type, lod, x_lo, x_hi, y_lo, y_hi),
        decreases tiles@.len() - i,
    {
        let v = tile_visible(&tiles[i], map_type, lod, x_lo, x_hi, y_lo, y_hi);
        r.push(v);
        i = i + 1;
    }
    r
}

/// The horizontal world center of a tile's cell, in milli world units.
pub open spec fn tile_center_x_spec(lod: Lod, x: int) -> int {
    let ts = MAP_SIZE_MILLI as int / pow2(lod.0 as nat) as int;
    ts * x - HALF_MAP_MILLI as int + ts / 2
}

/// The vertical world center of a tile's cell, in milli world units;
/// the vertical axis is inverted so that cell rows grow downward.
pub open spec fn tile_center_y_spec(lod: Lod, y: int) -> int {
    let ts = MAP_SIZE_MILLI as int / pow2(lod.0 as nat) as int;
    HALF_MAP_MILLI as int - ts * y - ts / 2
}

/// Everything the renderer needs to spawn one tile sprite: its asset
/// path, the world center of its cell, its side, and its draw layer
/// (finer levels draw above coarser ones).
#[derive(Debug)]
pub struct TilePlacement {
    pub path: String,
    pub x_idx: u32,
    pub y_idx: u32,
    pub center_x_milli: i64,
    pub center_y_milli: i64,
    pub size_milli: i64,
    pub z_layer: u32,
}

impl TilePlacement {
    /// The placement that belongs to one tile.
    pub open spec fn is_for(self, map_type: MapType, lod: Lod, x: int, y: int) -> bool {
        &&& self.path@ == tile_path_spec(map_type, lod, x, y)
        &&& self.x_idx == x
        &&& self.y_idx == y
        &&& self.center_x_milli == tile_center_x_spec(lod, x)
        &&& self.center_y_milli == tile_center_y_spec(lod, y)
        &&& self.size_milli == MAP_SIZE_MILLI as int / pow2(lod.0 as nat) as int
        &&& self.z_layer == lod.0 * 10
    }
}

/// Requests one tile: when its path is new, the path is recorded and a
/// placement for the renderer is returned; when the tile was requested
/// before, the cache is left alone and nothing is returned.
pub fn load_tile(
    loaded: &mut LoadedTiles,
    map_type: MapType,
    lod: Lod,
    x_idx: u32,
    y_idx: u32,
) -> (r: Option<TilePlacement>)
    requires
        old(loaded).wf(),
        lod.wf(),
    ensures
        final(loaded).wf(),
        final(loaded).paths() == request_spec(
            old(loaded).paths(),
            tile_path_spec(map_type, lod, x_idx as int, y_idx as int),
        ),
        r is Some <==> !old(loaded).paths().contains(
            tile_path_spec(map_type, lod, x_idx as int, y_idx as int),
        ),
        r matches Some(p) ==> p.is_for(map_type, lod, x_idx as int, y_idx as int),
{
    let path = map_type.tile_path(lod, x_idx, y_idx);
    let sprite_path = path.clone();
    if loaded.request(path) {
        let ts = lod.tile_size_milli();
        proof {
            assert(ts * x_idx as int <= 12_000_000 * (u32::MAX as int)) by (nonlinear_arith)
                requires
                    0 <= ts <= 12_000_000,
                    0 <= x_idx as int <= u32::MAX as int,
            ;
            assert(ts * y_idx as int <= 12_000_000 * (u32::MAX as int)) by (nonlinear_arith)
                requires
                    0 <= ts <= 12_000_000,
                    0 <= y_idx as int <= u32::MAX as int,
            ;
            assert(ts * x_idx as int >= 0) by (nonlinear_arith)
                requires
                    ts >= 0,
                    x_idx as int >= 0,
            ;
            assert(ts * y_idx as int >= 0) by (nonlinear_arith)
                requires
                    ts >= 0,
                    y_idx as int >= 0,
            ;
        }
        let center_x = ts * (x_idx as i64) - HALF_MAP_MILLI + ts / 2;
        let center_y = HALF_MAP_MILLI - ts * (y_idx as i64) - ts / 2;
        Some(
            TilePlacement {
                path: sprite_path,
                x_idx,
                y_idx,
                center_x_milli: center_x,
                center_y_milli: center_y,
                size_milli: ts,
                z_layer: lod.0 * 10,
            },
        )
    } else {
        None
    }
}

/// The visible index rectangle for the current frame: the camera's
/// world position offset by the projection extents, indexed on each
/// axis. The vertical world axis is inverted before indexing, matching
/// tile placement. Returns `(x_lo, x_hi, y_lo, y_hi)`, both ranges
/// closed and never empty.
pub fn visible_ranges(
    lod: Lod,
    cam_x_milli: i64,
    cam_y_milli: i64,
    view_min_x_milli: i64,
    view_max_x_milli: i64,
    view_min_y_milli: i64,
    view_max_y_milli: i64,
) -> (r: (u32, u32, u32, u32))
    requires
        lod.wf(),
        view_min_x_milli <= view_max_x_milli,
        view_min_y_milli <= view_max_y_milli,
        (i64::MIN as int) < cam_y_milli as int,
        i64::MIN as int <= cam_x_milli as int + view_min_x_milli as int,
        cam_x_milli as int + view_max_x_milli as int + HALF_MAP_MILLI as int
            <= i64::MAX as int,
        i64::MIN as int <= -(cam_y_milli as int) + view_min_y_milli as int,
        -(cam_y_milli as int) + view_max_y_milli as int + HALF_MAP_MILLI as int
            <= i64::MAX as int,
    ensures
        r.0 as int == index_spec(lod, cam_x_milli as int + view_min_x_milli as int),
        r.1 as int == index_spec(lod, cam_x_milli as int + view_max_x_milli as int),
        r.2 as int == index_spec(lod, -(cam_y_milli as int) + view_min_y_milli as int),
        r.3 as int == index_spec(lod, -(cam_y_milli as int) + view_max_y_milli as int),
        r.0 <= r.1,
        r.2 <= r.3,
        (r.1 as nat) < pow2(lod.0 as nat),
        (r.3 as nat) < pow2(lod.0 as nat),
{
    let xs_lo = lod.index(cam_x_milli + view_min_x_milli);
    let xs_hi = lod.index(cam_x_milli + view_max_x_milli);
    let ys_lo = lod.index(-cam_y_milli + view_min_y_milli);
    let ys_hi = lod.index(-cam_y_milli + view_max_y_milli);
    proof {
        lemma_index_monotone(
            lod,
            cam_x_milli as int + view_min_x_milli as int,
            cam_x_milli as int + view_max_x_milli as int,
        );
        lemma_index_monotone(
            lod,
            -(cam_y_milli as int) + view_min_y_milli as int,
            -(cam_y_milli as int) + view_max_y_milli as int,
        );
    }
    (xs_lo, xs_hi, ys_lo, ys_hi)
}

/// A placement accounts for one never-before-requested tile of the
/// visible rectangle.
pub open spec fn placement_witnessed(
    t: TilePlacement,
    base: Seq<Seq<char>>,
    map_type: MapType,
    lod: Lod,
    x_lo: u32,
    x_hi: u32,
    y_lo: u32,
    y_hi: u32,
) -> bool {
    exists|x: int, y: int|
        x_lo <= x <= x_hi && y_lo <= y <= y_hi && #[trigger] t.is_for(map_type, lod, x, y)
            && !base.contains(tile_path_spec(map_type, lod, x, y))
}

/// Whatever the left part of a concatenation holds, the whole holds.
proof fn lemma_concat_left_contains(a: Seq<Seq<char>>, b: Seq<Seq<char>>, q: Seq<char>)
    requires
        a.contains(q),
    ensures
        (a + b).contains(q),
{
    let i = choose|i: int| 0 <= i < a.len() && a[i] == q;
    assert((a + b)[i] == q);
}

/// Requests every tile of the current layer and level whose cell lies
/// in the visible index rectangle. Afterwards each such tile's path is
/// recorded; the cache grows by exactly the paths of the returned
/// placements, which are the visible tiles that had never been
/// requested, each requested once.
pub fn request_visible_tiles(
    loaded: &mut LoadedTiles,
    map_type: MapType,
    lod: Lod,
    x_lo: u32,
    x_hi: u32,
    y_lo: u32,
    y_hi: u32,
) -> (new_tiles: Vec<TilePlacement>)
    requires
        old(loaded).wf(),
        lod.wf(),
        x_hi < u32::MAX,
        y_hi < u32::MAX,
    ensures
        final(loaded).wf(),
        forall|x: int, y: int|
            x_lo <= x <= x_hi && y_lo <= y <= y_hi ==> final(loaded).paths().contains(
                #[trigger] tile_path_spec(map_type, lod, x, y),
            ),
        final(loaded).paths() == old(loaded).paths() + new_tiles@.map_values(
            |t: TilePlacement| t.path@,
        ),
        forall|i: int|
            0 <= i < new_tiles@.len() ==> placement_witnessed(
                #[trigger] new_tiles@[i],
                old(loaded).paths(),
                map_type,
                lod,
                x_lo,
                x_hi,
                y_lo,
                y_hi,
            ),
{
    let ghost f = |t: TilePlacement| t.path@;
    let mut new_tiles: Vec<TilePlacement> = Vec::new();
    proof {
        assert(loaded.paths() =~= old(loaded).paths() + new_tiles@.map_values(f));
    }
    let mut x = x_lo;
    while x <= x_hi
        invariant
            loaded.wf(),
            lod.wf(),
            x_hi < u32::MAX,
            y_hi < u32::MAX,
            x_lo <= x,
            x <= x_hi + 1 || x == x_lo,
            loaded.paths() == old(loaded).paths() + new_tiles@.map_values(f),
            f == (|t: TilePlacement| t.path@),
            forall|xi: int, yi: int|
                x_lo <= xi < x && y_lo <= yi <= y_hi ==> loaded.paths().contains(
                    #[trigger] tile_path_spec(map_type, lod, xi, yi),
                ),
            forall|i: int|
                0 <= i < new_tiles@.len() ==> placement_witnessed(
                    #[trigger] new_tiles@[i],
                    old(loaded).paths(),
                    map_type,
                    lod,
                    x_lo,
                    x_hi,
                    y_lo,
                    y_hi,
                ),
        decreases x_hi + 1 - x,
    {
        let mut y = y_lo;
        while y <= y_hi
            invariant
                loaded.wf(),
                lod.wf(),
                x_hi < u32::MAX,
                y_hi < u32::MAX,
                x_lo <= x <= x_hi,
                y_lo <= y,
                y <= y_hi + 1 || y == y_lo,
                loaded.paths() == old(loaded).paths() + new_tiles@.map_values(f),
                f == (|t: TilePlacement| t.path@),
                forall|xi: int, yi: int|
                    x_lo <= xi < x && y_lo <= yi <= y_hi ==> loaded.paths().contains(
                        #[trigger] tile_path_spec(map_type, lod, xi, yi),
                    ),
                forall|yi: int|
                    y_lo <= yi < y ==> loaded.paths().contains(
                        #[trigger] tile_path_spec(map_type, lod, x as int, yi),
                    ),
                forall|i: int|
                    0 <= i < new_tiles@.len() ==> placement_witnessed(
                        #[trigger] new_tiles@[i],
                        old(loaded).paths(),
                        map_type,
                        lod,
                        x_lo,
                        x_hi,
                        y_lo,
                        y_hi,
                    ),
            decreases y_hi + 1 - y,
        {
            let ghost prev = loaded.paths();
            let ghost prev_acc = new_tiles@;
            let ghost p = tile_path_spec(map_type, lod, x as int, y as int);
            let placed = load_tile(loaded, map_type, lod, x, y);
            proof {
                lemma_request_contains_new(prev, p);
                assert forall|q: Seq<char>| prev.contains(q) implies loaded.paths().contains(
                    q,
                ) by {
                    lemma_request_preserves(prev, p, q);
                }
            }
            match placed {
                Some(t) => {
                    proof {
                        assert(!prev.contains(p));
                        assert(!old(loaded).paths().contains(p)) by {
                            if old(loaded).paths().contains(p) {
                                lemma_concat_left_contains(
                                    old(loaded).paths(),
                                    prev_acc.map_values(f),
                                    p,
                                );
                            }
                        }
                        assert(loaded.paths() =~= prev.push(p));
                        assert((prev_acc.push(t)).map_values(f) =~= prev_acc.map_values(f).push(
                            t.path@,
                        ));
                        assert(loaded.paths() =~= old(loaded).paths() + (prev_acc.push(
                            t,
                        )).map_values(f));
                    }
                    new_tiles.push(t);
                    proof {
                        assert forall|i: int| 0 <= i < new_tiles@.len() implies placement_witnessed(
                            #[trigger] new_tiles@[i],
                            old(loaded).paths(),
                            map_type,
                            lod,
                            x_lo,
                            x_hi,
                            y_lo,
                            y_hi,
                        ) by {
                            if i < new_tiles@.len() - 1 {
                                assert(new_tiles@[i] == prev_acc[i]);
                            } else {
                                assert(new_tiles@[i] == t);
                                assert(t.is_for(map_type, lod, x as int, y as int));
                            }
                        }
                    }
                },
                None => {},
            }
            y = y + 1;
        }
        x = x + 1;
    }
    new_tiles
}

} // verus!
