//! Level-of-detail ladder and the map-type enumeration.

use vstd::prelude::*;
use vstd::arithmetic::power2::pow2;

use crate::{HALF_MAP_MILLI, MAP_SIZE_MILLI};

verus! {

/// Coarsest detail level: a single tile covers the whole map.
pub const LOD_MIN_VALUE: u32 = 0;

/// Finest detail level.
pub const LOD_MAX_VALUE: u32 = 6;

/// A discrete detail level; higher means finer (more, smaller tiles).
#[derive(Debug, Clone, Copy, PartialEq, Eq, Structural)]
pub struct Lod(pub u32);

/// Clamps a zoom step count to the ladder and turns it into a level:
/// more zoom steps out means a coarser level.
pub open spec fn lod_from_zoom_steps_spec(steps: int) -> int {
    let clamped = if steps < LOD_MIN_VALUE as int {
        LOD_MIN_VALUE as int
    } else if steps > LOD_MAX_VALUE as int {
        LOD_MAX_VALUE as int
    } else {
        steps
    };
    LOD_MAX_VALUE as int - clamped
}

impl Lod {
    /// A level is valid when it lies on the ladder.
    pub open spec fn wf(self) -> bool {
        self.0 <= LOD_MAX_VALUE
    }

    /// The coarsest level.
    pub fn min() -> (r: Lod)
        ensures
            r.0 == LOD_MIN_VALUE,
            r.wf(),
    {
        Lod(LOD_MIN_VALUE)
    }

    /// Derives the level from a zoom step count. The caller computes
    /// `steps` as the rounding of the natural logarithm of the camera
    /// scale times the magnification constant; this function does the
    /// discrete part: clamp to the ladder and invert.
    pub fn from_zoom_steps(steps: i32) -> (r: Lod)
        ensures
            r.0 as int == lod_from_zoom_steps_spec(steps as int),
            r.wf(),
    {
        let clamped: i32 = if steps < LOD_MIN_VALUE as i32 {
            LOD_MIN_VALUE as i32
        } else if steps > LOD_MAX_VALUE as i32 {
            LOD_MAX_VALUE as i32
        } else {
            steps
        };
        Lod(LOD_MAX_VALUE - clamped as u32)
    }

    /// Number of tiles along one axis at this level; the total tile
    /// count is its square.
    pub fn tiles_nb(self) -> (r: u32)
        requires
            self.wf(),
        ensures
            r as nat == pow2(self.0 as nat),
            1 <= r <= 64,
    {
        let mut r: u32 = 1;
        let mut i: u32 = 0;
        proof {
            vstd::arithmetic::power2::lemma2_to64();
        }
        while i < self.0
            invariant
                i <= self.0 <= LOD_MAX_VALUE,
                r as nat == pow2(i as nat),
            decreases self.0 - i,
        {
            proof {
                vstd::arithmetic::power2::lemma2_to64();
                vstd::arithmetic::power2::lemma_pow2_strictly_increases(
                    i as nat,
                    LOD_MAX_VALUE as nat,
                );
                vstd::arithmetic::power2::lemma_pow2_unfold((i + 1) as nat);
            }
            r = r * 2;
            i = i + 1;
        }
        proof {
            vstd::arithmetic::power2::lemma2_to64();
            if self.0 < LOD_MAX_VALUE {
                vstd::arithmetic::power2::lemma_pow2_strictly_increases(
                    self.0 as nat,
                    LOD_MAX_VALUE as nat,
                );
            }
        }
        r
    }
}

/// The tile index that a world position falls into at a level, before
/// clamping: the position is shifted so the world starts at zero, then
/// scaled to the grid.
pub open spec fn raw_index_spec(level: Lod, pos_milli: int) -> int {
    (pos_milli + HALF_MAP_MILLI as int) * pow2(level.0 as nat) as int / MAP_SIZE_MILLI as int
}

/// The tile index of a world position at a level, clamped to the grid.
pub open spec fn index_spec(level: Lod, pos_milli: int) -> int {
    let n = pow2(level.0 as nat) as int;
    let raw = raw_index_spec(level, pos_milli);
    if raw < 0 {
        0
    } else if raw > n - 1 {
        n - 1
    } else {
        raw
    }
}

impl Lod {
    /// World-space side of one tile at this level, in milli world
    /// units; exact, because the map side is divisible by every grid
    /// width on the ladder.
    pub fn tile_size_milli(self) -> (r: i64)
        requires
            self.wf(),
        ensures
            r == MAP_SIZE_MILLI as int / pow2(self.0 as nat) as int,
            r * pow2(self.0 as nat) == MAP_SIZE_MILLI as int,
            187_500 <= r <= MAP_SIZE_MILLI,
    {
        let n = self.tiles_nb();
        let r = MAP_SIZE_MILLI / (n as i64);
        proof {
            let nn = pow2(self.0 as nat) as int;
            vstd::arithmetic::power2::lemma2_to64();
            vstd::arithmetic::power2::lemma_pow2_adds(
                self.0 as nat,
                (LOD_MAX_VALUE - self.0) as nat,
            );
            assert(MAP_SIZE_MILLI as int == (187_500 * pow2(
                (LOD_MAX_VALUE - self.0) as nat,
            ) as int) * nn) by (nonlinear_arith)
                requires
                    pow2(LOD_MAX_VALUE as nat) == pow2(self.0 as nat) * pow2(
                        (LOD_MAX_VALUE - self.0) as nat,
                    ),
                    nn == pow2(self.0 as nat) as int,
                    pow2(LOD_MAX_VALUE as nat) == 64,
                    MAP_SIZE_MILLI == 187_500 * 64,
            ;
            vstd::arithmetic::div_mod::lemma_fundamental_div_mod_converse(
                MAP_SIZE_MILLI as int,
                nn,
                187_500 * pow2((LOD_MAX_VALUE - self.0) as nat) as int,
                0,
            );
        }
        r
    }

    /// The tile index that a world position falls into along one axis
    /// at this level, clamped to the grid.
    pub fn index(self, pos_milli: i64) -> (r: u32)
        requires
            self.wf(),
            pos_milli + HALF_MAP_MILLI as int <= i64::MAX as int,
        ensures
            r as int == index_spec(self, pos_milli as int),
            (r as nat) < pow2(self.0 as nat),
    {
        let n = self.tiles_nb();
        let shifted = pos_milli + HALF_MAP_MILLI;
        let ghost num = shifted as int * n as int;
        let ghost raw = raw_index_spec(self, pos_milli as int);
        if shifted < 0 {
            proof {
                assert(num <= 0) by (nonlinear_arith)
                    requires
                        shifted < 0,
                        n > 0,
                        num == shifted as int * n as int,
                ;
                vstd::arithmetic::div_mod::lemma_div_is_ordered(
                    num,
                    0,
                    MAP_SIZE_MILLI as int,
                );
                vstd::arithmetic::div_mod::lemma_div_of0(MAP_SIZE_MILLI as int);
            }
            0
        } else if shifted >= MAP_SIZE_MILLI {
            proof {
                assert(MAP_SIZE_MILLI as int * n as int <= num) by (nonlinear_arith)
                    requires
                        shifted >= MAP_SIZE_MILLI,
                        n > 0,
                        num == shifted as int * n as int,
                ;
                vstd::arithmetic::div_mod::lemma_div_is_ordered(
                    MAP_SIZE_MILLI as int * n as int,
                    num,
                    MAP_SIZE_MILLI as int,
                );
                vstd::arithmetic::div_mod::lemma_div_multiples_vanish(
                    n as int,
                    MAP_SIZE_MILLI as int,
                );
            }
            n - 1
        } else {
            proof {
                assert(0 <= num <= 12_000_000 * 64) by (nonlinear_arith)
                    requires
                        0 <= shifted < MAP_SIZE_MILLI,
                        0 < n <= 64,
                        num == shifted as int * n as int,
                        MAP_SIZE_MILLI == 12_000_000,
                ;
            }
            let q = (shifted * (n as i64)) / MAP_SIZE_MILLI;
            proof {
                vstd::arithmetic::div_mod::lemma_div_pos_is_pos(
                    num,
                    MAP_SIZE_MILLI as int,
                );
                assert(num < MAP_SIZE_MILLI as int * n as int) by (nonlinear_arith)
                    requires
                        0 <= shifted < MAP_SIZE_MILLI,
                        n > 0,
                        num == shifted as int * n as int,
                ;
                vstd::arithmetic::div_mod::lemma_multiply_divide_lt(
                    num,
                    MAP_SIZE_MILLI as int,
                    n as int,
                );
            }
            q as u32
        }
    }
}

/// The tile index grows with the world position: a point further right
/// (or down) never lands in an earlier tile.
pub proof fn lemma_index_monotone(level: Lod, p1: int, p2: int)
    requires
        p1 <= p2,
    ensures
        index_spec(level, p1) <= index_spec(level, p2),
{
    let n = pow2(level.0 as nat) as int;
    let h = HALF_MAP_MILLI as int;
    vstd::arithmetic::power2::lemma_pow2_pos(level.0 as nat);
    assert((p1 + h) * n <= (p2 + h) * n) by (nonlinear_arith)
        requires
            p1 <= p2,
            n > 0,
    ;
    vstd::arithmetic::div_mod::lemma_div_is_ordered(
        (p1 + h) * n,
        (p2 + h) * n,
        MAP_SIZE_MILLI as int,
    );
}

/// Boundary behaviour of the index map: the left world edge always
/// lands in the first tile, and the last representable position before
/// the right world edge lands in the last tile.
pub proof fn lemma_index_boundaries(level: Lod)
    requires
        level.wf(),
    ensures
        index_spec(level, -(HALF_MAP_MILLI as int)) == 0,
        index_spec(level, HALF_MAP_MILLI as int - 1) == pow2(level.0 as nat) - 1,
{
    let n = pow2(level.0 as nat) as int;
    vstd::arithmetic::power2::lemma2_to64();
    if level.0 < LOD_MAX_VALUE {
        vstd::arithmetic::power2::lemma_pow2_strictly_increases(
            level.0 as nat,
            LOD_MAX_VALUE as nat,
        );
    }
    vstd::arithmetic::div_mod::lemma_div_of0(MAP_SIZE_MILLI as int);
    assert((-(HALF_MAP_MILLI as int) + HALF_MAP_MILLI as int) * n == 0)
        by (nonlinear_arith);
    assert(raw_index_spec(level, -(HALF_MAP_MILLI as int)) == 0);
    let m = MAP_SIZE_MILLI as int;
    assert((m - 1) * n == (n - 1) * m + (m - n)) by (nonlinear_arith);
    vstd::arithmetic::div_mod::lemma_fundamental_div_mod_converse(
        (m - 1) * n,
        m,
        n - 1,
        m - n,
    );
    assert(raw_index_spec(level, HALF_MAP_MILLI as int - 1) == n - 1);
}

/// Replaces the current level with the one derived this frame and says
/// whether it differed, so downstream work can be skipped when the
/// level is unchanged.
pub fn update_lod(current: &mut Lod, derived: Lod) -> (changed: bool)
    ensures
        *final(current) == derived,
        changed == (derived != *old(current)),
{
    if derived != *current {
        *current = derived;
        true
    } else {
        false
    }
}

/// One of the three map layers that share the tile machinery.
#[derive(Debug, Clone, Copy, PartialEq, Eq, Structural)]
pub enum MapType {
    Sky,
    Surface,
    Depths,
}

impl MapType {
    /// The layer's name as it appears in asset paths.
    pub open spec fn str_spec(self) -> Seq<char> {
        match self {
            MapType::Sky => "sky"@,
            MapType::Surface => "surface"@,
            MapType::Depths => "depths"@,
        }
    }

    /// The layer's name as it appears in asset paths.
    pub fn as_str(self) -> (r: &'static str)
        ensures
            r@ == self.str_spec(),
    {
        match self {
            MapType::Sky => "sky",
            MapType::Surface => "surface",
            MapType::Depths => "depths",
        }
    }

    /// All layers, in their fixed order.
    pub fn iter() -> (r: Vec<MapType>)
        ensures
            r@ == seq![MapType::Sky, MapType::Surface, MapType::Depths],
    {
        let mut v: Vec<MapType> = Vec::new();
        v.push(MapType::Sky);
        v.push(MapType::Surface);
        v.push(MapType::Depths);
        proof {
            assert(v@ =~= seq![MapType::Sky, MapType::Surface, MapType::Depths]);
        }
        v
    }

    /// The asset-store path of one tile:
    /// `tiles/{map_type}/{level}/{x}_{y}.jpg`.
    pub fn tile_path(self, lod: Lod, x_idx: u32, y_idx: u32) -> (r: String)
        ensures
            r@ == tile_path_spec(self, lod, x_idx as int, y_idx as int),
    {
        let mut s = String::from_str("tiles/");
        s.append(self.as_str());
        s.append("/");
        let lod_text = u32_to_text(lod.0);
        s.append(lod_text.as_str());
        s.append("/");
        let x_text = u32_to_text(x_idx);
        s.append(x_text.as_str());
        s.append("_");
        let y_text = u32_to_text(y_idx);
        s.append(y_text.as_str());
        s.append(".jpg");
        proof {
            assert(s@ =~= tile_path_spec(self, lod, x_idx as int, y_idx as int));
        }
        s
    }
}

impl Default for MapType {
    /// The layer shown at startup.
    fn default() -> (r: Self)
        ensures
            r == MapType::Surface,
    {
        MapType::Surface
    }
}

/// The character for one decimal digit.
pub open spec fn digit_char(d: int) -> char {
    if d == 0 {
        '0'
    } else if d == 1 {
        '1'
    } else if d == 2 {
        '2'
    } else if d == 3 {
        '3'
    } else if d == 4 {
        '4'
    } else if d == 5 {
        '5'
    } else if d == 6 {
        '6'
    } else if d == 7 {
        '7'
    } else if d == 8 {
        '8'
    } else {
        '9'
    }
}

/// The decimal rendering of a non-negative integer, most significant
/// digit first, with no leading zeroes.
pub open spec fn dec_digits(n: int) -> Seq<char>
    recommends
        n >= 0,
    decreases n,
{
    if n < 10 {
        seq![digit_char(n)]
    } else {
        dec_digits(n / 10) + seq![digit_char(n % 10)]
    }
}

/// One decimal digit as a string slice.
fn digit_str(d: u32) -> (r: &'static str)
    requires
        d < 10,
    ensures
        r@ == seq![digit_char(d as int)],
{
    let r: &'static str = match d {
        0 => "0",
        1 => "1",
        2 => "2",
        3 => "3",
        4 => "4",
        5 => "5",
        6 => "6",
        7 => "7",
        8 => "8",
        _ => "9",
    };
    proof {
        reveal_strlit("0");
        reveal_strlit("1");
        reveal_strlit("2");
        reveal_strlit("3");
        reveal_strlit("4");
        reveal_strlit("5");
        reveal_strlit("6");
        reveal_strlit("7");
        reveal_strlit("8");
        reveal_strlit("9");
        assert(r@ =~= seq![digit_char(d as int)]);
    }
    r
}

/// Renders a number in decimal.
pub fn u32_to_text(n: u32) -> (r: String)
    ensures
        r@ == dec_digits(n as int),
    decreases n,
{
    if n < 10 {
        let r = String::from_str(digit_str(n));
        proof {
            assert(r@ =~= dec_digits(n as int));
        }
        r
    } else {
        let mut s = u32_to_text(n / 10);
        s.append(digit_str(n % 10));
        proof {
            assert(s@ =~= dec_digits(n as int));
        }
        s
    }
}

/// The asset-store path of one tile at one level of one layer.
pub open spec fn tile_path_spec(m: MapType, lod: Lod, x: int, y: int) -> Seq<char> {
    "tiles/"@ + m.str_spec() + "/"@ + dec_digits(lod.0 as int) + "/"@ + dec_digits(x)
        + "_"@ + dec_digits(y) + ".jpg"@
}

impl Lod {
    /// The level rendered in decimal, as it appears in tile paths.
    pub fn to_text(self) -> (r: String)
        ensures
            r@ == dec_digits(self.0 as int),
    {
        u32_to_text(self.0)
    }
}

/// Viewer start-up options.
#[derive(Debug)]
pub struct Options {
    pub debug_display: bool,
    /// Canvas selector handed to the windowing layer in browser builds.
    pub canvas: Option<String>,
}

/// Which map layers have had their markers spawned already.
#[derive(Debug)]
pub struct SpawnedMarkers {
    pub sky: bool,
    pub surface: bool,
    pub depths: bool,
}

impl SpawnedMarkers {
    /// The flag of one layer.
    pub open spec fn spawned_spec(self, map_type: MapType) -> bool {
        match map_type {
            MapType::Sky => self.sky,
            MapType::Surface => self.surface,
            MapType::Depths => self.depths,
        }
    }

    /// Whether a layer's markers were already spawned.
    pub fn is_spawned(&self, map_type: MapType) -> (r: bool)
        ensures
            r == self.spawned_spec(map_type),
    {
        match map_type {
            MapType::Sky => self.sky,
            MapType::Surface => self.surface,
            MapType::Depths => self.depths,
        }
    }

    /// Records that a layer's markers are spawned; the other layers
    /// keep their flags.
    pub fn mark_spawned(&mut self, map_type: MapType)
        ensures
            final(self).spawned_spec(map_type),
            forall|m: MapType| m != map_type
                ==> final(self).spawned_spec(m) == old(self).spawned_spec(m),
    {
        match map_type {
            MapType::Sky => self.sky = true,
            MapType::Surface => self.surface = true,
            MapType::Depths => self.depths = true,
        }
    }
}

impl Default for SpawnedMarkers {
    /// No layer starts with its markers spawned.
    fn default() -> (r: Self)
        ensures
            !r.sky && !r.surface && !r.depths,
    {
        SpawnedMarkers { sky: false, surface: false, depths: false }
    }
}

/// The markers currently under the cursor, by display name.
#[derive(Debug)]
pub struct FocusedMarkers {
    names: Vec<String>,
}

impl FocusedMarkers {
    /// The focused names, most recent last.
    pub closed spec fn names_spec(self) -> Seq<Seq<char>> {
        self.names@.map_values(|s: String| s@)
    }

    /// The focused names, in order.
    pub fn markers(&self) -> (r: &Vec<String>)
        ensures
            r@.map_values(|s: String| s@) == self.names_spec(),
    {
        &self.names
    }

    /// Records one more focused marker.
    pub fn push(&mut self, name: String)
        ensures
            final(self).names_spec() == old(self).names_spec().push(name@),
    {
        self.names.push(name);
        proof {
            assert(final(self).names_spec() =~= old(self).names_spec().push(name@));
        }
    }

    /// Forgets all focused markers.
    pub fn clear(&mut self)
        ensures
            final(self).names_spec() == Seq::<Seq<char>>::empty(),
    {
        self.names.clear();
        proof {
            assert(final(self).names_spec() =~= Seq::<Seq<char>>::empty());
        }
    }
}

impl Default for FocusedMarkers {
    /// Nothing is focused at startup.
    fn default() -> (r: Self)
        ensures
            r.names_spec() == Seq::<Seq<char>>::empty(),
    {
        let r = FocusedMarkers { names: Vec::new() };
        proof {
            assert(r.names_spec() =~= Seq::<Seq<char>>::empty());
        }
        r
    }
}

/// The set of tile paths already requested, in request order. A path,
/// once recorded, is never removed, and is never recorded twice.
#[derive(Debug)]
pub struct LoadedTiles {
    tiles: Vec<String>,
}

/// What one request does to the recorded paths: nothing when the path
/// is already there, otherwise it is appended.
pub open spec fn request_spec(paths: Seq<Seq<char>>, p: Seq<char>) -> Seq<Seq<char>> {
    if paths.contains(p) {
        paths
    } else {
        paths.push(p)
    }
}

/// A request never removes a recorded path.
pub proof fn lemma_request_preserves(paths: Seq<Seq<char>>, p: Seq<char>, q: Seq<char>)
    requires
        paths.contains(q),
    ensures
        request_spec(paths, p).contains(q),
{
    if !paths.contains(p) {
        let i = choose|i: int| 0 <= i < paths.len() && paths[i] == q;
        assert(paths.push(p)[i] == q);
    }
}

/// After a request, the requested path is recorded.
pub proof fn lemma_request_contains_new(paths: Seq<Seq<char>>, p: Seq<char>)
    ensures
        request_spec(paths, p).contains(p),
{
    if !paths.contains(p) {
        assert(paths.push(p)[paths.len() as int] == p);
    }
}

/// Requesting a path twice is the same as requesting it once.
pub proof fn lemma_request_idempotent(paths: Seq<Seq<char>>, p: Seq<char>)
    ensures
        request_spec(request_spec(paths, p), p) == request_spec(paths, p),
{
    if !paths.contains(p) {
        assert(paths.push(p)[paths.len() as int] == p);
    }
}

impl LoadedTiles {
    /// The recorded paths, in request order.
    pub closed spec fn paths(self) -> Seq<Seq<char>> {
        self.tiles@.map_values(|s: String| s@)
    }

    /// No path is recorded twice.
    pub open spec fn wf(self) -> bool {
        forall|i: int, j: int|
            0 <= i < j < self.paths().len() ==> self.paths()[i] != self.paths()[j]
    }

    /// The recorded paths, in request order.
    pub fn tiles(&self) -> (r: &Vec<String>)
        ensures
            r@.map_values(|s: String| s@) == self.paths(),
    {
        &self.tiles
    }

    /// Whether a path was requested before.
    pub fn contains(&self, path: &String) -> (r: bool)
        ensures
            r == self.paths().contains(path@),
    {
        let mut i: usize = 0;
        while i < self.tiles.len()
            invariant
                i <= self.tiles.len(),
                forall|j: int| 0 <= j < i ==> self.paths()[j] != path@,
            decreases self.tiles.len() - i,
        {
            proof {
                assert(self.paths()[i as int] == self.tiles@[i as int]@);
            }
            if self.tiles[i].eq(path) {
                return true;
            }
            i = i + 1;
        }
        false
    }

    /// Records a request: the path is appended when new, and nothing
    /// happens when it was requested before. Returns whether the
    /// request is new.
    pub fn request(&mut self, path: String) -> (added: bool)
        requires
            old(self).wf(),
        ensures
            final(self).wf(),
            added == !old(self).paths().contains(path@),
            final(self).paths() == request_spec(old(self).paths(), path@),
    {
        if self.contains(&path) {
            false
        } else {
            self.tiles.push(path);
            proof {
                assert(final(self).paths() =~= old(self).paths().push(path@));
            }
            true
        }
    }
}

impl Default for LoadedTiles {
    /// The cache starts empty.
    fn default() -> (r: Self)
        ensures
            r.paths() == Seq::<Seq<char>>::empty(),
            r.wf(),
    {
        let r = LoadedTiles { tiles: Vec::new() };
        proof {
            assert(r.paths() =~= Seq::<Seq<char>>::empty());
        }
        r
    }
}

/// A level's value never leaves the ladder, and the derived level is
/// monotonically non-increasing as the zoom step count increases.
pub proof fn lemma_lod_from_zoom_steps_monotone(a: int, b: int)
    requires
        a <= b,
    ensures
        lod_from_zoom_steps_spec(b) <= lod_from_zoom_steps_spec(a),
        0 <= lod_from_zoom_steps_spec(a) <= LOD_MAX_VALUE as int,
        0 <= lod_from_zoom_steps_spec(b) <= LOD_MAX_VALUE as int,
{
}

} // verus!
