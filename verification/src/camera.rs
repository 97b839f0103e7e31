//! Bounded pan/zoom camera controller in fixed-point arithmetic.
//!
//! Positions and bounds are milli world units, the scale is milli world
//! units per screen pixel, cursor positions and deltas are milli
//! pixels, and scroll amounts are milli pixels of accumulated wheel
//! travel. Divisions truncate toward zero, mirroring the continuous
//! controller up to fixed-point rounding.

use vstd::prelude::*;

use vstd::arithmetic::div_mod::{
    lemma_div_is_ordered, lemma_div_multiples_vanish, lemma_div_pos_is_pos,
};

verus! {

/// Milli units per unit.
pub const MILLI: i64 = 1_000;

/// One million. A scroll pixel scales the zoom by one part in a
/// thousand, so one milli pixel of scroll scales it by one part in
/// `MICRO`.
pub const MICRO: i64 = 1_000_000;

/// How many scroll pixels one scroll line stands for.
pub const PIXELS_PER_LINE: i64 = 100;

/// Largest camera coordinate magnitude the fixed-point arithmetic
/// admits, in milli world units.
pub const CAM_POS_LIMIT: i64 = 500_000_000_000_000_000;

/// Largest bound magnitude, in milli world units.
pub const BOUND_LIMIT: i64 = 1_000_000_000_000_000;

/// Largest configured scale, in milli world units per pixel.
pub const CAM_SCALE_LIMIT: i64 = 1_000_000_000_000;

/// Largest window side, in pixels.
pub const WINDOW_LIMIT: i64 = 65_536;

/// Largest cursor travel per tick, in milli pixels.
pub const DELTA_LIMIT: i64 = 100_000_000;

/// Largest zoom-out scroll per tick, in milli pixels: one tick can at
/// most double the scale.
pub const SCROLL_OUT_LIMIT: i64 = 1_000_000;

/// Largest zoom-in scroll per tick, in milli pixels.
pub const SCROLL_IN_LIMIT: i64 = 1_000_000_000;

/// Division truncating toward zero, as the machine divides.
pub open spec fn tdiv(a: int, b: int) -> int
    recommends
        b > 0,
{
    if a >= 0 {
        a / b
    } else {
        -((-a) / b)
    }
}

/// A truncating quotient is bounded whenever the dividend is.
pub proof fn lemma_tdiv_bound(a: int, b: int, c: int)
    requires
        b > 0,
        c >= 0,
        -(c * b) <= a <= c * b,
    ensures
        -c <= tdiv(a, b) <= c,
{
    lemma_div_multiples_vanish(c, b);
    assert(b * c == c * b) by (nonlinear_arith);
    assert((c * b) / b == c);
    if a >= 0 {
        lemma_div_pos_is_pos(a, b);
        lemma_div_is_ordered(a, c * b, b);
    } else {
        lemma_div_pos_is_pos(-a, b);
        lemma_div_is_ordered(-a, c * b, b);
    }
}

/// Division of non-negative machine integers.
fn div_pos(a: i64, b: i64) -> (r: i64)
    requires
        0 <= a,
        0 < b,
    ensures
        r as int == a as int / b as int,
        0 <= r <= a,
{
    let q: u64 = (a as u64) / (b as u64);
    proof {
        assert(a as int <= a as int * b as int) by (nonlinear_arith)
            requires
                a >= 0,
                b >= 1,
        ;
        lemma_div_is_ordered(a as int, a as int * b as int, b as int);
        lemma_div_multiples_vanish(a as int, b as int);
    }
    q as i64
}

/// Truncating division of a wide intermediate product.
fn tdiv128(a: i128, b: i128) -> (r: i128)
    requires
        0 < b,
        -(i128::MAX as int) <= a,
    ensures
        r as int == tdiv(a as int, b as int),
        -(i128::MAX as int) <= r <= i128::MAX as int,
{
    if a >= 0 {
        let q: u128 = (a as u128) / (b as u128);
        proof {
            assert(a as int <= a as int * b as int) by (nonlinear_arith)
                requires
                    a >= 0,
                    b >= 1,
            ;
            lemma_div_is_ordered(a as int, a as int * b as int, b as int);
            lemma_div_multiples_vanish(a as int, b as int);
        }
        q as i128
    } else {
        let n = -a;
        let q: u128 = (n as u128) / (b as u128);
        proof {
            assert(n as int <= n as int * b as int) by (nonlinear_arith)
                requires
                    n >= 0,
                    b >= 1,
            ;
            lemma_div_is_ordered(n as int, n as int * b as int, b as int);
            lemma_div_multiples_vanish(n as int, b as int);
            lemma_div_pos_is_pos(n as int, b as int);
        }
        -(q as i128)
    }
}

/// Multiplies two machine words and divides the wide product,
/// truncating toward zero.
fn mul_div(a: i64, b: i64, d: i64) -> (r: i64)
    requires
        0 < d,
        -(i64::MAX as int) * d as int <= a as int * b as int <= i64::MAX as int * d as int,
    ensures
        r as int == tdiv(a as int * b as int, d as int),
{
    let prod: i128 = (a as i128) * (b as i128);
    proof {
        assert(-(i128::MAX as int) <= prod as int <= i128::MAX as int) by (nonlinear_arith)
            requires
                prod as int == a as int * b as int,
                -(i64::MAX as int) - 1 <= a as int <= i64::MAX as int,
                -(i64::MAX as int) - 1 <= b as int <= i64::MAX as int,
                i128::MAX as int == 0x7fffffffffffffffffffffffffffffff,
                i64::MAX as int == 0x7fffffffffffffff,
        ;
    }
    let q = tdiv128(prod, d as i128);
    proof {
        lemma_tdiv_bound(prod as int, d as int, i64::MAX as int);
    }
    q as i64
}

/// The controller's configuration: optional world-space bounds the
/// viewport must stay inside, the scale range, and the zoom anchor
/// switch.
#[derive(Debug, Clone, Copy)]
pub struct CamConfig {
    pub min_x: Option<i64>,
    pub max_x: Option<i64>,
    pub min_y: Option<i64>,
    pub max_y: Option<i64>,
    pub min_scale: i64,
    pub max_scale: Option<i64>,
    pub zoom_to_cursor: bool,
    pub enabled: bool,
}

impl CamConfig {
    /// Both horizontal bounds are set.
    pub open spec fn bounded_x(self) -> bool {
        self.min_x is Some && self.max_x is Some
    }

    /// Both vertical bounds are set.
    pub open spec fn bounded_y(self) -> bool {
        self.min_y is Some && self.max_y is Some
    }

    /// A configuration is valid when every bound and scale lies within
    /// what the fixed-point arithmetic admits and set bound pairs are
    /// ordered.
    pub open spec fn wf(self) -> bool {
        &&& (self.min_x matches Some(b) ==> -BOUND_LIMIT <= b <= BOUND_LIMIT)
        &&& (self.max_x matches Some(b) ==> -BOUND_LIMIT <= b <= BOUND_LIMIT)
        &&& (self.min_y matches Some(b) ==> -BOUND_LIMIT <= b <= BOUND_LIMIT)
        &&& (self.max_y matches Some(b) ==> -BOUND_LIMIT <= b <= BOUND_LIMIT)
        &&& (self.bounded_x() ==> self.min_x->Some_0 <= self.max_x->Some_0)
        &&& (self.bounded_y() ==> self.min_y->Some_0 <= self.max_y->Some_0)
        &&& 0 <= self.min_scale <= CAM_SCALE_LIMIT
        &&& (self.max_scale matches Some(m) ==> 0 <= m <= CAM_SCALE_LIMIT)
    }
}

/// The camera's mutable state: world position and zoom scale.
#[derive(Debug, Clone, Copy, PartialEq, Eq, Structural)]
pub struct CamState {
    pub x_milli: i64,
    pub y_milli: i64,
    pub scale_milli: i64,
}

impl CamState {
    /// The state lies within what the fixed-point arithmetic admits.
    pub open spec fn wf(self) -> bool {
        &&& -CAM_POS_LIMIT <= self.x_milli <= CAM_POS_LIMIT
        &&& -CAM_POS_LIMIT <= self.y_milli <= CAM_POS_LIMIT
        &&& 0 <= self.scale_milli <= CAM_SCALE_LIMIT
    }
}

/// Half the world-space extent of the viewport along one axis: half of
/// window pixels times world units per pixel.
pub open spec fn half_extent_spec(window_px: int, scale_milli: int) -> int {
    window_px * scale_milli / 2
}

/// One axis of the boundary clamp: the position is pulled up to the
/// lowest safe value first, then down to the highest safe value, each
/// bound adjusted by the half extent so the viewport edge, not the
/// camera center, respects it. When the two conflict the upper clamp
/// wins.
pub open spec fn clamp_axis_spec(p: int, min_b: Option<i64>, max_b: Option<i64>, half: int) -> int {
    let p1 = match min_b {
        Some(b) => if p < b + half {
            b + half
        } else {
            p
        },
        None => p,
    };
    match max_b {
        Some(b) => if p1 > b - half {
            b - half
        } else {
            p1
        },
        None => p1,
    }
}

/// One axis of the boundary clamp.
fn clamp_axis(p: i64, min_b: Option<i64>, max_b: Option<i64>, half: i64) -> (r: i64)
    requires
        0 <= half <= WINDOW_LIMIT as int * CAM_SCALE_LIMIT as int,
        (min_b matches Some(b) ==> -BOUND_LIMIT <= b <= BOUND_LIMIT),
        (max_b matches Some(b) ==> -BOUND_LIMIT <= b <= BOUND_LIMIT),
    ensures
        r as int == clamp_axis_spec(p as int, min_b, max_b, half as int),
{
    let mut r = p;
    if let Some(b) = min_b {
        let lo = b + half;
        if r < lo {
            r = lo;
        }
    }
    if let Some(b) = max_b {
        let hi = b - half;
        if r > hi {
            r = hi;
        }
    }
    r
}

/// The camera state after one pan tick.
pub open spec fn pan_spec(
    cfg: CamConfig,
    st: CamState,
    window_w_px: int,
    window_h_px: int,
    delta_x_mpx: int,
    delta_y_mpx: int,
) -> CamState {
    let s = st.scale_milli as int;
    let px = st.x_milli - tdiv(delta_x_mpx * s, MILLI as int);
    let py = st.y_milli - tdiv(delta_y_mpx * s, MILLI as int);
    (CamState {
        x_milli: clamp_axis_spec(px, cfg.min_x, cfg.max_x, half_extent_spec(window_w_px, s)) as i64,
        y_milli: clamp_axis_spec(py, cfg.min_y, cfg.max_y, half_extent_spec(window_h_px, s)) as i64,
        scale_milli: st.scale_milli,
    })
}

/// One pan tick: the cursor travel since the last tick, converted to
/// world units at the current scale, moves the camera the opposite way,
/// and each axis is then clamped against the configured bounds. The
/// scale never changes. A disabled controller ignores the tick.
pub fn camera_movement(
    cfg: &CamConfig,
    state: &mut CamState,
    window_w_px: i64,
    window_h_px: i64,
    delta_x_mpx: i64,
    delta_y_mpx: i64,
)
    requires
        cfg.wf(),
        old(state).wf(),
        1 <= window_w_px <= WINDOW_LIMIT,
        1 <= window_h_px <= WINDOW_LIMIT,
        -DELTA_LIMIT <= delta_x_mpx <= DELTA_LIMIT,
        -DELTA_LIMIT <= delta_y_mpx <= DELTA_LIMIT,
    ensures
        cfg.enabled ==> *final(state) == pan_spec(
            *cfg,
            *old(state),
            window_w_px as int,
            window_h_px as int,
            delta_x_mpx as int,
            delta_y_mpx as int,
        ),
        !cfg.enabled ==> *final(state) == *old(state),
        final(state).scale_milli == old(state).scale_milli,
{
    if !cfg.enabled {
        return ;
    }
    let s = state.scale_milli;
    proof {
        assert(-(i64::MAX as int) * MILLI as int <= delta_x_mpx as int * s as int
            <= i64::MAX as int * MILLI as int) by (nonlinear_arith)
            requires
                -DELTA_LIMIT <= delta_x_mpx <= DELTA_LIMIT,
                0 <= s <= CAM_SCALE_LIMIT,
                DELTA_LIMIT == 100_000_000,
                CAM_SCALE_LIMIT == 1_000_000_000_000,
                MILLI == 1_000,
                i64::MAX == 0x7fffffffffffffff,
        ;
        assert(-(i64::MAX as int) * MILLI as int <= delta_y_mpx as int * s as int
            <= i64::MAX as int * MILLI as int) by (nonlinear_arith)
            requires
                -DELTA_LIMIT <= delta_y_mpx <= DELTA_LIMIT,
                0 <= s <= CAM_SCALE_LIMIT,
                DELTA_LIMIT == 100_000_000,
                CAM_SCALE_LIMIT == 1_000_000_000_000,
                MILLI == 1_000,
                i64::MAX == 0x7fffffffffffffff,
        ;
    }
    let dwx = mul_div(delta_x_mpx, s, MILLI);
    let dwy = mul_div(delta_y_mpx, s, MILLI);
    proof {
        let lim = DELTA_LIMIT as int * CAM_SCALE_LIMIT as int / MILLI as int;
        assert(delta_x_mpx as int * s as int <= (lim * MILLI as int)) by (nonlinear_arith)
            requires
                -DELTA_LIMIT <= delta_x_mpx <= DELTA_LIMIT,
                0 <= s <= CAM_SCALE_LIMIT,
                lim == DELTA_LIMIT as int * CAM_SCALE_LIMIT as int / MILLI as int,
                DELTA_LIMIT == 100_000_000,
                CAM_SCALE_LIMIT == 1_000_000_000_000,
                MILLI == 1_000,
        ;
        assert(-(lim * MILLI as int) <= delta_x_mpx as int * s as int) by (nonlinear_arith)
            requires
                -DELTA_LIMIT <= delta_x_mpx <= DELTA_LIMIT,
                0 <= s <= CAM_SCALE_LIMIT,
                lim == DELTA_LIMIT as int * CAM_SCALE_LIMIT as int / MILLI as int,
                DELTA_LIMIT == 100_000_000,
                CAM_SCALE_LIMIT == 1_000_000_000_000,
                MILLI == 1_000,
        ;
        lemma_tdiv_bound(delta_x_mpx as int * s as int, MILLI as int, lim);
        assert(delta_y_mpx as int * s as int <= (lim * MILLI as int)) by (nonlinear_arith)
            requires
                -DELTA_LIMIT <= delta_y_mpx <= DELTA_LIMIT,
                0 <= s <= CAM_SCALE_LIMIT,
                lim == DELTA_LIMIT as int * CAM_SCALE_LIMIT as int / MILLI as int,
                DELTA_LIMIT == 100_000_000,
                CAM_SCALE_LIMIT == 1_000_000_000_000,
                MILLI == 1_000,
        ;
        assert(-(lim * MILLI as int) <= delta_y_mpx as int * s as int) by (nonlinear_arith)
            requires
                -DELTA_LIMIT <= delta_y_mpx <= DELTA_LIMIT,
                0 <= s <= CAM_SCALE_LIMIT,
                lim == DELTA_LIMIT as int * CAM_SCALE_LIMIT as int / MILLI as int,
                DELTA_LIMIT == 100_000_000,
                CAM_SCALE_LIMIT == 1_000_000_000_000,
                MILLI == 1_000,
        ;
        lemma_tdiv_bound(delta_y_mpx as int * s as int, MILLI as int, lim);
    }
    let px = state.x_milli - dwx;
    let py = state.y_milli - dwy;
    let half_w = half_extent(window_w_px, s);
    let half_h = half_extent(window_h_px, s);
    state.x_milli = clamp_axis(px, cfg.min_x, cfg.max_x, half_w);
    state.y_milli = clamp_axis(py, cfg.min_y, cfg.max_y, half_h);
}

/// The scale right after the wheel is applied, before any clamp: the
/// old scale grows by one part in `MICRO` for every milli pixel
/// scrolled down. A factor that would turn the scale negative yields
/// zero, which the later clamps treat as any other underrun.
pub open spec fn zoom_raw_scale_spec(old_scale: int, scroll_mpx: int) -> int {
    let factor = MICRO as int - scroll_mpx;
    if factor <= 0 {
        0
    } else {
        tdiv(old_scale * factor, MICRO as int)
    }
}

/// The largest scale at which the viewport still fits between two
/// bounds: the bound extent over the viewport extent at unit scale.
pub open spec fn max_safe_scale_spec(lo: int, hi: int, window_px: int) -> int {
    (hi - lo) / window_px
}

/// The scale after one zoom tick: the raw scale, pulled up to the
/// configured minimum, then down to the configured maximum, then down
/// to each axis's bound-derived maximum where both bounds are set.
pub open spec fn zoom_scale_spec(
    cfg: CamConfig,
    old_scale: int,
    scroll_mpx: int,
    window_w_px: int,
    window_h_px: int,
) -> int {
    let s0 = zoom_raw_scale_spec(old_scale, scroll_mpx);
    let s1 = if s0 < cfg.min_scale as int {
        cfg.min_scale as int
    } else {
        s0
    };
    let s2 = match cfg.max_scale {
        Some(m) => if s1 > m {
            m as int
        } else {
            s1
        },
        None => s1,
    };
    let s3 = if cfg.bounded_x() {
        let ms = max_safe_scale_spec(
            cfg.min_x->Some_0 as int,
            cfg.max_x->Some_0 as int,
            window_w_px,
        );
        if s2 > ms {
            ms
        } else {
            s2
        }
    } else {
        s2
    };
    if cfg.bounded_y() {
        let ms = max_safe_scale_spec(
            cfg.min_y->Some_0 as int,
            cfg.max_y->Some_0 as int,
            window_h_px,
        );
        if s3 > ms {
            ms
        } else {
            s3
        }
    } else {
        s3
    }
}

/// The cursor position as an offset from the window center, in milli
/// window halves: `-MILLI` at the left edge, `MILLI` at the right.
pub open spec fn norm_cursor_x_spec(cursor_mpx: int, window_px: int) -> int {
    tdiv(2 * cursor_mpx, window_px) - MILLI as int
}

/// As horizontally, but flipped: screen-down is world-down.
pub open spec fn norm_cursor_y_spec(cursor_mpx: int, window_px: int) -> int {
    MILLI as int - tdiv(2 * cursor_mpx, window_px)
}

/// The world-space offset from the camera center to the point under the
/// cursor at a given scale, along one axis, in milli world units.
pub open spec fn anchor_term_spec(norm_milli: int, window_px: int, scale_milli: int) -> int {
    tdiv(norm_milli * window_px * scale_milli, 2 * MILLI as int)
}

/// The camera state after one zoom tick: the new scale, the position
/// moved so the world point under the cursor stays put (when anchoring
/// applies), and the boundary clamp at the new viewport extent.
pub open spec fn zoom_spec(
    cfg: CamConfig,
    st: CamState,
    window_w_px: int,
    window_h_px: int,
    scroll_mpx: int,
    cursor: Option<(i64, i64)>,
) -> CamState {
    let os = st.scale_milli as int;
    let ns = zoom_scale_spec(cfg, os, scroll_mpx, window_w_px, window_h_px);
    let anchored = cfg.zoom_to_cursor && cursor is Some;
    let ux = if anchored {
        let nx = norm_cursor_x_spec(cursor->Some_0.0 as int, window_w_px);
        st.x_milli + anchor_term_spec(nx, window_w_px, os) - anchor_term_spec(
            nx,
            window_w_px,
            ns,
        )
    } else {
        st.x_milli as int
    };
    let uy = if anchored {
        let ny = norm_cursor_y_spec(cursor->Some_0.1 as int, window_h_px);
        st.y_milli + anchor_term_spec(ny, window_h_px, os) - anchor_term_spec(
            ny,
            window_h_px,
            ns,
        )
    } else {
        st.y_milli as int
    };
    (CamState {
        x_milli: clamp_axis_spec(
            ux,
            cfg.min_x,
            cfg.max_x,
            half_extent_spec(window_w_px, ns),
        ) as i64,
        y_milli: clamp_axis_spec(
            uy,
            cfg.min_y,
            cfg.max_y,
            half_extent_spec(window_h_px, ns),
        ) as i64,
        scale_milli: ns as i64,
    })
}

/// The cursor position as an offset from the window center.
fn norm_cursor_x(cursor_mpx: i64, window_px: i64) -> (r: i64)
    requires
        1 <= window_px <= WINDOW_LIMIT,
        0 <= cursor_mpx,
        cursor_mpx as int <= window_px as int * MILLI as int,
    ensures
        r as int == norm_cursor_x_spec(cursor_mpx as int, window_px as int),
        -MILLI <= r <= MILLI,
{
    let q = div_pos(2 * cursor_mpx, window_px);
    proof {
        lemma_norm_quotient(cursor_mpx as int, window_px as int);
    }
    q - MILLI
}

/// As horizontally, but flipped: screen-down is world-down.
fn norm_cursor_y(cursor_mpx: i64, window_px: i64) -> (r: i64)
    requires
        1 <= window_px <= WINDOW_LIMIT,
        0 <= cursor_mpx,
        cursor_mpx as int <= window_px as int * MILLI as int,
    ensures
        r as int == norm_cursor_y_spec(cursor_mpx as int, window_px as int),
        -MILLI <= r <= MILLI,
{
    let q = div_pos(2 * cursor_mpx, window_px);
    proof {
        lemma_norm_quotient(cursor_mpx as int, window_px as int);
    }
    MILLI - q
}

/// The doubled cursor offset divides to at most two window halves.
proof fn lemma_norm_quotient(cursor_mpx: int, window_px: int)
    requires
        1 <= window_px,
        0 <= cursor_mpx <= window_px * MILLI as int,
    ensures
        0 <= 2 * cursor_mpx / window_px <= 2 * MILLI as int,
{
    assert(2 * cursor_mpx <= (2 * MILLI as int) * window_px) by (nonlinear_arith)
        requires
            0 <= cursor_mpx <= window_px * MILLI as int,
            MILLI == 1_000,
    ;
    lemma_div_pos_is_pos(2 * cursor_mpx, window_px);
    lemma_div_is_ordered(2 * cursor_mpx, (2 * MILLI as int) * window_px, window_px);
    lemma_div_multiples_vanish(2 * MILLI as int, window_px);
    assert(window_px * (2 * MILLI as int) == (2 * MILLI as int) * window_px)
        by (nonlinear_arith);
    assert(((2 * MILLI as int) * window_px) / window_px == 2 * MILLI as int);
}

/// The world-space offset from the camera center to the point under the
/// cursor at a given scale, along one axis.
fn anchor_term(norm_milli: i64, window_px: i64, scale_milli: i64) -> (r: i64)
    requires
        -MILLI <= norm_milli <= MILLI,
        1 <= window_px <= WINDOW_LIMIT,
        0 <= scale_milli,
        scale_milli as int <= 2 * CAM_SCALE_LIMIT as int,
    ensures
        r as int == anchor_term_spec(
            norm_milli as int,
            window_px as int,
            scale_milli as int,
        ),
        -(WINDOW_LIMIT as int * CAM_SCALE_LIMIT as int) <= r as int
            <= WINDOW_LIMIT as int * CAM_SCALE_LIMIT as int,
{
    proof {
        assert(-(MILLI as int * WINDOW_LIMIT as int) <= norm_milli as int * window_px as int
            <= MILLI as int * WINDOW_LIMIT as int) by (nonlinear_arith)
            requires
                -MILLI <= norm_milli <= MILLI,
                1 <= window_px <= WINDOW_LIMIT,
        ;
    }
    let p1: i128 = (norm_milli as i128) * (window_px as i128);
    proof {
        assert(-131_072_000_000_000_000_000_000 <= p1 as int * scale_milli as int
            <= 131_072_000_000_000_000_000_000) by (nonlinear_arith)
            requires
                -65_536_000 <= p1 as int <= 65_536_000,
                0 <= scale_milli as int <= 2_000_000_000_000,
        ;
    }
    let prod: i128 = p1 * (scale_milli as i128);
    proof {
        let c = WINDOW_LIMIT as int * CAM_SCALE_LIMIT as int;
        assert(-(c * (2 * MILLI as int)) <= prod as int <= c * (2 * MILLI as int))
            by (nonlinear_arith)
            requires
                prod as int == norm_milli as int * window_px as int * scale_milli as int,
                -MILLI <= norm_milli <= MILLI,
                1 <= window_px <= WINDOW_LIMIT,
                0 <= scale_milli as int <= 2 * CAM_SCALE_LIMIT as int,
                c == WINDOW_LIMIT as int * CAM_SCALE_LIMIT as int,
                MILLI == 1_000,
                WINDOW_LIMIT == 65_536,
                CAM_SCALE_LIMIT == 1_000_000_000_000,
        ;
        lemma_tdiv_bound(prod as int, 2 * MILLI as int, c);
    }
    let q = tdiv128(prod, 2 * (MILLI as i128));
    q as i64
}

/// One zoom tick: the accumulated scroll scales the zoom, the scale is
/// clamped to the configured and bound-derived range, the position
/// follows the cursor anchor when one applies, and the viewport is
/// clamped back inside the bounds at the new scale. A zero scroll or a
/// disabled controller leaves the state alone.
pub fn camera_zoom(
    cfg: &CamConfig,
    state: &mut CamState,
    window_w_px: i64,
    window_h_px: i64,
    scroll_mpx: i64,
    cursor: Option<(i64, i64)>,
)
    requires
        cfg.wf(),
        old(state).wf(),
        1 <= window_w_px <= WINDOW_LIMIT,
        1 <= window_h_px <= WINDOW_LIMIT,
        -SCROLL_OUT_LIMIT <= scroll_mpx <= SCROLL_IN_LIMIT,
        (cursor matches Some(c) ==> 0 <= c.0 && c.0 as int <= window_w_px as int
            * MILLI as int && 0 <= c.1 && c.1 as int <= window_h_px as int * MILLI as int),
    ensures
        cfg.enabled && scroll_mpx != 0 ==> *final(state) == zoom_spec(
            *cfg,
            *old(state),
            window_w_px as int,
            window_h_px as int,
            scroll_mpx as int,
            cursor,
        ),
        !(cfg.enabled && scroll_mpx != 0) ==> *final(state) == *old(state),
{
    if scroll_mpx == 0 || !cfg.enabled {
        return ;
    }
    let os = state.scale_milli;
    let factor = MICRO - scroll_mpx;
    let mut ns: i64;
    if factor <= 0 {
        ns = 0;
    } else {
        proof {
            assert(0 <= os as int * factor as int <= MICRO as int * (2
                * CAM_SCALE_LIMIT as int)) by (nonlinear_arith)
                requires
                    0 <= os <= CAM_SCALE_LIMIT,
                    0 < factor as int <= 2 * MICRO as int,
                    MICRO == 1_000_000,
                    CAM_SCALE_LIMIT == 1_000_000_000_000,
            ;
        }
        let prod = os * factor;
        ns = div_pos(prod, MICRO);
        proof {
            lemma_div_is_ordered(
                prod as int,
                MICRO as int * (2 * CAM_SCALE_LIMIT as int),
                MICRO as int,
            );
            lemma_div_multiples_vanish(2 * CAM_SCALE_LIMIT as int, MICRO as int);
        }
    }
    proof {
        assert(0 <= ns as int <= 2 * CAM_SCALE_LIMIT as int);
        assert(ns as int == zoom_raw_scale_spec(os as int, scroll_mpx as int));
    }
    if ns < cfg.min_scale {
        ns = cfg.min_scale;
    }
    if let Some(m) = cfg.max_scale {
        if ns > m {
            ns = m;
        }
    }
    if cfg.min_x.is_some() && cfg.max_x.is_some() {
        let lo = cfg.min_x.unwrap();
        let hi = cfg.max_x.unwrap();
        let ms = div_pos(hi - lo, window_w_px);
        if ns > ms {
            ns = ms;
        }
    }
    if cfg.min_y.is_some() && cfg.max_y.is_some() {
        let lo = cfg.min_y.unwrap();
        let hi = cfg.max_y.unwrap();
        let ms = div_pos(hi - lo, window_h_px);
        if ns > ms {
            ns = ms;
        }
    }
    proof {
        assert(ns as int == zoom_scale_spec(
            *cfg,
            os as int,
            scroll_mpx as int,
            window_w_px as int,
            window_h_px as int,
        ));
        assert(0 <= ns as int <= 2 * CAM_SCALE_LIMIT as int);
    }
    let mut ux = state.x_milli;
    let mut uy = state.y_milli;
    if cfg.zoom_to_cursor && cursor.is_some() {
        let c = cursor.unwrap();
        let nx = norm_cursor_x(c.0, window_w_px);
        let ny = norm_cursor_y(c.1, window_h_px);
        let tx_old = anchor_term(nx, window_w_px, os);
        let tx_new = anchor_term(nx, window_w_px, ns);
        let ty_old = anchor_term(ny, window_h_px, os);
        let ty_new = anchor_term(ny, window_h_px, ns);
        ux = state.x_milli + tx_old - tx_new;
        uy = state.y_milli + ty_old - ty_new;
    }
    let half_w = half_extent(window_w_px, ns);
    let half_h = half_extent(window_h_px, ns);
    state.x_milli = clamp_axis(ux, cfg.min_x, cfg.max_x, half_w);
    state.y_milli = clamp_axis(uy, cfg.min_y, cfg.max_y, half_h);
    state.scale_milli = ns;
}

/// Half the world-space extent of the viewport along one axis.
fn half_extent(window_px: i64, scale_milli: i64) -> (r: i64)
    requires
        1 <= window_px <= WINDOW_LIMIT,
        0 <= scale_milli <= 2 * CAM_SCALE_LIMIT,
    ensures
        r as int == half_extent_spec(window_px as int, scale_milli as int),
        0 <= r <= WINDOW_LIMIT as int * CAM_SCALE_LIMIT as int,
{
    proof {
        assert(0 <= window_px as int * scale_milli as int
            <= 2 * (WINDOW_LIMIT as int * CAM_SCALE_LIMIT as int)) by (nonlinear_arith)
            requires
                1 <= window_px <= WINDOW_LIMIT,
                0 <= scale_milli <= 2 * CAM_SCALE_LIMIT,
        ;
    }
    let w = window_px * scale_milli;
    let r = div_pos(w, 2);
    proof {
        lemma_div_is_ordered(
            w as int,
            2 * (WINDOW_LIMIT as int * CAM_SCALE_LIMIT as int),
            2,
        );
        lemma_div_multiples_vanish(WINDOW_LIMIT as int * CAM_SCALE_LIMIT as int, 2);
        lemma_div_pos_is_pos(w as int, 2);
    }
    r
}

/// One wheel event: a signed amount in milli units of its kind.
#[derive(Debug, Clone, Copy, PartialEq, Eq, Structural)]
pub enum ScrollUnit {
    Pixel,
    Line,
}

/// One wheel event.
#[derive(Debug, Clone, Copy, PartialEq, Eq, Structural)]
pub struct ScrollEvent {
    pub amount_milli: i64,
    pub unit: ScrollUnit,
}

/// Largest single wheel event, in milli units of its kind.
pub const SCROLL_EVENT_LIMIT: i64 = 10_000_000;

/// One event's worth in milli pixels: line events count for
/// `PIXELS_PER_LINE` pixels each.
pub open spec fn scroll_value_spec(e: ScrollEvent) -> int {
    match e.unit {
        ScrollUnit::Pixel => e.amount_milli as int,
        ScrollUnit::Line => e.amount_milli as int * PIXELS_PER_LINE as int,
    }
}

/// The net scroll of a tick, in milli pixels.
pub open spec fn scroll_sum_spec(evs: Seq<ScrollEvent>) -> int
    decreases evs.len(),
{
    if evs.len() == 0 {
        0
    } else {
        scroll_sum_spec(evs.drop_last()) + scroll_value_spec(evs.last())
    }
}

/// Accumulates one tick's wheel events into a net scroll amount in
/// milli pixels.
pub fn accumulate_scroll(events: &Vec<ScrollEvent>) -> (r: i64)
    requires
        events@.len() <= 1_000,
        forall|i: int|
            0 <= i < events@.len() ==> -SCROLL_EVENT_LIMIT <= (
            #[trigger] events@[i]).amount_milli <= SCROLL_EVENT_LIMIT,
    ensures
        r as int == scroll_sum_spec(events@),
{
    let mut acc: i64 = 0;
    let mut i: usize = 0;
    while i < events.len()
        invariant
            i <= events@.len() <= 1_000,
            forall|j: int|
                0 <= j < events@.len() ==> -SCROLL_EVENT_LIMIT <= (
                #[trigger] events@[j]).amount_milli <= SCROLL_EVENT_LIMIT,
            acc as int == scroll_sum_spec(events@.take(i as int)),
            -(i as int) * 1_000_000_000 <= acc as int <= (i as int) * 1_000_000_000,
        decreases events@.len() - i,
    {
        let e = events[i];
        let v: i64 = match e.unit {
            ScrollUnit::Pixel => e.amount_milli,
            ScrollUnit::Line => e.amount_milli * PIXELS_PER_LINE,
        };
        proof {
            assert(-1_000_000_000 <= v as int <= 1_000_000_000);
            assert(events@.take(i as int + 1).drop_last() =~= events@.take(i as int));
            assert(events@.take(i as int + 1).last() == events@[i as int]);
        }
        acc = acc + v;
        i = i + 1;
    }
    proof {
        assert(events@.take(events@.len() as int) =~= events@);
    }
    acc
}

/// The viewport's edges stay inside every fully set bound pair.
pub open spec fn viewport_within_spec(
    cfg: CamConfig,
    st: CamState,
    window_w_px: int,
    window_h_px: int,
) -> bool {
    let half_w = half_extent_spec(window_w_px, st.scale_milli as int);
    let half_h = half_extent_spec(window_h_px, st.scale_milli as int);
    &&& (cfg.bounded_x() ==> cfg.min_x->Some_0 <= st.x_milli - half_w && st.x_milli + half_w
        <= cfg.max_x->Some_0)
    &&& (cfg.bounded_y() ==> cfg.min_y->Some_0 <= st.y_milli - half_h && st.y_milli + half_h
        <= cfg.max_y->Some_0)
}

/// The viewport at the current scale is no wider than either fully set
/// bound pair's extent.
pub open spec fn scale_safe_spec(
    cfg: CamConfig,
    st: CamState,
    window_w_px: int,
    window_h_px: int,
) -> bool {
    &&& (cfg.bounded_x() ==> window_w_px * st.scale_milli as int <= cfg.max_x->Some_0
        - cfg.min_x->Some_0)
    &&& (cfg.bounded_y() ==> window_h_px * st.scale_milli as int <= cfg.max_y->Some_0
        - cfg.min_y->Some_0)
}

/// The controller's invariant when both bound pairs are set: a state
/// the arithmetic admits, whose viewport fits the bounds and lies
/// inside them.
pub open spec fn cam_inv(cfg: CamConfig, st: CamState, window_w_px: int, window_h_px: int) -> bool {
    &&& st.wf()
    &&& scale_safe_spec(cfg, st, window_w_px, window_h_px)
    &&& viewport_within_spec(cfg, st, window_w_px, window_h_px)
}

/// When the clamp interval is not empty, the clamped viewport edge
/// respects both bounds.
proof fn lemma_clamp_axis_within(p: int, lo: i64, hi: i64, half: int)
    requires
        0 <= half,
        2 * half <= hi - lo,
    ensures
        lo <= clamp_axis_spec(p, Some(lo), Some(hi), half) - half,
        clamp_axis_spec(p, Some(lo), Some(hi), half) + half <= hi,
        lo <= clamp_axis_spec(p, Some(lo), Some(hi), half) <= hi,
{
}

/// Twice the half extent never exceeds the full viewport extent.
proof fn lemma_half_extent(window_px: int, scale: int)
    requires
        window_px >= 1,
        scale >= 0,
    ensures
        0 <= 2 * half_extent_spec(window_px, scale) <= window_px * scale,
{
    let w = window_px * scale;
    assert(w >= 0) by (nonlinear_arith)
        requires
            window_px >= 1,
            scale >= 0,
            w == window_px * scale,
    ;
    vstd::arithmetic::div_mod::lemma_fundamental_div_mod(w, 2);
    vstd::arithmetic::div_mod::lemma_mod_division_less_than_divisor(w, 2);
    lemma_div_pos_is_pos(w, 2);
}

/// A pan tick keeps the viewport inside fully set bounds, as long as
/// the viewport fits them; the scale never changes.
pub proof fn lemma_pan_preserves_inv(
    cfg: CamConfig,
    st: CamState,
    window_w_px: int,
    window_h_px: int,
    dx: int,
    dy: int,
)
    requires
        cfg.wf(),
        cfg.bounded_x(),
        cfg.bounded_y(),
        1 <= window_w_px <= WINDOW_LIMIT,
        1 <= window_h_px <= WINDOW_LIMIT,
        st.wf(),
        scale_safe_spec(cfg, st, window_w_px, window_h_px),
    ensures
        cam_inv(cfg, pan_spec(cfg, st, window_w_px, window_h_px, dx, dy), window_w_px, window_h_px),
        pan_spec(cfg, st, window_w_px, window_h_px, dx, dy).scale_milli == st.scale_milli,
{
    let s = st.scale_milli as int;
    let half_w = half_extent_spec(window_w_px, s);
    let half_h = half_extent_spec(window_h_px, s);
    lemma_half_extent(window_w_px, s);
    lemma_half_extent(window_h_px, s);
    let px = st.x_milli - tdiv(dx * s, MILLI as int);
    let py = st.y_milli - tdiv(dy * s, MILLI as int);
    lemma_clamp_axis_within(px, cfg.min_x->Some_0, cfg.max_x->Some_0, half_w);
    lemma_clamp_axis_within(py, cfg.min_y->Some_0, cfg.max_y->Some_0, half_h);
}

/// A zoom tick clamps the scale under the configured maximum and under
/// each bound-derived maximum, never below zero; and whenever the
/// configured minimum does not itself exceed those caps, the scale
/// stays at or above it.
pub proof fn lemma_zoom_scale_within(
    cfg: CamConfig,
    old_scale: int,
    scroll: int,
    window_w_px: int,
    window_h_px: int,
)
    requires
        cfg.wf(),
        1 <= window_w_px,
        1 <= window_h_px,
        0 <= old_scale,
    ensures
        0 <= zoom_scale_spec(cfg, old_scale, scroll, window_w_px, window_h_px),
        cfg.max_scale matches Some(m) ==> (cfg.bounded_x() || cfg.bounded_y()
            || zoom_scale_spec(cfg, old_scale, scroll, window_w_px, window_h_px) <= m),
        cfg.bounded_x() ==> zoom_scale_spec(cfg, old_scale, scroll, window_w_px, window_h_px)
            <= max_safe_scale_spec(
            cfg.min_x->Some_0 as int,
            cfg.max_x->Some_0 as int,
            window_w_px,
        ),
        cfg.bounded_y() ==> zoom_scale_spec(cfg, old_scale, scroll, window_w_px, window_h_px)
            <= max_safe_scale_spec(
            cfg.min_y->Some_0 as int,
            cfg.max_y->Some_0 as int,
            window_h_px,
        ),
        ({
            &&& (cfg.max_scale matches Some(m) ==> cfg.min_scale <= m)
            &&& (cfg.bounded_x() ==> cfg.min_scale as int <= max_safe_scale_spec(
                cfg.min_x->Some_0 as int,
                cfg.max_x->Some_0 as int,
                window_w_px,
            ))
            &&& (cfg.bounded_y() ==> cfg.min_scale as int <= max_safe_scale_spec(
                cfg.min_y->Some_0 as int,
                cfg.max_y->Some_0 as int,
                window_h_px,
            ))
        }) ==> zoom_scale_spec(cfg, old_scale, scroll, window_w_px, window_h_px)
            >= cfg.min_scale,
        cfg.max_scale matches Some(m) ==> zoom_scale_spec(
            cfg,
            old_scale,
            scroll,
            window_w_px,
            window_h_px,
        ) <= m,
{
    let factor = MICRO as int - scroll;
    if factor > 0 {
        assert(old_scale * factor >= 0) by (nonlinear_arith)
            requires
                old_scale >= 0,
                factor > 0,
        ;
        lemma_div_pos_is_pos(old_scale * factor, MICRO as int);
    }
    if cfg.bounded_x() {
        lemma_div_pos_is_pos(
            cfg.max_x->Some_0 - cfg.min_x->Some_0,
            window_w_px,
        );
    }
    if cfg.bounded_y() {
        lemma_div_pos_is_pos(
            cfg.max_y->Some_0 - cfg.min_y->Some_0,
            window_h_px,
        );
    }
}

/// Multiplying a floored quotient back never exceeds the dividend.
proof fn lemma_div_mul_le(a: int, b: int)
    requires
        a >= 0,
        b >= 1,
    ensures
        b * (a / b) <= a,
{
    vstd::arithmetic::div_mod::lemma_fundamental_div_mod(a, b);
    vstd::arithmetic::div_mod::lemma_mod_division_less_than_divisor(a, b);
}

/// A zoom tick establishes the controller's invariant whenever both
/// bound pairs are set and fit the machine's scale range: the new
/// viewport fits the bounds and is clamped inside them.
pub proof fn lemma_zoom_establishes_inv(
    cfg: CamConfig,
    st: CamState,
    window_w_px: int,
    window_h_px: int,
    scroll: int,
    cursor: Option<(i64, i64)>,
)
    requires
        cfg.wf(),
        cfg.bounded_x(),
        cfg.bounded_y(),
        1 <= window_w_px <= WINDOW_LIMIT,
        1 <= window_h_px <= WINDOW_LIMIT,
        st.wf(),
        cfg.max_x->Some_0 - cfg.min_x->Some_0 <= window_w_px * CAM_SCALE_LIMIT as int,
        cfg.max_y->Some_0 - cfg.min_y->Some_0 <= window_h_px * CAM_SCALE_LIMIT as int,
    ensures
        cam_inv(
            cfg,
            zoom_spec(cfg, st, window_w_px, window_h_px, scroll, cursor),
            window_w_px,
            window_h_px,
        ),
{
    let os = st.scale_milli as int;
    let ns = zoom_scale_spec(cfg, os, scroll, window_w_px, window_h_px);
    let lo_x = cfg.min_x->Some_0 as int;
    let hi_x = cfg.max_x->Some_0 as int;
    let lo_y = cfg.min_y->Some_0 as int;
    let hi_y = cfg.max_y->Some_0 as int;
    lemma_zoom_scale_within(cfg, os, scroll, window_w_px, window_h_px);
    // the bound-derived cap keeps the scale in the machine range
    lemma_div_is_ordered(hi_x - lo_x, window_w_px * CAM_SCALE_LIMIT as int, window_w_px);
    lemma_div_multiples_vanish(CAM_SCALE_LIMIT as int, window_w_px);
    assert(ns <= CAM_SCALE_LIMIT as int);
    // the viewport at the new scale fits between each bound pair
    lemma_div_mul_le(hi_x - lo_x, window_w_px);
    assert(window_w_px * ns <= window_w_px * ((hi_x - lo_x) / window_w_px)) by (nonlinear_arith)
        requires
            ns <= (hi_x - lo_x) / window_w_px,
            window_w_px >= 1,
    ;
    lemma_div_mul_le(hi_y - lo_y, window_h_px);
    assert(window_h_px * ns <= window_h_px * ((hi_y - lo_y) / window_h_px)) by (nonlinear_arith)
        requires
            ns <= (hi_y - lo_y) / window_h_px,
            window_h_px >= 1,
    ;
    let half_w = half_extent_spec(window_w_px, ns);
    let half_h = half_extent_spec(window_h_px, ns);
    lemma_half_extent(window_w_px, ns);
    lemma_half_extent(window_h_px, ns);
    let st2 = zoom_spec(cfg, st, window_w_px, window_h_px, scroll, cursor);
    let anchored = cfg.zoom_to_cursor && cursor is Some;
    let ux = if anchored {
        let nx = norm_cursor_x_spec(cursor->Some_0.0 as int, window_w_px);
        st.x_milli + anchor_term_spec(nx, window_w_px, os) - anchor_term_spec(
            nx,
            window_w_px,
            ns,
        )
    } else {
        st.x_milli as int
    };
    let uy = if anchored {
        let ny = norm_cursor_y_spec(cursor->Some_0.1 as int, window_h_px);
        st.y_milli + anchor_term_spec(ny, window_h_px, os) - anchor_term_spec(
            ny,
            window_h_px,
            ns,
        )
    } else {
        st.y_milli as int
    };
    lemma_clamp_axis_within(ux, cfg.min_x->Some_0, cfg.max_x->Some_0, half_w);
    lemma_clamp_axis_within(uy, cfg.min_y->Some_0, cfg.max_y->Some_0, half_h);
    assert(st2.x_milli as int == clamp_axis_spec(ux, cfg.min_x, cfg.max_x, half_w));
    assert(st2.y_milli as int == clamp_axis_spec(uy, cfg.min_y, cfg.max_y, half_h));
}

/// The controller configuration the viewer starts with: the viewport
/// is confined to four times the map's half extent on each side, the
/// scale to a fixed range, and zooming anchors to the cursor.
pub fn startup_config() -> (r: CamConfig)
    ensures
        r.wf(),
        r.min_x == Some(-24_000_000i64),
        r.max_x == Some(24_000_000i64),
        r.min_y == Some(-24_000_000i64),
        r.max_y == Some(24_000_000i64),
        r.min_scale == 300,
        r.max_scale == Some(40_000i64),
        r.zoom_to_cursor,
        r.enabled,
{
    CamConfig {
        min_x: Some(-24_000_000),
        max_x: Some(24_000_000),
        min_y: Some(-24_000_000),
        max_y: Some(24_000_000),
        min_scale: 300,
        max_scale: Some(40_000),
        zoom_to_cursor: true,
        enabled: true,
    }
}

/// The camera state the viewer starts with: centered on the origin at
/// a fixed zoomed-out scale.
pub fn startup_state() -> (r: CamState)
    ensures
        r.wf(),
        r.x_milli == 0,
        r.y_milli == 0,
        r.scale_milli == 20_000,
{
    CamState { x_milli: 0, y_milli: 0, scale_milli: 20_000 }
}

/// One tick's worth of camera input.
#[derive(Debug, Clone, Copy)]
pub enum CamEvent {
    Pan { dx_mpx: i64, dy_mpx: i64 },
    Zoom { scroll_mpx: i64, cursor: Option<(i64, i64)> },
}

/// An event the fixed-point arithmetic admits for a given window.
pub open spec fn event_ok(e: CamEvent, window_w_px: int, window_h_px: int) -> bool {
    match e {
        CamEvent::Pan { dx_mpx, dy_mpx } => -DELTA_LIMIT <= dx_mpx <= DELTA_LIMIT && -DELTA_LIMIT
            <= dy_mpx <= DELTA_LIMIT,
        CamEvent::Zoom { scroll_mpx, cursor } => -SCROLL_OUT_LIMIT <= scroll_mpx
            <= SCROLL_IN_LIMIT && (cursor matches Some(c) ==> 0 <= c.0 && c.0 as int
            <= window_w_px * MILLI as int && 0 <= c.1 && c.1 as int <= window_h_px
            * MILLI as int),
    }
}

/// What one tick does to the camera: a pan applies the pan step, a
/// zoom with a net scroll applies the zoom step, and a disabled
/// controller or an empty scroll leaves the state alone.
pub open spec fn step_spec(
    cfg: CamConfig,
    st: CamState,
    window_w_px: int,
    window_h_px: int,
    e: CamEvent,
) -> CamState {
    match e {
        CamEvent::Pan { dx_mpx, dy_mpx } => if cfg.enabled {
            pan_spec(cfg, st, window_w_px, window_h_px, dx_mpx as int, dy_mpx as int)
        } else {
            st
        },
        CamEvent::Zoom { scroll_mpx, cursor } => if cfg.enabled && scroll_mpx != 0 {
            zoom_spec(cfg, st, window_w_px, window_h_px, scroll_mpx as int, cursor)
        } else {
            st
        },
    }
}

/// The camera state after a whole sequence of ticks, applied in order.
pub open spec fn run_spec(
    cfg: CamConfig,
    st: CamState,
    window_w_px: int,
    window_h_px: int,
    evs: Seq<CamEvent>,
) -> CamState
    decreases evs.len(),
{
    if evs.len() == 0 {
        st
    } else {
        step_spec(
            cfg,
            run_spec(cfg, st, window_w_px, window_h_px, evs.drop_last()),
            window_w_px,
            window_h_px,
            evs.last(),
        )
    }
}

/// After any finite sequence of pan and zoom ticks with both bound
/// pairs set, the viewport rectangle is a subset of the bounds
/// rectangle — provided the window fits the machine's scale range and
/// the starting viewport already fits and sits inside the bounds.
pub proof fn lemma_run_viewport_within(
    cfg: CamConfig,
    st: CamState,
    window_w_px: int,
    window_h_px: int,
    evs: Seq<CamEvent>,
)
    requires
        cfg.wf(),
        cfg.bounded_x(),
        cfg.bounded_y(),
        1 <= window_w_px <= WINDOW_LIMIT,
        1 <= window_h_px <= WINDOW_LIMIT,
        cfg.max_x->Some_0 - cfg.min_x->Some_0 <= window_w_px * CAM_SCALE_LIMIT as int,
        cfg.max_y->Some_0 - cfg.min_y->Some_0 <= window_h_px * CAM_SCALE_LIMIT as int,
        cam_inv(cfg, st, window_w_px, window_h_px),
    ensures
        cam_inv(cfg, run_spec(cfg, st, window_w_px, window_h_px, evs), window_w_px, window_h_px),
        viewport_within_spec(
            cfg,
            run_spec(cfg, st, window_w_px, window_h_px, evs),
            window_w_px,
            window_h_px,
        ),
    decreases evs.len(),
{
    if evs.len() > 0 {
        lemma_run_viewport_within(cfg, st, window_w_px, window_h_px, evs.drop_last());
        let mid = run_spec(cfg, st, window_w_px, window_h_px, evs.drop_last());
        match evs.last() {
            CamEvent::Pan { dx_mpx, dy_mpx } => {
                if cfg.enabled {
                    lemma_pan_preserves_inv(
                        cfg,
                        mid,
                        window_w_px,
                        window_h_px,
                        dx_mpx as int,
                        dy_mpx as int,
                    );
                }
            },
            CamEvent::Zoom { scroll_mpx, cursor } => {
                if cfg.enabled && scroll_mpx != 0 {
                    lemma_zoom_establishes_inv(
                        cfg,
                        mid,
                        window_w_px,
                        window_h_px,
                        scroll_mpx as int,
                        cursor,
                    );
                }
            },
        }
    }
}

/// Runs a whole sequence of pan and zoom ticks in order. With both
/// bound pairs set, a starting state whose viewport fits and sits
/// inside them, and a window the bounds fit, the viewport is inside the
/// bounds when the sequence ends — and, since the invariant holds again
/// after every single tick, at every point in between.
pub fn apply_events(
    cfg: &CamConfig,
    state: &mut CamState,
    window_w_px: i64,
    window_h_px: i64,
    events: &Vec<CamEvent>,
)
    requires
        cfg.wf(),
        cfg.bounded_x(),
        cfg.bounded_y(),
        1 <= window_w_px <= WINDOW_LIMIT,
        1 <= window_h_px <= WINDOW_LIMIT,
        cfg.max_x->Some_0 - cfg.min_x->Some_0 <= window_w_px as int * CAM_SCALE_LIMIT as int,
        cfg.max_y->Some_0 - cfg.min_y->Some_0 <= window_h_px as int * CAM_SCALE_LIMIT as int,
        cam_inv(*cfg, *old(state), window_w_px as int, window_h_px as int),
        forall|i: int|
            0 <= i < events@.len() ==> event_ok(
                #[trigger] events@[i],
                window_w_px as int,
                window_h_px as int,
            ),
    ensures
        cam_inv(*cfg, *final(state), window_w_px as int, window_h_px as int),
        viewport_within_spec(*cfg, *final(state), window_w_px as int, window_h_px as int),
        *final(state) == run_spec(
            *cfg,
            *old(state),
            window_w_px as int,
            window_h_px as int,
            events@,
        ),
{
    let mut i: usize = 0;
    while i < events.len()
        invariant
            cfg.wf(),
            cfg.bounded_x(),
            cfg.bounded_y(),
            1 <= window_w_px <= WINDOW_LIMIT,
            1 <= window_h_px <= WINDOW_LIMIT,
            cfg.max_x->Some_0 - cfg.min_x->Some_0 <= window_w_px as int
                * CAM_SCALE_LIMIT as int,
            cfg.max_y->Some_0 - cfg.min_y->Some_0 <= window_h_px as int
                * CAM_SCALE_LIMIT as int,
            i <= events@.len(),
            cam_inv(*cfg, *state, window_w_px as int, window_h_px as int),
            *state == run_spec(
                *cfg,
                *old(state),
                window_w_px as int,
                window_h_px as int,
                events@.take(i as int),
            ),
            forall|j: int|
                0 <= j < events@.len() ==> event_ok(
                    #[trigger] events@[j],
                    window_w_px as int,
                    window_h_px as int,
                ),
        decreases events@.len() - i,
    {
        let ghost before = *state;
        proof {
            assert(events@.take(i as int + 1).drop_last() =~= events@.take(i as int));
            assert(events@.take(i as int + 1).last() == events@[i as int]);
        }
        let e = events[i];
        match e {
            CamEvent::Pan { dx_mpx, dy_mpx } => {
                camera_movement(cfg, state, window_w_px, window_h_px, dx_mpx, dy_mpx);
                proof {
                    if cfg.enabled {
                        lemma_pan_preserves_inv(
                            *cfg,
                            before,
                            window_w_px as int,
                            window_h_px as int,
                            dx_mpx as int,
                            dy_mpx as int,
                        );
                    }
                }
            },
            CamEvent::Zoom { scroll_mpx, cursor } => {
                camera_zoom(cfg, state, window_w_px, window_h_px, scroll_mpx, cursor);
                proof {
                    if cfg.enabled && scroll_mpx != 0 {
                        lemma_zoom_establishes_inv(
                            *cfg,
                            before,
                            window_w_px as int,
                            window_h_px as int,
                            scroll_mpx as int,
                            cursor,
                        );
                    }
                }
            },
        }
        i = i + 1;
    }
    proof {
        assert(events@.take(events@.len() as int) =~= events@);
    }
}

} // verus!
