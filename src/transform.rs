//! Positions in window, world and tile space, the camera that relates them,
//! and the mapping from one space to the other.
use vstd::prelude::*;

verus! {

/// Millionths of a world unit in one world unit.
pub const WORLD_UNIT: i64 = 1_000_000;

/// Thousandths of a pixel in one pixel.
pub const PIXEL_UNIT: i64 = 1000;

/// Side of a grid tile: 50 world units.
pub const TILE_SIZE: i64 = 50_000_000;

/// Half the side of a grid tile.
pub const HALF_TILE: i64 = 25_000_000;

/// The camera scale, in thousandths, stays strictly above this (0.1).
pub const MIN_SCALE: i64 = 100;

/// The camera scale, in thousandths, stays strictly below this (10.0).
pub const MAX_SCALE: i64 = 10_000;

/// Bound on each coordinate of the camera position.
pub const CAMERA_LIMIT: i64 = 100_000_000_000_000_000;

/// Bound on each coordinate of a pawn or a movement target.
/// It is a multiple of `TILE_SIZE`, so rounding to a tile stays inside.
pub const WORLD_LIMIT: i64 = 1_000_000_000_000_000_000;

/// A point in world space, in millionths of a world unit; y grows upward.
#[derive(Clone, Copy, Debug, PartialEq, Eq, Structural)]
pub struct WorldPos {
    pub x: i64,
    pub y: i64,
}

/// A point in window space, in thousandths of a pixel from the top-left
/// corner; y grows downward.
#[derive(Clone, Copy, Debug, PartialEq, Eq, Structural)]
pub struct WindowPos {
    pub x: i64,
    pub y: i64,
}

/// The index of a grid tile.
#[derive(Clone, Copy, Debug, PartialEq, Eq, Structural)]
pub struct TileCoord {
    pub x: i64,
    pub y: i64,
}

/// The window's size in whole pixels.
#[derive(Clone, Copy, Debug, PartialEq, Eq, Structural)]
pub struct Viewport {
    pub width: u32,
    pub height: u32,
}

/// The camera: its translation in world space and its zoom scale in
/// thousandths (world units per pixel; smaller is closer).
#[derive(Clone, Copy, Debug, PartialEq, Eq, Structural)]
pub struct Camera {
    pub position: WorldPos,
    pub scale: i64,
}

/// `v` lies within `[-limit, limit]`.
pub open spec fn in_range(v: int, limit: int) -> bool {
    -limit <= v <= limit
}

impl WorldPos {
    /// Both coordinates lie within `WORLD_LIMIT`.
    pub open spec fn in_world(self) -> bool {
        in_range(self.x as int, WORLD_LIMIT as int) && in_range(self.y as int, WORLD_LIMIT as int)
    }

    /// Whether both coordinates lie within `WORLD_LIMIT`.
    pub fn within_world(&self) -> (r: bool)
        ensures
            r == self.in_world(),
    {
        -WORLD_LIMIT <= self.x && self.x <= WORLD_LIMIT && -WORLD_LIMIT <= self.y && self.y
            <= WORLD_LIMIT
    }
}

impl Camera {
    /// The scale lies strictly between the zoom bounds and the position
    /// within `CAMERA_LIMIT`.
    pub open spec fn wf(self) -> bool {
        MIN_SCALE < self.scale < MAX_SCALE && in_range(self.position.x as int, CAMERA_LIMIT as int)
            && in_range(self.position.y as int, CAMERA_LIMIT as int)
    }
}

impl Viewport {
    /// The point lies inside the window, edges included.
    pub open spec fn holds(self, p: WindowPos) -> bool {
        0 <= p.x <= self.width * PIXEL_UNIT && 0 <= p.y <= self.height * PIXEL_UNIT
    }

    /// Whether the point lies inside the window, edges included.
    pub fn contains(&self, p: WindowPos) -> (r: bool)
        ensures
            r == self.holds(p),
    {
        0 <= p.x && p.x <= (self.width as i64) * PIXEL_UNIT && 0 <= p.y && p.y <= (self.height
            as i64) * PIXEL_UNIT
    }
}

/// World x under window x: `c.x + s * (p.x - width / 2)`.
pub open spec fn world_x_of(vp: Viewport, cam: Camera, px: int) -> int {
    cam.position.x + cam.scale * (px - vp.width * (PIXEL_UNIT / 2))
}

/// World y under window y: `c.y + s * (height / 2 - p.y)` (window y grows downward).
pub open spec fn world_y_of(vp: Viewport, cam: Camera, py: int) -> int {
    cam.position.y + cam.scale * (vp.height * (PIXEL_UNIT / 2) - py)
}

/// Window x over world x, the inverse of `world_x_of` (rounded down).
pub open spec fn window_x_of(vp: Viewport, cam: Camera, wx: int) -> int {
    (wx - cam.position.x) / (cam.scale as int) + vp.width * (PIXEL_UNIT / 2)
}

/// Window y over world y, the inverse of `world_y_of` (rounded down).
pub open spec fn window_y_of(vp: Viewport, cam: Camera, wy: int) -> int {
    vp.height * (PIXEL_UNIT / 2) - (wy - cam.position.y) / (cam.scale as int)
}

proof fn lemma_scaled_offset_bound(s: int, d: int, half: int)
    requires
        0 < s < MAX_SCALE,
        -half <= d <= half,
        0 <= half <= 0x1_0000_0000int * (PIXEL_UNIT as int),
    ensures
        -(MAX_SCALE as int) * 0x1_0000_0000int * (PIXEL_UNIT as int) <= s * d <= (MAX_SCALE as int)
            * 0x1_0000_0000int * (PIXEL_UNIT as int),
{
    assert(-(s * half) <= s * d <= s * half) by (nonlinear_arith)
        requires
            0 < s,
            -half <= d <= half,
    ;
    assert(s * half <= (MAX_SCALE as int) * (0x1_0000_0000int * (PIXEL_UNIT as int)))
        by (nonlinear_arith)
        requires
            0 < s < MAX_SCALE,
            0 <= half <= 0x1_0000_0000int * (PIXEL_UNIT as int),
    ;
}

/// The world position under a window position inside the window lies
/// within `WORLD_LIMIT`.
pub proof fn lemma_world_in_range(vp: Viewport, cam: Camera, p: WindowPos)
    requires
        cam.wf(),
        vp.holds(p),
    ensures
        in_range(world_x_of(vp, cam, p.x as int), WORLD_LIMIT as int),
        in_range(world_y_of(vp, cam, p.y as int), WORLD_LIMIT as int),
{
    assert(PIXEL_UNIT / 2 == 500);
    assert(vp.width <= 0xffff_ffffint && vp.height <= 0xffff_ffffint);
    assert(0 <= p.x <= vp.width * 1000 && 0 <= p.y <= vp.height * 1000);
    lemma_scaled_offset_bound(
        cam.scale as int,
        p.x - vp.width * (PIXEL_UNIT / 2),
        vp.width * (PIXEL_UNIT / 2),
    );
    lemma_scaled_offset_bound(
        cam.scale as int,
        vp.height * (PIXEL_UNIT / 2) - p.y,
        vp.height * (PIXEL_UNIT / 2),
    );
}

/// The world position under a window position.
pub fn window_to_world(vp: &Viewport, cam: &Camera, p: WindowPos) -> (r: WorldPos)
    requires
        cam.wf(),
        vp.holds(p),
    ensures
        r.x == world_x_of(*vp, *cam, p.x as int),
        r.y == world_y_of(*vp, *cam, p.y as int),
        r.in_world(),
{
    let dx: i64 = p.x - (vp.width as i64) * (PIXEL_UNIT / 2);
    let dy: i64 = (vp.height as i64) * (PIXEL_UNIT / 2) - p.y;
    proof {
        lemma_scaled_offset_bound(cam.scale as int, dx as int, vp.width * (PIXEL_UNIT / 2));
        lemma_scaled_offset_bound(cam.scale as int, dy as int, vp.height * (PIXEL_UNIT / 2));
    }
    WorldPos { x: cam.position.x + cam.scale * dx, y: cam.position.y + cam.scale * dy }
}

/// `a / b` rounded toward negative infinity, for a positive `b`.
fn floor_div(a: i64, b: i64) -> (r: i64)
    requires
        b > 0,
        a > i64::MIN,
    ensures
        r == a / b,
{
    if a >= 0 {
        ((a as u64) / (b as u64)) as i64
    } else {
        let n: u64 = (-a) as u64;
        let q: u64 = n / (b as u64);
        let m: u64 = n % (b as u64);
        proof {
            lemma_floor_of_negative(a as int, b as int, q as int, m as int);
        }
        if m == 0 {
            -(q as i64)
        } else {
            -(q as i64) - 1
        }
    }
}

proof fn lemma_floor_of_negative(a: int, b: int, q: int, m: int)
    requires
        a < 0,
        b > 0,
        q == (-a) / b,
        m == (-a) % b,
    ensures
        m == 0 ==> a / b == -q,
        m != 0 ==> a / b == -q - 1,
        0 <= q <= -a,
{
    vstd::arithmetic::div_mod::lemma_fundamental_div_mod(-a, b);
    vstd::arithmetic::div_mod::lemma_div_pos_is_pos(-a, b);
    vstd::arithmetic::div_mod::lemma_div_is_ordered_by_denominator(-a, 1, b);
    assert(-a == b * q + m);
    assert(a == (-q) * b + 0 - m) by (nonlinear_arith)
        requires
            -a == b * q + m,
    ;
    assert(a == (-q - 1) * b + (b - m)) by (nonlinear_arith)
        requires
            -a == b * q + m,
    ;
    if m == 0 {
        vstd::arithmetic::div_mod::lemma_fundamental_div_mod_converse(a, b, -q, 0);
    } else {
        vstd::arithmetic::div_mod::lemma_fundamental_div_mod_converse(a, b, -q - 1, b - m);
    }
}

/// The window position over a world position (rounded down where the
/// world position falls between two window positions).
pub fn world_to_window(vp: &Viewport, cam: &Camera, w: WorldPos) -> (r: WindowPos)
    requires
        cam.wf(),
        w.in_world(),
    ensures
        r.x == window_x_of(*vp, *cam, w.x as int),
        r.y == window_y_of(*vp, *cam, w.y as int),
{
    let qx: i64 = floor_div(w.x - cam.position.x, cam.scale);
    let qy: i64 = floor_div(w.y - cam.position.y, cam.scale);
    proof {
        vstd::arithmetic::div_mod::lemma_div_is_ordered(
            (w.x - cam.position.x) as int,
            (WORLD_LIMIT + CAMERA_LIMIT) as int,
            cam.scale as int,
        );
        vstd::arithmetic::div_mod::lemma_div_is_ordered(
            -(WORLD_LIMIT + CAMERA_LIMIT) as int,
            (w.x - cam.position.x) as int,
            cam.scale as int,
        );
        vstd::arithmetic::div_mod::lemma_div_is_ordered(
            (w.y - cam.position.y) as int,
            (WORLD_LIMIT + CAMERA_LIMIT) as int,
            cam.scale as int,
        );
        vstd::arithmetic::div_mod::lemma_div_is_ordered(
            -(WORLD_LIMIT + CAMERA_LIMIT) as int,
            (w.y - cam.position.y) as int,
            cam.scale as int,
        );
        vstd::arithmetic::div_mod::lemma_div_is_ordered_by_denominator(
            (WORLD_LIMIT + CAMERA_LIMIT) as int,
            1,
            cam.scale as int,
        );
        lemma_floor_div_neg_bound((WORLD_LIMIT + CAMERA_LIMIT) as int, cam.scale as int);
    }
    WindowPos {
        x: qx + (vp.width as i64) * (PIXEL_UNIT / 2),
        y: (vp.height as i64) * (PIXEL_UNIT / 2) - qy,
    }
}

proof fn lemma_floor_div_neg_bound(n: int, s: int)
    requires
        n >= 0,
        s >= 1,
    ensures
        (-n) / s >= -n,
{
    vstd::arithmetic::div_mod::lemma_fundamental_div_mod(-n, s);
    vstd::arithmetic::div_mod::lemma_mod_bound(-n, s);
    assert((-n) / s >= -n) by (nonlinear_arith)
        requires
            -n == s * ((-n) / s) + (-n) % s,
            0 <= (-n) % s < s,
            s >= 1,
            n >= 0,
    ;
}

/// Converting a window position to world space and back gives the same
/// window position.
pub proof fn lemma_window_world_round_trip(vp: Viewport, cam: Camera, p: WindowPos)
    requires
        cam.wf(),
    ensures
        window_x_of(vp, cam, world_x_of(vp, cam, p.x as int)) == p.x,
        window_y_of(vp, cam, world_y_of(vp, cam, p.y as int)) == p.y,
{
    let s = cam.scale as int;
    vstd::arithmetic::div_mod::lemma_div_multiples_vanish(p.x - vp.width * (PIXEL_UNIT / 2), s);
    vstd::arithmetic::div_mod::lemma_div_multiples_vanish(vp.height * (PIXEL_UNIT / 2) - p.y, s);
}

/// `v / t` rounded to the nearest integer, halves away from zero.
pub open spec fn round_div(v: int, t: int) -> int {
    if v >= 0 {
        (v + t / 2) / t
    } else {
        -((-v + t / 2) / t)
    }
}

/// The index of the tile whose center is nearest to world coordinate `v`.
pub open spec fn tile_index(v: int) -> int {
    round_div(v, TILE_SIZE as int)
}

/// World coordinate `v` moved to the center of its tile.
pub open spec fn tile_round(v: int) -> int {
    tile_index(v) * TILE_SIZE
}

/// Number of tiles between the origin and `WORLD_LIMIT`.
pub open spec fn tile_limit() -> int {
    WORLD_LIMIT / TILE_SIZE
}

proof fn lemma_round_index_bound(v: int)
    requires
        in_range(v, WORLD_LIMIT as int),
    ensures
        in_range(tile_index(v), tile_limit()),
{
    let t = TILE_SIZE as int;
    let l = WORLD_LIMIT as int;
    vstd::arithmetic::div_mod::lemma_div_multiples_vanish_fancy(tile_limit(), HALF_TILE as int, t);
    if v >= 0 {
        vstd::arithmetic::div_mod::lemma_div_is_ordered(v + t / 2, l + t / 2, t);
        vstd::arithmetic::div_mod::lemma_div_is_ordered(0, v + t / 2, t);
    } else {
        vstd::arithmetic::div_mod::lemma_div_is_ordered(-v + t / 2, l + t / 2, t);
        vstd::arithmetic::div_mod::lemma_div_is_ordered(0, -v + t / 2, t);
    }
}

/// The index of the tile nearest to one world coordinate.
fn round_to_tile(v: i64) -> (r: i64)
    requires
        in_range(v as int, WORLD_LIMIT as int),
    ensures
        r == tile_index(v as int),
        in_range(r as int, tile_limit()),
{
    proof {
        lemma_round_index_bound(v as int);
    }
    if v >= 0 {
        ((v as u64 + HALF_TILE as u64) / TILE_SIZE as u64) as i64
    } else {
        -((((-v) as u64 + HALF_TILE as u64) / TILE_SIZE as u64) as i64)
    }
}

/// The tile under a world position.
pub fn tile_of(w: WorldPos) -> (r: TileCoord)
    requires
        w.in_world(),
    ensures
        r.x == tile_index(w.x as int),
        r.y == tile_index(w.y as int),
{
    TileCoord { x: round_to_tile(w.x), y: round_to_tile(w.y) }
}

/// The center of a tile in world space.
pub fn tile_center(t: TileCoord) -> (r: WorldPos)
    requires
        in_range(t.x as int, tile_limit()),
        in_range(t.y as int, tile_limit()),
    ensures
        r.x == t.x * TILE_SIZE,
        r.y == t.y * TILE_SIZE,
        r.in_world(),
{
    WorldPos { x: t.x * TILE_SIZE, y: t.y * TILE_SIZE }
}

/// A world position moved to the center of its tile.
pub fn snap_to_tile(w: WorldPos) -> (r: WorldPos)
    requires
        w.in_world(),
    ensures
        r.x == tile_round(w.x as int),
        r.y == tile_round(w.y as int),
        r.in_world(),
{
    tile_center(tile_of(w))
}

/// The tile index of a tile center is that tile.
pub proof fn lemma_tile_index_of_center(k: int)
    ensures
        tile_index(k * TILE_SIZE) == k,
{
    let t = TILE_SIZE as int;
    if k >= 0 {
        assert(k * t >= 0) by (nonlinear_arith)
            requires
                k >= 0,
                t > 0,
        ;
        vstd::arithmetic::div_mod::lemma_div_multiples_vanish_fancy(k, t / 2, t);
        assert(t * k == k * t) by (nonlinear_arith);
    } else {
        assert(k * t < 0) by (nonlinear_arith)
            requires
                k < 0,
                t > 0,
        ;
        vstd::arithmetic::div_mod::lemma_div_multiples_vanish_fancy(-k, t / 2, t);
        assert(t * (-k) == -(k * t)) by (nonlinear_arith);
    }
}

/// Rounding to a tile center twice is rounding once.
pub proof fn lemma_tile_round_idempotent(v: int)
    ensures
        tile_round(tile_round(v)) == tile_round(v),
{
    lemma_tile_index_of_center(tile_index(v));
}

} // verus!
