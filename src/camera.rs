//! Camera navigation: panning with direction keys, dragging the world
//! under the pointer, and zooming with the scroll wheel inside fixed bounds.
use vstd::prelude::*;

use crate::arith::{ceil_div, clamp, isqrt, sqrt_floor};
use crate::motion::MICROS_PER_SECOND;
use crate::transform::{
    in_range, world_x_of, world_y_of, Camera, Viewport, WindowPos, WorldPos, CAMERA_LIMIT,
    MAX_SCALE, MIN_SCALE, WORLD_LIMIT,
};

verus! {

/// Factor on pan and zoom speed while the fast modifier is held.
pub const FAST_MULTIPLIER: u64 = 10;

/// Weight of a scroll event counted in lines against one counted in pixels.
pub const LINE_SCROLL_FACTOR: u64 = 20;

/// An amount in thousandths of a scroll unit, times a zoom speed in
/// thousandths of scale per unit and second, times a time in microseconds,
/// divided by this, is a change in thousandths of scale.
pub const ZOOM_DIVISOR: u128 = 1_000_000_000;

/// Navigation speeds.
#[derive(Clone, Copy, Debug, PartialEq, Eq, Structural)]
pub struct Settings {
    /// Pan speed in millionths of a world unit per second.
    pub camera_move_speed: u32,
    /// Zoom speed in thousandths of scale per scroll unit and second.
    pub camera_zoom_speed: u32,
}

impl Default for Settings {
    /// Pan at 100 world units per second, zoom at 0.1 per scroll unit and second.
    fn default() -> (r: Settings)
        ensures
            r == (Settings { camera_move_speed: 100_000_000, camera_zoom_speed: 100 }),
    {
        Settings { camera_move_speed: 100_000_000, camera_zoom_speed: 100 }
    }
}

/// Which of the four direction keys are held.
#[derive(Clone, Copy, Debug, PartialEq, Eq, Structural)]
pub struct DirectionKeys {
    pub up: bool,
    pub down: bool,
    pub left: bool,
    pub right: bool,
}

/// How a scroll amount is counted.
#[derive(Clone, Copy, Debug, PartialEq, Eq, Structural)]
pub enum ScrollUnit {
    Line,
    Pixel,
}

/// One scroll event: an amount in thousandths of its unit, positive away
/// from the user (zooming in).
#[derive(Clone, Copy, Debug, PartialEq, Eq, Structural)]
pub struct ScrollEvent {
    pub amount: i32,
    pub unit: ScrollUnit,
}

/// `1` if only `pos` is held, `-1` if only `neg` is, else `0`.
pub open spec fn axis_sign(pos: bool, neg: bool) -> int {
    (if pos {
        1int
    } else {
        0int
    }) - (if neg {
        1int
    } else {
        0int
    })
}

/// Factor on speed: `FAST_MULTIPLIER` while the fast modifier is held.
pub open spec fn speed_factor(fast: bool) -> int {
    if fast {
        FAST_MULTIPLIER as int
    } else {
        1
    }
}

/// Distance panned in `elapsed` microseconds, in millionths of a world unit.
pub open spec fn pan_length(settings: Settings, fast: bool, elapsed: int) -> int {
    settings.camera_move_speed * speed_factor(fast) * elapsed / MICROS_PER_SECOND as int
}

/// Offset along one axis for a pan of length `len`: a single held axis
/// moves by `len`; two held axes move by `len / sqrt(2)` each (rounded
/// down), so the diagonal is as fast as a straight pan.
pub open spec fn pan_axis(sign: int, other: int, len: int) -> int {
    if other == 0 {
        sign * len
    } else {
        sign * sqrt_floor(len * len / 2)
    }
}

/// The camera moved by an offset, each coordinate held within `CAMERA_LIMIT`.
pub open spec fn moved(cam: Camera, dx: int, dy: int) -> Camera {
    Camera {
        position: WorldPos {
            x: clamp(cam.position.x + dx, CAMERA_LIMIT as int) as i64,
            y: clamp(cam.position.y + dy, CAMERA_LIMIT as int) as i64,
        },
        scale: cam.scale,
    }
}

/// The camera after a key pan of `elapsed` microseconds.
pub open spec fn key_panned(
    cam: Camera,
    keys: DirectionKeys,
    fast: bool,
    settings: Settings,
    elapsed: int,
) -> Camera {
    let sx = axis_sign(keys.right, keys.left);
    let sy = axis_sign(keys.up, keys.down);
    let len = pan_length(settings, fast, elapsed);
    moved(cam, pan_axis(sx, sy, len), pan_axis(sy, sx, len))
}

/// The camera after a drag: moved by `anchor - current`.
pub open spec fn dragged(cam: Camera, anchor: WorldPos, current: WorldPos) -> Camera {
    moved(cam, anchor.x - current.x, anchor.y - current.y)
}

/// `a / b` rounded away from zero, for a positive `b`.
pub open spec fn div_away_from_zero(a: int, b: int) -> int {
    if a >= 0 {
        ceil_div(a, b)
    } else {
        -ceil_div(-a, b)
    }
}

/// Weight of a scroll unit: `LINE_SCROLL_FACTOR` for lines, 1 for pixels.
pub open spec fn unit_factor(unit: ScrollUnit) -> int {
    match unit {
        ScrollUnit::Line => LINE_SCROLL_FACTOR as int,
        ScrollUnit::Pixel => 1,
    }
}

/// Signed change of scale, in thousandths, asked for by one scroll event:
/// amount times zoom speed times the fast factor times the unit's weight
/// times the elapsed time, rounded away from zero so that every nonzero
/// scroll asks for a change.
pub open spec fn zoom_change(ev: ScrollEvent, settings: Settings, fast: bool, elapsed: int) -> int {
    div_away_from_zero(
        ev.amount * settings.camera_zoom_speed * speed_factor(fast) * unit_factor(ev.unit)
            * elapsed,
        ZOOM_DIVISOR as int,
    )
}

/// The scale after a change: `scale - change` where that lies strictly
/// inside the zoom bounds, else `scale` unchanged.
pub open spec fn zoomed(scale: int, change: int) -> int {
    if MIN_SCALE < scale - change < MAX_SCALE {
        scale - change
    } else {
        scale
    }
}

/// Whenever the zoom speed and elapsed time are nonzero, a scroll away from
/// the user asks for a positive change, one toward the user for a negative
/// change, and no scroll for none; so a scroll that is applied to `scale`
/// zooms in (lowers the scale) or out (raises it) accordingly.
pub proof fn lemma_scroll_direction(
    ev: ScrollEvent,
    settings: Settings,
    fast: bool,
    elapsed: int,
    scale: int,
)
    requires
        settings.camera_zoom_speed > 0,
        elapsed > 0,
    ensures
        ev.amount > 0 ==> zoom_change(ev, settings, fast, elapsed) >= 1,
        ev.amount < 0 ==> zoom_change(ev, settings, fast, elapsed) <= -1,
        ev.amount == 0 ==> zoom_change(ev, settings, fast, elapsed) == 0,
        ({
            let c = zoom_change(ev, settings, fast, elapsed);
            MIN_SCALE < scale - c < MAX_SCALE ==> {
                &&& ev.amount > 0 ==> zoomed(scale, c) < scale
                &&& ev.amount < 0 ==> zoomed(scale, c) > scale
                &&& ev.amount == 0 ==> zoomed(scale, c) == scale
            }
        }),
{
    let k = settings.camera_zoom_speed * speed_factor(fast) * unit_factor(ev.unit) * elapsed;
    let a = ev.amount * settings.camera_zoom_speed * speed_factor(fast) * unit_factor(ev.unit)
        * elapsed;
    let b = ZOOM_DIVISOR as int;
    assert(k >= 1) by (nonlinear_arith)
        requires
            k == settings.camera_zoom_speed * speed_factor(fast) * unit_factor(ev.unit) * elapsed,
            settings.camera_zoom_speed >= 1,
            speed_factor(fast) >= 1,
            unit_factor(ev.unit) >= 1,
            elapsed >= 1,
    ;
    assert(a == ev.amount * k) by (nonlinear_arith)
        requires
            a == ev.amount * settings.camera_zoom_speed * speed_factor(fast) * unit_factor(ev.unit)
                * elapsed,
            k == settings.camera_zoom_speed * speed_factor(fast) * unit_factor(ev.unit) * elapsed,
    ;
    assert(ev.amount > 0 ==> a >= 1) by (nonlinear_arith)
        requires
            a == ev.amount * k,
            k >= 1,
    ;
    assert(ev.amount < 0 ==> -a >= 1) by (nonlinear_arith)
        requires
            a == ev.amount * k,
            k >= 1,
    ;
    if ev.amount > 0 {
        vstd::arithmetic::div_mod::lemma_div_is_ordered(b, a + b - 1, b);
        vstd::arithmetic::div_mod::lemma_div_multiples_vanish_fancy(1, 0, b);
    } else if ev.amount < 0 {
        vstd::arithmetic::div_mod::lemma_div_is_ordered(b, -a + b - 1, b);
        vstd::arithmetic::div_mod::lemma_div_multiples_vanish_fancy(1, 0, b);
    } else {
        assert(a == 0) by (nonlinear_arith)
            requires
                a == ev.amount * k,
                ev.amount == 0,
        ;
        vstd::arithmetic::div_mod::lemma_div_multiples_vanish_fancy(0, b - 1, b);
    }
}

/// The scale after a sequence of changes, in order.
pub open spec fn zoomed_all(scale: int, changes: Seq<int>) -> int
    decreases changes.len(),
{
    if changes.len() == 0 {
        scale
    } else {
        zoomed_all(zoomed(scale, changes[0]), changes.drop_first())
    }
}

/// The change asked for by each event, in order.
pub open spec fn zoom_changes(
    events: Seq<ScrollEvent>,
    settings: Settings,
    fast: bool,
    elapsed: int,
) -> Seq<int> {
    events.map_values(|ev: ScrollEvent| zoom_change(ev, settings, fast, elapsed))
}

/// A scale inside the bounds stays inside them after any sequence of changes.
pub proof fn lemma_zoom_stays_in_bounds(scale: int, changes: Seq<int>)
    requires
        MIN_SCALE < scale < MAX_SCALE,
    ensures
        MIN_SCALE < zoomed_all(scale, changes) < MAX_SCALE,
    decreases changes.len(),
{
    if changes.len() > 0 {
        lemma_zoom_stays_in_bounds(zoomed(scale, changes[0]), changes.drop_first());
    }
}

proof fn lemma_zoomed_all_push(scale: int, changes: Seq<int>, c: int)
    ensures
        zoomed_all(scale, changes.push(c)) == zoomed(zoomed_all(scale, changes), c),
    decreases changes.len(),
{
    if changes.len() > 0 {
        assert(changes.push(c).drop_first() =~= changes.drop_first().push(c));
        assert(changes.push(c)[0] == changes[0]);
        lemma_zoomed_all_push(zoomed(scale, changes[0]), changes.drop_first(), c);
    } else {
        assert(changes.push(c).drop_first() =~= Seq::<int>::empty());
        assert(changes.push(c)[0] == c);
        assert(zoomed_all(zoomed(scale, c), Seq::<int>::empty()) == zoomed(scale, c));
    }
}

/// Offset along one axis for a pan of length `len`.
fn pan_axis_exec(sign: i64, other: i64, len: u64) -> (r: i64)
    requires
        -1 <= sign <= 1,
        len <= MAX_PAN,
    ensures
        r == pan_axis(sign as int, other as int, len as int),
        in_range(r as int, len as int),
{
    assert(-(len as int) <= sign * len <= len) by (nonlinear_arith)
        requires
            -1 <= sign <= 1,
            len >= 0,
    ;
    if other == 0 {
        sign * (len as i64)
    } else {
        assert(len * len <= MAX_PAN * MAX_PAN) by (nonlinear_arith)
            requires
                len <= MAX_PAN,
        ;
        let m: u128 = isqrt((len as u128) * (len as u128) / 2);
        assert(m <= len) by (nonlinear_arith)
            requires
                m * m <= len * len / 2,
                m >= 0,
                len >= 0,
        ;
        assert(-(m as int) <= sign * m <= m) by (nonlinear_arith)
            requires
                -1 <= sign <= 1,
                m >= 0,
        ;
        sign * (m as i64)
    }
}

/// Bound on a pan length: the largest speed, fast factor and elapsed time.
pub const MAX_PAN: u64 = 200_000_000_000_000;

/// Whether a key is held, as 1 or 0.
fn held(b: bool) -> (r: i64)
    ensures
        r == (if b {
            1int
        } else {
            0int
        }),
{
    if b {
        1
    } else {
        0
    }
}

impl Camera {
    /// Move the camera by an offset, each coordinate held within
    /// `CAMERA_LIMIT`.
    pub fn move_by(&mut self, dx: i64, dy: i64)
        requires
            old(self).wf(),
            in_range(dx as int, 2 * WORLD_LIMIT),
            in_range(dy as int, 2 * WORLD_LIMIT),
        ensures
            *final(self) == moved(*old(self), dx as int, dy as int),
            final(self).wf(),
    {
        self.position = WorldPos {
            x: clamp_camera(self.position.x + dx),
            y: clamp_camera(self.position.y + dy),
        };
    }

    /// Pan with the direction keys for `elapsed_us` microseconds.
    pub fn pan(&mut self, keys: DirectionKeys, fast: bool, settings: &Settings, elapsed_us: u32)
        requires
            old(self).wf(),
        ensures
            *final(self) == key_panned(*old(self), keys, fast, *settings, elapsed_us as int),
            final(self).wf(),
    {
        let factor: u128 = if fast {
            FAST_MULTIPLIER as u128
        } else {
            1
        };
        let speed: u128 = settings.camera_move_speed as u128;
        assert(speed * factor <= 0xffff_ffffint * 10 && speed * factor * elapsed_us
            <= 0xffff_ffffint * 10 * 0xffff_ffffint) by (nonlinear_arith)
            requires
                factor <= 10,
                speed <= 0xffff_ffffint,
                elapsed_us <= 0xffff_ffffint,
        ;
        let total: u128 = speed * factor * (elapsed_us as u128);
        proof {
            vstd::arithmetic::div_mod::lemma_div_is_ordered(
                total as int,
                0xffff_ffffint * 10 * 0xffff_ffffint,
                MICROS_PER_SECOND as int,
            );
        }
        let len: u64 = (total / (MICROS_PER_SECOND as u128)) as u64;
        let sx: i64 = held(keys.right) - held(keys.left);
        let sy: i64 = held(keys.up) - held(keys.down);
        let dx: i64 = pan_axis_exec(sx, sy, len);
        let dy: i64 = pan_axis_exec(sy, sx, len);
        self.move_by(dx, dy);
    }

    /// Drag the world: move the camera by `anchor - current`, so that the
    /// world position `anchor` comes under the pointer that was over
    /// `current`.
    pub fn drag(&mut self, anchor: WorldPos, current: WorldPos)
        requires
            old(self).wf(),
            anchor.in_world(),
            current.in_world(),
        ensures
            *final(self) == dragged(*old(self), anchor, current),
            final(self).wf(),
    {
        self.move_by(anchor.x - current.x, anchor.y - current.y);
    }

    /// Apply the scroll events of one frame in order; a change that would
    /// take the scale out of its bounds is dropped whole.
    pub fn zoom(
        &mut self,
        events: &Vec<ScrollEvent>,
        fast: bool,
        settings: &Settings,
        elapsed_us: u32,
    )
        requires
            old(self).wf(),
        ensures
            final(self).position == old(self).position,
            final(self).scale == zoomed_all(
                old(self).scale as int,
                zoom_changes(events@, *settings, fast, elapsed_us as int),
            ),
            final(self).wf(),
    {
        let ghost changes = zoom_changes(events@, *settings, fast, elapsed_us as int);
        let ghost start = self.scale as int;
        let mut i: usize = 0;
        while i < events.len()
            invariant
                i <= events.len(),
                self.wf(),
                self.position == old(self).position,
                changes == zoom_changes(events@, *settings, fast, elapsed_us as int),
                self.scale == zoomed_all(start, changes.take(i as int)),
            decreases events.len() - i,
        {
            let change: i128 = scroll_change(&events[i], settings, fast, elapsed_us);
            let next: i128 = self.scale as i128 - change;
            if (MIN_SCALE as i128) < next && next < (MAX_SCALE as i128) {
                self.scale = next as i64;
            }
            proof {
                assert(changes.take(i + 1) =~= changes.take(i as int).push(changes[i as int]));
                lemma_zoomed_all_push(start, changes.take(i as int), changes[i as int]);
            }
            i = i + 1;
        }
        proof {
            assert(changes.take(events.len() as int) =~= changes);
        }
    }
}

/// A coordinate held within `CAMERA_LIMIT`.
fn clamp_camera(v: i64) -> (r: i64)
    ensures
        r == clamp(v as int, CAMERA_LIMIT as int),
{
    if v > CAMERA_LIMIT {
        CAMERA_LIMIT
    } else if v < -CAMERA_LIMIT {
        -CAMERA_LIMIT
    } else {
        v
    }
}

/// Bound on the size of the change asked for by one scroll event.
pub const MAX_ZOOM_CHANGE: i128 = 0x1_0000_0000_0000_0000_0000;

/// The change of scale asked for by one scroll event.
pub fn scroll_change(ev: &ScrollEvent, settings: &Settings, fast: bool, elapsed_us: u32) -> (r:
    i128)
    ensures
        r == zoom_change(*ev, *settings, fast, elapsed_us as int),
        in_range(r as int, MAX_ZOOM_CHANGE as int),
{
    let factor: u128 = if fast {
        FAST_MULTIPLIER as u128
    } else {
        1
    };
    let unit: u128 = match ev.unit {
        ScrollUnit::Line => LINE_SCROLL_FACTOR as u128,
        ScrollUnit::Pixel => 1,
    };
    let magnitude: u128 = if ev.amount >= 0 {
        ev.amount as u128
    } else {
        (-(ev.amount as i64)) as u128
    };
    assert(magnitude * settings.camera_zoom_speed <= 0x8000_0000int * 0xffff_ffffint
        && magnitude * settings.camera_zoom_speed * factor <= 0x8000_0000int * 0xffff_ffffint * 10
        && magnitude * settings.camera_zoom_speed * factor * unit <= 0x8000_0000int
        * 0xffff_ffffint * 10 * 20 && magnitude * settings.camera_zoom_speed * factor * unit
        * elapsed_us <= 0x8000_0000int * 0xffff_ffffint * 10 * 20 * 0xffff_ffffint)
        by (nonlinear_arith)
        requires
            magnitude <= 0x8000_0000int,
            settings.camera_zoom_speed <= 0xffff_ffffint,
            factor <= 10,
            unit <= 20,
            elapsed_us <= 0xffff_ffffint,
    ;
    let q: u128 = (magnitude * (settings.camera_zoom_speed as u128) * factor * unit
        * (elapsed_us as u128) + ZOOM_DIVISOR - 1) / ZOOM_DIVISOR;
    proof {
        let a = ev.amount * settings.camera_zoom_speed * speed_factor(fast) * unit_factor(ev.unit)
            * elapsed_us;
        assert(a == magnitude * settings.camera_zoom_speed * factor * unit * elapsed_us || -a
            == magnitude * settings.camera_zoom_speed * factor * unit * elapsed_us)
            by (nonlinear_arith)
            requires
                a == ev.amount * settings.camera_zoom_speed * factor * unit * elapsed_us,
                magnitude == ev.amount || magnitude == -ev.amount,
        ;
        assert(ev.amount >= 0 ==> a >= 0) by (nonlinear_arith)
            requires
                a == ev.amount * settings.camera_zoom_speed * factor * unit * elapsed_us,
                factor >= 0,
                unit >= 0,
        ;
        assert(ev.amount < 0 ==> a <= 0) by (nonlinear_arith)
            requires
                a == ev.amount * settings.camera_zoom_speed * factor * unit * elapsed_us,
                factor >= 0,
                unit >= 0,
        ;
    }
    proof {
        vstd::arithmetic::div_mod::lemma_div_is_ordered(
            magnitude * settings.camera_zoom_speed * factor * unit * elapsed_us + ZOOM_DIVISOR - 1,
            0x8000_0000int * 0xffff_ffffint * 10 * 20 * 0xffff_ffffint + ZOOM_DIVISOR,
            ZOOM_DIVISOR as int,
        );
    }
    if ev.amount >= 0 {
        q as i128
    } else {
        -(q as i128)
    }
}

/// After a drag from a pointer over `current`, the pointer is over the
/// anchor again, whatever the scale, on each axis where the camera did not
/// meet its bound: the drag moves the camera by `anchor - current`, and the
/// only exception is a camera stopped at `CAMERA_LIMIT` on that axis.
pub proof fn lemma_drag_pins_anchor(vp: Viewport, cam: Camera, p: WindowPos, anchor: WorldPos)
    requires
        cam.wf(),
        vp.holds(p),
        anchor.in_world(),
    ensures
        ({
            let current = WorldPos {
                x: world_x_of(vp, cam, p.x as int) as i64,
                y: world_y_of(vp, cam, p.y as int) as i64,
            };
            let after = dragged(cam, anchor, current);
            let tx = cam.position.x + anchor.x - current.x;
            let ty = cam.position.y + anchor.y - current.y;
            &&& in_range(tx, CAMERA_LIMIT as int) ==> after.position.x == tx
            &&& in_range(ty, CAMERA_LIMIT as int) ==> after.position.y == ty
            &&& world_x_of(vp, after, p.x as int) == anchor.x || after.position.x == CAMERA_LIMIT
                || after.position.x == -CAMERA_LIMIT
            &&& world_y_of(vp, after, p.y as int) == anchor.y || after.position.y == CAMERA_LIMIT
                || after.position.y == -CAMERA_LIMIT
        }),
{
    crate::transform::lemma_world_in_range(vp, cam, p);
}

} // verus!
