//! The pawn movement state machine: idle, or walking in a straight line
//! toward a target at a speed that ramps down near the target.
use vstd::prelude::*;

use crate::arith::{abs_int, ceil_div, is_isqrt, isqrt, min_int, sqrt_floor};
use crate::transform::{in_range, WorldPos, WORLD_LIMIT};

verus! {

/// Below this distance (0.1 world units) a walking pawn snaps to its target.
pub const ARRIVAL_EPSILON: i64 = 100_000;

/// Distance (10 world units) beyond which the speed no longer grows.
pub const SPEED_CAP: i64 = 10_000_000;

/// Speed per unit of remaining distance, per second.
pub const SPEED_GAIN: i64 = 10;

/// Microseconds in one second.
pub const MICROS_PER_SECOND: i64 = 1_000_000;

/// What a pawn is doing.
#[derive(Clone, Copy, Debug, PartialEq, Eq, Structural)]
pub enum PawnState {
    Idle,
    MovingTo(WorldPos),
}

/// A unit on the grid.
#[derive(Clone, Copy, Debug, PartialEq, Eq, Structural)]
pub struct Pawn {
    pub position: WorldPos,
    pub state: PawnState,
}

/// Squared distance between two positions.
pub open spec fn dist_sq(a: WorldPos, b: WorldPos) -> int {
    (b.x - a.x) * (b.x - a.x) + (b.y - a.y) * (b.y - a.y)
}

/// Sum of the distances along each axis.
pub open spec fn manhattan(a: WorldPos, b: WorldPos) -> int {
    abs_int(b.x - a.x) + abs_int(b.y - a.y)
}

/// Advance coordinate `p` along offset `delta` by the fraction `num / den`,
/// the length rounded up so that every step makes progress.
pub open spec fn advance(p: int, delta: int, num: int, den: int) -> int {
    if delta >= 0 {
        p + ceil_div(delta * num, den)
    } else {
        p - ceil_div(-delta * num, den)
    }
}

/// The part of the remaining offset covered by a step of `elapsed`
/// microseconds at distance `d`, as a numerator over `d * MICROS_PER_SECOND`:
/// the speed `min(d, SPEED_CAP) * SPEED_GAIN` times the elapsed time, but
/// never more than the whole offset, so a step never passes the target.
pub open spec fn step_fraction(d: int, elapsed: int) -> int {
    min_int(min_int(d, SPEED_CAP as int) * SPEED_GAIN * elapsed, d * MICROS_PER_SECOND)
}

/// One coordinate after a step of `elapsed` microseconds from `from` toward
/// `to`, at distance `d`.
pub open spec fn stepped_coord(from: int, to: int, d: int, elapsed: int) -> int {
    advance(from, to - from, step_fraction(d, elapsed), d * MICROS_PER_SECOND)
}

/// A pawn after one step of `elapsed` microseconds.
pub open spec fn stepped(p: Pawn, elapsed: int) -> Pawn {
    match p.state {
        PawnState::Idle => p,
        PawnState::MovingTo(t) => {
            let sq = dist_sq(p.position, t);
            if sq < ARRIVAL_EPSILON * ARRIVAL_EPSILON {
                Pawn { position: t, state: PawnState::Idle }
            } else {
                let d = sqrt_floor(sq);
                Pawn {
                    position: WorldPos {
                        x: stepped_coord(p.position.x as int, t.x as int, d, elapsed) as i64,
                        y: stepped_coord(p.position.y as int, t.y as int, d, elapsed) as i64,
                    },
                    state: p.state,
                }
            }
        },
    }
}

/// A pawn after a step for each elapsed time of `dts`, in order.
pub open spec fn run_steps(p: Pawn, dts: Seq<u32>) -> Pawn
    decreases dts.len(),
{
    if dts.len() == 0 {
        p
    } else {
        run_steps(stepped(p, dts[0] as int), dts.drop_first())
    }
}

impl Pawn {
    /// The position and any target lie within `WORLD_LIMIT`.
    pub open spec fn wf(self) -> bool {
        self.position.in_world() && match self.state {
            PawnState::Idle => true,
            PawnState::MovingTo(t) => t.in_world(),
        }
    }

    /// An idle pawn at a position.
    pub fn new(position: WorldPos) -> (r: Pawn)
        ensures
            r == (Pawn { position, state: PawnState::Idle }),
    {
        Pawn { position, state: PawnState::Idle }
    }

    /// Send the pawn toward a target, replacing any earlier one.
    pub fn set_target(&mut self, target: WorldPos)
        ensures
            *final(self) == (Pawn { position: old(self).position, state: PawnState::MovingTo(target) }),
    {
        self.state = PawnState::MovingTo(target);
    }

    /// Advance the pawn by `elapsed_us` microseconds: an idle pawn stays;
    /// a walking pawn within `ARRIVAL_EPSILON` of its target snaps onto it
    /// and becomes idle; otherwise it moves toward the target, never past it.
    pub fn step(&mut self, elapsed_us: u32)
        requires
            old(self).wf(),
        ensures
            *final(self) == stepped(*old(self), elapsed_us as int),
            final(self).wf(),
    {
        match self.state {
            PawnState::Idle => {},
            PawnState::MovingTo(t) => {
                let dx: i64 = t.x - self.position.x;
                let dy: i64 = t.y - self.position.y;
                let ax: u128 = if dx >= 0 { dx as u128 } else { (-dx) as u128 };
                let ay: u128 = if dy >= 0 { dy as u128 } else { (-dy) as u128 };
                assert(ax * ax <= MAX_OFFSET * MAX_OFFSET) by (nonlinear_arith)
                    requires
                        ax <= MAX_OFFSET,
                ;
                assert(ay * ay <= MAX_OFFSET * MAX_OFFSET) by (nonlinear_arith)
                    requires
                        ay <= MAX_OFFSET,
                ;
                let sq: u128 = ax * ax + ay * ay;
                assert(sq == dist_sq(self.position, t)) by (nonlinear_arith)
                    requires
                        sq == ax * ax + ay * ay,
                        ax == abs_int(dx as int),
                        ay == abs_int(dy as int),
                        dx == t.x - self.position.x,
                        dy == t.y - self.position.y,
                ;
                if sq < (ARRIVAL_EPSILON as u128) * (ARRIVAL_EPSILON as u128) {
                    self.position = t;
                    self.state = PawnState::Idle;
                } else {
                    let d: u128 = isqrt(sq);
                    let capped: u128 = if d < SPEED_CAP as u128 { d } else { SPEED_CAP as u128 };
                    assert(capped * SPEED_GAIN * elapsed_us <= SPEED_CAP * SPEED_GAIN * 0xffff_ffffint)
                        by (nonlinear_arith)
                        requires
                            capped <= SPEED_CAP,
                            elapsed_us <= 0xffff_ffffint,
                    ;
                    let reach: u128 = capped * (SPEED_GAIN as u128) * (elapsed_us as u128);
                    proof {
                        lemma_axis_le_root(ax as int, ay as int, sq as int, d as int);
                        lemma_axis_le_root(ay as int, ax as int, sq as int, d as int);
                        assert(d >= 1) by (nonlinear_arith)
                            requires
                                sq >= 1,
                                sq < (d + 1) * (d + 1),
                                d >= 0,
                        ;
                        assert(d <= MAX_ROOT) by (nonlinear_arith)
                            requires
                                d * d <= sq,
                                sq <= 2 * MAX_OFFSET * MAX_OFFSET,
                                d >= 0,
                        ;
                    }
                    assert(d * MICROS_PER_SECOND <= MAX_ROOT * MICROS_PER_SECOND) by (nonlinear_arith)
                        requires
                            d <= MAX_ROOT,
                    ;
                    let den: u128 = d * (MICROS_PER_SECOND as u128);
                    let num: u128 = if reach < den {
                        reach
                    } else {
                        den
                    };
                    let sx: u128 = scaled_step(ax, num, den);
                    let sy: u128 = scaled_step(ay, num, den);
                    proof {
                        lemma_advance_between(self.position.x as int, dx as int, num as int, den as int);
                        lemma_advance_between(self.position.y as int, dy as int, num as int, den as int);
                    }
                    let nx: i64 = if dx >= 0 {
                        self.position.x + sx as i64
                    } else {
                        self.position.x - sx as i64
                    };
                    let ny: i64 = if dy >= 0 {
                        self.position.y + sy as i64
                    } else {
                        self.position.y - sy as i64
                    };
                    self.position = WorldPos { x: nx, y: ny };
                }
            },
        }
    }
}

/// `ceil(a * num / den)`, at most `a` since `num <= den`.
fn scaled_step(a: u128, num: u128, den: u128) -> (r: u128)
    requires
        a <= MAX_OFFSET,
        1 <= den <= MAX_ROOT * MICROS_PER_SECOND,
        num <= den,
        num <= SPEED_CAP * SPEED_GAIN * 0xffff_ffffint,
    ensures
        r == ceil_div(a * num, den as int),
        r <= a,
{
    proof {
        assert(a * num <= a * den && a * num <= MAX_OFFSET * (SPEED_CAP * SPEED_GAIN * 0xffff_ffffint))
            by (nonlinear_arith)
            requires
                a <= MAX_OFFSET,
                num <= den,
                num <= SPEED_CAP * SPEED_GAIN * 0xffff_ffffint,
        ;
        vstd::arithmetic::div_mod::lemma_div_is_ordered(a * num + den - 1, a * den + den - 1, den as int);
        vstd::arithmetic::div_mod::lemma_div_multiples_vanish_fancy(a as int, den - 1, den as int);
        assert(den * a == a * den) by (nonlinear_arith);
    }
    (a * num + den - 1) / den
}

/// Bound on a coordinate offset between two positions within `WORLD_LIMIT`.
pub const MAX_OFFSET: u128 = 2_000_000_000_000_000_000;

/// Bound on the square root of a squared distance between two such positions.
pub const MAX_ROOT: u128 = 3_000_000_000_000_000_000;

proof fn lemma_axis_le_root(a: int, b: int, sq: int, d: int)
    requires
        a >= 0,
        b >= 0,
        sq == a * a + b * b,
        is_isqrt(sq, d),
    ensures
        a <= d,
{
    assert(a <= d) by (nonlinear_arith)
        requires
            a >= 0,
            b * b >= 0,
            sq == a * a + b * b,
            sq < (d + 1) * (d + 1),
            d >= 0,
    ;
}

/// `q` lies between `p` and `t`, ends included.
pub open spec fn between(p: int, q: int, t: int) -> bool {
    (p <= q <= t) || (t <= q <= p)
}

/// Each coordinate of `q` lies between those of `p` and `t`.
pub open spec fn between_pos(p: WorldPos, q: WorldPos, t: WorldPos) -> bool {
    between(p.x as int, q.x as int, t.x as int) && between(p.y as int, q.y as int, t.y as int)
}

proof fn lemma_advance_between(p: int, delta: int, num: int, den: int)
    requires
        den >= 1,
        0 <= num <= den,
    ensures
        between(p, advance(p, delta, num, den), p + delta),
        delta != 0 && num >= 1 ==> abs_int(p + delta - advance(p, delta, num, den)) < abs_int(
            delta,
        ),
{
    let a = abs_int(delta);
    assert(0 <= a * num <= a * den) by (nonlinear_arith)
        requires
            a >= 0,
            0 <= num <= den,
    ;
    vstd::arithmetic::div_mod::lemma_div_is_ordered(a * num + den - 1, a * den + den - 1, den);
    vstd::arithmetic::div_mod::lemma_div_multiples_vanish_fancy(a, den - 1, den);
    vstd::arithmetic::div_mod::lemma_div_is_ordered(0, a * num + den - 1, den);
    assert(den * a == a * den) by (nonlinear_arith);
    assert(delta * num == a * num || -delta * num == a * num) by (nonlinear_arith)
        requires
            a == abs_int(delta),
    ;
    if delta != 0 && num >= 1 {
        assert(a * num >= 1) by (nonlinear_arith)
            requires
                a >= 1,
                num >= 1,
        ;
        vstd::arithmetic::div_mod::lemma_div_is_ordered(den, a * num + den - 1, den);
        vstd::arithmetic::div_mod::lemma_div_multiples_vanish_fancy(1, 0, den);
    }
}

proof fn lemma_stepped_coord_between(from: int, to: int, d: int, elapsed: int)
    requires
        in_range(from, WORLD_LIMIT as int),
        in_range(to, WORLD_LIMIT as int),
        d >= 1,
        1 <= elapsed,
    ensures
        between(from, stepped_coord(from, to, d, elapsed), to),
        from != to ==> abs_int(to - stepped_coord(from, to, d, elapsed)) < abs_int(to - from),
{
    let reach = min_int(d, SPEED_CAP as int) * SPEED_GAIN * elapsed;
    assert(1 <= reach && 1 <= d * MICROS_PER_SECOND) by (nonlinear_arith)
        requires
            reach == min_int(d, SPEED_CAP as int) * SPEED_GAIN * elapsed,
            1 <= min_int(d, SPEED_CAP as int),
            1 <= d,
            1 <= elapsed,
    ;
    lemma_advance_between(from, to - from, step_fraction(d, elapsed), d * MICROS_PER_SECOND);
}

proof fn lemma_square_le(e: int, f: int)
    requires
        abs_int(e) <= abs_int(f),
    ensures
        e * e <= f * f,
        abs_int(e) < abs_int(f) ==> e * e < f * f,
{
    let a = abs_int(e);
    let b = abs_int(f);
    assert(e * e == a * a && f * f == b * b) by (nonlinear_arith)
        requires
            a == abs_int(e),
            b == abs_int(f),
    ;
    assert(a * a <= b * b) by (nonlinear_arith)
        requires
            0 <= a <= b,
    ;
    if a < b {
        assert(a * a < b * b) by (nonlinear_arith)
            requires
                0 <= a < b,
        ;
    }
}

/// With a nonzero elapsed time, one step of a walking pawn either lands exactly on its target and makes it idle, or
/// keeps it walking to the same target, moves it without passing the target
/// on either axis, and strictly shortens its axis distance to the target;
/// the distance to the target never grows, and shrinks strictly unless the
/// pawn already stands on the target.
pub proof fn lemma_step_approaches(p: Pawn, t: WorldPos, elapsed: int)
    requires
        p.wf(),
        p.state == PawnState::MovingTo(t),
        1 <= elapsed,
    ensures
        stepped(p, elapsed) == (Pawn { position: t, state: PawnState::Idle }) || (stepped(
            p,
            elapsed,
        ).state == p.state && between_pos(p.position, stepped(p, elapsed).position, t)
            && manhattan(stepped(p, elapsed).position, t) < manhattan(p.position, t)),
        dist_sq(stepped(p, elapsed).position, t) <= dist_sq(p.position, t),
        dist_sq(p.position, t) > 0 ==> dist_sq(stepped(p, elapsed).position, t) < dist_sq(
            p.position,
            t,
        ),
        stepped(p, elapsed).wf(),
{
    let sq = dist_sq(p.position, t);
    let q = stepped(p, elapsed);
    if sq >= ARRIVAL_EPSILON * ARRIVAL_EPSILON {
        let d = sqrt_floor(sq);
        assert(sq >= 0) by (nonlinear_arith)
            requires
                sq == dist_sq(p.position, t),
        ;
        crate::arith::lemma_sqrt_floor(sq);
        assert(d >= 1) by (nonlinear_arith)
            requires
                sq >= 1,
                sq < (d + 1) * (d + 1),
                d >= 0,
        ;
        lemma_stepped_coord_between(p.position.x as int, t.x as int, d, elapsed);
        lemma_stepped_coord_between(p.position.y as int, t.y as int, d, elapsed);
        if p.position.x == t.x && p.position.y == t.y {
            assert(sq == 0) by (nonlinear_arith)
                requires
                    sq == dist_sq(p.position, t),
                    p.position.x == t.x,
                    p.position.y == t.y,
            ;
        }
        let ex = t.x - q.position.x;
        let ey = t.y - q.position.y;
        let fx = t.x - p.position.x;
        let fy = t.y - p.position.y;
        lemma_square_le(ex, fx);
        lemma_square_le(ey, fy);
    } else {
        assert(dist_sq(t, t) == 0 && sq >= 0) by (nonlinear_arith)
            requires
                sq == dist_sq(p.position, t),
        ;
    }
}

/// Once idle, a pawn stays where it is whatever steps follow.
pub proof fn lemma_idle_stays(p: Pawn, dts: Seq<u32>)
    requires
        p.state == PawnState::Idle,
    ensures
        run_steps(p, dts) == p,
    decreases dts.len(),
{
    if dts.len() > 0 {
        lemma_idle_stays(stepped(p, dts[0] as int), dts.drop_first());
    }
}

/// A walking pawn stepped with nonzero elapsed times, more of them than its
/// axis distance to the target in millionths of a world unit, ends idle exactly on its target; on the way
/// it never passes the target on either axis.
pub proof fn lemma_arrival(p: Pawn, t: WorldPos, dts: Seq<u32>)
    requires
        p.wf(),
        p.state == PawnState::MovingTo(t),
        forall|i: int| 0 <= i < dts.len() ==> 1 <= #[trigger] dts[i],
        dts.len() > manhattan(p.position, t),
    ensures
        run_steps(p, dts) == (Pawn { position: t, state: PawnState::Idle }),
        forall|k: int|
            0 <= k <= dts.len() ==> between_pos(p.position, #[trigger] run_steps(p, dts.take(k)).position, t),
    decreases dts.len(),
{
    let q = stepped(p, dts[0] as int);
    let rest = dts.drop_first();
    lemma_step_approaches(p, t, dts[0] as int);
    assert forall|k: int| 1 <= k <= dts.len() implies #[trigger] dts.take(k).drop_first() == rest.take(k - 1) by {
        assert(dts.take(k).drop_first() =~= rest.take(k - 1));
    }
    if q.state == PawnState::Idle {
        lemma_idle_stays(q, rest);
        assert forall|k: int| 0 <= k <= dts.len() implies between_pos(p.position, #[trigger] run_steps(p, dts.take(k)).position, t) by {
            if k > 0 {
                lemma_idle_stays(q, rest.take(k - 1));
            } else {
                assert(dts.take(0).len() == 0);
            }
        }
    } else {
        lemma_arrival(q, t, rest);
        assert forall|k: int| 0 <= k <= dts.len() implies between_pos(p.position, #[trigger] run_steps(p, dts.take(k)).position, t) by {
            if k > 0 {
                assert(between_pos(q.position, run_steps(q, rest.take(k - 1)).position, t));
            } else {
                assert(dts.take(0).len() == 0);
            }
        }
    }
}

} // verus!
