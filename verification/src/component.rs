//! The components of a moving entity: its grid position, world-space render
//! vectors, the grid-to-world mapping, and the time-based movement animation
//! between two grid cells.

use vstd::arithmetic::div_mod::{
    lemma_div_by_multiple, lemma_div_is_ordered, lemma_div_pos_is_pos,
};
use vstd::prelude::*;

verus! {

/// A marker for entities under player control.
#[derive(Debug, Default)]
pub struct Player;

/// The authoritative cell coordinate of an entity when it is not mid-move;
/// `z` is reserved for layering and ignored by blocking logic.
#[derive(Debug, Clone, Copy, PartialEq, Eq, Structural)]
pub struct Position {
    pub x: u32,
    pub y: u32,
    pub z: u32,
}

impl Position {
    pub fn new(x: u32, y: u32, z: u32) -> (r: Self)
        ensures
            r == (Position { x, y, z }),
    {
        Position { x, y, z }
    }

    /// Component-wise addition of cell coordinates.
    pub fn add(self, other: Self) -> (r: Self)
        requires
            self.x + other.x <= u32::MAX,
            self.y + other.y <= u32::MAX,
            self.z + other.z <= u32::MAX,
        ensures
            r == (Position {
                x: (self.x + other.x) as u32,
                y: (self.y + other.y) as u32,
                z: (self.z + other.z) as u32,
            }),
    {
        Position { x: self.x + other.x, y: self.y + other.y, z: self.z + other.z }
    }
}

/// A world-space vector with integer components: the render-space coordinate
/// type, a plain vector space with component-wise operations.
#[derive(Debug, Clone, Copy, PartialEq, Eq, Structural)]
pub struct WorldVec {
    pub x: i64,
    pub y: i64,
    pub z: i64,
}

impl WorldVec {
    pub fn new(x: i64, y: i64, z: i64) -> (r: Self)
        ensures
            r == (WorldVec { x, y, z }),
    {
        WorldVec { x, y, z }
    }

    /// Component-wise vector addition.
    pub fn add(&self, other: &Self) -> (r: Self)
        requires
            i64::MIN <= self.x + other.x <= i64::MAX,
            i64::MIN <= self.y + other.y <= i64::MAX,
            i64::MIN <= self.z + other.z <= i64::MAX,
        ensures
            r == (WorldVec {
                x: (self.x + other.x) as i64,
                y: (self.y + other.y) as i64,
                z: (self.z + other.z) as i64,
            }),
    {
        WorldVec { x: self.x + other.x, y: self.y + other.y, z: self.z + other.z }
    }

    /// Component-wise vector subtraction.
    pub fn sub(&self, other: &Self) -> (r: Self)
        requires
            i64::MIN <= self.x - other.x <= i64::MAX,
            i64::MIN <= self.y - other.y <= i64::MAX,
            i64::MIN <= self.z - other.z <= i64::MAX,
        ensures
            r == (WorldVec {
                x: (self.x - other.x) as i64,
                y: (self.y - other.y) as i64,
                z: (self.z - other.z) as i64,
            }),
    {
        WorldVec { x: self.x - other.x, y: self.y - other.y, z: self.z - other.z }
    }

    /// Scaling by an integer factor.
    pub fn mul(&self, other: i64) -> (r: Self)
        requires
            i64::MIN <= self.x * other <= i64::MAX,
            i64::MIN <= self.y * other <= i64::MAX,
            i64::MIN <= self.z * other <= i64::MAX,
        ensures
            r == (WorldVec {
                x: (self.x * other) as i64,
                y: (self.y * other) as i64,
                z: (self.z * other) as i64,
            }),
    {
        WorldVec { x: self.x * other, y: self.y * other, z: self.z * other }
    }

    /// The dot product.
    pub fn dot(&self, other: &Self) -> (r: i64)
        requires
            i64::MIN <= self.x * other.x <= i64::MAX,
            i64::MIN <= self.y * other.y <= i64::MAX,
            i64::MIN <= self.z * other.z <= i64::MAX,
            i64::MIN <= self.x * other.x + self.y * other.y <= i64::MAX,
            i64::MIN <= self.x * other.x + self.y * other.y + self.z * other.z <= i64::MAX,
        ensures
            r == self.x * other.x + self.y * other.y + self.z * other.z,
    {
        self.x * other.x + self.y * other.y + self.z * other.z
    }

    /// The squared length of the vector.
    pub fn magnitude2(&self) -> (r: i64)
        requires
            i64::MIN <= self.x * self.x <= i64::MAX,
            i64::MIN <= self.y * self.y <= i64::MAX,
            i64::MIN <= self.z * self.z <= i64::MAX,
            i64::MIN <= self.x * self.x + self.y * self.y <= i64::MAX,
            i64::MIN <= self.x * self.x + self.y * self.y + self.z * self.z <= i64::MAX,
        ensures
            r == self.x * self.x + self.y * self.y + self.z * self.z,
    {
        self.dot(self)
    }
}

/// The grid-to-world coordinate mapping: each cell maps to the world-space
/// point scaled by the tile dimensions. It stands in for the tile map's own
/// mapping, which the movement core treats as a pure function of the cell.
#[derive(Debug, Clone, Copy, PartialEq, Eq, Structural)]
pub struct TileMapper {
    pub tile_width: u32,
    pub tile_height: u32,
    pub tile_depth: u32,
}

impl TileMapper {
    /// Tile dimensions are positive, and small enough that every cell
    /// coordinate maps into world range.
    pub open spec fn wf(self) -> bool {
        &&& 0 < self.tile_width <= i32::MAX
        &&& 0 < self.tile_height <= i32::MAX
        &&& 0 < self.tile_depth <= i32::MAX
    }

    /// The world-space point of a cell.
    pub open spec fn spec_to_world(self, p: Position) -> WorldVec {
        WorldVec {
            x: (p.x * self.tile_width) as i64,
            y: (p.y * self.tile_height) as i64,
            z: (p.z * self.tile_depth) as i64,
        }
    }

    pub fn to_world(&self, p: Position) -> (r: WorldVec)
        requires
            self.wf(),
        ensures
            r == self.spec_to_world(p),
    {
        proof {
            assert(p.x * self.tile_width <= u32::MAX * (i32::MAX as int) < i64::MAX)
                by (nonlinear_arith)
                requires p.x <= u32::MAX && 0 < self.tile_width <= i32::MAX;
            assert(p.y * self.tile_height <= u32::MAX * (i32::MAX as int) < i64::MAX)
                by (nonlinear_arith)
                requires p.y <= u32::MAX && 0 < self.tile_height <= i32::MAX;
            assert(p.z * self.tile_depth <= u32::MAX * (i32::MAX as int) < i64::MAX)
                by (nonlinear_arith)
                requires p.z <= u32::MAX && 0 < self.tile_depth <= i32::MAX;
        }
        WorldVec {
            x: (p.x as i64) * (self.tile_width as i64),
            y: (p.y as i64) * (self.tile_height as i64),
            z: (p.z as i64) * (self.tile_depth as i64),
        }
    }
}

/// Linear interpolation from `s` to `e` at elapsed time `t` of span `d`,
/// the progress clamped to the span: exact at both ends, rounding toward the
/// start in between.
pub open spec fn lerp(s: int, e: int, t: int, d: int) -> int {
    if t <= 0 {
        s
    } else if t >= d {
        e
    } else if e >= s {
        s + ((e - s) * t) / d
    } else {
        s - ((s - e) * t) / d
    }
}

/// For a non-negative scale `k`, the scaled progress `(k * t) / d` stays
/// between zero and `k` over the span.
proof fn lemma_scaled_div_bounds(k: int, t: int, d: int)
    requires
        0 <= k,
        0 <= t <= d,
        0 < d,
    ensures
        0 <= (k * t) / d <= k,
{
    assert(0 <= k * t <= k * d) by (nonlinear_arith)
        requires 0 <= k && 0 <= t <= d;
    lemma_div_pos_is_pos(k * t, d);
    lemma_div_is_ordered(k * t, k * d, d);
    lemma_div_by_multiple(k, d);
}

/// For a non-negative scale `k`, the scaled progress `(k * t) / d` is
/// monotone in the elapsed time `t`.
proof fn lemma_scaled_div_monotonic(k: int, t1: int, t2: int, d: int)
    requires
        0 <= k,
        t1 <= t2,
        0 < d,
    ensures
        (k * t1) / d <= (k * t2) / d,
{
    assert(k * t1 <= k * t2) by (nonlinear_arith)
        requires 0 <= k && t1 <= t2;
    lemma_div_is_ordered(k * t1, k * t2, d);
}

/// The interpolated value always lies between the two endpoints.
pub proof fn lemma_lerp_bounds(s: int, e: int, t: int, d: int)
    requires
        0 < d,
    ensures
        s <= e ==> s <= lerp(s, e, t, d) <= e,
        e < s ==> e <= lerp(s, e, t, d) <= s,
{
    if 0 < t < d {
        if e >= s {
            lemma_scaled_div_bounds(e - s, t, d);
        } else {
            lemma_scaled_div_bounds(s - e, t, d);
        }
    }
}

/// The interpolated value moves monotonically from the start toward the end
/// as the elapsed time grows.
pub proof fn lemma_lerp_monotonic(s: int, e: int, t1: int, t2: int, d: int)
    requires
        0 < d,
        t1 <= t2,
    ensures
        s <= e ==> lerp(s, e, t1, d) <= lerp(s, e, t2, d),
        e < s ==> lerp(s, e, t1, d) >= lerp(s, e, t2, d),
{
    lemma_lerp_bounds(s, e, t1, d);
    lemma_lerp_bounds(s, e, t2, d);
    if 0 < t1 && t2 < d {
        if e >= s {
            lemma_scaled_div_monotonic(e - s, t1, t2, d);
        } else {
            lemma_scaled_div_monotonic(s - e, t1, t2, d);
        }
    }
}

/// One in-progress grid-to-grid transition: world-space endpoints resolved
/// once at creation, a start time, a duration, and the grid cell to commit
/// when the move completes.
#[derive(Debug, Clone, Copy, PartialEq, Eq, Structural)]
pub struct MovingObject {
    pub start_time: u64,
    pub duration: u64,
    pub start: WorldVec,
    pub end: WorldVec,
    pub end_p: Position,
}

impl MovingObject {
    /// Done exactly when the clock reaches the start time plus the duration.
    pub open spec fn spec_is_done(self, now: u64) -> bool {
        now >= self.start_time + self.duration
    }

    /// Clock time elapsed since the start, never negative.
    pub open spec fn spec_elapsed(self, now: u64) -> int {
        if now <= self.start_time {
            0
        } else {
            now - self.start_time
        }
    }

    /// Where the animation stands at time `now`: the end point exactly once
    /// done, the clamped linear interpolation of the two world-space
    /// endpoints before that.
    pub open spec fn spec_interpolate(self, now: u64) -> WorldVec {
        if self.spec_is_done(now) {
            self.end
        } else {
            WorldVec {
                x: lerp(
                    self.start.x as int,
                    self.end.x as int,
                    self.spec_elapsed(now),
                    self.duration as int,
                ) as i64,
                y: lerp(
                    self.start.y as int,
                    self.end.y as int,
                    self.spec_elapsed(now),
                    self.duration as int,
                ) as i64,
                z: lerp(
                    self.start.z as int,
                    self.end.z as int,
                    self.spec_elapsed(now),
                    self.duration as int,
                ) as i64,
            }
        }
    }

    /// Resolves both grid cells to world space once, and records the clock
    /// reading `now` as the animation's start time.
    pub fn new(now: u64, duration: u64, tilemap: &TileMapper, s: Position, e: Position) -> (r:
        Self)
        requires
            tilemap.wf(),
        ensures
            r == (MovingObject {
                start_time: now,
                duration,
                start: tilemap.spec_to_world(s),
                end: tilemap.spec_to_world(e),
                end_p: e,
            }),
    {
        let start = tilemap.to_world(s);
        let end = tilemap.to_world(e);
        Self { start_time: now, duration, start, end, end_p: e }
    }

    pub fn is_done(&self, now: u64) -> (r: bool)
        ensures
            r == self.spec_is_done(now),
    {
        now >= self.start_time && now - self.start_time >= self.duration
    }

    /// The world-space position to render at time `now`.
    pub fn interpolate(&self, now: u64) -> (r: WorldVec)
        ensures
            r == self.spec_interpolate(now),
    {
        if self.is_done(now) {
            self.end
        } else if now <= self.start_time {
            self.start
        } else {
            let t = now - self.start_time;
            WorldVec {
                x: lerp_i64(self.start.x, self.end.x, t, self.duration),
                y: lerp_i64(self.start.y, self.end.y, t, self.duration),
                z: lerp_i64(self.start.z, self.end.z, t, self.duration),
            }
        }
    }
}

/// `b` stands at least as far toward `e` (from `s`) as `a` does.
pub open spec fn toward(s: i64, e: i64, a: i64, b: i64) -> bool {
    if e >= s {
        a <= b
    } else {
        a >= b
    }
}

/// One component of the interpolation: clamped, in range, and monotone.
proof fn lemma_lerp_component(s: i64, e: i64, t1: int, t2: int, d: int)
    requires
        0 < d,
        t1 <= t2,
    ensures
        toward(s, e, lerp(s as int, e as int, t1, d) as i64, lerp(s as int, e as int, t2, d) as i64),
        toward(s, e, lerp(s as int, e as int, t2, d) as i64, e),
        toward(s, e, s, lerp(s as int, e as int, t1, d) as i64),
{
    lemma_lerp_bounds(s as int, e as int, t1, d);
    lemma_lerp_bounds(s as int, e as int, t2, d);
    lemma_lerp_monotonic(s as int, e as int, t1, t2, d);
}

/// While an animation runs, each component of the interpolated position
/// moves monotonically from the start point toward the end point as the
/// clock advances, and never leaves the span between the two.
pub proof fn lemma_interpolate_monotonic(m: MovingObject, n1: u64, n2: u64)
    requires
        m.duration > 0,
        n1 <= n2,
    ensures
        toward(m.start.x, m.end.x, m.spec_interpolate(n1).x, m.spec_interpolate(n2).x),
        toward(m.start.y, m.end.y, m.spec_interpolate(n1).y, m.spec_interpolate(n2).y),
        toward(m.start.z, m.end.z, m.spec_interpolate(n1).z, m.spec_interpolate(n2).z),
{
    let t1 = m.spec_elapsed(n1);
    let t2 = m.spec_elapsed(n2);
    let d = m.duration as int;
    lemma_lerp_component(m.start.x, m.end.x, t1, t2, d);
    lemma_lerp_component(m.start.y, m.end.y, t1, t2, d);
    lemma_lerp_component(m.start.z, m.end.z, t1, t2, d);
}

/// At its start time a running animation stands exactly at its start point,
/// and from its completion time on, exactly at its end point.
pub proof fn lemma_interpolate_endpoints(m: MovingObject)
    requires
        m.duration > 0,
    ensures
        m.spec_interpolate(m.start_time) == m.start,
        m.start_time + m.duration <= u64::MAX ==> m.spec_interpolate(
            (m.start_time + m.duration) as u64,
        ) == m.end,
{
}

/// A zero-duration animation is done from its start time on and
/// interpolates to its end point exactly.
pub proof fn lemma_zero_duration(m: MovingObject, now: u64)
    requires
        m.duration == 0,
        now >= m.start_time,
    ensures
        m.spec_is_done(now),
        m.spec_interpolate(now) == m.end,
{
}

/// Once done, an animation stays done as the clock advances: a completed
/// movement never re-enters the active state.
pub proof fn lemma_done_monotonic(m: MovingObject, n1: u64, n2: u64)
    requires
        m.spec_is_done(n1),
        n1 <= n2,
    ensures
        m.spec_is_done(n2),
{
}

/// Executable clamped linear interpolation on one component.
fn lerp_i64(s: i64, e: i64, t: u64, d: u64) -> (r: i64)
    requires
        0 < t < d,
    ensures
        r as int == lerp(s as int, e as int, t as int, d as int),
{
    let delta: i128 = (e as i128) - (s as i128);
    if delta >= 0 {
        proof {
            lemma_scaled_div_bounds(delta as int, t as int, d as int);
            assert(delta * t <= u128::MAX) by (nonlinear_arith)
                requires 0 <= delta <= u64::MAX && 0 < t <= u64::MAX;
        }
        let q: u128 = ((delta as u128) * (t as u128)) / (d as u128);
        let r128: i128 = (s as i128) + (q as i128);
        r128 as i64
    } else {
        proof {
            lemma_scaled_div_bounds(-delta as int, t as int, d as int);
            assert((-delta) * t <= u128::MAX) by (nonlinear_arith)
                requires 0 <= -delta <= u64::MAX && 0 < t <= u64::MAX;
        }
        let m: u128 = (-delta) as u128;
        let q: u128 = (m * (t as u128)) / (d as u128);
        let r128: i128 = (s as i128) - (q as i128);
        r128 as i64
    }
}

} // verus!
