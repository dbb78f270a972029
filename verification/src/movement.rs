//! The bounded random walk that moves a target.
//!
//! Positions, velocities and bounds are signed whole numbers on one axis. Only
//! their order and sign matter here: chance is drawn and speeds are scaled by the
//! caller, and this module decides what becomes of the result.

use vstd::prelude::*;

verus! {

/// A position or velocity in space, one whole number per axis.
#[derive(Clone, Copy, Debug, PartialEq, Eq, Structural)]
pub struct Vec3d {
    pub x: i64,
    pub y: i64,
    pub z: i64,
}

/// The smaller of two bounds.
pub open spec fn lower(a: int, b: int) -> int {
    if a <= b {
        a
    } else {
        b
    }
}

/// The larger of two bounds.
pub open spec fn upper(a: int, b: int) -> int {
    if a <= b {
        b
    } else {
        a
    }
}

/// `v` held inside `lo ..= hi`.
pub open spec fn clamped(v: int, lo: int, hi: int) -> int {
    if v < lo {
        lo
    } else if v > hi {
        hi
    } else {
        v
    }
}

/// Position and velocity on one axis after the position was held inside the
/// bounds `n1` and `n2`, given in either order.
///
/// Equal bounds pin the position and leave the velocity alone. Otherwise a
/// position outside the bounds is moved to the nearer bound and the velocity
/// turns round; a position inside them changes nothing.
pub open spec fn clamped_axis(pos: int, vel: int, n1: int, n2: int) -> (int, int) {
    if n1 == n2 {
        (n1, vel)
    } else if pos < lower(n1, n2) || pos > upper(n1, n2) {
        (clamped(pos, lower(n1, n2), upper(n1, n2)), -vel)
    } else {
        (pos, vel)
    }
}

/// The velocity on one axis after a resample.
///
/// On a reversal a positive velocity snaps to `-min` and any other velocity to
/// `min`. Without one the velocity becomes `grown`, the caller's speed after its
/// growth step, held inside `-max ..= max`.
pub open spec fn resampled(velo: int, reverse: bool, grown: int, min: int, max: int) -> int {
    if reverse {
        if velo > 0 {
            -min
        } else {
            min
        }
    } else {
        clamped(grown, -max, max)
    }
}

/// The velocity after a run of resamples, each given by whether it reverses and by
/// the grown speed that the caller computed for it.
pub open spec fn walked(velo: int, cycles: Seq<(bool, int)>, min: int, max: int) -> int
    decreases cycles.len(),
{
    if cycles.len() == 0 {
        velo
    } else {
        resampled(
            walked(velo, cycles.drop_last(), min, max),
            cycles.last().0,
            cycles.last().1,
            min,
            max,
        )
    }
}

/// Holds a position inside the bounds `n1` and `n2` on one axis and turns the
/// velocity round where the position had left them.
pub fn dyn_clamp_pos(pos: i64, vel: i64, n1: i64, n2: i64) -> (r: (i64, i64))
    requires
        vel > i64::MIN,
    ensures
        (r.0 as int, r.1 as int) == clamped_axis(pos as int, vel as int, n1 as int, n2 as int),
{
    if n1 < n2 && (pos < n1 || pos > n2) {
        (
            if pos < n1 {
                n1
            } else {
                n2
            },
            -vel,
        )
    } else if n2 < n1 && (pos < n2 || pos > n1) {
        (
            if pos < n2 {
                n2
            } else {
                n1
            },
            -vel,
        )
    } else if n2 == n1 {
        (n1, vel)
    } else {
        (pos, vel)
    }
}

/// Holds a position inside the box spanned by the corners `a` and `b`, axis by
/// axis, and turns the velocity round on each axis where the position had left it.
pub fn clamp_to_bounds(pos: Vec3d, vel: Vec3d, a: Vec3d, b: Vec3d) -> (r: (Vec3d, Vec3d))
    requires
        vel.x > i64::MIN,
        vel.y > i64::MIN,
        vel.z > i64::MIN,
    ensures
        (r.0.x as int, r.1.x as int) == clamped_axis(
            pos.x as int,
            vel.x as int,
            a.x as int,
            b.x as int,
        ),
        (r.0.y as int, r.1.y as int) == clamped_axis(
            pos.y as int,
            vel.y as int,
            a.y as int,
            b.y as int,
        ),
        (r.0.z as int, r.1.z as int) == clamped_axis(
            pos.z as int,
            vel.z as int,
            a.z as int,
            b.z as int,
        ),
{
    let (px, vx) = dyn_clamp_pos(pos.x, vel.x, a.x, b.x);
    let (py, vy) = dyn_clamp_pos(pos.y, vel.y, a.y, b.y);
    let (pz, vz) = dyn_clamp_pos(pos.z, vel.z, a.z, b.z);
    (Vec3d { x: px, y: py, z: pz }, Vec3d { x: vx, y: vy, z: vz })
}

/// The velocity on one axis after a resample: reversed to the bound `min` on the
/// other side of zero where `reverse` is drawn, else `grown` held inside
/// `-max ..= max`.
pub fn new_direction(velo: i64, reverse: bool, grown: i64, min: i64, max: i64) -> (r: i64)
    requires
        0 <= max,
        min > i64::MIN,
    ensures
        r == resampled(velo as int, reverse, grown as int, min as int, max as int),
{
    if velo > 0 {
        if reverse {
            -min
        } else {
            clamp_speed(grown, max)
        }
    } else {
        if reverse {
            min
        } else {
            clamp_speed(grown, max)
        }
    }
}

/// The velocity of a fresh target: on each axis the slowest speed `min` of its
/// profile, turned round where `flip` says so.
pub fn start_velocity(min: Vec3d, flip_x: bool, flip_y: bool, flip_z: bool) -> (v: Vec3d)
    requires
        min.x > i64::MIN,
        min.y > i64::MIN,
        min.z > i64::MIN,
    ensures
        v.x == (if flip_x { -min.x } else { min.x as int }),
        v.y == (if flip_y { -min.y } else { min.y as int }),
        v.z == (if flip_z { -min.z } else { min.z as int }),
{
    Vec3d {
        x: if flip_x { -min.x } else { min.x },
        y: if flip_y { -min.y } else { min.y },
        z: if flip_z { -min.z } else { min.z },
    }
}

fn clamp_speed(v: i64, max: i64) -> (r: i64)
    requires
        0 <= max,
    ensures
        r == clamped(v as int, -max, max as int),
{
    if v < -max {
        -max
    } else if v > max {
        max
    } else {
        v
    }
}

/// With bounds that differ, the position ends inside them, and a position that had
/// left them turns the velocity round; with equal bounds the position ends on
/// them and the velocity is as it was.
pub proof fn lemma_clamp_axis(pos: int, vel: int, a: int, b: int)
    ensures
        a != b ==> lower(a, b) <= clamped_axis(pos, vel, a, b).0 <= upper(a, b),
        a != b && (pos < lower(a, b) || pos > upper(a, b)) ==> clamped_axis(pos, vel, a, b).1
            == -vel,
        a != b && lower(a, b) <= pos <= upper(a, b) ==> clamped_axis(pos, vel, a, b) == (pos, vel),
        a == b ==> clamped_axis(pos, vel, a, b) == (a, vel),
{
}

/// Clamping a second time changes nothing: the position is already inside.
pub proof fn lemma_clamp_axis_settles(pos: int, vel: int, a: int, b: int)
    ensures
        ({
            let once = clamped_axis(pos, vel, a, b);
            clamped_axis(once.0, once.1, a, b) == once
        }),
{
}

/// With `min` no larger in size than `max`, one resample leaves a velocity no
/// larger in size than `max`, whatever the velocity was before.
pub proof fn lemma_resample_bounded(velo: int, reverse: bool, grown: int, min: int, max: int)
    requires
        0 <= max,
        -max <= min <= max,
    ensures
        -max <= resampled(velo, reverse, grown, min, max) <= max,
{
}

/// However many resamples follow one another, the velocity stays within
/// `-max ..= max`, provided `min` is no larger in size than `max` and the walk
/// either starts inside those bounds or makes at least one resample.
pub proof fn lemma_walk_bounded(velo: int, cycles: Seq<(bool, int)>, min: int, max: int)
    requires
        0 <= max,
        -max <= min <= max,
        cycles.len() > 0 || -max <= velo <= max,
    ensures
        -max <= walked(velo, cycles, min, max) <= max,
    decreases cycles.len(),
{
    if cycles.len() > 0 {
        lemma_resample_bounded(
            walked(velo, cycles.drop_last(), min, max),
            cycles.last().0,
            cycles.last().1,
            min,
            max,
        );
    }
}

} // verus!
