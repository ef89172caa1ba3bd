use vstd::prelude::*;
use crate::geometry::Vec3;

verus! {

/// One step of the fall: a height above `rest_height` drops by `step`, any
/// other height stays.
pub open spec fn fall(y: int, rest_height: int, step: int) -> int {
    if y > rest_height {
        y - step
    } else {
        y
    }
}

/// The height after `n` steps of the fall.
pub open spec fn settle(y: int, rest_height: int, step: int, n: nat) -> int
    decreases n,
{
    if n == 0 {
        y
    } else {
        fall(settle(y, rest_height, step, (n - 1) as nat), rest_height, step)
    }
}

/// Moves a falling object for one frame: while it is above its rest height
/// it drops by `gravity_accel * dt`; at or below that height it stays where
/// it is. A single long frame can carry it below the rest height.
pub fn integrate(position: Vec3, rest_height: i32, gravity_accel: i32, dt: i32) -> (out: Vec3)
    requires
        i32::MIN <= fall(position.y as int, rest_height as int, gravity_accel * dt) <= i32::MAX,
    ensures
        out.x == position.x,
        out.z == position.z,
        out.y == fall(position.y as int, rest_height as int, gravity_accel * dt),
{
    if position.y > rest_height {
        let g: i64 = gravity_accel as i64;
        let t: i64 = dt as i64;
        assert(-0x4000_0000_0000_0000 <= g * t <= 0x4000_0000_0000_0000) by (nonlinear_arith)
            requires
                -0x8000_0000 <= g <= 0x7fff_ffff,
                -0x8000_0000 <= t <= 0x7fff_ffff,
        ;
        let y: i64 = position.y as i64 - g * t;
        Vec3 { x: position.x, y: y as i32, z: position.z }
    } else {
        position
    }
}

/// An object at or below its rest height stays there, however many steps
/// follow.
pub proof fn lemma_settled_stays(y: int, rest_height: int, step: int, n: nat)
    requires
        y <= rest_height,
    ensures
        settle(y, rest_height, step, n) == y,
    decreases n,
{
    if n > 0 {
        lemma_settled_stays(y, rest_height, step, (n - 1) as nat);
    }
}

/// An object whose drop to the rest height is a whole number `k` of steps
/// comes down by one step at a time, stops exactly at the rest height after
/// `k` steps, and is never below it.
pub proof fn lemma_settles_exactly(y: int, rest_height: int, step: int, k: nat, n: nat)
    requires
        step > 0,
        y == rest_height + k * step,
    ensures
        n <= k ==> settle(y, rest_height, step, n) == y - n * step,
        n >= k ==> settle(y, rest_height, step, n) == rest_height,
        settle(y, rest_height, step, n) >= rest_height,
    decreases n,
{
    if n > 0 {
        let m = (n - 1) as nat;
        lemma_settles_exactly(y, rest_height, step, k, m);
        assert(n * step == m * step + step) by (nonlinear_arith)
            requires
                n == m + 1,
        ;
        if m < k {
            assert((k - m) * step >= step) by (nonlinear_arith)
                requires
                    k - m >= 1,
                    step > 0,
            ;
            assert((k - m) * step == k * step - m * step) by (nonlinear_arith);
        }
    } else {
        assert(n * step == 0) by (nonlinear_arith)
            requires
                n == 0,
        ;
        assert(k * step >= 0) by (nonlinear_arith)
            requires
                k >= 0,
                step > 0,
        ;
    }
}

/// A falling object never rises, and passes its rest height by less than
/// one step.
pub proof fn lemma_overshoot_bounded(y: int, rest_height: int, step: int, n: nat)
    requires
        step > 0,
        y >= rest_height,
    ensures
        rest_height - step < settle(y, rest_height, step, n) <= y,
    decreases n,
{
    if n > 0 {
        lemma_overshoot_bounded(y, rest_height, step, (n - 1) as nat);
    }
}

} // verus!
