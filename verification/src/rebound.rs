//! What the arena does to a body that runs into it, and what it leaves alone.

use vstd::prelude::*;
use crate::arena;
use crate::ball;
use crate::ball::Ball;
use crate::num;
use crate::vec3;
use crate::vec3::V3;

verus! {

// ---- flat walls -----------------------------------------------------------

/// A side wall sends a body back the way it came: put down on the wall, with its
/// speed across the pitch turned round and cut to `bounce/1024` of itself, and
/// its speed along the pitch untouched. With no bounce it stops dead across it.
pub proof fn law_a_side_wall_turns_a_body_back(
    x: int,
    z: int,
    vx: int,
    vz: int,
    r: int,
    bounce: int,
    mouth_open: bool,
)
    requires
        0 <= r <= 100,
        0 <= bounce <= 1024,
        num::abs(x) > (4096 - r) * 64,
        num::abs(z) <= 230_000,
    ensures
        ({
            let c = arena::confined(x, z, vx, vz, r, bounce, mouth_open);
            &&& c.x == if x > 0 {
                (4096 - r) * 64
            } else {
                -(4096 - r) * 64
            }
            &&& c.z == z
            &&& c.vz == vz
            &&& c.normal.x == if x > 0 {
                -4096int
            } else {
                4096int
            }
            &&& c.normal.y == 0 && c.normal.z == 0
            &&& -1024 < 1024 * c.vx + vx * bounce <= 0
            &&& bounce == 0 ==> c.vx == 0
            &&& bounce >= 512 && vx >= 2 ==> c.vx < 0
            &&& bounce >= 512 && vx <= -4 ==> c.vx > 0
        }),
{
    reveal(vec3::damped);
    assert(r * 64 * 5793 / 4096 <= 9100);
    lemma_bounce_back(vx, bounce);
}

/// An end wall with its mouth shut does the same along the pitch.
pub proof fn law_an_end_wall_turns_a_body_back(
    x: int,
    z: int,
    vx: int,
    vz: int,
    r: int,
    bounce: int,
)
    requires
        0 <= r <= 100,
        0 <= bounce <= 1024,
        (5120 - r) * 64 < num::abs(z) <= 5120 * 64,
        num::abs(x) <= 170_000,
    ensures
        ({
            let c = arena::confined(x, z, vx, vz, r, bounce, false);
            &&& c.z == if z > 0 {
                (5120 - r) * 64
            } else {
                -(5120 - r) * 64
            }
            &&& c.x == x
            &&& c.vx == vx
            &&& c.normal.z == if z > 0 {
                -4096int
            } else {
                4096int
            }
            &&& c.normal.x == 0 && c.normal.y == 0
            &&& -1024 < 1024 * c.vz + vz * bounce <= 0
            &&& bounce == 0 ==> c.vz == 0
            &&& bounce >= 512 && vz >= 2 ==> c.vz < 0
            &&& bounce >= 512 && vz <= -4 ==> c.vz > 0
        }),
{
    reveal(vec3::damped);
    assert(r * 64 * 5793 / 4096 <= 9100);
    lemma_bounce_back(vz, bounce);
}

/// The walls of a goal box turn a body back across the pitch as the side walls
/// do, and the back of an open net along it.
pub proof fn law_a_net_turns_a_body_back(
    x: int,
    z: int,
    vx: int,
    vz: int,
    r: int,
    bounce: int,
)
    requires
        0 <= r <= 100,
        0 <= bounce <= 1024,
        num::abs(z) > 5120 * 64,
    ensures
        ({
            let c = arena::confined(x, z, vx, vz, r, bounce, true);
            &&& num::abs(x) > (893 - r) * 64 ==> num::abs(c.x) == (893 - r) * 64 && num::sign(c.x)
                == num::sign(x) && -1024 < 1024 * c.vx + vx * bounce <= 0
            &&& num::abs(x) <= (893 - r) * 64 ==> c.x == x && c.vx == vx
            &&& num::abs(z) > (6000 - r) * 64 ==> num::abs(c.z) == (6000 - r) * 64 && num::sign(c.z)
                == num::sign(z) && -1024 < 1024 * c.vz + vz * bounce <= 0
            &&& num::abs(z) <= (6000 - r) * 64 ==> c.z == z && c.vz == vz
        }),
{
    reveal(vec3::damped);
    lemma_bounce_back(vx, bounce);
    lemma_bounce_back(vz, bounce);
}

proof fn lemma_bounce_back(v: int, bounce: int)
    requires
        0 <= bounce <= 1024,
    ensures
        ({
            let r = arena::reflected(v, bounce);
            &&& -1024 < 1024 * r + v * bounce <= 0
            &&& bounce == 0 ==> r == 0
            &&& bounce >= 512 && v >= 2 ==> r < 0
            &&& bounce >= 512 && v <= -4 ==> r > 0
        }),
{
    reveal(vec3::damped);
    assert((-v) * bounce == -(v * bounce)) by (nonlinear_arith);
    if bounce == 0 {
        assert(v * 0 == 0);
    }
    if bounce >= 512 && v >= 2 {
        assert(v * bounce >= 1024) by (nonlinear_arith)
            requires
                bounce >= 512,
                v >= 2,
        ;
    }
    if bounce >= 512 && v <= -4 {
        assert(v * bounce <= -2048) by (nonlinear_arith)
            requires
                bounce >= 512,
                v <= -4,
        ;
    }
}

// ---- corners ---------------------------------------------------------------

/// A corner plane turns back what is going into it and nothing else: of the speed
/// toward the corner it leaves `bounce/1024`, turned round, and the speed along
/// the plane is untouched. A body already leaving is left alone.
pub proof fn law_a_corner_turns_a_body_back(
    x: int,
    z: int,
    vx: int,
    vz: int,
    r: int,
    bounce: int,
    mouth_open: bool,
)
    requires
        0 <= r <= 100,
        0 <= bounce <= 1024,
        0 < num::abs(x) <= (4096 - r) * 64,
        0 < num::abs(z) <= (5120 - r) * 64,
        num::abs(x) + num::abs(z) > 8064 * 64,
        num::abs(vx) <= 0x10_0000,
        num::abs(vz) <= 0x10_0000,
    ensures
        ({
            let c = arena::confined(x, z, vx, vz, r, bounce, mouth_open);
            let (sx, sz) = (num::sign(x), num::sign(z));
            let into = vx * sx + vz * sz;
            let after = c.vx * sx + c.vz * sz;
            &&& c.vx * sz - c.vz * sx == vx * sz - vz * sx
            &&& into <= 0 ==> c.vx == vx && c.vz == vz
            &&& into > 0 ==> num::abs(1024 * after + bounce * into) <= into + 7000
            &&& num::abs(c.x) <= num::abs(x) && num::abs(c.z) <= num::abs(z)
            &&& num::sign(c.x) == sx && num::sign(c.z) == sz
            &&& c.x * sx - c.z * sz == x * sx - z * sz
            &&& c.normal.x * sx == -2896 && c.normal.y == 0 && c.normal.z * sz == -2896
        }),
{
    reveal(vec3::damped);
    assert(0 <= r * 64 * 5793 / 4096 <= 9100);
    let (sx, sz) = (num::sign(x), num::sign(z));
    let b = arena::free(x, z, vx, vz);
    let over = num::abs(x) + num::abs(z) - arena::corner_limit(r);
    assert(over > 0);
    let h = over / 2;
    let step = arena::corner_step(b, bounce);
    lemma_times_sign(sx, vx);
    lemma_times_sign(sz, vz);
    lemma_times_sign(sx, vz);
    lemma_times_sign(sz, vx);
    lemma_times_sign(sx, h);
    lemma_times_sign(sz, h);
    lemma_times_sign(sx, step);
    lemma_times_sign(sz, step);
    lemma_times_sign(sx, x);
    lemma_times_sign(sz, z);
    lemma_times_sign(sx, x - sx * h);
    lemma_times_sign(sz, z - sz * h);
    lemma_times_sign(sx, vx - sx * step);
    lemma_times_sign(sz, vz - sz * step);
    lemma_times_sign(sz, vx - sx * step);
    lemma_times_sign(sx, vz - sz * step);
    lemma_times_sign(sx, -sx * 2896);
    lemma_times_sign(sz, -sz * 2896);
    let into = vx * sx + vz * sz;
    if into > 0 {
        lemma_corner_step(into, bounce);
    } else {
        assert((into * 5793) / 8192 <= 0);
    }
}

pub proof fn lemma_times_sign(s: int, v: int)
    requires
        s == 1 || s == -1,
    ensures
        s * v == if s == 1 {
            v
        } else {
            -v
        },
        v * s == s * v,
{
    assert(1 * v == v && (-1) * v == -v && v * 1 == v && v * (-1) == -v) by (nonlinear_arith);
}

proof fn lemma_corner_step(into: int, bounce: int)
    requires
        0 < into <= 0x20_0000,
        0 <= bounce <= 1024,
    ensures
        ({
            let vn = (into * 5793) / 8192;
            let j = if bounce == 0 {
                vn
            } else {
                vn + (vn * bounce) / 1024
            };
            let step = if vn > 0 {
                (j * 5793) / 8192
            } else {
                0
            };
            num::abs(1024 * (into - 2 * step) + bounce * into) <= into + 7000
        }),
{
    let vn = (into * 5793) / 8192;
    let k = (vn * bounce) / 1024;
    let j = if bounce == 0 {
        vn
    } else {
        vn + k
    };
    let step = (j * 5793) / 8192;
    assert(0 <= vn * bounce) by (nonlinear_arith)
        requires
            0 <= vn,
            0 <= bounce,
    ;
    let p = bounce * into;
    // Eight thousand times the closing speed, to within a rounding.
    assert(8192 * (vn * bounce) <= 5793 * p && 8192 * (vn * bounce) >= 5793 * p - 8191 * bounce)
        by (nonlinear_arith)
        requires
            8192 * vn <= into * 5793,
            8192 * vn >= into * 5793 - 8191,
            0 <= bounce,
            p == bounce * into,
    ;
    assert(0 <= p <= 1024 * into) by (nonlinear_arith)
        requires
            p == bounce * into,
            0 <= bounce <= 1024,
            0 < into,
    ;
    let q = vn * bounce;
    assert(bounce == 0 ==> q == 0) by (nonlinear_arith)
        requires
            q == vn * bounce,
    ;
    assert(j == vn + k);
    lemma_two_roundings(into, p, vn, q, k, step);
}

proof fn lemma_two_roundings(into: int, p: int, vn: int, q: int, k: int, step: int)
    requires
        0 < into,
        0 <= p <= 1024 * into,
        5793 * into - 8191 <= 8192 * vn <= 5793 * into,
        5793 * p - 8191 * 1024 <= 8192 * q <= 5793 * p,
        q - 1023 <= 1024 * k <= q,
        5793 * (vn + k) - 8191 <= 8192 * step <= 5793 * (vn + k),
    ensures
        num::abs(1024 * (into - 2 * step) + p) <= into + 7000,
{
    let most = 5793 * (1024 * into + p);
    assert(most - 26_000_000 <= 8388608 * (vn + k) <= most);
    let j = vn + k;
    let big = 8388608 * (8192 * step);
    assert(8388608 * (5793 * j) == 5793 * (8388608 * j));
    assert(big <= 8388608 * (5793 * j) <= 5793 * most);
    assert(big >= 8388608 * (5793 * j) - 8388608 * 8191);
    assert(5793 * (8388608 * j) >= 5793 * most - 5793 * 26_000_000);
    assert(big == 68719476736 * step);
}

// ---- the ball --------------------------------------------------------------

/// Rubbing along a surface that faces an axis leaves the speed along that axis
/// alone, however the surface itself moves: along a side wall the speed across the
/// pitch, along an end wall the speed along it, on the floor the speed up.
pub proof fn law_friction_stays_on_the_surface(b: Ball, n: V3, push: int, grip: int, other_v: V3)
    requires
        vec3::is_axis(n),
        b.v.within(0x80_0000),
        b.w.within(0x100_0000),
        other_v.within(0x40_0000),
    ensures
        n.x != 0 ==> ball::rubbed(b, n, push, grip, other_v).v.x == b.v.x,
        n.y != 0 ==> ball::rubbed(b, n, push, grip, other_v).v.y == b.v.y,
        n.z != 0 ==> ball::rubbed(b, n, push, grip, other_v).v.z == b.v.z,
        ball::rubbed(b, n, push, grip, other_v).p == b.p,
{
    let arm = ball::contact_arm(n);
    assert(n.x == 0 ==> arm.x == 0) by {
        reveal(ball::contact_arm);
    }
    assert(n.y == 0 ==> arm.y == 0) by {
        reveal(ball::contact_arm);
    }
    assert(n.z == 0 ==> arm.z == 0) by {
        reveal(ball::contact_arm);
    }
    assert(arm.within(8192)) by {
        reveal(ball::contact_arm);
    }
    let spun = vec3::cross_over(b.w, arm, 65536);
    vec3::lemma_cross_spin(b.w, arm, 0x100_0000);
    let rel = ball::patch_velocity(b, n, other_v);
    lemma_across_an_axis(rel, n);
    let slip = vec3::flattened(rel, n);
    let take = ball::stopping_share(slip.length(), push, grip) * 2 / 7;
    assert(0 * take == 0);
    reveal(vec3::along);
}

/// The same where the surface stands still.
pub proof fn law_friction_leaves_the_bounce_alone(b: Ball, n: V3, push: int, grip: int)
    requires
        vec3::is_axis(n),
        b.v.within(0x80_0000),
        b.w.within(0x100_0000),
    ensures
        n.x != 0 ==> ball::rubbed(b, n, push, grip, vec3::zero3()).v.x == b.v.x,
        n.y != 0 ==> ball::rubbed(b, n, push, grip, vec3::zero3()).v.y == b.v.y,
        n.z != 0 ==> ball::rubbed(b, n, push, grip, vec3::zero3()).v.z == b.v.z,
        ball::rubbed(b, n, push, grip, vec3::zero3()).p == b.p,
{
    law_friction_stays_on_the_surface(b, n, push, grip, vec3::zero3());
}

proof fn lemma_times_q12(n: int, v: int)
    ensures
        n == 0 ==> n * v == 0 && v * n == 0,
        n == 4096 ==> n * v == 4096 * v && v * n == 4096 * v,
        n == -4096 ==> n * v == -4096 * v && v * n == -4096 * v,
{
    assert(n * v == v * n) by (nonlinear_arith);
}

/// Nothing along an axis is left of a vector flattened across it.
proof fn lemma_across_an_axis(v: V3, n: V3)
    requires
        vec3::is_axis(n),
        v.within(0x200_0000),
    ensures
        n.x != 0 ==> vec3::flattened(v, n).x == 0,
        n.y != 0 ==> vec3::flattened(v, n).y == 0,
        n.z != 0 ==> vec3::flattened(v, n).z == 0,
{
    reveal(vec3::dot);
    reveal(vec3::along);
    let (x, y, z) = (v.x as int, v.y as int, v.z as int);
    let d = vec3::dot(v, n);
    assert(x * 0 == 0 && y * 0 == 0 && z * 0 == 0);
    assert(0 * d == 0);
    lemma_times_q12(n.x as int, x);
    lemma_times_q12(n.y as int, y);
    lemma_times_q12(n.z as int, z);
    lemma_times_q12(n.x as int, d);
    lemma_times_q12(n.y as int, d);
    lemma_times_q12(n.z as int, d);
}

} // verus!
