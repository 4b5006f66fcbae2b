//! What the ball's spin, the goal frame and the quarter pipe do, told by the
//! directions things go in.

use vstd::prelude::*;
use crate::ball;
use crate::ball::Ball;
use crate::compass;
use crate::driving;
use crate::flight;
use crate::frame;
use crate::num;
use crate::rebound;
use crate::trig::Angles;
use crate::vec3;
use crate::vec3::V3;

verus! {

/// The normal of the floor.
pub open spec fn floor_normal() -> V3 {
    V3 { x: 0, y: 4096, z: 0 }
}

/// Two numbers of which neither is on the other side of zero.
pub open spec fn same_way(a: int, b: int) -> bool {
    &&& b >= 0 ==> a >= 0
    &&& b <= 0 ==> a <= 0
}

// ---- friction ----------------------------------------------------------------

/// A ball that slides over the floor without spin is slowed, never turned back,
/// keeps at least two thirds of its speed on each axis, and starts to roll the
/// way it goes: forward about the axis to its right, and to the right about the
/// axis behind it.
pub proof fn law_a_sliding_ball_starts_to_roll(b: Ball, push: int)
    requires
        b.v.within(6400),
        b.w == vec3::zero3(),
        0 < push <= 20_000,
    ensures
        ({
            let r = ball::rubbed(b, floor_normal(), push, 358, vec3::zero3());
            &&& b.v.x >= 0 ==> 0 <= r.v.x <= b.v.x && r.v.x >= 2 * b.v.x / 3 - 1
            &&& b.v.x <= 0 ==> b.v.x <= r.v.x <= 0
            &&& b.v.z >= 0 ==> 0 <= r.v.z <= b.v.z && r.v.z >= 2 * b.v.z / 3 - 1
            &&& b.v.z <= 0 ==> b.v.z <= r.v.z <= 0
            &&& r.v.y == b.v.y
            &&& same_way(r.w.x as int, b.v.z as int)
            &&& same_way(r.w.z as int, -b.v.x)
            &&& r.w.y == 0
            &&& r.p == b.p
        }),
{
    let n = floor_normal();
    rebound::law_friction_leaves_the_bounce_alone(b, n, push, 358);
    reveal(ball::contact_arm);
    let arm = ball::contact_arm(n);
    let w = b.w;
    assert(0int * 0int == 0 && 0int * 4096 == 0 && 0 * (-5824) == 0);
    assert(vec3::cross_over(w, arm, 65536) == vec3::zero3()) by {
        reveal(vec3::cross_over);
    }
    let rel = ball::patch_velocity(b, n, vec3::zero3());
    assert(rel == b.v);
    let slip = vec3::flattened(rel, n);
    lemma_slide(rel);
    if slip.length() >= 2 {
        let take = ball::stopping_share(slip.length(), push, 358);
        lemma_share(slip.length(), push, 358);
        let part = take * 2 / 7;
        lemma_taken(slip.x as int, part);
        lemma_taken(slip.z as int, part);
        assert(0 * part == 0);
        reveal(vec3::along);
        let turn = vec3::cross(n, slip);
        assert(turn == vec3::v3(slip.z as int, 0, -slip.x)) by {
            reveal(vec3::cross_over);
            let (x, z) = (slip.x as int, slip.z as int);
            assert(0 * x == 0 && 0 * z == 0);
        }
        let up = ball::spun_up(b.w, n, slip, take);
        lemma_gain(turn.x as int, take);
        lemma_gain(turn.y as int, take);
        lemma_gain(turn.z as int, take);
        lemma_capped_way(up, 6554);
    }
}

/// A surface that moves under a ball at rest drags it along: the ball gains speed
/// the way the surface goes, never more than two sevenths of it on either axis, and
/// never the other way.
pub proof fn law_a_moving_surface_drags_the_ball(b: Ball, push: int, grip: int, under: V3)
    requires
        b.v == vec3::zero3(),
        b.w == vec3::zero3(),
        under.within(6400),
        under.y == 0,
        0 < push <= 20_000,
        0 <= grip <= 2048,
    ensures
        ({
            let r = ball::rubbed(b, floor_normal(), push, grip, under);
            &&& under.x >= 0 ==> 0 <= r.v.x && 7 * r.v.x <= 2 * under.x + 7
            &&& under.x <= 0 ==> r.v.x <= 0 && 7 * r.v.x >= 2 * under.x - 7
            &&& under.z >= 0 ==> 0 <= r.v.z && 7 * r.v.z <= 2 * under.z + 7
            &&& under.z <= 0 ==> r.v.z <= 0 && 7 * r.v.z >= 2 * under.z - 7
            &&& r.v.y == 0
        }),
{
    let n = floor_normal();
    rebound::law_friction_stays_on_the_surface(b, n, push, grip, under);
    let arm = ball::contact_arm(n);
    let (ax, ay, az) = (arm.x as int, arm.y as int, arm.z as int);
    assert(0 * ax == 0 && 0 * ay == 0 && 0 * az == 0) by (nonlinear_arith);
    assert(vec3::cross_over(b.w, arm, 65536) == vec3::zero3()) by {
        reveal(vec3::cross_over);
    }
    let rel = ball::patch_velocity(b, n, under);
    assert(rel == vec3::v3(-under.x, 0, -under.z));
    let slip = vec3::flattened(rel, n);
    lemma_slide(rel);
    if slip.length() >= 2 {
        let take = ball::stopping_share(slip.length(), push, grip);
        lemma_share(slip.length(), push, grip);
        let part = take * 2 / 7;
        lemma_taken(slip.x as int, part);
        lemma_taken(slip.z as int, part);
        let (px, pz) = (slip.x * part, slip.z * part);
        assert(slip.x <= 0 ==> px >= 1170 * slip.x) by (nonlinear_arith)
            requires
                px == slip.x * part,
                0 <= part <= 1170,
        ;
        assert(slip.z <= 0 ==> pz >= 1170 * slip.z) by (nonlinear_arith)
            requires
                pz == slip.z * part,
                0 <= part <= 1170,
        ;
        reveal(vec3::along);
    }
}

/// A ball that spins on the floor without moving is driven the way its spin turns
/// it: forward when it turns forward, and to the right when it turns to the right.
pub proof fn law_a_spinning_ball_is_driven(b: Ball, push: int)
    requires
        b.v == vec3::zero3(),
        b.w.within(0x10_0000),
        b.w.y == 0,
        0 < push <= 20_000,
    ensures
        ({
            let r = ball::rubbed(b, floor_normal(), push, 358, vec3::zero3());
            &&& b.w.x >= 12 ==> r.v.z >= 0
            &&& b.w.x <= 0 ==> r.v.z <= 0
            &&& b.w.z <= 0 ==> r.v.x >= 0
            &&& b.w.z >= 12 ==> r.v.x <= 0
            &&& r.v.y == 0
            &&& push >= 5000 && b.w.x >= 100 && b.w.z == 0 && b.w.x <= 6554 ==> r.v.z > 0
            &&& push >= 5000 && b.w.x <= -100 && b.w.z == 0 && b.w.x >= -6554 ==> r.v.z < 0
        }),
{
    let n = floor_normal();
    rebound::law_friction_leaves_the_bounce_alone(b, n, push, 358);
    reveal(ball::contact_arm);
    let arm = ball::contact_arm(n);
    let w = b.w;
    assert(arm == vec3::v3(0, -5824, 0));
    let rel = ball::patch_velocity(b, n, vec3::zero3());
    let (wx, wz) = (w.x as int, w.z as int);
    assert(rel.x == (5824 * wz) / 65536 && rel.z == (-5824 * wx) / 65536 && rel.y == 0) by {
        reveal(vec3::cross_over);
        assert(0 * wx == 0 && 0 * wz == 0 && 0int * 0int == 0);
        assert(w.y * arm.z - w.z * arm.y == 5824 * wz) by (nonlinear_arith)
            requires
                w.z == wz,
                w.y == 0,
                arm.y == -5824,
        ;
        assert(w.x * arm.y - w.y * arm.x == -5824 * wx) by (nonlinear_arith)
            requires
                w.x == wx,
                w.y == 0,
                arm.y == -5824,
        ;
        assert(w.z * arm.x - w.x * arm.z == 0) by (nonlinear_arith)
            requires
                arm.x == 0,
                arm.z == 0,
        ;
    }
    let slip = vec3::flattened(rel, n);
    lemma_slide(rel);
    if slip.length() >= 2 {
        let take = ball::stopping_share(slip.length(), push, 358);
        lemma_share(slip.length(), push, 358);
        let part = take * 2 / 7;
        lemma_taken(slip.x as int, part);
        lemma_taken(slip.z as int, part);
        reveal(vec3::along);
        if push >= 5000 && w.z == 0 && -6554 <= w.x <= 6554 {
            lemma_level_length(slip);
            assert(slip.length() <= 600);
            assert(take == 4096) by {
                reveal(ball::stopping_share);
                assert((push * 358) / 1024 >= 1700);
            }
            assert(part == 1170);
        }
    } else if w.z == 0 && -6554 <= w.x <= 6554 {
        lemma_level_length(slip);
    }
}

pub proof fn lemma_level_length(v: V3)
    requires
        v.y == 0,
        v.x == 0,
        v.within(40_000),
    ensures
        v.length() == num::abs(v.z as int),
{
    reveal(V3::square);
    let z = v.z as int;
    assert(0int * 0int == 0);
    assert(v.square() == z * z);
    num::lemma_mul_bound(z, z, 40_000, 40_000);
    vec3::lemma_length_covers(v);
    let r = v.length();
    assert(r == num::abs(z)) by {
        assert(num::abs(z) * num::abs(z) == z * z) by (nonlinear_arith)
            requires
                num::abs(z) == if z < 0 {
                    -z
                } else {
                    z
                },
        ;
        let a = num::abs(z);
        assert(z * z < (a + 1) * (a + 1)) by (nonlinear_arith)
            requires
                a * a == z * z,
                a >= 0,
        ;
        num::lemma_root_unique(r, a, z * z);
    }
}

/// On the floor only the level part of a velocity slides.
pub proof fn lemma_slide(v: V3)
    requires
        v.within(0x100_0000),
    ensures
        vec3::flattened(v, floor_normal()) == vec3::v3(v.x as int, 0, v.z as int),
{
    reveal(vec3::dot);
    reveal(vec3::along);
    let (x, y, z) = (v.x as int, v.y as int, v.z as int);
    assert(x * 0 == 0 && z * 0 == 0);
    assert(v.y * 4096 == 4096 * y);
    let d = vec3::dot(v, floor_normal());
    assert(d == y);
    assert(0 * d == 0 && 4096 * d == 4096 * y);
}

pub proof fn lemma_share(slip: int, push: int, grip: int)
    requires
        2 <= slip,
        0 < push,
        0 <= grip,
    ensures
        0 <= ball::stopping_share(slip, push, grip) <= 4096,
{
    reveal(ball::stopping_share);
    let full = slip * 2 / 7;
    assert(0 <= push * grip) by (nonlinear_arith)
        requires
            0 < push,
            0 <= grip,
    ;
    let cap = (push * grip) / 1024;
    if full > cap {
        assert(0 <= 4096 * cap / full <= 4096) by (nonlinear_arith)
            requires
                0 <= cap < full,
        ;
    }
}

/// A share of a number no larger than two sevenths is on the number's side.
proof fn lemma_taken(v: int, part: int)
    requires
        0 <= part <= 1170,
    ensures
        v >= 0 ==> 0 <= (v * part) / 4096 <= 1170 * v / 4096,
        v <= 0 ==> v <= (v * part) / 4096 <= 0,
        part == 1170 && v >= 8 ==> (v * part) / 4096 > 0,
        part == 1170 && v <= -1 ==> (v * part) / 4096 < 0,
{
    let p = v * part;
    assert(v >= 0 ==> 0 <= p <= 1170 * v) by (nonlinear_arith)
        requires
            p == v * part,
            0 <= part <= 1170,
    ;
    assert(v <= 0 ==> 1170 * v <= p <= 0) by (nonlinear_arith)
        requires
            p == v * part,
            0 <= part <= 1170,
    ;
    assert(part == 1170 ==> p == 1170 * v) by (nonlinear_arith)
        requires
            p == v * part,
    ;
}

proof fn lemma_gain(turn: int, take: int)
    requires
        -20_000 <= turn <= 20_000,
        0 <= take <= 4096,
    ensures
        same_way(ball::spin_gain(turn, take), turn),
        -200_000 <= ball::spin_gain(turn, take) <= 200_000,
{
    reveal(ball::spin_gain);
    let p = turn * take;
    num::lemma_mul_bound(turn, take, 20_000, 4096);
    assert(turn >= 0 ==> p >= 0) by (nonlinear_arith)
        requires
            p == turn * take,
            take >= 0,
    ;
    assert(turn <= 0 ==> p <= 0) by (nonlinear_arith)
        requires
            p == turn * take,
            take >= 0,
    ;
}

/// A vector that is brought down to a length keeps its direction.
proof fn lemma_capped_way(v: V3, limit: int)
    requires
        0 <= limit <= 6620,
        v.within(1_000_000),
    ensures
        same_way(vec3::capped(v, limit).x as int, v.x as int),
        same_way(vec3::capped(v, limit).y as int, v.y as int),
        same_way(vec3::capped(v, limit).z as int, v.z as int),
{
    if v.length() > limit {
        let len = v.length();
        reveal(vec3::scaled);
        lemma_scaled_way(v.x as int, limit, len);
        lemma_scaled_way(v.y as int, limit, len);
        lemma_scaled_way(v.z as int, limit, len);
    }
}

proof fn lemma_scaled_way(c: int, k: int, len: int)
    requires
        0 <= k <= 6620,
        k < len,
        num::abs(c) <= 1_000_000,
    ensures
        same_way(num::tdiv(c * k, len), c),
        num::abs(num::tdiv(c * k, len)) <= 1_000_000,
{
    let p = c * k;
    assert(c >= 0 ==> p >= 0) by (nonlinear_arith)
        requires
            p == c * k,
            k >= 0,
    ;
    assert(c <= 0 ==> p <= 0) by (nonlinear_arith)
        requires
            p == c * k,
            k >= 0,
    ;
    assert(p >= 0 ==> p / len >= 0) by (nonlinear_arith)
        requires
            len > 0,
    ;
    assert(p <= 0 ==> (-p) / len >= 0) by (nonlinear_arith)
        requires
            len > 0,
    ;
    num::lemma_mul_bound(c, k, 1_000_000, k);
    assert(num::abs(p) <= 1_000_000 * len) by (nonlinear_arith)
        requires
            num::abs(p) <= 1_000_000 * k,
            k < len,
    ;
    num::lemma_tdiv_bound(p, len, 1_000_000);
}

// ---- the drawn roll ----------------------------------------------------------------

/// The ball is drawn rolling about the axis it spins about, by what it turns in a
/// tick: 652 of a turn's 4096 to the radian. Hardly spinning, it is drawn still.
pub proof fn law_the_drawn_roll_follows_the_spin(t: Angles, b: Ball)
    requires
        compass::true_bearings(t),
        b.w.within(20_000),
    ensures
        ({
            let r = flight::rolled(t, b);
            let spin = b.w.length_xz();
            &&& spin > 32 ==> {
                &&& b.w.x >= 0 ==> t.cos(r.roll_dir) >= 0
                &&& b.w.x <= 0 ==> t.cos(r.roll_dir) <= 0
                &&& b.w.z >= 0 ==> t.sin(r.roll_dir) <= 0
                &&& b.w.z <= 0 ==> t.sin(r.roll_dir) >= 0
                &&& driving::bend(b.roll, r.roll) == (spin * 652) / 65536
            }
            &&& spin <= 32 ==> r == b
            &&& r.p == b.p && r.v == b.v && r.w == b.w
        }),
{
    let spin = b.w.length_xz();
    reveal(V3::square_xz);
    let (x, z) = (b.w.x as int, b.w.z as int);
    assert(x * x >= 0 && z * z >= 0) by (nonlinear_arith);
    num::lemma_mul_bound(x, x, 20_000, 20_000);
    num::lemma_mul_bound(z, z, 20_000, 20_000);
    vec3::lemma_root_exists(x * x + z * z);
    assert(spin <= 30_000) by (nonlinear_arith)
        requires
            0 <= spin,
            spin * spin <= 800_000_000,
    ;
    if spin > 32 {
        if x == 0 && z == 0 {
            assert(0int * 0int == 0);
            assert(spin == 0) by (nonlinear_arith)
                requires
                    0 <= spin,
                    spin * spin <= 0,
            ;
        }
        assert(compass::points(t, ((-z) as i32) as int, (x as i32) as int));
        driving::lemma_bend(b.roll, (spin * 652) / 65536);
    }
}

// ---- bounces off a surface -----------------------------------------------------

/// A ball that is leaving a surface is left alone by it.
pub proof fn law_a_leaving_ball_is_left_alone(b: Ball, n: V3)
    requires
        b.v.x * n.x + b.v.y * n.y + b.v.z * n.z >= 0,
    ensures
        frame::bounced(b, n) == b,
{
    reveal(vec3::dot);
}

/// Square on, a ball that runs into a surface comes back along the normal at six
/// tenths of the speed it ran in at.
pub proof fn law_a_ball_comes_back_square_on(b: Ball, n: V3)
    requires
        vec3::is_axis(n),
        b.v.within(0x1_0000),
        b.w.within(0x10_0000),
    ensures
        ({
            let r = frame::bounced(b, n);
            &&& b.v.x * n.x < 0 ==> -1024 <= 1024 * r.v.x + 614 * b.v.x <= 1024
            &&& b.v.y * n.y < 0 ==> -1024 <= 1024 * r.v.y + 614 * b.v.y <= 1024
            &&& b.v.z * n.z < 0 ==> -1024 <= 1024 * r.v.z + 614 * b.v.z <= 1024
            &&& r.p == b.p
        }),
{
    lemma_turned_round(b.v, n);
    let vn = vec3::dot(b.v, n);
    if vn < 0 {
        let push = frame::bounce_push(vn);
        let turned = Ball { v: vec3::added(b.v, n, push), ..b };
        rebound::law_friction_leaves_the_bounce_alone(turned, n, push, 358);
    }
}

proof fn lemma_turned_round(v: V3, n: V3)
    requires
        vec3::is_axis(n),
        v.within(0x1_0000),
    ensures
        ({
            let vn = vec3::dot(v, n);
            let u = vec3::added(v, n, frame::bounce_push(vn));
            &&& v.x * n.x < 0 ==> vn < 0 && -1024 <= 1024 * u.x + 614 * v.x <= 1024
            &&& v.y * n.y < 0 ==> vn < 0 && -1024 <= 1024 * u.y + 614 * v.y <= 1024
            &&& v.z * n.z < 0 ==> vn < 0 && -1024 <= 1024 * u.z + 614 * v.z <= 1024
            &&& vn < 0 ==> u.within(0x4_0000)
        }),
{
    reveal(vec3::dot);
    reveal(vec3::along);
    let (x, y, z) = (v.x as int, v.y as int, v.z as int);
    assert(x * 0 == 0 && y * 0 == 0 && z * 0 == 0) by (nonlinear_arith);
    let push = frame::bounce_push(vec3::dot(v, n));
    assert(0 * push == 0) by (nonlinear_arith);
    if n.x != 0 {
        lemma_turned_axis(x, n.x as int);
        assert(vec3::dot(v, n) == (x * n.x) / 4096);
    } else if n.y != 0 {
        lemma_turned_axis(y, n.y as int);
        assert(vec3::dot(v, n) == (y * n.y) / 4096);
    } else {
        lemma_turned_axis(z, n.z as int);
        assert(vec3::dot(v, n) == (z * n.z) / 4096);
    }
}

proof fn lemma_turned_axis(v: int, n: int)
    requires
        n == 4096 || n == -4096,
        -0x1_0000 <= v <= 0x1_0000,
    ensures
        ({
            let vn = (v * n) / 4096;
            let push = frame::bounce_push(vn);
            let u = v + (n * push) / 4096;
            &&& v * n < 0 ==> vn < 0 && -1024 <= 1024 * u + 614 * v <= 1024
            &&& -0x3_0000 <= (n * push) / 4096 <= 0x3_0000
        }),
{
    reveal(vec3::damped);
    let vn = (v * n) / 4096;
    let push = frame::bounce_push(vn);
    lemma_axis_parts(v, n);
    lemma_axis_parts(push, n);
    if n == 4096 {
        assert(vn == v);
    } else {
        assert(vn == -v);
    }
}

proof fn lemma_axis_parts(v: int, n: int)
    ensures
        n == 0 ==> n * v == 0 && v * n == 0,
        n == 4096 ==> n * v == 4096 * v && v * n == 4096 * v,
        n == -4096 ==> n * v == -4096 * v && v * n == -4096 * v,
{
    assert(n * v == v * n) by (nonlinear_arith);
}

/// The crossbar throws back a ball that runs into it from the front or from
/// behind: out to 6912 from the bar on the side it came from, and away from it at
/// six tenths of its speed.
pub proof fn law_the_crossbar_throws_the_ball_back(b: Ball, side: int)
    requires
        side == 1 || side == -1,
        num::abs(b.p.x as int) <= 50_000,
        b.p.y == 41_152,
        0 < num::abs(b.p.z - side * 327_680) < 6912,
        b.v.within(6400),
        b.w.within(0x10_0000),
    ensures
        ({
            let r = frame::off_frame(b);
            let dz = b.p.z - side * 327_680;
            &&& r.p.x == b.p.x && r.p.y == b.p.y
            &&& dz > 0 ==> r.p.z == side * 327_680 + 6912
            &&& dz < 0 ==> r.p.z == side * 327_680 - 6912
            &&& dz > 0 && b.v.z < 0 ==> -1024 <= 1024 * r.v.z + 614 * b.v.z <= 1024
            &&& dz < 0 && b.v.z > 0 ==> -1024 <= 1024 * r.v.z + 614 * b.v.z <= 1024
            &&& dz > 0 && b.v.z >= 0 ==> r.v == b.v
            &&& dz < 0 && b.v.z <= 0 ==> r.v == b.v
        }),
{
    let dz = b.p.z - side * 327_680;
    let d = frame::gap_to_bar(b.p, side);
    assert(d == vec3::v3(0, 0, dz));
    assert(frame::goal_side(b.p.z as int) == side);
    assert(!frame::short(frame::gap_to_post(b.p, -frame::MOUTH as int, side)));
    assert(!frame::short(frame::gap_to_post(b.p, frame::MOUTH as int, side)));
    lemma_level_length(d);
    let a = num::abs(dz);
    reveal(V3::square);
    assert(0int * 0int == 0);
    assert(d.square() == dz * dz);
    assert(0 < dz * dz < 6912 * 6912) by (nonlinear_arith)
        requires
            0 < a < 6912,
            a == dz || a == -dz,
    ;
    assert(num::root(d.square()) == a) by {
        vec3::lemma_length_covers(d);
    }
    assert(frame::frame_touch(b.p) == Some(d));
    let n = frame::frame_normal(d, side);
    reveal(vec3::scaled);
    assert(num::tdiv(dz * 4096, a) == if dz > 0 {
        4096int
    } else {
        -4096int
    }) by {
        assert((a * 4096) / a == 4096) by (nonlinear_arith)
            requires
                a > 0,
        ;
    }
    assert(num::tdiv(0, a) == 0) by {
        assert(0int / a == 0) by (nonlinear_arith)
            requires
                a > 0,
        ;
    }
    assert(n.x == 0 && n.y == 0 && n.z == if dz > 0 {
        4096int
    } else {
        -4096int
    });
    let out = 6912 - a;
    reveal(vec3::along);
    lemma_axis_parts(out, n.z as int);
    assert(0 * out == 0);
    let moved = Ball { p: vec3::added(b.p, n, out), ..b };
    let (vx, vy, vz) = (b.v.x as int, b.v.y as int, b.v.z as int);
    lemma_axis_parts(vx, 0);
    lemma_axis_parts(vy, 0);
    lemma_axis_parts(vz, n.z as int);
    law_a_ball_comes_back_square_on(moved, n);
    if b.v.z * n.z >= 0 {
        law_a_leaving_ball_is_left_alone(moved, n);
    }
}

/// A post throws the ball out sideways, to 6912 from it on the side it is on.
pub proof fn law_a_post_throws_the_ball_out(b: Ball, side: int, post: int)
    requires
        side == 1 || side == -1,
        post == 57_152 || post == -57_152,
        0 <= b.p.y <= 30_000,
        b.p.z == side * 327_680,
        0 < num::abs(b.p.x - post) < 6912,
        b.v.within(6400),
        b.w.within(0x10_0000),
    ensures
        ({
            let r = frame::off_frame(b);
            let dx = b.p.x - post;
            &&& r.p.z == b.p.z && r.p.y == b.p.y
            &&& dx > 0 ==> r.p.x == post + 6912
            &&& dx < 0 ==> r.p.x == post - 6912
            &&& dx > 0 && b.v.x < 0 ==> -1024 <= 1024 * r.v.x + 614 * b.v.x <= 1024
            &&& dx < 0 && b.v.x > 0 ==> -1024 <= 1024 * r.v.x + 614 * b.v.x <= 1024
            &&& dx > 0 && b.v.x >= 0 ==> r.v == b.v
            &&& dx < 0 && b.v.x <= 0 ==> r.v == b.v
        }),
{
    let dx = b.p.x - post;
    let d = frame::gap_to_post(b.p, post, side);
    assert(d == vec3::v3(dx, 0, 0));
    assert(frame::goal_side(b.p.z as int) == side);
    assert(!frame::short(frame::gap_to_post(b.p, -post, side)));
    assert(!frame::short(frame::gap_to_bar(b.p, side)));
    let a = num::abs(dx);
    lemma_across_length(d);
    reveal(V3::square);
    assert(0int * 0int == 0);
    assert(d.square() == dx * dx);
    assert(0 < dx * dx < 6912 * 6912) by (nonlinear_arith)
        requires
            0 < a < 6912,
            a == dx || a == -dx,
    ;
    assert(num::root(d.square()) == a) by {
        vec3::lemma_length_covers(d);
    }
    assert(frame::frame_touch(b.p) == Some(d));
    let n = frame::frame_normal(d, side);
    reveal(vec3::scaled);
    assert(num::tdiv(dx * 4096, a) == if dx > 0 {
        4096int
    } else {
        -4096int
    }) by {
        assert((a * 4096) / a == 4096) by (nonlinear_arith)
            requires
                a > 0,
        ;
    }
    assert(num::tdiv(0, a) == 0) by {
        assert(0int / a == 0) by (nonlinear_arith)
            requires
                a > 0,
        ;
    }
    assert(n.z == 0 && n.y == 0 && n.x == if dx > 0 {
        4096int
    } else {
        -4096int
    });
    let out = 6912 - a;
    reveal(vec3::along);
    lemma_axis_parts(out, n.x as int);
    assert(0 * out == 0);
    let moved = Ball { p: vec3::added(b.p, n, out), ..b };
    let (vx, vy, vz) = (b.v.x as int, b.v.y as int, b.v.z as int);
    lemma_axis_parts(vz, 0);
    lemma_axis_parts(vy, 0);
    lemma_axis_parts(vx, n.x as int);
    law_a_ball_comes_back_square_on(moved, n);
    if b.v.x * n.x >= 0 {
        law_a_leaving_ball_is_left_alone(moved, n);
    }
}

pub proof fn lemma_across_length(v: V3)
    requires
        v.y == 0,
        v.z == 0,
        v.within(40_000),
    ensures
        v.length() == num::abs(v.x as int),
{
    let turned = V3 { x: 0, y: 0, z: v.x };
    lemma_level_length(turned);
    reveal(V3::square);
    assert(0int * 0int == 0);
    assert(v.square() == turned.square());
}

} // verus!
