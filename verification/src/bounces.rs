//! A tick of the ball's flight, told by where it ends up: in the open, on the
//! floor, under the ceiling and against the walls.

use vstd::prelude::*;
use crate::arena;
use crate::ball;
use crate::ball::Ball;
use crate::flight;
use crate::frame;
use crate::num;
use crate::ramp;
use crate::rebound;
use crate::surfaces;
use crate::vec3;
use crate::vec3::V3;

verus! {

/// Where a tick takes the ball before it meets anything.
pub open spec fn heads_for(b: Ball, gravity: int) -> V3 {
    vec3::v3(b.p.x + b.v.x, b.p.y + b.v.y - gravity, b.p.z + b.v.z)
}

/// The ball is on the field, at no more than half its top speed on any axis.
pub open spec fn in_flight(b: Ball, gravity: int) -> bool {
    &&& b.p.within(0x10_0000)
    &&& b.v.within(3000)
    &&& b.w.within(0x10_0000)
    &&& 0 <= gravity <= 20
}

/// Nothing but the floor and the ceiling is near.
pub open spec fn in_the_open(p: V3) -> bool {
    &&& num::abs(p.x as int) <= 230_000
    &&& num::abs(p.z as int) <= 300_000
    &&& num::abs(p.x as int) + num::abs(p.z as int) <= 480_000
}

/// What a tick of drag leaves of a level speed: all but a two-thousandth, to a
/// sub-unit.
pub open spec fn barely_slowed(after: int, before: int) -> bool {
    &&& -4096 < 4096 * after - 4094 * before <= 0
}

/// In the open the ball falls freely: it moves by its speed, gravity comes off
/// its climb, drag takes a two-thousandth of its level speed, and its spin stays.
pub proof fn law_a_ball_in_the_open_falls_freely(b: Ball, gravity: int)
    requires
        in_flight(b, gravity),
        in_the_open(heads_for(b, gravity)),
        5824 < heads_for(b, gravity).y <= 124_992,
    ensures
        ({
            let r = flight::flown(b, gravity);
            &&& r.p == heads_for(b, gravity)
            &&& r.v.y == b.v.y - gravity
            &&& barely_slowed(r.v.x as int, b.v.x as int)
            &&& barely_slowed(r.v.z as int, b.v.z as int)
            &&& r.w == b.w
            &&& !r.grounded
            &&& flight::goal_by(b, gravity) is None
        }),
{
    lemma_drift(b, gravity);
    let d = flight::drifted(b, gravity);
    let level = flight::under_ceiling(flight::on_floor(d, gravity));
    lemma_open(level);
}

/// The floor turns a fall round: a ball that reaches it is put down on it, and
/// climbs at six tenths of the speed it came down at. One that came down slower
/// than 24 stays down.
pub proof fn law_a_ball_bounces_off_the_floor(b: Ball, gravity: int)
    requires
        in_flight(b, gravity),
        in_the_open(heads_for(b, gravity)),
        heads_for(b, gravity).y <= 5824,
    ensures
        ({
            let r = flight::flown(b, gravity);
            let vy = b.v.y - gravity;
            let to = heads_for(b, gravity);
            &&& r.p.x == to.x && r.p.z == to.z && r.p.y == 5824
            &&& vy < -24 ==> -1024 < 1024 * r.v.y + 614 * vy <= 0 && r.v.y > 0
            &&& vy >= -24 ==> r.v.y == 0
            &&& r.grounded
        }),
{
    lemma_drift(b, gravity);
    let d = flight::drifted(b, gravity);
    reveal(vec3::damped);
    let vy = flight::floor_speed(d.v.y as int);
    let laid = Ball {
        p: V3 { y: flight::BALL_FLOOR, ..d.p },
        v: V3 { y: vy as i32, ..d.v },
        grounded: true,
        ..d
    };
    let push = num::max(num::max(-d.v.y, 0) + vy, gravity);
    rebound::law_friction_leaves_the_bounce_alone(laid, vec3::v3(0, 4096, 0), push, 358);
    let level = flight::under_ceiling(flight::on_floor(d, gravity));
    lemma_open(level);
}

/// The floor slows a ball that slides over it without spin and sets it rolling the
/// way it goes. It is never turned back, and a slide straight across the pitch is
/// slowed by more than the air does.
pub proof fn law_the_floor_sets_a_sliding_ball_rolling(b: Ball, gravity: int)
    requires
        in_flight(b, gravity),
        in_the_open(heads_for(b, gravity)),
        heads_for(b, gravity).y <= 5824,
        gravity >= 11,
        b.w == vec3::zero3(),
    ensures
        ({
            let r = flight::flown(b, gravity);
            &&& b.v.x >= 1 ==> 0 <= r.v.x <= b.v.x
            &&& b.v.x <= 0 ==> b.v.x - 1 <= r.v.x <= 0
            &&& b.v.z >= 1 ==> 0 <= r.v.z <= b.v.z
            &&& b.v.z <= 0 ==> b.v.z - 1 <= r.v.z <= 0
            &&& b.v.z >= 1 ==> r.w.x >= 0
            &&& b.v.z <= 0 ==> r.w.x <= 0
            &&& b.v.x >= 1 ==> r.w.z <= 0
            &&& b.v.x <= 0 ==> r.w.z >= 0
            &&& 120 <= b.v.x <= 2900 && b.v.z == 0 ==> 4096 * r.v.x <= 4094 * b.v.x - 4096
        }),
{
    lemma_drift(b, gravity);
    let d = flight::drifted(b, gravity);
    reveal(vec3::damped);
    let vy = flight::floor_speed(d.v.y as int);
    let laid = Ball {
        p: V3 { y: flight::BALL_FLOOR, ..d.p },
        v: V3 { y: vy as i32, ..d.v },
        grounded: true,
        ..d
    };
    let push = num::max(num::max(-d.v.y, 0) + vy, gravity);
    let n = surfaces::floor_normal();
    assert(vec3::v3(0, 4096, 0) == n);
    assert(0 < push <= 20_000);
    surfaces::law_a_sliding_ball_starts_to_roll(laid, push);
    rebound::law_friction_leaves_the_bounce_alone(laid, n, push, 358);
    let level = flight::under_ceiling(flight::on_floor(d, gravity));
    lemma_open(level);
    if 120 <= b.v.x <= 2900 && b.v.z == 0 {
        assert(d.v.z == 0);
        lemma_slides_less(laid, push);
    }
}

/// Resting on the floor with its weight alone, a slide across it is slowed.
proof fn lemma_slides_less(b: Ball, push: int)
    requires
        b.w == vec3::zero3(),
        b.v.z == 0,
        100 <= b.v.x <= 2900,
        -3100 <= b.v.y <= 3100,
        11 <= push <= 20_000,
    ensures
        ball::rubbed(b, surfaces::floor_normal(), push, 358, vec3::zero3()).v.x <= b.v.x - 1,
{
    let n = surfaces::floor_normal();
    let arm = ball::contact_arm(n);
    let (ax, ay, az) = (arm.x as int, arm.y as int, arm.z as int);
    assert(0 * ax == 0 && 0 * ay == 0 && 0 * az == 0) by (nonlinear_arith);
    assert(vec3::cross_over(b.w, arm, 65536) == vec3::zero3()) by {
        reveal(vec3::cross_over);
    }
    let rel = ball::patch_velocity(b, n, vec3::zero3());
    assert(rel == b.v);
    surfaces::lemma_slide(rel);
    let slip = vec3::flattened(rel, n);
    surfaces::lemma_across_length(slip);
    let s = b.v.x as int;
    assert(slip.length() == s);
    let take = ball::stopping_share(s, push, 358);
    let cap = (push * 358) / 1024;
    assert(cap >= 3);
    let full = s * 2 / 7;
    reveal(ball::stopping_share);
    if full > cap {
        assert(take == 4096 * cap / full);
        assert(take * full > 4096 * cap - full) by (nonlinear_arith)
            requires
                take == 4096 * cap / full,
                full > 0,
        ;
        assert(take * full >= 12288 - full);
        let part = take * 2 / 7;
        assert(7 * part >= 2 * take - 6);
        assert(7 * (part * full) >= 2 * (take * full) - 6 * full) by (nonlinear_arith)
            requires
                7 * part >= 2 * take - 6,
                full > 0,
        ;
        assert(2 * s >= 7 * full);
        assert(take >= 0) by (nonlinear_arith)
            requires
                take == 4096 * cap / full,
                full > 0,
                cap >= 0,
        ;
        assert(2 * (s * part) >= 7 * (part * full)) by (nonlinear_arith)
            requires
                2 * s >= 7 * full,
                part >= 0,
        ;
        assert(full <= 828);
        assert(s * part >= 4096);
    } else {
        assert(take == 4096);
        assert(take * 2 / 7 == 1170);
        assert(s * 1170 >= 4096);
    }
    let part = take * 2 / 7;
    surfaces::lemma_share(s, push, 358);
    num::lemma_mul_bound(s, part, 2900, 1170);
    assert(s * part >= 4096);
    assert(slip.x * part == s * part);
    reveal(vec3::along);
    assert(vec3::along(slip, part).x == (s * part) / 4096);
}

/// The ceiling turns a climb round at six tenths of its speed.
pub proof fn law_a_ball_bounces_off_the_ceiling(b: Ball, gravity: int)
    requires
        in_flight(b, gravity),
        in_the_open(heads_for(b, gravity)),
        heads_for(b, gravity).y > 124_992,
    ensures
        ({
            let r = flight::flown(b, gravity);
            let vy = b.v.y - gravity;
            let to = heads_for(b, gravity);
            &&& r.p.x == to.x && r.p.z == to.z && r.p.y == 124_992
            &&& 0 <= 1024 * r.v.y + 614 * vy < 1024
            &&& vy >= 2 ==> r.v.y < 0
            &&& !r.grounded
        }),
{
    lemma_drift(b, gravity);
    let d = flight::drifted(b, gravity);
    reveal(vec3::damped);
    let up = flight::on_floor(d, gravity);
    let vy = -vec3::damped(up.v.y as int, 614);
    let laid = Ball {
        p: V3 { y: flight::BALL_CEILING, ..up.p },
        v: V3 { y: vy as i32, ..up.v },
        ..up
    };
    let push = num::max(up.v.y as int, 0) - vy;
    rebound::law_friction_leaves_the_bounce_alone(laid, vec3::v3(0, -4096, 0), push, 358);
    let level = flight::under_ceiling(up);
    lemma_open(level);
}

/// A side wall sends the ball back across the pitch at six tenths of its speed,
/// and puts it down on the wall.
pub proof fn law_a_ball_bounces_off_a_side_wall(b: Ball, gravity: int)
    requires
        in_flight(b, gravity),
        num::abs(heads_for(b, gravity).x as int) > 256_320,
        num::abs(heads_for(b, gravity).z as int) <= 230_000,
        16_640 <= heads_for(b, gravity).y <= 124_992,
    ensures
        ({
            let r = flight::flown(b, gravity);
            let to = heads_for(b, gravity);
            &&& r.p.x == if to.x > 0 {
                256_320int
            } else {
                -256_320int
            }
            &&& r.p.y == to.y && r.p.z == to.z
            &&& b.v.x >= 10 ==> r.v.x < 0 && 59 * b.v.x - 300 <= -100 * r.v.x <= 60 * b.v.x + 300
            &&& b.v.x <= -10 ==> r.v.x > 0 && -59 * b.v.x - 300 <= 100 * r.v.x <= -60 * b.v.x + 300
        }),
{
    lemma_drift(b, gravity);
    let d = flight::drifted(b, gravity);
    let level = flight::under_ceiling(flight::on_floor(d, gravity));
    assert(level == (Ball { grounded: false, ..d }));
    assert(frame::off_frame(level) == level);
    assert(flight::up_ramp(level) == level);
    rebound::law_a_side_wall_turns_a_body_back(
        level.p.x as int,
        level.p.z as int,
        level.v.x as int,
        level.v.z as int,
        91,
        614,
        false,
    );
    let c = flight::ball_confined(level);
    let held = Ball {
        p: vec3::v3(c.x, level.p.y as int, c.z),
        v: vec3::v3(c.vx, level.v.y as int, c.vz),
        ..level
    };
    let push = vec3::dot(held.v, c.normal) - vec3::dot(level.v, c.normal);
    rebound::law_friction_leaves_the_bounce_alone(held, c.normal, push, 358);
    assert(flight::within_walls(level).v.x == c.vx);
    assert(flight::within_walls(level).p == held.p);
}

/// An end wall, over the goals, does the same along the pitch.
pub proof fn law_a_ball_bounces_off_an_end_wall(b: Ball, gravity: int)
    requires
        in_flight(b, gravity),
        num::abs(heads_for(b, gravity).z as int) > 321_856,
        num::abs(heads_for(b, gravity).z as int) <= 327_680,
        num::abs(heads_for(b, gravity).x as int) <= 170_000,
        60_000 <= heads_for(b, gravity).y <= 124_992,
    ensures
        ({
            let r = flight::flown(b, gravity);
            let to = heads_for(b, gravity);
            &&& r.p.z == if to.z > 0 {
                321_856int
            } else {
                -321_856int
            }
            &&& r.p.y == to.y && r.p.x == to.x
            &&& b.v.z >= 10 ==> r.v.z < 0 && 59 * b.v.z - 300 <= -100 * r.v.z <= 60 * b.v.z + 300
            &&& b.v.z <= -10 ==> r.v.z > 0 && -59 * b.v.z - 300 <= 100 * r.v.z <= -60 * b.v.z + 300
            &&& flight::goal_by(b, gravity) is None
        }),
{
    lemma_drift(b, gravity);
    let d = flight::drifted(b, gravity);
    let level = flight::under_ceiling(flight::on_floor(d, gravity));
    assert(level == (Ball { grounded: false, ..d }));
    assert(frame::frame_gap(level.p) is None);
    assert(frame::off_frame(level) == level);
    assert(flight::up_ramp(level) == level);
    rebound::law_an_end_wall_turns_a_body_back(
        level.p.x as int,
        level.p.z as int,
        level.v.x as int,
        level.v.z as int,
        91,
        614,
    );
    let c = flight::ball_confined(level);
    let held = Ball {
        p: vec3::v3(c.x, level.p.y as int, c.z),
        v: vec3::v3(c.vx, level.v.y as int, c.vz),
        ..level
    };
    let push = vec3::dot(held.v, c.normal) - vec3::dot(level.v, c.normal);
    rebound::law_friction_leaves_the_bounce_alone(held, c.normal, push, 358);
    assert(flight::within_walls(level).v.z == c.vz);
    assert(flight::within_walls(level).p == held.p);
}

/// Between the posts and under the bar there is no end wall: a ball lined up with a
/// mouth flies on through it, and is a goal once it is 333504 along.
pub proof fn law_a_ball_flies_into_the_goal(b: Ball, gravity: int)
    requires
        in_flight(b, gravity),
        num::abs(heads_for(b, gravity).x as int) <= 40_000,
        5824 < heads_for(b, gravity).y <= 30_000,
        300_000 <= num::abs(heads_for(b, gravity).z as int) <= 380_000,
    ensures
        ({
            let r = flight::flown(b, gravity);
            let to = heads_for(b, gravity);
            &&& r.p == to
            &&& barely_slowed(r.v.x as int, b.v.x as int)
            &&& barely_slowed(r.v.z as int, b.v.z as int)
            &&& r.v.y == b.v.y - gravity
            &&& to.z > 333_504 ==> flight::goal_by(b, gravity) == Some(flight::Team::Blue)
            &&& to.z < -333_504 ==> flight::goal_by(b, gravity) == Some(flight::Team::Orange)
            &&& -333_504 <= to.z <= 333_504 ==> flight::goal_by(b, gravity) is None
        }),
{
    lemma_drift(b, gravity);
    let d = flight::drifted(b, gravity);
    let level = flight::under_ceiling(flight::on_floor(d, gravity));
    assert(level == (Ball { grounded: false, ..d }));
    assert(frame::frame_gap(level.p) is None);
    assert(frame::off_frame(level) == level);
    assert(flight::up_ramp(level) == level) by {
        reveal(arena::ball_wall_near);
        if num::abs(level.p.z as int) < 321_856 {
            assert(arena::ball_wall_near(level.p.x as int, level.p.z as int, true).distance >= 16_640);
            assert(ramp::ball_on_ramp(level.p, true) == (level.p, None::<V3>));
        }
    }
    assert(flight::through_mouth(level.p));
    let c = flight::ball_confined(level);
    assert(c.x == level.p.x && c.vx == level.v.x);
}

pub proof fn lemma_drift(b: Ball, gravity: int)
    requires
        in_flight(b, gravity),
    ensures
        ({
            let d = flight::drifted(b, gravity);
            &&& d.p == heads_for(b, gravity)
            &&& d.v.y == b.v.y - gravity
            &&& barely_slowed(d.v.x as int, b.v.x as int)
            &&& barely_slowed(d.v.z as int, b.v.z as int)
            &&& d.v.within(3020)
            &&& d == (Ball { p: d.p, v: d.v, ..b })
        }),
{
    reveal(vec3::damped12);
    let (x, y, z) = (
        vec3::damped12(b.v.x as int, 4094),
        b.v.y - gravity,
        vec3::damped12(b.v.z as int, 4094),
    );
    let v = vec3::v3(x, y, z);
    assert(v.within(3020));
    reveal(V3::square);
    assert(v.square() <= 3 * (3020 * 3020)) by {
        num::lemma_mul_bound(v.x as int, v.x as int, 3020, 3020);
        num::lemma_mul_bound(v.y as int, v.y as int, 3020, 3020);
        num::lemma_mul_bound(v.z as int, v.z as int, 3020, 3020);
    }
    vec3::lemma_length_covers(v);
    let len = v.length();
    assert(len <= 6400) by (nonlinear_arith)
        requires
            0 <= len,
            len * len <= 3 * (3020 * 3020),
    ;
}

/// In the open neither the frame, nor the ramp, nor a wall touches the ball.
proof fn lemma_open(b: Ball)
    requires
        in_the_open(b.p),
        b.p.y >= 5824,
    ensures
        flight::within_walls(flight::up_ramp(frame::off_frame(b))) == b,
        flight::up_ramp(frame::off_frame(b)) == b,
{
    assert(frame::off_frame(b) == b);
    reveal(arena::ball_wall_near);
    let mouth = num::abs(b.p.x as int) < frame::MOUTH;
    assert(arena::ball_wall_near(b.p.x as int, b.p.z as int, mouth).distance >= 16_640);
    assert(ramp::ball_on_ramp(b.p, mouth) == (b.p, None::<V3>));
    let c = flight::ball_confined(b);
    assert(c == arena::free(b.p.x as int, b.p.z as int, b.v.x as int, b.v.z as int));
}

} // verus!
