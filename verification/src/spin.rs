//! The ball's spin stays under its ceiling.
//!
//! Friction is the only thing that spins the ball, and it caps the spin where it
//! makes it. The cap goes by a length that saturates, so it holds wherever the
//! spin it is about to cap has a square that fits: a slip fast enough to spin the
//! ball past seven times its ceiling in one contact gets more through.

use vstd::prelude::*;
use crate::ball;
use crate::ball::Ball;
use crate::bounds;
use crate::car::{Car, Input};
use crate::contact;
use crate::flight;
use crate::frame;
use crate::num;
use crate::play;
use crate::ramp;
use crate::sim::Sim;
use crate::tick;
use crate::trig::Angles;
use crate::tuning::{BALL_BOUNCE, BALL_FRICTION, BALL_MAX_SPIN, BALL_R, CARBALL_FRICTION};
use crate::vec3;
use crate::vec3::V3;

verus! {

/// The ball spins no faster than its ceiling.
pub open spec fn under_ceiling(b: Ball) -> bool {
    b.w.length() <= BALL_MAX_SPIN
}

/// The cap holds where the ball rubs the floor.
pub open spec fn floor_caps(b: Ball, gravity: int) -> bool {
    let vy = flight::floor_speed(b.v.y as int);
    b.p.y <= flight::BALL_FLOOR ==> ball::cap_holds(
        Ball {
            p: V3 { y: flight::BALL_FLOOR, ..b.p },
            v: V3 { y: vy as i32, ..b.v },
            grounded: true,
            ..b
        },
        vec3::v3(0, 4096, 0),
        num::max(num::max(-b.v.y, 0) + vy, gravity),
        BALL_FRICTION as int,
        vec3::zero3(),
    )
}

/// The cap holds where the ball rubs the ceiling.
pub open spec fn ceiling_caps(b: Ball) -> bool {
    let vy = -vec3::damped(b.v.y as int, BALL_BOUNCE as int);
    b.p.y > flight::BALL_CEILING ==> ball::cap_holds(
        Ball { p: V3 { y: flight::BALL_CEILING, ..b.p }, v: V3 { y: vy as i32, ..b.v }, ..b },
        vec3::v3(0, -4096, 0),
        num::max(b.v.y as int, 0) - vy,
        BALL_FRICTION as int,
        vec3::zero3(),
    )
}

/// The cap holds where the ball bounces off a surface with normal `n`.
pub open spec fn bounce_caps(b: Ball, n: V3) -> bool {
    let vn = vec3::dot(b.v, n);
    vn < 0 ==> ball::cap_holds(
        Ball { v: vec3::added(b.v, n, frame::bounce_push(vn)), ..b },
        n,
        frame::bounce_push(vn),
        BALL_FRICTION as int,
        vec3::zero3(),
    )
}

/// The cap holds where the ball meets the goal frame.
pub open spec fn frame_caps(b: Ball) -> bool {
    match frame::frame_touch(b.p) {
        Some(d) => {
            let n = frame::frame_normal(d, frame::goal_side(b.p.z as int));
            let out = frame::FRAME_REACH - num::root(d.square());
            bounce_caps(Ball { p: vec3::added(b.p, n, out), ..b }, n)
        },
        None => true,
    }
}

/// The cap holds where the ball meets the quarter pipe.
pub open spec fn ramp_caps(b: Ball) -> bool {
    let (p, normal) = ramp::ball_on_ramp(b.p, num::abs(b.p.x as int) < frame::MOUTH);
    match normal {
        Some(n) => num::abs(b.p.z as int) < flight::BALL_END ==> bounce_caps(Ball { p, ..b }, n),
        None => true,
    }
}

/// The cap holds where the ball rubs a wall.
pub open spec fn wall_caps(b: Ball) -> bool {
    let c = flight::ball_confined(b);
    let held = Ball {
        p: vec3::v3(c.x, b.p.y as int, c.z),
        v: vec3::v3(c.vx, b.v.y as int, c.vz),
        ..b
    };
    !flight::through_mouth(b.p) && c.normal != vec3::zero3() ==> ball::cap_holds(
        held,
        c.normal,
        vec3::dot(held.v, c.normal) - vec3::dot(b.v, c.normal),
        BALL_FRICTION as int,
        vec3::zero3(),
    )
}

/// The cap holds at everything the ball meets in one tick of flight.
pub open spec fn flight_caps(b: Ball, gravity: int) -> bool {
    let drifted = flight::drifted(b, gravity);
    let floored = flight::on_floor(drifted, gravity);
    let level = flight::under_ceiling(floored);
    let clear = frame::off_frame(level);
    &&& floor_caps(drifted, gravity)
    &&& ceiling_caps(floored)
    &&& frame_caps(level)
    &&& ramp_caps(clear)
    &&& wall_caps(flight::up_ramp(clear))
}

proof fn lemma_bounce(b: Ball, n: V3)
    requires
        under_ceiling(b),
        bounce_caps(b, n),
    ensures
        under_ceiling(frame::bounced(b, n)),
{
    let vn = vec3::dot(b.v, n);
    if vn < 0 {
        ball::law_friction_keeps_the_spin_ceiling(
            Ball { v: vec3::added(b.v, n, frame::bounce_push(vn)), ..b },
            n,
            frame::bounce_push(vn),
            BALL_FRICTION as int,
            vec3::zero3(),
        );
    }
}

/// A tick of flight never spins the ball past its ceiling.
pub proof fn law_flight_keeps_the_spin_ceiling(b: Ball, gravity: int)
    requires
        under_ceiling(b),
        flight_caps(b, gravity),
    ensures
        under_ceiling(flight::flown(b, gravity)),
        ball::rad_per_s(flight::flown(b, gravity).w) <= 6,
{
    let drifted = flight::drifted(b, gravity);
    let vy = flight::floor_speed(drifted.v.y as int);
    if drifted.p.y <= flight::BALL_FLOOR {
        ball::law_friction_keeps_the_spin_ceiling(
            Ball {
                p: V3 { y: flight::BALL_FLOOR, ..drifted.p },
                v: V3 { y: vy as i32, ..drifted.v },
                grounded: true,
                ..drifted
            },
            vec3::v3(0, 4096, 0),
            num::max(num::max(-drifted.v.y, 0) + vy, gravity),
            BALL_FRICTION as int,
            vec3::zero3(),
        );
    }
    let floored = flight::on_floor(drifted, gravity);
    if floored.p.y > flight::BALL_CEILING {
        let down = -vec3::damped(floored.v.y as int, BALL_BOUNCE as int);
        ball::law_friction_keeps_the_spin_ceiling(
            Ball {
                p: V3 { y: flight::BALL_CEILING, ..floored.p },
                v: V3 { y: down as i32, ..floored.v },
                ..floored
            },
            vec3::v3(0, -4096, 0),
            num::max(floored.v.y as int, 0) - down,
            BALL_FRICTION as int,
            vec3::zero3(),
        );
    }
    let level = flight::under_ceiling(floored);
    if let Some(d) = frame::frame_touch(level.p) {
        let n = frame::frame_normal(d, frame::goal_side(level.p.z as int));
        let out = frame::FRAME_REACH - num::root(d.square());
        lemma_bounce(Ball { p: vec3::added(level.p, n, out), ..level }, n);
    }
    let clear = frame::off_frame(level);
    let (p, normal) = ramp::ball_on_ramp(clear.p, num::abs(clear.p.x as int) < frame::MOUTH);
    if num::abs(clear.p.z as int) < flight::BALL_END {
        if let Some(n) = normal {
            lemma_bounce(Ball { p, ..clear }, n);
        }
    }
    let last = flight::up_ramp(clear);
    let c = flight::ball_confined(last);
    if !flight::through_mouth(last.p) && c.normal != vec3::zero3() {
        let held = Ball {
            p: vec3::v3(c.x, last.p.y as int, c.z),
            v: vec3::v3(c.vx, last.v.y as int, c.vz),
            ..last
        };
        ball::law_friction_keeps_the_spin_ceiling(
            held,
            c.normal,
            vec3::dot(held.v, c.normal) - vec3::dot(last.v, c.normal),
            BALL_FRICTION as int,
            vec3::zero3(),
        );
    }
}

/// The cap holds where a car touches the ball.
pub open spec fn touch_caps(t: Angles, b: Ball, c: Car) -> bool {
    match contact::box_contact(t, c, b.p, BALL_R as int) {
        Some(k) => {
            let clear = contact::cleared(b, k);
            let close = -vec3::dot(vec3::sub3(b.v, c.v), k.normal);
            let hit = contact::rigid(close);
            close > 0 ==> ball::cap_holds(
                Ball { v: vec3::added(clear.v, k.normal, hit.ball), ..clear },
                k.normal,
                hit.ball,
                CARBALL_FRICTION as int,
                vec3::added(c.v, k.normal, -hit.car),
            )
        },
        None => true,
    }
}

/// A touch never spins the ball past its ceiling.
pub proof fn law_a_touch_keeps_the_spin_ceiling(t: Angles, b: Ball, c: Car)
    requires
        under_ceiling(b),
        touch_caps(t, b, c),
    ensures
        under_ceiling(contact::touched(t, b, c).0),
        ball::rad_per_s(contact::touched(t, b, c).0.w) <= 6,
{
    if let Some(k) = contact::box_contact(t, c, b.p, BALL_R as int) {
        let clear = contact::cleared(b, k);
        let close = -vec3::dot(vec3::sub3(b.v, c.v), k.normal);
        let hit = contact::rigid(close);
        if close > 0 {
            ball::law_friction_keeps_the_spin_ceiling(
                Ball { v: vec3::added(clear.v, k.normal, hit.ball), ..clear },
                k.normal,
                hit.ball,
                CARBALL_FRICTION as int,
                vec3::added(c.v, k.normal, -hit.car),
            );
        }
    }
}

/// The cap holds at everything the ball meets in one tick of the match.
pub open spec fn tick_caps(t: Angles, s: Sim, input: Input, p2: Option<Input>) -> bool {
    let flown = tick::ball_flown(t, s, input, p2);
    let first = tick::touch_by(t, flown.ball, flown.car).0;
    &&& flight_caps(s.ball, tick::gravity_now(s))
    &&& !flown.car.is_wrecked() ==> touch_caps(t, flown.ball, flown.car)
    &&& !flown.opponent.is_wrecked() ==> touch_caps(t, first, flown.opponent)
}

proof fn lemma_padded_ball(s: Sim, n: nat)
    ensures
        play::padded(s, n).ball == s.ball,
    decreases n,
{
    if n > 0 {
        lemma_padded_ball(s, (n - 1) as nat);
    }
}

/// A tick never leaves the ball spinning past its ceiling, six radians per
/// second.
pub proof fn law_a_tick_keeps_the_spin_ceiling(t: Angles, s: Sim, input: Input, p2: Option<Input>)
    requires
        under_ceiling(s.ball),
        s.goal_freeze == 0 ==> tick_caps(t, s, input, p2),
    ensures
        under_ceiling(tick::advanced(t, s, input, p2).ball),
        ball::rad_per_s(tick::advanced(t, s, input, p2).ball.w) <= 6,
{
    reveal(tick::cars_turned);
    assert(vec3::zero3().length() <= BALL_MAX_SPIN) by {
        reveal(V3::square);
        assert(0int * 0int == 0);
        bounds::lemma_short_length(vec3::zero3(), 6554);
    }
    if s.goal_freeze == 0 {
        reveal(play::ball_ticked);
        reveal(tick::ball_touched);
        reveal(play::cars_met);
        lemma_padded_ball(tick::driven_on(t, s, input, p2), 34);
        law_flight_keeps_the_spin_ceiling(s.ball, tick::gravity_now(s));
        let flown = tick::ball_flown(t, s, input, p2);
        if !flown.car.is_wrecked() {
            law_a_touch_keeps_the_spin_ceiling(t, flown.ball, flown.car);
        }
        let first = tick::touch_by(t, flown.ball, flown.car).0;
        if !flown.opponent.is_wrecked() {
            law_a_touch_keeps_the_spin_ceiling(t, first, flown.opponent);
        }
    }
}

} // verus!
