//! A match in play can always be stepped: from any state on the pitch at the
//! speeds play reaches, one tick's arithmetic fits.

use vstd::prelude::*;
use crate::air;
use crate::arena;
use crate::ball;
use crate::ball::Ball;
use crate::bounds;
use crate::car;
use crate::car::{Car, Input};
use crate::contact;
use crate::curve;
use crate::drive;
use crate::drive::Entry;
use crate::flight;
use crate::flight::Team;
use crate::keeps;
use crate::num;
use crate::play;
use crate::ramp;
use crate::sim;
use crate::sim::{Sim, WinCondition};
use crate::steady;
use crate::step;
use crate::tick;
use crate::trig::Angles;
use crate::tuning::{CARBALL_EXTRA_CURVE, CARBALL_FRICTION, LAT_FRICTION, TORQUE_CURVE};
use crate::upright;
use crate::vec3;
use crate::vec3::V3;

verus! {

/// The tables hold Q12 values, and the sine of an angle a car can turn through
/// in one tick is small and its cosine nearly one.
pub open spec fn smooth(t: Angles) -> bool {
    &&& forall|a: u16| -4096 <= #[trigger] t.sin(a) <= 4096
    &&& forall|a: u16| -4096 <= #[trigger] t.cos(a) <= 4096
    &&& forall|a: u16| a < 4096 && (a <= 60 || a >= 4036) ==> -512 <= #[trigger] t.sin(a) <= 512
    &&& forall|a: u16| a < 4096 && (a <= 60 || a >= 4036) ==> 4000 <= #[trigger] t.cos(a)
}

/// The fastest a car in play goes along any axis: over four times the fastest it
/// boosts.
pub const CAR_PACE: i32 = 11_000;
/// The fastest a ball in play goes along any axis: nearly four times its cap.
pub const BALL_PACE: i32 = 25_000;

/// A car on the pitch, its counters in their ranges, at the pace of play.
pub open spec fn car_in_play(c: Car) -> bool {
    &&& keeps::counters_hold(c)
    &&& c.p.within(524_288)
    &&& !c.is_wrecked() ==> c.p.within(390_000)
    &&& c.v.within(CAR_PACE as int)
    &&& upright::upright(c.up)
    &&& c.jump_normal.within(4096)
}

/// A ball on the pitch, at the pace of play, spinning no faster than its ceiling.
pub open spec fn ball_in_play(b: Ball) -> bool {
    &&& b.p.within(480_000)
    &&& b.v.within(BALL_PACE as int)
    &&& b.w.length() <= 6554
}

/// The ball is live: no goal is being celebrated, and none has won the match.
pub open spec fn live(s: Sim) -> bool {
    s.goal_freeze == 0 && !s.limit_reached()
}

/// A match in play. A live ball has not gone in, give or take a touch on the
/// line.
pub open spec fn in_play(s: Sim) -> bool {
    &&& s.valid()
    &&& car_in_play(s.car)
    &&& car_in_play(s.opponent)
    &&& ball_in_play(s.ball)
    &&& live(s) ==> s.ball.p.within(360_000)
    &&& s.score_blue < u16::MAX
    &&& s.score_orange < u16::MAX
}

// ---- a car's own turn --------------------------------------------------

/// The car's own directions are Q12 directions.
proof fn lemma_directions(t: Angles, up: V3, yaw: u16)
    requires
        smooth(t),
        up.within(4096),
    ensures
        car::frame(t, up, yaw).0.within(4096),
        car::frame(t, up, yaw).2.within(4096),
        car::nose(t, up, yaw).within(4096),
{
    let seed = if num::abs(up.z as int) < 3600 {
        V3 { x: 0, y: 0, z: 4096 }
    } else {
        V3 { x: 4096, y: 0, z: 0 }
    };
    vec3::lemma_cross(up, seed, 4096);
    vec3::lemma_unit(vec3::cross(up, seed));
    let a = vec3::cross(up, seed).unit();
    vec3::lemma_cross(a, up, 4096);
    vec3::lemma_unit(vec3::cross(a, up));
    let b = vec3::cross(a, up).unit();
    let (s, c) = (t.sin(yaw), t.cos(yaw));
    num::lemma_mul_bound(a.x as int, s, 4096, 4096);
    num::lemma_mul_bound(a.y as int, s, 4096, 4096);
    num::lemma_mul_bound(a.z as int, s, 4096, 4096);
    num::lemma_mul_bound(b.x as int, c, 4096, 4096);
    num::lemma_mul_bound(b.y as int, c, 4096, 4096);
    num::lemma_mul_bound(b.z as int, c, 4096, 4096);
    let mixed = car::blended(a, b, s, c);
    assert(mixed.within(8192)) by {
        reveal(car::blended);
    }
    vec3::lemma_unit(mixed);
    let nose = mixed.unit();
    vec3::lemma_cross(up, nose, 4096);
    vec3::lemma_unit(vec3::cross(up, nose));
}

/// What a tick measures of a car in play.
pub proof fn lemma_entry(t: Angles, c: Car)
    requires
        smooth(t),
        car_in_play(c),
    ensures
        ({
            let e = drive::entry_of(t, c);
            &&& e.right.within(4096)
            &&& e.up == c.up
            &&& e.fwd.within(4096)
            &&& 0 <= e.speed <= 19_255
            &&& -33_000 <= e.along <= 33_000
        }),
{
    lemma_directions(t, c.up, c.yaw);
    let (right, up, fwd) = car::frame(t, c.up, c.yaw);
    bounds::lemma_short(c.v, 11_000);
    bounds::lemma_flattened(c.v, up, 19_251);
    let flat = vec3::flattened(c.v, up);
    assert(bounds::short(flat, 19_255));
    assert(19_255int * 19_255int < 19_256int * 19_256int);
    bounds::lemma_short_length(flat, 19_255);
    assert(flat.length() >= 0) by {
        reveal(V3::square);
        assert(flat.x * flat.x >= 0 && flat.y * flat.y >= 0 && flat.z * flat.z >= 0)
            by (nonlinear_arith);
        vec3::lemma_root_exists(num::min(flat.square(), i32::MAX as int));
    }
    vec3::lemma_dot(c.v, fwd, 11_000);
}

/// The car after steering and boosting.
pub proof fn lemma_lit(c: Car, input: Input, e: Entry, b: int)
    requires
        car_in_play(c),
        c.v.within(b),
        0 <= b <= CAR_PACE,
        e.fwd.within(4096),
    ensures
        ({
            let r = drive::boosted(drive::steered(c, input, e), input, e);
            &&& r.v.within(b + 64)
            &&& r.p == c.p
            &&& r.up == c.up
            &&& r.jump_normal == c.jump_normal
            &&& -1000 <= r.air_throttle_rem <= 1000
            &&& 0 <= r.slide <= 1024
            &&& -1000 <= r.jump_bonus_rem <= 1000
            &&& -1000 <= r.jump_sticky_rem <= 1000
        }),
{
    reveal(drive::steered);
    reveal(drive::boosted);
    let s = drive::steered(c, input, e);
    let push = num::tdiv(drive::boost_due(s), crate::tuning::ACCEL_DEN as int);
    vec3::lemma_along(e.fwd, push);
}

proof fn lemma_engine(c: Car, input: Input, e: Entry, b: int)
    requires
        c.v.within(b),
        0 <= b <= 12_000,
        e.fwd.within(4096),
        0 <= e.speed,
    ensures
        drive::engine(c, input, e).within(b + 140),
{
    let throttle = num::clamp(input.throttle as int, -128, 128);
    if throttle != 0 {
        let along = e.along as int;
        assert(curve::spans(TORQUE_CURVE@, 0, 1024));
        curve::law_value_stays_in_range(TORQUE_CURVE@, num::abs(along), 0, 1024);
        let base = if (throttle > 0) == (along >= 0) {
            (crate::tuning::CAR_ACCEL * curve::value(TORQUE_CURVE@, num::abs(along))) / 1024
        } else {
            crate::tuning::CAR_BRAKE as int
        };
        assert(0 <= base <= 62);
        num::lemma_mul_bound(base, throttle, 62, 128);
        num::lemma_tdiv_bound(base * throttle, 128, 62);
        vec3::lemma_along(e.fwd, drive::throttle_accel(throttle, along));
    } else if e.speed > crate::tuning::CAR_COAST {
        let coast = crate::tuning::CAR_COAST as int;
        reveal(vec3::scaled);
        lemma_coasted(c.v.x as int, coast, e.speed as int);
        lemma_coasted(c.v.y as int, coast, e.speed as int);
        lemma_coasted(c.v.z as int, coast, e.speed as int);
    }
}

/// Taking a share out of a value never turns it round.
proof fn lemma_coasted(v: int, share: int, whole: int)
    requires
        0 <= share <= whole,
        0 < whole,
    ensures
        num::abs(v - num::tdiv(v * share, whole)) <= num::abs(v),
        num::abs(num::tdiv(v * share, whole)) <= num::abs(v),
{
    vec3::lemma_scale_down(v, share, whole);
    if v >= 0 {
        assert(v * share >= 0) by (nonlinear_arith)
            requires
                v >= 0,
                share >= 0,
        ;
        assert((v * share) / whole >= 0) by (nonlinear_arith)
            requires
                v * share >= 0,
                whole > 0,
        ;
    } else {
        assert(v * share <= 0) by (nonlinear_arith)
            requires
                v < 0,
                share >= 0,
        ;
        assert((-(v * share)) / whole >= 0) by (nonlinear_arith)
            requires
                v * share <= 0,
                whole > 0,
        ;
    }
}

proof fn lemma_grip(lateral: int, along: int, slide: int)
    requires
        0 <= slide <= 1024,
    ensures
        0 <= drive::tyre_grip(lateral, along, slide) <= 1024,
{
    assert(curve::spans(LAT_FRICTION@, 205, 1024));
    curve::law_value_stays_in_range(LAT_FRICTION@, drive::slip_share(lateral, along), 205, 1024);
    let grip = (crate::tuning::CAR_GRIP * curve::value(
        LAT_FRICTION@,
        drive::slip_share(lateral, along),
    )) / 1024;
    let cut = (grip * crate::tuning::SLIDE_LOSS) / 1024;
    assert(0 <= cut * slide <= cut * 1024) by (nonlinear_arith)
        requires
            0 <= cut,
            0 <= slide <= 1024,
    ;
}

pub proof fn lemma_driven(c: Car, input: Input, e: Entry, b: int)
    requires
        c.v.within(b),
        0 <= b <= 12_000,
        c.up.within(4096),
        c.jump_normal.within(4096),
        0 <= c.slide <= 1024,
        e.right.within(4096),
        e.fwd.within(4096),
        e.up.within(4096),
        0 <= e.speed,
        -1000 <= c.jump_bonus_rem <= 1000,
        -1000 <= c.jump_sticky_rem <= 1000,
    ensures
        ({
            let r = drive::driven(c, input, e);
            &&& r.v.within(4 * b + 900)
            &&& r.p == c.p
            &&& r.up.within(4096)
            &&& r.jump_normal.within(4096)
            &&& -1000 <= r.jump_bonus_rem <= 1000
            &&& -1000 <= r.jump_sticky_rem <= 1000
        }),
{
    reveal(drive::driven);
    lemma_engine(c, input, e, b);
    let v = drive::engine(c, input, e);
    let lateral = vec3::dot(v, e.right);
    let most = 3 * (b + 140);
    vec3::lemma_dot(v, e.right, b + 140);
    let grip = drive::tyre_grip(lateral, e.along as int, c.slide as int);
    lemma_grip(lateral, e.along as int, c.slide as int);
    num::lemma_mul_bound(lateral, grip, most, 1024);
    assert(num::abs(vec3::damped(lateral, grip)) <= most) by {
        reveal(vec3::damped);
    }
    vec3::lemma_along(e.right, -vec3::damped(lateral, grip));
    vec3::lemma_along(e.up, 311);
}

// ---- in the air --------------------------------------------------------

/// An air-control rate stays within its ceiling.
proof fn lemma_spin_next(rate: int, target: int)
    ensures
        -60 <= air::spin_next(rate, target) <= 60,
{
}

/// Turning a direction by no more than a car's air rate keeps it short.
proof fn lemma_spun(t: Angles, v: V3, axis: V3, angle: int, m: int)
    requires
        smooth(t),
        -60 <= angle <= 60,
        v.within(m),
        axis.within(5120),
        0 <= m <= 8192,
    ensures
        car::spun(t, v, axis, angle).within(m + m / 3 + 2),
{
    let a = (angle % 4096) as u16;
    assert(a < 4096 && (a <= 60 || a >= 4036));
    let (s, c) = (t.sin(a), t.cos(a));
    let k = vec3::cross(axis, v);
    num::lemma_mul_bound(axis.y as int, v.z as int, 5120, m);
    num::lemma_mul_bound(axis.z as int, v.y as int, 5120, m);
    num::lemma_mul_bound(axis.z as int, v.x as int, 5120, m);
    num::lemma_mul_bound(axis.x as int, v.z as int, 5120, m);
    num::lemma_mul_bound(axis.x as int, v.y as int, 5120, m);
    num::lemma_mul_bound(axis.y as int, v.x as int, 5120, m);
    let kb = (5 * m) / 2 + 1;
    assert(k.within(kb)) by {
        reveal(vec3::cross_over);
    }
    num::lemma_mul_bound(k.x as int, s, kb, 512);
    num::lemma_mul_bound(k.y as int, s, kb, 512);
    num::lemma_mul_bound(k.z as int, s, kb, 512);
    num::lemma_mul_bound(v.x as int, c, m, 4096);
    num::lemma_mul_bound(v.y as int, c, m, 4096);
    num::lemma_mul_bound(v.z as int, c, m, 4096);
    reveal(vec3::along);
}

proof fn lemma_tumbled(t: Angles, c: Car, e: Entry)
    requires
        smooth(t),
        -60 <= c.w_pitch <= 60,
        -60 <= c.w_roll <= 60,
        c.up.within(4096),
        e.right.within(4096),
        e.up.within(4096),
        e.fwd.within(4096),
    ensures
        air::tumbled(t, c, e).up.within(4096),
{
    let (u, f) = air::attitude(t, c, e);
    if c.w_pitch != 0 {
        lemma_spun(t, e.up, e.right, c.w_pitch as int, 4096);
        lemma_spun(t, e.fwd, e.right, c.w_pitch as int, 4096);
    }
    let (u1, f1) = if c.w_pitch != 0 {
        (
            car::spun(t, e.up, e.right, c.w_pitch as int),
            car::spun(t, e.fwd, e.right, c.w_pitch as int),
        )
    } else {
        (e.up, e.fwd)
    };
    if c.w_roll != 0 {
        lemma_spun_by_nose(t, u1, f1, c.w_roll as int);
    }
    assert(u.within(46_340));
    vec3::lemma_unit(u);
}

proof fn lemma_spun_by_nose(t: Angles, v: V3, axis: V3, angle: int)
    requires
        smooth(t),
        -60 <= angle <= 60,
        v.within(5470),
        axis.within(5470),
    ensures
        car::spun(t, v, axis, angle).within(46_340),
{
    let a = (angle % 4096) as u16;
    let (s, c) = (t.sin(a), t.cos(a));
    let k = vec3::cross(axis, v);
    num::lemma_mul_bound(axis.y as int, v.z as int, 5470, 5470);
    num::lemma_mul_bound(axis.z as int, v.y as int, 5470, 5470);
    num::lemma_mul_bound(axis.z as int, v.x as int, 5470, 5470);
    num::lemma_mul_bound(axis.x as int, v.z as int, 5470, 5470);
    num::lemma_mul_bound(axis.x as int, v.y as int, 5470, 5470);
    num::lemma_mul_bound(axis.y as int, v.x as int, 5470, 5470);
    assert(k.within(15_000)) by {
        reveal(vec3::cross_over);
    }
    num::lemma_mul_bound(k.x as int, s, 15_000, 4096);
    num::lemma_mul_bound(k.y as int, s, 15_000, 4096);
    num::lemma_mul_bound(k.z as int, s, 15_000, 4096);
    num::lemma_mul_bound(v.x as int, c, 5470, 4096);
    num::lemma_mul_bound(v.y as int, c, 5470, 4096);
    num::lemma_mul_bound(v.z as int, c, 5470, 4096);
    reveal(vec3::along);
}

pub proof fn lemma_airborne(t: Angles, c: Car, input: Input, e: Entry, b: int)
    requires
        smooth(t),
        c.v.within(b),
        0 <= b <= 12_000,
        c.up.within(4096),
        c.jump_normal.within(4096),
        -1000 <= c.air_throttle_rem <= 1000,
        -1000 <= c.jump_bonus_rem <= 1000,
        -1000 <= c.jump_sticky_rem <= 1000,
        e.right.within(4096),
        e.up.within(4096),
        e.fwd.within(4096),
    ensures
        ({
            let flown = air::flown_by_stick(t, c, input, e);
            let r = if air::second_jump(flown, input) {
                air::jumped_again(t, flown, input)
            } else {
                flown
            };
            &&& r.v.within(b + 940)
            &&& r.p == c.p
            &&& r.up.within(4096)
            &&& r.jump_normal == c.jump_normal
            &&& -1000 <= r.jump_bonus_rem <= 1000
            &&& -1000 <= r.jump_sticky_rem <= 1000
        }),
{
    reveal(air::flown_by_stick);
    reveal(air::jumped_again);
    let rated = air::rates_stepped(c, input);
    lemma_tumbled(t, rated, e);
    let turned = air::tumbled(t, rated, e);
    let throttle = num::clamp(input.throttle as int, -128, 128);
    vec3::lemma_along(e.fwd, num::tdiv(air::air_due(turned, throttle), 27));
    let flown = air::flown_by_stick(t, c, input, e);
    vec3::lemma_along(flown.up, 311);
    let local = air::dodge_heading(t, input);
    let world = car::turned(flown.yaw, local as int);
    assert(-4096 <= t.sin(world) <= 4096 && -4096 <= t.cos(world) <= 4096);
}

// ---- the whole turn ----------------------------------------------------

proof fn lemma_sliced(c: Car, button: bool)
    requires
        c.v.within(40_000),
        c.jump_normal.within(4096),
        -1000 <= c.jump_bonus_rem <= 1000,
        -1000 <= c.jump_sticky_rem <= 1000,
    ensures
        ({
            let r = air::sliced(c, button);
            &&& num::abs(r.v.x - c.v.x) <= 200
            &&& num::abs(r.v.y - c.v.y) <= 200
            &&& num::abs(r.v.z - c.v.z) <= 200
            &&& r.p == c.p
            &&& r.up == c.up
            &&& r.jump_normal == c.jump_normal
            &&& -1000 <= r.jump_bonus_rem <= 1000
            &&& -1000 <= r.jump_sticky_rem <= 1000
        }),
{
    vec3::lemma_along(c.jump_normal, num::tdiv(c.jump_bonus_rem + 350, 27));
    vec3::lemma_along(c.jump_normal, -num::tdiv(c.jump_sticky_rem + 26, 9));
}

proof fn lemma_held(c: Car, button: bool)
    requires
        c.v.within(30_000),
        c.jump_normal.within(4096),
        -1000 <= c.jump_bonus_rem <= 1000,
        -1000 <= c.jump_sticky_rem <= 1000,
    ensures
        ({
            let r = air::held(c, button);
            &&& num::abs(r.v.x - c.v.x) <= 400
            &&& num::abs(r.v.y - c.v.y) <= 400
            &&& num::abs(r.v.z - c.v.z) <= 400
            &&& r.p == c.p
            &&& r.up == c.up
            &&& r.jump_normal == c.jump_normal
        }),
{
    reveal(air::held);
    lemma_sliced(c, button);
    lemma_sliced(air::sliced(c, button), button);
}

/// A car in play after its own machinery.
pub proof fn lemma_powered(t: Angles, c: Car, input: Input)
    requires
        smooth(t),
        car_in_play(c),
    ensures
        ({
            let r = step::powered(t, c, input);
            &&& r.v.within(21_514)
            &&& r.p == c.p
            &&& r.up.within(4096)
            &&& r.jump_normal.within(4096)
        }),
{
    let e = drive::entry_of(t, c);
    lemma_entry(t, c);
    lemma_lit(c, input, e, 11_000);
    let lit = drive::boosted(drive::steered(c, input, e), input, e);
    if lit.grounded {
        lemma_driven(lit, input, e, 11_064);
    } else {
        lemma_airborne(t, lit, input, e, 11_064);
    }
    let pushed = if lit.grounded {
        drive::driven(lit, input, e)
    } else {
        let flown = air::flown_by_stick(t, lit, input, e);
        if air::second_jump(flown, input) {
            air::jumped_again(t, flown, input)
        } else {
            flown
        }
    };
    let limit = drive::speed_limit(pushed, e);
    reveal(drive::limited);
    let slow = drive::limited(pushed, e);
    if pushed.v.square() <= i32::MAX {
        bounds::lemma_capped(pushed.v, limit);
        bounds::lemma_within(slow.v, limit + 1);
    } else {
        lemma_capped_wide(pushed.v, limit);
    }
    lemma_held(slow, input.jump_held);
}

/// A ceiling on a velocity too long to measure still brings it down.
proof fn lemma_capped_wide(v: V3, limit: int)
    requires
        v.within(45_200),
        v.square() > i32::MAX,
        0 <= limit <= 19_255,
    ensures
        vec3::capped(v, limit).within(19_256),
{
    vec3::lemma_root_exists(i32::MAX as int);
    let len = v.length();
    assert(46_340int * 46_340int <= 0x7fff_ffff);
    num::lemma_root_covers(len, i32::MAX as int, 46_340);
    assert(len <= 46_340) by (nonlinear_arith)
        requires
            len >= 0,
            len * len <= 0x7fff_ffff,
    ;
    num::lemma_mul_bound(v.x as int, limit, 45_200, 19_255);
    num::lemma_mul_bound(v.y as int, limit, 45_200, 19_255);
    num::lemma_mul_bound(v.z as int, limit, 45_200, 19_255);
    num::lemma_tdiv_bound(v.x * limit, len, 19_256);
    num::lemma_tdiv_bound(v.y * limit, len, 19_256);
    num::lemma_tdiv_bound(v.z * limit, len, 19_256);
    reveal(vec3::scaled);
}

/// What the curve and the wall above it make of a car near them: a place between
/// the floor and the ceiling, and a unit normal.
proof fn lemma_car_on_ramp(p: V3, mouth_open: bool)
    requires
        p.within(600_000),
        step::CAR_FLOOR <= p.y <= step::CAR_CEILING,
    ensures
        ({
            let (at, normal) = ramp::car_on_ramp(p, mouth_open);
            &&& step::CAR_FLOOR <= at.y <= step::CAR_CEILING
            &&& normal matches Some(n) ==> bounds::is_normal(n) && n.within(4096)
        }),
{
    let wall = arena::wall_near(p.x as int, p.z as int, mouth_open);
    if wall.distance < ramp::RAMP {
        steady::lemma_wall_faces(p.x as int, p.z as int, mouth_open);
        steady::lemma_axis(wall.inward);
        let scale = ramp::RIDE - wall.distance;
        assert(vec3::added(p, wall.inward, scale).y == p.y) by {
            reveal(vec3::along);
            assert(wall.inward.y * scale == 0) by (nonlinear_arith)
                requires
                    wall.inward.y == 0,
            ;
        }
        if p.y < ramp::RAMP {
            let (h, v) = (ramp::lean(wall.distance as int), ramp::lean(p.y as int));
            if ramp::lean_length(h, v) >= ramp::CAR_ARC - ramp::NEAR {
                steady::lemma_arc_normal(wall.inward, h, v, ramp::CAR_ARC as int);
            }
        }
    }
}

/// A car in play is in range after its turn.
pub proof fn lemma_ticked(t: Angles, c: Car, input: Input, gravity: int)
    requires
        smooth(t),
        car_in_play(c),
        0 <= gravity <= 1000,
    ensures
        ({
            let r = step::car_ticked(t, c, input, gravity);
            &&& r.in_range()
            &&& r.v.within(39_500)
        }),
{
    lemma_coasted_place(t, c, input, gravity);
    lemma_walled(t, step::coasted(t, c, input, gravity));
}

/// Where a car in play is before it meets a wall, and how fast.
pub proof fn lemma_coasted_place(t: Angles, c: Car, input: Input, gravity: int)
    requires
        smooth(t),
        car_in_play(c),
        0 <= gravity <= 1000,
    ensures
        ({
            let near = step::coasted(t, c, input, gravity);
            &&& near.v.within(22_514)
            &&& near.p.within(600_000)
            &&& step::CAR_FLOOR <= near.p.y <= step::CAR_CEILING
            &&& near.up.within(4096)
            &&& near.jump_normal.within(4096)
        }),
{
    lemma_powered(t, c, input);
}

/// The walls hardly ever speed a car up.
pub proof fn lemma_walled_speed(t: Angles, c: Car, b: int)
    requires
        bounds::short(c.v, b),
        0 <= b <= 0x1_0000,
        c.p.within(600_000),
        step::CAR_FLOOR <= c.p.y <= step::CAR_CEILING,
    ensures
        bounds::short(step::walled(t, c).v, b + 9),
        step::surface_met(c) matches Some(n) ==> n.within(4096),
{
    let open = step::in_mouth(c.p);
    let (p, met) = ramp::car_on_ramp(c.p, open);
    lemma_car_on_ramp(c.p, open);
    let (vx, vz) = (c.v.x as int, c.v.z as int);
    bounds::lemma_within(c.v, b);
    arena::law_confined_is_inside(p.x as int, p.z as int, vx, vz, 28, 0, open);
    arena::lemma_confined_speed(p.x as int, p.z as int, vx, vz, 28, 0, open, b);
    steady::lemma_confined_slows(p.x as int, p.z as int, vx, vz, 28, 0, open);
    let f = step::car_confined(c);
    let h = step::hemmed(c);
    assert(bounds::short(h.v, b)) by {
        reveal(V3::square);
        assert(h.v.x == f.vx && h.v.y == c.v.y && h.v.z == f.vz);
    }
    bounds::lemma_within(h.v, b);
    bounds::lemma_longer(h.v, b, b + 9);
    if f.normal != vec3::zero3() {
        steady::lemma_axis(f.normal);
    }
    if let Some(n) = step::surface_met(c) {
        let into = vec3::dot(h.v, n);
        if into < 0 {
            bounds::lemma_reflected(h.v, n, -into, b);
        } else {
            assert(vec3::along(n, 0) == vec3::zero3()) by {
                reveal(vec3::along);
                assert(n.x * 0 == 0 && n.y * 0 == 0 && n.z * 0 == 0);
            }
            assert(vec3::added(h.v, n, 0) == h.v);
        }
    }
}

#[verifier::spinoff_prover]
#[verifier::rlimit(50)]
proof fn lemma_walled(t: Angles, c: Car)
    requires
        c.v.within(22_514),
        c.p.within(600_000),
        step::CAR_FLOOR <= c.p.y <= step::CAR_CEILING,
        c.up.within(4096),
        c.jump_normal.within(4096),
    ensures
        step::walled(t, c).in_range(),
        step::walled(t, c).v.within(39_500),
{
    bounds::lemma_short(c.v, 22_514);
    assert(7 * 22_514int / 4 + 1 == 39_400);
    lemma_walled_speed(t, c, 39_400);
    bounds::lemma_within(step::walled(t, c).v, 39_409);
    let open = step::in_mouth(c.p);
    let p = ramp::car_on_ramp(c.p, open).0;
    lemma_car_on_ramp(c.p, open);
    arena::law_confined_is_inside(
        p.x as int,
        p.z as int,
        c.v.x as int,
        c.v.z as int,
        28,
        0,
        open,
    );
}

// ---- the ball and the cars ---------------------------------------------

/// A goal blast throws a car no faster than its two pushes.
proof fn lemma_blasted(c: Car, blast: V3)
    requires
        c.in_range(),
        c.v.within(39_500),
    ensures
        play::blasted(c, blast).in_range(),
        play::blasted(c, blast).v.within(41_900),
{
    let d = play::blast_gap(c, blast);
    let dist = d.length();
    reveal(V3::square);
    assert(d.x * d.x >= 0 && d.y * d.y >= 0 && d.z * d.z >= 0) by (nonlinear_arith);
    vec3::lemma_root_exists(num::min(d.square(), i32::MAX as int));
    if dist < 2600 {
        bounds::lemma_length_short(d, 2600);
        bounds::lemma_within(d, 2601);
        vec3::lemma_unit(d);
        let share = play::blast_share(dist);
        assert(0 <= share <= 4096);
        let dir = if dist == 0 {
            drive::world_up()
        } else {
            d.unit()
        };
        vec3::lemma_along(dir, (1500 * share) / 4096);
        vec3::lemma_along(drive::world_up(), (900 * share) / 4096);
    }
}

/// The normal of a touch is a Q12 direction.
proof fn lemma_touch_normal(t: Angles, c: Car, sphere: V3)
    requires
        smooth(t),
        c.up.within(4096),
    ensures
        contact::box_contact(t, c, sphere, 91) matches Some(k) ==> k.normal.within(4096),
{
    lemma_directions(t, c.up, c.yaw);
    let (right, up, fwd) = car::frame(t, c.up, c.yaw);
    let l = contact::local_of(vec3::sub3(sphere, c.p), right, up, fwd);
    let out = vec3::sub3(sphere, contact::box_point(c.p, l, right, up, fwd));
    if out.square() < 5824 * 5824 {
        bounds::lemma_within(out, 5824);
        vec3::lemma_unit(out);
    }
}

/// Where a touch aims the ball is a Q12 direction.
proof fn lemma_aim(radial: V3, fwd: V3)
    requires
        radial.within(4096),
        fwd.within(4096),
    ensures
        contact::aim(radial, fwd).within(4096),
{
    let up = crate::tuning::CARBALL_UP_SCALE as int;
    num::lemma_mul_bound(radial.y as int, up, 4096, up);
    reveal(vec3::damped);
    let raw = vec3::v3(radial.x as int, vec3::damped(radial.y as int, up), radial.z as int);
    vec3::lemma_unit(raw);
    let flat = raw.unit();
    vec3::lemma_dot(flat, fwd, 4096);
    let lean = vec3::dot(flat, fwd);
    let bias = vec3::damped(lean, 358);
    assert(num::abs(bias) <= 5000);
    vec3::lemma_along(fwd, bias);
    vec3::lemma_unit(vec3::sub3(flat, vec3::along(fwd, bias)));
}

/// The extra speed of a touch is never more than the fastest that counts.
proof fn lemma_extra(rel: V3)
    ensures
        0 <= contact::extra(rel) <= 4907,
{
    reveal(V3::square);
    assert(rel.x * rel.x >= 0 && rel.y * rel.y >= 0 && rel.z * rel.z >= 0) by (nonlinear_arith);
    vec3::lemma_root_exists(num::min(rel.square(), i32::MAX as int));
    let speed = num::min(rel.length(), 4907);
    assert(curve::spans(CARBALL_EXTRA_CURVE@, 307, 666));
    curve::law_value_stays_in_range(CARBALL_EXTRA_CURVE@, speed, 307, 666);
    let worth = curve::value(CARBALL_EXTRA_CURVE@, speed);
    num::lemma_mul_bound(speed, worth, speed, 1024);
    assert(0 <= speed * worth) by (nonlinear_arith)
        requires
            0 <= speed,
            0 <= worth,
    ;
    reveal(vec3::damped);
}

/// What a touch leaves of the car's speed.
proof fn lemma_touched_car(t: Angles, b: Ball, c: Car, vb: int, cb: int)
    requires
        smooth(t),
        c.up.within(4096),
        c.v.within(cb),
        b.v.within(vb),
        0 <= vb <= 2_000_000,
        0 <= cb <= 50_000,
    ensures
        ({
            let car = contact::touched(t, b, c).1;
            &&& car.p == c.p
            &&& car.up == c.up
            &&& car.v.within(cb + (3 * (vb + cb) * 146) / 1024 + 1)
        }),
{
    lemma_touch_normal(t, c, b.p);
    if let Some(k) = contact::box_contact(t, c, b.p, 91) {
        let n = k.normal;
        let rel = vec3::sub3(b.v, c.v);
        vec3::lemma_dot(rel, n, vb + cb);
        let close = -vec3::dot(rel, n);
        if close > 0 {
            reveal(vec3::damped);
            vec3::lemma_along(n, -contact::rigid(close).car);
        }
    }
}

/// A touch puts the ball a radius off a face that it was within a radius of.
pub proof fn lemma_touch_place(t: Angles, b: Ball, c: Car)
    requires
        smooth(t),
        c.in_range(),
        b.p.within(0x1000_0000),
    ensures
        contact::box_contact(t, c, b.p, 91) matches Some(k) ==> {
            let p = contact::cleared(b, k).p;
            &&& num::abs(p.x - b.p.x) <= 11_648
            &&& num::abs(p.y - b.p.y) <= 11_648
            &&& num::abs(p.z - b.p.z) <= 11_648
        },
{
    lemma_touch_normal(t, c, b.p);
    lemma_directions(t, c.up, c.yaw);
    let (right, up, fwd) = car::frame(t, c.up, c.yaw);
    let l = contact::local_of(vec3::sub3(b.p, c.p), right, up, fwd);
    let (x, y, z) = (
        num::clamp(l.x, -contact::BOX_X as int, contact::BOX_X as int),
        num::clamp(l.y, -contact::BOX_Y as int, contact::BOX_Y as int),
        num::clamp(l.z, -contact::BOX_Z as int, contact::BOX_Z as int),
    );
    vec3::lemma_along(right, x);
    vec3::lemma_along(up, y);
    vec3::lemma_along(fwd, z);
    if let Some(k) = contact::box_contact(t, c, b.p, 91) {
        let out = vec3::sub3(b.p, k.point);
        bounds::lemma_within(out, 5824);
        vec3::lemma_along(k.normal, 5824);
    }
}

/// What a touch leaves of the ball's speed and the car's.
#[verifier::spinoff_prover]
#[verifier::rlimit(50)]
proof fn lemma_touched(t: Angles, b: Ball, c: Car, vb: int, wb: int, cb: int)
    requires
        smooth(t),
        c.in_range(),
        c.v.within(cb),
        b.p.within(0x1000_0000),
        b.v.within(vb),
        b.w.within(wb),
        0 <= vb <= 2_000_000,
        0 <= wb <= 0x2_0000,
        0 <= cb <= 50_000,
    ensures
        ({
            let (ball, car, _) = contact::touched(t, b, c);
            let close = 3 * (vb + cb);
            let pushed = vb + (close * 878) / 1024 + 1;
            let slowed = cb + (close * 146) / 1024 + 1;
            &&& car.p == c.p
            &&& car.up == c.up
            &&& car.v.within(slowed)
            &&& ball.v.within(3 * pushed + 2 * (wb / 4 + 1 + slowed) + 5000)
            &&& ball.w.within(wb + 11 * (pushed + wb / 4 + 1 + slowed) + 6554)
            &&& num::abs(ball.p.x - b.p.x) <= 11_648
            &&& num::abs(ball.p.y - b.p.y) <= 11_648
            &&& num::abs(ball.p.z - b.p.z) <= 11_648
        }),
{
    lemma_touch_normal(t, c, b.p);
    if let Some(k) = contact::box_contact(t, c, b.p, 91) {
        let n = k.normal;
        lemma_touch_place(t, b, c);
        let rel = vec3::sub3(b.v, c.v);
        vec3::lemma_dot(rel, n, vb + cb);
        let close = -vec3::dot(rel, n);
        if close > 0 {
            let most = 3 * (vb + cb);
            let hit = contact::rigid(close);
            reveal(vec3::damped);
            vec3::lemma_along(n, hit.ball);
            vec3::lemma_along(n, -hit.car);
            let pushed = vb + (most * 878) / 1024 + 1;
            let slowed = cb + (most * 146) / 1024 + 1;
            let car = Car { v: vec3::added(c.v, n, -hit.car), ..c };
            assert(car.v.within(slowed));
            let struck = Ball { v: vec3::added(b.v, n, hit.ball), ..contact::cleared(b, k) };
            assert(struck.v.within(pushed));
            ball::lemma_rubbed(
                struck,
                n,
                hit.ball,
                CARBALL_FRICTION as int,
                car.v,
                pushed,
                wb,
                slowed,
            );
            lemma_extra(rel);
            lemma_directions(t, c.up, c.yaw);
            let gap = vec3::sub3(b.p, c.p);
            assert(contact::nearby(gap, 12_480));
            vec3::lemma_unit(gap);
            let toward = contact::aim(gap.unit(), car::nose(t, c.up, c.yaw));
            lemma_aim(gap.unit(), car::nose(t, c.up, c.yaw));
            vec3::lemma_along(toward, contact::extra(rel));
        }
    }
}

// ---- the tick ----------------------------------------------------------

/// Two cars that differ at most in their tanks.
pub open spec fn same_but_boost(a: Car, b: Car) -> bool {
    b == (Car { boost: b.boost, ..a })
}

/// The pads move nothing.
pub proof fn lemma_padded(s: Sim, n: nat)
    ensures
        same_but_boost(s.car, play::padded(s, n).car),
        same_but_boost(s.opponent, play::padded(s, n).opponent),
        play::padded(s, n).ball == s.ball,
    decreases n,
{
    if n > 0 {
        lemma_padded(s, (n - 1) as nat);
    }
}

/// Either car's turn leaves it in range.
proof fn lemma_turn(t: Angles, c: Car, team: Team, input: Input, gravity: int)
    requires
        smooth(t),
        car_in_play(c),
        0 <= gravity <= 1000,
    ensures
        tick::car_turn(t, c, team, input, gravity).in_range(),
        tick::car_turn(t, c, team, input, gravity).v.within(39_500),
{
    if !c.is_wrecked() {
        lemma_ticked(t, c, input, gravity);
    }
}

/// The cars are in range once driven.
proof fn lemma_driven_on(t: Angles, s: Sim, input: Input, p2: Option<Input>)
    requires
        smooth(t),
        in_play(s),
    ensures
        ({
            let r = tick::driven_on(t, s, input, p2);
            &&& tick::cars_in_range(r)
            &&& r.car.v.within(39_500)
            &&& r.opponent.v.within(39_500)
            &&& r.ball == s.ball
        }),
{
    reveal(tick::cars_turned);
    let quiet = tick::clocked(tick::hushed(s));
    let (orange, thought) = tick::rival(t, quiet, p2);
    let gravity = sim::gravity_due(s.gravity_phase as int);
    lemma_turn(t, s.car, Team::Blue, input, gravity);
    lemma_turn(t, s.opponent, Team::Orange, orange, gravity);
}

/// The ball and the cars are in range once the ball has flown.
proof fn lemma_ball_flown(t: Angles, s: Sim, input: Input, p2: Option<Input>)
    requires
        smooth(t),
        in_play(s),
    ensures
        ({
            let r = tick::ball_flown(t, s, input, p2);
            &&& tick::cars_in_range(r)
            &&& r.car.v.within(41_900)
            &&& r.opponent.v.within(41_900)
            &&& r.ball.in_range()
            &&& r.ball.p.within(524_288)
            &&& r.ball.v.within(65_536)
            &&& r.ball.w.within(131_072)
        }),
{
    lemma_driven_on(t, s, input, p2);
    let driven = tick::driven_on(t, s, input, p2);
    lemma_padded(driven, 34);
    let fed = play::padded(driven, 34);
    let gravity = tick::gravity_now(s);
    steady::law_flight_stays_in_range(s.ball, gravity);
    let ball = flight::flown(s.ball, gravity);
    reveal(play::ball_ticked);
    lemma_blasted(fed.car, play::blast_point(ball));
    lemma_blasted(fed.opponent, play::blast_point(ball));
}

/// From any state in play, whatever the drivers do, the whole tick's arithmetic
/// fits: the match can be stepped.
pub proof fn law_a_match_in_play_can_be_stepped(t: Angles, s: Sim, input: Input, p2: Option<Input>)
    requires
        smooth(t),
        in_play(s),
    ensures
        tick::fits(t, s, input, p2),
{
    steady::law_flight_stays_in_range(s.ball, tick::gravity_now(s));
    lemma_ball_flown(t, s, input, p2);
    lemma_driven_on(t, s, input, p2);
    let flown = tick::ball_flown(t, s, input, p2);
    reveal(tick::ball_touched);
    lemma_touched(t, flown.ball, flown.car, 65_536, 131_072, 41_900);
    let (first, car, _) = tick::touch_by(t, flown.ball, flown.car);
    assert(first.v.within(1_300_000) && car.v.within(90_000));
    lemma_touched_car(t, first, flown.opponent, 1_300_000, 41_900);
}

/// A fresh match is in play, whatever ends it.
pub proof fn law_a_fresh_match_is_in_play(w: WinCondition)
    ensures
        in_play(sim::fresh(w)),
        in_play(sim::kicked_off(sim::fresh(w))),
{
    let s = sim::fresh(w);
    reveal(V3::square);
    assert(0int * 0int == 0 && 4096int * 4096int == 16_777_216);
    assert(s.ball.w.square() == 0);
    bounds::lemma_short_length(s.ball.w, 6554);
}

} // verus!
