//! Nothing leaves the arena.

use vstd::prelude::*;
use crate::arena;
use crate::ball::Ball;
use crate::car;
use crate::car::{Car, Input};
use crate::contact;
use crate::flight;
use crate::flight::Team;
use crate::frame;
use crate::num;
use crate::play;
use crate::ramp;
use crate::sim;
use crate::sim::Sim;
use crate::steady;
use crate::step;
use crate::tick;
use crate::trig::Angles;
use crate::tuning::{BALL_R, CAR_REST_Y};
use crate::vec3;
use crate::vec3::V3;

verus! {

// ---- the ball ----------------------------------------------------------

/// The goal frame pushes a ball neither under the floor nor over the ceiling.
proof fn lemma_frame_height(b: Ball)
    requires
        flight::BALL_FLOOR <= b.p.y <= flight::BALL_CEILING,
    ensures
        flight::BALL_FLOOR <= frame::off_frame(b).p.y <= flight::BALL_CEILING,
{
    if let Some(d) = frame::frame_touch(b.p) {
        let side = frame::goal_side(b.p.z as int);
        let n = frame::frame_normal(d, side);
        let left = frame::gap_to_post(b.p, -frame::MOUTH as int, side);
        let right = frame::gap_to_post(b.p, frame::MOUTH as int, side);
        let bar = frame::gap_to_bar(b.p, side);
        assert(d == left || d == right || d == bar);
        assert(frame::short(d));
        frame::lemma_short_square(d);
        vec3::lemma_root_exists(d.square());
        let root = num::root(d.square());
        assert(root <= 6912) by {
            if root > 6912 {
                crate::bounds::lemma_square_grows(6912, root);
            }
        }
        let out = frame::FRAME_REACH - root;
        if d.square() == 0 {
            assert(n.y == 0);
        } else {
            vec3::lemma_unit(d);
            reveal(vec3::scaled);
            let len = num::max(d.length(), 1);
            if d.y == 0 {
                assert(d.y * 4096 == 0);
            } else if d.y > 0 {
                assert((d.y * 4096) / len >= 0) by (nonlinear_arith)
                    requires
                        d.y > 0,
                        len >= 1,
                ;
            } else {
                assert((-(d.y * 4096)) / len >= 0) by (nonlinear_arith)
                    requires
                        d.y < 0,
                        len >= 1,
                ;
            }
        }
        vec3::lemma_along(n, out);
        if n.y == 0 {
            assert(n.y * out == 0) by (nonlinear_arith)
                requires
                    n.y == 0,
            ;
            reveal(vec3::along);
        }
    }
}

/// Where the quarter pipe leaves a ball is between the floor and the ceiling.
proof fn lemma_ramp_height(b: Ball)
    requires
        flight::BALL_FLOOR <= b.p.y <= flight::BALL_CEILING,
    ensures
        flight::BALL_FLOOR <= flight::up_ramp(b).p.y <= flight::BALL_CEILING,
{
    let facing = num::abs(b.p.x as int) < frame::MOUTH;
    let wall = arena::ball_wall_near(b.p.x as int, b.p.z as int, facing);
    let (h, v) = (ramp::lean(wall.distance as int), ramp::lean(b.p.y as int));
    let length = ramp::lean_length(h, v);
    if length > ramp::BALL_ARC {
        ramp::lemma_lean_fits(h, v);
        steady::lemma_onto(v, ramp::BALL_ARC as int, length);
        reveal(ramp::onto_arc);
    }
}

/// After a tick of flight the ball is inside the arena: between the floor and
/// the ceiling, within the side walls, and, unless it is lined up with a goal
/// mouth, within the end walls and off the corner planes. Past a goal line it is
/// between the posts.
pub proof fn law_ball_stays_in_the_arena(b: Ball, gravity: int)
    ensures
        ({
            let s = flight::surfaced(b, gravity);
            let r = flight::flown(b, gravity);
            &&& flight::BALL_FLOOR <= r.p.y <= flight::BALL_CEILING
            &&& num::abs(r.p.x as int) <= 256_320
            &&& arena::past_goal_line(s.p.z as int) ==> num::abs(r.p.x as int) <= flight::MOUTH_CLEAR
            &&& !flight::through_mouth(s.p) ==> arena::inside(
                r.p.x as int,
                r.p.z as int,
                BALL_R as int,
                false,
            )
            &&& flight::through_mouth(s.p) ==> r.p.z == s.p.z
        }),
{
    let drifted = flight::drifted(b, gravity);
    let level = flight::under_ceiling(flight::on_floor(drifted, gravity));
    lemma_frame_height(level);
    lemma_ramp_height(frame::off_frame(level));
    let s = flight::surfaced(b, gravity);
    arena::law_confined_is_inside(
        s.p.x as int,
        s.p.z as int,
        s.v.x as int,
        s.v.z as int,
        BALL_R as int,
        614,
        flight::through_mouth(s.p),
    );
}

/// A tick of flight is a goal exactly where it takes the ball wholly over a
/// line: there it is between the posts and under the bar.
pub proof fn law_a_goal_is_over_the_line(b: Ball, gravity: int)
    ensures
        ({
            let r = flight::flown(b, gravity).p;
            let goal = flight::goal_by(b, gravity);
            &&& goal == Some(Team::Blue) <==> r.z > flight::OVER_LINE
            &&& goal == Some(Team::Orange) <==> r.z < -flight::OVER_LINE
            &&& goal is Some ==> num::abs(r.x as int) < flight::MOUTH_CLEAR && r.y < flight::BAR_CLEAR
        }),
{
    law_ball_stays_in_the_arena(b, gravity);
}

// ---- the cars ----------------------------------------------------------

/// A car's centre is inside the arena, lined up with a goal mouth or not.
pub open spec fn holds_car(p: V3, mouth_open: bool) -> bool {
    &&& step::CAR_FLOOR <= p.y <= step::CAR_CEILING
    &&& arena::inside(p.x as int, p.z as int, CAR_REST_Y as int, mouth_open)
}

proof fn lemma_car_height(p: V3, mouth_open: bool)
    requires
        step::CAR_FLOOR <= p.y <= step::CAR_CEILING,
    ensures
        step::CAR_FLOOR <= ramp::car_on_ramp(p, mouth_open).0.y <= step::CAR_CEILING,
{
    let wall = arena::wall_near(p.x as int, p.z as int, mouth_open);
    assert(wall.inward.y == 0) by {
        reveal(arena::wall_near);
    }
    let scale = ramp::RIDE - wall.distance;
    assert(wall.inward.y * scale == 0) by (nonlinear_arith)
        requires
            wall.inward.y == 0,
    ;
    reveal(vec3::along);
    let (h, v) = (ramp::lean(wall.distance as int), ramp::lean(p.y as int));
    let length = ramp::lean_length(h, v);
    if length > ramp::CAR_ARC {
        ramp::lemma_lean_fits(h, v);
        steady::lemma_onto(v, ramp::CAR_ARC as int, length);
        reveal(ramp::onto_arc);
    }
}

/// After its turn a car is inside the arena: between the floor and the ceiling,
/// within the side walls, off the corner planes, inside the goal box past a goal
/// line, and not past an end wall unless it is lined up with a goal mouth.
pub proof fn law_car_stays_in_the_arena(t: Angles, c: Car, input: Input, gravity: int)
    ensures
        ({
            let near = step::coasted(t, c, input, gravity);
            holds_car(step::car_ticked(t, c, input, gravity).p, step::in_mouth(near.p))
        }),
{
    let near = step::coasted(t, c, input, gravity);
    let open = step::in_mouth(near.p);
    lemma_car_height(near.p, open);
    let p = ramp::car_on_ramp(near.p, open).0;
    arena::law_confined_is_inside(
        p.x as int,
        p.z as int,
        near.v.x as int,
        near.v.z as int,
        CAR_REST_Y as int,
        0,
        open,
    );
}

// ---- the tick ----------------------------------------------------------

/// A car moved by no more than what two overlapping cars take off each other.
pub open spec fn nudged(from: V3, to: V3) -> bool {
    &&& to.y == from.y
    &&& num::abs(to.x - from.x) <= 5376
    &&& num::abs(to.z - from.z) <= 5376
}

proof fn lemma_parting(d: int, dist: int)
    requires
        0 < dist < contact::CAR_REACH,
        num::abs(d) <= dist,
    ensures
        num::abs(play::parting(d, dist)) <= 5376,
{
    let half = (contact::CAR_REACH - dist) / 2;
    num::lemma_tdiv_bound(d * 4096, dist, 4096);
    let n = num::tdiv(d * 4096, dist);
    num::lemma_mul_bound(n, half, 4096, 5376);
}

/// Meeting moves the cars apart by no more than half their reach each, and not
/// at all where they do not overlap.
pub proof fn lemma_met(t: Angles, s: Sim)
    requires
        s.car.p.within(600_000),
        s.opponent.p.within(600_000),
    ensures
        nudged(s.car.p, play::cars_met(t, s).car.p),
        nudged(s.opponent.p, play::cars_met(t, s).opponent.p),
        play::cars_met(t, s).ball == s.ball,
{
    reveal(play::cars_met);
    let hit = play::traded(t, s);
    assert(hit.car.p == s.car.p && hit.opponent.p == s.opponent.p && hit.ball == s.ball);
    if play::overlapping(hit) {
        let dx = hit.opponent.p.x - hit.car.p.x;
        let dz = hit.opponent.p.z - hit.car.p.z;
        assert(dx * dx >= 0 && dz * dz >= 0) by (nonlinear_arith);
        vec3::lemma_root_exists(dx * dx + dz * dz);
        let dist = num::root(dx * dx + dz * dz);
        num::lemma_root_covers(dist, dx * dx + dz * dz, dx);
        num::lemma_root_covers(dist, dx * dx + dz * dz, dz);
        lemma_parting(dx, dist);
        lemma_parting(dz, dist);
    }
}

/// The pads move nobody.
proof fn lemma_padded_stay(s: Sim, n: nat)
    ensures
        play::padded(s, n).car.p == s.car.p,
        play::padded(s, n).opponent.p == s.opponent.p,
        play::padded(s, n).ball == s.ball,
    decreases n,
{
    if n > 0 {
        lemma_padded_stay(s, (n - 1) as nat);
    }
}

/// A live car touches the ball this tick.
pub open spec fn touches(t: Angles, c: Car, b: Ball) -> bool {
    !c.is_wrecked() && contact::box_contact(t, c, b.p, BALL_R as int) is Some
}

/// Each car is driven from where it stood.
proof fn lemma_driven_place(t: Angles, s: Sim, input: Input, p2: Option<Input>)
    ensures
        ({
            let r = tick::driven_on(t, s, input, p2);
            let orange = tick::rival(t, tick::clocked(tick::hushed(s)), p2).0;
            let gravity = tick::gravity_now(s);
            &&& r.car == tick::car_turn(t, s.car, Team::Blue, input, gravity)
            &&& r.opponent == tick::car_turn(t, s.opponent, Team::Orange, orange, gravity)
            &&& r.ball == s.ball
        }),
{
    reveal(tick::cars_turned);
}

/// Where a car is after its turn.
proof fn lemma_turn_place(t: Angles, c: Car, team: Team, input: Input, gravity: int)
    requires
        c.p.within(600_000),
    ensures
        ({
            let p = tick::car_turn(t, c, team, input, gravity).p;
            &&& p.within(600_000)
            &&& !c.is_wrecked() ==> holds_car(
                p,
                step::in_mouth(step::coasted(t, c, input, gravity).p),
            )
        }),
{
    if !c.is_wrecked() {
        law_car_stays_in_the_arena(t, c, input, gravity);
    }
}

/// The pads and the ball move no car.
proof fn lemma_flown_place(t: Angles, s: Sim, input: Input, p2: Option<Input>)
    ensures
        ({
            let driven = tick::driven_on(t, s, input, p2);
            let r = tick::ball_flown(t, s, input, p2);
            &&& r.car.p == driven.car.p
            &&& r.opponent.p == driven.opponent.p
            &&& r.ball.p == flight::flown(s.ball, tick::gravity_now(s)).p
        }),
{
    lemma_driven_place(t, s, input, p2);
    lemma_padded_stay(tick::driven_on(t, s, input, p2), 34);
    reveal(play::ball_ticked);
}

/// A touch moves no car, and moves the ball only where there is one.
proof fn lemma_touch_place(t: Angles, s: Sim)
    ensures
        ({
            let r = tick::ball_touched(t, s);
            &&& r.car.p == s.car.p
            &&& r.opponent.p == s.opponent.p
            &&& !touches(t, s.car, s.ball) && !touches(t, s.opponent, s.ball) ==> r.ball == s.ball
        }),
{
    reveal(tick::ball_touched);
}

/// A live tick leaves both live cars inside the arena, but for what two
/// overlapping cars then take off each other, and the ball where its flight put
/// it unless a car is touching it.
pub proof fn law_nothing_leaves_the_arena(t: Angles, s: Sim, input: Input, p2: Option<Input>)
    requires
        s.goal_freeze == 0,
        s.car.p.within(600_000),
        s.opponent.p.within(600_000),
    ensures
        ({
            let a = tick::advanced(t, s, input, p2);
            let gravity = tick::gravity_now(s);
            let orange = tick::rival(t, tick::clocked(tick::hushed(s)), p2).0;
            let flown = tick::ball_flown(t, s, input, p2);
            let met = tick::ball_touched(t, flown);
            &&& !s.car.is_wrecked() ==> holds_car(
                met.car.p,
                step::in_mouth(step::coasted(t, s.car, input, gravity).p),
            )
            &&& !s.opponent.is_wrecked() ==> holds_car(
                met.opponent.p,
                step::in_mouth(step::coasted(t, s.opponent, orange, gravity).p),
            )
            &&& nudged(met.car.p, a.car.p)
            &&& nudged(met.opponent.p, a.opponent.p)
            &&& flown.ball.p == flight::flown(s.ball, gravity).p
            &&& !touches(t, flown.car, flown.ball) && !touches(t, flown.opponent, flown.ball)
                ==> a.ball.p == flown.ball.p
        }),
{
    let gravity = tick::gravity_now(s);
    let orange = tick::rival(t, tick::clocked(tick::hushed(s)), p2).0;
    lemma_driven_place(t, s, input, p2);
    lemma_turn_place(t, s.car, Team::Blue, input, gravity);
    lemma_turn_place(t, s.opponent, Team::Orange, orange, gravity);
    lemma_flown_place(t, s, input, p2);
    let flown = tick::ball_flown(t, s, input, p2);
    lemma_touch_place(t, flown);
    lemma_met(t, tick::ball_touched(t, flown));
}

/// The cars drive on through a celebration and stay inside the arena; the ball
/// lies where it was. The kickoff that ends it puts the ball on its spot.
pub proof fn law_a_celebration_stays_in_the_arena(t: Angles, s: Sim, input: Input, p2: Option<Input>)
    requires
        s.goal_freeze > 0,
        s.car.p.within(600_000),
        s.opponent.p.within(600_000),
    ensures
        ({
            let a = tick::advanced(t, s, input, p2);
            let gravity = tick::gravity_now(s);
            let idle = car::no_input();
            if s.goal_freeze > 1 {
                &&& !s.car.is_wrecked() ==> holds_car(
                    a.car.p,
                    step::in_mouth(step::coasted(t, s.car, idle, gravity).p),
                )
                &&& !s.opponent.is_wrecked() ==> holds_car(
                    a.opponent.p,
                    step::in_mouth(step::coasted(t, s.opponent, idle, gravity).p),
                )
                &&& a.ball == s.ball
            } else if s.limit_reached() {
                a.car.p == s.car.p && a.opponent.p == s.opponent.p && a.ball == s.ball
            } else {
                &&& holds_car(a.car.p, false)
                &&& holds_car(a.opponent.p, false)
                &&& a.ball.p == sim::spotted(s.ball).p
            }
        }),
{
    reveal(tick::cars_turned);
    if s.goal_freeze > 1 {
        let gravity = tick::gravity_now(s);
        lemma_turn_place(t, s.car, Team::Blue, car::no_input(), gravity);
        lemma_turn_place(t, s.opponent, Team::Orange, car::no_input(), gravity);
    }
}

} // verus!
