//! A match, told by what its events do: pads, goals, kickoffs, and whose pad
//! drives whose car.

use vstd::prelude::*;
use crate::ball::Ball;
use crate::car::{Car, Input};
use crate::clashes;
use crate::contact;
use crate::flight;
use crate::flight::Team;
use crate::num;
use crate::pads;
use crate::place;
use crate::play;
use crate::sim;
use crate::sim::Sim;
use crate::step;
use crate::surfaces;
use crate::tick;
use crate::trig::Angles;
use crate::vec3;
use crate::vec3::V3;

verus! {

// ---- pads ---------------------------------------------------------------------

/// A car stands on a pad: within 18688 of a big one on both axes, 14592 of a small
/// one.
pub open spec fn stands_on(c: Car, i: int) -> bool {
    let pad = pads::pad_at(i);
    let reach = if pad.big {
        18_688int
    } else {
        14_592int
    };
    &&& -reach < c.p.x - 64 * pad.x < reach
    &&& -reach < c.p.z - 64 * pad.z < reach
}

/// A car that could use what a pad gives.
pub open spec fn wants_fuel(c: Car) -> bool {
    c.demo_timer == 0 && c.boost < 6400
}

/// A pad that is up refuels a car that stands on it and has room in its tank, the
/// player's before the opponent's: a big one fills the tank and is down for 600
/// ticks, a small one gives 768 and is down for 240. A pad that is down counts
/// down. Nothing else happens at a pad.
pub proof fn law_a_pad_refuels_who_stands_on_it(s: Sim, i: int)
    requires
        0 <= i < 34,
        0 <= s.car.boost <= 6400,
        0 <= s.opponent.boost <= 6400,
    ensures
        ({
            let r = play::pad_stepped(s, i);
            let up = s.pad_timers@[i] == 0;
            let blue = up && stands_on(s.car, i) && wants_fuel(s.car);
            let orange = up && !blue && stands_on(s.opponent, i) && wants_fuel(s.opponent);
            let big = pads::pad_at(i).big;
            &&& blue ==> r.car.boost == if big {
                6400int
            } else {
                num::min(s.car.boost + 768, 6400)
            }
            &&& orange ==> r.opponent.boost == if big {
                6400int
            } else {
                num::min(s.opponent.boost + 768, 6400)
            }
            &&& !blue ==> r.car == s.car
            &&& !orange ==> r.opponent == s.opponent
            &&& r.pad_taken == (s.pad_taken || blue || orange)
            &&& !up ==> r.pad_timers@[i] == s.pad_timers@[i] - 1
            &&& blue || orange ==> r.pad_timers@[i] == if big {
                600int
            } else {
                240int
            }
            &&& up && !blue && !orange ==> r == s
            &&& forall|j: int| 0 <= j < 34 && j != i ==> #[trigger] r.pad_timers@[j] == s.pad_timers@[j]
        }),
{
    assert(s.pad_timers@.len() == 34);
    let pad = pads::pad_at(i);
    lemma_timer(s.pad_timers, i, s.pad_timers@[i] - 1);
    lemma_timer(s.pad_timers, i, pad.downtime());
}

proof fn lemma_timer(timers: [u16; 34], i: int, ticks: int)
    requires
        0 <= i < 34,
    ensures
        play::timer_set(timers, i, ticks)@ == timers@.update(i, ticks as u16),
{
    pads::lemma_timers_hold(timers@.update(i, ticks as u16));
}

// ---- goals ---------------------------------------------------------------------

/// A ball wholly over the line at the top of the pitch is blue's goal, at the
/// bottom orange's, and anywhere else nobody's. A goal counts one, stops the ball
/// and starts a celebration of 150 ticks.
pub proof fn law_a_ball_over_the_line_is_a_goal(t: Angles, s: Sim, gravity: int)
    requires
        s.score_blue < u16::MAX,
        s.score_orange < u16::MAX,
    ensures
        ({
            let r = play::ball_ticked(t, s, gravity);
            let z = flight::flown(s.ball, gravity).p.z;
            &&& z > 333_504 ==> r.score_blue == s.score_blue + 1 && r.score_orange == s.score_orange
                && r.last_scorer == Team::Blue
            &&& z < -333_504 ==> r.score_orange == s.score_orange + 1 && r.score_blue == s.score_blue
                && r.last_scorer == Team::Orange
            &&& z > 333_504 || z < -333_504 ==> r.goal_freeze == 150 && r.ball.v == vec3::zero3()
                && r.ball.w == vec3::zero3()
            &&& -333_504 <= z <= 333_504 ==> r.score_blue == s.score_blue && r.score_orange
                == s.score_orange && r.goal_freeze == s.goal_freeze && r.car == s.car && r.opponent
                == s.opponent
            &&& r.ball.p == flight::flown(s.ball, gravity).p
        }),
{
    reveal(play::ball_ticked);
    place::law_a_goal_is_over_the_line(s.ball, gravity);
}

/// A goal throws the cars near the ball away from it and up: on each level axis a
/// car is pushed to the side it stands on, never the other, and it is thrown off
/// its wheels. The nearer it stands the harder it is thrown; one 2600 away or more is
/// not moved, and nor is a wreck.
pub proof fn law_a_goal_blast_pushes_outward(c: Car, blast: V3)
    requires
        c.p.within(0x10_0000),
        blast.within(0x10_0000),
        c.v.within(0x10_0000),
    ensures
        ({
            let r = play::blasted(c, blast);
            let gap = vec3::v3(
                (c.p.x - blast.x) / 64,
                (c.p.y - blast.y) / 64,
                (c.p.z - blast.z) / 64,
            );
            let near = !c.is_wrecked() && gap.length() < 2600;
            &&& near ==> {
                &&& surfaces::same_way(r.v.x - c.v.x, gap.x as int)
                &&& surfaces::same_way(r.v.z - c.v.z, gap.z as int)
                &&& gap.y >= 0 ==> r.v.y >= c.v.y
                &&& !r.grounded
                &&& gap.x == 0 && gap.y == 0 && gap.z == 0 ==> r.v.y == c.v.y + 2400
                &&& gap.length() >= 2340 ==> num::abs(r.v.x - c.v.x) <= 150 && num::abs(r.v.z - c.v.z)
                    <= 150 && r.v.y - c.v.y <= 240
                &&& gap.length() <= 1300 && gap.y >= 0 ==> r.v.y - c.v.y >= 449
            }
            &&& !near ==> r == c
            &&& r.p == c.p && r.yaw == c.yaw && r.boost == c.boost
        }),
{
    let d = play::blast_gap(c, blast);
    let dist = d.length();
    lemma_gap_length(d);
    if !c.is_wrecked() && dist < 2600 {
        let share = play::blast_share(dist);
        assert(0 <= share <= 4096);
        let k = (1500 * share) / 4096;
        let up = (900 * share) / 4096;
        reveal(vec3::along);
        assert(0 * up == 0 && 0 * k == 0) by (nonlinear_arith);
        if dist == 0 {
            let (x, y, z) = (d.x as int, d.y as int, d.z as int);
            assert(share == 4096);
        } else {
            lemma_thrown(d.x as int, dist, k);
            lemma_thrown(d.y as int, dist, k);
            lemma_thrown(d.z as int, dist, k);
            assert(dist >= 2340 ==> share <= 409 && k <= 149 && up <= 89);
            assert(dist <= 1300 ==> share >= 2048 && up >= 450);
            reveal(vec3::scaled);
        }
    }
}

/// A goal throws both cars alike: with the cars in each other's seats the ball does
/// the same, the same side scores, and each car is thrown as it was.
pub proof fn law_a_goal_throws_both_cars_alike(t: Angles, s: Sim, gravity: int)
    ensures
        play::ball_ticked(t, clashes::swapped(s), gravity) == clashes::swapped(
            play::ball_ticked(t, s, gravity),
        ),
        flight::goal_by(s.ball, gravity) is Some ==> play::ball_ticked(t, s, gravity).car
            == play::blasted(
            s.car,
            V3 {
                z: num::clamp(
                    flight::flown(s.ball, gravity).p.z as int,
                    -327_680,
                    327_680,
                ) as i32,
                ..flight::flown(s.ball, gravity).p
            },
        ),
{
    reveal(play::ball_ticked);
}

proof fn lemma_gap_length(d: V3)
    requires
        d.within(40_000),
    ensures
        0 <= d.length(),
        d.length() == 0 <==> d == vec3::zero3(),
        d.length() < 2600 ==> num::abs(d.x as int) <= d.length() && num::abs(d.y as int) <= d.length()
            && num::abs(d.z as int) <= d.length(),
{
    reveal(V3::square);
    let (x, y, z) = (d.x as int, d.y as int, d.z as int);
    assert(x * x >= 0 && y * y >= 0 && z * z >= 0) by (nonlinear_arith);
    assert(x != 0 ==> x * x >= 1) by (nonlinear_arith);
    assert(y != 0 ==> y * y >= 1) by (nonlinear_arith);
    assert(z != 0 ==> z * z >= 1) by (nonlinear_arith);
    assert(x == 0 ==> x * x == 0) by (nonlinear_arith);
    assert(y == 0 ==> y * y == 0) by (nonlinear_arith);
    assert(z == 0 ==> z * z == 0) by (nonlinear_arith);
    let kept = num::min(d.square(), i32::MAX as int);
    vec3::lemma_root_exists(kept);
    let r = d.length();
    assert(r == 0 ==> kept < 1) by (nonlinear_arith)
        requires
            kept < (r + 1) * (r + 1),
    ;
    assert(kept == 0 ==> r == 0) by (nonlinear_arith)
        requires
            r * r <= kept,
            0 <= r,
    ;
    if r < 2600 {
        assert(kept < 2600 * 2600) by (nonlinear_arith)
            requires
                kept < (r + 1) * (r + 1),
                0 <= r < 2600,
        ;
        vec3::lemma_length_covers(d);
    }
}

/// A share of a push goes the way of the gap it is a share along.
proof fn lemma_thrown(c: int, dist: int, k: int)
    requires
        0 < dist,
        num::abs(c) <= dist,
        0 <= k <= 1500,
    ensures
        surfaces::same_way((num::tdiv(c * 4096, dist) * k) / 4096, c),
        num::abs((num::tdiv(c * 4096, dist) * k) / 4096) <= k,
        num::abs(num::tdiv(c * 4096, dist)) <= 4096,
{
    let u = num::tdiv(c * 4096, dist);
    num::lemma_tdiv_bound(c * 4096, dist, 4096);
    let p = c * 4096;
    assert(p >= 0 ==> p / dist >= 0) by (nonlinear_arith)
        requires
            dist > 0,
    ;
    assert(p <= 0 ==> (-p) / dist >= 0) by (nonlinear_arith)
        requires
            dist > 0,
    ;
    num::lemma_mul_bound(u, k, 4096, k);
    assert(u >= 0 ==> u * k >= 0) by (nonlinear_arith)
        requires
            k >= 0,
    ;
    assert(u <= 0 ==> u * k <= 0) by (nonlinear_arith)
        requires
            k >= 0,
    ;
}

// ---- kickoffs ------------------------------------------------------------------

/// A kickoff puts the ball at rest on the middle spot, the player's car at the
/// bottom of the pitch facing up it, and the opponent's at the top facing down:
/// each 294912 from the middle, on its wheels, with a third of a tank.
pub proof fn law_a_kickoff_lines_the_cars_up(s: Sim)
    ensures
        ({
            let k = sim::kicked_off(s);
            &&& k.ball.p == (V3 { x: 0, y: 5824, z: 0 }) && k.ball.v == vec3::zero3() && k.ball.w
                == vec3::zero3()
            &&& k.car.p.x == 0 && k.car.p.y == 1792 && k.car.p.z == -294_912 && k.car.yaw == 0
            &&& k.opponent.p.x == 0 && k.opponent.p.y == 1792 && k.opponent.p.z == 294_912
                && k.opponent.yaw == 2048
            &&& k.car.grounded && k.opponent.grounded
            &&& k.car.boost == 2133 && k.opponent.boost == 2133
            &&& k.car.up.y == 4096 && k.opponent.up.y == 4096
            &&& k.kickoff_ticks == 0
        }),
{
}

// ---- whose pad drives whose car ---------------------------------------------------

/// Each pad drives its own car: what the player presses makes no difference to how
/// the opponent's car is driven by a second pad, nor the second pad to the
/// player's car.
pub proof fn law_each_pad_drives_its_own_car(t: Angles, s: Sim, a: Input, b: Input, p: Input, q: Input)
    ensures
        tick::driven_on(t, s, a, Some(p)).opponent == tick::driven_on(t, s, b, Some(p)).opponent,
        tick::driven_on(t, s, a, Some(p)).car == tick::driven_on(t, s, a, Some(q)).car,
        tick::driven_on(t, s, a, Some(p)).car == tick::driven_on(t, s, a, None).car,
{
    reveal(tick::cars_turned);
}

/// The two seats drive alike: a car on its wheels takes the same turn from the same
/// pad in either of them.
pub proof fn law_both_seats_drive_alike(t: Angles, s: Sim, a: Input, b: Input)
    requires
        !s.car.is_wrecked(),
        !s.opponent.is_wrecked(),
    ensures
        ({
            let r = tick::driven_on(t, s, a, Some(b));
            let w = tick::driven_on(t, clashes::swapped(s), b, Some(a));
            &&& w.car == r.opponent
            &&& w.opponent == r.car
            &&& w.ball == r.ball && w.gravity_phase == r.gravity_phase
        }),
{
    reveal(tick::cars_turned);
}

/// Both cars can strike the ball: with the other one clear of it, either of them
/// strikes it alike.
pub proof fn law_either_car_strikes_the_ball(t: Angles, s: Sim)
    requires
        tick::touch_by(t, s.ball, s.car) == (s.ball, s.car, 0int),
    ensures
        ({
            let r = tick::ball_touched(t, s);
            let w = tick::ball_touched(t, clashes::swapped(s));
            let alone = tick::touch_by(t, s.ball, s.opponent);
            &&& r.ball == alone.0 && r.opponent == alone.1 && r.car == s.car
            &&& tick::touch_by(t, alone.0, s.car) == (alone.0, s.car, 0int) ==> {
                &&& w.ball == r.ball
                &&& w.car == r.opponent
                &&& w.opponent == r.car
                &&& w.hit == r.hit
            }
        }),
{
    reveal(tick::ball_touched);
}

// ---- a whole tick ----------------------------------------------------------------

/// Two places too far apart on some axis for what is there to meet.
pub open spec fn well_apart(a: V3, b: V3) -> bool {
    ||| num::abs(a.x - b.x) >= 12_480
    ||| num::abs(a.z - b.z) >= 12_480
}

/// A car as it is after some refuelling.
pub open spec fn refuelled_from(after: Car, before: Car) -> bool {
    &&& after == (Car { boost: after.boost, ..before })
}

/// A tick in which nothing meets anything: each car has taken one turn from its own
/// pad, the ball has flown once, and beyond fuel nothing else has changed either.
pub proof fn law_a_quiet_tick_moves_everything(t: Angles, s: Sim, input: Input, p2: Input)
    requires
        s.goal_freeze == 0,
        !s.car.is_wrecked(),
        !s.opponent.is_wrecked(),
        ({
            let g = tick::gravity_now(s);
            let (a, b) = (
                step::car_ticked(t, s.car, input, g).p,
                step::car_ticked(t, s.opponent, p2, g).p,
            );
            let ball = flight::flown(s.ball, g).p;
            &&& a.within(0x100_0000) && b.within(0x100_0000) && ball.within(0x100_0000)
            &&& well_apart(a, b) && well_apart(a, ball) && well_apart(b, ball)
            &&& -333_504 <= ball.z <= 333_504
            &&& step::car_ticked(t, s.car, input, g).demo_timer == 0
            &&& step::car_ticked(t, s.opponent, p2, g).demo_timer == 0
        }),
    ensures
        ({
            let g = tick::gravity_now(s);
            let r = tick::advanced(t, s, input, Some(p2));
            let ball = flight::flown(s.ball, g);
            &&& refuelled_from(r.car, step::car_ticked(t, s.car, input, g))
            &&& refuelled_from(r.opponent, step::car_ticked(t, s.opponent, p2, g))
            &&& r.ball.p == ball.p && r.ball.v == ball.v && r.ball.w == ball.w
            &&& r.score_blue == s.score_blue && r.score_orange == s.score_orange
            &&& r.hit == 0 && !r.demo
            &&& 11 <= g <= 12 || s.gravity_phase < 0 || s.gravity_phase >= 9
        }),
{
    reveal(tick::cars_turned);
    let g = tick::gravity_now(s);
    let driven = tick::driven_on(t, s, input, Some(p2));
    assert(driven.car == step::car_ticked(t, s.car, input, g));
    assert(driven.opponent == step::car_ticked(t, s.opponent, p2, g));
    assert(driven.ball == s.ball);
    lemma_padded_only_refuels(driven, 34);
    let padded = play::padded(driven, 34);
    let flown = play::ball_ticked(t, padded, g);
    reveal(play::ball_ticked);
    place::law_a_goal_is_over_the_line(s.ball, g);
    assert(flown.car == padded.car && flown.opponent == padded.opponent);
    assert(flown.ball.p == flight::flown(s.ball, g).p);
    lemma_out_of_reach(t, flown.ball, flown.car);
    lemma_out_of_reach(t, flown.ball, flown.opponent);
    reveal(tick::ball_touched);
    let touched = tick::ball_touched(t, flown);
    assert(touched.car == flown.car && touched.opponent == flown.opponent && touched.ball == flown.ball);
    reveal(play::cars_met);
    assert(!contact::rams(t, touched.car, touched.opponent));
    assert(!contact::rams(t, touched.opponent, touched.car));
    assert(!play::overlapping(touched));
}

proof fn lemma_out_of_reach(t: Angles, b: Ball, c: Car)
    requires
        b.p.within(0x100_0000),
        c.p.within(0x100_0000),
        well_apart(c.p, b.p),
    ensures
        tick::touch_by(t, b, c) == (b, c, 0int),
{
    let d = vec3::sub3(b.p, c.p);
    assert(!contact::nearby(d, 12_480));
}

proof fn lemma_padded_only_refuels(s: Sim, n: nat)
    requires
        n <= 34,
    ensures
        ({
            let r = play::padded(s, n);
            &&& refuelled_from(r.car, s.car)
            &&& refuelled_from(r.opponent, s.opponent)
            &&& r.ball == s.ball
            &&& r.score_blue == s.score_blue && r.score_orange == s.score_orange
            &&& r.goal_freeze == s.goal_freeze
            &&& r.demo == s.demo
        }),
    decreases n,
{
    if n > 0 {
        lemma_padded_only_refuels(s, (n - 1) as nat);
    }
}

} // verus!
