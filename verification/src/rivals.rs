//! How the opponent that drives itself plays: what it goes for, where it aims,
//! and what it does with the wheel and the pedals.

use vstd::prelude::*;
use crate::ai;
use crate::driving;
use crate::num;
use crate::sim::{AiTarget, Sim};
use crate::surfaces;
use crate::trig::Angles;
use crate::vec3;

verus! {

/// How far the opponent has to turn to face where it aims, right positive.
pub open spec fn turn_to_aim(t: Angles, s: Sim) -> int {
    let (x, z) = ai::aim_point(s);
    driving::bend(s.opponent.yaw, t.atan2(x - s.opponent.p.x, z - s.opponent.p.z))
}

/// The opponent is stuck past a goal line or up a wall, or still backing away.
pub open spec fn is_stuck(s: Sim) -> bool {
    ||| num::abs(s.opponent.p.z as int) > 327_680
    ||| s.opponent.grounded && s.opponent.p.y > 8320
    ||| s.ai_escape > 0
}

/// The opponent turns the wheel toward where it aims, and the harder the further
/// off it is. It goes flat out for the ball, boosts only for the ball and only when
/// nearly lined up with it, and slides when it is well off line. Stuck, or nearly
/// on top of what it aims at with it dead astern, it backs straight out instead.
pub proof fn law_the_opponent_steers_at_its_aim(t: Angles, s: Sim)
    requires
        s.ai_ready(),
    ensures
        ({
            let i = ai::handled(t, s);
            let off = turn_to_aim(t, s);
            let backs = is_stuck(s) || (ai::aim_gap(s) < 265 && num::abs(off) > 1628);
            &&& backs ==> i.throttle == -128 && i.steer == 0 && !i.boost
            &&& !backs ==> {
                &&& surfaces::same_way(i.steer as int, off)
                &&& off >= 4 ==> i.steer > 0
                &&& off <= -4 ==> i.steer < 0
                &&& off >= 512 ==> i.steer == 128
                &&& off <= -512 ==> i.steer == -128
                &&& i.throttle >= 24
                &&& s.ai_target == AiTarget::Ball ==> i.throttle == 128
                &&& i.boost ==> s.ai_target == AiTarget::Ball && -471 <= off <= 471
                &&& s.ai_target == AiTarget::Ball && -471 <= off <= 471 && !ai::untouched(s)
                    ==> i.boost
                &&& off > 420 || off < -420 ==> i.handbrake
            }
            &&& !i.jump_pressed
        }),
{
    let (x, z) = ai::aim_point(s);
    let want = t.atan2(x - s.opponent.p.x, z - s.opponent.p.z);
    lemma_error_is_bend(want, s.opponent.yaw);
    let off = turn_to_aim(t, s);
    let quick = ai::flat_speed(s);
    lemma_span((s.opponent.v.x as int) / 64, (s.opponent.v.z as int) / 64);
    let ease = 128 - num::min((quick * 64) / 2347, 64);
    assert(64 <= ease <= 128);
    let p = off * ease;
    assert(off >= 0 ==> 64 * off <= p <= 128 * off) by (nonlinear_arith)
        requires
            p == off * ease,
            64 <= ease <= 128,
    ;
    assert(off <= 0 ==> 128 * off <= p <= 64 * off) by (nonlinear_arith)
        requires
            p == off * ease,
            64 <= ease <= 128,
    ;
}

proof fn lemma_span(dx: int, dz: int)
    ensures
        ai::span(dx, dz) >= 0,
        num::abs(dx) <= ai::span(dx, dz),
        num::abs(dz) <= ai::span(dx, dz),
        ai::span(dx, dz) <= num::abs(dx) + num::abs(dz),
{
    assert(dx * dx >= 0 && dz * dz >= 0) by (nonlinear_arith);
    let all = dx * dx + dz * dz;
    vec3::lemma_root_exists(all);
    let r = num::root(all);
    num::lemma_root_covers(r, all, dx);
    num::lemma_root_covers(r, all, dz);
    let (ax, az) = (num::abs(dx), num::abs(dz));
    assert(all <= (ax + az) * (ax + az)) by (nonlinear_arith)
        requires
            all == dx * dx + dz * dz,
            ax == if dx < 0 {
                -dx
            } else {
                dx
            },
            az == if dz < 0 {
                -dz
            } else {
                dz
            },
    ;
    assert(r <= ax + az) by (nonlinear_arith)
        requires
            r * r <= (ax + az) * (ax + az),
            0 <= r,
            0 <= ax + az,
    ;
}

proof fn lemma_error_is_bend(want: u16, have: u16)
    ensures
        ai::angle_error(want, have) == driving::bend(have, want),
{
}

/// A ball further down the pitch than the opponent is one it can play; one further
/// up is behind it, and touching it there would send it at its own goal.
pub proof fn law_the_opponent_knows_its_own_goal(s: Sim)
    requires
        s.ai_ready(),
    ensures
        s.ball.p.z <= s.opponent.p.z ==> !ai::wrong_side(s),
        s.ball.p.z >= s.opponent.p.z + 1024 ==> ai::wrong_side(s),
{
    let dx = (s.ball.p.x - s.opponent.p.x) / 64;
    let dz = (s.ball.p.z - s.opponent.p.z) / 64;
    lemma_span(dx, dz);
    let dist = ai::ball_dist(s);
    assert(1 <= dist <= 65_536);
    let p = -dz * 4096;
    if dz <= 0 {
        assert(p / dist >= 0) by (nonlinear_arith)
            requires
                p >= 0,
                dist >= 1,
        ;
    } else {
        assert(dz >= 16 ==> (-p) / dist >= 1) by (nonlinear_arith)
            requires
                p == -dz * 4096,
                1 <= dist <= 65_536,
        ;
    }
}

/// On the wrong side of the ball the opponent makes for a place up the pitch from
/// it, so as to come round behind it; near the ball on the right side, and at an
/// untouched kickoff, it goes for the ball.
pub proof fn law_the_opponent_comes_round_behind_the_ball(t: Angles, s: Sim)
    requires
        s.ai_ready(),
        crate::trig::is_wave(t.sine),
        crate::trig::is_wave(t.cosine),
    ensures
        ({
            let (target, _) = ai::picked(t, s);
            let kickoff = ai::untouched(s) && num::abs(s.opponent.p.z as int) > 256_000;
            &&& kickoff ==> target == AiTarget::Ball
            &&& !kickoff && ai::wrong_side(s) ==> {
                &&& target is Position
                &&& target->Position_1 >= num::min(s.ball.p.z as int, 294_848)
                &&& num::abs(target->Position_0 as int) <= 235_904
                &&& num::abs(target->Position_1 as int) <= 294_848
            }
            &&& !kickoff && !ai::wrong_side(s) && ai::ball_dist(s) <= 2650 ==> target
                == AiTarget::Ball
            &&& !kickoff && !ai::wrong_side(s) && ai::ball_dist(s) > 2650 && s.opponent.boost >= 320
                ==> target is Position && target->Position_1 >= num::min(s.ball.p.z as int, 294_848)
            &&& target is Boost ==> 0 <= s.opponent.boost < 320 || s.opponent.boost < 0
        }),
{
    lemma_scatter(t, s, 2385);
    lemma_scatter(t, s, 530);
}

proof fn lemma_scatter(t: Angles, s: Sim, radius: int)
    requires
        s.ai_ready(),
        radius == 2385 || radius == 530,
        crate::trig::is_wave(t.sine),
        crate::trig::is_wave(t.cosine),
    ensures
        ({
            let (target, _) = ai::beyond_ball(t, s, radius);
            &&& target is Position
            &&& target->Position_1 >= num::min(s.ball.p.z as int, 294_848)
            &&& num::abs(target->Position_0 as int) <= 235_904
            &&& num::abs(target->Position_1 as int) <= 294_848
        }),
{
    let first = ai::shuffled(s.ai_rng);
    let second = ai::shuffled(first);
    let angle = (first % 4096) as u16;
    let reach = (second as int) % radius;
    assert(0 <= reach < radius);
    let sn = t.sin(angle);
    assert(-4096 <= sn <= 4096);
    assert(sn * reach >= -4096 * reach) by (nonlinear_arith)
        requires
            -4096 <= sn,
            0 <= reach,
    ;
}

/// Going for a ball at rest, the opponent aims past it, on the side away from the
/// goal it attacks: further from that goal line than the ball is, and further out
/// from the middle on the side the ball is on.
pub proof fn law_the_opponent_aims_past_the_ball(s: Sim)
    requires
        s.ai_ready(),
        s.ai_target == AiTarget::Ball,
        s.ball.v == vec3::zero3(),
        num::abs(s.ball.p.x as int) <= 256_000,
        num::abs(s.ball.p.z as int) <= 321_000,
    ensures
        ({
            let (x, z) = ai::aim_point(s);
            let (bx, bz) = ((s.ball.p.x as int) / 64, (s.ball.p.z as int) / 64);
            &&& z >= 64 * bz
            &&& bx >= 0 ==> x >= 64 * bx
            &&& bx <= 0 ==> x <= 64 * bx
            &&& bx == 0 && bz >= -4000 ==> z == 64 * bz + 64 * 175
        }),
{
    let lead = ai::lead_ticks(s);
    assert(0 * lead == 0) by (nonlinear_arith);
    let (bx, bz) = ((s.ball.p.x as int) / 64, (s.ball.p.z as int) / 64);
    let (px, pz) = ai::ball_lead(s);
    assert(px == 64 * bx && pz == 64 * bz);
    let (gx, gz) = (bx, bz + 5120);
    lemma_span(gx, gz);
    let reach = num::max(ai::span(gx, gz), 1);
    lemma_toward(gx, reach);
    lemma_toward(gz, reach);
    if bx == 0 {
        lemma_straight_span(gz);
        assert((gz * 175) / gz == 175) by (nonlinear_arith)
            requires
                gz > 0,
        ;
    }
}

proof fn lemma_straight_span(dz: int)
    requires
        dz > 0,
    ensures
        ai::span(0, dz) == dz,
{
    lemma_span(0, dz);
}

proof fn lemma_toward(g: int, reach: int)
    requires
        reach >= 1,
    ensures
        surfaces::same_way(num::tdiv(g * 175, reach), g),
{
    let p = g * 175;
    assert(p >= 0 ==> p / reach >= 0) by (nonlinear_arith)
        requires
            reach >= 1,
    ;
    assert(p <= 0 ==> (-p) / reach >= 0) by (nonlinear_arith)
        requires
            reach >= 1,
    ;
}

/// Stuck, the opponent keeps backing away for forty ticks after it comes free.
pub proof fn law_the_opponent_backs_all_the_way_out(s: Sim)
    ensures
        ({
            let r = ai::escape_stepped(s);
            let stuck = num::abs(s.opponent.p.z as int) > 327_680 || (s.opponent.grounded
                && s.opponent.p.y > 8320);
            &&& stuck ==> r.ai_escape == 40
            &&& !stuck && s.ai_escape > 0 ==> r.ai_escape == s.ai_escape - 1
            &&& !stuck && s.ai_escape == 0 ==> r.ai_escape == 0
        }),
{
}

/// The opponent plays a ball where it is going, not where it is: it leads it the
/// way it moves, and not at all when it is at rest or the opponent is on it.
pub proof fn law_the_opponent_leads_the_ball(s: Sim)
    requires
        s.ai_ready(),
        num::abs(s.ball.p.x as int) <= 256_000,
        num::abs(s.ball.p.z as int) <= 321_000,
    ensures
        ({
            let (x, z) = ai::ball_lead(s);
            let (bx, bz) = ((s.ball.p.x as int) / 64, (s.ball.p.z as int) / 64);
            let (ox, oz) = ((s.opponent.p.x as int) / 64, (s.opponent.p.z as int) / 64);
            &&& s.ball.v.x >= 0 ==> x >= 64 * bx
            &&& s.ball.v.x <= 0 ==> x <= 64 * bx
            &&& s.ball.v.z >= 0 ==> z >= 64 * bz
            &&& s.ball.v.z <= 0 ==> z <= 64 * bz
            &&& s.ball.p.y <= 11_200 && num::abs(bz - oz) >= 38 && s.ball.v.x >= 64 && bx < 4005
                ==> x > 64 * bx
            &&& s.ball.p.y <= 11_200 && num::abs(bx - ox) >= 38 && s.ball.v.z >= 64 && bz < 5029
                ==> z > 64 * bz
            &&& s.ball.p.y <= 11_200 && bx == ox && bz == oz ==> x == 64 * bx && z == 64 * bz
        }),
{
    let lead = ai::lead_ticks(s);
    let (bx, bz) = ((s.ball.p.x as int) / 64, (s.ball.p.z as int) / 64);
    let (ox, oz) = ((s.opponent.p.x as int) / 64, (s.opponent.p.z as int) / 64);
    lemma_span(bx - ox, bz - oz);
    let (vx, vz) = ((s.ball.v.x as int) / 64, (s.ball.v.z as int) / 64);
    lemma_led(vx, lead);
    lemma_led(vz, lead);
}

proof fn lemma_led(v: int, lead: int)
    requires
        0 <= lead,
    ensures
        surfaces::same_way(v * lead, v),
        v >= 1 && lead >= 1 ==> v * lead >= 1,
        lead == 0 ==> v * lead == 0,
{
    assert(v >= 0 ==> v * lead >= 0) by (nonlinear_arith)
        requires
            0 <= lead,
    ;
    assert(v <= 0 ==> v * lead <= 0) by (nonlinear_arith)
        requires
            0 <= lead,
    ;
    assert(v >= 1 && lead >= 1 ==> v * lead >= 1) by (nonlinear_arith);
    assert(lead == 0 ==> v * lead == 0) by (nonlinear_arith);
}

/// A plan is dropped when it has served: the ball once the opponent is on the wrong
/// side of it, a pad once it is down or there are forty pips in the tank, either of
/// the others after eight seconds, and any but the ball once there is a shot. It is
/// held on to until then.
pub proof fn law_a_plan_is_held_until_it_has_served(t: Angles, s: Sim)
    requires
        s.ai_ready(),
        0 <= s.opponent.boost <= 6400,
    ensures
        ({
            let late = s.ai_target_ticks >= 479;
            let shot = !ai::wrong_side(s) && ai::ball_dist(s) <= 2650 && num::abs(
                driving::bend(
                    s.opponent.yaw,
                    t.atan2(s.ball.p.x - s.opponent.p.x, s.ball.p.z - s.opponent.p.z),
                ),
            ) <= 1024;
            &&& s.ai_target == AiTarget::Unset ==> ai::retired(t, s)
            &&& s.ai_target == AiTarget::Ball ==> (ai::retired(t, s) <==> ai::wrong_side(s))
            &&& s.ai_target != AiTarget::Ball && shot ==> ai::retired(t, s)
            &&& s.ai_target is Boost ==> (ai::retired(t, s) <==> shot || late || s.opponent.boost
                >= 2560 || s.pad_timers@[s.ai_target->Boost_0 as int] > 0 || ai::target_gap(s) < 53)
            &&& s.ai_target is Position ==> (ai::retired(t, s) <==> shot || late || ai::target_gap(s)
                < 106)
        }),
{
    let want = t.atan2(s.ball.p.x - s.opponent.p.x, s.ball.p.z - s.opponent.p.z);
    lemma_error_is_bend(want, s.opponent.yaw);
}

} // verus!
