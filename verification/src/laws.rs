//! What holds of the match as a whole.

use vstd::prelude::*;
use crate::air;
use crate::ball::Ball;
use crate::car;
use crate::car::{Car, Input};
use crate::contact;
use crate::drive;
use crate::drive::Entry;
use crate::flight;
use crate::flight::Team;
use crate::num;
use crate::play;
use crate::sim;
use crate::sim::Sim;
use crate::step;
use crate::tick;
use crate::trig::Angles;
use crate::tuning::{BOOST_DRAIN, BOOST_MAX, CAR_JUMP_V, GOAL_FREEZE_TICKS, JUMP_BONUS_DEN};
use crate::tuning::{AIR_SPIN_MAX, JUMP_BONUS_NUM, JUMP_SLICES_MAX, SUSPENSION_DROOP, SUSPENSION_JOUNCE};
use crate::vec3;

verus! {

// ---- the match clock and its end ---------------------------------------

/// Every stage of a live tick but the first leaves the clock and the end
/// condition alone.
proof fn lemma_played_keeps(t: Angles, s: Sim, input: Input, p2: Option<Input>)
    ensures
        tick::played(t, s, input, p2).clock == tick::clocked(tick::hushed(s)).clock,
        tick::played(t, s, input, p2).win_condition == s.win_condition,
        tick::played(t, s, input, p2).opponent_ai == s.opponent_ai,
{
    reveal(tick::cars_turned);
    reveal(play::ball_ticked);
    reveal(tick::ball_touched);
    reveal(play::cars_met);
    let driven = tick::driven_on(t, s, input, p2);
    lemma_padded_keeps(driven, 34);
}

/// The opponent's plan is the same in both.
pub open spec fn same_plan(a: Sim, b: Sim) -> bool {
    &&& b.ai_target == a.ai_target
    &&& b.ai_target_ticks == a.ai_target_ticks
    &&& b.ai_rng == a.ai_rng
    &&& b.ai_escape == a.ai_escape
}

/// The pads leave the clock, the end condition, the score, the freeze and the
/// opponent's plan alone.
proof fn lemma_padded_keeps(s: Sim, n: nat)
    ensures
        play::padded(s, n).clock == s.clock,
        play::padded(s, n).win_condition == s.win_condition,
        play::padded(s, n).opponent_ai == s.opponent_ai,
        play::padded(s, n).score_blue == s.score_blue,
        play::padded(s, n).score_orange == s.score_orange,
        play::padded(s, n).goal_freeze == s.goal_freeze,
        play::padded(s, n).ball == s.ball,
        play::padded(s, n).gravity_phase == s.gravity_phase,
        play::padded(s, n).last_scorer == s.last_scorer,
        same_plan(s, play::padded(s, n)),
    decreases n,
{
    if n > 0 {
        lemma_padded_keeps(s, (n - 1) as nat);
    }
}

/// A timed match's clock loses exactly one tick per tick of live play, and
/// stops for a goal celebration; it never runs below zero.
pub proof fn law_timed_clock(t: Angles, s: Sim, input: Input, p2: Option<Input>)
    requires
        s.win_condition is TimeLimit,
    ensures
        tick::advanced(t, s, input, p2).clock == if s.goal_freeze > 0 || s.clock == 0 {
            s.clock as int
        } else {
            s.clock - 1
        },
{
    if s.goal_freeze > 0 {
        reveal(tick::cars_turned);
    } else {
        lemma_played_keeps(t, s, input, p2);
    }
}

/// A goal-limit match has no hidden clock: no tick ever touches it.
pub proof fn law_goal_limit_has_no_clock(t: Angles, s: Sim, input: Input, p2: Option<Input>)
    requires
        s.win_condition is GoalLimit,
    ensures
        tick::advanced(t, s, input, p2).clock == s.clock,
        sim::fresh(s.win_condition).clock == 0,
{
    if s.goal_freeze > 0 {
        reveal(tick::cars_turned);
    } else {
        lemma_played_keeps(t, s, input, p2);
    }
}

/// The end condition is fixed for the whole match.
pub proof fn law_end_condition_is_fixed(t: Angles, s: Sim, input: Input, p2: Option<Input>)
    ensures
        tick::advanced(t, s, input, p2).win_condition == s.win_condition,
{
    if s.goal_freeze > 0 {
        reveal(tick::cars_turned);
    } else {
        lemma_played_keeps(t, s, input, p2);
    }
}

/// The two end conditions are exclusive: a score never ends a timed match, and
/// a clock never ends a goal-limit match.
pub proof fn law_end_conditions_are_exclusive(s: Sim)
    ensures
        s.win_condition is TimeLimit ==> (s.is_finished() <==> s.clock == 0) && !s.limit_reached(),
        s.win_condition is GoalLimit ==> (s.is_finished() <==> s.goal_freeze == 0
            && s.limit_reached()),
{
}

/// Once a timed match is over it stays over.
pub proof fn law_time_stays_up(t: Angles, s: Sim, input: Input, p2: Option<Input>)
    requires
        s.win_condition is TimeLimit,
        s.is_finished(),
    ensures
        tick::advanced(t, s, input, p2).is_finished(),
{
    law_timed_clock(t, s, input, p2);
    law_end_condition_is_fixed(t, s, input, p2);
}

// ---- goals and celebrations --------------------------------------------

/// Scores never go down, and a tick counts at most one goal, for one side. A
/// goal counted starts a celebration and names its scorer; nothing else does.
pub proof fn law_goals_are_counted_once(t: Angles, s: Sim, input: Input, p2: Option<Input>)
    requires
        s.score_blue < u16::MAX,
        s.score_orange < u16::MAX,
    ensures
        ({
            let n = tick::advanced(t, s, input, p2);
            let blue = n.score_blue - s.score_blue;
            let orange = n.score_orange - s.score_orange;
            &&& 0 <= blue && 0 <= orange && blue + orange <= 1
            &&& s.goal_freeze > 0 ==> blue + orange == 0 && n.goal_freeze == s.goal_freeze - 1
            &&& s.goal_freeze == 0 ==> n.goal_freeze == if blue + orange == 1 {
                GOAL_FREEZE_TICKS as int
            } else {
                0
            }
            &&& blue == 1 ==> n.last_scorer == Team::Blue
            &&& orange == 1 ==> n.last_scorer == Team::Orange
            &&& blue + orange == 0 ==> n.last_scorer == s.last_scorer
        }),
{
    reveal(tick::cars_turned);
    if s.goal_freeze == 0 {
        reveal(play::ball_ticked);
        reveal(tick::ball_touched);
        reveal(play::cars_met);
        lemma_padded_keeps(tick::driven_on(t, s, input, p2), 34);
    }
}

/// The events a tick announces describe that tick only: none outlives into a
/// goal celebration.
pub proof fn law_events_clear_in_a_celebration(t: Angles, s: Sim, input: Input, p2: Option<Input>)
    requires
        s.goal_freeze > 0,
    ensures
        tick::advanced(t, s, input, p2).hit == 0,
        !tick::advanced(t, s, input, p2).pad_taken,
        !tick::advanced(t, s, input, p2).demo,
{
    reveal(tick::cars_turned);
}

/// An ordinary celebration ends in a kickoff: the ball on its spot and both
/// cars lined up, with the score and the clock kept.
pub proof fn law_celebration_ends_in_a_kickoff(t: Angles, s: Sim, input: Input, p2: Option<Input>)
    requires
        s.goal_freeze == 1,
        !s.limit_reached(),
    ensures
        ({
            let n = tick::advanced(t, s, input, p2);
            &&& n.ball == sim::spotted(s.ball)
            &&& n.car == sim::lined_up(s.car, Team::Blue)
            &&& n.opponent == sim::lined_up(s.opponent, Team::Orange)
            &&& n.goal_freeze == 0
            &&& n.score_blue == s.score_blue
            &&& n.score_orange == s.score_orange
            &&& n.clock == s.clock
        }),
{
}

/// The winning goal's celebration ends the match where it stands: no kickoff
/// replaces it.
pub proof fn law_winning_goal_keeps_its_backdrop(t: Angles, s: Sim, input: Input, p2: Option<Input>)
    requires
        s.goal_freeze == 1,
        s.limit_reached(),
    ensures
        tick::advanced(t, s, input, p2).is_finished(),
        tick::advanced(t, s, input, p2).ball == s.ball,
        tick::advanced(t, s, input, p2).car == s.car,
        tick::advanced(t, s, input, p2).opponent == s.opponent,
{
}

/// A kickoff leaves nothing of what a car was in the middle of doing, and puts
/// the two cars at mirrored places.
pub proof fn law_kickoff_is_a_clean_mirror(s: Sim)
    ensures
        ({
            let k = sim::kicked_off(s);
            &&& k.car.p.x == -k.opponent.p.x && k.car.p.y == k.opponent.p.y && k.car.p.z
                == -k.opponent.p.z
            &&& k.car.v == vec3::zero3() && k.opponent.v == vec3::zero3()
            &&& k.car.boost == k.opponent.boost
            &&& !k.car.is_wrecked() && !k.opponent.is_wrecked()
            &&& !k.car.boosting && !k.car.jump_holding && k.car.dodge_timer == 0
            &&& !k.opponent.boosting && !k.opponent.jump_holding && k.opponent.dodge_timer == 0
            &&& k.score_blue == s.score_blue && k.score_orange == s.score_orange && k.clock
                == s.clock
            &&& k.pad_timers == s.pad_timers && k.gravity_phase == s.gravity_phase
        }),
{
}

// ---- wrecks ------------------------------------------------------------

/// The pads leave a wrecked car alone.
proof fn lemma_pads_leave_a_wreck(s: Sim, n: nat)
    ensures
        s.car.is_wrecked() ==> play::padded(s, n).car == s.car,
        s.opponent.is_wrecked() ==> play::padded(s, n).opponent == s.opponent,
        play::padded(s, n).car.is_wrecked() == s.car.is_wrecked(),
        play::padded(s, n).opponent.is_wrecked() == s.opponent.is_wrecked(),
    decreases n,
{
    if n > 0 {
        lemma_pads_leave_a_wreck(s, (n - 1) as nat);
    }
}

/// A car one tick further into its wait.
pub open spec fn waited(c: Car) -> Car {
    Car { demo_timer: (c.demo_timer - 1) as u16, ..c }
}

/// A wrecked car, either team's, is out of play: a tick takes one off its wait
/// and changes nothing else about it, whatever anybody does, in live play and
/// through a celebration alike. Only the kickoff that ends a celebration brings
/// it back early.
pub proof fn law_a_wreck_is_out_of_play(t: Angles, s: Sim, input: Input, p2: Option<Input>)
    requires
        s.goal_freeze != 1,
    ensures
        s.car.demo_timer > 1 ==> tick::advanced(t, s, input, p2).car == waited(s.car),
        s.opponent.demo_timer > 1 ==> tick::advanced(t, s, input, p2).opponent == waited(s.opponent),
{
    reveal(tick::cars_turned);
    if s.goal_freeze == 0 {
        reveal(play::ball_ticked);
        reveal(tick::ball_touched);
        reveal(play::cars_met);
        let driven = tick::driven_on(t, s, input, p2);
        lemma_pads_leave_a_wreck(driven, 34);
    }
}

// ---- two players -------------------------------------------------------

/// With a second pad in, the opponent never thinks: its plan is left exactly as
/// it was, whether or not it drives itself.
pub proof fn law_a_second_pad_replaces_the_opponent(t: Angles, s: Sim, input: Input, p2: Input)
    ensures
        same_plan(s, tick::advanced(t, s, input, Some(p2))),
{
    reveal(tick::cars_turned);
    if s.goal_freeze == 0 {
        reveal(play::ball_ticked);
        reveal(tick::ball_touched);
        reveal(play::cars_met);
        lemma_padded_keeps(tick::driven_on(t, s, input, Some(p2)), 34);
    }
}

/// A second pad that nobody touches is a parked opponent.
pub proof fn law_an_idle_second_pad_parks_the_opponent(t: Angles, s: Sim, input: Input)
    requires
        !s.opponent_ai,
    ensures
        tick::advanced(t, s, input, Some(car::no_input())) == tick::advanced(t, s, input, None),
{
}

// ---- wheels and rates --------------------------------------------------

/// A car's springs never leave their travel, and what drives them stays small.
pub proof fn law_the_springs_stay_in_their_travel(t: Angles, c: Car, input: Input, gravity: int)
    ensures
        ({
            let r = step::car_ticked(t, c, input, gravity);
            &&& SUSPENSION_DROOP <= r.suspension@[0] <= SUSPENSION_JOUNCE
            &&& SUSPENSION_DROOP <= r.suspension@[1] <= SUSPENSION_JOUNCE
            &&& -2048 <= r.suspension_velocity@[0] <= 2048
            &&& -2048 <= r.suspension_velocity@[1] <= 2048
        }),
{
    let e = drive::entry_of(t, c);
    let m = step::moved(step::powered(t, c, input), gravity);
    let after = vec3::dot(m.v, e.fwd);
    let shift = step::weight_transfer(after, e.along as int);
    let (front, rear) = if m.grounded {
        (-shift, shift)
    } else {
        (SUSPENSION_DROOP as int, SUSPENSION_DROOP as int)
    };
    let (p, v) = (m.suspension@, m.suspension_velocity@);
    car::lemma_axles_hold(
        step::spring_position(p[0] as int, v[0] as int, front),
        step::spring_position(p[1] as int, v[1] as int, rear),
    );
    car::lemma_axles_hold(
        num::clamp(step::spring_velocity(p[0] as int, v[0] as int, front), -2048, 2048),
        num::clamp(step::spring_velocity(p[1] as int, v[1] as int, rear), -2048, 2048),
    );
}

/// A car turns in the air no faster than its ceiling on any axis.
pub proof fn law_air_rates_are_capped(c: Car, input: Input)
    ensures
        -AIR_SPIN_MAX <= air::rates_stepped(c, input).w_pitch <= AIR_SPIN_MAX,
        -AIR_SPIN_MAX <= air::rates_stepped(c, input).w_roll <= AIR_SPIN_MAX,
        -AIR_SPIN_MAX <= air::rates_stepped(c, input).w_yaw <= AIR_SPIN_MAX,
{
}

/// The air rates stay under their ceiling from tick to tick.
pub proof fn law_air_rates_stay_capped(t: Angles, c: Car, input: Input, gravity: int)
    requires
        -AIR_SPIN_MAX <= c.w_pitch <= AIR_SPIN_MAX,
        -AIR_SPIN_MAX <= c.w_roll <= AIR_SPIN_MAX,
        -AIR_SPIN_MAX <= c.w_yaw <= AIR_SPIN_MAX,
    ensures
        ({
            let r = step::car_ticked(t, c, input, gravity);
            &&& -AIR_SPIN_MAX <= r.w_pitch <= AIR_SPIN_MAX
            &&& -AIR_SPIN_MAX <= r.w_roll <= AIR_SPIN_MAX
            &&& -AIR_SPIN_MAX <= r.w_yaw <= AIR_SPIN_MAX
        }),
{
    reveal(drive::steered);
    reveal(drive::boosted);
    reveal(drive::driven);
    reveal(drive::limited);
    reveal(air::flown_by_stick);
    reveal(air::jumped_again);
    reveal(air::held);
    let e = drive::entry_of(t, c);
    let lit = drive::boosted(drive::steered(c, input, e), input, e);
    law_air_rates_are_capped(lit, input);
}

/// A wreck's turn on the last tick of its wait is to come back as it first
/// arrived on the pitch.
pub proof fn law_a_wreck_comes_back(t: Angles, c: Car, team: Team, input: Input, gravity: int)
    requires
        c.demo_timer == 1,
    ensures
        tick::car_turn(t, c, team, input, gravity) == sim::spawned_car(team),
        !sim::spawned_car(team).is_wrecked(),
        sim::spawned_car(team).boost == BOOST_MAX / 3,
{
}

/// Only a supersonic attacker wrecks; any other contact is a shove, which the
/// victim survives.
pub proof fn law_only_supersonic_wrecks(t: Angles, attacker: Car, victim: Car)
    ensures
        contact::rammed(t, attacker, victim) matches Some(hit) ==> hit.0 == attacker.supersonic,
{
}

// ---- boost -------------------------------------------------------------

/// A car's own tick never adds boost: it burns one tick's worth, and only while
/// there is a whole tick's worth in the tank, or nothing.
pub proof fn law_boost_only_drains(c: Car, input: Input, e: Entry)
    ensures
        drive::burning(c, input) ==> drive::boosted(c, input, e).boost == c.boost - BOOST_DRAIN,
        !drive::burning(c, input) ==> drive::boosted(c, input, e).boost == c.boost,
        c.boost < BOOST_DRAIN ==> !drive::boosted(c, input, e).boosting,
{
    reveal(drive::boosted);
}

/// A tapped boost burns on after the button is let go, for as long as its
/// minimum is owed and the tank holds.
pub proof fn law_a_tap_burns_its_minimum(c: Car, input: Input, e: Entry)
    requires
        c.boost_ticks > 0,
        c.boost >= BOOST_DRAIN,
    ensures
        drive::boosted(c, input, e).boosting,
        drive::boosted(c, input, e).boost_ticks == c.boost_ticks - 1,
{
    reveal(drive::boosted);
}

// ---- the held jump -----------------------------------------------------

/// Velocity the held phase adds over `n` slices, from a remainder of `rem`.
pub open spec fn held_bonus(rem: int, n: nat) -> int
    decreases n,
{
    if n == 0 {
        0
    } else {
        num::tdiv(rem + JUMP_BONUS_NUM, JUMP_BONUS_DEN as int) + held_bonus(
            num::trem(rem + JUMP_BONUS_NUM, JUMP_BONUS_DEN as int),
            (n - 1) as nat,
        )
    }
}

proof fn lemma_held_bonus(rem: int, n: nat)
    requires
        0 <= rem < JUMP_BONUS_DEN,
    ensures
        0 <= rem + JUMP_BONUS_NUM * n - JUMP_BONUS_DEN * held_bonus(rem, n) < JUMP_BONUS_DEN,
    decreases n,
{
    if n > 0 {
        lemma_held_bonus(num::trem(rem + JUMP_BONUS_NUM, JUMP_BONUS_DEN as int), (n - 1) as nat);
    }
}

/// A fully held jump adds exactly the immediate impulse again.
pub proof fn law_held_bonus_totals_the_impulse()
    ensures
        held_bonus(0, JUMP_SLICES_MAX as nat) == CAR_JUMP_V,
{
    lemma_held_bonus(0, 24);
}

/// The held phase never runs more than its budget of slices.
pub proof fn law_held_phase_has_a_budget(c: Car, button: bool)
    requires
        c.jump_slices <= JUMP_SLICES_MAX,
    ensures
        air::held(c, button).jump_slices <= JUMP_SLICES_MAX,
        air::held(c, button).jump_slices >= c.jump_slices,
        air::held(c, button).jump_slices == JUMP_SLICES_MAX && c.jump_holding ==> !air::held(
            c,
            button,
        ).jump_holding,
{
    reveal(air::held);
}

// ---- speed -------------------------------------------------------------

/// A boosting car's whole velocity is brought under the boost ceiling, not only
/// the part of it lying in the driving surface.
pub proof fn law_speed_cap_counts_everything(c: Car, e: Entry)
    requires
        c.v.within(46340),
    ensures
        c.boosting ==> drive::limited(c, e).v.within(2453),
        !c.boosting && e.speed <= 1504 ==> drive::limited(c, e).v.within(1504),
{
    reveal(drive::limited);
    vec3::lemma_capped(c.v, 2453, 46340);
    vec3::lemma_capped(c.v, 1504, 46340);
}

/// The ball leaves the open air no faster than its ceiling on any axis.
pub proof fn law_ball_speed_is_capped(b: Ball, gravity: int)
    requires
        b.v.within(40_000),
        0 <= gravity <= 1000,
    ensures
        flight::drifted(b, gravity).v.within(6400),
{
    reveal(vec3::damped12);
    let v = vec3::v3(b.v.x as int, b.v.y - gravity, b.v.z as int);
    let dragged = vec3::v3(
        vec3::damped12(v.x as int, 4094),
        v.y as int,
        vec3::damped12(v.z as int, 4094),
    );
    assert(dragged.within(41_000));
    vec3::lemma_capped(dragged, 6400, 41_000);
}

} // verus!
