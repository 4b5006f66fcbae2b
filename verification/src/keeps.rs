//! What a tick keeps of a match in play, and what it does not.

use vstd::prelude::*;
use crate::ai;
use crate::air;
use crate::arena;
use crate::ball::Ball;
use crate::bounds;
use crate::car;
use crate::car::{Car, Input};
use crate::drive;
use crate::drive::Entry;
use crate::flight;
use crate::flight::Team;
use crate::inplay;
use crate::num;
use crate::place;
use crate::play;
use crate::ramp;
use crate::sim::Sim;
use crate::spin;
use crate::steady;
use crate::step;
use crate::tick;
use crate::trig::Angles;
use crate::tuning::{AIR_SPIN_MAX, GRAVITY_DEN, JUMP_SLICES_MAX};
use crate::upright;
use crate::vec3;
use crate::vec3::V3;

verus! {

/// A car's counters are in their ranges: its tank, its slide, its held jump, its
/// air rates, and remainders of less than a whole.
pub open spec fn counters_hold(c: Car) -> bool {
    &&& c.valid()
    &&& c.jump_slices <= JUMP_SLICES_MAX
    &&& -AIR_SPIN_MAX <= c.w_pitch <= AIR_SPIN_MAX
    &&& -AIR_SPIN_MAX <= c.w_roll <= AIR_SPIN_MAX
    &&& -AIR_SPIN_MAX <= c.w_yaw <= AIR_SPIN_MAX
    &&& -27 < c.jump_bonus_rem < 27
    &&& -9 < c.jump_sticky_rem < 9
}

proof fn lemma_lit(c: Car, input: Input, e: Entry)
    requires
        counters_hold(c),
    ensures
        ({
            let r = drive::boosted(drive::steered(c, input, e), input, e);
            counters_hold(r) && r.slide == drive::slide_next(c.slide as int, input.handbrake)
        }),
{
    reveal(drive::steered);
    reveal(drive::boosted);
}

proof fn lemma_driven(c: Car, input: Input, e: Entry)
    requires
        counters_hold(c),
    ensures
        counters_hold(drive::driven(c, input, e)),
        drive::driven(c, input, e).slide == c.slide,
{
    reveal(drive::driven);
}

proof fn lemma_flown(t: Angles, c: Car, input: Input, e: Entry)
    requires
        counters_hold(c),
    ensures
        counters_hold(air::flown_by_stick(t, c, input, e)),
        air::flown_by_stick(t, c, input, e).slide == c.slide,
{
    reveal(air::flown_by_stick);
}

proof fn lemma_sliced(c: Car, button: bool)
    requires
        counters_hold(c),
    ensures
        counters_hold(air::sliced(c, button)),
        air::sliced(c, button).slide == c.slide,
{
}

proof fn lemma_powered(t: Angles, c: Car, input: Input)
    requires
        counters_hold(c),
    ensures
        counters_hold(step::powered(t, c, input)),
        step::powered(t, c, input).slide == drive::slide_next(c.slide as int, input.handbrake),
{
    let e = drive::entry_of(t, c);
    lemma_lit(c, input, e);
    let lit = drive::boosted(drive::steered(c, input, e), input, e);
    let pushed = if lit.grounded {
        drive::driven(lit, input, e)
    } else {
        let flown = air::flown_by_stick(t, lit, input, e);
        if air::second_jump(flown, input) {
            air::jumped_again(t, flown, input)
        } else {
            flown
        }
    };
    if lit.grounded {
        lemma_driven(lit, input, e);
    } else {
        lemma_flown(t, lit, input, e);
        reveal(air::jumped_again);
    }
    assert(counters_hold(pushed) && pushed.slide == lit.slide);
    reveal(drive::limited);
    let slow = drive::limited(pushed, e);
    assert(counters_hold(slow));
    lemma_sliced(slow, input.jump_held);
    lemma_sliced(air::sliced(slow, input.jump_held), input.jump_held);
    reveal(air::held);
}

/// A car's tick keeps its counters in their ranges, whatever it is asked to do,
/// and its slide builds by a step under the handbrake and falls by one without.
pub proof fn law_a_tick_keeps_the_counters(t: Angles, c: Car, input: Input, gravity: int)
    requires
        counters_hold(c),
    ensures
        counters_hold(step::car_ticked(t, c, input, gravity)),
        step::car_ticked(t, c, input, gravity).slide == drive::slide_next(
            c.slide as int,
            input.handbrake,
        ),
{
    lemma_powered(t, c, input);
    let near = step::coasted(t, c, input, gravity);
    assert(counters_hold(near) && near.slide == step::powered(t, c, input).slide);
}

// ---- the opponent's plan ------------------------------------------------

/// There is a nearest pad, or none is up.
proof fn lemma_nearest_exists(timers: Seq<u16>, cx: int, cz: int, n: nat) -> (best: Option<u8>)
    requires
        n <= 34,
    ensures
        ai::nearest_up(timers, cx, cz, n as int, best),
    decreases n,
{
    if n == 0 {
        None
    } else {
        let i = n - 1;
        let was = lemma_nearest_exists(timers, cx, cz, i as nat);
        if !ai::pad_up(timers, i) {
            was
        } else {
            match was {
                None => Some(i as u8),
                Some(b) => if ai::pad_gap(i, cx, cz) < ai::pad_gap(b as int, cx, cz) {
                    assert(ai::pad_up(timers, b as int));
                    Some(i as u8)
                } else {
                    was
                },
            }
        }
    }
}

/// Whatever the opponent plans, its target is somewhere.
proof fn lemma_target(t: Angles, s: Sim)
    requires
        ai::target_exists(s.ai_target),
    ensures
        ai::target_exists(ai::ai_stepped(t, s).ai_target),
{
    let (cx, cz) = ((s.opponent.p.x as int) / 64, (s.opponent.p.z as int) / 64);
    let best = lemma_nearest_exists(s.pad_timers@, cx, cz, 34);
    assert(ai::nearest_up(s.pad_timers@, cx, cz, 34, best));
}

// ---- which way up a car is ------------------------------------------------

proof fn lemma_powered_attitude(t: Angles, c: Car, input: Input)
    requires
        inplay::smooth(t),
        inplay::car_in_play(c),
    ensures
        upright::upright(step::powered(t, c, input).up),
{
    let e = drive::entry_of(t, c);
    inplay::lemma_entry(t, c);
    lemma_lit(c, input, e);
    inplay::lemma_lit(c, input, e, 11_000);
    let lit = drive::boosted(drive::steered(c, input, e), input, e);
    lemma_world_up();
    reveal(drive::driven);
    reveal(drive::limited);
    reveal(air::held);
    if !lit.grounded {
        reveal(air::flown_by_stick);
        reveal(air::jumped_again);
        let rated = air::rates_stepped(lit, input);
        upright::lemma_tumbled(t, rated, e);
    }
}

proof fn lemma_world_up()
    ensures
        upright::upright(drive::world_up()),
{
    reveal(V3::square);
    assert(0int * 0int == 0 && 4096int * 4096int == 16_777_216);
}

/// A car's up stays a unit vector but for rounding, on any surface and however it
/// tumbles.
pub proof fn law_a_tick_keeps_the_attitude(t: Angles, c: Car, input: Input, gravity: int)
    requires
        inplay::smooth(t),
        inplay::car_in_play(c),
        !c.is_wrecked(),
        0 <= gravity <= 1000,
    ensures
        upright::upright(step::car_ticked(t, c, input, gravity).up),
{
    lemma_powered_attitude(t, c, input);
    lemma_world_up();
    let near = step::coasted(t, c, input, gravity);
    assert(upright::upright(near.up));
    inplay::lemma_powered(t, c, input);
    inplay::lemma_coasted_place(t, c, input, gravity);
    lemma_met_upright(near);
}

/// What a car near the pitch meets, it can stand on.
proof fn lemma_met_upright(c: Car)
    requires
        c.p.within(413_000),
        step::CAR_FLOOR <= c.p.y <= step::CAR_CEILING,
    ensures
        step::surface_met(c) matches Some(n) ==> upright::upright(n),
{
    let open = step::in_mouth(c.p);
    let (x, z) = (c.p.x as int, c.p.z as int);
    let wall = arena::wall_near(x, z, open);
    if wall.distance < ramp::RAMP {
        steady::lemma_wall_faces(x, z, open);
        assert(vec3::is_axis(wall.inward) || num::abs(wall.inward.x as int) == 2896 && num::abs(
            wall.inward.z as int,
        ) == 2896) by {
            reveal(arena::wall_near);
        }
        steady::lemma_axis(wall.inward);
        if c.p.y < ramp::RAMP {
            let (h, v) = (ramp::lean(wall.distance as int), ramp::lean(c.p.y as int));
            if ramp::lean_length(h, v) >= ramp::CAR_ARC - ramp::NEAR {
                steady::lemma_arc_normal(wall.inward, h, v, ramp::CAR_ARC as int);
            }
        }
    }
    let f = step::car_confined(c);
    if f.normal != vec3::zero3() {
        assert(vec3::is_axis(f.normal) || num::abs(f.normal.x as int) == 2896 && num::abs(
            f.normal.z as int,
        ) == 2896);
        steady::lemma_axis(f.normal);
    }
}

// ---- where everything is ------------------------------------------------

/// What every stage of a tick keeps of a car: its counters, its attitude, and its
/// place, inside the arena unless it is a wreck.
pub open spec fn car_holds(c: Car) -> bool {
    &&& counters_hold(c)
    &&& c.p.within(524_288)
    &&& !c.is_wrecked() ==> c.p.within(384_000)
    &&& upright::upright(c.up)
    &&& c.jump_normal.within(4096)
}

proof fn lemma_turned(t: Angles, c: Car, team: Team, input: Input, gravity: int)
    requires
        inplay::smooth(t),
        inplay::car_in_play(c),
        0 <= gravity <= 1000,
    ensures
        car_holds(tick::car_turn(t, c, team, input, gravity)),
{
    lemma_world_up();
    if !c.is_wrecked() {
        law_a_tick_keeps_the_counters(t, c, input, gravity);
        inplay::lemma_ticked(t, c, input, gravity);
        law_a_tick_keeps_the_attitude(t, c, input, gravity);
        place::law_car_stays_in_the_arena(t, c, input, gravity);
    }
}

proof fn lemma_padded(s: Sim, n: nat)
    requires
        car_holds(s.car),
        car_holds(s.opponent),
    ensures
        car_holds(play::padded(s, n).car),
        car_holds(play::padded(s, n).opponent),
{
    inplay::lemma_padded(s, n);
    play::law_pads_only_refuel(s, n);
}

proof fn lemma_blasted(c: Car, blast: V3)
    requires
        car_holds(c),
    ensures
        car_holds(play::blasted(c, blast)),
{
}

proof fn lemma_touched(t: Angles, b: Ball, c: Car)
    requires
        car_holds(c),
    ensures
        car_holds(tick::touch_by(t, b, c).1),
        tick::touch_by(t, b, c).1.p == c.p,
{
}

proof fn lemma_met(t: Angles, s: Sim)
    requires
        car_holds(s.car),
        car_holds(s.opponent),
    ensures
        ({
            let r = play::cars_met(t, s);
            &&& counters_hold(r.car) && r.car.p.within(524_288)
            &&& !r.car.is_wrecked() ==> r.car.p.within(390_000)
            &&& upright::upright(r.car.up) && r.car.jump_normal.within(4096)
            &&& counters_hold(r.opponent) && r.opponent.p.within(524_288)
            &&& !r.opponent.is_wrecked() ==> r.opponent.p.within(390_000)
            &&& upright::upright(r.opponent.up) && r.opponent.jump_normal.within(4096)
            &&& r.ball == s.ball
            &&& r == (Sim { car: r.car, opponent: r.opponent, demo: r.demo, ..s })
        }),
{
    place::lemma_met(t, s);
    reveal(play::cars_met);
}

proof fn lemma_driven_on(t: Angles, s: Sim, input: Input, p2: Option<Input>)
    requires
        inplay::smooth(t),
        inplay::in_play(s),
    ensures
        ({
            let r = tick::driven_on(t, s, input, p2);
            &&& car_holds(r.car)
            &&& car_holds(r.opponent)
            &&& r.ball == s.ball
            &&& 0 <= r.gravity_phase < GRAVITY_DEN
            &&& ai::target_exists(r.ai_target)
            &&& r.goal_freeze == s.goal_freeze
            &&& r.win_condition == s.win_condition
            &&& r.score_blue == s.score_blue
            &&& r.score_orange == s.score_orange
        }),
{
    reveal(tick::cars_turned);
    let quiet = tick::clocked(tick::hushed(s));
    lemma_target(t, quiet);
    let orange = tick::rival(t, quiet, p2).0;
    let gravity = tick::gravity_now(s);
    lemma_turned(t, s.car, Team::Blue, input, gravity);
    lemma_turned(t, s.opponent, Team::Orange, orange, gravity);
}

/// Where the ball is once it has flown: past a line only if it scored.
proof fn lemma_ball_place(s: Sim)
    requires
        inplay::in_play(s),
        inplay::live(s),
    ensures
        ({
            let gravity = tick::gravity_now(s);
            let p = flight::flown(s.ball, gravity).p;
            &&& p.within(393_000)
            &&& flight::goal_by(s.ball, gravity) is None ==> p.within(333_504)
        }),
{
    let gravity = tick::gravity_now(s);
    steady::lemma_reach_of_flight(s.ball, gravity);
    place::law_ball_stays_in_the_arena(s.ball, gravity);
}

proof fn lemma_ball_flown(t: Angles, s: Sim, input: Input, p2: Option<Input>)
    requires
        inplay::smooth(t),
        inplay::in_play(s),
        s.goal_freeze == 0,
        s.score_blue + 1 < u16::MAX,
        s.score_orange + 1 < u16::MAX,
    ensures
        ({
            let r = tick::ball_flown(t, s, input, p2);
            &&& car_holds(r.car)
            &&& car_holds(r.opponent)
            &&& 0 <= r.gravity_phase < GRAVITY_DEN
            &&& ai::target_exists(r.ai_target)
            &&& s.score_blue <= r.score_blue < u16::MAX
            &&& s.score_orange <= r.score_orange < u16::MAX
            &&& r.win_condition == s.win_condition
            &&& inplay::live(s) ==> r.ball.p.within(393_000)
            &&& inplay::live(s) && r.goal_freeze == 0 ==> r.ball.p.within(333_504)
        }),
{
    lemma_driven_on(t, s, input, p2);
    let driven = tick::driven_on(t, s, input, p2);
    lemma_padded(driven, 34);
    inplay::lemma_padded(driven, 34);
    lemma_padded_rest(driven, 34);
    let fed = play::padded(driven, 34);
    let gravity = tick::gravity_now(s);
    if inplay::live(s) {
        lemma_ball_place(s);
    }
    reveal(play::ball_ticked);
    let ball = flight::flown(s.ball, gravity);
    lemma_blasted(fed.car, play::blast_point(ball));
    lemma_blasted(fed.opponent, play::blast_point(ball));
}

/// The pads change nothing but tanks and timers.
proof fn lemma_padded_rest(s: Sim, n: nat)
    ensures
        ({
            let r = play::padded(s, n);
            &&& r.gravity_phase == s.gravity_phase
            &&& r.ai_target == s.ai_target
            &&& r.goal_freeze == s.goal_freeze
            &&& r.win_condition == s.win_condition
            &&& r.score_blue == s.score_blue
            &&& r.score_orange == s.score_orange
        }),
    decreases n,
{
    if n > 0 {
        lemma_padded_rest(s, (n - 1) as nat);
    }
}

/// A touch moves the ball no further than twice its radius.
proof fn lemma_touch_moves(t: Angles, b: Ball, c: Car, m: int)
    requires
        inplay::smooth(t),
        car_holds(c),
        c.v.within(0x10_0000),
        b.p.within(m),
        0 <= m <= 0x100_0000,
    ensures
        tick::touch_by(t, b, c).0.p.within(m + 11_648),
{
    inplay::lemma_touch_place(t, b, c);
}

proof fn lemma_played(t: Angles, s: Sim, input: Input, p2: Option<Input>)
    requires
        inplay::smooth(t),
        inplay::in_play(s),
        s.goal_freeze == 0,
        s.score_blue + 1 < u16::MAX,
        s.score_orange + 1 < u16::MAX,
    ensures
        ({
            let a = tick::played(t, s, input, p2);
            inplay::in_play(a) <==> at_pace(a) && (inplay::live(s) || a.ball.p.within(480_000))
        }),
{
    let flown = tick::ball_flown(t, s, input, p2);
    lemma_ball_flown(t, s, input, p2);
    inplay::law_a_match_in_play_can_be_stepped(t, s, input, p2);
    assert(tick::cars_in_range(flown));
    let m: int = if flown.goal_freeze == 0 {
        333_504
    } else {
        393_000
    };
    reveal(tick::ball_touched);
    let (first, car, _) = tick::touch_by(t, flown.ball, flown.car);
    lemma_touched(t, flown.ball, flown.car);
    lemma_touched(t, first, flown.opponent);
    if inplay::live(s) {
        lemma_touch_moves(t, flown.ball, flown.car, m);
        lemma_touch_moves(t, first, flown.opponent, m + 11_648);
    }
    let touched = tick::ball_touched(t, flown);
    lemma_met(t, touched);
}

/// A match going at the speeds of play: its cars and its ball no faster, and its
/// ball spinning no faster, than a match in play allows.
pub open spec fn at_pace(s: Sim) -> bool {
    &&& s.car.v.within(inplay::CAR_PACE as int)
    &&& s.opponent.v.within(inplay::CAR_PACE as int)
    &&& s.ball.v.within(inplay::BALL_PACE as int)
    &&& s.ball.w.length() <= 6554
}

proof fn lemma_celebrated(t: Angles, s: Sim)
    requires
        inplay::smooth(t),
        inplay::in_play(s),
        s.goal_freeze > 0,
    ensures
        inplay::in_play(tick::celebrated(t, tick::hushed(s))) <==> at_pace(
            tick::celebrated(t, tick::hushed(s)),
        ),
{
    let gravity = tick::gravity_now(s);
    reveal(tick::cars_turned);
    lemma_turned(t, s.car, Team::Blue, car::no_input(), gravity);
    lemma_turned(t, s.opponent, Team::Orange, car::no_input(), gravity);
    if s.goal_freeze == 1 && !s.limit_reached() {
        lemma_world_up();
        reveal(V3::square);
        assert(0int * 0int == 0);
    }
}

/// From any state in play, whatever the drivers do, a tick leaves everything
/// where play has it: the cars inside the arena, the ball on the pitch unless it
/// has just gone in, every counter in its range. What it may leave is the pace of
/// play, and it stays in play exactly where it does not. Not every tick keeps the
/// pace: see [`law_a_fall_has_no_ceiling`].
///
/// A match that a goal has won is not played on. Where it is, its ball is still in
/// the net it went in, and may leave the far side.
pub proof fn law_a_tick_stays_in_play(t: Angles, s: Sim, input: Input, p2: Option<Input>)
    requires
        inplay::smooth(t),
        inplay::in_play(s),
        s.score_blue + 1 < u16::MAX,
        s.score_orange + 1 < u16::MAX,
    ensures
        ({
            let a = tick::advanced(t, s, input, p2);
            let won = s.goal_freeze == 0 && s.limit_reached();
            inplay::in_play(a) <==> at_pace(a) && (won ==> a.ball.p.within(480_000))
        }),
{
    if s.goal_freeze > 0 {
        lemma_celebrated(t, s);
    } else {
        lemma_played(t, s, input, p2);
    }
}

// ---- a whole match ---------------------------------------------------------

/// What both pads ask of each tick, in order.
pub type Drives = Seq<(Input, Option<Input>)>;

/// The match after its first `n` ticks.
pub open spec fn after(t: Angles, s: Sim, drives: Drives, n: nat) -> Sim
    decreases n,
{
    if n == 0 {
        s
    } else {
        let i = n - 1;
        tick::advanced(t, after(t, s, drives, i as nat), drives[i].0, drives[i].1)
    }
}

/// The match can go on: it is not won, and there is room on the scoreboard.
pub open spec fn goes_on(s: Sim) -> bool {
    &&& s.goal_freeze > 0 || inplay::live(s)
    &&& s.score_blue + 1 < u16::MAX
    &&& s.score_orange + 1 < u16::MAX
}

/// The tick after the first `k` is played: from a match that goes on, to one that
/// is at pace.
pub open spec fn kept_up(t: Angles, s: Sim, drives: Drives, k: nat) -> bool {
    goes_on(after(t, s, drives, k)) && at_pace(after(t, s, drives, k + 1))
}

/// The arithmetic of the tick after the first `k` fits.
pub open spec fn fits_at(t: Angles, s: Sim, drives: Drives, k: nat) -> bool {
    tick::fits(t, after(t, s, drives, k), drives[k as int].0, drives[k as int].1)
}

/// A match that starts in play and is played at pace is in play at every tick,
/// and every tick of it fits: nothing is ever refused, however long it lasts.
pub proof fn law_a_match_played_at_pace_is_stepped_throughout(
    t: Angles,
    s: Sim,
    drives: Drives,
    n: nat,
)
    requires
        inplay::smooth(t),
        inplay::in_play(s),
        forall|k: nat| k < n ==> #[trigger] kept_up(t, s, drives, k),
    ensures
        inplay::in_play(after(t, s, drives, n)),
        forall|k: nat| k < n ==> #[trigger] fits_at(t, s, drives, k),
    decreases n,
{
    if n > 0 {
        let i = (n - 1) as nat;
        law_a_match_played_at_pace_is_stepped_throughout(t, s, drives, i);
        let before = after(t, s, drives, i);
        let (one, two) = drives[i as int];
        assert(kept_up(t, s, drives, i));
        assert(after(t, s, drives, n) == tick::advanced(t, before, one, two));
        inplay::law_a_match_in_play_can_be_stepped(t, before, one, two);
        law_a_tick_stays_in_play(t, before, one, two);
        assert forall|k: nat| k < n implies #[trigger] fits_at(t, s, drives, k) by {
            if k < i {
            } else {
                assert(k == i);
            }
        }
    }
}

// ---- what a car gains -----------------------------------------------------

/// A velocity moved by no more than `m` on any axis is longer by little more.
proof fn lemma_nudged_speed(from: V3, to: V3, b: int, m: int)
    requires
        bounds::short(from, b),
        0 <= b <= 0x10_0000,
        0 <= m <= 0x1000,
        num::abs(to.x - from.x) <= m,
        num::abs(to.y - from.y) <= m,
        num::abs(to.z - from.z) <= m,
    ensures
        bounds::short(to, b + 7 * m / 4 + 1),
{
    let d = vec3::v3(to.x - from.x, to.y - from.y, to.z - from.z);
    bounds::lemma_short(d, m);
    bounds::lemma_within(from, b);
    bounds::lemma_sum(from, d, b, 7 * m / 4 + 1);
    assert(vec3::add3(from, d) == to);
}

/// One slice of a held jump is worth thirteen along its normal, and takes back up
/// to three.
proof fn lemma_slice_gains(c: Car, button: bool)
    requires
        counters_hold(c),
        c.v.within(40_000),
        c.jump_normal.within(4096),
    ensures
        ({
            let r = air::sliced(c, button);
            &&& num::abs(r.v.x - c.v.x) <= 16
            &&& num::abs(r.v.y - c.v.y) <= 16
            &&& num::abs(r.v.z - c.v.z) <= 16
            &&& r.jump_normal == c.jump_normal
        }),
{
    vec3::lemma_along(c.jump_normal, num::tdiv(c.jump_bonus_rem + 350, 27));
    vec3::lemma_along(c.jump_normal, -num::tdiv(c.jump_sticky_rem + 26, 9));
}

/// A car's speed over its surface is hardly more than its speed.
proof fn lemma_entry_speed(t: Angles, c: Car, n: int)
    requires
        c.up.within(4096),
        bounds::is_normal(c.up),
        bounds::short(c.v, n),
        0 <= n <= 12_000,
    ensures
        0 <= drive::entry_of(t, c).speed <= n + 4,
{
    bounds::lemma_flattened(c.v, c.up, n);
    let flat = vec3::flattened(c.v, c.up);
    assert((n + 4) * (n + 4) < (n + 5) * (n + 5)) by (nonlinear_arith)
        requires
            n >= 0,
    ;
    bounds::lemma_short_length(flat, n + 4);
    assert(flat.length() >= 0) by {
        reveal(V3::square);
        assert(flat.x * flat.x >= 0 && flat.y * flat.y >= 0 && flat.z * flat.z >= 0)
            by (nonlinear_arith);
        vec3::lemma_root_exists(num::min(flat.square(), i32::MAX as int));
    }
}

/// A car after its engine or its air control, before its ceiling.
pub open spec fn pushed(t: Angles, c: Car, input: Input) -> Car {
    let e = drive::entry_of(t, c);
    let lit = drive::boosted(drive::steered(c, input, e), input, e);
    if lit.grounded {
        drive::driven(lit, input, e)
    } else {
        let flown = air::flown_by_stick(t, lit, input, e);
        if air::second_jump(flown, input) {
            air::jumped_again(t, flown, input)
        } else {
            flown
        }
    }
}

proof fn lemma_pushed(t: Angles, c: Car, input: Input)
    requires
        inplay::smooth(t),
        inplay::car_in_play(c),
        c.v.within(6000),
    ensures
        counters_hold(pushed(t, c, input)),
        pushed(t, c, input).jump_normal.within(4096),
        pushed(t, c, input).v.square() <= i32::MAX,
{
    let e = drive::entry_of(t, c);
    inplay::lemma_entry(t, c);
    inplay::lemma_lit(c, input, e, 6000);
    lemma_lit(c, input, e);
    let lit = drive::boosted(drive::steered(c, input, e), input, e);
    if lit.grounded {
        inplay::lemma_driven(lit, input, e, 6064);
        lemma_driven(lit, input, e);
    } else {
        inplay::lemma_airborne(t, lit, input, e, 6064);
        lemma_flown(t, lit, input, e);
        reveal(air::jumped_again);
    }
    let v = pushed(t, c, input).v;
    assert(v.within(25_200));
    reveal(V3::square);
    num::lemma_mul_bound(v.x as int, v.x as int, 25_200, 25_200);
    num::lemma_mul_bound(v.y as int, v.y as int, 25_200, 25_200);
    num::lemma_mul_bound(v.z as int, v.z as int, 25_200, 25_200);
}

/// A held jump's share of one tick.
proof fn lemma_held_gains(c: Car, button: bool, b: int)
    requires
        counters_hold(c),
        c.jump_normal.within(4096),
        bounds::short(c.v, b),
        0 <= b <= 30_000,
    ensures
        bounds::short(air::held(c, button).v, b + 57),
{
    bounds::lemma_within(c.v, b);
    let once = air::sliced(c, button);
    lemma_sliced(c, button);
    lemma_slice_gains(c, button);
    lemma_slice_gains(once, button);
    reveal(air::held);
    lemma_nudged_speed(c.v, air::held(c, button).v, b, 32);
}

/// A car's own machinery never takes it past the fastest it can boost, or what it
/// came in with, but for a held jump.
proof fn lemma_powered_speed(t: Angles, c: Car, input: Input, n: int)
    requires
        inplay::smooth(t),
        inplay::car_in_play(c),
        bounds::short(c.v, n),
        2453 <= n <= 6000,
    ensures
        bounds::short(step::powered(t, c, input).v, n + 62),
{
    let e = drive::entry_of(t, c);
    lemma_entry_speed(t, c, n);
    bounds::lemma_within(c.v, n);
    lemma_pushed(t, c, input);
    let hard = pushed(t, c, input);
    let limit = drive::speed_limit(hard, e);
    bounds::lemma_capped(hard.v, limit);
    reveal(drive::limited);
    let slow = drive::limited(hard, e);
    bounds::lemma_longer(slow.v, limit + 1, n + 5);
    assert(counters_hold(slow));
    lemma_held_gains(slow, input.jump_held, n + 5);
}

/// A car on a surface, or in the air the right way up or not, gains little speed
/// in a turn of its own: nothing past the fastest it can boost but gravity, a held
/// jump and rounding.
pub proof fn law_a_turn_gains_little_speed(t: Angles, c: Car, input: Input, gravity: int, n: int)
    requires
        inplay::smooth(t),
        inplay::car_in_play(c),
        bounds::short(c.v, n),
        2453 <= n <= 6000,
        0 <= gravity <= 12,
    ensures
        bounds::short(step::car_ticked(t, c, input, gravity).v, n + 93),
{
    lemma_powered_speed(t, c, input, n);
    inplay::lemma_powered(t, c, input);
    let driven = step::powered(t, c, input);
    let moved = step::moved(driven, gravity);
    bounds::lemma_within(driven.v, n + 62);
    lemma_nudged_speed(driven.v, moved.v, n + 62, 12);
    let near = step::coasted(t, c, input, gravity);
    assert(bounds::short(near.v, n + 84)) by {
        reveal(V3::square);
        assert(moved.v.y * moved.v.y >= 0) by (nonlinear_arith);
        assert(0int * 0int == 0);
    }
    inplay::lemma_walled_speed(t, near, n + 84);
}

// ---- a quiet tick ---------------------------------------------------------

/// Nothing happens this tick: no goal, no touch and no bump, and the ball is not
/// thrown by the very middle of a post or spun past what its cap can measure.
pub open spec fn quiet(t: Angles, s: Sim, input: Input, p2: Option<Input>) -> bool {
    let gravity = tick::gravity_now(s);
    let flown = tick::ball_flown(t, s, input, p2);
    let met = tick::ball_touched(t, flown);
    &&& s.goal_freeze == 0
    &&& flight::goal_by(s.ball, gravity) is None
    &&& !place::touches(t, flown.car, flown.ball)
    &&& !place::touches(t, flown.opponent, flown.ball)
    &&& play::blue_ram(t, met) is None
    &&& play::orange_ram(t, met) is None
    &&& steady::clears_frame(
        flight::under_ceiling(flight::on_floor(flight::drifted(s.ball, gravity), gravity)).p,
    )
    &&& spin::flight_caps(s.ball, gravity)
}

proof fn lemma_turn_speed(t: Angles, c: Car, team: Team, input: Input, gravity: int, n: int)
    requires
        inplay::smooth(t),
        inplay::car_in_play(c),
        bounds::short(c.v, n),
        2453 <= n <= 6000,
        0 <= gravity <= 12,
    ensures
        bounds::short(tick::car_turn(t, c, team, input, gravity).v, n + 93),
{
    if !c.is_wrecked() {
        law_a_turn_gains_little_speed(t, c, input, gravity, n);
    } else if c.demo_timer == 1 {
        reveal(V3::square);
        assert(0int * 0int == 0);
        assert(0 <= (n + 93) * (n + 93)) by (nonlinear_arith);
    } else {
        bounds::lemma_longer(c.v, n, n + 93);
    }
}

/// With nothing to meet, what a tick does to the cars' speed is their own turns,
/// and to the ball's its flight.
proof fn lemma_quiet(t: Angles, s: Sim, input: Input, p2: Option<Input>)
    requires
        quiet(t, s, input, p2),
    ensures
        ({
            let a = tick::advanced(t, s, input, p2);
            let driven = tick::driven_on(t, s, input, p2);
            let ball = flight::flown(s.ball, tick::gravity_now(s));
            &&& a.car.v == driven.car.v
            &&& a.opponent.v == driven.opponent.v
            &&& a.ball.v == ball.v
            &&& a.ball.w == ball.w
        }),
{
    let driven = tick::driven_on(t, s, input, p2);
    inplay::lemma_padded(driven, 34);
    let flown = tick::ball_flown(t, s, input, p2);
    assert(driven.ball == s.ball) by {
        reveal(tick::cars_turned);
    }
    assert(flown.car.v == driven.car.v && flown.opponent.v == driven.opponent.v) by {
        reveal(play::ball_ticked);
    }
    assert(flown.ball.v == flight::flown(s.ball, tick::gravity_now(s)).v && flown.ball.w
        == flight::flown(s.ball, tick::gravity_now(s)).w) by {
        reveal(play::ball_ticked);
    }
    reveal(tick::ball_touched);
    reveal(play::cars_met);
}

/// A quiet tick keeps the pace of play: cars a little short of its ceiling stay
/// under it, and so do the ball and its spin. So the match stays in play.
pub proof fn law_a_quiet_tick_keeps_the_pace(
    t: Angles,
    s: Sim,
    input: Input,
    p2: Option<Input>,
    n: int,
)
    requires
        inplay::smooth(t),
        inplay::in_play(s),
        inplay::live(s),
        s.score_blue + 1 < u16::MAX,
        s.score_orange + 1 < u16::MAX,
        bounds::short(s.car.v, n),
        bounds::short(s.opponent.v, n),
        2453 <= n <= 6000,
        quiet(t, s, input, p2),
    ensures
        inplay::in_play(tick::advanced(t, s, input, p2)),
        bounds::short(tick::advanced(t, s, input, p2).car.v, n + 93),
        bounds::short(tick::advanced(t, s, input, p2).opponent.v, n + 93),
{
    let a = tick::advanced(t, s, input, p2);
    let gravity = tick::gravity_now(s);
    lemma_quiet(t, s, input, p2);
    reveal(tick::cars_turned);
    let orange = tick::rival(t, tick::clocked(tick::hushed(s)), p2).0;
    lemma_turn_speed(t, s.car, Team::Blue, input, gravity, n);
    lemma_turn_speed(t, s.opponent, Team::Orange, orange, gravity, n);
    bounds::lemma_within(a.car.v, n + 93);
    bounds::lemma_within(a.opponent.v, n + 93);
    steady::law_a_flying_ball_stays_slow(s.ball, gravity);
    spin::law_flight_keeps_the_spin_ceiling(s.ball, gravity);
    law_a_tick_stays_in_play(t, s, input, p2);
}

/// A car let go in mid-air over the middle of the pitch, on its side and falling.
pub open spec fn falling_on_its_side(c: Car) -> bool {
    &&& c.up == (V3 { x: 4096, y: 0, z: 0 })
    &&& c.p.x == 0 && c.p.z == 0
    &&& c.v.x == 0 && c.v.y <= 0 && c.v.z == 0
    &&& !c.grounded
    &&& !c.jump_holding
    &&& c.boost_ticks == 0
    &&& c.w_pitch == 0 && c.w_roll == 0 && c.w_yaw == 0
}

/// The ceiling on its side leaves a falling car alone.
proof fn lemma_falling_power(t: Angles, c: Car)
    requires
        falling_on_its_side(c),
    ensures
        ({
            let r = step::powered(t, c, car::no_input());
            &&& r.v == c.v
            &&& r.p == c.p
            &&& !r.grounded
            &&& r.up == c.up
        }),
{
    let e = drive::entry_of(t, c);
    let input = car::no_input();
    reveal(vec3::dot);
    reveal(vec3::along);
    let fall = c.v.y as int;
    assert(0int * 4096 == 0 && fall * 0 == 0 && 0int * 0int == 0 && 4096int * 0int == 0);
    assert(vec3::dot(c.v, c.up) == 0);
    assert(vec3::flattened(c.v, c.up) == c.v);
    assert(e.speed == c.v.length()) by {
        reveal(V3::square);
        let v = c.v;
        assert(v.x * v.x >= 0 && v.y * v.y >= 0 && v.z * v.z >= 0) by (nonlinear_arith);
        vec3::lemma_root_exists(num::min(v.square(), i32::MAX as int));
        let r = v.length();
        assert(0 <= r <= 46_340) by (nonlinear_arith)
            requires
                0 <= r,
                r * r <= 0x7fff_ffff,
        ;
    }
    reveal(drive::steered);
    reveal(drive::boosted);
    reveal(air::flown_by_stick);
    reveal(drive::limited);
    reveal(air::held);
    reveal(vec3::damped);
    let lit = drive::boosted(drive::steered(c, input, e), input, e);
    assert(lit.v == c.v && !lit.boosting && !lit.grounded);
    let flown = air::flown_by_stick(t, lit, input, e);
    assert(flown.v == c.v && flown.up == c.up);
}

/// No speed is the fastest a car falls at: on its side in the air a tick always
/// adds gravity to it, however fast it was going. So no ceiling on the cars'
/// speed is kept by every tick.
pub proof fn law_a_fall_has_no_ceiling(t: Angles, c: Car, gravity: int)
    requires
        falling_on_its_side(c),
        c.p.y + c.v.y - gravity > step::CAR_FLOOR,
        c.p.y <= step::CAR_CEILING,
        0 <= gravity <= 1000,
    ensures
        step::car_ticked(t, c, car::no_input(), gravity).v == vec3::v3(0, c.v.y - gravity, 0),
{
    lemma_falling_power(t, c);
    let near = step::coasted(t, c, car::no_input(), gravity);
    assert(near.v == vec3::v3(0, c.v.y - gravity, 0) && !near.grounded);
    assert(near.p.x == 0 && near.p.z == 0);
    reveal(arena::wall_near);
    let open = step::in_mouth(near.p);
    assert(arena::wall_near(0, 0, open).distance == 262_144);
    assert(ramp::car_on_ramp(near.p, open) == (near.p, None::<V3>));
}

} // verus!
