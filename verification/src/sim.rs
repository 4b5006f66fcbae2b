//! The whole match.

use vstd::prelude::*;
use crate::ai;
use crate::ai::AI_FIELD;
use crate::ball;
use crate::ball::Ball;
use crate::car;
use crate::car::Car;
use crate::drive;
use crate::flight::Team;
use crate::pads;
use crate::pads::PAD_COUNT;
use crate::tuning::{BOOST_MAX, GRAVITY_DEN, GRAVITY_NUM, MATCH_TICKS};
use crate::vec3;
use crate::vec3::V3;

verus! {

/// What the opponent is driving at. A target survives between ticks.
#[derive(Copy, Clone, Debug, PartialEq, Eq, Structural)]
pub enum AiTarget {
    /// Nothing chosen yet, or the choice was voided. Picks again immediately.
    Unset,
    /// The ball itself.
    Ball,
    /// A big boost pad, by its place in the layout.
    Boost(u8),
    /// A spot on the floor, in sub-units.
    Position(i32, i32),
}

/// The one condition that ends a match. The two are exclusive: a first-to-three
/// match has no hidden clock, and a timed match does not stop at a score.
#[derive(Copy, Clone, Debug, PartialEq, Eq, Structural)]
pub enum WinCondition {
    /// Stop when this many 60 Hz ticks have elapsed.
    TimeLimit(u32),
    /// Stop when either team reaches this many goals, after the final goal's
    /// celebration has played out.
    GoalLimit(u16),
}

/// The whole match.
#[derive(Copy, Clone, Debug)]
pub struct Sim {
    /// The ball.
    pub ball: Ball,
    /// The player car.
    pub car: Car,
    /// The opponent, driven by [`Sim::drive_ai`].
    pub opponent: Car,
    /// Player goals.
    pub score_blue: u16,
    /// Opponent goals.
    pub score_orange: u16,
    /// Ticks left of the post-goal freeze; 0 while play is live.
    pub goal_freeze: u16,
    /// Who scored the goal currently being celebrated.
    pub last_scorer: Team,
    /// Ticks left in a timed match. Zero throughout a goal-limit match.
    pub clock: u32,
    /// The single condition that ends this match.
    pub win_condition: WinCondition,
    /// Strength of the ball contact that happened this tick, zero if none.
    pub hit: i32,
    /// Set on the tick a boost pad is taken.
    pub pad_taken: bool,
    /// Set on the tick a car is wrecked.
    pub demo: bool,
    /// Ticks until each pad comes back. Zero means available.
    pub pad_timers: [u16; 34],
    /// Whether the opponent drives itself. Off parks it.
    pub opponent_ai: bool,
    /// Ticks since the cars were placed for kickoff.
    pub kickoff_ticks: u8,
    /// What the opponent is currently driving at, held between ticks.
    pub ai_target: AiTarget,
    /// How long it has held it, for the arrival and stuck checks.
    pub ai_target_ticks: u16,
    /// Seed for the scatter on positional targets. Fixed, so a replay of the
    /// same inputs is the same match.
    pub ai_rng: u32,
    /// Ticks the opponent must keep backing out of a goal or off a wall.
    pub ai_escape: u8,
    /// Sub-units of gravity owed but not yet spent, below [`GRAVITY_DEN`]. One
    /// phase for the whole world; never reset at kickoff.
    pub gravity_phase: i32,
}

/// Where a team's car stands at kickoff, and which way it faces.
pub open spec fn home(team: Team) -> (V3, u16) {
    match team {
        Team::Blue => (vec3::v3(0, 1792, -294_912), 0),
        Team::Orange => (vec3::v3(0, 1792, 294_912), 2048),
    }
}

/// A car lined up for kickoff: at its own end, upright, facing the middle, with
/// a third of a tank, and nothing left of whatever it was in the middle of
/// doing.
pub open spec fn lined_up(c: Car, team: Team) -> Car {
    let (p, yaw) = home(team);
    car::settled(
        Car {
            p,
            v: vec3::zero3(),
            yaw,
            boost: 2133,
            grounded: true,
            up: drive::world_up(),
            steer: 0,
            wheel_spin: 0,
            suspension: car::axles(0, 0),
            suspension_velocity: car::axles(0, 0),
            demo_timer: 0,
            supersonic: false,
            sonic_grace: 0,
            bump_cool: 0,
            dodge_window: 0,
            dodge_timer: 0,
            dodge_dir: 0,
            boosting: false,
            boost_ticks: 0,
            boost_rem: 0,
            air_throttle_rem: 0,
            ..c
        },
    )
}

/// A car as it arrives on the pitch: at its own end, upright, facing the
/// middle, with a spawn's worth of boost.
pub open spec fn spawned_car(team: Team) -> Car {
    let (p, yaw) = home(team);
    Car { p, yaw, up: drive::world_up(), grounded: true, boost: 2133, ..car::blank_car() }
}

/// The ball on its spot, standing still.
pub open spec fn spotted(b: Ball) -> Ball {
    Ball {
        p: V3 { x: 0, y: 5824, z: 0 },
        v: vec3::zero3(),
        w: vec3::zero3(),
        grounded: true,
        ..b
    }
}

/// The match with everything back for a kickoff: the score, the clock and the
/// pads are kept.
pub open spec fn kicked_off(s: Sim) -> Sim {
    Sim {
        ball: spotted(s.ball),
        car: lined_up(s.car, Team::Blue),
        opponent: lined_up(s.opponent, Team::Orange),
        kickoff_ticks: 0,
        ..s
    }
}

/// A fresh match with this end condition.
pub open spec fn fresh(win_condition: WinCondition) -> Sim {
    kicked_off(
        Sim {
            ball: ball::blank_ball(),
            car: car::blank_car(),
            opponent: car::blank_car(),
            score_blue: 0,
            score_orange: 0,
            goal_freeze: 0,
            last_scorer: Team::Blue,
            clock: match win_condition {
                WinCondition::TimeLimit(ticks) => ticks,
                WinCondition::GoalLimit(_) => 0,
            },
            win_condition,
            hit: 0,
            pad_taken: false,
            demo: false,
            pad_timers: pads::timers_of(Seq::new(34, |i: int| 0u16)),
            opponent_ai: true,
            kickoff_ticks: 0,
            ai_target: AiTarget::Unset,
            ai_target_ticks: 0,
            ai_rng: 0x5EED_1234,
            ai_escape: 0,
            gravity_phase: 0,
        },
    )
}

impl Sim {
    /// The parts of a match that every tick keeps: both cars valid, less than a
    /// whole sub-unit of gravity owed, and a target that is somewhere.
    pub open spec fn valid(self) -> bool {
        &&& self.car.valid()
        &&& self.opponent.valid()
        &&& 0 <= self.gravity_phase < GRAVITY_DEN
        &&& ai::target_exists(self.ai_target)
    }

    /// Every body is sized for one tick's arithmetic.
    pub open spec fn in_range(self) -> bool {
        &&& self.ball.in_range()
        &&& self.car.in_range()
        &&& self.opponent.in_range()
    }

    /// The selected condition has been reached.
    pub open spec fn is_finished(self) -> bool {
        match self.win_condition {
            WinCondition::TimeLimit(_) => self.clock == 0,
            WinCondition::GoalLimit(target) => self.goal_freeze == 0 && self.limit_reached(),
        }
    }

    /// Either side has reached the goal target of a goal-limit match.
    pub open spec fn limit_reached(self) -> bool {
        match self.win_condition {
            WinCondition::GoalLimit(target) => target > 0 && (self.score_blue >= target
                || self.score_orange >= target),
            WinCondition::TimeLimit(_) => false,
        }
    }

    /// A fresh five-minute match at kickoff.
    pub fn new() -> (r: Self)
        ensures
            r == fresh(WinCondition::TimeLimit(MATCH_TICKS)),
            r.valid(),
            r.in_range(),
    {
        Self::with_win_condition(WinCondition::TimeLimit(MATCH_TICKS))
    }

    /// A fresh match at kickoff with an authored end condition.
    pub fn with_win_condition(win_condition: WinCondition) -> (r: Self)
        ensures
            r == fresh(win_condition),
            r.valid(),
            r.in_range(),
    {
        let clock: u32 = match win_condition {
            WinCondition::TimeLimit(ticks) => ticks,
            WinCondition::GoalLimit(_) => 0,
        };
        let timers: [u16; 34] = [0; 34];
        proof {
            assert(timers@ =~= Seq::new(34, |i: int| 0u16));
            pads::lemma_timers(timers);
        }
        let mut sim = Sim {
            ball: Ball::default(),
            car: Car::default(),
            opponent: Car::default(),
            score_blue: 0,
            score_orange: 0,
            goal_freeze: 0,
            last_scorer: Team::Blue,
            clock,
            win_condition,
            hit: 0,
            pad_taken: false,
            demo: false,
            pad_timers: timers,
            opponent_ai: true,
            kickoff_ticks: 0,
            ai_target: AiTarget::Unset,
            ai_target_ticks: 0,
            // Any non-zero constant; the generator sticks at zero.
            ai_rng: 0x5EED_1234,
            ai_escape: 0,
            gravity_phase: 0,
        };
        sim.kickoff();
        sim
    }

    /// Reset ball and cars to kickoff positions, keeping the score and clock.
    pub fn kickoff(&mut self)
        ensures
            *final(self) == kicked_off(*old(self)),
    {
        self.ball.p = V3::new(0, 5824, 0);
        self.ball.v = V3::zero();
        // Spin too, or the ball rolls itself off the spot.
        self.ball.w = V3::zero();
        self.ball.grounded = true;
        line_up(&mut self.car, Team::Blue);
        line_up(&mut self.opponent, Team::Orange);
        self.kickoff_ticks = 0;
    }

    /// True once this match's selected condition has been reached.
    pub fn finished(&self) -> (r: bool)
        ensures
            r == self.is_finished(),
    {
        match self.win_condition {
            WinCondition::TimeLimit(_) => self.clock == 0,
            WinCondition::GoalLimit(target) => target > 0 && self.goal_freeze == 0 && (
            self.score_blue >= target || self.score_orange >= target),
        }
    }

    /// Whether the parts of the match that every tick keeps are in order.
    pub fn sound(&self) -> (r: bool)
        ensures
            r == self.valid(),
    {
        let target = match self.ai_target {
            AiTarget::Boost(i) => (i as usize) < PAD_COUNT,
            AiTarget::Position(x, z) => -AI_FIELD <= x && x <= AI_FIELD && -AI_FIELD <= z && z
                <= AI_FIELD,
            _ => true,
        };
        target && self.car.sound() && self.opponent.sound() && 0 <= self.gravity_phase
            && self.gravity_phase < GRAVITY_DEN
    }

    /// Whether the match is in a state a tick can be stepped from.
    pub fn steppable(&self) -> (r: bool)
        ensures
            r == (self.valid() && self.in_range()),
    {
        self.sound() && self.car.steppable() && self.opponent.steppable() && self.ball.steppable()
    }

    /// Has either side reached the selected goal target? Kept separate from
    /// [`Sim::finished`] because the final goal still gets its celebration.
    pub fn goal_limit_reached(&self) -> (r: bool)
        ensures
            r == self.limit_reached(),
    {
        match self.win_condition {
            WinCondition::GoalLimit(target) => target > 0 && (self.score_blue >= target
                || self.score_orange >= target),
            WinCondition::TimeLimit(_) => false,
        }
    }

    /// This tick's whole-sub-unit gravity step, spending the accumulated
    /// remainder. Nine consecutive calls always total 104.
    pub fn gravity_step(&mut self) -> (r: i32)
        requires
            0 <= old(self).gravity_phase < GRAVITY_DEN,
        ensures
            r == gravity_due(old(self).gravity_phase as int),
            *final(self) == (Sim {
                gravity_phase: gravity_left(old(self).gravity_phase as int) as i32,
                ..*old(self)
            }),
            11 <= r <= 12,
            0 <= final(self).gravity_phase < GRAVITY_DEN,
    {
        let owed: i32 = self.gravity_phase + GRAVITY_NUM;
        self.gravity_phase = owed % GRAVITY_DEN;
        owed / GRAVITY_DEN
    }
}

impl Default for Sim {
    fn default() -> (r: Self)
        ensures
            r == fresh(WinCondition::TimeLimit(MATCH_TICKS)),
    {
        Self::new()
    }
}

/// The whole sub-units of gravity spent by a step from this phase.
pub open spec fn gravity_due(phase: int) -> int {
    (phase + GRAVITY_NUM) / (GRAVITY_DEN as int)
}

/// The phase a step leaves.
pub open spec fn gravity_left(phase: int) -> int {
    (phase + GRAVITY_NUM) % (GRAVITY_DEN as int)
}

/// Gravity spent over `n` consecutive steps.
pub open spec fn gravity_over(phase: int, n: nat) -> int
    decreases n,
{
    if n == 0 {
        0
    } else {
        gravity_due(phase) + gravity_over(gravity_left(phase), (n - 1) as nat)
    }
}

/// The phase after `n` consecutive steps.
pub open spec fn phase_after(phase: int, n: nat) -> int
    decreases n,
{
    if n == 0 {
        phase
    } else {
        phase_after(gravity_left(phase), (n - 1) as nat)
    }
}

/// Gravity never drifts: what `n` steps spend, plus what is left owing, is
/// exactly `n` shares of 104/9 more than what was owing before.
pub proof fn law_gravity_never_drifts(phase: int, n: nat)
    requires
        0 <= phase < GRAVITY_DEN,
    ensures
        GRAVITY_DEN * gravity_over(phase, n) + phase_after(phase, n) == phase + GRAVITY_NUM * n,
        0 <= phase_after(phase, n) < GRAVITY_DEN,
    decreases n,
{
    if n > 0 {
        law_gravity_never_drifts(gravity_left(phase), (n - 1) as nat);
    }
}

/// Any nine consecutive gravity steps total exactly 104 and leave the phase
/// where it was.
pub proof fn law_nine_steps_total_104(phase: int)
    requires
        0 <= phase < GRAVITY_DEN,
    ensures
        gravity_over(phase, 9) == GRAVITY_NUM,
        phase_after(phase, 9) == phase,
{
    law_gravity_never_drifts(phase, 9);
}

/// Line a car up for kickoff.
fn line_up(c: &mut Car, team: Team)
    ensures
        *final(c) == lined_up(*old(c), team),
{
    let (home, yaw): (V3, u16) = match team {
        Team::Blue => (V3::new(0, 1792, -294_912), 0),
        Team::Orange => (V3::new(0, 1792, 294_912), 2048),
    };
    let rest: [i16; 2] = [0, 0];
    proof {
        car::lemma_axles(rest);
    }
    c.p = home;
    c.v = V3::zero();
    c.yaw = yaw;
    c.boost = BOOST_MAX / 3;
    c.grounded = true;
    c.up = V3::new(0, 4096, 0);
    c.steer = 0;
    c.wheel_spin = 0;
    c.suspension = rest;
    c.suspension_velocity = rest;
    c.demo_timer = 0;
    c.supersonic = false;
    c.sonic_grace = 0;
    c.bump_cool = 0;
    c.clear_jump_state();
    c.dodge_window = 0;
    c.dodge_timer = 0;
    c.dodge_dir = 0;
    c.boosting = false;
    c.boost_ticks = 0;
    c.boost_rem = 0;
    c.air_throttle_rem = 0;
}

/// A car as it arrives on the pitch.
pub fn spawned(team: Team) -> (r: Car)
    ensures
        r == spawned_car(team),
        r.valid(),
        r.in_range(),
{
    let (home, yaw): (V3, u16) = match team {
        Team::Blue => (V3::new(0, 1792, -294_912), 0),
        Team::Orange => (V3::new(0, 1792, 294_912), 2048),
    };
    let blank = Car::default();
    Car {
        p: home,
        yaw,
        up: V3::new(0, 4096, 0),
        grounded: true,
        boost: BOOST_MAX / 3,
        ..blank
    }
}

} // verus!
