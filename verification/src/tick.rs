//! The tick: every stage of a match, in order.

use vstd::prelude::*;
use crate::ai;
use crate::ball::Ball;
use crate::car;
use crate::car::{Car, Input};
use crate::contact;
use crate::contact::collide_car_ball;
use crate::flight;
use crate::flight::{fly, flyable, Team};
use crate::num;
use crate::num::max_i32;
use crate::play;
use crate::sim;
use crate::sim::{spawned, Sim, WinCondition};
use crate::step;
use crate::trig::{Angles, Trig};

verus! {

// ---- stages ------------------------------------------------------------

/// The match with last tick's events cleared.
pub open spec fn hushed(s: Sim) -> Sim {
    Sim { hit: 0, pad_taken: false, demo: false, ..s }
}

/// One car's turn. A wreck sits it out: all it does is count down, and come
/// back.
pub open spec fn car_turn(t: Angles, c: Car, team: Team, input: Input, gravity: int) -> Car {
    if !c.is_wrecked() {
        step::car_ticked(t, c, input, gravity)
    } else if c.demo_timer == 1 {
        sim::spawned_car(team)
    } else {
        Car { demo_timer: (c.demo_timer - 1) as u16, ..c }
    }
}

/// The match after both cars' turns, gravity included.
#[verifier::opaque]
pub open spec fn cars_turned(t: Angles, s: Sim, blue: Input, orange: Input) -> Sim {
    let gravity = sim::gravity_due(s.gravity_phase as int);
    Sim {
        gravity_phase: sim::gravity_left(s.gravity_phase as int) as i32,
        car: car_turn(t, s.car, Team::Blue, blue, gravity),
        opponent: car_turn(t, s.opponent, Team::Orange, orange, gravity),
        ..s
    }
}

/// The match after a tick of a goal celebration. The cars keep moving through
/// it; nothing else runs. It ends in a kickoff, unless the goal won the match.
pub open spec fn celebrated(t: Angles, s: Sim) -> Sim {
    let left = Sim { goal_freeze: (s.goal_freeze - 1) as u16, ..s };
    if left.goal_freeze > 0 {
        cars_turned(t, left, car::no_input(), car::no_input())
    } else if left.limit_reached() {
        left
    } else {
        sim::kicked_off(left)
    }
}

/// The match with its clocks run: a timed match's down, the kickoff's up.
pub open spec fn clocked(s: Sim) -> Sim {
    Sim {
        clock: if s.win_condition is TimeLimit && s.clock > 0 {
            (s.clock - 1) as u32
        } else {
            s.clock
        },
        kickoff_ticks: num::min(s.kickoff_ticks + 1, 255) as u8,
        ..s
    }
}

/// Who drives the opponent: a second pad, the opponent itself, or nobody.
pub open spec fn rival(t: Angles, s: Sim, p2: Option<Input>) -> (Input, Sim) {
    match p2 {
        Some(pad) => (pad, s),
        None => if s.opponent_ai {
            (ai::ai_input(t, s), ai::ai_stepped(t, s))
        } else {
            (car::no_input(), s)
        },
    }
}

/// The match after the cars have been driven.
pub open spec fn driven_on(t: Angles, s: Sim, input: Input, p2: Option<Input>) -> Sim {
    let (orange, thought) = rival(t, clocked(hushed(s)), p2);
    cars_turned(t, thought, input, orange)
}

/// Gravity on the tick that starts here.
pub open spec fn gravity_now(s: Sim) -> int {
    sim::gravity_due(s.gravity_phase as int)
}

/// A live car's touch on the ball. A wreck touches nothing.
pub open spec fn touch_by(t: Angles, b: Ball, c: Car) -> (Ball, Car, int) {
    if c.is_wrecked() {
        (b, c, 0)
    } else {
        contact::touched(t, b, c)
    }
}

/// The match after both cars may have touched the ball, the player's first.
#[verifier::opaque]
pub open spec fn ball_touched(t: Angles, s: Sim) -> Sim {
    let (first, car, a) = touch_by(t, s.ball, s.car);
    let (second, opponent, b) = touch_by(t, first, s.opponent);
    Sim { ball: second, car, opponent, hit: num::max(a, b) as i32, ..s }
}

/// The ball after the player may have touched it.
pub open spec fn first_touched(t: Angles, s: Sim) -> Ball {
    touch_by(t, s.ball, s.car).0
}

/// The match after the pads and the ball.
pub open spec fn ball_flown(t: Angles, s: Sim, input: Input, p2: Option<Input>) -> Sim {
    play::ball_ticked(t, play::padded(driven_on(t, s, input, p2), 34), gravity_now(s))
}

/// The match after a tick of live play.
pub open spec fn played(t: Angles, s: Sim, input: Input, p2: Option<Input>) -> Sim {
    play::cars_met(t, ball_touched(t, ball_flown(t, s, input, p2)))
}

/// The match after one tick.
pub open spec fn advanced(t: Angles, s: Sim, input: Input, p2: Option<Input>) -> Sim {
    if s.goal_freeze > 0 {
        celebrated(t, hushed(s))
    } else {
        played(t, s, input, p2)
    }
}

/// Both cars are in range.
pub open spec fn cars_in_range(s: Sim) -> bool {
    s.car.in_range() && s.opponent.in_range()
}

/// Both cars can meet each other.
pub open spec fn cars_can_clash(s: Sim) -> bool {
    s.car.can_clash() && s.opponent.can_clash()
}

/// A live tick's arithmetic fits: the opponent can think, the cars are in range
/// once driven, the ball can fly, they all are in range once it has, and still are
/// between the touches, and the cars can meet once they have touched it.
pub open spec fn play_fits(t: Angles, s: Sim, input: Input, p2: Option<Input>) -> bool {
    &&& drives_itself(s, p2) ==> s.ai_ready()
    &&& cars_in_range(driven_on(t, s, input, p2))
    &&& flight::can_fly(s.ball, gravity_now(s))
    &&& play::room_to_score(s, flight::goal_by(s.ball, gravity_now(s)))
    &&& ball_flown(t, s, input, p2).ball.in_range()
    &&& cars_in_range(ball_flown(t, s, input, p2))
    &&& first_touched(t, ball_flown(t, s, input, p2)).can_be_touched()
    &&& cars_can_clash(ball_touched(t, ball_flown(t, s, input, p2)))
}

/// The opponent drives itself this tick.
pub open spec fn drives_itself(s: Sim, p2: Option<Input>) -> bool {
    p2 is None && s.opponent_ai
}

/// The tick's arithmetic fits: what moves is in range when the tick starts, and
/// stays in range between its stages. Nothing moves on the tick that ends a
/// celebration, and only the cars before it.
pub open spec fn fits(t: Angles, s: Sim, input: Input, p2: Option<Input>) -> bool {
    &&& s.valid()
    &&& s.goal_freeze == 1 || cars_in_range(s)
    &&& s.goal_freeze > 0 || play_fits(t, s, input, p2)
}

/// One car's turn.
fn take_turn<F: Fn(i32, i32) -> u16>(
    trig: &Trig<F>,
    c: &mut Car,
    team: Team,
    input: &Input,
    gravity: i32,
)
    requires
        trig.wf(),
        old(c).valid(),
        old(c).in_range(),
        -1_000_000 <= gravity <= 1_000_000,
    ensures
        *final(c) == car_turn(trig.model(), *old(c), team, *input, gravity as int),
        final(c).valid(),
{
    if c.wrecked() {
        c.demo_timer = c.demo_timer - 1;
        if c.demo_timer == 0 {
            *c = spawned(team);
        }
    } else {
        step::tick_car(trig, c, input, gravity);
    }
}

impl Sim {
    /// One tick of one car, outside a match.
    pub fn tick_car<F: Fn(i32, i32) -> u16>(
        trig: &Trig<F>,
        c: &mut Car,
        input: &Input,
        gravity: i32,
    )
        requires
            trig.wf(),
            old(c).valid(),
            old(c).in_range(),
            -1_000_000 <= gravity <= 1_000_000,
        ensures
            *final(c) == step::car_ticked(trig.model(), *old(c), *input, gravity as int),
            final(c).valid(),
            step::on_pitch(final(c).p),
    {
        step::tick_car(trig, c, input, gravity);
    }

    /// Both cars' turns. Returns this tick's gravity.
    fn turn_cars<F: Fn(i32, i32) -> u16>(
        &mut self,
        trig: &Trig<F>,
        blue: &Input,
        orange: &Input,
    ) -> (r: i32)
        requires
            trig.wf(),
            old(self).valid(),
            old(self).car.in_range(),
            old(self).opponent.in_range(),
        ensures
            *final(self) == cars_turned(trig.model(), *old(self), *blue, *orange),
            final(self).valid(),
            r == gravity_now(*old(self)),
            11 <= r <= 12,
            final(self).ball == old(self).ball,
            final(self).score_blue == old(self).score_blue,
            final(self).score_orange == old(self).score_orange,
    {
        let gravity: i32 = self.gravity_step();
        take_turn(trig, &mut self.car, Team::Blue, blue, gravity);
        take_turn(trig, &mut self.opponent, Team::Orange, orange, gravity);
        proof {
            reveal(cars_turned);
        }
        gravity
    }

    /// One tick of a goal celebration.
    fn celebrate<F: Fn(i32, i32) -> u16>(&mut self, trig: &Trig<F>)
        requires
            trig.wf(),
            old(self).valid(),
            old(self).goal_freeze == 1 || cars_in_range(*old(self)),
            old(self).goal_freeze > 0,
        ensures
            *final(self) == celebrated(trig.model(), *old(self)),
            final(self).valid(),
    {
        self.goal_freeze = self.goal_freeze - 1;
        if self.goal_freeze == 0 {
            if !self.goal_limit_reached() {
                self.kickoff();
            }
        } else {
            let idle = Input::default();
            self.turn_cars(trig, &idle, &idle);
        }
    }

    /// What the opponent does this tick.
    fn rival_input<F: Fn(i32, i32) -> u16>(&mut self, trig: &Trig<F>, p2: Option<Input>) -> (r: Input)
        requires
            trig.wf(),
            old(self).valid(),
            drives_itself(*old(self), p2) ==> old(self).ai_ready(),
        ensures
            r == rival(trig.model(), *old(self), p2).0,
            *final(self) == rival(trig.model(), *old(self), p2).1,
            final(self).valid(),
            final(self).car == old(self).car,
            final(self).opponent == old(self).opponent,
            final(self).ball == old(self).ball,
            final(self).gravity_phase == old(self).gravity_phase,
    {
        match p2 {
            Some(pad) => pad,
            None => if self.opponent_ai {
                self.drive_ai(trig)
            } else {
                Input::default()
            },
        }
    }

    /// Drive both cars. Returns this tick's gravity.
    fn drive_cars<F: Fn(i32, i32) -> u16>(
        &mut self,
        trig: &Trig<F>,
        input: &Input,
        p2: Option<Input>,
    ) -> (r: i32)
        requires
            trig.wf(),
            old(self).valid(),
            cars_in_range(*old(self)),
            drives_itself(*old(self), p2) ==> old(self).ai_ready(),
        ensures
            *final(self) == driven_on(trig.model(), *old(self), *input, p2),
            final(self).valid(),
            r == gravity_now(*old(self)),
            11 <= r <= 12,
            final(self).ball == old(self).ball,
            final(self).score_blue == old(self).score_blue,
            final(self).score_orange == old(self).score_orange,
    {
        self.hit = 0;
        self.pad_taken = false;
        self.demo = false;
        let timed = match self.win_condition {
            WinCondition::TimeLimit(_) => true,
            WinCondition::GoalLimit(_) => false,
        };
        if timed && self.clock > 0 {
            self.clock = self.clock - 1;
        }
        if self.kickoff_ticks < 255 {
            self.kickoff_ticks = self.kickoff_ticks + 1;
        }
        assert(*self == clocked(hushed(*old(self))));
        let orange = self.rival_input(trig, p2);
        self.turn_cars(trig, input, &orange)
    }

    /// Let both cars touch the ball. Gives up where the first takes it out of the
    /// second's range.
    fn touch_ball<F: Fn(i32, i32) -> u16>(&mut self, trig: &Trig<F>) -> (r: bool)
        requires
            trig.wf(),
            old(self).valid(),
            old(self).ball.in_range(),
            old(self).car.in_range(),
            old(self).opponent.in_range(),
        ensures
            r == first_touched(trig.model(), *old(self)).can_be_touched(),
            r ==> *final(self) == ball_touched(trig.model(), *old(self)),
            r ==> final(self).valid(),
    {
        let mut a: i32 = 0;
        if !self.car.wrecked() {
            a = collide_car_ball(trig, &mut self.ball, &mut self.car);
        }
        if !self.ball.touchable() {
            return false;
        }
        let mut b: i32 = 0;
        if !self.opponent.wrecked() {
            b = collide_car_ball(trig, &mut self.ball, &mut self.opponent);
        }
        self.hit = max_i32(a, b);
        proof {
            reveal(ball_touched);
        }
        true
    }

    /// Whether both cars are in range.
    fn cars_fit(&self) -> (r: bool)
        requires
            self.valid(),
        ensures
            r == cars_in_range(*self),
    {
        self.car.steppable() && self.opponent.steppable()
    }

    /// One tick of live play. Gives up where a stage takes a body out of range.
    fn play_on<F: Fn(i32, i32) -> u16>(
        &mut self,
        trig: &Trig<F>,
        input: &Input,
        p2: Option<Input>,
    ) -> (r: bool)
        requires
            trig.wf(),
            old(self).valid(),
            cars_in_range(*old(self)),
        ensures
            r == play_fits(trig.model(), *old(self), *input, p2),
            r ==> *final(self) == played(trig.model(), *old(self), *input, p2),
            r ==> final(self).valid(),
    {
        if p2.is_none() && self.opponent_ai && !self.can_drive_ai() {
            return false;
        }
        let gravity: i32 = self.drive_cars(trig, input, p2);
        if !self.cars_fit() {
            return false;
        }
        if !flyable(&self.ball, gravity) {
            return false;
        }
        proof {
            play::law_pads_only_refuel(*self, 34);
        }
        self.tick_pads();
        let goal = fly(&mut self.ball, gravity);
        if !self.can_score(goal) {
            return false;
        }
        self.land_ball(trig, goal);
        proof {
            reveal(play::ball_ticked);
        }
        if !self.ball.steppable() || !self.cars_fit() {
            return false;
        }
        if !self.touch_ball(trig) {
            return false;
        }
        if !self.car.clashable() || !self.opponent.clashable() {
            return false;
        }
        self.collide_cars(trig);
        assert(self.valid()) by {
            reveal(play::cars_met);
        }
        true
    }

    /// One tick, if its arithmetic fits: otherwise the match is left exactly as
    /// it was, and this says so.
    pub fn try_advance<F: Fn(i32, i32) -> u16>(
        &mut self,
        trig: &Trig<F>,
        input: &Input,
        p2: Option<Input>,
    ) -> (r: bool)
        requires
            trig.wf(),
        ensures
            r == fits(trig.model(), *old(self), *input, p2),
            r ==> *final(self) == advanced(trig.model(), *old(self), *input, p2),
            r ==> final(self).valid(),
            !r ==> *final(self) == *old(self),
    {
        if !self.sound() || self.goal_freeze != 1 && !self.cars_fit() {
            return false;
        }
        let mut next = *self;
        if next.goal_freeze > 0 {
            next.hit = 0;
            next.pad_taken = false;
            next.demo = false;
            next.celebrate(trig);
        } else if !next.play_on(trig, input, p2) {
            return false;
        }
        *self = next;
        true
    }

    /// One tick with the opponent driven by itself, or parked when
    /// [`Sim::opponent_ai`] is off. A match in play always fits
    /// ([`crate::inplay`]), and what a tick keeps of it is in [`crate::keeps`];
    /// [`Sim::try_advance`] asks nothing.
    pub fn tick<F: Fn(i32, i32) -> u16>(&mut self, trig: &Trig<F>, input: &Input)
        requires
            trig.wf(),
            fits(trig.model(), *old(self), *input, None),
        ensures
            *final(self) == advanced(trig.model(), *old(self), *input, None),
            final(self).valid(),
    {
        self.try_advance(trig, input, None);
    }

    /// One tick of a two-player match: `p2` drives the opponent, which never
    /// drives itself. It fits where [`Sim::tick`] does.
    pub fn tick_versus<F: Fn(i32, i32) -> u16>(&mut self, trig: &Trig<F>, p1: &Input, p2: &Input)
        requires
            trig.wf(),
            fits(trig.model(), *old(self), *p1, Some(*p2)),
        ensures
            *final(self) == advanced(trig.model(), *old(self), *p1, Some(*p2)),
            final(self).valid(),
    {
        self.try_advance(trig, p1, Some(*p2));
    }
}

} // verus!
