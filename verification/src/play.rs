//! One tick of the whole match: who drives, what meets what, and what a goal
//! does.

use vstd::prelude::*;
use crate::ai;
use crate::ball::Ball;
use crate::car;
use crate::car::Car;
use crate::contact;
use crate::contact::car_contact;
use crate::drive;
use crate::flight;
use crate::flight::{fly, roll_on, Team, BAR_CLEAR, MOUTH_CLEAR, OVER_LINE};
use crate::num;
use crate::num::{abs_i32, clamp_i32, isqrt_i32, min_i32, mul_div, mul_shift12};
use crate::pads;
use crate::pads::{Pad, PAD_COUNT};
use crate::place;
use crate::sim::Sim;
use crate::trig::{Angles, Trig};
use crate::tuning::{BOOST_MAX, BUMP_COOL, CAR_R, DEMO_RESPAWN, GOAL_BLAST, GOAL_BLAST_R};
use crate::tuning::{GOAL_BLAST_UP, GOAL_FREEZE_TICKS};
use crate::vec3;
use crate::vec3::{add_scaled, V3};

verus! {

// ---- pads --------------------------------------------------------------

/// A car drives over a pad it has room for.
pub open spec fn takes(c: Car, pad: Pad) -> bool {
    let reach = (pad.reach() + CAR_R) * 64;
    &&& !c.is_wrecked()
    &&& num::abs(c.p.x - pad.x * 64) < reach
    &&& num::abs(c.p.z - pad.z * 64) < reach
    &&& c.boost < BOOST_MAX
}

/// A car with a pad's boost in its tank.
pub open spec fn refuelled(c: Car, pad: Pad) -> Car {
    Car { boost: num::min(c.boost + pad.gift(), BOOST_MAX as int) as i32, ..c }
}

/// The timers with one of them set.
pub open spec fn timer_set(timers: [u16; 34], i: int, ticks: int) -> [u16; 34] {
    pads::timers_of(timers@.update(i, ticks as u16))
}

/// The match after one pad's tick: it counts down, or the first car over it
/// takes it.
pub open spec fn pad_stepped(s: Sim, i: int) -> Sim {
    let pad = pads::pad_at(i);
    if s.pad_timers@[i] > 0 {
        Sim { pad_timers: timer_set(s.pad_timers, i, s.pad_timers@[i] - 1), ..s }
    } else if takes(s.car, pad) {
        Sim {
            car: refuelled(s.car, pad),
            pad_timers: timer_set(s.pad_timers, i, pad.downtime()),
            pad_taken: true,
            ..s
        }
    } else if takes(s.opponent, pad) {
        Sim {
            opponent: refuelled(s.opponent, pad),
            pad_timers: timer_set(s.pad_timers, i, pad.downtime()),
            pad_taken: true,
            ..s
        }
    } else {
        s
    }
}

/// The match after the first `n` pads' tick.
pub open spec fn padded(s: Sim, n: nat) -> Sim
    decreases n,
{
    if n == 0 {
        s
    } else {
        pad_stepped(padded(s, (n - 1) as nat), n - 1)
    }
}

fn over_pad(c: &Car, pad: &Pad) -> (r: bool)
    requires
        c.p.within(0x4000_0000),
        -3584 <= pad.x <= 3584,
        -4240 <= pad.z <= 4240,
    ensures
        r == takes(*c, *pad),
{
    let reach: i32 = (pad.radius() + CAR_R) * 64;
    !c.wrecked() && abs_i32(c.p.x - pad.x * 64) < reach && abs_i32(c.p.z - pad.z * 64) < reach
        && c.boost < BOOST_MAX
}

fn refuel(c: &mut Car, pad: &Pad)
    requires
        0 <= old(c).boost <= BOOST_MAX,
    ensures
        *final(c) == refuelled(*old(c), *pad),
        0 <= final(c).boost <= BOOST_MAX,
{
    c.boost = min_i32(c.boost + pad.payout(), BOOST_MAX);
}

/// Everything but the pads, the tanks and the pickup flag is as it was.
pub open spec fn only_refuelled(a: Sim, b: Sim) -> bool {
    b == (Sim {
        car: Car { boost: b.car.boost, ..a.car },
        opponent: Car { boost: b.opponent.boost, ..a.opponent },
        pad_timers: b.pad_timers,
        pad_taken: b.pad_taken,
        ..a
    })
}

/// The pads change nothing but the tanks, which they never overfill, the timers
/// and the pickup flag.
pub proof fn law_pads_only_refuel(s: Sim, n: nat)
    requires
        s.car.valid(),
        s.opponent.valid(),
    ensures
        only_refuelled(s, padded(s, n)),
        padded(s, n).car.valid(),
        padded(s, n).opponent.valid(),
        padded(s, n).car.boost >= s.car.boost,
        padded(s, n).opponent.boost >= s.opponent.boost,
    decreases n,
{
    if n > 0 {
        law_pads_only_refuel(s, (n - 1) as nat);
    }
}

/// The timers with one of them set.
fn set_timer(timers: [u16; 34], i: usize, ticks: u16) -> (r: [u16; 34])
    requires
        i < 34,
    ensures
        r == timer_set(timers, i as int, ticks as int),
{
    let mut next = timers;
    next[i] = ticks;
    proof {
        pads::lemma_timers(next);
    }
    next
}

impl Sim {
    /// One pad's tick.
    fn tick_pad(&mut self, i: usize)
        requires
            i < 34,
            old(self).car.valid(),
            old(self).opponent.valid(),
            old(self).car.p.within(0x4000_0000),
            old(self).opponent.p.within(0x4000_0000),
        ensures
            *final(self) == pad_stepped(*old(self), i as int),
    {
        let pad = Pad::at(i);
        let left: u16 = self.pad_timers[i];
        if left > 0 {
            self.pad_timers = set_timer(self.pad_timers, i, left - 1);
        } else if over_pad(&self.car, &pad) {
            refuel(&mut self.car, &pad);
            self.pad_timers = set_timer(self.pad_timers, i, pad.respawn());
            self.pad_taken = true;
        } else if over_pad(&self.opponent, &pad) {
            refuel(&mut self.opponent, &pad);
            self.pad_timers = set_timer(self.pad_timers, i, pad.respawn());
            self.pad_taken = true;
        }
    }

    /// Run the boost pads down and hand out what anybody drove over.
    pub fn tick_pads(&mut self)
        requires
            old(self).car.valid(),
            old(self).opponent.valid(),
            old(self).car.p.within(0x4000_0000),
            old(self).opponent.p.within(0x4000_0000),
        ensures
            *final(self) == padded(*old(self), 34),
    {
        let ghost start = *self;
        let mut i: usize = 0;
        while i < PAD_COUNT
            invariant
                i <= 34,
                *self == padded(start, i as nat),
                start.car.valid(),
                start.opponent.valid(),
                start.car.p.within(0x4000_0000),
                start.opponent.p.within(0x4000_0000),
            decreases 34 - i,
        {
            proof {
                law_pads_only_refuel(start, i as nat);
            }
            self.tick_pad(i);
            i = i + 1;
        }
    }
}

// ---- goals -------------------------------------------------------------

/// How far a car is from a blast, in uu.
pub open spec fn blast_gap(c: Car, blast: V3) -> V3 {
    vec3::v3(
        (c.p.x - blast.x) / 64,
        (c.p.y - blast.y) / 64,
        (c.p.z - blast.z) / 64,
    )
}

/// How much of a blast is left at this distance, Q12: all of it at the centre,
/// none at the edge.
pub open spec fn blast_share(dist: int) -> int {
    ((GOAL_BLAST_R - dist) * 4096) / (GOAL_BLAST_R as int)
}

/// A car thrown by a goal blast: outward, upward, and off its wheels. A wreck,
/// or a car out of reach, is left alone.
pub open spec fn blasted(c: Car, blast: V3) -> Car {
    let d = blast_gap(c, blast);
    let dist = d.length();
    if c.is_wrecked() || dist >= GOAL_BLAST_R {
        c
    } else {
        let share = blast_share(dist);
        let dir = if dist == 0 {
            drive::world_up()
        } else {
            d.unit()
        };
        let out = vec3::added(c.v, dir, (GOAL_BLAST * share) / 4096);
        car::settled(
            Car {
                v: vec3::added(out, drive::world_up(), (GOAL_BLAST_UP * share) / 4096),
                grounded: false,
                ..c
            },
        )
    }
}

/// Where a goal is measured from: the ball, brought back to the line it crossed.
pub open spec fn blast_point(b: Ball) -> V3 {
    V3 { z: num::clamp(b.p.z as int, -327_680, 327_680) as i32, ..b.p }
}

/// There is room to count this goal, if it is one.
pub open spec fn room_to_score(s: Sim, goal: Option<Team>) -> bool {
    match goal {
        Some(Team::Blue) => s.score_blue < u16::MAX,
        Some(Team::Orange) => s.score_orange < u16::MAX,
        None => true,
    }
}

/// The match after a goal: counted, celebrated, and felt.
pub open spec fn scored(s: Sim, team: Team) -> Sim {
    let blast = blast_point(s.ball);
    Sim {
        score_blue: if team == Team::Blue {
            (s.score_blue + 1) as u16
        } else {
            s.score_blue
        },
        score_orange: if team == Team::Orange {
            (s.score_orange + 1) as u16
        } else {
            s.score_orange
        },
        last_scorer: team,
        goal_freeze: GOAL_FREEZE_TICKS,
        ball: Ball { v: vec3::zero3(), w: vec3::zero3(), ..s.ball },
        car: blasted(s.car, blast),
        opponent: blasted(s.opponent, blast),
        ..s
    }
}

fn blow(c: &mut Car, blast: V3)
    requires
        old(c).p.within(0x3000_0000),
        old(c).v.within(0x800_0000),
        blast.within(0x3000_0000),
    ensures
        *final(c) == blasted(*old(c), blast),
        old(c).valid() ==> final(c).valid(),
        final(c).p == old(c).p,
        final(c).up == old(c).up,
        final(c).is_wrecked() == old(c).is_wrecked(),
{
    if c.wrecked() {
        return ;
    }
    let d = V3::new(
        ai::to_uu(c.p.x - blast.x),
        ai::to_uu(c.p.y - blast.y),
        ai::to_uu(c.p.z - blast.z),
    );
    let dist: i32 = d.len();
    if dist >= GOAL_BLAST_R {
        return ;
    }
    let share: i32 = (GOAL_BLAST_R - dist) * 4096 / GOAL_BLAST_R;
    let up = V3::new(0, 4096, 0);
    let dir = if dist == 0 {
        up
    } else {
        d.unit_q12()
    };
    add_scaled(&mut c.v, dir, mul_shift12(GOAL_BLAST, share));
    add_scaled(&mut c.v, up, mul_shift12(GOAL_BLAST_UP, share));
    c.grounded = false;
    c.clear_jump_state();
}

impl Sim {
    /// A goal: count it, start the celebration, and throw every car away from
    /// the line the ball crossed.
    pub fn score(&mut self, team: Team)
        requires
            room_to_score(*old(self), Some(team)),
            old(self).ball.p.within(0x3000_0000),
            old(self).car.p.within(0x3000_0000),
            old(self).opponent.p.within(0x3000_0000),
            old(self).car.v.within(0x800_0000),
            old(self).opponent.v.within(0x800_0000),
        ensures
            *final(self) == scored(*old(self), team),
            old(self).car.valid() ==> final(self).car.valid(),
            old(self).opponent.valid() ==> final(self).opponent.valid(),
    {
        match team {
            Team::Blue => {
                self.score_blue = self.score_blue + 1;
            },
            Team::Orange => {
                self.score_orange = self.score_orange + 1;
            },
        }
        self.last_scorer = team;
        self.goal_freeze = GOAL_FREEZE_TICKS;
        let blast = V3::new(
            self.ball.p.x,
            self.ball.p.y,
            clamp_i32(self.ball.p.z, -327_680, 327_680),
        );
        self.ball.v = V3::zero();
        self.ball.w = V3::zero();
        blow(&mut self.car, blast);
        blow(&mut self.opponent, blast);
    }
}

// ---- the ball's tick ---------------------------------------------------

/// The match after the ball's tick: flight, the goal it may score, and the roll
/// it is drawn with.
#[verifier::opaque]
pub open spec fn ball_ticked(t: Angles, s: Sim, gravity: int) -> Sim {
    let flown = Sim { ball: flight::flown(s.ball, gravity), ..s };
    landed(t, flown, flight::goal_by(s.ball, gravity))
}

/// The match after the goal that the ball's flight may have scored, and its roll.
pub open spec fn landed(t: Angles, s: Sim, goal: Option<Team>) -> Sim {
    let after = match goal {
        Some(team) => scored(s, team),
        None => s,
    };
    Sim { ball: flight::rolled(t, after.ball), ..after }
}

impl Sim {
    /// Whether there is room to count this goal, if it is one.
    pub fn can_score(&self, goal: Option<Team>) -> (r: bool)
        ensures
            r == room_to_score(*self, goal),
    {
        match goal {
            Some(Team::Blue) => self.score_blue < 65535,
            Some(Team::Orange) => self.score_orange < 65535,
            None => true,
        }
    }

    /// Score the goal, if it is one, and roll the drawn ball.
    pub fn land_ball<F: Fn(i32, i32) -> u16>(&mut self, trig: &Trig<F>, goal: Option<Team>)
        requires
            trig.wf(),
            room_to_score(*old(self), goal),
            old(self).ball.p.within(0x3000_0000),
            old(self).ball.w.z > i32::MIN,
            old(self).car.p.within(0x3000_0000),
            old(self).car.v.within(0x800_0000),
            old(self).opponent.p.within(0x3000_0000),
            old(self).opponent.v.within(0x800_0000),
        ensures
            *final(self) == landed(trig.model(), *old(self), goal),
            old(self).valid() ==> final(self).valid(),
    {
        if let Some(team) = goal {
            self.score(team);
        }
        roll_on(trig, &mut self.ball);
    }

    /// Fly the ball, and score if it went in.
    pub fn tick_ball<F: Fn(i32, i32) -> u16>(&mut self, trig: &Trig<F>, gravity: i32)
        requires
            trig.wf(),
            old(self).valid(),
            flight::can_fly(old(self).ball, gravity as int),
            room_to_score(*old(self), flight::goal_by(old(self).ball, gravity as int)),
            old(self).car.p.within(0x3000_0000),
            old(self).car.v.within(0x800_0000),
            old(self).opponent.p.within(0x3000_0000),
            old(self).opponent.v.within(0x800_0000),
            -1_000_000 <= gravity <= 1_000_000,
        ensures
            *final(self) == ball_ticked(trig.model(), *old(self), gravity as int),
            final(self).valid(),
            final(self).score_blue == old(self).score_blue + if final(self).ball.p.z > OVER_LINE {
                1int
            } else {
                0int
            },
            final(self).score_orange == old(self).score_orange + if final(self).ball.p.z
                < -OVER_LINE {
                1int
            } else {
                0int
            },
            final(self).ball.p.z > OVER_LINE || final(self).ball.p.z < -OVER_LINE ==> num::abs(
                final(self).ball.p.x as int,
            ) < MOUTH_CLEAR && final(self).ball.p.y < BAR_CLEAR,
    {
        proof {
            place::law_a_goal_is_over_the_line(self.ball, gravity as int);
        }
        let goal = fly(&mut self.ball, gravity);
        self.land_ball(trig, goal);
        proof {
            reveal(ball_ticked);
        }
    }
}

// ---- cars against cars -------------------------------------------------

/// A wreck: stopped where it stood, with everything but its pose cleared.
pub open spec fn wreck(c: Car) -> Car {
    Car { p: c.p, yaw: c.yaw, up: c.up, demo_timer: DEMO_RESPAWN, ..car::blank_car() }
}

/// A car lifted off its wheels by a shove.
pub open spec fn shoved(c: Car, push: V3) -> Car {
    Car { v: vec3::add3(c.v, push), grounded: false, ..c }
}

/// The sum of two vectors fits their components.
pub open spec fn fit_together(a: V3, b: V3) -> bool {
    &&& i32::MIN <= a.x + b.x <= i32::MAX
    &&& i32::MIN <= a.y + b.y <= i32::MAX
    &&& i32::MIN <= a.z + b.z <= i32::MAX
}

/// A hit landed on one team's car: wrecked, or shoved.
pub open spec fn hit_landed(s: Sim, hit: (bool, V3), victim: Team) -> Sim {
    match victim {
        Team::Blue => if hit.0 {
            Sim { car: wreck(s.car), demo: true, ..s }
        } else {
            Sim { car: shoved(s.car, hit.1), ..s }
        },
        Team::Orange => if hit.0 {
            Sim { opponent: wreck(s.opponent), demo: true, ..s }
        } else {
            Sim { opponent: shoved(s.opponent, hit.1), ..s }
        },
    }
}

/// What the player's car does to the opponent this tick.
pub open spec fn blue_ram(t: Angles, s: Sim) -> Option<(bool, V3)> {
    if s.car.bump_cool == 0 {
        contact::rammed(t, s.car, s.opponent)
    } else {
        None
    }
}

/// What the opponent does to the player's car this tick.
pub open spec fn orange_ram(t: Angles, s: Sim) -> Option<(bool, V3)> {
    if s.opponent.bump_cool == 0 {
        contact::rammed(t, s.opponent, s.car)
    } else {
        None
    }
}

/// Both hits landed, each read off the same state: a genuine head-on wrecks both
/// cars.
pub open spec fn traded(t: Angles, s: Sim) -> Sim {
    let after = match blue_ram(t, s) {
        Some(hit) => hit_landed(
            Sim { car: Car { bump_cool: BUMP_COOL, ..s.car }, ..s },
            hit,
            Team::Orange,
        ),
        None => s,
    };
    match orange_ram(t, s) {
        Some(hit) => hit_landed(
            Sim { opponent: Car { bump_cool: BUMP_COOL, ..after.opponent }, ..after },
            hit,
            Team::Blue,
        ),
        None => after,
    }
}

/// Two live cars overlap in plan.
pub open spec fn overlapping(s: Sim) -> bool {
    let dx = s.opponent.p.x - s.car.p.x;
    let dz = s.opponent.p.z - s.car.p.z;
    let dist = num::root(dx * dx + dz * dz);
    &&& !s.car.is_wrecked()
    &&& !s.opponent.is_wrecked()
    &&& num::abs(dx) < contact::CAR_REACH
    &&& num::abs(dz) < contact::CAR_REACH
    &&& 0 < dist < contact::CAR_REACH
}

/// How far each car is moved along one axis to separate them.
pub open spec fn parting(d: int, dist: int) -> int {
    (num::tdiv(d * 4096, dist) * ((contact::CAR_REACH - dist) / 2)) / 4096
}

/// The cars moved apart, if they overlap.
pub open spec fn separated(s: Sim) -> Sim {
    if overlapping(s) {
        let dx = s.opponent.p.x - s.car.p.x;
        let dz = s.opponent.p.z - s.car.p.z;
        let dist = num::root(dx * dx + dz * dz);
        let (px, pz) = (parting(dx, dist), parting(dz, dist));
        Sim {
            car: Car {
                p: vec3::v3(s.car.p.x - px, s.car.p.y as int, s.car.p.z - pz),
                ..s.car
            },
            opponent: Car {
                p: vec3::v3(s.opponent.p.x + px, s.opponent.p.y as int, s.opponent.p.z + pz),
                ..s.opponent
            },
            ..s
        }
    } else {
        s
    }
}

/// The match after the cars have met. A wreck is not on the pitch to be hit.
#[verifier::opaque]
pub open spec fn cars_met(t: Angles, s: Sim) -> Sim {
    if s.car.is_wrecked() || s.opponent.is_wrecked() {
        s
    } else {
        separated(traded(t, s))
    }
}

/// How far each car is moved along one axis to separate them.
fn part(d: i32, dist: i32) -> (r: i32)
    requires
        0 < dist < contact::CAR_REACH,
        -dist <= d <= dist,
    ensures
        r == parting(d as int, dist as int),
        -6000 <= r <= 6000,
{
    let half: i32 = (contact::CAR_REACH - dist) / 2;
    proof {
        num::lemma_tdiv_bound(d * 4096, dist as int, 4096);
    }
    let n: i32 = mul_div(d, 4096, dist);
    proof {
        num::lemma_mul_bound(n as int, half as int, 4096, 5376);
    }
    mul_shift12(n, half)
}

impl Sim {
    /// Land a car-on-car hit on `victim`: wreck them where they stood, or shove
    /// them.
    pub fn apply_hit(&mut self, hit: (bool, V3), victim: Team)
        requires
            hit.0 || match victim {
                Team::Blue => fit_together(old(self).car.v, hit.1),
                Team::Orange => fit_together(old(self).opponent.v, hit.1),
            },
        ensures
            *final(self) == hit_landed(*old(self), hit, victim),
            old(self).car.valid() ==> final(self).car.valid(),
            old(self).opponent.valid() ==> final(self).opponent.valid(),
    {
        let (wrecks, push): (bool, V3) = hit;
        let blank = Car::default();
        let c = match victim {
            Team::Blue => self.car,
            Team::Orange => self.opponent,
        };
        let after = if wrecks {
            Car { p: c.p, yaw: c.yaw, up: c.up, demo_timer: DEMO_RESPAWN, ..blank }
        } else {
            let v = vec3::plus(c.v, push);
            Car { v, grounded: false, ..c }
        };
        match victim {
            Team::Blue => {
                self.car = after;
            },
            Team::Orange => {
                self.opponent = after;
            },
        }
        if wrecks {
            self.demo = true;
        }
    }

    /// Move two overlapping cars apart.
    fn separate(&mut self)
        requires
            old(self).car.p.within(0x1000_0000),
            old(self).opponent.p.within(0x1000_0000),
        ensures
            *final(self) == separated(*old(self)),
            old(self).car.valid() ==> final(self).car.valid(),
            old(self).opponent.valid() ==> final(self).opponent.valid(),
    {
        let dx: i32 = self.opponent.p.x - self.car.p.x;
        let dz: i32 = self.opponent.p.z - self.car.p.z;
        if abs_i32(dx) >= contact::CAR_REACH || abs_i32(dz) >= contact::CAR_REACH
            || self.car.wrecked() || self.opponent.wrecked() {
            return ;
        }
        proof {
            num::lemma_mul_bound(dx as int, dx as int, 10752, 10752);
            num::lemma_mul_bound(dz as int, dz as int, 10752, 10752);
            assert(dx * dx >= 0 && dz * dz >= 0) by (nonlinear_arith);
        }
        let dist: i32 = isqrt_i32(dx * dx + dz * dz);
        if dist >= contact::CAR_REACH || dist == 0 {
            return ;
        }
        proof {
            num::lemma_root_covers(dist as int, dx * dx + dz * dz, dx as int);
            num::lemma_root_covers(dist as int, dx * dx + dz * dz, dz as int);
        }
        let px: i32 = part(dx, dist);
        let pz: i32 = part(dz, dist);
        self.car.p.x = self.car.p.x - px;
        self.car.p.z = self.car.p.z - pz;
        self.opponent.p.x = self.opponent.p.x + px;
        self.opponent.p.z = self.opponent.p.z + pz;
    }

    /// Land whatever hits the cars have on each other.
    fn trade_hits<F: Fn(i32, i32) -> u16>(&mut self, trig: &Trig<F>)
        requires
            trig.wf(),
            old(self).car.can_clash(),
            old(self).opponent.can_clash(),
        ensures
            *final(self) == traded(trig.model(), *old(self)),
            old(self).car.valid() ==> final(self).car.valid(),
            old(self).opponent.valid() ==> final(self).opponent.valid(),
            final(self).car.p.within(0x1000_0000),
            final(self).opponent.p.within(0x1000_0000),
    {
        let mine = if self.car.bump_cool == 0 {
            car_contact(trig, &self.car, &self.opponent)
        } else {
            None
        };
        let theirs = if self.opponent.bump_cool == 0 {
            car_contact(trig, &self.opponent, &self.car)
        } else {
            None
        };
        if let Some(hit) = mine {
            self.car.bump_cool = BUMP_COOL;
            self.apply_hit(hit, Team::Orange);
        }
        if let Some(hit) = theirs {
            self.opponent.bump_cool = BUMP_COOL;
            self.apply_hit(hit, Team::Blue);
        }
    }

    /// Cars run into each other: a shove if you arrive fast, a demolition if
    /// you arrive supersonic, and either way not sharing the same patch of
    /// pitch.
    pub fn collide_cars<F: Fn(i32, i32) -> u16>(&mut self, trig: &Trig<F>)
        requires
            trig.wf(),
            old(self).car.can_clash(),
            old(self).opponent.can_clash(),
        ensures
            *final(self) == cars_met(trig.model(), *old(self)),
            old(self).car.valid() ==> final(self).car.valid(),
            old(self).opponent.valid() ==> final(self).opponent.valid(),
    {
        proof {
            reveal(cars_met);
        }
        if self.car.wrecked() || self.opponent.wrecked() {
            return ;
        }
        self.trade_hits(trig);
        self.separate();
    }
}

} // verus!
