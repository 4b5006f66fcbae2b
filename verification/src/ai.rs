//! The opponent: what it drives at, and how.
//!
//! It picks a target and holds it until something specific retires it, so it
//! commits to going round the ball rather than changing its mind every tick.

use vstd::prelude::*;
use crate::car;
use crate::car::{fits, Input, SPEED_LIMIT};
use crate::num;
use crate::num::{abs_i32, clamp_i32, isqrt_i32, max_i32, min_i32, mul_shift12};
use crate::pads;
use crate::pads::{Pad, PAD_COUNT};
use crate::sim::{AiTarget, Sim};
use crate::trig::{Angles, Trig};
use crate::tuning::{AI_ALIGN_ANY, AI_ALIGN_ASTERN, AI_ALIGN_BOOST, AI_ALIGN_SLIDE};
use crate::tuning::{AI_APPROACH_RADIUS, AI_ARRIVED_BOOST, AI_ARRIVED_POSITION};
use crate::tuning::{AI_BALL_TARGET_RADIUS, AI_BOOST_ENOUGH, AI_BOOST_LOW, AI_ESCAPE_TICKS};
use crate::tuning::{AI_FORWARDING_RADIUS, AI_GOAL_BIAS, AI_KICKOFF_BOOST_GAP, AI_REVERSE_GAP};
use crate::tuning::{AI_SLIDE_CRAWL, AI_TARGET_TIMEOUT, AI_THROTTLE_RAMP, BALL_R, BOOST_SCALE};
use crate::tuning::{GRAVITY_DEN, GRAVITY_NUM, HALF_X, HALF_Z, SUPERSONIC_SPEED};
use crate::vec3;

verus! {

/// How far across a scattered target is allowed to be, in sub-units.
pub const KEEP_X: i32 = 235_904;
/// How far along a scattered target is allowed to be, in sub-units.
pub const KEEP_Z: i32 = 294_848;
/// Half the quarter pipe's height, in sub-units: past it a car is up a wall.
pub const UP_A_WALL: i32 = 8320;
/// Ball height, in sub-units, that a car on the floor cannot touch past.
pub const HEAD_HEIGHT: i32 = 11200;
/// A car further along than this, in sub-units, is still on its kickoff line.
pub const KICKOFF_LINE: i32 = 256_000;
/// Twice the numerator of the gravity rational.
pub const GRAVITY_TWICE: i32 = 208;
/// The widest position component the opponent reckons with, in sub-units: past
/// it a squared distance in uu is too wide for a machine word.
pub const AI_FIELD: i32 = 1_000_000;
/// The goal lines, in sub-units.
pub const GOAL_LINE: i32 = 327_680;

/// A target names a pad that exists, or a spot near the pitch.
pub open spec fn target_exists(t: AiTarget) -> bool {
    match t {
        AiTarget::Boost(i) => i < 34,
        AiTarget::Position(x, z) => {
            &&& -AI_FIELD <= x <= AI_FIELD
            &&& -AI_FIELD <= z <= AI_FIELD
        },
        _ => true,
    }
}

// ---- measuring ---------------------------------------------------------

/// Horizontal distance over these offsets.
pub open spec fn span(dx: int, dz: int) -> int {
    num::root(dx * dx + dz * dz)
}

/// How far one angle is from another, the short way round: `-32768..=32767`.
pub open spec fn angle_error(want: u16, have: u16) -> int {
    let d = (want - have) % 65536;
    if d >= 32768 {
        d - 65536
    } else {
        d
    }
}

/// Distance from the opponent to the ball, in uu, and never zero.
pub open spec fn ball_dist(s: Sim) -> int {
    num::max(
        span((s.ball.p.x - s.opponent.p.x) / 64, (s.ball.p.z - s.opponent.p.z) / 64),
        1,
    )
}

/// The opponent is between the ball and the net it is shooting at, so a touch
/// would go the wrong way.
pub open spec fn wrong_side(s: Sim) -> bool {
    num::tdiv(-((s.ball.p.z - s.opponent.p.z) / 64) * 4096, ball_dist(s)) < 0
}

/// The ball is roughly ahead of the opponent's nose.
pub open spec fn ball_ahead(t: Angles, s: Sim) -> bool {
    let want = t.atan2(s.ball.p.x - s.opponent.p.x, s.ball.p.z - s.opponent.p.z);
    num::abs(angle_error(want, s.opponent.yaw)) <= AI_ALIGN_ANY
}

/// Kickoff ball, still sitting on the spot untouched.
pub open spec fn untouched(s: Sim) -> bool {
    s.ball.p.x == 0 && s.ball.p.z == 0 && s.ball.v == vec3::zero3()
}

/// Distance from the opponent to a held target, in uu.
pub open spec fn target_gap(s: Sim) -> int {
    let p = s.opponent.p;
    match s.ai_target {
        AiTarget::Unset => 0,
        AiTarget::Ball => ball_dist(s),
        AiTarget::Boost(i) => span(
            pads::pad_at(i as int).x - (p.x as int) / 64,
            pads::pad_at(i as int).z - (p.z as int) / 64,
        ),
        AiTarget::Position(x, z) => span((x - p.x) / 64, (z - p.z) / 64),
    }
}

/// Horizontal distance over these offsets.
fn span_of(dx: i32, dz: i32) -> (r: i32)
    requires
        -32000 <= dx <= 32000,
        -32000 <= dz <= 32000,
    ensures
        r == span(dx as int, dz as int),
        0 <= r <= 46340,
{
    proof {
        num::lemma_mul_bound(dx as int, dx as int, 32000, 32000);
        num::lemma_mul_bound(dz as int, dz as int, 32000, 32000);
        assert(dx * dx >= 0 && dz * dz >= 0) by (nonlinear_arith);
    }
    isqrt_i32(dx * dx + dz * dz)
}

/// Sub-units to uu, rounded down.
pub fn to_uu(x: i32) -> (r: i32)
    ensures
        r == (x as int) / 64,
{
    assert(x >> 6 == x / 64) by (bit_vector);
    x >> 6
}

/// How far one angle is from another, the short way round.
fn error_of(want: u16, have: u16) -> (r: i32)
    ensures
        r == angle_error(want, have),
        -32768 <= r <= 32767,
{
    let d: i32 = want as i32 - have as i32;
    let folded: i32 = if d < 0 {
        d + 65536
    } else {
        d
    };
    if folded >= 32768 {
        folded - 65536
    } else {
        folded
    }
}

// ---- chance ------------------------------------------------------------

/// One step of a 32-bit xorshift generator.
pub open spec fn shuffled(x: u32) -> u32 {
    let a = x ^ (x << 13);
    let b = a ^ (a >> 17);
    b ^ (b << 5)
}

/// The generator never reaches zero, which would stick it.
pub proof fn law_generator_never_sticks(x: u32)
    requires
        x != 0,
    ensures
        shuffled(x) != 0,
{
    let a = x ^ (x << 13);
    assert(x != 0 ==> (x ^ (x << 13u32)) != 0) by (bit_vector);
    let b = a ^ (a >> 17);
    assert(a != 0 ==> (a ^ (a >> 17u32)) != 0) by (bit_vector);
    assert(b != 0 ==> (b ^ (b << 5u32)) != 0) by (bit_vector);
}

/// A scattered point: where it is, and what the generator is left at.
pub open spec fn scattered(t: Angles, rng: u32, cx: int, cz: int, radius: int) -> (int, int, u32) {
    let first = shuffled(rng);
    let second = shuffled(first);
    let angle = (first % 4096) as u16;
    let reach = (second as int) % radius;
    (
        num::clamp(cx + ((t.cos(angle) * reach) / 4096) * 64, -KEEP_X as int, KEEP_X as int),
        num::clamp(cz + ((t.sin(angle) * reach) / 4096) * 64, -KEEP_Z as int, KEEP_Z as int),
        second,
    )
}

// ---- choosing ----------------------------------------------------------

/// The held target, whose age counts this tick, has stopped being the plan.
pub open spec fn retired(t: Angles, s: Sim) -> bool {
    let age = num::min(s.ai_target_ticks + 1, 65535);
    let spent = match s.ai_target {
        AiTarget::Unset => true,
        AiTarget::Ball => wrong_side(s),
        AiTarget::Boost(i) => {
            ||| num::tdiv(s.opponent.boost as int, BOOST_SCALE as int) >= AI_BOOST_ENOUGH
            ||| age >= AI_TARGET_TIMEOUT
            ||| target_gap(s) < AI_ARRIVED_BOOST
            ||| s.pad_timers@[i as int] > 0
        },
        AiTarget::Position(_, _) => age >= AI_TARGET_TIMEOUT || target_gap(s) < AI_ARRIVED_POSITION,
    };
    spent || shot_on(t, s)
}

/// The ball is right there, on the correct side, roughly ahead, and not already
/// the target.
pub open spec fn shot_on(t: Angles, s: Sim) -> bool {
    &&& s.ai_target != AiTarget::Ball
    &&& !wrong_side(s)
    &&& ball_dist(s) <= AI_BALL_TARGET_RADIUS
    &&& ball_ahead(t, s)
}

/// A big pad that is up.
pub open spec fn pad_up(timers: Seq<u16>, i: int) -> bool {
    pads::pad_at(i).big && timers[i] == 0
}

/// Squared distance to a pad, in uu.
pub open spec fn pad_gap(i: int, cx: int, cz: int) -> int {
    let dx = pads::pad_at(i).x - cx;
    let dz = pads::pad_at(i).z - cz;
    dx * dx + dz * dz
}

/// `i` is the nearest big pad that is up among the first `n`, the earliest where
/// several are equally near; nothing where none is up.
pub open spec fn nearest_up(timers: Seq<u16>, cx: int, cz: int, n: int, best: Option<u8>) -> bool {
    match best {
        Some(b) => {
            &&& 0 <= b < n
            &&& pad_up(timers, b as int)
            &&& forall|j: int|
                0 <= j < n && #[trigger] pad_up(timers, j) ==> if j < b {
                    pad_gap(b as int, cx, cz) < pad_gap(j, cx, cz)
                } else {
                    pad_gap(b as int, cx, cz) <= pad_gap(j, cx, cz)
                }
        },
        None => forall|j: int| 0 <= j < n ==> !#[trigger] pad_up(timers, j),
    }
}

/// The nearest big pad that is up, from this place.
pub open spec fn closest_from(timers: Seq<u16>, cx: int, cz: int) -> Option<u8> {
    choose|best: Option<u8>| nearest_up(timers, cx, cz, 34, best)
}

/// The big pad nearest to the opponent that is up.
pub open spec fn closest_pad(s: Sim) -> Option<u8> {
    closest_from(s.pad_timers@, (s.opponent.p.x as int) / 64, (s.opponent.p.z as int) / 64)
}

/// There is only one nearest pad.
proof fn lemma_nearest_unique(
    timers: Seq<u16>,
    cx: int,
    cz: int,
    n: int,
    a: Option<u8>,
    b: Option<u8>,
)
    requires
        nearest_up(timers, cx, cz, n, a),
        nearest_up(timers, cx, cz, n, b),
    ensures
        a == b,
{
    match (a, b) {
        (Some(x), Some(y)) => {
            assert(pad_up(timers, x as int) && pad_up(timers, y as int));
        },
        (Some(x), None) => {
            assert(pad_up(timers, x as int));
        },
        (None, Some(y)) => {
            assert(pad_up(timers, y as int));
        },
        (None, None) => {},
    }
}

/// A spot on the shooting side of the ball: the target, and what the generator
/// is left at.
pub open spec fn beyond_ball(t: Angles, s: Sim, radius: int) -> (AiTarget, u32) {
    let (x, z, rng) = scattered(
        t,
        s.ai_rng,
        s.ball.p.x as int,
        s.ball.p.z + radius * 64,
        radius,
    );
    (AiTarget::Position(x as i32, z as i32), rng)
}

/// What the opponent picks once its plan is retired, and what the generator is
/// left at.
pub open spec fn picked(t: Angles, s: Sim) -> (AiTarget, u32) {
    if untouched(s) && num::abs(s.opponent.p.z as int) > KICKOFF_LINE {
        (AiTarget::Ball, s.ai_rng)
    } else if wrong_side(s) {
        beyond_ball(t, s, AI_FORWARDING_RADIUS as int)
    } else if ball_dist(s) <= AI_BALL_TARGET_RADIUS {
        (AiTarget::Ball, s.ai_rng)
    } else if num::tdiv(s.opponent.boost as int, BOOST_SCALE as int) < AI_BOOST_LOW {
        match closest_pad(s) {
            Some(i) => (AiTarget::Boost(i), s.ai_rng),
            None => (AiTarget::Ball, s.ai_rng),
        }
    } else {
        beyond_ball(t, s, AI_APPROACH_RADIUS as int)
    }
}

/// The match with the opponent's target looked at for one tick: held, or
/// replaced.
pub open spec fn targeted(t: Angles, s: Sim) -> Sim {
    if retired(t, s) {
        Sim { ai_target: picked(t, s).0, ai_target_ticks: 0, ai_rng: picked(t, s).1, ..s }
    } else {
        Sim { ai_target_ticks: num::min(s.ai_target_ticks + 1, 65535) as u16, ..s }
    }
}

// ---- handling ----------------------------------------------------------

/// Ticks until the ball can be met: falling back to head height when it is up,
/// closing the gap when it is down.
pub open spec fn lead_ticks(s: Sim) -> int {
    let drop = s.ball.p.y - HEAD_HEIGHT;
    if drop > 0 {
        let vy = s.ball.v.y as int;
        let disc = vy * vy + (GRAVITY_TWICE * drop) / (GRAVITY_DEN as int);
        num::clamp(
            num::tdiv((vy + num::root(disc)) * GRAVITY_DEN, GRAVITY_NUM as int),
            0,
            120,
        )
    } else {
        let gap = span(
            (s.ball.p.x as int) / 64 - (s.opponent.p.x as int) / 64,
            (s.ball.p.z as int) / 64 - (s.opponent.p.z as int) / 64,
        );
        num::clamp(gap / 38, 0, 60)
    }
}

/// Where to meet the ball, in sub-units, kept inside the arena.
pub open spec fn ball_lead(s: Sim) -> (int, int) {
    let lead = lead_ticks(s);
    (
        num::clamp(
            (s.ball.p.x as int) / 64 + ((s.ball.v.x as int) / 64) * lead,
            -HALF_X + BALL_R,
            HALF_X - BALL_R,
        ) * 64,
        num::clamp(
            (s.ball.p.z as int) / 64 + ((s.ball.v.z as int) / 64) * lead,
            -HALF_Z + BALL_R,
            HALF_Z - BALL_R,
        ) * 64,
    )
}

/// Where the opponent drives to, in sub-units. At the ball that is a standoff on
/// the far side of it from the net being attacked, so contact sends it goalward.
pub open spec fn aim_point(s: Sim) -> (int, int) {
    match s.ai_target {
        AiTarget::Boost(i) => (pads::pad_at(i as int).x * 64, pads::pad_at(i as int).z * 64),
        AiTarget::Position(x, z) => (x as int, z as int),
        _ => {
            let (px, pz) = ball_lead(s);
            let (gx, gz) = (px / 64, pz / 64 + HALF_Z);
            let reach = num::max(span(gx, gz), 1);
            (
                px + num::tdiv(gx * AI_GOAL_BIAS, reach) * 64,
                pz + num::tdiv(gz * AI_GOAL_BIAS, reach) * 64,
            )
        },
    }
}

/// The opponent is somewhere it should back out of: past a goal line, up a wall,
/// or not yet clear of either.
pub open spec fn escaping(s: Sim) -> bool {
    misplaced(s) || s.ai_escape > 0
}

/// Past a goal line, or attached to a surface well above the floor.
pub open spec fn misplaced(s: Sim) -> bool {
    ||| num::abs(s.opponent.p.z as int) > GOAL_LINE
    ||| s.opponent.grounded && s.opponent.p.y > UP_A_WALL
}

/// Straight back.
pub open spec fn backing_out() -> Input {
    Input { throttle: (-128) as i32, ..car::no_input() }
}

/// How far the target is, in uu.
pub open spec fn aim_gap(s: Sim) -> int {
    let (tx, tz) = aim_point(s);
    span((tx - s.opponent.p.x) / 64, (tz - s.opponent.p.z) / 64)
}

/// How far off the nose the target is.
pub open spec fn aim_error(t: Angles, s: Sim) -> int {
    let (tx, tz) = aim_point(s);
    angle_error(t.atan2(tx - s.opponent.p.x, tz - s.opponent.p.z), s.opponent.yaw)
}

/// The opponent's flat speed, in uu per tick.
pub open spec fn flat_speed(s: Sim) -> int {
    span((s.opponent.v.x as int) / 64, (s.opponent.v.z as int) / 64)
}

/// Steer and throttle for the target already chosen.
pub open spec fn handled(t: Angles, s: Sim) -> Input {
    let (gap, delta, quick) = (aim_gap(s), aim_error(t, s), flat_speed(s));
    let at_ball = s.ai_target == AiTarget::Ball;
    if escaping(s) || (gap < AI_REVERSE_GAP && num::abs(delta) > AI_ALIGN_ASTERN) {
        backing_out()
    } else {
        Input {
            throttle: if at_ball || s.ai_target == AiTarget::Unset {
                128
            } else {
                num::clamp((gap * 128) / (AI_THROTTLE_RAMP as int), 24, 128) as i32
            },
            steer: num::clamp(
                num::tdiv(
                    delta * (128 - num::min((quick * 64) / (SUPERSONIC_SPEED as int), 64)),
                    256,
                ),
                -128,
                128,
            ) as i32,
            boost: at_ball && num::abs(delta) <= AI_ALIGN_BOOST && (!untouched(s) || gap
                < AI_KICKOFF_BOOST_GAP),
            handbrake: num::abs(delta) > AI_ALIGN_SLIDE || quick < AI_SLIDE_CRAWL,
            ..car::no_input()
        }
    }
}

/// The match with the escape armed while the opponent is misplaced, and running
/// down afterwards.
pub open spec fn escape_stepped(s: Sim) -> Sim {
    Sim {
        ai_escape: if misplaced(s) {
            AI_ESCAPE_TICKS
        } else {
            num::max(s.ai_escape - 1, 0) as u8
        },
        ..s
    }
}

/// The match after one tick of opponent intent.
pub open spec fn ai_stepped(t: Angles, s: Sim) -> Sim {
    targeted(t, escape_stepped(s))
}

/// What the opponent wants to do this tick.
pub open spec fn ai_input(t: Angles, s: Sim) -> Input {
    handled(t, ai_stepped(t, s))
}

impl Sim {
    /// The opponent's arithmetic fits: it and the ball are near enough for a
    /// squared distance in uu, no faster than a tick takes, and its target is
    /// somewhere.
    pub open spec fn ai_ready(self) -> bool {
        &&& self.ball.p.within(AI_FIELD as int)
        &&& self.ball.v.within(SPEED_LIMIT as int)
        &&& self.opponent.p.within(AI_FIELD as int)
        &&& self.opponent.v.within(SPEED_LIMIT as int)
        &&& target_exists(self.ai_target)
    }

    /// Whether the opponent's arithmetic fits.
    pub fn can_drive_ai(&self) -> (r: bool)
        ensures
            r == self.ai_ready(),
    {
        let target = match self.ai_target {
            AiTarget::Boost(i) => (i as usize) < PAD_COUNT,
            AiTarget::Position(x, z) => -AI_FIELD <= x && x <= AI_FIELD && -AI_FIELD <= z && z
                <= AI_FIELD,
            _ => true,
        };
        target && fits(self.ball.p, AI_FIELD) && fits(self.ball.v, SPEED_LIMIT) && fits(
            self.opponent.p,
            AI_FIELD,
        ) && fits(self.opponent.v, SPEED_LIMIT)
    }

    /// One step of the generator. Deterministic, and never zero.
    pub fn ai_rand(&mut self) -> (r: u32)
        ensures
            r == shuffled(old(self).ai_rng),
            *final(self) == (Sim { ai_rng: r, ..*old(self) }),
    {
        let mut x: u32 = self.ai_rng;
        x = x ^ (x << 13);
        x = x ^ (x >> 17);
        x = x ^ (x << 5);
        self.ai_rng = x;
        x
    }

    /// A point somewhere inside a circle on the floor. Centre and result in
    /// sub-units, radius in uu. The scatter keeps two identical approaches from
    /// resolving the same way twice.
    pub fn ai_point_in_circle<F: Fn(i32, i32) -> u16>(
        &mut self,
        trig: &Trig<F>,
        cx: i32,
        cz: i32,
        radius: i32,
    ) -> (r: (i32, i32))
        requires
            trig.wf(),
            -0x3000_0000 <= cx <= 0x3000_0000,
            -0x3000_0000 <= cz <= 0x3000_0000,
            0 < radius <= 0x100_0000,
        ensures
            ({
                let p = scattered(
                    trig.model(),
                    old(self).ai_rng,
                    cx as int,
                    cz as int,
                    radius as int,
                );
                &&& r.0 == p.0
                &&& r.1 == p.1
                &&& *final(self) == (Sim { ai_rng: p.2, ..*old(self) })
            }),
            target_exists(AiTarget::Position(r.0, r.1)),
    {
        let first: u32 = self.ai_rand();
        assert(first & 0xFFF == first % 4096) by (bit_vector);
        let angle: u16 = (first & 0xFFF) as u16;
        let reach: i32 = (self.ai_rand() % (radius as u32)) as i32;
        let c: i32 = trig.cos_q12(angle);
        let s: i32 = trig.sin_q12(angle);
        proof {
            num::lemma_mul_bound(c as int, reach as int, 4096, 0x100_0000);
            num::lemma_mul_bound(s as int, reach as int, 4096, 0x100_0000);
        }
        let x: i32 = cx + mul_shift12(c, reach) * 64;
        let z: i32 = cz + mul_shift12(s, reach) * 64;
        (clamp_i32(x, -KEEP_X, KEEP_X), clamp_i32(z, -KEEP_Z, KEEP_Z))
    }

    /// Kickoff ball, still sitting on the spot untouched.
    pub fn untouched_kickoff(&self) -> (r: bool)
        ensures
            r == untouched(*self),
    {
        self.ball.p.x == 0 && self.ball.p.z == 0 && self.ball.v.x == 0 && self.ball.v.y == 0
            && self.ball.v.z == 0
    }

    /// Nearest big pad that is actually up, or `None` if all six are spent.
    pub fn ai_closest_big_pad(&self) -> (r: Option<u8>)
        requires
            self.opponent.p.within(AI_FIELD as int),
        ensures
            r == closest_pad(*self),
            nearest_up(
                self.pad_timers@,
                self.opponent.p.x as int / 64,
                self.opponent.p.z as int / 64,
                34,
                r,
            ),
            r matches Some(i) ==> i < 34,
    {
        let cx: i32 = to_uu(self.opponent.p.x);
        let cz: i32 = to_uu(self.opponent.p.z);
        let mut best: Option<u8> = None;
        let mut best_gap: i32 = i32::MAX;
        let mut i: usize = 0;
        while i < PAD_COUNT
            invariant
                i <= 34,
                -16000 <= cx <= 16000,
                -16000 <= cz <= 16000,
                nearest_up(self.pad_timers@, cx as int, cz as int, i as int, best),
                best matches Some(b) ==> b < 34 && best_gap == pad_gap(
                    b as int,
                    cx as int,
                    cz as int,
                ),
                best is None ==> best_gap == i32::MAX,
            decreases 34 - i,
        {
            let pad = Pad::at(i);
            let ghost was = best;
            if pad.big && self.pad_timers[i] == 0 {
                let dx: i32 = pad.x - cx;
                let dz: i32 = pad.z - cz;
                proof {
                    num::lemma_mul_bound(dx as int, dx as int, 21000, 21000);
                    num::lemma_mul_bound(dz as int, dz as int, 21000, 21000);
                }
                let gap: i32 = dx * dx + dz * dz;
                assert(pad_up(self.pad_timers@, i as int));
                assert(gap == pad_gap(i as int, cx as int, cz as int));
                if gap < best_gap {
                    best_gap = gap;
                    best = Some(i as u8);
                }
            }
            assert forall|j: int|
                0 <= j < i + 1 && #[trigger] pad_up(self.pad_timers@, j) implies best is Some
                && if j < best.unwrap() {
                pad_gap(best.unwrap() as int, cx as int, cz as int) < pad_gap(
                    j,
                    cx as int,
                    cz as int,
                )
            } else {
                pad_gap(best.unwrap() as int, cx as int, cz as int) <= pad_gap(
                    j,
                    cx as int,
                    cz as int,
                )
            } by {
                if j < i {
                    assert(was is Some);
                }
            }
            i = i + 1;
        }
        proof {
            lemma_nearest_unique(
                self.pad_timers@,
                cx as int,
                cz as int,
                34,
                best,
                closest_pad(*self),
            );
        }
        best
    }

    /// Distance from the opponent to the ball, in uu, and never zero.
    fn ai_ball_dist(&self) -> (r: i32)
        requires
            self.ai_ready(),
        ensures
            r == ball_dist(*self),
            1 <= r <= 46340,
    {
        let to_x: i32 = to_uu(self.ball.p.x - self.opponent.p.x);
        let to_z: i32 = to_uu(self.ball.p.z - self.opponent.p.z);
        max_i32(span_of(to_x, to_z), 1)
    }

    /// Whether a touch would go the wrong way.
    fn ai_wrong_side(&self) -> (r: bool)
        requires
            self.ai_ready(),
        ensures
            r == wrong_side(*self),
    {
        let to_z: i32 = to_uu(self.ball.p.z - self.opponent.p.z);
        let dist: i32 = self.ai_ball_dist();
        -to_z * 4096 / dist < 0
    }

    /// Distance from the opponent to its held target, in uu.
    fn ai_target_gap(&self) -> (r: i32)
        requires
            self.ai_ready(),
        ensures
            r == target_gap(*self),
    {
        let p = self.opponent.p;
        match self.ai_target {
            AiTarget::Unset => 0,
            AiTarget::Ball => self.ai_ball_dist(),
            AiTarget::Boost(i) => {
                let pad = Pad::at(i as usize);
                span_of(pad.x - to_uu(p.x), pad.z - to_uu(p.z))
            },
            AiTarget::Position(x, z) => span_of(to_uu(x - p.x), to_uu(z - p.z)),
        }
    }

    /// Whether the held target has stopped being the plan.
    fn ai_retired<F: Fn(i32, i32) -> u16>(&self, trig: &Trig<F>) -> (r: bool)
        requires
            trig.wf(),
            self.ai_ready(),
        ensures
            r == retired(trig.model(), *self),
    {
        let age: u16 = if self.ai_target_ticks < 65535 {
            self.ai_target_ticks + 1
        } else {
            65535
        };
        let gap: i32 = self.ai_target_gap();
        let wrong = self.ai_wrong_side();
        let spent = match self.ai_target {
            AiTarget::Unset => true,
            AiTarget::Ball => wrong,
            AiTarget::Boost(i) => self.opponent.boost / BOOST_SCALE >= AI_BOOST_ENOUGH || age
                >= AI_TARGET_TIMEOUT || gap < AI_ARRIVED_BOOST || self.pad_timers[i as usize] > 0,
            AiTarget::Position(_, _) => age >= AI_TARGET_TIMEOUT || gap < AI_ARRIVED_POSITION,
        };
        let at_ball = match self.ai_target {
            AiTarget::Ball => true,
            _ => false,
        };
        let want: u16 = trig.atan2_q12(
            self.ball.p.x - self.opponent.p.x,
            self.ball.p.z - self.opponent.p.z,
        );
        let ahead = abs_i32(error_of(want, self.opponent.yaw)) <= AI_ALIGN_ANY;
        spent || (!at_ball && !wrong && self.ai_ball_dist() <= AI_BALL_TARGET_RADIUS && ahead)
    }

    /// Pick a target, stepping the generator where the pick is scattered.
    fn ai_pick<F: Fn(i32, i32) -> u16>(&mut self, trig: &Trig<F>) -> (r: AiTarget)
        requires
            trig.wf(),
            old(self).ai_ready(),
        ensures
            r == picked(trig.model(), *old(self)).0,
            *final(self) == (Sim { ai_rng: picked(trig.model(), *old(self)).1, ..*old(self) }),
            target_exists(r),
    {
        if self.untouched_kickoff() && abs_i32(self.opponent.p.z) > KICKOFF_LINE {
            AiTarget::Ball
        } else if self.ai_wrong_side() {
            let (x, z): (i32, i32) = self.ai_point_in_circle(
                trig,
                self.ball.p.x,
                self.ball.p.z + AI_FORWARDING_RADIUS * 64,
                AI_FORWARDING_RADIUS,
            );
            AiTarget::Position(x, z)
        } else if self.ai_ball_dist() <= AI_BALL_TARGET_RADIUS {
            AiTarget::Ball
        } else if self.opponent.boost / BOOST_SCALE < AI_BOOST_LOW {
            match self.ai_closest_big_pad() {
                Some(i) => AiTarget::Boost(i),
                None => AiTarget::Ball,
            }
        } else {
            let (x, z): (i32, i32) = self.ai_point_in_circle(
                trig,
                self.ball.p.x,
                self.ball.p.z + AI_APPROACH_RADIUS * 64,
                AI_APPROACH_RADIUS,
            );
            AiTarget::Position(x, z)
        }
    }

    /// Look at the opponent's target: hold it, or pick another.
    pub fn ai_update_target<F: Fn(i32, i32) -> u16>(&mut self, trig: &Trig<F>)
        requires
            trig.wf(),
            old(self).ai_ready(),
        ensures
            *final(self) == targeted(trig.model(), *old(self)),
            final(self).ai_ready(),
    {
        if self.ai_retired(trig) {
            let target = self.ai_pick(trig);
            self.ai_target_ticks = 0;
            self.ai_target = target;
        } else if self.ai_target_ticks < 65535 {
            self.ai_target_ticks = self.ai_target_ticks + 1;
        }
    }

    /// Ticks until the ball can be met.
    fn ai_lead_ticks(&self) -> (r: i32)
        requires
            self.ai_ready(),
        ensures
            r == lead_ticks(*self),
            0 <= r <= 120,
    {
        let drop: i32 = self.ball.p.y - HEAD_HEIGHT;
        if drop > 0 {
            let vy: i32 = self.ball.v.y;
            proof {
                num::lemma_mul_bound(vy as int, vy as int, 0x10_0000, 0x10_0000);
                assert(vy * vy >= 0) by (nonlinear_arith);
            }
            let disc: i64 = num::wide_square(vy) + (GRAVITY_TWICE * drop / GRAVITY_DEN) as i64;
            let time: i32 = (vy + num::isqrt_wide(disc)) * GRAVITY_DEN / GRAVITY_NUM;
            clamp_i32(time, 0, 120)
        } else {
            let gap: i32 = span_of(
                to_uu(self.ball.p.x) - to_uu(self.opponent.p.x),
                to_uu(self.ball.p.z) - to_uu(self.opponent.p.z),
            );
            clamp_i32(gap / 38, 0, 60)
        }
    }

    /// Where to meet the ball, in sub-units.
    pub fn ai_ball_lead(&self) -> (r: (i32, i32))
        requires
            self.ai_ready(),
        ensures
            r.0 == ball_lead(*self).0,
            r.1 == ball_lead(*self).1,
            -256_320 <= r.0 <= 256_320,
            -321_856 <= r.1 <= 321_856,
    {
        let lead: i32 = self.ai_lead_ticks();
        let vx: i32 = to_uu(self.ball.v.x);
        let vz: i32 = to_uu(self.ball.v.z);
        proof {
            num::lemma_mul_bound(vx as int, lead as int, 16384, 120);
            num::lemma_mul_bound(vz as int, lead as int, 16384, 120);
        }
        let x: i32 = to_uu(self.ball.p.x) + vx * lead;
        let z: i32 = to_uu(self.ball.p.z) + vz * lead;
        (
            clamp_i32(x, -HALF_X + BALL_R, HALF_X - BALL_R) * 64,
            clamp_i32(z, -HALF_Z + BALL_R, HALF_Z - BALL_R) * 64,
        )
    }

    /// Where the opponent drives to, in sub-units.
    fn ai_aim_point(&self) -> (r: (i32, i32))
        requires
            self.ai_ready(),
        ensures
            r.0 == aim_point(*self).0,
            r.1 == aim_point(*self).1,
            -AI_FIELD <= r.0 <= AI_FIELD,
            -AI_FIELD <= r.1 <= AI_FIELD,
    {
        match self.ai_target {
            AiTarget::Boost(i) => {
                let pad = Pad::at(i as usize);
                (pad.x * 64, pad.z * 64)
            },
            AiTarget::Position(x, z) => (x, z),
            _ => {
                let (px, pz): (i32, i32) = self.ai_ball_lead();
                let gx: i32 = to_uu(px);
                let gz: i32 = to_uu(pz) + HALF_Z;
                let reach: i32 = max_i32(span_of(gx, gz), 1);
                proof {
                    assert(gx * gx >= 0 && gz * gz >= 0) by (nonlinear_arith);
                    vec3::lemma_root_exists(gx * gx + gz * gz);
                    num::lemma_root_covers(span(gx as int, gz as int), gx * gx + gz * gz, gx as int);
                    num::lemma_root_covers(span(gx as int, gz as int), gx * gx + gz * gz, gz as int);
                    num::lemma_tdiv_bound(gx * AI_GOAL_BIAS, reach as int, AI_GOAL_BIAS as int);
                    num::lemma_tdiv_bound(gz * AI_GOAL_BIAS, reach as int, AI_GOAL_BIAS as int);
                }
                (
                    px + (gx * AI_GOAL_BIAS / reach) * 64,
                    pz + (gz * AI_GOAL_BIAS / reach) * 64,
                )
            },
        }
    }

    /// Whether the opponent is past a goal line or up a wall.
    fn ai_misplaced(&self) -> (r: bool)
        requires
            self.opponent.p.within(AI_FIELD as int),
        ensures
            r == misplaced(*self),
    {
        abs_i32(self.opponent.p.z) > GOAL_LINE || (self.opponent.grounded && self.opponent.p.y
            > UP_A_WALL)
    }

    /// Steer and throttle for the target already chosen.
    pub fn ai_handling<F: Fn(i32, i32) -> u16>(&self, trig: &Trig<F>) -> (r: Input)
        requires
            trig.wf(),
            self.ai_ready(),
        ensures
            r == handled(trig.model(), *self),
    {
        let (tx, tz): (i32, i32) = self.ai_aim_point();
        let p = self.opponent.p;
        let v = self.opponent.v;
        let delta: i32 = error_of(trig.atan2_q12(tx - p.x, tz - p.z), self.opponent.yaw);
        let gap: i32 = span_of(to_uu(tx - p.x), to_uu(tz - p.z));
        let quick: i32 = span_of(to_uu(v.x), to_uu(v.z));
        let back = Input {
            throttle: -128,
            steer: 0,
            pitch: 0,
            boost: false,
            jump_pressed: false,
            jump_held: false,
            air_roll: false,
            handbrake: false,
        };
        if self.ai_misplaced() || self.ai_escape > 0 {
            return back;
        }
        if gap < AI_REVERSE_GAP && abs_i32(delta) > AI_ALIGN_ASTERN {
            return back;
        }
        let at_ball = match self.ai_target {
            AiTarget::Ball => true,
            _ => false,
        };
        let unset = match self.ai_target {
            AiTarget::Unset => true,
            _ => false,
        };
        let throttle: i32 = if at_ball || unset {
            128
        } else {
            clamp_i32(gap * 128 / AI_THROTTLE_RAMP, 24, 128)
        };
        let gain: i32 = 128 - min_i32(quick * 64 / SUPERSONIC_SPEED, 64);
        proof {
            num::lemma_mul_bound(delta as int, gain as int, 32768, 128);
        }
        let steer: i32 = clamp_i32(delta * gain / 256, -128, 128);
        Input {
            throttle,
            steer,
            pitch: 0,
            boost: at_ball && abs_i32(delta) <= AI_ALIGN_BOOST && (!self.untouched_kickoff() || gap
                < AI_KICKOFF_BOOST_GAP),
            jump_pressed: false,
            jump_held: false,
            air_roll: false,
            handbrake: abs_i32(delta) > AI_ALIGN_SLIDE || quick < AI_SLIDE_CRAWL,
        }
    }

    /// One tick of opponent intent: pick a target, then drive at it.
    pub fn drive_ai<F: Fn(i32, i32) -> u16>(&mut self, trig: &Trig<F>) -> (r: Input)
        requires
            trig.wf(),
            old(self).ai_ready(),
        ensures
            r == ai_input(trig.model(), *old(self)),
            *final(self) == ai_stepped(trig.model(), *old(self)),
            target_exists(final(self).ai_target),
    {
        if self.ai_misplaced() {
            self.ai_escape = AI_ESCAPE_TICKS;
        } else if self.ai_escape > 0 {
            self.ai_escape = self.ai_escape - 1;
        }
        self.ai_update_target(trig);
        self.ai_handling(trig)
    }
}

} // verus!
