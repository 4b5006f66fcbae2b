//! One tick of the ball: gravity, drag, and everything the arena does to it.

use vstd::prelude::*;
use crate::arena;
use crate::arena::confine;
use crate::ball;
use crate::ball::{ball_friction, Ball};
use crate::car;
use crate::car::{fits, turn};
use crate::frame;
use crate::frame::{ball_hits_goal_frame, bounce_off};
use crate::num;
use crate::num::{abs_i32, max_i32};
use crate::ramp;
use crate::ramp::ball_surface_contact;
use crate::trig::{Angles, Trig};
use crate::tuning::{BALL_BOUNCE, BALL_DRAG, BALL_FRICTION, BALL_MAX_SPEED, BALL_R, BALL_SETTLE_V};
use crate::tuning::TURNS_PER_RAD;
use crate::vec3;
use crate::vec3::{cap_length, damp, damp12, dot_q12, plus, V3};

verus! {

/// Which end just conceded, i.e. who scored.
#[derive(Copy, Clone, Debug, PartialEq, Eq, Structural)]
pub enum Team {
    /// Defends -Z, attacks +Z. The player.
    Blue,
    /// Defends +Z, attacks -Z.
    Orange,
}

/// The ball's centre when it rests on the floor.
pub const BALL_FLOOR: i32 = 5824;
/// The highest the ball's centre goes.
pub const BALL_CEILING: i32 = 124_992;
/// How far along the pitch the ball's centre goes before it is against an end.
pub const BALL_END: i32 = 321_856;
/// Half the width the ball's centre has to pass through to score.
pub const MOUTH_CLEAR: i32 = 51_328;
/// The height the ball's centre has to stay under to score.
pub const BAR_CLEAR: i32 = 35_328;
/// How far along the pitch the ball's centre is once it is wholly over a line.
pub const OVER_LINE: i32 = 333_504;

/// Falling and drifting for one tick, under drag and the speed cap.
pub open spec fn drifted(b: Ball, gravity: int) -> Ball {
    let v = vec3::v3(b.v.x as int, b.v.y - gravity, b.v.z as int);
    let dragged = vec3::v3(
        vec3::damped12(v.x as int, BALL_DRAG as int),
        v.y as int,
        vec3::damped12(v.z as int, BALL_DRAG as int),
    );
    Ball { p: vec3::add3(b.p, v), v: vec3::capped(dragged, BALL_MAX_SPEED as int), ..b }
}

/// What the floor makes of a vertical speed: a bounce, or rest below the
/// settling speed.
pub open spec fn floor_speed(vy: int) -> int {
    if vy < -BALL_SETTLE_V {
        vec3::damped(-vy, BALL_BOUNCE as int)
    } else {
        0
    }
}

/// Kept above the floor. A settled ball still presses with its own weight, so
/// it never slides without friction.
pub open spec fn on_floor(b: Ball, gravity: int) -> Ball {
    if b.p.y <= BALL_FLOOR {
        let vy = floor_speed(b.v.y as int);
        let push = num::max(num::max(-b.v.y, 0) + vy, gravity);
        ball::rubbed(
            Ball {
                p: V3 { y: BALL_FLOOR, ..b.p },
                v: V3 { y: vy as i32, ..b.v },
                grounded: true,
                ..b
            },
            vec3::v3(0, 4096, 0),
            push,
            BALL_FRICTION as int,
            vec3::zero3(),
        )
    } else {
        Ball { grounded: false, ..b }
    }
}

/// Kept under the ceiling.
pub open spec fn under_ceiling(b: Ball) -> Ball {
    if b.p.y > BALL_CEILING {
        let vy = -vec3::damped(b.v.y as int, BALL_BOUNCE as int);
        ball::rubbed(
            Ball { p: V3 { y: BALL_CEILING, ..b.p }, v: V3 { y: vy as i32, ..b.v }, ..b },
            vec3::v3(0, -4096, 0),
            num::max(b.v.y as int, 0) - vy,
            BALL_FRICTION as int,
            vec3::zero3(),
        )
    } else {
        b
    }
}

/// Turned by the quarter pipe. In front of a goal there is no end wall to sweep
/// up into, so the ramp is not there either.
pub open spec fn up_ramp(b: Ball) -> Ball {
    if num::abs(b.p.z as int) < BALL_END {
        let facing_mouth = num::abs(b.p.x as int) < frame::MOUTH;
        let (p, normal) = ramp::ball_on_ramp(b.p, facing_mouth);
        match normal {
            Some(n) => frame::bounced(Ball { p, ..b }, n),
            None => b,
        }
    } else {
        b
    }
}

/// The ball is lined up to go through a goal mouth.
pub open spec fn through_mouth(p: V3) -> bool {
    num::abs(p.x as int) < MOUTH_CLEAR && p.y < BAR_CLEAR
}

/// The ball's place in the footprint.
pub open spec fn ball_confined(b: Ball) -> arena::Flat {
    arena::confined(
        b.p.x as int,
        b.p.z as int,
        b.v.x as int,
        b.v.z as int,
        BALL_R as int,
        BALL_BOUNCE as int,
        through_mouth(b.p),
    )
}

/// Kept inside the walls. Lined up with a goal mouth there is no end wall: only
/// the sides hold it.
pub open spec fn within_walls(b: Ball) -> Ball {
    let c = ball_confined(b);
    if through_mouth(b.p) {
        Ball { p: V3 { x: c.x as i32, ..b.p }, v: V3 { x: c.vx as i32, ..b.v }, ..b }
    } else {
        let held = Ball {
            p: vec3::v3(c.x, b.p.y as int, c.z),
            v: vec3::v3(c.vx, b.v.y as int, c.vz),
            ..b
        };
        if c.normal == vec3::zero3() {
            held
        } else {
            ball::rubbed(
                held,
                c.normal,
                vec3::dot(held.v, c.normal) - vec3::dot(b.v, c.normal),
                BALL_FRICTION as int,
                vec3::zero3(),
            )
        }
    }
}

/// Who a ball here, lined up with a goal mouth or not, has scored for.
pub open spec fn scorer(p: V3, mouth: bool) -> Option<Team> {
    if mouth && p.z > OVER_LINE {
        Some(Team::Blue)
    } else if mouth && p.z < -OVER_LINE {
        Some(Team::Orange)
    } else {
        None
    }
}

/// The ball after the floor, the ceiling and the goal frame.
pub open spec fn cleared(b: Ball, gravity: int) -> Ball {
    frame::off_frame(under_ceiling(on_floor(drifted(b, gravity), gravity)))
}

/// The ball after the floor, the ceiling, the goal frame and the ramp.
pub open spec fn surfaced(b: Ball, gravity: int) -> Ball {
    up_ramp(cleared(b, gravity))
}

/// A tick of flight fits: the ball is in range when it starts, and still is once
/// clear of the goal frame, which throws a ball that is dead centre on it several
/// times as fast as it came.
pub open spec fn can_fly(b: Ball, gravity: int) -> bool {
    &&& b.in_range()
    &&& cleared(b, gravity).v.within(490_400)
    &&& cleared(b, gravity).w.within(1_812_300)
}

/// The ball after one tick of flight.
pub open spec fn flown(b: Ball, gravity: int) -> Ball {
    within_walls(surfaced(b, gravity))
}

/// Who one tick of flight scores for.
pub open spec fn goal_by(b: Ball, gravity: int) -> Option<Team> {
    let s = surfaced(b, gravity);
    scorer(s.p, through_mouth(s.p))
}

/// The drawn roll following the spin.
pub open spec fn rolled(t: Angles, b: Ball) -> Ball {
    let horiz = b.w.length_xz();
    if horiz > 32 {
        Ball {
            roll_dir: t.atan2(-b.w.z, b.w.x as int),
            roll: car::turned(b.roll, (horiz * TURNS_PER_RAD) / 65536),
            ..b
        }
    } else {
        b
    }
}

fn drift(b: &mut Ball, gravity: i32)
    requires
        old(b).in_range(),
        -1_000_000 <= gravity <= 1_000_000,
    ensures
        *final(b) == drifted(*old(b), gravity as int),
        final(b).p.within(0x100_0000),
        final(b).v.within(293_000),
        final(b).w.within(0x10_0000),
{
    b.v.y = b.v.y - gravity;
    b.p = plus(b.p, b.v);
    b.v.x = damp12(b.v.x, BALL_DRAG);
    b.v.z = damp12(b.v.z, BALL_DRAG);
    proof {
        vec3::lemma_capped(b.v, 6400, 2_048_576);
    }
    b.v = cap_length(b.v, BALL_MAX_SPEED);
}

fn meet_floor(b: &mut Ball, gravity: i32)
    requires
        old(b).p.within(0x100_0000),
        old(b).v.within(293_000),
        old(b).w.within(0x10_0000),
        -1_000_000 <= gravity <= 1_000_000,
    ensures
        *final(b) == on_floor(*old(b), gravity as int),
        final(b).p.within(0x100_0000),
        final(b).v.within(480_000),
        final(b).p.y > BALL_CEILING ==> final(b).v.within(293_000),
        final(b).w.within(0x10_0000),
{
    if b.p.y <= BALL_FLOOR {
        b.p.y = BALL_FLOOR;
        let approach: i32 = max_i32(-b.v.y, 0);
        if b.v.y < -BALL_SETTLE_V {
            b.v.y = damp(-b.v.y, BALL_BOUNCE);
        } else {
            b.v.y = 0;
        }
        b.grounded = true;
        let push: i32 = max_i32(approach + b.v.y, gravity);
        let up = V3::new(0, 4096, 0);
        proof {
            ball::lemma_rubbed(*b, up, push as int, 358, vec3::zero3(), 293_000, 0x10_0000, 0);
        }
        ball_friction(b, up, push, BALL_FRICTION, V3::zero());
    } else {
        b.grounded = false;
    }
}

fn meet_ceiling(b: &mut Ball)
    requires
        old(b).p.within(0x100_0000),
        old(b).v.within(480_000),
        old(b).p.y > BALL_CEILING ==> old(b).v.within(293_000),
        old(b).w.within(0x10_0000),
    ensures
        *final(b) == under_ceiling(*old(b)),
        final(b).p.within(0x100_0000),
        final(b).v.within(480_000),
        final(b).w.within(0x10_0000),
{
    if b.p.y > BALL_CEILING {
        b.p.y = BALL_CEILING;
        let approach: i32 = max_i32(b.v.y, 0);
        b.v.y = -damp(b.v.y, BALL_BOUNCE);
        let push: i32 = approach - b.v.y;
        let down = V3::new(0, -4096, 0);
        proof {
            ball::lemma_rubbed(*b, down, push as int, 358, vec3::zero3(), 293_000, 0x10_0000, 0);
        }
        ball_friction(b, down, push, BALL_FRICTION, V3::zero());
    }
}

fn meet_ramp(b: &mut Ball)
    requires
        old(b).p.within(0x120_0000),
        old(b).v.within(490_400),
        old(b).w.within(1_812_300),
    ensures
        *final(b) == up_ramp(*old(b)),
        final(b).p.within(0x1000_0000),
        final(b).v.within(9_733_400),
        final(b).w.within(35_184_000),
{
    if abs_i32(b.p.z) < BALL_END {
        let facing_mouth = abs_i32(b.p.x) < frame::MOUTH;
        let normal = ball_surface_contact(b, facing_mouth);
        if let Some(n) = normal {
            proof {
                frame::lemma_bounced(*b, n, 490_400, 1_812_300);
            }
            bounce_off(b, n);
        }
    }
}

fn meet_walls(b: &mut Ball) -> (r: Option<Team>)
    requires
        old(b).p.within(0x1000_0000),
        old(b).v.within(9_733_400),
        old(b).w.within(35_184_000),
    ensures
        *final(b) == within_walls(*old(b)),
        final(b).p.within(0x1000_0000),
        final(b).w.z > i32::MIN,
        r == scorer(old(b).p, through_mouth(old(b).p)),
{
    let open = abs_i32(b.p.x) < MOUTH_CLEAR && b.p.y < BAR_CLEAR;
    let before = b.v;
    proof {
        arena::lemma_confined_speed(
            b.p.x as int,
            b.p.z as int,
            b.v.x as int,
            b.v.z as int,
            BALL_R as int,
            BALL_BOUNCE as int,
            open,
            9_733_400,
        );
        arena::law_confined_is_inside(
            b.p.x as int,
            b.p.z as int,
            b.v.x as int,
            b.v.z as int,
            BALL_R as int,
            BALL_BOUNCE as int,
            open,
        );
    }
    let (px, pz, vx, vz, wall): (i32, i32, i32, i32, V3) = confine(
        b.p.x,
        b.p.z,
        b.v.x,
        b.v.z,
        BALL_R,
        BALL_BOUNCE,
        open,
    );
    if !open {
        b.p.x = px;
        b.p.z = pz;
        b.v.x = vx;
        b.v.z = vz;
        if wall.x != 0 || wall.y != 0 || wall.z != 0 {
            let push: i32 = dot_q12(b.v, wall) - dot_q12(before, wall);
            ball_friction(b, wall, push, BALL_FRICTION, V3::zero());
        }
        None
    } else {
        b.p.x = px;
        b.v.x = vx;
        if b.p.z > OVER_LINE {
            Some(Team::Blue)
        } else if b.p.z < -OVER_LINE {
            Some(Team::Orange)
        } else {
            None
        }
    }
}

/// Move the ball, and keep it off the floor, the ceiling and the goal frame.
fn clear(b: &mut Ball, gravity: i32)
    requires
        old(b).in_range(),
        -1_000_000 <= gravity <= 1_000_000,
    ensures
        *final(b) == cleared(*old(b), gravity as int),
        final(b).p.within(0x120_0000),
{
    drift(b, gravity);
    meet_floor(b, gravity);
    meet_ceiling(b);
    // The frame before the mouth test, so a ball that grazes a post is already
    // pushed clear of the opening when the mouth is measured.
    proof {
        frame::lemma_off_frame(*b, 480_000, 0x10_0000, 0x100_0000);
    }
    ball_hits_goal_frame(b);
}

/// Whether a tick of flight fits.
pub fn flyable(b: &Ball, gravity: i32) -> (r: bool)
    requires
        -1_000_000 <= gravity <= 1_000_000,
    ensures
        r == can_fly(*b, gravity as int),
{
    if !b.steppable() {
        return false;
    }
    let mut next = *b;
    clear(&mut next, gravity);
    fits(next.v, 490_400) && fits(next.w, 1_812_300)
}

/// One tick of flight. Returns who scored, if the ball went in.
pub fn fly(b: &mut Ball, gravity: i32) -> (r: Option<Team>)
    requires
        can_fly(*old(b), gravity as int),
        -1_000_000 <= gravity <= 1_000_000,
    ensures
        *final(b) == flown(*old(b), gravity as int),
        final(b).p.within(0x1000_0000),
        final(b).w.z > i32::MIN,
        r == goal_by(*old(b), gravity as int),
{
    clear(b, gravity);
    meet_ramp(b);
    meet_walls(b)
}

/// Turn the drawn ball by its spin. The renderer yaws by `roll_dir` and then
/// turns about X, which puts its axis at `(cos, 0, -sin)` of `roll_dir`.
pub fn roll_on<F: Fn(i32, i32) -> u16>(trig: &Trig<F>, b: &mut Ball)
    requires
        trig.wf(),
        old(b).w.z > i32::MIN,
    ensures
        *final(b) == rolled(trig.model(), *old(b)),
{
    let horiz: i32 = b.w.len_xz();
    if horiz > 32 {
        let angle: i32 = horiz * TURNS_PER_RAD;
        assert(angle >> 16 == angle / 65536) by (bit_vector);
        b.roll_dir = trig.atan2_q12(-b.w.z, b.w.x);
        b.roll = turn(b.roll, angle >> 16);
    }
}

} // verus!
