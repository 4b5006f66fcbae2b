//! Jumps, dodges and air control.

use vstd::prelude::*;
use crate::car;
use crate::car::{rotate_about, turn, yaw_for, Car, Input};
use crate::drive::Entry;
use crate::num;
use crate::num::{abs_i32, clamp_i32, mul_shift12};
use crate::trig::{heading, Angles, Trig};
use crate::tuning::{ACCEL_DEN, AIR_ROLL, AIR_SPIN_DECAY, AIR_SPIN_GAIN, AIR_SPIN_MAX, AIR_TURN};
use crate::tuning::{CAR_AIR_THROTTLE_NUM, CAR_JUMP_V, DODGE_IMPULSE, DODGE_TICKS, DODGE_WINDOW};
use crate::tuning::{JUMP_BONUS_DEN, JUMP_BONUS_NUM, JUMP_SLICES_MAX, JUMP_STICKY_DEN};
use crate::tuning::{JUMP_STICKY_NUM, JUMP_STICKY_SLICES};
use crate::vec3;
use crate::vec3::{add_scaled, damp, V3};

verus! {

// ---- air control -------------------------------------------------------

/// An air-control rate after one tick: it chases what the stick asks for, and
/// coasts when it is let go.
pub open spec fn spin_next(rate: int, target: int) -> int {
    let next = if target != 0 {
        rate + ((target - rate) * AIR_SPIN_GAIN) / 1024
    } else {
        vec3::damped(rate, AIR_SPIN_DECAY as int)
    };
    num::clamp(next, -AIR_SPIN_MAX as int, AIR_SPIN_MAX as int)
}

/// A stick axis as an air-control rate.
pub open spec fn stick_rate(full: int, stick: int) -> int {
    num::tdiv(full * num::clamp(stick, -128, 128), 128)
}

/// The car with its air rates stepped: pitch from the stick, roll on steer with
/// the modifier held, yaw on steer without it.
pub open spec fn rates_stepped(c: Car, input: Input) -> Car {
    let roll = if input.air_roll {
        stick_rate(AIR_ROLL as int, input.steer as int)
    } else {
        0
    };
    let yaw = if input.air_roll {
        0
    } else {
        stick_rate(AIR_TURN as int, input.steer as int)
    };
    Car {
        w_pitch: spin_next(c.w_pitch as int, stick_rate(AIR_ROLL as int, input.pitch as int)) as i16,
        w_roll: spin_next(c.w_roll as int, roll) as i16,
        w_yaw: spin_next(c.w_yaw as int, yaw) as i16,
        ..c
    }
}

/// The car's up and nose after pitching about its right, then its up after
/// rolling about that nose.
pub open spec fn attitude(t: Angles, c: Car, e: Entry) -> (V3, V3) {
    let (u, f) = if c.w_pitch != 0 {
        (
            car::spun(t, e.up, e.right, c.w_pitch as int),
            car::spun(t, e.fwd, e.right, c.w_pitch as int),
        )
    } else {
        (e.up, e.fwd)
    };
    if c.w_roll != 0 {
        (car::spun(t, u, f, c.w_roll as int), f)
    } else {
        (u, f)
    }
}

/// The car turned by its air rates.
pub open spec fn tumbled(t: Angles, c: Car, e: Entry) -> Car {
    let turned = if c.w_pitch != 0 || c.w_roll != 0 {
        let (u, f) = attitude(t, c, e);
        Car { up: u.unit(), yaw: car::yaw_along(t, u.unit(), f.unit()), ..c }
    } else {
        c
    };
    Car { yaw: car::turned(turned.yaw, c.w_yaw as int), ..turned }
}

/// The air-throttle remainder with this tick's share added. Reverse is worth
/// half of forward.
pub open spec fn air_due(c: Car, throttle: int) -> int {
    let share = if throttle > 0 {
        throttle
    } else {
        num::tdiv(throttle, 2)
    };
    c.air_throttle_rem + num::tdiv(CAR_AIR_THROTTLE_NUM * share, 128)
}

/// The car pushed a little along its nose by the throttle.
pub open spec fn air_pushed(c: Car, input: Input, e: Entry) -> Car {
    let throttle = num::clamp(input.throttle as int, -128, 128);
    if throttle != 0 {
        let due = air_due(c, throttle);
        Car {
            air_throttle_rem: num::trem(due, ACCEL_DEN as int) as i16,
            v: vec3::added(c.v, e.fwd, num::tdiv(due, ACCEL_DEN as int)),
            ..c
        }
    } else {
        Car { air_throttle_rem: 0, ..c }
    }
}

/// An airborne car after its air control.
#[verifier::opaque]
pub open spec fn flown_by_stick(t: Angles, c: Car, input: Input, e: Entry) -> Car {
    air_pushed(tumbled(t, rates_stepped(c, input), e), input, e)
}

/// One air-control rate after one tick.
fn spin(rate: i16, target: i32) -> (r: i16)
    requires
        -100 <= target <= 100,
    ensures
        r == spin_next(rate as int, target as int),
        -60 <= r <= 60,
{
    let wide: i32 = rate as i32;
    let next: i32 = if target != 0 {
        let chase: i32 = (target - wide) * AIR_SPIN_GAIN;
        assert(chase >> 10 == chase / 1024) by (bit_vector);
        wide + (chase >> 10)
    } else {
        damp(wide, AIR_SPIN_DECAY)
    };
    clamp_i32(next, -AIR_SPIN_MAX, AIR_SPIN_MAX) as i16
}

/// A stick axis as an air-control rate.
fn stick(full: i32, axis: i32) -> (r: i32)
    requires
        0 <= full <= 100,
    ensures
        r == stick_rate(full as int, axis as int),
        -100 <= r <= 100,
{
    let held: i32 = clamp_i32(axis, -128, 128);
    proof {
        num::lemma_mul_bound(full as int, held as int, 100, 128);
        num::lemma_tdiv_bound(full * held, 128, 100);
    }
    num::mul_div(full, held, 128)
}

/// Step the air rates.
fn step_rates(c: &mut Car, input: &Input)
    ensures
        *final(c) == rates_stepped(*old(c), *input),
{
    let roll: i32 = if input.air_roll {
        stick(AIR_ROLL, input.steer)
    } else {
        0
    };
    let yaw: i32 = if input.air_roll {
        0
    } else {
        stick(AIR_TURN, input.steer)
    };
    c.w_pitch = spin(c.w_pitch, stick(AIR_ROLL, input.pitch));
    c.w_roll = spin(c.w_roll, roll);
    c.w_yaw = spin(c.w_yaw, yaw);
}

/// Turn the car by its air rates.
fn tumble<F: Fn(i32, i32) -> u16>(trig: &Trig<F>, c: &mut Car, e: &Entry)
    requires
        trig.wf(),
        e.sized(),
        old(c).up.within(vec3::DIR as int),
    ensures
        *final(c) == tumbled(trig.model(), *old(c), *e),
        final(c).up.within(vec3::DIR as int),
{
    if c.w_pitch != 0 || c.w_roll != 0 {
        let mut u = e.up;
        let mut f = e.fwd;
        assert(u.within(4096) && f.within(4096));
        if c.w_pitch != 0 {
            u = rotate_about(trig, u, e.right, c.w_pitch as i32);
            f = rotate_about(trig, f, e.right, c.w_pitch as i32);
            assert(u.within(12288) && f.within(12288));
        }
        assert(u.within(12288));
        if c.w_roll != 0 {
            u = rotate_about(trig, u, f, c.w_roll as i32);
            assert(u.within(110_592));
        }
        c.up = u.unit_q12();
        c.yaw = yaw_for(trig, c.up, f.unit_q12());
    }
    c.yaw = turn(c.yaw, c.w_yaw as i32);
}

/// Push the car along its nose by the throttle.
fn push_in_air(c: &mut Car, input: &Input, e: &Entry)
    requires
        e.sized(),
        old(c).valid(),
        old(c).v.within(1_048_640),
    ensures
        *final(c) == air_pushed(*old(c), *input, *e),
        final(c).v.within(1_048_840),
{
    let throttle: i32 = clamp_i32(input.throttle, -128, 128);
    if throttle != 0 {
        let share: i32 = if throttle > 0 {
            throttle
        } else {
            throttle / 2
        };
        let due: i32 = c.air_throttle_rem as i32 + CAR_AIR_THROTTLE_NUM * share / 128;
        c.air_throttle_rem = (due % ACCEL_DEN) as i16;
        add_scaled(&mut c.v, e.fwd, due / ACCEL_DEN);
    } else {
        c.air_throttle_rem = 0;
    }
}

/// Air control: turn the car by the stick and push it by the throttle.
pub fn fly_by_stick<F: Fn(i32, i32) -> u16>(trig: &Trig<F>, c: &mut Car, input: &Input, e: &Entry)
    requires
        trig.wf(),
        e.sized(),
        old(c).valid(),
        old(c).up.within(vec3::DIR as int),
        old(c).v.within(1_048_640),
    ensures
        *final(c) == flown_by_stick(trig.model(), *old(c), *input, *e),
        final(c).v.within(1_048_840),
        final(c).up.within(vec3::DIR as int),
        final(c).valid(),
        final(c).p == old(c).p,
        final(c).jump_normal == old(c).jump_normal,
{
    proof {
        reveal(flown_by_stick);
    }
    step_rates(c, input);
    tumble(trig, c, e);
    push_in_air(c, input, e);
}

// ---- the second jump ---------------------------------------------------

/// A second press counts: one jump is spent, and the window is open.
pub open spec fn second_jump(c: Car, input: Input) -> bool {
    input.jump_pressed && c.jumps_used == 1 && c.dodge_window > 0
}

/// A direction is held hard enough to make a second jump a dodge.
pub open spec fn dodging(input: Input) -> bool {
    num::abs(num::clamp(input.steer as int, -128, 128)) > 40 || num::abs(
        num::clamp(input.pitch as int, -128, 128),
    ) > 40
}

/// The Q12 direction of a dodge in the car's own frame.
pub open spec fn dodge_heading(t: Angles, input: Input) -> u16 {
    t.atan2(num::clamp(input.steer as int, -128, 128), num::clamp(input.pitch as int, -128, 128))
}

/// An airborne car after a second press that counts: a dodge, which is speed
/// along the ground, or a plain double jump along the roof.
#[verifier::opaque]
pub open spec fn jumped_again(t: Angles, c: Car, input: Input) -> Car {
    if dodging(input) {
        let local = dodge_heading(t, input);
        let world = car::turned(c.yaw, local as int);
        Car {
            jumps_used: 2,
            dodge_dir: local,
            dodge_timer: DODGE_TICKS,
            v: vec3::v3(
                c.v.x + (t.sin(world) * DODGE_IMPULSE) / 4096,
                c.v.y as int,
                c.v.z + (t.cos(world) * DODGE_IMPULSE) / 4096,
            ),
            ..c
        }
    } else {
        Car { jumps_used: 2, v: vec3::added(c.v, c.up, CAR_JUMP_V as int), ..c }
    }
}

/// The second jump.
pub fn jump_again<F: Fn(i32, i32) -> u16>(trig: &Trig<F>, c: &mut Car, input: &Input)
    requires
        trig.wf(),
        old(c).up.within(vec3::DIR as int),
        old(c).v.within(1_048_840),
    ensures
        *final(c) == jumped_again(trig.model(), *old(c), *input),
        final(c).v.within(1_051_000),
        final(c).valid() == old(c).valid(),
        final(c).p == old(c).p,
        final(c).up == old(c).up,
        final(c).jump_normal == old(c).jump_normal,
{
    proof {
        reveal(jumped_again);
    }
    c.jumps_used = 2;
    let steer: i32 = clamp_i32(input.steer, -128, 128);
    let pitch: i32 = clamp_i32(input.pitch, -128, 128);
    if abs_i32(steer) > 40 || abs_i32(pitch) > 40 {
        let local: u16 = trig.atan2_q12(steer, pitch);
        c.dodge_dir = local;
        c.dodge_timer = DODGE_TICKS;
        let world: u16 = turn(c.yaw, local as i32);
        let (sn, cs): (i32, i32) = heading(trig, world);
        c.v.x = c.v.x + mul_shift12(sn, DODGE_IMPULSE);
        c.v.z = c.v.z + mul_shift12(cs, DODGE_IMPULSE);
    } else {
        let roof = c.up;
        add_scaled(&mut c.v, roof, CAR_JUMP_V);
    }
}

// ---- the held jump -----------------------------------------------------

/// The held phase runs another slice: the budget is not spent, and the button is
/// down or the minimum has not run yet.
pub open spec fn slice_runs(c: Car, held: bool) -> bool {
    c.jump_slices < JUMP_SLICES_MAX && (c.jump_min_left > 0 || held)
}

/// The car pushed along its jump normal by one slice of a rational, and the
/// remainder carried.
pub open spec fn sliced(c: Car, held: bool) -> Car {
    if !c.jump_holding {
        c
    } else if !slice_runs(c, held) {
        Car { jump_holding: false, ..c }
    } else {
        let bonus = c.jump_bonus_rem + JUMP_BONUS_NUM;
        let sticks = c.jump_slices < JUMP_STICKY_SLICES;
        let sticky = c.jump_sticky_rem + JUMP_STICKY_NUM;
        let up = vec3::added(c.v, c.jump_normal, num::tdiv(bonus, JUMP_BONUS_DEN as int));
        Car {
            jump_bonus_rem: num::trem(bonus, JUMP_BONUS_DEN as int) as i16,
            jump_sticky_rem: if sticks {
                num::trem(sticky, JUMP_STICKY_DEN as int) as i16
            } else {
                c.jump_sticky_rem
            },
            v: if sticks {
                vec3::added(up, c.jump_normal, -num::tdiv(sticky, JUMP_STICKY_DEN as int))
            } else {
                up
            },
            jump_slices: (c.jump_slices + 1) as u8,
            jump_min_left: num::max(c.jump_min_left - 1, 0) as u8,
            ..c
        }
    }
}

/// The car after this tick's share of the held phase. However it ends, that is
/// when the second jump becomes available.
#[verifier::opaque]
pub open spec fn held(c: Car, button: bool) -> Car {
    if !c.jump_holding {
        c
    } else {
        let s = sliced(sliced(c, button), button);
        let done = !s.jump_holding || s.jump_slices >= JUMP_SLICES_MAX;
        Car {
            jump_holding: !done,
            dodge_window: if done {
                DODGE_WINDOW
            } else {
                s.dodge_window
            },
            ..s
        }
    }
}

/// One 120 Hz slice of the held phase.
fn slice(c: &mut Car, button: bool)
    requires
        old(c).valid(),
        old(c).jump_normal.within(4096),
        old(c).v.within(0x100_0000),
    ensures
        *final(c) == sliced(*old(c), button),
        final(c).valid(),
        num::abs(final(c).v.x - old(c).v.x) <= 200,
        num::abs(final(c).v.y - old(c).v.y) <= 200,
        num::abs(final(c).v.z - old(c).v.z) <= 200,
{
    if c.jump_holding {
        if c.jump_slices >= JUMP_SLICES_MAX || (c.jump_min_left == 0 && !button) {
            c.jump_holding = false;
            return ;
        }
        let normal = c.jump_normal;
        let bonus: i32 = c.jump_bonus_rem as i32 + JUMP_BONUS_NUM;
        c.jump_bonus_rem = (bonus % JUMP_BONUS_DEN) as i16;
        add_scaled(&mut c.v, normal, bonus / JUMP_BONUS_DEN);
        if c.jump_slices < JUMP_STICKY_SLICES {
            let sticky: i32 = c.jump_sticky_rem as i32 + JUMP_STICKY_NUM;
            c.jump_sticky_rem = (sticky % JUMP_STICKY_DEN) as i16;
            add_scaled(&mut c.v, normal, -(sticky / JUMP_STICKY_DEN));
        }
        c.jump_slices = c.jump_slices + 1;
        if c.jump_min_left > 0 {
            c.jump_min_left = c.jump_min_left - 1;
        }
    }
}

/// The held-jump phase: two 120 Hz slices a tick.
pub fn hold_jump(c: &mut Car, button: bool)
    requires
        old(c).valid(),
        old(c).jump_normal.within(4096),
        old(c).v.within(9_000_000),
    ensures
        *final(c) == held(*old(c), button),
        final(c).valid(),
        num::abs(final(c).v.x - old(c).v.x) <= 400,
        num::abs(final(c).v.y - old(c).v.y) <= 400,
        num::abs(final(c).v.z - old(c).v.z) <= 400,
        final(c).p == old(c).p,
        final(c).up == old(c).up,
{
    proof {
        reveal(held);
    }
    if c.jump_holding {
        slice(c, button);
        slice(c, button);
        if c.jump_slices >= JUMP_SLICES_MAX {
            c.jump_holding = false;
        }
        if !c.jump_holding {
            c.dodge_window = DODGE_WINDOW;
        }
    }
}

} // verus!
