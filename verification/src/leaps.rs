//! Leaving the ground: the jump, the second jump and the flip.

use vstd::prelude::*;
use crate::air;
use crate::car;
use crate::car::{Car, Input};
use crate::compass;
use crate::drive::Entry;
use crate::driving;
use crate::num;
use crate::trig::Angles;
use crate::vec3;
use crate::vec3::V3;

verus! {

/// The stick's push to the right, between its stops.
pub open spec fn rightward(input: Input) -> int {
    num::clamp(input.steer as int, -128, 128)
}

/// The stick's push forward, between its stops.
pub open spec fn forward(input: Input) -> int {
    num::clamp(input.pitch as int, -128, 128)
}

/// A flip throws the car the way the stick points: what it gains across its flat
/// right has the sign of the stick's push to the right, and what it gains along
/// its flat nose the sign of the push forward. The gain is 533, level.
pub proof fn law_a_flip_goes_where_the_stick_points(t: Angles, c: Car, input: Input)
    requires
        compass::true_compass(t),
        c.v.within(1_000_000),
        num::abs(rightward(input)) > 40 || num::abs(forward(input)) > 40,
    ensures
        ({
            let r = air::jumped_again(t, c, input);
            let (gx, gz) = (r.v.x - c.v.x, r.v.z - c.v.z);
            let (s, k) = (t.sin(c.yaw), t.cos(c.yaw));
            let (across, along) = (gx * k - gz * s, gx * s + gz * k);
            let (right, ahead) = (rightward(input), forward(input));
            &&& right > 0 && 8 * right >= num::abs(ahead) ==> across > 150_000
            &&& right < 0 && -8 * right >= num::abs(ahead) ==> across < -150_000
            &&& ahead > 0 && 8 * ahead >= num::abs(right) ==> along > 150_000
            &&& ahead < 0 && -8 * ahead >= num::abs(right) ==> along < -150_000
            &&& right > 0 && right >= num::abs(ahead) ==> across > 1_400_000
            &&& right < 0 && -right >= num::abs(ahead) ==> across < -1_400_000
            &&& ahead > 0 && ahead >= num::abs(right) ==> along > 1_400_000
            &&& ahead < 0 && -ahead >= num::abs(right) ==> along < -1_400_000
            &&& right >= 0 ==> across > -60_000
            &&& right <= 0 ==> across < 60_000
            &&& ahead >= 0 ==> along > -60_000
            &&& ahead <= 0 ==> along < 60_000
            &&& r.v.y == c.v.y
            &&& r.p == c.p && r.yaw == c.yaw && r.up == c.up
        }),
{
    reveal(air::jumped_again);
    let local = air::dodge_heading(t, input);
    let world = car::turned(c.yaw, local as int);
    assert(compass::points(
        t,
        (rightward(input) as i32) as int,
        (forward(input) as i32) as int,
    ));
    assert(compass::on_circle(t, c.yaw) && compass::on_circle(t, local) && compass::on_circle(t, world));
    assert(compass::adds(t, c.yaw, local));
    let (sy, cy) = (t.sin(c.yaw), t.cos(c.yaw));
    let (sl, cl) = (t.sin(local), t.cos(local));
    let (sw, cw) = (t.sin(world), t.cos(world));
    compass::lemma_split(sy, cy, sl, cl, sw, cw);
    let r = air::jumped_again(t, c, input);
    let (gx, gz) = (r.v.x - c.v.x, r.v.z - c.v.z);
    assert(gx == (sw * 533) / 4096 && gz == (cw * 533) / 4096);
    lemma_floor_split(sw, cw, sy, cy, gx, gz);
}

/// A flip adds 533 to the car's flat velocity, to a rounding of the tables.
pub proof fn law_a_flip_adds_the_same_every_way(t: Angles, c: Car, input: Input)
    requires
        compass::true_turns(t),
        c.v.within(1_000_000),
        num::abs(rightward(input)) > 40 || num::abs(forward(input)) > 40,
    ensures
        ({
            let r = air::jumped_again(t, c, input);
            let (gx, gz) = (r.v.x - c.v.x, r.v.z - c.v.z);
            281_000 <= gx * gx + gz * gz <= 287_000
        }),
{
    reveal(air::jumped_again);
    let local = air::dodge_heading(t, input);
    let world = car::turned(c.yaw, local as int);
    assert(compass::on_circle(t, world));
    let (sw, cw) = (t.sin(world), t.cos(world));
    let r = air::jumped_again(t, c, input);
    let (gx, gz) = (r.v.x - c.v.x, r.v.z - c.v.z);
    let (ex, ez) = (sw * 533 - 4096 * gx, cw * 533 - 4096 * gz);
    assert(0 <= ex < 4096 && 0 <= ez < 4096);
    assert(-534 <= gx <= 533 && -534 <= gz <= 533);
    let all = sw * sw + cw * cw;
    assert(284_089 * all == 16_777_216 * (gx * gx + gz * gz) + 8192 * (gx * ex + gz * ez) + ex * ex
        + ez * ez) by (nonlinear_arith)
        requires
            sw * 533 == 4096 * gx + ex,
            cw * 533 == 4096 * gz + ez,
            all == sw * sw + cw * cw,
    ;
    num::lemma_mul_bound(gx, ex, 534, 4096);
    num::lemma_mul_bound(gz, ez, 534, 4096);
    num::lemma_mul_bound(ex, ex, 4096, 4096);
    num::lemma_mul_bound(ez, ez, 4096, 4096);
    assert(ex * ex >= 0 && ez * ez >= 0) by (nonlinear_arith);
}

/// With the stick centred the second jump is a jump: 311 along the car's own
/// roof. Either way it is the last one.
pub proof fn law_a_second_jump_goes_along_the_roof(t: Angles, c: Car, input: Input)
    requires
        c.v.within(1_000_000),
        c.up.within(4096),
    ensures
        ({
            let r = air::jumped_again(t, c, input);
            &&& r.jumps_used == 2
            &&& num::abs(rightward(input)) <= 40 && num::abs(forward(input)) <= 40 ==> {
                &&& 0 <= 311 * c.up.x - 4096 * (r.v.x - c.v.x) < 4096
                &&& 0 <= 311 * c.up.y - 4096 * (r.v.y - c.v.y) < 4096
                &&& 0 <= 311 * c.up.z - 4096 * (r.v.z - c.v.z) < 4096
                &&& r.dodge_timer == c.dodge_timer
            }
            &&& num::abs(rightward(input)) > 40 || num::abs(forward(input)) > 40
                ==> r.dodge_timer == 40
        }),
{
    reveal(air::jumped_again);
    reveal(vec3::along);
}

proof fn lemma_floor_split(sw: int, cw: int, sy: int, cy: int, gx: int, gz: int)
    requires
        gx == (sw * 533) / 4096,
        gz == (cw * 533) / 4096,
        -4096 <= sy <= 4096,
        -4096 <= cy <= 4096,
    ensures
        num::abs(4096 * (gx * cy - gz * sy) - 533 * (sw * cy - cw * sy)) <= 33_554_432,
        num::abs(4096 * (gx * sy + gz * cy) - 533 * (sw * sy + cw * cy)) <= 33_554_432,
{
    let (ex, ez) = (sw * 533 - 4096 * gx, cw * 533 - 4096 * gz);
    assert(0 <= ex < 4096 && 0 <= ez < 4096);
    num::lemma_mul_bound(ex, cy, 4096, 4096);
    num::lemma_mul_bound(ex, sy, 4096, 4096);
    num::lemma_mul_bound(ez, cy, 4096, 4096);
    num::lemma_mul_bound(ez, sy, 4096, 4096);
    assert(533 * (sw * cy - cw * sy) == 4096 * (gx * cy - gz * sy) + (ex * cy - ez * sy))
        by (nonlinear_arith)
        requires
            sw * 533 == 4096 * gx + ex,
            cw * 533 == 4096 * gz + ez,
    ;
    assert(533 * (sw * sy + cw * cy) == 4096 * (gx * sy + gz * cy) + (ex * sy + ez * cy))
        by (nonlinear_arith)
        requires
            sw * 533 == 4096 * gx + ex,
            cw * 533 == 4096 * gz + ez,
    ;
}

// ---- in the air ----------------------------------------------------------------

/// A rate goes from one value toward another and does not pass it.
pub open spec fn chases(before: int, after: int, target: int) -> bool {
    &&& before <= target ==> before <= after <= target
    &&& before >= target ==> target <= after <= before
    &&& before + 4 <= target ==> after > before
    &&& before > target ==> after < before
}

/// A rate fades and does not change its sense.
pub open spec fn fades(before: int, after: int) -> bool {
    &&& before >= 0 ==> 0 <= after <= before
    &&& before <= 0 ==> before <= after <= 0
    &&& before > 0 ==> after < before
}

/// In the air each rate chases what the stick asks of it and fades when it asks
/// nothing: pitch follows the stick forward, and the stick to the side yaws the
/// car, or rolls it instead while the roll button is down. Full stick asks 34 of
/// pitch and roll and 15 of yaw.
pub proof fn law_air_rates_chase_the_stick(c: Car, input: Input)
    requires
        -60 <= c.w_pitch <= 60,
        -60 <= c.w_yaw <= 60,
        -60 <= c.w_roll <= 60,
    ensures
        ({
            let r = air::rates_stepped(c, input);
            let pitch = num::tdiv(34 * forward(input), 128);
            let roll = num::tdiv(34 * rightward(input), 128);
            let yaw = num::tdiv(15 * rightward(input), 128);
            &&& pitch != 0 ==> chases(c.w_pitch as int, r.w_pitch as int, pitch)
            &&& pitch == 0 ==> fades(c.w_pitch as int, r.w_pitch as int)
            &&& input.air_roll ==> fades(c.w_yaw as int, r.w_yaw as int)
            &&& !input.air_roll ==> fades(c.w_roll as int, r.w_roll as int)
            &&& input.air_roll && roll != 0 ==> chases(c.w_roll as int, r.w_roll as int, roll)
            &&& input.air_roll && roll == 0 ==> fades(c.w_roll as int, r.w_roll as int)
            &&& !input.air_roll && yaw != 0 ==> chases(c.w_yaw as int, r.w_yaw as int, yaw)
            &&& !input.air_roll && yaw == 0 ==> fades(c.w_yaw as int, r.w_yaw as int)
            &&& r.v == c.v && r.p == c.p && r.yaw == c.yaw && r.up == c.up
        }),
{
    reveal(vec3::damped);
}

/// A car in the air turns by its rates. Yaw turns its heading right for right. A
/// pitch whose sine is positive tips the roof toward the nose and the nose down;
/// a roll whose sine is positive tips the roof to the left.
pub proof fn law_a_car_in_the_air_turns_by_its_rates(t: Angles, c: Car, e: Entry)
    requires
        e.right == (V3 { x: 4096, y: 0, z: 0 }),
        e.up == (V3 { x: 0, y: 4096, z: 0 }),
        e.fwd == (V3 { x: 0, y: 0, z: 4096 }),
        crate::trig::is_wave(t.sine),
        crate::trig::is_wave(t.cosine),
    ensures
        ({
            let (roof, nose) = air::attitude(t, c, e);
            let r = air::tumbled(t, c, e);
            let dip = t.sin((c.w_pitch as int % 4096) as u16);
            let lean = t.sin((c.w_roll as int % 4096) as u16);
            &&& c.w_pitch != 0 && c.w_roll == 0 ==> roof.z == dip && nose.y == -dip && roof.x == 0
                && nose.x == 0
            &&& c.w_roll != 0 && c.w_pitch == 0 ==> roof.x == -lean && roof.z == 0 && nose == e.fwd
            &&& c.w_pitch == 0 && c.w_roll == 0 ==> r.up == c.up && driving::bend(c.yaw, r.yaw)
                == c.w_yaw
            &&& r.v == c.v && r.p == c.p
        }),
{
    driving::lemma_bend(c.yaw, c.w_yaw as int);
    let a = (c.w_pitch as int % 4096) as u16;
    let b = (c.w_roll as int % 4096) as u16;
    let (s, k) = (t.sin(a), t.cos(a));
    let (p, q) = (t.sin(b), t.cos(b));
    assert(-4096 <= s <= 4096 && -4096 <= k <= 4096 && -4096 <= p <= 4096 && -4096 <= q <= 4096);
    assert(0int * 0int == 0 && 4096int * 0 == 0 && 0int * 4096 == 0 && 4096int * 4096 == 16_777_216);
    assert(vec3::cross(e.right, e.up) == e.fwd && vec3::cross(e.right, e.fwd) == vec3::v3(0, -4096, 0)
        && vec3::cross(e.fwd, e.up) == vec3::v3(-4096, 0, 0)) by {
        reveal(vec3::cross_over);
    }
    reveal(vec3::along);
    assert(0 * s == 0 && 0 * k == 0 && 0 * p == 0 && 0 * q == 0) by (nonlinear_arith);
    assert((-4096) * s == -(4096 * s) && (-4096) * p == -(4096 * p)) by (nonlinear_arith);
    let (up, fwd) = (e.up, e.fwd);
    let (across, along) = (vec3::cross(e.right, up), vec3::cross(e.right, fwd));
    let side = vec3::cross(fwd, up);
    assert(vec3::along(up, k) == vec3::v3(0, k, 0) && vec3::along(across, s) == vec3::v3(0, 0, s));
    assert(vec3::along(fwd, k) == vec3::v3(0, 0, k) && vec3::along(along, s) == vec3::v3(0, -s, 0));
    assert(vec3::along(up, q) == vec3::v3(0, q, 0) && vec3::along(side, p) == vec3::v3(-p, 0, 0));
    assert(car::spun(t, up, e.right, c.w_pitch as int) == vec3::v3(0, k, s));
    assert(car::spun(t, fwd, e.right, c.w_pitch as int) == vec3::v3(0, -s, k));
    assert(car::spun(t, up, fwd, c.w_roll as int) == vec3::v3(-p, q, 0));
}

/// The throttle nudges a flying car along its nose the way it is pressed, 32/27 a
/// tick at full forward and half of that in reverse, with what rounding leaves
/// carried over. Off the throttle nothing is.
pub proof fn law_air_throttle_nudges_along_the_nose(c: Car, input: Input, e: Entry)
    requires
        c.v.within(0x10_0000),
        e.fwd.within(4096),
        -27 < c.air_throttle_rem < 27,
    ensures
        ({
            let r = air::air_pushed(c, input, e);
            let asked = if input.throttle >= 128 {
                32int
            } else if input.throttle <= -128 {
                -16int
            } else {
                0
            };
            let k = num::tdiv(c.air_throttle_rem + asked, 27);
            &&& input.throttle >= 128 || input.throttle <= -128 ==> {
                &&& driving::pushed(c.v, r.v, e.fwd, k)
                &&& 27 * k + r.air_throttle_rem == c.air_throttle_rem + asked
            }
            &&& input.throttle == 0 ==> r.v == c.v && r.air_throttle_rem == 0
            &&& r.p == c.p && r.yaw == c.yaw && r.up == c.up
        }),
{
    let th = num::clamp(input.throttle as int, -128, 128);
    if th == 128 || th == -128 {
        let due = air::air_due(c, th);
        driving::lemma_pushed(c.v, e.fwd, num::tdiv(due, 27));
    }
}

/// While the button is held after a jump off level ground the car keeps gaining
/// climb, and nothing else; once it is let go past the shortest hold it gains no
/// more, and the time left for a second jump starts to run: 75 ticks.
pub proof fn law_holding_the_button_jumps_higher(c: Car, button: bool)
    requires
        c.v.within(0x10_0000),
        c.jump_holding,
        c.jump_normal == (V3 { x: 0, y: 4096, z: 0 }),
        0 <= c.jump_bonus_rem < 27,
        0 <= c.jump_sticky_rem < 9,
    ensures
        ({
            let r = air::held(c, button);
            &&& r.v.x == c.v.x && r.v.z == c.v.z
            &&& c.v.y <= r.v.y <= c.v.y + 26
            &&& button && c.jump_slices <= 22 ==> r.v.y >= c.v.y + 18
            &&& button && 3 <= c.jump_slices <= 22 ==> r.v.y >= c.v.y + 24
            &&& button && c.jump_slices < 22 ==> r.jump_holding
            &&& !button && c.jump_min_left == 0 ==> r.v == c.v && !r.jump_holding && r.dodge_window
                == 75
            &&& c.jump_slices >= 24 ==> r.v == c.v && !r.jump_holding && r.dodge_window == 75
        }),
{
    reveal(air::held);
    lemma_slice(c, button);
    lemma_slice(air::sliced(c, button), button);
}

proof fn lemma_slice(c: Car, button: bool)
    requires
        c.v.within(0x20_0000),
        c.jump_normal == (V3 { x: 0, y: 4096, z: 0 }),
        0 <= c.jump_bonus_rem < 27,
        0 <= c.jump_sticky_rem < 9,
    ensures
        ({
            let r = air::sliced(c, button);
            let runs = c.jump_slices < 24 && (c.jump_min_left > 0 || button);
            &&& r.v.x == c.v.x && r.v.z == c.v.z
            &&& r.jump_normal == c.jump_normal
            &&& 0 <= r.jump_bonus_rem < 27
            &&& 0 <= r.jump_sticky_rem < 9
            &&& c.jump_holding && runs ==> {
                &&& c.v.y + 9 <= r.v.y <= c.v.y + 13
                &&& c.jump_slices >= 3 ==> r.v.y >= c.v.y + 12
                &&& r.jump_slices == c.jump_slices + 1
                &&& r.jump_holding
            }
            &&& !(c.jump_holding && runs) ==> r.v == c.v && !r.jump_holding && r.jump_slices
                == c.jump_slices
        }),
{
    reveal(vec3::along);
    let bonus = c.jump_bonus_rem + 350;
    let sticky = c.jump_sticky_rem + 26;
    let (k, j) = (num::tdiv(bonus, 27), num::tdiv(sticky, 9));
    assert(0 * k == 0 && 0 * (-j) == 0) by (nonlinear_arith);
}

} // verus!
