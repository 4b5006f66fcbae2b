//! What the wheel, the pedals and the tyres do to a car on its wheels.

use vstd::prelude::*;
use crate::car;
use crate::car::{Car, Input};
use crate::curve;
use crate::drive;
use crate::drive::Entry;
use crate::num;
use crate::tuning::{LAT_FRICTION, SLIDE_STEER_CURVE, STEER_CURVE, TORQUE_CURVE};
use crate::vec3;
use crate::vec3::V3;

verus! {

/// The short way round from one heading to another, right positive.
pub open spec fn bend(from: u16, to: u16) -> int {
    (to - from + 32768) % 65536 - 32768
}

// ---- steering ----------------------------------------------------------------

/// Rolling backward turns a car the other way: at the same speed astern the same
/// wheel gives exactly the opposite change of heading. The wheel itself is set
/// alike either way.
pub proof fn law_reversing_turns_the_other_way(c: Car, input: Input, ahead: Entry, astern: Entry)
    requires
        c.grounded,
        0 <= c.slide <= 1024,
        0 < ahead.along <= 10_000,
        astern.along == -ahead.along,
        0 <= ahead.speed,
        astern.speed == ahead.speed,
    ensures
        ({
            let (a, b) = (drive::steered(c, input, ahead), drive::steered(c, input, astern));
            &&& a.steer == b.steer
            &&& a.slide == b.slide
            &&& bend(c.yaw, b.yaw) == -bend(c.yaw, a.yaw)
        }),
{
    lemma_turned(c, input, ahead);
    lemma_turned(c, input, astern);
    lemma_same_lock(c, input, ahead, astern);
    let steer = drive::steered(c, input, ahead).steer as int;
    let p = ahead.along * steer;
    assert(astern.along * steer == -p) by (nonlinear_arith)
        requires
            p == ahead.along * steer,
            astern.along == -ahead.along,
    ;
}

/// A grounded car turns the way the wheel points while it rolls forward and the
/// other way while it rolls backward, and it turns for sure once it rolls at a
/// walking pace with the wheel hard over. In the air the wheel turns nothing.
pub proof fn law_the_nose_follows_the_wheel(c: Car, input: Input, e: Entry)
    requires
        0 <= c.slide <= 1024,
        0 <= e.speed,
        -10_000 <= e.along <= 10_000,
    ensures
        ({
            let turn = bend(c.yaw, drive::steered(c, input, e).yaw);
            &&& !c.grounded ==> turn == 0
            &&& e.along == 0 || input.steer == 0 ==> turn == 0
            &&& e.along > 0 && input.steer > 0 ==> turn >= 0
            &&& e.along > 0 && input.steer < 0 ==> turn <= 0
            &&& e.along < 0 && input.steer > 0 ==> turn <= 0
            &&& e.along < 0 && input.steer < 0 ==> turn >= 0
            &&& c.grounded && e.along >= 241 && input.steer >= 128 ==> turn > 0
            &&& c.grounded && e.along >= 241 && input.steer <= -128 ==> turn < 0
            &&& c.grounded && e.along <= -241 && input.steer >= 128 ==> turn < 0
            &&& c.grounded && e.along <= -241 && input.steer <= -128 ==> turn > 0
        }),
{
    lemma_turned(c, input, e);
    lemma_wheel(c, input, e);
    let steer = drive::steered(c, input, e).steer as int;
    let along = e.along as int;
    let p = along * steer;
    assert(along > 0 && steer > 0 ==> p >= along && p >= steer) by (nonlinear_arith)
        requires
            p == along * steer,
    ;
    assert(along > 0 && steer < 0 ==> p <= -along && p <= steer) by (nonlinear_arith)
        requires
            p == along * steer,
    ;
    assert(along < 0 && steer > 0 ==> p <= along && p <= -steer) by (nonlinear_arith)
        requires
            p == along * steer,
    ;
    assert(along < 0 && steer < 0 ==> p >= -along && p >= -steer) by (nonlinear_arith)
        requires
            p == along * steer,
    ;
    assert(along == 0 || steer == 0 ==> p == 0) by (nonlinear_arith)
        requires
            p == along * steer,
    ;
    assert(along >= 241 && steer >= 142 ==> p >= 34_222) by (nonlinear_arith)
        requires
            p == along * steer,
    ;
    assert(along >= 241 && steer <= -142 ==> p <= -34_222) by (nonlinear_arith)
        requires
            p == along * steer,
    ;
    assert(along <= -241 && steer >= 142 ==> p <= -34_222) by (nonlinear_arith)
        requires
            p == along * steer,
    ;
    assert(along <= -241 && steer <= -142 ==> p >= 34_222) by (nonlinear_arith)
        requires
            p == along * steer,
    ;
}

/// The heading turns by the forward speed times the wheel, over 34190, and no
/// further.
pub proof fn law_the_turn_is_speed_times_wheel(c: Car, input: Input, e: Entry)
    requires
        c.grounded,
        0 <= c.slide <= 1024,
        0 <= e.speed,
        -10_000 <= e.along <= 10_000,
    ensures
        ({
            let r = drive::steered(c, input, e);
            num::abs(34190 * bend(c.yaw, r.yaw) - e.along * r.steer) < 34190
        }),
{
    lemma_turned(c, input, e);
}

/// The wheel goes where the stick asks, and a stick pushed past its stop asks no
/// more than one on it. Full lock is 2431 at a standstill and 142 past 3200;
/// a full slide steers 1697 at a standstill and 519 past 2667.
pub proof fn law_the_wheel_follows_the_stick(c: Car, input: Input, e: Entry)
    requires
        0 <= c.slide <= 1024,
        0 <= e.speed,
    ensures
        ({
            let steer = drive::steered(c, input, e).steer;
            let other = Input { steer: (-input.steer) as i32, ..input };
            let slide = drive::steered(c, input, e).slide;
            &&& input.steer == 0 ==> steer == 0
            &&& input.steer > 0 ==> 0 < steer <= 2431
            &&& input.steer < 0 ==> -2431 <= steer < 0
            &&& input.steer > i32::MIN ==> drive::steered(c, other, e).steer == -steer
            &&& input.steer >= 128 ==> steer >= 142
            &&& input.steer <= -128 ==> steer <= -142
            &&& slide == 0 && e.speed == 0 && input.steer >= 128 ==> steer == 2431
            &&& slide == 0 && e.speed > 3200 && input.steer >= 128 ==> steer == 142
            &&& slide == 1024 && e.speed == 0 && input.steer >= 128 ==> steer == 1697
            &&& slide == 1024 && e.speed > 2667 && input.steer >= 128 ==> steer == 519
        }),
{
    lemma_wheel(c, input, e);
    reveal(drive::steered);
    lemma_lock(e.speed as int, drive::slide_next(c.slide as int, input.handbrake));
    let lock = drive::steer_lock(e.speed as int, drive::slide_next(c.slide as int, input.handbrake));
    let want = num::clamp(input.steer as int, -128, 128);
    assert(lock * (-want) == -(lock * want)) by (nonlinear_arith);
    assert(want == 128 ==> lock * want == 128 * lock) by (nonlinear_arith);
    num::lemma_mul_bound(lock, want, 2431, 128);
}

/// The handbrake lets the tyres go within thirteen ticks and gives them back in
/// thirty-one.
pub proof fn law_the_handbrake_lets_go(c: Car, input: Input, e: Entry)
    requires
        0 <= c.slide <= 1024,
    ensures
        ({
            let r = drive::steered(c, input, e);
            &&& input.handbrake ==> r.slide == num::min(c.slide + 85, 1024)
            &&& !input.handbrake ==> r.slide == num::max(c.slide - 34, 0)
        }),
{
    reveal(drive::steered);
}

proof fn lemma_lock(speed: int, slide: int)
    requires
        0 <= slide <= 1024,
        0 <= speed,
    ensures
        142 <= drive::steer_lock(speed, slide) <= 2431,
        slide == 0 && speed == 0 ==> drive::steer_lock(speed, slide) == 2431,
        slide == 0 && speed > 3200 ==> drive::steer_lock(speed, slide) == 142,
        slide == 1024 && speed == 0 ==> drive::steer_lock(speed, slide) == 1697,
        slide == 1024 && speed > 2667 ==> drive::steer_lock(speed, slide) == 519,
{
    let (a, b) = (STEER_CURVE@, SLIDE_STEER_CURVE@);
    curve::law_value_stays_in_range(a, speed, 142, 2431);
    curve::law_value_stays_in_range(b, speed, 519, 1697);
    reveal_with_fuel(curve::value_from, 7);
    let lock = curve::value(a, speed);
    let loose = curve::value(b, speed);
    let gap = loose - lock;
    let q = gap * slide;
    assert(gap >= 0 ==> 0 <= q <= 1024 * gap) by (nonlinear_arith)
        requires
            q == gap * slide,
            0 <= slide <= 1024,
    ;
    assert(gap < 0 ==> 1024 * gap <= q <= 0) by (nonlinear_arith)
        requires
            q == gap * slide,
            0 <= slide <= 1024,
    ;
    assert(slide == 0 ==> q == 0 && slide == 1024 ==> q == 1024 * gap) by (nonlinear_arith)
        requires
            q == gap * slide,
    ;
    assert(slide == 1024 ==> q == 1024 * gap) by (nonlinear_arith)
        requires
            q == gap * slide,
    ;
}

proof fn lemma_wheel(c: Car, input: Input, e: Entry)
    requires
        0 <= c.slide <= 1024,
        0 <= e.speed,
    ensures
        ({
            let steer = drive::steered(c, input, e).steer;
            &&& -2431 <= steer <= 2431
            &&& input.steer == 0 ==> steer == 0
            &&& input.steer > 0 ==> steer > 0
            &&& input.steer < 0 ==> steer < 0
            &&& input.steer >= 128 ==> steer >= 142
            &&& input.steer <= -128 ==> steer <= -142
        }),
{
    reveal(drive::steered);
    let slide = drive::slide_next(c.slide as int, input.handbrake);
    lemma_lock(e.speed as int, slide);
    let lock = drive::steer_lock(e.speed as int, slide);
    let want = num::clamp(input.steer as int, -128, 128);
    let p = lock * want;
    num::lemma_mul_bound(lock, want, 2431, 128);
    assert(want > 0 ==> p >= 142 * want) by (nonlinear_arith)
        requires
            p == lock * want,
            lock >= 142,
    ;
    assert(want < 0 ==> p <= 142 * want) by (nonlinear_arith)
        requires
            p == lock * want,
            lock >= 142,
    ;
    assert(want == 0 ==> p == 0) by (nonlinear_arith)
        requires
            p == lock * want,
    ;
}

pub proof fn lemma_bend(yaw: u16, by: int)
    requires
        -32768 <= by < 32768,
    ensures
        bend(yaw, car::turned(yaw, by)) == by,
{
    let sum = yaw + by;
    if sum < 0 {
        assert(sum % 65536 == sum + 65536);
    } else if sum >= 65536 {
        assert(sum % 65536 == sum - 65536);
    } else {
        assert(sum % 65536 == sum);
    }
}

proof fn lemma_same_lock(c: Car, input: Input, a: Entry, b: Entry)
    requires
        a.speed == b.speed,
    ensures
        drive::steered(c, input, a).steer == drive::steered(c, input, b).steer,
        drive::steered(c, input, a).slide == drive::steered(c, input, b).slide,
{
    reveal(drive::steered);
}

/// The change of heading is the speed times the wheel over 34190, rounded toward
/// none.
proof fn lemma_turned(c: Car, input: Input, e: Entry)
    requires
        0 <= c.slide <= 1024,
        -10_000 <= e.along <= 10_000,
    ensures
        ({
            let r = drive::steered(c, input, e);
            let p = e.along * r.steer;
            &&& c.grounded && 0 <= e.speed ==> bend(c.yaw, r.yaw) == num::tdiv(p, 34190)
            &&& !c.grounded ==> bend(c.yaw, r.yaw) == 0
        }),
{
    reveal(drive::steered);
    if c.grounded && 0 <= e.speed {
        lemma_wheel(c, input, e);
        let slide = drive::slide_next(c.slide as int, input.handbrake);
        lemma_lock(e.speed as int, slide);
        let want = num::clamp(input.steer as int, -128, 128);
        num::lemma_mul_bound(drive::steer_lock(e.speed as int, slide), want, 2431, 128);
        let steer = drive::steered(c, input, e).steer as int;
        let along = e.along as int;
        num::lemma_mul_bound(along, steer, 10_000, 2431);
        assert(along < 0 ==> num::abs(along) * steer == -(along * steer)) by (nonlinear_arith)
            requires
                num::abs(along) == if along < 0 {
                    -along
                } else {
                    along
                },
        ;
        let rate = drive::steer_rate(along, steer);
        assert(rate == num::tdiv(along * steer, 34190));
        lemma_bend(c.yaw, rate);
    }
}

// ---- boost, throttle and brakes ------------------------------------------------

/// One velocity is another with `k` more along a Q12 direction, rounded down on
/// each axis.
pub open spec fn pushed(before: V3, after: V3, dir: V3, k: int) -> bool {
    &&& 0 <= dir.x * k - 4096 * (after.x - before.x) < 4096
    &&& 0 <= dir.y * k - 4096 * (after.y - before.y) < 4096
    &&& 0 <= dir.z * k - 4096 * (after.z - before.z) < 4096
}

pub proof fn lemma_pushed(v: V3, dir: V3, k: int)
    requires
        v.within(0x1000_0000),
        dir.within(4096),
        num::abs(k) <= 0x1000_0000,
    ensures
        pushed(v, vec3::added(v, dir, k), dir, k),
{
    reveal(vec3::along);
    num::lemma_mul_bound(dir.x as int, k, 4096, 0x1000_0000);
    num::lemma_mul_bound(dir.y as int, k, 4096, 0x1000_0000);
    num::lemma_mul_bound(dir.z as int, k, 4096, 0x1000_0000);
}

/// Boost burns while the button is down or a burn is owed, as long as there is a
/// tick's worth of fuel: it takes 36 from the tank and pushes the car along its
/// nose, by 476/27 a tick on its wheels and by 508/27 in the air, with what
/// rounding leaves carried over. Not burning, it changes no speed.
pub proof fn law_boost_pushes_along_the_nose(c: Car, input: Input, e: Entry)
    requires
        c.v.within(0x10_0000),
        e.fwd.within(4096),
        0 <= c.boost_rem < 27,
        0 <= c.boost <= 6400,
    ensures
        ({
            let r = drive::boosted(c, input, e);
            let due = c.boost_rem + if c.grounded {
                476int
            } else {
                508int
            };
            let k = (due - r.boost_rem) / 27;
            &&& r.boosting == (c.boost >= 36 && (input.boost || c.boost_ticks > 0))
            &&& r.boosting ==> {
                &&& r.boost == c.boost - 36
                &&& 0 <= r.boost_rem < 27
                &&& 27 * k + r.boost_rem == due
                &&& pushed(c.v, r.v, e.fwd, k)
            }
            &&& !r.boosting ==> r.v == c.v && r.boost == c.boost && r.boost_rem == 0
            &&& r.p == c.p && r.yaw == c.yaw && r.up == c.up && r.grounded == c.grounded
        }),
{
    reveal(drive::boosted);
    let due = drive::boost_due(c);
    lemma_pushed(c.v, e.fwd, num::tdiv(due, 27));
}

/// The throttle pushes the car along its nose the way it is pressed, and never
/// the other: up to 28 while it drives the way it rolls, less the faster it goes
/// and nothing from 1504 on, and 62 against the way it rolls.
pub proof fn law_the_throttle_pushes_along_the_nose(c: Car, input: Input, e: Entry)
    requires
        c.v.within(0x10_0000),
        e.fwd.within(4096),
        input.throttle != 0,
        -0x10_0000 <= e.along <= 0x10_0000,
    ensures
        ({
            let r = drive::engine(c, input, e);
            let k = drive::throttle_accel(num::clamp(input.throttle as int, -128, 128), e.along as int);
            &&& pushed(c.v, r, e.fwd, k)
            &&& input.throttle > 0 ==> 0 <= k <= 62
            &&& input.throttle < 0 ==> -62 <= k <= 0
            &&& input.throttle >= 128 && e.along == 0 ==> k == 28
            &&& input.throttle >= 128 && 0 <= e.along <= 1400 ==> 2 <= k <= 28
            &&& input.throttle > 0 && e.along > 1504 ==> k == 0
            &&& input.throttle < 0 && e.along < -1504 ==> k == 0
            &&& input.throttle >= 128 && e.along < 0 ==> k == 62
            &&& input.throttle <= -128 && e.along >= 0 ==> k == -62
        }),
{
    let th = num::clamp(input.throttle as int, -128, 128);
    let along = num::abs(e.along as int);
    curve::law_value_stays_in_range(TORQUE_CURVE@, along, 0, 1024);
    reveal_with_fuel(curve::value_from, 4);
    let torque = curve::value(TORQUE_CURVE@, along);
    if 0 < along <= 1400 {
        let q = (102 - 1024) * along;
        assert(torque == 1024 + num::tdiv(q, 1493));
        assert(torque >= 150);
    }
    let base = if (th > 0) == (e.along >= 0) {
        (28 * torque) / 1024
    } else {
        62
    };
    let p = base * th;
    assert(th > 0 ==> 0 <= p <= base * 128) by (nonlinear_arith)
        requires
            p == base * th,
            0 <= base,
            th <= 128,
    ;
    assert(th < 0 ==> -(base * 128) <= p <= 0) by (nonlinear_arith)
        requires
            p == base * th,
            0 <= base,
            -128 <= th,
    ;
    assert(th == 128 ==> p == base * 128) by (nonlinear_arith)
        requires
            p == base * th,
    ;
    assert(th == -128 ==> p == -(base * 128)) by (nonlinear_arith)
        requires
            p == base * th,
    ;
    lemma_pushed(c.v, e.fwd, drive::throttle_accel(th, e.along as int));
}

/// Off the throttle the car slows down and never backs up: every component of its
/// velocity shrinks toward none, and a crawl on level ground stops.
pub proof fn law_a_coasting_car_slows(c: Car, input: Input, e: Entry)
    requires
        c.v.within(0x10_0000),
        input.throttle == 0,
        0 <= e.speed <= 46_340,
    ensures
        ({
            let r = drive::engine(c, input, e);
            &&& c.v.x >= 0 ==> 0 <= r.x <= c.v.x
            &&& c.v.x <= 0 ==> c.v.x <= r.x <= 0
            &&& c.v.z >= 0 ==> 0 <= r.z <= c.v.z
            &&& c.v.z <= 0 ==> c.v.z <= r.z <= 0
            &&& e.speed <= 9 && c.up.y > 3600 ==> r.x == 0 && r.z == 0
            &&& e.speed > 9 && c.v.z == e.speed ==> r.z == c.v.z - 9
            &&& e.speed > 9 && c.v.x == e.speed ==> r.x == c.v.x - 9
        }),
{
    if e.speed > 9 {
        reveal(vec3::scaled);
        lemma_coast(c.v.x as int, e.speed as int);
        lemma_coast(c.v.y as int, e.speed as int);
        lemma_coast(c.v.z as int, e.speed as int);
    }
}

proof fn lemma_coast(v: int, speed: int)
    requires
        speed > 9,
    ensures
        v >= 0 ==> 0 <= num::tdiv(v * 9, speed) <= v,
        v <= 0 ==> v <= num::tdiv(v * 9, speed) <= 0,
        v == speed ==> num::tdiv(v * 9, speed) == 9,
{
    if v >= 0 {
        assert(0 <= (v * 9) / speed <= v) by (nonlinear_arith)
            requires
                v >= 0,
                speed > 9,
        ;
    } else {
        assert(0 <= (-(v * 9)) / speed <= -v) by (nonlinear_arith)
            requires
                v < 0,
                speed > 9,
        ;
    }
    assert(v == speed ==> (v * 9) / speed == 9) by (nonlinear_arith)
        requires
            speed > 9,
    ;
}

// ---- tyres ------------------------------------------------------------------

/// The tyres push against the way the car slides, never past a stop. Gripping,
/// they take at least fifteen hundredths of the sideways speed and at most 780 in
/// 1024 of it; in a full slide no more than 78 in 1024.
pub proof fn law_the_tyres_stop_the_slide(v: V3, e: Entry, slide: int)
    requires
        v.within(0x10_0000),
        e.right.within(4096),
        -0x10_0000 <= e.along <= 0x10_0000,
        0 <= slide <= 1024,
    ensures
        ({
            let r = drive::gripped(v, e, slide);
            let sideways = vec3::dot(v, e.right);
            let k = vec3::damped(sideways, drive::tyre_grip(sideways, e.along as int, slide));
            &&& pushed(v, r, e.right, -k)
            &&& sideways >= 0 ==> 0 <= k && 1024 * k <= 780 * sideways
            &&& sideways <= 0 ==> k <= 0 && 1024 * k >= 780 * sideways - 1023
            &&& slide == 0 && sideways >= 0 ==> 1024 * k >= 156 * sideways - 1023
            &&& slide == 0 && sideways <= 0 ==> 1024 * k <= 156 * sideways
            &&& slide == 1024 && sideways >= 0 ==> 1024 * k <= 78 * sideways
            &&& slide == 1024 && sideways <= 0 ==> 1024 * k >= 78 * sideways - 1023
            &&& slide == 0 && 0 <= sideways <= 6 ==> 1024 * k >= 780 * sideways - 1023
        }),
{
    vec3::lemma_dot(v, e.right, 0x10_0000);
    let s = vec3::dot(v, e.right);
    let share = drive::slip_share(s, e.along as int);
    curve::law_value_stays_in_range(LAT_FRICTION@, share, 205, 1024);
    let lat = curve::value(LAT_FRICTION@, share);
    let grip = (780 * lat) / 1024;
    let lost = (grip * 922) / 1024;
    let p = lost * slide;
    assert(0 <= p <= 1024 * lost) by (nonlinear_arith)
        requires
            p == lost * slide,
            0 <= lost,
            0 <= slide <= 1024,
    ;
    assert(slide == 1024 ==> p == 1024 * lost) by (nonlinear_arith)
        requires
            p == lost * slide,
    ;
    assert(slide == 0 ==> p == 0) by (nonlinear_arith)
        requires
            p == lost * slide,
    ;
    let g = drive::tyre_grip(s, e.along as int, slide);
    assert(0 <= g <= 780);
    assert(slide == 0 ==> g >= 156);
    assert(slide == 1024 ==> g <= 78);
    assert(slide == 0 && 0 <= s <= 6 ==> g == 780);
    reveal(vec3::damped);
    let q = s * g;
    assert(s >= 0 ==> 0 <= q <= 780 * s) by (nonlinear_arith)
        requires
            q == s * g,
            0 <= g <= 780,
    ;
    assert(s <= 0 ==> 780 * s <= q <= 0) by (nonlinear_arith)
        requires
            q == s * g,
            0 <= g <= 780,
    ;
    assert(s >= 0 && g >= 156 ==> q >= 156 * s) by (nonlinear_arith)
        requires
            q == s * g,
    ;
    assert(s <= 0 && g >= 156 ==> q <= 156 * s) by (nonlinear_arith)
        requires
            q == s * g,
    ;
    assert(s >= 0 && g <= 78 ==> q <= 78 * s) by (nonlinear_arith)
        requires
            q == s * g,
    ;
    assert(s <= 0 && g <= 78 ==> q >= 78 * s) by (nonlinear_arith)
        requires
            q == s * g,
    ;
    assert(g == 780 ==> q == 780 * s) by (nonlinear_arith)
        requires
            q == s * g,
    ;
    lemma_pushed(v, e.right, -vec3::damped(s, g));
}

// ---- the jump ----------------------------------------------------------------

/// A jump throws the car 311 along the normal of the surface it stands on. It is
/// off its wheels then, with one jump used.
pub proof fn law_a_jump_leaves_along_the_surface_normal(c: Car, e: Entry)
    requires
        c.v.within(0x10_0000),
        e.up.within(4096),
    ensures
        ({
            let r = drive::jumped(c, e);
            &&& pushed(c.v, r.v, e.up, 311)
            &&& !r.grounded
            &&& r.jumps_used == 1
            &&& r.jump_holding
            &&& r.jump_normal == e.up
            &&& r.p == c.p && r.yaw == c.yaw
        }),
{
    lemma_pushed(c.v, e.up, 311);
}

/// Driving a car that faces straight up the pitch: the throttle changes its speed
/// up the pitch alone, the tyres its speed across it alone, and a jump its climb.
pub proof fn law_driving_straight_up_the_pitch(c: Car, input: Input, e: Entry)
    requires
        c.v.within(10_000),
        0 <= c.slide <= 1024,
        e.fwd == (V3 { x: 0, y: 0, z: 4096 }),
        e.right == (V3 { x: 4096, y: 0, z: 0 }),
        e.up == (V3 { x: 0, y: 4096, z: 0 }),
        e.along == c.v.z,
        input.throttle != 0,
    ensures
        ({
            let r = drive::driven(c, input, e);
            &&& input.throttle > 0 ==> c.v.z <= r.v.z <= c.v.z + 62
            &&& input.throttle < 0 ==> c.v.z - 62 <= r.v.z <= c.v.z
            &&& input.throttle >= 128 && 0 <= c.v.z <= 1400 ==> c.v.z + 2 <= r.v.z <= c.v.z + 28
            &&& input.throttle <= -128 && c.v.z >= 0 ==> r.v.z == c.v.z - 62
            &&& c.v.x >= 0 ==> 0 <= r.v.x <= c.v.x
            &&& c.v.x <= 0 ==> c.v.x <= r.v.x <= 0
            &&& c.slide == 0 && c.v.x >= 0 ==> 1024 * (c.v.x - r.v.x) >= 156 * c.v.x - 1023
            &&& input.jump_pressed ==> r.v.y == c.v.y + 311 && !r.grounded
            &&& !input.jump_pressed ==> r.v.y == c.v.y && r.grounded == c.grounded
        }),
{
    reveal(drive::driven);
    law_the_throttle_pushes_along_the_nose(c, input, e);
    let driven = drive::engine(c, input, e);
    let k = drive::throttle_accel(num::clamp(input.throttle as int, -128, 128), e.along as int);
    lemma_zero(k);
    assert(driven.x == c.v.x && driven.y == c.v.y && driven.z == c.v.z + k);
    law_the_tyres_stop_the_slide(driven, e, c.slide as int);
    reveal(vec3::dot);
    let (x, y, z) = (driven.x as int, driven.y as int, driven.z as int);
    assert(y * 0 == 0 && z * 0 == 0 && x * 4096 == 4096 * x);
    let sideways = vec3::dot(driven, e.right);
    assert(sideways == x);
    let g = vec3::damped(sideways, drive::tyre_grip(sideways, e.along as int, c.slide as int));
    lemma_zero(-g);
    let held = drive::gripped(driven, e, c.slide as int);
    assert(held.x == driven.x - g && held.y == driven.y && held.z == driven.z);
    let rolling = Car { v: held, ..c };
    law_a_jump_leaves_along_the_surface_normal(rolling, e);
}

proof fn lemma_zero(k: int)
    ensures
        0 * k == 0,
{
    assert(0 * k == 0) by (nonlinear_arith);
}

} // verus!
