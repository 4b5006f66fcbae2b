//! Two cars running into each other, whichever of them is which.

use vstd::prelude::*;
use crate::car::Car;
use crate::contact;
use crate::num;
use crate::play;
use crate::sim::Sim;
use crate::trig::Angles;
use crate::vec3;

verus! {

/// The same match with the two cars in each other's seats.
pub open spec fn swapped(s: Sim) -> Sim {
    Sim { car: s.opponent, opponent: s.car, ..s }
}

/// A car but for where it is and how soon it can bump again.
pub open spec fn beside_place(c: Car) -> Car {
    Car { p: vec3::zero3(), bump_cool: 0, ..c }
}

/// Two places no more than a sub-unit apart on any axis.
pub open spec fn same_place(a: vec3::V3, b: vec3::V3) -> bool {
    &&& -1 <= a.x - b.x <= 1
    &&& a.y == b.y
    &&& -1 <= a.z - b.z <= 1
}

/// Neither car is favoured: put each in the other's seat, and what happens to it
/// is what happened to it before. Only a rounding of where they are pushed apart
/// to tells the seats from each other.
pub proof fn law_neither_car_is_favoured(t: Angles, s: Sim)
    requires
        s.car.p.within(0x1000_0000),
        s.opponent.p.within(0x1000_0000),
    ensures
        ({
            let (a, b) = (play::cars_met(t, s), play::cars_met(t, swapped(s)));
            &&& beside_place(b.car) == beside_place(a.opponent)
            &&& beside_place(b.opponent) == beside_place(a.car)
            &&& same_place(b.car.p, a.opponent.p)
            &&& same_place(b.opponent.p, a.car.p)
            &&& b.demo == a.demo
            &&& !a.opponent.is_wrecked() ==> b.car.bump_cool == a.opponent.bump_cool
            &&& !a.car.is_wrecked() ==> b.opponent.bump_cool == a.car.bump_cool
        }),
{
    reveal(play::cars_met);
    let r = swapped(s);
    assert(contact::rammed(t, r.car, r.opponent) == contact::rammed(t, s.opponent, s.car));
    if !s.car.is_wrecked() && !s.opponent.is_wrecked() {
        let (p, q) = (play::traded(t, s), play::traded(t, r));
        assert(beside_place(q.car) == beside_place(p.opponent));
        assert(beside_place(q.opponent) == beside_place(p.car));
        assert(p.car.p == s.car.p && p.opponent.p == s.opponent.p);
        assert(q.car.p == s.opponent.p && q.opponent.p == s.car.p);
        lemma_parted_alike(p, q);
    }
}

proof fn lemma_parted_alike(p: Sim, q: Sim)
    requires
        p.car.p.within(0x1000_0000),
        p.opponent.p.within(0x1000_0000),
        q.car.p == p.opponent.p,
        q.opponent.p == p.car.p,
        q.car.demo_timer == p.opponent.demo_timer,
        q.opponent.demo_timer == p.car.demo_timer,
    ensures
        same_place(play::separated(q).car.p, play::separated(p).opponent.p),
        same_place(play::separated(q).opponent.p, play::separated(p).car.p),
        play::overlapping(p) == play::overlapping(q),
{
    let dx = p.opponent.p.x - p.car.p.x;
    let dz = p.opponent.p.z - p.car.p.z;
    assert((-dx) * (-dx) == dx * dx && (-dz) * (-dz) == dz * dz) by (nonlinear_arith);
    let dist = num::root(dx * dx + dz * dz);
    lemma_flat_gap(dx, dz);
    if play::overlapping(p) {
        lemma_parting(dx, dist);
        lemma_parting(dz, dist);
    }
}

/// How far a car is pushed along one axis: away, no further than the overlap, and
/// the same either way to a sub-unit.
proof fn lemma_parting(d: int, dist: int)
    requires
        num::abs(d) <= dist,
        0 < dist < 10752,
    ensures
        -1 <= play::parting(d, dist) + play::parting(-d, dist) <= 0,
        num::abs(play::parting(d, dist)) <= 5376,
        num::abs(play::parting(-d, dist)) <= 5376,
        d >= 0 ==> play::parting(d, dist) >= 0,
        d <= 0 ==> play::parting(d, dist) <= 0,
{
    let k = num::tdiv(d * 4096, dist);
    assert(-d * 4096 == -(d * 4096));
    assert(num::tdiv(-d * 4096, dist) == -k);
    let h = (contact::CAR_REACH - dist) / 2;
    num::lemma_tdiv_bound(d * 4096, dist, 4096);
    num::lemma_mul_bound(k, h, 4096, h);
    assert((-k) * h == -(k * h)) by (nonlinear_arith);
    assert(d >= 0 ==> k >= 0) by (nonlinear_arith)
        requires
            k == if d * 4096 >= 0 {
                (d * 4096) / dist
            } else {
                -((-(d * 4096)) / dist)
            },
            dist > 0,
    ;
    assert(d <= 0 ==> k <= 0) by (nonlinear_arith)
        requires
            k == if d * 4096 >= 0 {
                (d * 4096) / dist
            } else {
                -((-(d * 4096)) / dist)
            },
            dist > 0,
    ;
    assert(k >= 0 ==> k * h >= 0) by (nonlinear_arith)
        requires
            h >= 0,
    ;
    assert(k <= 0 ==> k * h <= 0) by (nonlinear_arith)
        requires
            h >= 0,
    ;
}

proof fn lemma_flat_gap(dx: int, dz: int)
    ensures
        num::abs(dx) <= num::root(dx * dx + dz * dz),
        num::abs(dz) <= num::root(dx * dx + dz * dz),
{
    assert(dx * dx >= 0 && dz * dz >= 0) by (nonlinear_arith);
    vec3::lemma_root_exists(dx * dx + dz * dz);
    let r = num::root(dx * dx + dz * dz);
    num::lemma_root_covers(r, dx * dx + dz * dz, dx);
    num::lemma_root_covers(r, dx * dx + dz * dz, dz);
}

/// Two cars inside each other are parted: away from each other on both axes, and
/// each as far as the other, so that the point halfway stays where it was. Cars
/// clear of each other stay where they are, and height never changes.
pub proof fn law_cars_inside_each_other_part(t: Angles, s: Sim)
    requires
        s.car.p.within(0x1000_0000),
        s.opponent.p.within(0x1000_0000),
    ensures
        ({
            let r = play::cars_met(t, s);
            let (dx, dz) = (s.opponent.p.x - s.car.p.x, s.opponent.p.z - s.car.p.z);
            let (ex, ez) = (r.opponent.p.x - r.car.p.x, r.opponent.p.z - r.car.p.z);
            &&& r.car.p.x + r.opponent.p.x == s.car.p.x + s.opponent.p.x
            &&& r.car.p.z + r.opponent.p.z == s.car.p.z + s.opponent.p.z
            &&& r.car.p.y == s.car.p.y && r.opponent.p.y == s.opponent.p.y
            &&& dx >= 0 ==> ex >= dx
            &&& dx <= 0 ==> ex <= dx
            &&& dz >= 0 ==> ez >= dz
            &&& dz <= 0 ==> ez <= dz
            &&& dx * dx + dz * dz >= 10752 * 10752 ==> ex == dx && ez == dz
        }),
{
    reveal(play::cars_met);
    let (dx, dz) = (s.opponent.p.x - s.car.p.x, s.opponent.p.z - s.car.p.z);
    let dist = num::root(dx * dx + dz * dz);
    lemma_flat_gap(dx, dz);
    assert(dx * dx >= 0 && dz * dz >= 0) by (nonlinear_arith);
    vec3::lemma_root_exists(dx * dx + dz * dz);
    if dx * dx + dz * dz >= 10752 * 10752 {
        num::lemma_root_covers(dist, dx * dx + dz * dz, 10752);
    }
    if 0 < dist < 10752 {
        lemma_parting(dx, dist);
        lemma_parting(dz, dist);
    }
}

// ---- wrecks and shoves -----------------------------------------------------

/// A supersonic car that rams another wrecks it, whichever of the two it is and
/// however fast the other goes: the victim is left standing empty for three
/// seconds, and the wreck is called out.
pub proof fn law_a_supersonic_ram_wrecks_either_car(t: Angles, s: Sim)
    requires
        !s.car.is_wrecked(),
        !s.opponent.is_wrecked(),
    ensures
        ({
            let r = play::cars_met(t, s);
            &&& contact::rams(t, s.opponent, s.car) && s.opponent.supersonic
                && s.opponent.bump_cool == 0 ==> r.car.demo_timer == 180 && r.demo && r.car.v
                == vec3::zero3() && r.car.boost == 0
            &&& contact::rams(t, s.car, s.opponent) && s.car.supersonic && s.car.bump_cool == 0
                ==> r.opponent.demo_timer == 180 && r.demo && r.opponent.v == vec3::zero3()
                && r.opponent.boost == 0
        }),
{
    reveal(play::cars_met);
}

/// Nothing else wrecks a car: one that was whole and is not had a supersonic car
/// ram it that could.
pub proof fn law_only_a_supersonic_ram_wrecks(t: Angles, s: Sim)
    requires
        !s.car.is_wrecked(),
        !s.opponent.is_wrecked(),
    ensures
        ({
            let r = play::cars_met(t, s);
            &&& r.car.is_wrecked() ==> contact::rams(t, s.opponent, s.car) && s.opponent.supersonic
                && s.opponent.bump_cool == 0
            &&& r.opponent.is_wrecked() ==> contact::rams(t, s.car, s.opponent) && s.car.supersonic
                && s.car.bump_cool == 0
            &&& r.demo ==> s.demo || r.car.is_wrecked() || r.opponent.is_wrecked()
        }),
{
    reveal(play::cars_met);
}

/// A slower ram shoves: the victim is thrown off its wheels with the shove added
/// to its speed, and the rammer cannot bump again for fifteen ticks. A car that
/// nothing rams keeps its speed.
pub proof fn law_a_slower_ram_shoves_either_car(t: Angles, s: Sim)
    requires
        !s.car.is_wrecked(),
        !s.opponent.is_wrecked(),
    ensures
        ({
            let r = play::cars_met(t, s);
            let by_orange = contact::rams(t, s.opponent, s.car) && s.opponent.bump_cool == 0;
            let by_blue = contact::rams(t, s.car, s.opponent) && s.car.bump_cool == 0;
            &&& by_orange && !s.opponent.supersonic ==> {
                &&& r.car.v == vec3::add3(s.car.v, contact::shove(s.opponent, s.car))
                &&& !r.car.grounded
                &&& !r.car.is_wrecked()
            }
            &&& by_blue && !s.car.supersonic ==> {
                &&& r.opponent.v == vec3::add3(s.opponent.v, contact::shove(s.car, s.opponent))
                &&& !r.opponent.grounded
                &&& !r.opponent.is_wrecked()
            }
            &&& !by_orange ==> r.car.v == s.car.v && r.car.grounded == s.car.grounded
                && r.car.boost == s.car.boost
            &&& !by_blue ==> r.opponent.v == s.opponent.v && r.opponent.grounded
                == s.opponent.grounded && r.opponent.boost == s.opponent.boost
            &&& by_blue && !r.car.is_wrecked() ==> r.car.bump_cool == 15
            &&& by_orange && !r.opponent.is_wrecked() ==> r.opponent.bump_cool == 15
            &&& !by_blue && !r.car.is_wrecked() ==> r.car.bump_cool == s.car.bump_cool
            &&& !by_orange && !r.opponent.is_wrecked() ==> r.opponent.bump_cool
                == s.opponent.bump_cool
        }),
{
    reveal(play::cars_met);
}

} // verus!
