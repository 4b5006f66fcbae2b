//! The ball: its state, its spin, and what rubbing against a surface does.

use vstd::prelude::*;
use crate::bounds;
use crate::num;
use crate::num::{mul_div, shift10, shift12, wide_mul};
use crate::tuning::{BALL_MAX_SPIN, SPIN_PER_SLIP};
use crate::vec3;
use crate::vec3::{cap_length, cross_q12, cross_spin, flatten, minus, plus, times, V3};

verus! {

/// The widest spin component a tick is stepped from.
pub const SPIN_LIMIT: i32 = 0x10_0000;

/// The ball.
#[derive(Copy, Clone, Debug)]
pub struct Ball {
    /// Centre position.
    pub p: V3,
    /// Velocity.
    pub v: V3,
    /// Angular velocity, radians per tick in Q16 (see [`spin_rad_per_s`]). It
    /// decides how the ball leaves a floor, a wall or a car.
    pub w: V3,
    /// True while resting on the floor.
    pub grounded: bool,
    /// Accumulated roll, Q12 turns. Cosmetic, and derived from `w`.
    pub roll: u16,
    /// Q12 heading the roll is about, i.e. the axis the spin is around.
    pub roll_dir: u16,
}

/// A ball at the origin, standing still.
pub open spec fn blank_ball() -> Ball {
    Ball {
        p: vec3::zero3(),
        v: vec3::zero3(),
        w: vec3::zero3(),
        grounded: false,
        roll: 0,
        roll_dir: 0,
    }
}

impl Default for Ball {
    fn default() -> (r: Self)
        ensures
            r == blank_ball(),
    {
        Ball {
            p: V3::zero(),
            v: V3::zero(),
            w: V3::zero(),
            grounded: false,
            roll: 0,
            roll_dir: 0,
        }
    }
}

impl Ball {
    /// The ball's vectors are small enough for one tick's arithmetic.
    pub open spec fn in_range(self) -> bool {
        &&& self.p.within(crate::car::FIELD_LIMIT as int)
        &&& self.v.within(crate::car::SPEED_LIMIT as int)
        &&& self.w.within(SPIN_LIMIT as int)
    }

    /// The ball's vectors are small enough for a car in range to touch it.
    pub open spec fn can_be_touched(self) -> bool {
        &&& self.p.within(0x200_0000)
        &&& self.v.within(1_400_000)
        &&& self.w.within(0x300_0000)
    }

    /// Whether a car in range can touch the ball.
    pub fn touchable(&self) -> (r: bool)
        ensures
            r == self.can_be_touched(),
    {
        crate::car::fits(self.p, 0x200_0000) && crate::car::fits(self.v, 1_400_000)
            && crate::car::fits(self.w, 0x300_0000)
    }

    /// Whether the ball's state is one a tick can be stepped from.
    pub fn steppable(&self) -> (r: bool)
        ensures
            r == self.in_range(),
    {
        crate::car::fits(self.p, crate::car::FIELD_LIMIT) && crate::car::fits(
            self.v,
            crate::car::SPEED_LIMIT,
        ) && crate::car::fits(self.w, SPIN_LIMIT)
    }
}

/// The ball's angular speed in whole radians per second.
pub fn spin_rad_per_s(w: V3) -> (r: i32)
    ensures
        r == rad_per_s(w),
{
    let scaled: i32 = w.len() * 60;
    assert(scaled >> 16 == scaled / 65536) by (bit_vector);
    scaled >> 16
}

/// The arm from the ball's centre to a contact whose outward normal is `n`.
#[verifier::opaque]
pub open spec fn contact_arm(n: V3) -> V3 {
    vec3::v3((-(n.x * 5824)) / 4096, (-(n.y * 5824)) / 4096, (-(n.z * 5824)) / 4096)
}

/// How fast the contact patch moves over the surface, normal part included.
pub open spec fn patch_velocity(b: Ball, n: V3, other_v: V3) -> V3 {
    vec3::sub3(vec3::add3(b.v, vec3::cross_over(b.w, contact_arm(n), 65536)), other_v)
}

/// The Q12 fraction of a full stop that a contact pressing this hard can pay
/// for, against slip of this size.
#[verifier::opaque]
pub open spec fn stopping_share(slip: int, push: int, grip: int) -> int {
    let full = slip * 2 / 7;
    let cap = (push * grip) / 1024;
    if full <= cap {
        4096
    } else {
        4096 * cap / full
    }
}

/// The spin that taking this share out of the slip pays, from the slip turned
/// about the contact normal.
#[verifier::opaque]
pub open spec fn spin_gain(turn: int, take: int) -> int {
    (((turn * take) / 4096) * SPIN_PER_SLIP) / 1024
}

/// The ball's spin with this share of the slip paid into it, before the cap.
pub open spec fn spun_up(w: V3, n: V3, slip: V3, take: int) -> V3 {
    let turn = vec3::cross(n, slip);
    vec3::add3(
        w,
        vec3::v3(
            spin_gain(turn.x as int, take),
            spin_gain(turn.y as int, take),
            spin_gain(turn.z as int, take),
        ),
    )
}

/// The ball after friction at a contact: slip is eaten by taking speed off the
/// ball and putting it into rotation, as far as Coulomb allows.
pub open spec fn rubbed(b: Ball, n: V3, push: int, grip: int, other_v: V3) -> Ball {
    let slip = vec3::flattened(patch_velocity(b, n, other_v), n);
    if push <= 0 || slip.length() < 2 {
        b
    } else {
        let take = stopping_share(slip.length(), push, grip);
        Ball {
            v: vec3::sub3(b.v, vec3::along(slip, take * 2 / 7)),
            w: vec3::capped(spun_up(b.w, n, slip, take), BALL_MAX_SPIN as int),
            ..b
        }
    }
}

/// The arm from the ball's centre to a contact whose outward normal is `n`.
fn arm_of(n: V3) -> (r: V3)
    requires
        n.within(4096),
    ensures
        r == contact_arm(n),
        r.within(8192),
{
    proof {
        reveal(contact_arm);
    }
    V3 {
        x: shift12(-wide_mul(n.x, 5824)),
        y: shift12(-wide_mul(n.y, 5824)),
        z: shift12(-wide_mul(n.z, 5824)),
    }
}

/// The spin paid by one component of the turned slip.
fn gain_of(turn: i32, take: i32) -> (r: i32)
    requires
        -0xd80_0000 <= turn <= 0xd80_0000,
        0 <= take <= 4096,
    ensures
        r == spin_gain(turn as int, take as int),
        num::abs(r as int) <= 9 * num::abs(turn as int),
{
    let ghost m = num::abs(turn as int);
    proof {
        num::lemma_mul_bound(turn as int, take as int, m, 4096);
        assert(num::abs((turn * take) / 4096) <= m);
    }
    let paid: i32 = shift12(wide_mul(turn, take));
    let spin: i64 = wide_mul(paid, SPIN_PER_SLIP);
    assert(num::abs(spin as int) <= 8230 * m);
    proof {
        reveal(spin_gain);
    }
    shift10(spin)
}

/// The share of a full stop the contact can pay for.
fn share_of(slip: i32, push: i32, grip: i32) -> (r: i32)
    requires
        2 <= slip <= 46340,
        0 < push <= 0x2000_0000,
        0 <= grip <= 2048,
    ensures
        r == stopping_share(slip as int, push as int, grip as int),
        0 <= r <= 4096,
{
    proof {
        num::lemma_mul_bound(push as int, grip as int, push as int, 2048);
        assert(0 <= push * grip) by (nonlinear_arith)
            requires
                0 < push,
                0 <= grip,
        ;
        reveal(stopping_share);
    }
    let full: i32 = slip * 2 / 7;
    let cap: i32 = shift10(wide_mul(push, grip));
    if full <= cap {
        4096
    } else {
        proof {
            num::lemma_mul_bound(4096, cap as int, 4096, full as int);
            num::lemma_tdiv_bound(4096 * cap, full as int, 4096);
            assert(0 <= (4096 * cap) / full as int) by (nonlinear_arith)
                requires
                    0 <= cap,
                    0 < full,
            ;
        }
        mul_div(4096, cap, full)
    }
}

/// The ball, the surface and the normal of a contact are sized so that rubbing
/// them fits. Against the arena's flat walls that leaves more room than against
/// an arbitrary normal.
pub open spec fn rubbable(b: Ball, n: V3, other_v: V3) -> bool {
    &&& n.within(4096)
    &&& b.w.within(0x400_0000)
    &&& {
        ||| b.v.within(0x80_0000) && other_v.within(0x20_0000)
        ||| b.v.within(0x200_0000) && other_v == vec3::zero3() && (vec3::is_axis(n)
            || vec3::is_chamfer(n))
    }
}

/// How far a contact slips: the patch's velocity over the surface, with the
/// part along the normal taken out.
fn slip_at(ball: &Ball, n: V3, other_v: V3) -> (r: V3)
    requires
        rubbable(*ball, n, other_v),
    ensures
        r == vec3::flattened(patch_velocity(*ball, n, other_v), n),
        r.within(0x6c0_0000),
{
    let arm = arm_of(n);
    let surface = cross_spin(ball.w, arm);
    proof {
        vec3::lemma_cross_spin(ball.w, arm, 0x400_0000);
    }
    let rel = minus(plus(ball.v, surface), other_v);
    let slip = flatten(rel, n);
    assert(slip.within(0x6c0_0000)) by {
        if ball.v.within(0x80_0000) && other_v.within(0x20_0000) {
            vec3::lemma_flattened(rel, n, 0x1b0_0000);
        } else if vec3::is_chamfer(n) {
            vec3::lemma_flattened_chamfer(rel, n, 0x310_0000);
        } else {
            vec3::lemma_flattened(rel, n, 0x310_0000);
        }
    }
    slip
}

/// Friction at a ball contact whose Q12 unit normal is `n`.
///
/// `push` is how hard the contact just pressed, measured as the change in
/// speed it made along `n`; Coulomb caps the friction at `grip/1024` of that.
/// `other_v` is the velocity of what it is touching, zero for the arena.
pub fn ball_friction(ball: &mut Ball, n: V3, push: i32, grip: i32, other_v: V3)
    requires
        rubbable(*old(ball), n, other_v),
        push <= 0x2000_0000,
        0 <= grip <= 2048,
    ensures
        *final(ball) == rubbed(*old(ball), n, push as int, grip as int, other_v),
        final(ball).p == old(ball).p,
        final(ball).w.within(0x7fff_ffff),
{
    if push <= 0 {
        return ;
    }
    let slip = slip_at(ball, n, other_v);
    let mag: i32 = slip.len();
    if mag < 2 {
        return ;
    }
    let take: i32 = share_of(mag, push, grip);
    let lost = times(slip, take * 2 / 7);
    let turn = cross_q12(n, slip);
    proof {
        vec3::lemma_cross(n, slip, 0x6c0_0000);
    }
    let gain = V3 { x: gain_of(turn.x, take), y: gain_of(turn.y, take), z: gain_of(turn.z, take) };
    let spun = plus(ball.w, gain);
    ball.v = minus(ball.v, lost);
    ball.w = cap_length(spun, BALL_MAX_SPIN);
}

/// How fast the contact patch can move over the surface, given how fast the
/// ball moves, how fast it spins and how fast the surface moves.
pub open spec fn patch_bound(vb: int, wb: int, ob: int) -> int {
    vb + wb / 4 + 1 + ob
}

/// Bounds on what rubbing leaves of the ball's velocity and spin.
pub proof fn lemma_rubbed(b: Ball, n: V3, push: int, grip: int, o: V3, vb: int, wb: int, ob: int)
    requires
        n.within(4096),
        b.v.within(vb),
        b.w.within(wb),
        o.within(ob),
        0 <= vb,
        0 <= wb,
        0 <= ob,
        patch_bound(vb, wb, ob) <= 0x180_0000,
        push <= 0x2000_0000,
        0 <= grip <= 2048,
    ensures
        ({
            let r = rubbed(b, n, push, grip, o);
            let rs = patch_bound(vb, wb, ob);
            &&& r.v.within(vb + 2 * rs + 1)
            &&& r.w.within(num::max(wb, num::max(6554, (wb + 72 * rs) / 7 + 1)))
            &&& vec3::is_axis(n) ==> {
                &&& r.v.within(vb + rs / 3 + 1)
                &&& r.w.within(num::max(wb, num::max(6554, (wb + 9 * rs) / 7 + 1)))
            }
            &&& r.p == b.p
        }),
{
    let rs = patch_bound(vb, wb, ob);
    let arm = contact_arm(n);
    assert(arm.within(8192)) by {
        reveal(contact_arm);
    }
    vec3::lemma_cross_spin(b.w, arm, wb);
    let rel = patch_velocity(b, n, o);
    assert(rel.within(rs));
    vec3::lemma_flattened(rel, n, rs);
    let slip = vec3::flattened(rel, n);
    if push > 0 && slip.length() >= 2 {
        let sb: int = if vec3::is_axis(n) {
            rs
        } else {
            4 * rs
        };
        let take = stopping_share(slip.length(), push, grip);
        assert(0 <= take <= 4096) by {
            lemma_share(slip.length(), push, grip);
        }
        vec3::lemma_fraction(slip, take * 2 / 7, sb);
        assert((sb * (take * 2 / 7)) / 4096 <= (sb * 1170) / 4096) by {
            num::lemma_mul_bound(sb, take * 2 / 7, sb, 1170);
        }
        vec3::lemma_cross(n, slip, sb);
        let turn = vec3::cross(n, slip);
        let tb: int = if vec3::is_axis(n) {
            sb
        } else {
            2 * sb
        };
        lemma_gain(turn.x as int, take, tb);
        lemma_gain(turn.y as int, take, tb);
        lemma_gain(turn.z as int, take, tb);
        let gain = vec3::v3(
            spin_gain(turn.x as int, take),
            spin_gain(turn.y as int, take),
            spin_gain(turn.z as int, take),
        );
        assert(gain.within(9 * tb));
        let spun = vec3::add3(b.w, gain);
        assert(spun.within(wb + 9 * tb));
        vec3::lemma_capped(spun, 6554, wb + 9 * tb);
    }
}

/// A contact pays for no less than nothing and no more than a full stop.
pub proof fn lemma_share(slip: int, push: int, grip: int)
    requires
        slip >= 2,
        push > 0,
        grip >= 0,
    ensures
        0 <= stopping_share(slip, push, grip) <= 4096,
{
    reveal(stopping_share);
    assert(0 <= push * grip) by (nonlinear_arith)
        requires
            0 < push,
            0 <= grip,
    ;
    let full = slip * 2 / 7;
    let cap = (push * grip) / 1024;
    if full > cap {
        assert(0 <= (4096 * cap) / full <= 4096) by (nonlinear_arith)
            requires
                0 <= cap < full,
        ;
    }
}

proof fn lemma_gain(turn: int, take: int, m: int)
    requires
        num::abs(turn) <= m,
        0 <= take <= 4096,
    ensures
        num::abs(spin_gain(turn, take)) <= 9 * m,
{
    num::lemma_mul_bound(turn, take, m, 4096);
    let paid = (turn * take) / 4096;
    assert(num::abs(paid) <= m);
    assert(num::abs(paid * SPIN_PER_SLIP) <= 8230 * m);
    reveal(spin_gain);
}

/// The ball's angular speed in whole radians per second.
pub open spec fn rad_per_s(w: V3) -> int {
    (w.length() * 60) / 65536
}

/// Capping a spin whose square a 32-bit value holds leaves no more than the cap,
/// which is six radians per second.
pub proof fn law_capped_spin_is_under_six(w: V3)
    requires
        w.square() <= i32::MAX,
    ensures
        vec3::capped(w, BALL_MAX_SPIN as int).length() <= BALL_MAX_SPIN,
        rad_per_s(vec3::capped(w, BALL_MAX_SPIN as int)) <= 6,
{
    bounds::lemma_capped(w, BALL_MAX_SPIN as int);
}

/// A rub leaves the ball's spin alone, or spins it up to something whose square
/// a 32-bit value holds. Past that the length that the cap goes by saturates,
/// and the cap lets more through.
pub open spec fn cap_holds(b: Ball, n: V3, push: int, grip: int, other_v: V3) -> bool {
    let slip = vec3::flattened(patch_velocity(b, n, other_v), n);
    push <= 0 || slip.length() < 2 || spun_up(
        b.w,
        n,
        slip,
        stopping_share(slip.length(), push, grip),
    ).square() <= i32::MAX
}

/// Friction never takes the ball's spin past its ceiling, six radians per second,
/// and changes nothing but the velocity and the spin; without a push it changes
/// nothing.
pub proof fn law_friction_keeps_the_spin_ceiling(b: Ball, n: V3, push: int, grip: int, other_v: V3)
    requires
        b.w.length() <= BALL_MAX_SPIN,
        cap_holds(b, n, push, grip, other_v),
    ensures
        ({
            let r = rubbed(b, n, push, grip, other_v);
            &&& r.w.length() <= BALL_MAX_SPIN
            &&& rad_per_s(r.w) <= 6
            &&& r == (Ball { v: r.v, w: r.w, ..b })
            &&& push <= 0 ==> r == b
        }),
{
    let slip = vec3::flattened(patch_velocity(b, n, other_v), n);
    let spun = spun_up(b.w, n, slip, stopping_share(slip.length(), push, grip));
    if spun.square() <= i32::MAX {
        law_capped_spin_is_under_six(spun);
    }
}

} // verus!
