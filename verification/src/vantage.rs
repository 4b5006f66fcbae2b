//! Where the chase camera stands, and what it looks at.

use vstd::prelude::*;
use crate::camera;
use crate::camera::{CameraState, Scene};
use crate::compass;
use crate::num;
use crate::trig::Angles;
use crate::vec3;
use crate::vec3::V3;

verus! {

/// The car stands level, far enough from every wall for the camera to stand
/// anywhere round it.
pub open spec fn has_room(s: Scene) -> bool {
    &&& s.car.up == (V3 { x: 0, y: 4096, z: 0 })
    &&& num::abs(s.at().0) <= 3100
    &&& num::abs(s.at().1) <= 4100
    &&& num::abs(s.at().0) + num::abs(s.at().1) <= 6170
}

/// The ball is to the side of the car by this much, in uu.
pub open spec fn gap_x(s: Scene) -> int {
    camera::whole(s.ball.p.x - s.car.p.x)
}

/// The ball is ahead of the car along the pitch by this much, in uu.
pub open spec fn gap_z(s: Scene) -> int {
    camera::whole(s.ball.p.z - s.car.p.z)
}

/// Filming the ball, the camera stands on the far side of the car from it: the
/// way from the car to the camera runs against the way from the car to the ball.
/// It stands 800 off on the ground and 330 up, or 430 off and 190 up when close.
pub proof fn law_the_ball_cam_stands_behind_the_car(t: Angles, s: Scene)
    requires
        compass::true_compass(t),
        s.in_range(),
        has_room(s),
        s.ball_cam,
        gap_x(s) * gap_x(s) + gap_z(s) * gap_z(s) > 300 * 300,
    ensures
        ({
            let w = camera::wanted(t, s);
            &&& w.x * gap_x(s) + w.z * gap_z(s) < 0
            &&& !s.close ==> 790 * 790 <= w.x * w.x + w.z * w.z <= 810 * 810 && w.y == -330
            &&& s.close ==> 420 * 420 <= w.x * w.x + w.z * w.z <= 440 * 440 && w.y == -190
        }),
{
    reveal(camera::line_yaw);
    reveal(camera::flat_trail);
    let (dx, dz) = (gap_x(s), gap_z(s));
    if dx == 0 && dz == 0 {
        assert(0int * 0 == 0);
    }
    lemma_stands(t, s, dx, dz);
}

/// Filming past the nose, the camera stands behind the car: the way from the car
/// to it runs against the nose. It stands as far off and as high as it does when
/// it films the ball.
pub proof fn law_the_chase_cam_stands_behind_the_nose(t: Angles, s: Scene)
    requires
        compass::true_compass(t),
        s.in_range(),
        has_room(s),
        !s.ball_cam,
        s.nose(t).within(4096),
        s.nose(t).x * s.nose(t).x + s.nose(t).z * s.nose(t).z >= 4096 * 4096,
    ensures
        ({
            let w = camera::wanted(t, s);
            let fwd = s.nose(t);
            &&& w.x * fwd.x + w.z * fwd.z < 0
            &&& !s.close ==> 790 * 790 <= w.x * w.x + w.z * w.z <= 810 * 810 && w.y == -330
            &&& s.close ==> 420 * 420 <= w.x * w.x + w.z * w.z <= 440 * 440 && w.y == -190
        }),
{
    reveal(camera::line_yaw);
    reveal(camera::flat_trail);
    let fwd = s.nose(t);
    let all = camera::squares(fwd.x as int, fwd.z as int);
    vec3::lemma_root_exists(all);
    num::lemma_root_covers(num::root(all), all, 4096);
    assert(num::min(num::root(all), 4096) == 4096);
    assert(camera::flat_trail(t, s) == s.dist());
    if fwd.x == 0 && fwd.z == 0 {
        assert(0int * 0 == 0);
    }
    lemma_stands(t, s, fwd.x as int, fwd.z as int);
}

/// The first frame is filmed from where the camera wants to stand, over the car's
/// head by its height. Down is positive.
pub proof fn law_the_first_frame_is_filmed_from_there(t: Angles, s: Scene, prev: CameraState)
    requires
        compass::true_compass(t),
        s.in_range(),
        has_room(s),
        s.ball_cam,
        !prev.valid,
        gap_x(s) * gap_x(s) + gap_z(s) * gap_z(s) > 300 * 300,
    ensures
        ({
            let e = camera::eye(t, s, prev);
            let w = camera::wanted(t, s);
            &&& e.x == s.at().0 + w.x
            &&& e.z == s.at().1 + w.z
            &&& e.y == -camera::whole(s.car.p.y as int) + w.y
        }),
{
    law_the_ball_cam_stands_behind_the_car(t, s);
    reveal(camera::eye);
    let w = camera::wanted(t, s);
    assert(num::abs(w.x as int) <= 810 && num::abs(w.z as int) <= 810) by {
        lemma_no_longer(w.x as int, w.z as int);
        lemma_no_longer(w.z as int, w.x as int);
    }
    camera::law_kept_points_are_inside(s.at().0 + w.x, s.at().1 + w.z);
}

proof fn lemma_no_longer(a: int, b: int)
    requires
        a * a + b * b <= 810 * 810,
    ensures
        num::abs(a) <= 810,
{
    assert(b * b >= 0) by (nonlinear_arith);
    assert(-810 <= a <= 810) by (nonlinear_arith)
        requires
            a * a <= 810 * 810,
    ;
}

/// The camera that follows a line stands off along it, backward.
proof fn lemma_stands(t: Angles, s: Scene, dx: int, dz: int)
    requires
        compass::true_compass(t),
        has_room(s),
        dx != 0 || dz != 0,
        -0x100_0000 <= dx <= 0x100_0000,
        -0x100_0000 <= dz <= 0x100_0000,
        camera::line_yaw(t, s) == t.atan2(dx, dz),
        camera::flat_trail(t, s) == s.dist(),
    ensures
        ({
            let w = camera::wanted(t, s);
            &&& w.x * dx + w.z * dz < 0
            &&& !s.close ==> 790 * 790 <= w.x * w.x + w.z * w.z <= 810 * 810 && w.y == -330
            &&& s.close ==> 420 * 420 <= w.x * w.x + w.z * w.z <= 440 * 440 && w.y == -190
        }),
{
    let line = camera::line_yaw(t, s);
    assert(compass::points(t, (dx as i32) as int, (dz as i32) as int));
    let yaw = camera::follow_yaw(t, s);
    let far = s.dist();
    let (sn, cs) = (t.sin(yaw), t.cos(yaw));
    let (s0, c0) = (t.sin(line), t.cos(line));
    compass::lemma_goes_along(dx, dz, s0, c0);
    let m = num::max(num::abs(dx), num::abs(dz));
    assert(compass::on_circle(t, yaw) && compass::on_circle(t, line));
    if s.close {
        assert(compass::adds(t, line, 512));
        lemma_eighth(dx, dz, s0, c0, t.sin(512), t.cos(512), sn, cs);
    }
    assert(dx * sn + dz * cs >= 1800 * m);
    let (gx, gz) = (camera::q12(sn, far), camera::q12(cs, far));
    lemma_ring(sn, cs, far, gx, gz);
    lemma_against(dx, dz, sn, cs, far, gx, gz);
    reveal(camera::behind);
    let (px, pz) = s.at();
    let up = s.car.up;
    let boom = camera::surface_boom(s);
    assert(0 * boom == 0);
    assert(camera::q12(up.x as int, boom) == 0 && camera::q12(up.z as int, boom) == 0);
    camera::law_kept_points_are_inside(px - gx, pz - gz);
    assert(camera::behind(t, s) == (px - gx, pz - gz));
    reveal(camera::station);
    let around = camera::squares(px - (px - gx), pz - (pz - gz));
    assert(around == gx * gx + gz * gz) by (nonlinear_arith)
        requires
            around == (px - (px - gx)) * (px - (px - gx)) + (pz - (pz - gz)) * (pz - (pz - gz)),
    ;
    assert(camera::apart(px, pz, px - gx, pz - gz) == num::root(around));
    vec3::lemma_root_exists(around);
    num::lemma_root_covers(num::root(around), around, s.min_flat());
    assert(camera::station(t, s) == (px - gx, pz - gz));
    reveal(camera::hang);
    let deep = camera::q12(s.nose(t).y as int, s.wall_trail());
    assert(deep * 0 == 0);
    assert(camera::wall_amount(s) == 0);
    let w = camera::wanted(t, s);
    assert(w.x == -gx && w.z == -gz);
    assert(w.x * dx + w.z * dz == -(gx * dx + gz * dz) && w.x * w.x + w.z * w.z == gx * gx + gz * gz)
        by (nonlinear_arith)
        requires
            w.x == -gx,
            w.z == -gz,
    ;
}

proof fn lemma_eighth(dx: int, dz: int, s0: int, c0: int, s5: int, c5: int, sn: int, cs: int)
    requires
        dx * s0 + dz * c0 >= 2800 * num::max(num::abs(dx), num::abs(dz)),
        num::abs(dx * c0 - dz * s0) <= 64 * (num::abs(dx) + num::abs(dz)),
        2890 <= s5 <= 2902,
        2890 <= c5 <= 2902,
        num::abs(4096 * sn - (s0 * c5 + c0 * s5)) <= 32768,
        num::abs(4096 * cs - (c0 * c5 - s0 * s5)) <= 32768,
    ensures
        dx * sn + dz * cs >= 1800 * num::max(num::abs(dx), num::abs(dz)),
{
    let m = num::max(num::abs(dx), num::abs(dz));
    let (e, f) = (4096 * sn - (s0 * c5 + c0 * s5), 4096 * cs - (c0 * c5 - s0 * s5));
    let (d0, x0) = (dx * s0 + dz * c0, dx * c0 - dz * s0);
    assert(dx * (e + s0 * c5 + c0 * s5) == dx * e + c5 * (dx * s0) + s5 * (dx * c0))
        by (nonlinear_arith);
    assert(dz * (f + c0 * c5 - s0 * s5) == dz * f + c5 * (dz * c0) - s5 * (dz * s0))
        by (nonlinear_arith);
    assert(c5 * d0 == c5 * (dx * s0) + c5 * (dz * c0)) by (nonlinear_arith)
        requires
            d0 == dx * s0 + dz * c0,
    ;
    assert(s5 * x0 == s5 * (dx * c0) - s5 * (dz * s0)) by (nonlinear_arith)
        requires
            x0 == dx * c0 - dz * s0,
    ;
    assert(4096 * (dx * sn) == dx * (4096 * sn) && 4096 * (dz * cs) == dz * (4096 * cs))
        by (nonlinear_arith);
    assert(4096 * (dx * sn + dz * cs) == c5 * d0 + s5 * x0 + dx * e + dz * f);
    assert(c5 * d0 >= 2890 * (2800 * m)) by (nonlinear_arith)
        requires
            c5 >= 2890,
            d0 >= 2800 * m,
            m >= 0,
    ;
    num::lemma_mul_bound(s5, x0, 2902, 128 * m);
    num::lemma_mul_bound(dx, e, m, 32768);
    num::lemma_mul_bound(dz, f, m, 32768);
}

proof fn lemma_ring(s: int, c: int, far: int, gx: int, gz: int)
    requires
        far == 800 || far == 430,
        gx == (s * far) / 4096,
        gz == (c * far) / 4096,
        -4096 <= s <= 4096,
        -4096 <= c <= 4096,
        4096 * 4096 - 32768 <= s * s + c * c <= 4096 * 4096 + 32768,
    ensures
        far == 800 ==> 790 * 790 <= gx * gx + gz * gz <= 810 * 810,
        far == 430 ==> 420 * 420 <= gx * gx + gz * gz <= 440 * 440,
        num::abs(gx) <= 810,
        num::abs(gz) <= 810,
{
    num::lemma_mul_bound(s, far, 4096, far);
    num::lemma_mul_bound(c, far, 4096, far);
    let (ex, ez) = (s * far - 4096 * gx, c * far - 4096 * gz);
    assert(0 <= ex < 4096 && 0 <= ez < 4096);
    assert(-far <= gx <= far && -far <= gz <= far);
    let all = s * s + c * c;
    assert((far * far) * all == 16_777_216 * (gx * gx + gz * gz) + 8192 * (gx * ex + gz * ez) + ex
        * ex + ez * ez) by (nonlinear_arith)
        requires
            s * far == 4096 * gx + ex,
            c * far == 4096 * gz + ez,
            all == s * s + c * c,
    ;
    num::lemma_mul_bound(gx, ex, far, 4096);
    num::lemma_mul_bound(gz, ez, far, 4096);
    num::lemma_mul_bound(ex, ex, 4096, 4096);
    num::lemma_mul_bound(ez, ez, 4096, 4096);
    assert(ex * ex >= 0 && ez * ez >= 0) by (nonlinear_arith);
    assert(far == 800 ==> far * far == 640_000) by (nonlinear_arith);
    assert(far == 430 ==> far * far == 184_900) by (nonlinear_arith);
    let sq = far * far;
    assert(sq == 640_000 ==> sq * all == 640_000 * all);
    assert(sq == 184_900 ==> sq * all == 184_900 * all);
}

proof fn lemma_against(dx: int, dz: int, s: int, c: int, far: int, gx: int, gz: int)
    requires
        far == 800 || far == 430,
        gx == (s * far) / 4096,
        gz == (c * far) / 4096,
        dx != 0 || dz != 0,
        dx * s + dz * c >= 1800 * num::max(num::abs(dx), num::abs(dz)),
    ensures
        gx * dx + gz * dz > 0,
{
    let m = num::max(num::abs(dx), num::abs(dz));
    let (ex, ez) = (s * far - 4096 * gx, c * far - 4096 * gz);
    assert(0 <= ex < 4096 && 0 <= ez < 4096);
    num::lemma_mul_bound(ex, dx, 4096, m);
    num::lemma_mul_bound(ez, dz, 4096, m);
    let d = dx * s + dz * c;
    assert(far * d == dx * (s * far) + dz * (c * far)) by (nonlinear_arith)
        requires
            d == dx * s + dz * c,
    ;
    assert(dx * (4096 * gx + ex) == 4096 * (gx * dx) + ex * dx) by (nonlinear_arith);
    assert(dz * (4096 * gz + ez) == 4096 * (gz * dz) + ez * dz) by (nonlinear_arith);
    assert(far * d == 4096 * (gx * dx + gz * dz) + ex * dx + ez * dz);
    assert(far * d >= 430 * (1800 * m)) by (nonlinear_arith)
        requires
            far >= 430,
            d >= 1800 * m,
            m >= 0,
    ;
}

/// Up a side wall the camera stands off it, 720 along the normal, and still on the
/// far side of the car from the ball.
pub proof fn law_the_camera_stands_off_the_wall(t: Angles, s: Scene)
    requires
        compass::true_compass(t),
        s.in_range(),
        s.ball_cam,
        !s.close,
        3600 <= num::abs(s.at().0) <= 4068,
        num::abs(s.at().1) <= 3000,
        s.car.up.y == 0 && s.car.up.z == 0,
        s.at().0 > 0 ==> s.car.up.x == -4096,
        s.at().0 < 0 ==> s.car.up.x == 4096,
        gap_x(s) == 0,
        num::abs(gap_z(s)) > 300,
    ensures
        ({
            let w = camera::wanted(t, s);
            &&& s.at().0 > 0 ==> w.x == -720
            &&& s.at().0 < 0 ==> w.x == 720
            &&& w.z * gap_z(s) < 0
            &&& 790 <= num::abs(w.z as int) <= 810
        }),
{
    reveal(camera::line_yaw);
    reveal(camera::flat_trail);
    let dz = gap_z(s);
    assert(0 * 0 + dz * dz > 90_000) by (nonlinear_arith)
        requires
            dz > 300 || dz < -300,
    ;
    assert(0int * 0int == 0);
    let line = camera::line_yaw(t, s);
    assert(line == t.atan2(0, dz));
    assert(compass::points(t, (0i32) as int, (dz as i32) as int));
    assert(compass::on_circle(t, line));
    let (sn, cs) = (t.sin(line), t.cos(line));
    assert(sn == 0);
    lemma_whole_cosine(cs);
    let far = 800int;
    let (gx, gz) = (camera::q12(sn, far), camera::q12(cs, far));
    assert(gx == 0);
    assert(790 <= num::abs(gz) <= 801);
    let (px, pz) = s.at();
    reveal(camera::behind);
    assert(camera::wall_amount(s) == 4096);
    assert(camera::surface_boom(s) == 720);
    let ux = s.car.up.x as int;
    assert(camera::q12(ux, 720) == if ux > 0 {
        720int
    } else {
        -720int
    });
    assert(camera::q12(0, 720) == 0);
    let off = camera::q12(ux, 720);
    camera::law_kept_points_are_inside(px + off, pz - gz);
    assert(camera::behind(t, s) == (px + off, pz - gz));
    reveal(camera::station);
    let around = camera::squares(px - (px + off), pz - (pz - gz));
    assert(around >= 650 * 650) by (nonlinear_arith)
        requires
            around == (px - (px + off)) * (px - (px + off)) + (pz - (pz - gz)) * (pz - (pz - gz)),
            off == 720 || off == -720,
    ;
    vec3::lemma_root_exists(around);
    num::lemma_root_covers(num::root(around), around, 650);
    assert(camera::station(t, s) == (px + off, pz - gz));
    let w = camera::wanted(t, s);
    assert(w.x == off && w.z == -gz);
    assert(w.z * dz < 0) by (nonlinear_arith)
        requires
            w.z == -gz,
            dz > 0 ==> gz > 0,
            dz < 0 ==> gz < 0,
            dz != 0,
    ;
}

proof fn lemma_whole_cosine(c: int)
    requires
        -4096 <= c <= 4096,
        4096 * 4096 - 32768 <= c * c,
    ensures
        num::abs(c) >= 4091,
{
    assert(c >= 4091 || c <= -4091) by (nonlinear_arith)
        requires
            4096 * 4096 - 32768 <= c * c,
    ;
}

// ---- what it looks at -------------------------------------------------------------

/// The first frame looks from where the camera stands to what it aims at: level,
/// the way it faces runs with the way to its mark, and it tips down toward a mark
/// below it and up toward one above, as far as it may tip.
pub proof fn law_the_first_frame_faces_its_mark(t: Angles, s: Scene, prev: CameraState)
    requires
        compass::true_compass(t),
        !prev.valid,
        !s.ball_cam || !s.hold_car,
        s.car.up.y == 4096,
        camera::eye(t, s, prev).within(0x10_0000),
        camera::aim(t, s, camera::eye(t, s, prev)).within(0x10_0000),
    ensures
        ({
            let from = camera::eye(t, s, prev);
            let to = camera::aim(t, s, from);
            let now = camera::remembered(t, s, prev);
            let (dx, dy, dz) = (to.x - from.x, to.y - from.y, to.z - from.z);
            let tip = t.sin(camera::one_turn(now.pitch as int) as u16);
            &&& dx != 0 || dz != 0 ==> dx * t.sin(now.yaw) + dz * t.cos(now.yaw) >= 2800 * num::max(
                num::abs(dx),
                num::abs(dz),
            )
            &&& -260 < now.pitch < 700 && dy >= 0 ==> tip >= 0
            &&& -260 < now.pitch < 700 && dy <= 0 ==> tip <= 0
        }),
{
    let from = camera::eye(t, s, prev);
    let to = camera::aim(t, s, from);
    let (dx, dy, dz) = (to.x - from.x, to.y - from.y, to.z - from.z);
    reveal(camera::wanted_yaw);
    reveal(camera::wanted_pitch);
    let now = camera::remembered(t, s, prev);
    if dx != 0 || dz != 0 {
        assert(compass::points(t, (dx as i32) as int, (dz as i32) as int));
        compass::lemma_goes_along(dx, dz, t.sin(now.yaw), t.cos(now.yaw));
    }
    let flat = num::max(
        camera::apart(to.x as int, to.z as int, from.x as int, from.z as int),
        1,
    );
    lemma_flat(to.x - from.x, to.z - from.z);
    assert(compass::points(t, (dy as i32) as int, (flat as i32) as int));
    let raw = t.atan2(dy, flat);
    let straight = camera::tilt(raw);
    assert(camera::one_turn(straight) == raw);
}

proof fn lemma_flat(dx: int, dz: int)
    requires
        num::abs(dx) <= 0x20_0000,
        num::abs(dz) <= 0x20_0000,
    ensures
        0 <= num::root(dx * dx + dz * dz) <= 0x40_0000,
{
    assert(dx * dx >= 0 && dz * dz >= 0) by (nonlinear_arith);
    num::lemma_mul_bound(dx, dx, 0x20_0000, 0x20_0000);
    num::lemma_mul_bound(dz, dz, 0x20_0000, 0x20_0000);
    let all = dx * dx + dz * dz;
    vec3::lemma_root_exists(all);
    let r = num::root(all);
    assert(r <= 0x40_0000) by (nonlinear_arith)
        requires
            0 <= r,
            r * r <= all,
            all <= 2 * (0x20_0000 * 0x20_0000),
    ;
}

/// Filming the ball with room behind the car, the camera aims at the ball, half
/// way between the two in height; so the first frame faces the ball.
pub proof fn law_the_ball_cam_faces_the_ball(t: Angles, s: Scene, prev: CameraState)
    requires
        compass::true_compass(t),
        s.in_range(),
        has_room(s),
        s.ball_cam,
        !s.hold_car,
        !prev.valid,
        gap_x(s) * gap_x(s) + gap_z(s) * gap_z(s) > 300 * 300,
    ensures
        ({
            let from = camera::eye(t, s, prev);
            let now = camera::remembered(t, s, prev);
            let (dx, dz) = (
                camera::whole(s.ball.p.x as int) - from.x,
                camera::whole(s.ball.p.z as int) - from.z,
            );
            &&& camera::aim(t, s, from) == camera::ball_aim(s)
            &&& dx * t.sin(now.yaw) + dz * t.cos(now.yaw) > 0
        }),
{
    law_the_ball_cam_stands_behind_the_car(t, s);
    law_the_first_frame_is_filmed_from_there(t, s, prev);
    let from = camera::eye(t, s, prev);
    let w = camera::wanted(t, s);
    let (gx, gz) = (gap_x(s), gap_z(s));
    let (dx, dz) = (
        camera::whole(s.ball.p.x as int) - from.x,
        camera::whole(s.ball.p.z as int) - from.z,
    );
    let (ex, ez) = (dx - (gx - w.x), dz - (gz - w.z));
    assert(0 <= ex <= 1 && 0 <= ez <= 1);
    lemma_far_enough(gx, gz, w.x as int, w.z as int, ex, ez);
    reveal(camera::aim);
    let at = camera::ball_aim(s);
    assert(at.x - from.x == dx && at.z - from.z == dz);
    let all = dx * dx + dz * dz;
    vec3::lemma_root_exists(all);
    num::lemma_root_covers(num::root(all), all, 450);
    assert(camera::apart(at.x as int, at.z as int, from.x as int, from.z as int) == num::root(all));
    assert(camera::aim(t, s, from) == at);
    lemma_no_longer(w.x as int, w.z as int);
    lemma_no_longer(w.z as int, w.x as int);
    assert(from.within(0x10_0000));
    assert(at.within(0x10_0000));
    law_the_first_frame_faces_its_mark(t, s, prev);
    if dx == 0 && dz == 0 {
        assert(0int * 0int == 0);
    }
}

proof fn lemma_far_enough(gx: int, gz: int, wx: int, wz: int, ex: int, ez: int)
    requires
        gx * gx + gz * gz > 90_000,
        wx * gx + wz * gz < 0,
        420 * 420 <= wx * wx + wz * wz <= 810 * 810,
        0 <= ex <= 1,
        0 <= ez <= 1,
    ensures
        ({
            let (dx, dz) = (gx - wx + ex, gz - wz + ez);
            dx * dx + dz * dz >= 450 * 450
        }),
{
    let (hx, hz) = (gx - wx, gz - wz);
    assert(hx * hx + hz * hz == gx * gx + gz * gz + wx * wx + wz * wz - 2 * (wx * gx + wz * gz))
        by (nonlinear_arith)
        requires
            hx == gx - wx,
            hz == gz - wz,
    ;
    let far = hx * hx + hz * hz;
    assert(far > 266_400);
    let (dx, dz) = (hx + ex, hz + ez);
    assert(dx * dx >= hx * hx + 2 * (ex * hx) && dz * dz >= hz * hz + 2 * (ez * hz))
        by (nonlinear_arith)
        requires
            dx == hx + ex,
            dz == hz + ez,
    ;
    assert(ex * hx >= -num::abs(hx) && ez * hz >= -num::abs(hz)) by (nonlinear_arith)
        requires
            0 <= ex <= 1,
            0 <= ez <= 1,
            num::abs(hx) == if hx < 0 {
                -hx
            } else {
                hx
            },
            num::abs(hz) == if hz < 0 {
                -hz
            } else {
                hz
            },
    ;
    let (ax, az) = (num::abs(hx), num::abs(hz));
    assert(ax * ax == hx * hx && az * az == hz * hz) by (nonlinear_arith)
        requires
            ax == if hx < 0 {
                -hx
            } else {
                hx
            },
            az == if hz < 0 {
                -hz
            } else {
                hz
            },
    ;
    assert(16 * ax <= ax * ax + 64 && 16 * az <= az * az + 64) by (nonlinear_arith);
}

/// Holding the car in frame, the first frame's heading is never more than 330 off
/// the heading to the car.
pub proof fn law_the_car_is_held_in_frame(t: Angles, s: Scene, from: V3, to: V3)
    requires
        compass::true_bearings(t),
        s.ball_cam,
        s.hold_car,
        from.within(0x10_0000),
        to.within(0x10_0000),
        to.x != from.x || to.z != from.z,
        num::abs(s.at().0) <= 0x10_0000,
        num::abs(s.at().1) <= 0x10_0000,
        s.at().0 != from.x || s.at().1 != from.z,
    ensures
        ({
            let straight = t.atan2(to.x - from.x, to.z - from.z) as int;
            let to_car = t.atan2(s.at().0 - from.x, s.at().1 - from.z) as int;
            let yaw = camera::wanted_yaw(t, s, from, to) as int;
            &&& -330 <= camera::swing(yaw, to_car) <= 330
            &&& -330 <= camera::swing(straight, to_car) <= 330 ==> yaw == straight
        }),
{
    reveal(camera::wanted_yaw);
    let (dx, dz) = (to.x - from.x, to.z - from.z);
    let (cx, cz) = (s.at().0 - from.x, s.at().1 - from.z);
    assert(compass::points(t, (dx as i32) as int, (dz as i32) as int));
    assert(compass::points(t, (cx as i32) as int, (cz as i32) as int));
    let a = t.atan2(dx, dz) as int;
    let b = t.atan2(cx, cz) as int;
    let delta = camera::swing(a, b);
    let over = num::max(num::abs(delta) - 330, 0);
    let sg = num::sign(delta);
    assert(sg == 1 ==> sg * over == over) by (nonlinear_arith);
    assert(sg == -1 ==> sg * over == -over) by (nonlinear_arith);
    assert(sg == 0 ==> sg * over == 0) by (nonlinear_arith);
}

/// A view faces along its heading: its right is its heading a quarter turn on, and
/// with the lens level its forward is the heading itself and its down is down.
/// Tipped, the forward sinks by the sine of the tip.
pub proof fn law_a_view_is_square(t: Angles, eye: V3, yaw: u16, pitch: u16)
    requires
        compass::true_compass(t),
    ensures
        ({
            let v = camera::looking(t, eye, yaw, pitch);
            let quarter = crate::car::turned(yaw, 1024);
            &&& num::abs(v.right.x - t.sin(quarter)) <= 8
            &&& num::abs(v.right.z - t.cos(quarter)) <= 8
            &&& v.right.y == 0
            &&& v.fwd.y == t.sin(pitch)
            &&& v.down.y == t.cos(pitch)
            &&& pitch == 0 ==> v.fwd.x == t.sin(yaw) && v.fwd.z == t.cos(yaw) && v.down == (V3 {
                x: 0,
                y: 4096,
                z: 0,
            })
            &&& t.cos(pitch) >= 0 && t.sin(yaw) >= 0 ==> v.fwd.x >= 0
            &&& t.cos(pitch) >= 0 && t.sin(yaw) <= 0 ==> v.fwd.x <= 0
            &&& t.cos(pitch) >= 0 && t.cos(yaw) >= 0 ==> v.fwd.z >= 0
            &&& t.cos(pitch) >= 0 && t.cos(yaw) <= 0 ==> v.fwd.z <= 0
            &&& v.eye == eye
        }),
{
    assert(compass::adds(t, yaw, 1024));
    assert(compass::on_circle(t, yaw) && compass::on_circle(t, pitch));
    let (sy, cy) = (t.sin(yaw), t.cos(yaw));
    let (sp, cp) = (t.sin(pitch), t.cos(pitch));
    assert(sy * 0 == 0 && cy * 0 == 0 && cy * 4096 == 4096 * cy && sy * 4096 == 4096 * sy)
        by (nonlinear_arith);
    num::lemma_mul_bound(sy, cp, 4096, 4096);
    num::lemma_mul_bound(cy, cp, 4096, 4096);
    num::lemma_mul_bound(-sy, sp, 4096, 4096);
    num::lemma_mul_bound(-cy, sp, 4096, 4096);
    lemma_sided(sy, cp);
    lemma_sided(cy, cp);
    assert((-sy) * 0 == 0 && (-cy) * 0 == 0) by (nonlinear_arith);
}

proof fn lemma_sided(a: int, b: int)
    ensures
        a >= 0 && b >= 0 ==> a * b >= 0,
        a <= 0 && b >= 0 ==> a * b <= 0,
{
    assert(a >= 0 && b >= 0 ==> a * b >= 0) by (nonlinear_arith);
    assert(a <= 0 && b >= 0 ==> a * b <= 0) by (nonlinear_arith);
}

/// Filming past the nose, the camera aims ahead of the car: the way from the car to
/// its mark runs with the nose. Too near the ball to aim at it, it aims on along
/// the line it follows.
pub proof fn law_the_chase_cam_aims_ahead(t: Angles, s: Scene, from: V3)
    requires
        compass::true_turns(t),
        s.in_range(),
        s.nose(t).within(4096),
    ensures
        ({
            let fwd = s.nose(t);
            let to = camera::aim(t, s, from);
            let (ax, az) = (to.x - s.at().0, to.z - s.at().1);
            let back = camera::fallback_aim(t, s);
            let yaw = camera::follow_yaw(t, s);
            &&& !s.ball_cam ==> {
                &&& fwd.x >= 0 ==> 0 <= ax <= 120
                &&& fwd.x <= 0 ==> -120 <= ax <= 0
                &&& fwd.z >= 0 ==> 0 <= az <= 120
                &&& fwd.z <= 0 ==> -120 <= az <= 0
                &&& fwd.x == 4096 ==> ax == 120
                &&& fwd.z == 4096 ==> az == 120
            }
            &&& s.ball_cam ==> to == back || to == camera::ball_aim(s)
            &&& (back.x - s.at().0) * t.sin(yaw) + (back.z - s.at().1) * t.cos(yaw) > 0
        }),
{
    reveal(camera::aim);
    let fwd = s.nose(t);
    let yaw = camera::follow_yaw(t, s);
    let (sn, cs) = (t.sin(yaw), t.cos(yaw));
    assert(compass::on_circle(t, yaw));
    let (gx, gz) = (camera::q12(sn, 900), camera::q12(cs, 900));
    let (ex, ez) = (900 * sn - 4096 * gx, 900 * cs - 4096 * gz);
    assert(0 <= ex < 4096 && 0 <= ez < 4096);
    num::lemma_mul_bound(ex, sn, 4096, 4096);
    num::lemma_mul_bound(ez, cs, 4096, 4096);
    assert(4096 * (gx * sn) == 900 * (sn * sn) - ex * sn) by (nonlinear_arith)
        requires
            4096 * gx == 900 * sn - ex,
    ;
    assert(4096 * (gz * cs) == 900 * (cs * cs) - ez * cs) by (nonlinear_arith)
        requires
            4096 * gz == 900 * cs - ez,
    ;
    let back = camera::fallback_aim(t, s);
    assert(back.x - s.at().0 == gx && back.z - s.at().1 == gz);
}

} // verus!
