//! The picture of a match, drawn through a plain pinhole.

use nitroxide::actors::{car_flame, car_ground, pads, shadow, Caster, ORB_BRIGHT};
use nitroxide::blast::{burst, demo_burst, goal_burst, to_drawn, Blast, BURST_LIFE, LIFE_SIZE};
use nitroxide::camera::{camera, close_camera, keep_inside, look_from, CameraState, Scene, Sight};
use nitroxide::cars::{build_car_wheel_centres, car_materials_for, decode_car_geometry, CAR_MAX_VERTS};
use nitroxide::chassis::{
    animated_car_vertex, car_back_facing, car_transform, car_world, draw_far_car, plan_car,
    project_car_animated, submit_car_faces, wheel_pose, CarPlan, Lit, Tri, WheelPose,
};
use nitroxide::colour::Livery;
use nitroxide::cull::{to_camera, Cull};
use nitroxide::dials::{boost_gauge, scoreboard};
use nitroxide::enclosure::{ceiling, lamps, walls};
use nitroxide::goals::goals;
use nitroxide::lens::{push_quad, Dot, Filing, Lens, Packet};
use nitroxide::light::{arena_look, arena_sky, build_lighting, lamp_light, Lighting};
use nitroxide::pads::Pad;
use nitroxide::pitch::{floor, floor_split};
use nitroxide::render::{
    build_view, can_draw, render, render_close_view, render_menu, render_split, render_view,
    Lenses, Pass, SKY_SLOT,
};
use nitroxide::shell::{chamfer, cover_texels, net_texels, span, Profile};
use nitroxide::sim::Sim;
use nitroxide::sphere::{ball, ball_world, build_meshes};
use nitroxide::trig::Trig;
use nitroxide::turn::{apply, rot_x_q12, rot_y_q12, Mat3, Product};
use nitroxide::tuning::uu;
use nitroxide::vec3::V3;
use nitroxide::view::{ArenaTime, Bounds, Viewport};
use nitroxide::walls::{inside_goal, Walls};

fn trig() -> Trig<fn(i32, i32) -> u16> {
    let wave = |f: fn(f64) -> f64| -> Vec<i32> {
        (0..4096)
            .map(|i| (f(i as f64 * std::f64::consts::TAU / 4096.0) * 4096.0).round() as i32)
            .collect()
    };
    Trig::new(wave(f64::sin), wave(f64::cos), bearing as fn(i32, i32) -> u16).unwrap()
}

fn bearing(y: i32, x: i32) -> u16 {
    let turns = (y as f64).atan2(x as f64) / std::f64::consts::TAU;
    ((turns * 4096.0).round() as i32).rem_euclid(4096) as u16
}

/// A camera at the origin looking along +Z, with everything nearer than a few
/// units behind it.
fn pinhole(p: V3) -> Dot {
    if p.z < 16 {
        return Dot { sx: 0, sy: 0, sz: 0 };
    }
    Dot {
        sx: (160 + p.x * 260 / p.z).clamp(-1024, 1024) as i16,
        sy: (120 + p.y * 260 / p.z).clamp(-1024, 1024) as i16,
        sz: p.z.min(65_535) as u16,
    }
}

/// A camera far down the pitch, so that the whole of it is ahead.
fn from_the_end(p: V3) -> Dot {
    pinhole(V3::new(p.x, p.y + 600, p.z + 7000))
}

type Projection = fn(V3) -> Dot;

fn lens(f: Projection) -> Lens<Projection> {
    Lens::new(f)
}

fn full() -> Bounds {
    Bounds::around(Viewport::full())
}

fn half() -> Bounds {
    Bounds::around(Viewport::top())
}

/// Looking down the pitch from behind one goal, level.
fn down_the_pitch(t: &Trig<fn(i32, i32) -> u16>) -> Sight {
    look_from(t, V3::new(0, -600, -7000), 0, 0)
}

fn product() -> Product<fn(Mat3, Mat3) -> Mat3> {
    Product::new(times as fn(Mat3, Mat3) -> Mat3)
}

fn times(a: Mat3, b: Mat3) -> Mat3 {
    let col = |x: i32, y: i32, z: i32| apply(&a, V3::new(x, y, z));
    let (p, q, r) = (
        col(b.x.x, b.y.x, b.z.x),
        col(b.x.y, b.y.y, b.z.y),
        col(b.x.z, b.y.z, b.z.z),
    );
    Mat3 {
        x: V3::new(p.x, q.x, r.x),
        y: V3::new(p.y, q.y, r.y),
        z: V3::new(p.z, q.z, r.z),
    }
}

fn depth_of(p: &Packet) -> i32 {
    match p.filing {
        Filing::At(d) => d,
        Filing::Slot(_) => panic!("filed in a slot"),
    }
}

// ---- the lens --------------------------------------------------------------

#[test]
fn a_quad_behind_the_camera_or_off_screen_is_not_drawn() {
    let l = lens(pinhole);
    let at = |x: i32, z: i32| {
        (V3::new(x - 10, -10, z), V3::new(x + 10, -10, z), V3::new(x - 10, 10, z), V3::new(x + 10, 10, z))
    };
    let c = ((1, 2, 3), (1, 2, 3), (1, 2, 3), (1, 2, 3));
    let mut out = Vec::new();
    push_quad(&mut out, &l, &full(), at(0, 500), c, 7, None, false);
    assert_eq!(out.len(), 1);
    assert_eq!(depth_of(&out[0]), 507);
    push_quad(&mut out, &l, &full(), at(0, -500), c, 0, None, false);
    push_quad(&mut out, &l, &full(), at(9000, 500), c, 0, None, false);
    assert_eq!(out.len(), 1);
}

#[test]
fn a_box_in_view_is_kept_and_one_behind_is_not() {
    let t = trig();
    let cull = Cull { view: down_the_pitch(&t), bounds: full() };
    let h = V3::new(50, 50, 50);
    assert!(cull.visible(V3::new(0, 0, 0), h));
    assert!(!cull.visible(V3::new(0, 0, -9000), h));
    assert!(!cull.visible(V3::new(9000, 0, -6000), h));
    assert!(cull.visible_vertically(V3::new(0, -600, 0), h));
    assert_eq!(cull.flat_distance(100, -6900), 100);
    let p = to_camera(&cull.view, V3::new(30, -600, -6000));
    assert_eq!((p.x, p.y, p.z), (30, 0, 1000));
}

// ---- the arena -------------------------------------------------------------

#[test]
fn the_footprint_is_chamfered_and_closed() {
    assert_eq!(chamfer(0, 0), (0, 0));
    let (x, z) = chamfer(4096, 5120);
    assert!(x < 4096 && z < 5120 && x + z <= 8064);
    for i in 0..24 {
        let (a, b) = (span(i), span((i + 1) % 24));
        assert!(a.b == b.a || i == 11 || i == 23 || a.b != b.b, "run {i}");
    }
    assert_eq!(cover_texels(0), 1);
    assert_eq!(cover_texels(22), 1);
    assert_eq!(cover_texels(23), 2);
    assert_eq!(cover_texels(100_000), 128);
    assert_eq!(net_texels(100_000), 96);
    assert_eq!(floor_split(0, false), 4);
    assert_eq!(floor_split(3000, false), 2);
    assert_eq!(floor_split(9000, false), 1);
    assert_eq!(floor_split(3000, true), 1);
}

fn lighting(t: &Trig<fn(i32, i32) -> u16>, time: ArenaTime) -> (Profile, Lighting) {
    let profile = Profile::build(t);
    let lights = build_lighting(t, time, &Livery::set_seat_paints(0, 5), &profile);
    (profile, lights)
}

#[test]
fn the_lights_are_brightest_under_a_lamp() {
    let look = arena_look(ArenaTime::Night);
    let up = V3::new(0, -4096, 0);
    let near = lamp_light(&look, V3::new(0, 0, 0), up);
    let far = lamp_light(&look, V3::new(0, 0, 9_000), up);
    assert!(near.0 >= far.0 && near.1 >= far.1 && near.2 >= far.2);
    let t = trig();
    let sky = arena_sky(&down_the_pitch(&t), ArenaTime::Day);
    assert_ne!(sky.0, sky.2, "the zenith and the horizon differ");
}

#[test]
fn the_arena_is_drawn_in_front_of_the_camera() {
    let t = trig();
    let (profile, lights) = lighting(&t, ArenaTime::Night);
    let w = Walls { profile: &profile, lights: &lights };
    let cull = Cull { view: down_the_pitch(&t), bounds: full() };
    let l = lens(from_the_end);
    let mut out = Vec::new();
    floor(&mut out, &l, &lights, &cull);
    let pitch = out.len();
    assert!(pitch > 40, "{pitch}");
    walls(&mut out, &l, &w, &cull);
    assert!(out.len() > pitch);
    let n = out.len();
    ceiling(&mut out, &l, &lights, &cull);
    lamps(&mut out, &l, &cull);
    goals(&mut out, &l, &cull.bounds, &Livery::set_seat_paints(0, 5));
    assert!(out.len() > n);
    assert!(!inside_goal(&cull, 1));
    let behind = Cull { view: look_from(&t, V3::new(0, -600, -7000), 2048, 0), bounds: full() };
    let mut none = Vec::new();
    floor(&mut none, &l, &lights, &behind);
    assert!(none.is_empty(), "looking away, no tile is in view");
}

#[test]
fn pads_keep_their_plate_and_lose_their_orb() {
    let t = trig();
    let cull = Cull { view: down_the_pitch(&t), bounds: full() };
    let l = lens(from_the_end);
    let mut s = Sim::new();
    let mut live = Vec::new();
    pads(&mut live, &l, &s, &cull);
    s.pad_timers = [9; 34];
    let mut spent = Vec::new();
    pads(&mut spent, &l, &s, &cull);
    assert_eq!(live.len(), 2 * spent.len(), "two plates, and two diamonds more");
    assert!(live.iter().any(|p| p.tint.0 == ORB_BRIGHT));
    assert!(spent.iter().all(|p| p.tint.0 != ORB_BRIGHT));
    assert_eq!(Pad::at(0).big, true);
}

// ---- effects ---------------------------------------------------------------

#[test]
fn a_blast_burns_out_within_its_budget() {
    let t = trig();
    let l = lens(pinhole);
    let k = Blast { origin: V3::new(0, 0, 900), age: 0, colour: (54, 118, 240), scale: LIFE_SIZE, half_detail: false };
    let count = |age: i32, half_detail: bool| {
        let mut out = Vec::new();
        burst(&mut out, &l, &full(), &t, &Blast { age, half_detail, ..k });
        out.len()
    };
    assert!(count(0, false) >= 2);
    assert!(count(6, false) <= 29 && count(6, false) > count(6, true));
    assert!(count(6, true) <= 15);
    assert_eq!(count(BURST_LIFE, false), 0);
    assert_eq!(count(-1, false), 0);
    let mut again = Vec::new();
    burst(&mut again, &l, &full(), &t, &Blast { age: 6, ..k });
    let mut first = Vec::new();
    burst(&mut first, &l, &full(), &t, &Blast { age: 6, ..k });
    assert_eq!(first, again, "two views of one blast agree");
}

#[test]
fn a_flash_is_a_pair_of_blended_squares() {
    let t = trig();
    let l = lens(pinhole);
    let mut out = Vec::new();
    let k = Blast { origin: V3::new(0, 0, 1820), age: 0, colour: (0, 0, 0), scale: LIFE_SIZE, half_detail: true };
    burst(&mut out, &l, &full(), &t, &k);
    // Seventeen and eight uu at 1820 deep: two pixels and one.
    assert!(out[0].blended && out[1].blended);
    assert_eq!(out[0].at.0, (158, 118));
    assert_eq!(out[1].at.3, (161, 121));
    assert_eq!(out[1].tint.0, (255, 250, 226));
}

#[test]
fn wrecks_and_goals_go_off_where_they_happened() {
    let t = trig();
    let l = lens(from_the_end);
    let livery = Livery::set_seat_paints(0, 5);
    let mut s = Sim::new();
    let mut out = Vec::new();
    demo_burst(&mut out, &l, &full(), &t, &s, &livery);
    goal_burst(&mut out, &l, &full(), &t, &s, &livery);
    assert!(out.is_empty());
    s.car.demo_timer = 178;
    demo_burst(&mut out, &l, &full(), &t, &s, &livery);
    assert!(!out.is_empty());
    out.clear();
    s.goal_freeze = 140;
    s.ball.p = V3::new(0, uu(92), uu(5500));
    goal_burst(&mut out, &l, &full(), &t, &s, &livery);
    assert!(out.len() > 10);
    assert!(out.iter().all(|p| depth_of(p) <= 5120 + 7000 + 2000));
    assert_eq!(to_drawn(V3::new(640, 128, -65)), V3::new(10, -2, -2));
}

#[test]
fn a_shadow_is_an_octagon_that_shrinks() {
    let t = trig();
    let (_, lights) = lighting(&t, ArenaTime::Night);
    let l = lens(from_the_end);
    let spread = |height: i32| {
        let mut out = Vec::new();
        let c = Caster { x: 0, height, z: -5000, rx: 91, rz: 91, yaw: 0 };
        shadow(&mut out, &l, &full(), &t, &lights, &c);
        assert_eq!(out.len(), 3);
        assert!(out.iter().all(|p| p.blended));
        let xs: Vec<i16> = out.iter().flat_map(|p| [p.at.0 .0, p.at.1 .0, p.at.2 .0, p.at.3 .0]).collect();
        xs.iter().max().unwrap() - xs.iter().min().unwrap()
    };
    assert!(spread(0) > spread(900));
    assert!(spread(900) >= spread(2000));
}

#[test]
fn a_plume_needs_a_boosting_car_clear_of_the_lens() {
    let t = trig();
    let view = down_the_pitch(&t);
    let l = lens(|p: V3| pinhole(V3::new(p.x, p.y, p.z + 3000)));
    let mut s = Sim::new();
    let mut out = Vec::new();
    car_flame(&mut out, &l, &full(), &view, &s.car);
    assert!(out.is_empty());
    s.car.boosting = true;
    car_flame(&mut out, &l, &full(), &view, &s.car);
    assert_eq!(out.len(), 6);
    assert!(out.iter().all(|p| p.blended));
    out.clear();
    car_flame(&mut out, &l, &half(), &view, &s.car);
    assert!(out.is_empty(), "lost to distance in half a view");
    s.car.p.z = uu(-6900);
    car_flame(&mut out, &l, &full(), &view, &s.car);
    assert!(out.is_empty(), "too near");
}

#[test]
fn the_ball_shows_its_near_side() {
    let t = trig();
    let mesh = build_meshes(&t);
    assert_eq!(mesh.len(), 96);
    assert_eq!(mesh[0].y, -91);
    assert_eq!(mesh[95].y, 91);
    let mut s = Sim::new();
    let world = ball_world(&product(), &t, &s);
    let view = down_the_pitch(&t);
    let l = lens(|p: V3| pinhole(V3::new(p.x, p.y, p.z + 1000)));
    let mut whole = Vec::new();
    ball(&mut whole, &l, &mesh, &world, &s, &view, false);
    let mut split = Vec::new();
    ball(&mut split, &l, &mesh, &world, &s, &view, true);
    assert!(whole.len() > 20 && whole.len() < 60, "{}", whole.len());
    assert!(split.len() < whole.len());
    s.ball.roll = 1024;
    assert_ne!(ball_world(&product(), &t, &s), world);
}

#[test]
fn the_dial_and_the_scoreboard_stand_on_the_glass() {
    let t = trig();
    let livery = Livery::set_seat_paints(0, 5);
    let plate = scoreboard(&livery);
    assert_eq!(plate.len(), 4);
    assert_eq!(plate[0].a, (89, 0));
    assert_eq!(plate[1].tint.2, (54, 118, 240));
    assert_eq!(plate[2].tint.2, (250, 138, 34));
    assert_eq!(plate[3].d, (239, 26));
    let lit = |pips: i32| {
        boost_gauge(&t, 268, 190, pips, false).iter().filter(|q| q.tint.0 != (44, 48, 62)).count()
    };
    assert_eq!((lit(0), lit(50), lit(100)), (0, 9, 18));
    assert_eq!(boost_gauge(&t, 268, 190, 100, false)[17].tint.0, (255, 230, 40));
}

// ---- matrices and cars -----------------------------------------------------

#[test]
fn a_yaw_points_forward_and_a_roll_keeps_its_axle() {
    let t = trig();
    let ahead = V3::new(0, 0, 4096);
    assert_eq!(apply(&rot_y_q12(&t, 0), ahead), ahead);
    assert_eq!(apply(&rot_y_q12(&t, 1024), ahead), V3::new(4096, 0, 0));
    let axle = V3::new(4096, 0, 0);
    assert_eq!(apply(&rot_x_q12(&t, 777), axle), axle);
    assert_eq!(apply(&Mat3::flip_y(), V3::new(1, 2, 3)), V3::new(1, -2, 3));
    assert_eq!(apply(&Mat3::identity(), V3::new(1, 2, 3)), V3::new(1, 2, 3));
}

#[test]
fn a_vertex_keeps_the_first_colour_to_claim_it() {
    let faces = vec![(0, 1, 2), (2, 3, 0), (3, 4, 9)];
    let colours = vec![(10, 0, 0), (0, 20, 0), (0, 0, 30)];
    let m = car_materials_for(5, &faces, &colours);
    assert_eq!(m.len(), CAR_MAX_VERTS);
    assert_eq!(m[..6], [(10, 0, 0), (10, 0, 0), (10, 0, 0), (0, 20, 0), (0, 0, 30), (128, 128, 128)]);
    let short = car_materials_for(5, &faces, &vec![(10, 0, 0)]);
    assert_eq!(short[3], (128, 128, 128), "nothing past the first face without a colour");
    assert_eq!(decode_car_geometry(5, &faces), vec![(0, 1, 2), (2, 3, 0)]);
}

#[test]
fn a_wheel_turns_about_the_middle_of_its_box() {
    let verts = vec![V3::new(0, 0, 0), V3::new(10, 4, -6), V3::new(20, 8, 6), V3::new(12, 5, 1), V3::new(99, 99, 99)];
    let slots = vec![255, 2, 2, 2, 7];
    let c = build_car_wheel_centres(&verts, &slots);
    assert_eq!(c, vec![V3::zero(), V3::zero(), V3::new(15, 6, 0), V3::zero()]);
    let pose = WheelPose { front: Mat3::flip_y(), rear: Mat3::identity(), travel: (3, -3) };
    let up = V3::new(0, 4096, 0);
    let (p, n) = animated_car_vertex(V3::new(15, 8, 0), up, 2, &c, &pose);
    assert_eq!(p, V3::new(15, 7, 0));
    assert_eq!(n, V3::new(0, -4096, 0));
    let (p, n) = animated_car_vertex(V3::new(15, 8, 0), up, 255, &c, &pose);
    assert_eq!((p, n), (V3::new(15, 8, 0), up), "the body is left alone");
    let (p, _) = animated_car_vertex(V3::new(15, 8, 0), up, 0, &c, &pose);
    assert_eq!(p, V3::new(15, 5, 0));
    let posed = project_car_animated(&verts, &verts, &slots, &c, &vec![(1, 2, 3); CAR_MAX_VERTS], &pose);
    assert_eq!(posed.len(), 5);
    assert_eq!(posed[4].at, V3::new(99, 99, 99));
}

fn lit(sx: i16, sy: i16, sz: u16) -> Lit {
    Lit { at: Dot { sx, sy, sz }, tint: (9, 9, 9) }
}

#[test]
fn faces_go_down_nearest_first_and_backs_are_dropped() {
    let p = vec![
        lit(0, 0, 100), lit(10, 0, 100), lit(0, 10, 100),
        lit(0, 0, 40), lit(10, 0, 40), lit(0, 10, 40),
        lit(0, 0, 70), lit(10, 0, 70), lit(0, 10, 70),
    ];
    assert!(!car_back_facing(p[0].at, p[1].at, p[2].at));
    assert!(car_back_facing(p[0].at, p[2].at, p[1].at));
    assert!(car_back_facing(p[0].at, p[0].at, p[1].at));
    let faces = vec![(0, 1, 2), (3, 4, 5), (0, 2, 1), (6, 7, 8)];
    let mut out: Vec<Tri> = Vec::new();
    submit_car_faces(&mut out, &faces, &p);
    let depths: Vec<i32> = out.iter().map(|t| t.depth).collect();
    assert_eq!(depths, vec![40, 70, 100]);
    assert_eq!(out[0].at, ((0, 0), (10, 0), (0, 10)));
}

#[test]
fn a_car_is_drawn_whole_far_or_not_at_all() {
    let t = trig();
    let mut s = Sim::new();
    let view = down_the_pitch(&t);
    let whole = Cull { view, bounds: full() };
    let split = Cull { view, bounds: half() };
    assert_eq!(plan_car(&whole, &s.opponent), CarPlan::Mesh);
    assert_eq!(plan_car(&split, &s.opponent), CarPlan::Far);
    s.opponent.demo_timer = 5;
    assert_eq!(plan_car(&whole, &s.opponent), CarPlan::Gone);
    let livery = Livery::set_seat_paints(0, 5);
    let mut out = Vec::new();
    draw_far_car(&mut out, 1, &s.opponent, &split, &livery);
    assert_eq!(out.len(), 4);
    assert_eq!(out[2].tint.0, (208, 96, 24));
    assert_eq!(out[0].tint.2, (12, 12, 16));
    let g = car_ground(&s.car);
    assert_eq!(g.y, 0, "a car at rest stands on the ground");
}

#[test]
fn a_flip_tumbles_and_comes_back_round() {
    let t = trig();
    let p = product();
    let mut s = Sim::new();
    let rest = car_transform(&p, &t, &s.car);
    assert_eq!(rest, car_world(&t, &s.car));
    s.car.dodge_timer = 20;
    let over = car_transform(&p, &t, &s.car);
    assert!(over.y.y.signum() == -rest.y.y.signum(), "half way round, it is upside down");
    let pose = wheel_pose(&p, &t, &s.car);
    assert_eq!(pose.rear, rot_x_q12(&t, s.car.wheel_spin));
}

// ---- cameras and frames ----------------------------------------------------

#[test]
fn the_camera_keeps_inside_and_never_snaps() {
    let t = trig();
    let s = Sim::new();
    let scene = Scene { ball: s.ball, car: s.car, ball_cam: false, hold_car: true, close: false };
    let (first, state) = camera(&t, &scene, &CameraState::empty());
    assert_eq!(keep_inside(first.eye.x, first.eye.z), (first.eye.x, first.eye.z));
    let mut turned = scene;
    turned.car.yaw = turned.car.yaw.wrapping_add(2048);
    let (_, next) = camera(&t, &turned, &state);
    let swing = (next.yaw as i32 - state.yaw as i32 + 2048).rem_euclid(4096) - 2048;
    assert!(swing.abs() < 2048, "{swing}");
    assert_eq!(keep_inside(0, 0), (0, 0));
    let (x, z) = keep_inside(9000, 9000);
    assert!(x < 4096 && z < 5120);
}

#[test]
fn a_goal_puts_every_camera_on_the_ball() {
    let t = trig();
    let mut s = Sim::new();
    s.ball.p = V3::new(uu(2000), uu(500), uu(3000));
    let driving = render(false);
    let watching = render(true);
    let a = render_view(&t, &s, &driving, &CameraState::empty()).0;
    let b = render_view(&t, &s, &watching, &CameraState::empty()).0;
    assert_ne!(a.view, b.view);
    assert_eq!(a.boost, 33);
    s.goal_freeze = 100;
    let c = render_view(&t, &s, &driving, &CameraState::empty()).0;
    let d = render_view(&t, &s, &watching, &CameraState::empty()).0;
    assert_eq!(c.view, d.view);
}

#[test]
fn a_split_keeps_each_player_their_own() {
    let (a, b) = render_split((true, false), false);
    assert_eq!((a.seat, a.ball_cam, a.camera_slot, a.vp), (0, true, 0, Viewport::top()));
    assert_eq!((b.seat, b.ball_cam, b.camera_slot, b.vp), (1, false, 1, Viewport::bottom()));
    let (a, b) = render_split((true, false), true);
    assert_eq!((a.seat, a.ball_cam, a.vp), (1, false, Viewport::top()));
    assert_eq!((b.seat, b.ball_cam, b.vp), (0, true, Viewport::bottom()));
}

#[test]
fn a_frame_holds_the_sky_the_arena_and_the_match() {
    let t = trig();
    let (profile, lights) = lighting(&t, ArenaTime::Sunset);
    let w = Walls { profile: &profile, lights: &lights };
    let mesh = build_meshes(&t);
    let s = Sim::new();
    assert!(can_draw(&s));
    let world = ball_world(&product(), &t, &s);
    let view = render_menu(&t);
    assert_eq!(view.eye, V3::new(0, -150, -520));
    let lenses = Lenses {
        world: lens(|p: V3| pinhole(V3::new(p.x, p.y + 150, p.z + 520))),
        ball: lens(pinhole),
        one: lens(pinhole),
        two: lens(pinhole),
    };
    let mut whole = Vec::new();
    build_view(&mut whole, &lenses, &t, &w, &mesh, &world, &s, &view, Viewport::full(), &None, 33);
    assert_eq!(whole[0].filing, Filing::Slot(SKY_SLOT));
    assert!(whole.len() > 60, "{}", whole.len());
    let mut top = Vec::new();
    build_view(&mut top, &lenses, &t, &w, &mesh, &world, &s, &view, Viewport::top(), &None, 33);
    assert_eq!(top[1].at.0, (0, 118), "the line between two views");
    let mut far = s;
    far.ball.p.x = uu(100_000);
    assert!(!can_draw(&far));
}

#[test]
fn the_close_camera_stands_three_quarters_round_the_wheels() {
    let t = trig();
    let mut s = Sim::new();
    s.car.p.z = uu(-1800);
    let scene = Scene { ball: s.ball, car: s.car, ball_cam: false, hold_car: true, close: false };
    let (near, state) = close_camera(&t, &scene, &CameraState::empty());
    assert_eq!(near.eye, V3::new(-304, -218, -2104));
    assert!(state.valid);
    let (chase, _) = camera(&t, &scene, &CameraState::empty());
    assert_eq!(chase.eye, V3::new(0, -358, -2600));
    let pass = Pass { vp: Viewport::full(), seat: 0, ball_cam: false, camera_slot: 0 };
    let shot = render_close_view(&t, &s, &pass, &CameraState::empty()).0;
    assert_eq!(shot.view, near);
    assert_eq!(shot.boost, 33);
}
