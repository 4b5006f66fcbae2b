//! The match, played from outside.

use nitroxide::ai::to_uu;
use nitroxide::arena::confine;
use nitroxide::ball::spin_rad_per_s;
use nitroxide::car::{Car, Input};
use nitroxide::contact::{car_box_contact, CAR_BOUND_R};
use nitroxide::flight::Team;
use nitroxide::num::isqrt_i32;
use nitroxide::pads::Pad;
use nitroxide::sim::{AiTarget, Sim, WinCondition};
use nitroxide::trig::{heading, Trig};
use nitroxide::tuning::{BALL_BOUNCE, BALL_MAX_SPIN, BALL_R, BOOST_DRAIN, BOOST_MAX, BOOST_MAX_PIPS, BOOST_MIN_TICKS, BOOST_SCALE, CAR_BOOST_SPEED, CAR_HALF_H, CAR_HALF_L, CAR_HALF_W, CAR_JUMP_V, CAR_MAX_SPEED, CAR_R, CAR_REST_Y, CEIL, CORNER, DEMO_RESPAWN, DODGE_WINDOW, FP, GOAL_DEPTH, GOAL_FREEZE_TICKS, GOAL_H, GOAL_HALF_W, GRAVITY_NUM, HALF_X, HALF_Z, JUMP_BONUS_DEN, JUMP_BONUS_NUM, JUMP_SLICES_MAX, JUMP_SLICES_MIN, MATCH_TICKS, NOMINAL_GRAVITY, POST_R, SPIN_FP, SUPERSONIC_SPEED, SUSPENSION_VISUAL_FP, WALL_RAMP_R, uu};
use nitroxide::vec3::V3;
use std::ops::{Deref, DerefMut};

/// Q12 sines, cosines and bearings, rounded to nearest.
fn trig() -> Trig<fn(i32, i32) -> u16> {
    let wave = |f: fn(f64) -> f64| -> Vec<i32> {
        (0..4096)
            .map(|i| (f(i as f64 * std::f64::consts::TAU / 4096.0) * 4096.0).round() as i32)
            .collect()
    };
    Trig::new(wave(f64::sin), wave(f64::cos), bearing as fn(i32, i32) -> u16).unwrap()
}

fn bearing(y: i32, x: i32) -> u16 {
    let turns = (y as f64).atan2(x as f64) / std::f64::consts::TAU;
    ((turns * 4096.0).round() as i32).rem_euclid(4096) as u16
}

/// A match with the trigonometry it is stepped with.
struct World {
    sim: Sim,
    trig: Trig<fn(i32, i32) -> u16>,
}

impl World {
    fn new() -> World {
        World { sim: Sim::new(), trig: trig() }
    }

    fn with_win_condition(win: WinCondition) -> World {
        World { sim: Sim::with_win_condition(win), trig: trig() }
    }

    fn clone(&self) -> World {
        World { sim: self.sim, trig: trig() }
    }

    fn tick(&mut self, input: &Input) {
        assert!(self.sim.try_advance(&self.trig, input, None), "a body left the range");
    }

    fn drive_ai(&mut self) -> Input {
        self.sim.drive_ai(&self.trig)
    }

    fn ai_handling(&self) -> Input {
        self.sim.ai_handling(&self.trig)
    }
}

impl Deref for World {
    type Target = Sim;

    fn deref(&self) -> &Sim {
        &self.sim
    }
}

impl DerefMut for World {
    fn deref_mut(&mut self) -> &mut Sim {
        &mut self.sim
    }
}

fn solo() -> World {
    let mut sim = World::new();
    sim.opponent_ai = false;
    sim.opponent.p = V3::new(0, uu(CAR_REST_Y), uu(HALF_Z + GOAL_DEPTH / 2));
    sim
}

fn coast(sim: &mut World, ticks: u32) {
    let idle = Input::default();
    for _ in 0..ticks {
        sim.tick(&idle);
    }
}

fn drive(sim: &mut World, ticks: u32, input: Input) {
    for _ in 0..ticks {
        sim.tick(&input);
    }
}

fn to_uu_s(internal: i32) -> i32 {
    internal * 60 / 64
}

fn to_uu_s2(internal: i32) -> i32 {
    internal * 3600 / 64
}


fn jump_apex(sim: &mut World, hold: u32, ticks: u32) -> (i32, Option<u32>) {
    let mut apex = to_uu(sim.car.p.y);
    let mut landed = None;
    for t in 0..ticks {
        let held = t < hold;
        sim.tick(&Input {
            jump_pressed: t == 0,
            jump_held: held,
            ..Input::default()
        });
        apex = apex.max(to_uu(sim.car.p.y));
        if landed.is_none() && t > 2 && sim.car.grounded {
            landed = Some(t);
        }
    }
    (apex, landed)
}

fn in_bounds(p: V3, r: i32) -> bool {
    if p.y < -uu(1) || p.y > uu(CEIL) {
        return false;
    }
    if p.z.abs() > uu(HALF_Z) {
        return p.x.abs() <= uu(GOAL_HALF_W) && p.z.abs() <= uu(HALF_Z + GOAL_DEPTH);
    }
    p.x.abs() <= uu(HALF_X) && p.x.abs() + p.z.abs() <= uu(CORNER) + uu(r)
}

#[test]
fn ball_settles_on_the_floor() {
    let mut sim = solo();
    sim.ball.p.y = uu(CEIL - BALL_R);
    coast(&mut sim, 600);
    assert_eq!(
        sim.ball.p.y,
        uu(BALL_R),
        "ball should rest exactly on the floor"
    );
    assert_eq!(sim.ball.v.y, 0);
    assert!(sim.ball.grounded);
}

#[test]
fn ball_bounces_off_a_side_wall_and_stays_inside() {
    let mut sim = solo();
    sim.ball.v.x = 3000;
    coast(&mut sim, 600);
    assert!(
        in_bounds(sim.ball.p, BALL_R),
        "ball tunnelled out: {:?}",
        sim.ball.p
    );
    assert_eq!((sim.score_blue, sim.score_orange), (0, 0));
}

#[test]
fn ball_fired_at_a_corner_comes_back_off_the_chamfer() {
    let mut sim = solo();
    sim.ball.v = V3::new(2400, 0, 2400);
    for _ in 0..600 {
        sim.tick(&Input::default());
        assert!(
            in_bounds(sim.ball.p, BALL_R),
            "left the arena: {:?}",
            sim.ball.p
        );
    }
    assert!(
        sim.ball.v.x < 0 && sim.ball.v.z < 0,
        "corner did not reverse it: {:?}",
        sim.ball.v
    );
}

#[test]
fn the_corner_is_cut_not_square() {
    let x = uu(HALF_X - BALL_R - 1);
    let z = uu(HALF_Z - BALL_R - 1);
    assert!(
        x.abs() + z.abs() > uu(CORNER),
        "test point is not past the chamfer"
    );
    let (cx, cz, _, _, _) = confine(x, z, 0, 0, BALL_R, BALL_BOUNCE, false);
    assert!(
        cx < x && cz < z,
        "chamfer did not move the point: {cx} {cz}"
    );
    assert!(in_bounds(V3::new(cx, uu(BALL_R), cz), BALL_R));
}

#[test]
fn shot_into_the_mouth_scores_and_a_shot_at_the_wall_does_not() {
    let mut sim = solo();
    sim.ball.v.z = 3000;
    coast(&mut sim, 600);
    assert_eq!(
        sim.score_blue, 1,
        "straight shot down the middle should score"
    );

    let mut wide = solo();
    wide.ball.p.x = uu(GOAL_HALF_W + 400);
    wide.ball.v.z = 3000;
    coast(&mut wide, 600);
    assert_eq!(
        wide.score_blue, 0,
        "a shot wide of the post must hit the wall"
    );
    assert!(in_bounds(wide.ball.p, BALL_R));
}

#[test]
fn goal_freezes_then_returns_to_kickoff() {
    let mut sim = solo();
    sim.ball.v.z = 3000;
    coast(&mut sim, 150);
    assert!(sim.goal_freeze > 0, "should still be celebrating");
    coast(&mut sim, GOAL_FREEZE_TICKS as u32 + 1);
    assert_eq!(sim.goal_freeze, 0);
    assert_eq!(
        sim.ball.p,
        V3::new(0, uu(BALL_R), 0),
        "kickoff should recentre the ball"
    );
}

#[test]
fn car_tops_out_near_rocket_leagues_speeds() {
    let mut sim = solo();
    sim.ball.p.x = uu(HALF_X - BALL_R);
    drive(
        &mut sim,
        200,
        Input {
            throttle: 128,
            ..Input::default()
        },
    );
    let flat = sim.car.v.len_xz();
    assert!(
        flat > CAR_MAX_SPEED * 9 / 10,
        "throttle-only top speed too low: {flat}"
    );
    assert!(
        flat <= CAR_MAX_SPEED + 8,
        "throttle alone should not pass 1410 uu/s: {flat}"
    );

    sim.car.boost = BOOST_MAX;
    sim.car.p.z = -uu(4608);
    drive(
        &mut sim,
        90,
        Input {
            throttle: 128,
            boost: true,
            ..Input::default()
        },
    );
    let boosted = sim.car.v.len_xz();
    assert!(
        boosted > flat,
        "boost did not add speed: {boosted} vs {flat}"
    );
    assert!(
        boosted <= CAR_BOOST_SPEED + 8,
        "car passed 2300 uu/s: {boosted}"
    );
}

#[test]
fn car_turns_at_roughly_two_radians_per_second() {
    let mut sim = solo();
    sim.ball.p.x = uu(HALF_X - BALL_R);
    drive(
        &mut sim,
        180,
        Input {
            throttle: 128,
            ..Input::default()
        },
    );
    let before = sim.car.yaw;
    drive(
        &mut sim,
        60,
        Input {
            throttle: 128,
            steer: 128,
            ..Input::default()
        },
    );
    let turned = sim.car.yaw.wrapping_sub(before) as i32;
    assert!(
        (700..=1800).contains(&turned),
        "turn rate off: {turned} Q12/s"
    );
}

#[test]
fn wheels_spin_opposite_ways_in_forward_and_reverse() {
    let car_at = |speed| Car {
        p: V3::new(0, uu(CAR_REST_Y), 0),
        v: V3::new(0, 0, speed),
        grounded: true,
        up: V3::new(0, 4096, 0),
        ..Car::default()
    };
    let mut forward = car_at(600);
    let mut reverse = car_at(-600);
    Sim::tick_car(&trig(), &mut forward, &Input::default(), NOMINAL_GRAVITY);
    Sim::tick_car(&trig(), &mut reverse, &Input::default(), NOMINAL_GRAVITY);
    let forward_turn = forward.wheel_spin as i16;
    let reverse_turn = reverse.wheel_spin as i16;
    assert!(
        forward_turn < 0 && reverse_turn > 0,
        "wheel rotation ignored travel direction: {forward_turn}, {reverse_turn}"
    );
}

#[test]
fn suspension_droops_in_air_and_settles_on_contact() {
    let mut car = Car {
        p: V3::new(0, uu(CAR_REST_Y + 200), 0),
        grounded: false,
        up: V3::new(0, 4096, 0),
        ..Car::default()
    };
    for _ in 0..12 {
        Sim::tick_car(&trig(), &mut car, &Input::default(), NOMINAL_GRAVITY);
    }
    let droop = car.suspension;
    assert!(
        droop
            .iter()
            .all(|&travel| travel < -(3 << SUSPENSION_VISUAL_FP)),
        "unsupported wheels did not droop: {droop:?}"
    );

    car.grounded = true;
    car.v = V3::zero();
    for _ in 0..24 {
        Sim::tick_car(&trig(), &mut car, &Input::default(), NOMINAL_GRAVITY);
    }
    assert!(
        car.suspension
            .iter()
            .zip(droop)
            .all(|(&settled, airborne)| settled.abs() < airborne.abs()),
        "suspension did not settle after contact: {:?}",
        car.suspension
    );
}

fn drift_angle(car: &Car) -> i32 {
    let heading = trig().atan2_q12(car.v.x, car.v.z);
    ((heading.wrapping_sub(car.yaw) as i16) as i32).abs()
}

#[test]
fn the_handbrake_brings_the_back_end_round() {
    let corner = |handbrake| {
        let mut sim = solo();
        sim.ball.p.x = uu(HALF_X - BALL_R);
        drive(
            &mut sim,
            120,
            Input {
                throttle: 128,
                ..Input::default()
            },
        );
        drive(
            &mut sim,
            45,
            Input {
                throttle: 128,
                steer: 128,
                handbrake,
                ..Input::default()
            },
        );
        sim
    };
    let gripped = corner(false);
    let slid = corner(true);
    assert!(
        drift_angle(&slid.car) > drift_angle(&gripped.car) + 100,
        "the handbrake did not break traction: {} against {}",
        drift_angle(&slid.car),
        drift_angle(&gripped.car)
    );
    assert!(
        slid.car.yaw > gripped.car.yaw,
        "sliding turned the car less than gripping: {} against {}",
        slid.car.yaw,
        gripped.car.yaw
    );
}

#[test]
fn the_powerslide_takes_a_moment_to_commit_and_to_let_go() {
    let mut sim = solo();
    sim.ball.p.x = uu(HALF_X - BALL_R);
    sim.tick(&Input {
        throttle: 128,
        handbrake: true,
        ..Input::default()
    });
    assert!(sim.car.slide < 128, "one tick should not be a full slide");
    drive(
        &mut sim,
        30,
        Input {
            throttle: 128,
            handbrake: true,
            ..Input::default()
        },
    );
    assert_eq!(sim.car.slide, 1024, "holding it should get there");
    drive(
        &mut sim,
        5,
        Input {
            throttle: 128,
            ..Input::default()
        },
    );
    assert!(sim.car.slide > 0, "let go and the slide vanished instantly");
    drive(
        &mut sim,
        30,
        Input {
            throttle: 128,
            ..Input::default()
        },
    );
    assert_eq!(sim.car.slide, 0, "the slide never let go");
}

#[test]
fn a_car_already_sideways_keeps_sliding() {
    let mut sim = solo();
    sim.ball.p.x = uu(HALF_X - BALL_R);
    sim.car.p = V3::new(0, uu(CAR_REST_Y), 0);
    sim.car.yaw = 0;
    sim.car.v = V3::new(1200, 0, 0);
    sim.tick(&Input::default());
    assert!(
        sim.car.v.x > 1200 / 2,
        "a broadside car lost most of its slide in one tick: {}",
        sim.car.v.x
    );
}

#[test]
fn car_stays_inside_the_arena_including_the_corners() {
    let mut sim = solo();
    for steer in [128, -128, 40] {
        drive(
            &mut sim,
            900,
            Input {
                throttle: 128,
                steer,
                boost: true,
                ..Input::default()
            },
        );
        assert!(in_bounds(sim.car.p, CAR_R), "car escaped: {:?}", sim.car.p);
    }
}

#[test]
fn an_empty_tank_stays_empty_while_the_button_is_held() {
    let mut sim = solo();
    sim.car.boost = 0;
    let held = Input {
        boost: true,
        ..Input::default()
    };
    for _ in 0..120 {
        sim.tick(&held);
        assert!(!sim.car.boosting, "empty tank should not fire");
    }
    assert_eq!(sim.car.boost, 0, "holding boost should not farm the regen");
}

#[test]
fn boost_drains_while_held_and_refills_when_not() {
    let mut sim = solo();
    sim.car.boost = BOOST_MAX;
    drive(
        &mut sim,
        120,
        Input {
            throttle: 128,
            boost: true,
            ..Input::default()
        },
    );
    let after_burn = sim.car.boost;
    assert!(after_burn < BOOST_MAX, "boost never drained");
    coast(&mut sim, 120);
    assert!(sim.car.boost > after_burn, "boost never regenerated");
}

#[test]
fn driving_into_the_ball_sends_it_away() {
    let mut sim = solo();
    sim.car.p = V3::new(0, uu(CAR_REST_Y), -uu(BALL_R + CAR_R + 40));
    sim.car.v = V3::new(0, 0, 1400);
    sim.car.yaw = 0;
    drive(
        &mut sim,
        30,
        Input {
            throttle: 128,
            ..Input::default()
        },
    );
    assert!(
        sim.ball.v.z > 0 || sim.score_blue > 0,
        "ball was not hit forward: {:?}",
        sim.ball.v
    );
}

fn strike(off: i32, yaw: u16) -> World {
    let mut sim = solo();
    sim.car.p = V3::new(0, uu(CAR_REST_Y), -uu(BALL_R + CAR_R - 8));
    sim.car.v = V3::new(0, 0, 1400);
    sim.car.yaw = yaw;
    sim.ball.p = V3::new(uu(off), uu(BALL_R), 0);
    sim.ball.v = V3::zero();
    sim.tick(&Input::default());
    sim
}

#[test]
fn a_ball_rolled_at_the_wall_rides_the_ramp() {
    let mut sim = solo();
    sim.ball.p = V3::new(uu(HALF_X - 700), uu(BALL_R), 0);
    sim.ball.v = V3::new(2200, 0, 0);
    sim.ball.grounded = true;
    let mut highest = sim.ball.p.y;
    for _ in 0..90 {
        sim.tick(&Input::default());
        highest = highest.max(sim.ball.p.y);
    }
    assert!(
        highest > uu(BALL_R + 40),
        "the ball should ride up the sweep, reached {} uu",
        to_uu(highest)
    );
    assert!(in_bounds(sim.ball.p, BALL_R), "and stay in the arena");
}

#[test]
fn the_ramp_creates_no_energy() {
    let mut sim = solo();
    sim.ball.p = V3::new(uu(HALF_X - 700), uu(BALL_R), 0);
    sim.ball.v = V3::new(2400, 0, 0);
    sim.ball.grounded = true;
    let before = sim.ball.v.len();
    let mut fastest = before;
    for _ in 0..120 {
        sim.tick(&Input::default());
        fastest = fastest.max(sim.ball.v.len());
    }
    assert!(
        fastest <= before,
        "the sweep added speed: {} -> {} uu/s",
        to_uu_s(before),
        to_uu_s(fastest)
    );
}

fn shoot_at_goal(x: i32, y: i32, vz: i32) -> (bool, V3) {
    let mut sim = solo();
    sim.ball.p = V3::new(uu(x), uu(y), uu(HALF_Z - 900));
    sim.ball.v = V3::new(0, 0, vz);
    sim.ball.grounded = false;
    for _ in 0..240 {
        sim.tick(&Input::default());
        if sim.score_blue > 0 {
            return (true, sim.ball.p);
        }
    }
    (false, sim.ball.p)
}

#[test]
fn a_shot_over_the_bar_does_not_score() {
    let (scored, p) = shoot_at_goal(0, GOAL_H + 60, 3000);
    assert!(!scored, "a shot above the bar scored: ended {p:?}");
}

#[test]
fn a_shot_inside_the_post_scores() {
    let inside = GOAL_HALF_W - BALL_R - POST_R - 30;
    let (scored, p) = shoot_at_goal(inside, 150, 3000);
    assert!(scored, "a shot inside the post did not score: ended {p:?}");
}

#[test]
fn a_shot_onto_the_post_comes_back() {
    let on_post = GOAL_HALF_W - BALL_R - POST_R + 20;
    let (scored, _) = shoot_at_goal(on_post, 150, 3000);
    assert!(!scored, "a ball on the post went in");

    let mut sim = solo();
    sim.ball.p = V3::new(uu(on_post), uu(150), uu(HALF_Z - 300));
    sim.ball.v = V3::new(0, 0, 3000);
    sim.ball.grounded = false;
    drive(&mut sim, 60, Input::default());
    assert!(
        sim.ball.v.z < 0,
        "a post should send it back, not swallow it: vz {}",
        to_uu_s(sim.ball.v.z)
    );
}

#[test]
fn the_frame_never_swallows_the_ball() {
    for (x, y) in [(0, GOAL_H), (GOAL_HALF_W, 300), (-GOAL_HALF_W, 300)] {
        let mut sim = solo();
        sim.ball.p = V3::new(uu(x), uu(y), uu(HALF_Z - 200));
        sim.ball.v = V3::new(0, 0, 2400);
        sim.ball.grounded = false;
        drive(&mut sim, 120, Input::default());
        assert!(
            in_bounds(sim.ball.p, BALL_R),
            "ball left the arena through the frame at ({x}, {y}): {:?}",
            sim.ball.p
        );
    }
}

fn airborne() -> World {
    let mut sim = solo();
    sim.car.p = V3::new(0, uu(600), 0);
    sim.car.v = V3::zero();
    sim.car.grounded = false;
    sim.car.up = V3::new(0, 4096, 0);
    sim.car.yaw = 0;
    sim.car.boost = BOOST_MAX;
    sim
}

#[test]
fn boost_drives_an_airborne_car_along_its_nose() {
    let mut sim = airborne();
    drive(
        &mut sim,
        10,
        Input {
            boost: true,
            ..Input::default()
        },
    );
    assert!(
        to_uu_s(sim.car.v.z) > 150,
        "boost should push an airborne car forward: {} uu/s",
        to_uu_s(sim.car.v.z)
    );
    assert!(sim.car.boost < BOOST_MAX, "and should burn fuel doing it");
}

#[test]
fn air_boost_is_stronger_than_ground_boost() {
    let mut air = airborne();
    let mut ground = solo();
    ground.car.boost = BOOST_MAX;
    let boost_in = Input {
        boost: true,
        ..Input::default()
    };
    drive(&mut air, 30, boost_in);
    drive(&mut ground, 30, boost_in);
    assert!(
        air.car.v.z > ground.car.v.z,
        "air boost should out-accelerate ground boost: {} against {} uu/s",
        to_uu_s(air.car.v.z),
        to_uu_s(ground.car.v.z)
    );
}

#[test]
fn a_tapped_boost_burns_for_at_least_a_tenth_of_a_second() {
    let mut sim = airborne();
    let full = sim.car.boost;
    sim.tick(&Input {
        boost: true,
        ..Input::default()
    });
    drive(&mut sim, BOOST_MIN_TICKS as u32, Input::default());
    let spent = (full - sim.car.boost) / BOOST_DRAIN;
    assert_eq!(
        spent, BOOST_MIN_TICKS as i32,
        "a tap should burn the {BOOST_MIN_TICKS}-tick minimum, burnt {spent}"
    );
}

#[test]
fn released_boost_does_not_refill_itself() {
    let mut sim = solo();
    sim.car.boost = BOOST_MAX / 2;
    let before = sim.car.boost;
    drive(&mut sim, 240, Input::default());
    assert_eq!(
        sim.car.boost, before,
        "boost refilled itself from nothing: {before} -> {}",
        sim.car.boost
    );
}

#[test]
fn air_throttle_moves_the_car_without_boost() {
    let mut sim = airborne();
    sim.car.boost = 0;
    drive(
        &mut sim,
        60,
        Input {
            throttle: 128,
            ..Input::default()
        },
    );
    assert!(
        sim.car.v.len() > 0,
        "throttle in the air should translate as well as pitch"
    );
}

#[test]
fn a_full_tank_lasts_about_three_seconds() {
    let mut sim = solo();
    sim.car.boost = BOOST_MAX;
    let mut ticks = 0;
    for _ in 0..600 {
        sim.tick(&Input {
            boost: true,
            ..Input::default()
        });
        if !sim.car.boosting {
            break;
        }
        ticks += 1;
    }
    assert!(
        (170..=190).contains(&ticks),
        "a full tank should last about three seconds, lasted {ticks} ticks"
    );
}

fn contact_normal(local: (i32, i32, i32)) -> Option<V3> {
    let car = Car {
        p: V3::new(0, uu(CAR_REST_Y), 0),
        up: V3::new(0, 4096, 0),
        ..Car::default()
    };
    let ball = V3::new(
        uu(local.0),
        uu(CAR_REST_Y + local.1),
        uu(local.2),
    );
    car_box_contact(&trig(), &car, ball, BALL_R).map(|c| c.normal)
}

#[test]
fn the_box_gives_each_face_its_own_normal() {
    let nose = contact_normal((0, 0, CAR_HALF_L + BALL_R - 6)).expect("nose contact");
    assert!(
        nose.z > 4000 && nose.x.abs() < 200 && nose.y.abs() < 200,
        "a square nose hit should point straight down the nose: {nose:?}"
    );

    let roof = contact_normal((0, CAR_HALF_H + BALL_R - 6, 0)).expect("roof contact");
    assert!(
        roof.y > 4000 && roof.x.abs() < 200 && roof.z.abs() < 200,
        "a roof hit should point up: {roof:?}"
    );

    let flank = contact_normal((CAR_HALF_W + BALL_R - 6, 0, 0)).expect("flank contact");
    assert!(
        flank.x > 4000 && flank.y.abs() < 200 && flank.z.abs() < 200,
        "a flank hit should point sideways: {flank:?}"
    );
}

#[test]
fn corner_normals_vary_continuously() {
    let mut previous: Option<V3> = None;
    for step in 0..8 {
        let x = CAR_HALF_W - 20 + step * 8;
        let Some(n) = contact_normal((x, 0, CAR_HALF_L + BALL_R - 20)) else {
            continue;
        };
        if let Some(p) = previous {
            let turn = (n.x - p.x).abs() + (n.z - p.z).abs();
            assert!(
                turn < 1400,
                "normal jumped between faces at x={x}: {p:?} -> {n:?}"
            );
        }
        previous = Some(n);
    }
    assert!(previous.is_some(), "no contacts along the corner walk");
}

#[test]
fn a_ball_beyond_the_box_diagonal_does_not_touch() {
    assert!(
        contact_normal((0, 0, CAR_BOUND_R + BALL_R + 4)).is_none(),
        "past the broad phase there should be no contact"
    );
    assert!(
        contact_normal((CAR_HALF_W + BALL_R + 4, 0, 0)).is_none(),
        "and none just clear of a face either"
    );
}

#[test]
fn a_ball_starting_inside_the_box_is_pushed_out_by_the_nearest_face() {
    let n = contact_normal((0, 0, 0)).expect("a ball at the centre is in contact");
    assert!(
        n.y.abs() > 4000,
        "should leave through the shallowest face, the roof or floor: {n:?}"
    );
}

#[test]
fn a_fast_ball_cannot_pass_through_the_car() {
    let mut sim = solo();
    sim.car.p = V3::new(0, uu(CAR_REST_Y), 0);
    sim.car.v = V3::zero();
    sim.ball.p = V3::new(0, uu(CAR_REST_Y), -uu(400));
    sim.ball.v = V3::new(0, 0, 6400);
    let mut touched = false;
    for _ in 0..20 {
        sim.tick(&Input::default());
        if sim.hit > 0 {
            touched = true;
            break;
        }
    }
    assert!(
        touched,
        "a ball driven straight at the car passed through it"
    );
}

#[test]
fn where_the_ball_meets_the_bumper_aims_the_shot() {
    let left = strike(-40, 0).ball.v;
    let middle = strike(0, 0).ball.v;
    let right = strike(40, 0).ball.v;
    assert!(
        left.x < 0 && right.x > 0,
        "corner hits did not spread: {left:?} {right:?}"
    );
    assert!(
        middle.x.abs() < 40,
        "a square hit should go straight: {middle:?}"
    );
    assert!(
        left.z > 0 && right.z > 0,
        "everything here should still go forward"
    );
    let share = |off| {
        let v = strike(off, 0).ball.v;
        v.x * 1000 / v.z.max(1)
    };
    let (a, b, c) = (share(20), share(40), share(60));
    assert!(
        a < b && b < c,
        "angle did not widen with the offset: {a} {b} {c}"
    );
    assert!(
        c > 200,
        "a corner hit should leave at a real angle: {c}/1000"
    );
}

#[test]
fn the_nose_changes_the_shot_even_from_the_same_contact() {
    let straight = strike(40, 0).ball.v;
    let sideways = strike(40, 1024).ball.v;
    assert!(
        (straight.x - sideways.x).abs() > 100,
        "the nose did nothing: {straight:?} against {sideways:?}"
    );
}

#[test]
fn a_touch_is_driven_flat_rather_than_lofted() {
    let hit = strike(0, 0).ball.v;
    assert!(
        hit.z > 0 && hit.y > 0,
        "expected an up-and-forward touch: {hit:?}"
    );
    assert!(
        hit.z > hit.y * 2,
        "touch lofted instead of driving: forward {} against up {}",
        hit.z,
        hit.y
    );
}

#[test]
fn hitting_the_ball_costs_the_car_speed() {
    let sim = strike(0, 0);
    assert!(
        sim.car.v.z < 1400,
        "the car went through the ball unaffected: {}",
        sim.car.v.z
    );
}

#[test]
fn a_touch_puts_spin_on_the_ball() {
    let sim = strike(50, 0);
    assert!(
        sim.ball.w != V3::zero(),
        "a glancing touch left no spin at all"
    );
}

#[test]
fn ball_rolls_when_it_travels() {
    let mut sim = solo();
    sim.ball.v.z = 2000;
    let before = sim.ball.roll;
    coast(&mut sim, 30);
    assert_ne!(sim.ball.roll, before, "ball never picked up any roll");
}

#[test]
fn a_skidding_ball_spins_up_and_then_rolls() {
    let mut sim = solo();
    sim.ball.v.z = 400;
    assert_eq!(sim.ball.w, V3::zero());
    let launched = sim.ball.v.z;
    coast(&mut sim, 90);
    assert!(sim.ball.w.x > 0, "no spin picked up: {:?}", sim.ball.w);
    assert!(sim.ball.v.z < launched, "skidding should cost speed");
    let surface = (sim.ball.w.x * uu(BALL_R)) >> SPIN_FP;
    assert!(
        (surface - sim.ball.v.z).abs() < sim.ball.v.z / 8,
        "not rolling: surface {surface} against travel {}",
        sim.ball.v.z
    );
}

#[test]
fn backspin_and_topspin_bounce_different_ways() {
    let drop = |spin: i32| {
        let mut sim = solo();
        sim.ball.p.y = uu(400);
        sim.ball.v = V3::new(0, -600, 600);
        sim.ball.w = V3::new(spin, 0, 0);
        coast(&mut sim, 40);
        sim.ball.v.z
    };
    let topspin = drop(BALL_MAX_SPIN);
    let backspin = drop(-BALL_MAX_SPIN);
    assert!(
        topspin > backspin + 60,
        "spin did nothing to the bounce: topspin {topspin}, backspin {backspin}"
    );
}

#[test]
fn a_ball_spun_up_on_the_spot_drives_itself_away() {
    let mut sim = solo();
    sim.ball.w = V3::new(BALL_MAX_SPIN, 0, 0);
    coast(&mut sim, 60);
    assert!(
        sim.ball.v.z > 0,
        "spin never became travel: {:?}",
        sim.ball.v
    );
    assert!(sim.ball.p.z > uu(20), "ball did not move: {:?}", sim.ball.p);
}

#[test]
fn spin_stays_inside_rocket_leagues_ceiling() {
    let mut sim = World::new();
    for i in 0..20 * 60 {
        sim.tick(&Input {
            throttle: 128,
            steer: (i % 240) - 120,
            ..Input::default()
        });
        assert!(
            spin_rad_per_s(sim.ball.w) <= 6,
            "ball spun past the cap: {} rad/s from {:?}",
            spin_rad_per_s(sim.ball.w),
            sim.ball.w
        );
    }
}

#[test]
fn a_wall_takes_the_spin_out_of_a_ball_and_kicks_it() {
    let side = |spin: i32| {
        let mut sim = solo();
        sim.ball.p = V3::new(uu(HALF_X - BALL_R - 200), uu(600), 0);
        sim.ball.v = V3::new(900, 0, 0);
        sim.ball.w = V3::new(0, spin, 0);
        coast(&mut sim, 30);
        sim.ball.v.z
    };
    let one_way = side(BALL_MAX_SPIN);
    let other = side(-BALL_MAX_SPIN);
    assert!(
        one_way.signum() != other.signum() && (one_way - other).abs() > 40,
        "spin did not steer the rebound: {one_way} against {other}"
    );
}

#[test]
fn the_opponent_closes_on_the_ball() {
    let mut sim = World::new();
    let gap = |s: &World| {
        let dx = (s.ball.p.x - s.opponent.p.x) >> FP;
        let dz = (s.ball.p.z - s.opponent.p.z) >> FP;
        isqrt_i32(dx * dx + dz * dz)
    };
    let start = gap(&sim);
    let mut closest = start;
    for _ in 0..8 * 60 {
        sim.tick(&Input::default());
        closest = closest.min(gap(&sim));
    }
    assert!(
        closest < start / 4,
        "opponent never closed: started {start} uu away, best {closest}"
    );
}

#[test]
fn the_opponent_contests_the_kickoff_from_the_first_tick() {
    let mut sim = World::new();
    let start = sim.opponent.p;
    drive(&mut sim, 10, Input::default());
    assert_ne!(
        sim.opponent.p, start,
        "the opponent must drive at the kickoff, not wait out a window the player does not have"
    );
}

#[test]
fn the_kickoff_is_a_contest_rather_than_a_free_shot() {
    let mut sim = World::new();
    let drive_in = Input {
        throttle: 128,
        ..Input::default()
    };
    let mut touched = false;
    for tick in 0..8 * 60 {
        sim.tick(&drive_in);
        if sim.hit > 0 {
            if touched {
                return;
            }
            touched = true;
            continue;
        }
        if touched {
            assert_eq!(
                sim.score_blue, 0,
                "driving straight off the kickoff scored untouched on tick {tick}"
            );
        }
    }
    assert!(touched, "neither car reached the kickoff ball");
}

#[test]
fn both_cars_converge_on_the_kickoff_ball() {
    let mut sim = World::new();
    let ball = sim.ball.p;
    let (blue0, orange0) = (sim.car.p, sim.opponent.p);
    let far = |a: V3, b: V3| {
        let (dx, dz) = ((a.x - b.x) >> FP, (a.z - b.z) >> FP);
        isqrt_i32(dx * dx + dz * dz)
    };
    let (blue_start, orange_start) = (far(blue0, ball), far(orange0, ball));
    drive(
        &mut sim,
        120,
        Input {
            throttle: 128,
            ..Input::default()
        },
    );
    let (blue_now, orange_now) = (far(sim.car.p, ball), far(sim.opponent.p, ball));
    assert!(
        (blue_now - orange_now).abs() <= 4,
        "the kickoff should be symmetric: blue {blue_now} uu, orange {orange_now} uu"
    );
    assert!(
        blue_now * 4 < blue_start * 3,
        "the player should be closing on the ball: {blue_start} -> {blue_now} uu"
    );
    assert!(
        orange_now * 4 < orange_start * 3,
        "and so should the opponent: {orange_start} -> {orange_now} uu"
    );
}

fn ai_only() -> World {
    let mut sim = World::new();
    sim.car.p = V3::new(uu(-3600), uu(CAR_REST_Y), uu(-4600));
    sim
}

fn flat_gap(a: V3, b: V3) -> i32 {
    isqrt_i32(((a.x - b.x) >> FP).pow(2) + ((a.z - b.z) >> FP).pow(2))
}

#[test]
fn steering_gain_falls_off_with_speed() {
    let mut slow = ai_only();
    slow.ball.p = V3::new(0, uu(BALL_R), 0);
    slow.ball.grounded = true;
    slow.opponent.p = V3::new(0, uu(CAR_REST_Y), uu(2600));
    slow.opponent.yaw = 2048u16.wrapping_add(120);
    let mut fast = slow.clone();
    fast.opponent.v = V3::new(0, 0, -uu(SUPERSONIC_SPEED / 60));

    let (s, f) = (slow.drive_ai().steer.abs(), fast.drive_ai().steer.abs());
    assert!(
        f < s,
        "speed did not soften the steering: slow {s}, supersonic {f}"
    );
}

#[test]
fn it_backs_straight_out_of_a_target_dead_astern() {
    let mut sim = ai_only();
    sim.ball.p = V3::new(0, uu(BALL_R), uu(2100));
    sim.ball.grounded = true;
    sim.opponent.p = V3::new(0, uu(CAR_REST_Y), uu(2500));
    sim.opponent.yaw = 0;
    sim.ai_target = AiTarget::Ball;
    sim.ai_target_ticks = 1;

    let input = sim.ai_handling();
    assert!(
        input.throttle < 0,
        "it drove forwards at a target behind it: throttle {}",
        input.throttle
    );
    assert_eq!(input.steer, 0, "it steered while reversing");
}

#[test]
fn it_holds_a_target_instead_of_repicking_every_tick() {
    let mut sim = ai_only();
    sim.ball.p = V3::new(0, uu(BALL_R), uu(1000));
    sim.ball.grounded = true;
    sim.opponent.p = V3::new(0, uu(CAR_REST_Y), uu(-3000));
    sim.opponent.yaw = 2048;

    sim.tick(&Input::default());
    let first = sim.ai_target;
    assert!(
        matches!(first, AiTarget::Position(..)),
        "expected a go-round target from the wrong side, got {first:?}"
    );
    for _ in 0..30 {
        sim.tick(&Input::default());
        assert_eq!(
            sim.ai_target, first,
            "the target changed while nothing had invalidated it"
        );
    }
}

#[test]
fn it_breaks_off_to_refuel_when_the_tank_is_low() {
    let mut sim = ai_only();
    sim.ball.p = V3::new(0, uu(BALL_R), 0);
    sim.ball.grounded = true;
    sim.opponent.p = V3::new(uu(-2000), uu(CAR_REST_Y), uu(3200));
    sim.opponent.boost = 0;

    sim.tick(&Input::default());
    match sim.ai_target {
        AiTarget::Boost(i) => assert!(Pad::at(i as usize).big, "went for a small pad"),
        other => panic!("empty tank and a distant ball, yet it chose {other:?}"),
    }
}

#[test]
fn it_leaves_for_where_a_high_ball_will_land() {
    let mut sim = ai_only();
    sim.ball.p = V3::new(0, uu(1500), 0);
    sim.ball.v = V3::new(uu(22), 0, 0);
    sim.ball.grounded = false;
    sim.opponent.p = V3::new(0, uu(CAR_REST_Y), uu(2600));
    sim.opponent.yaw = 2048;

    let shadow_x = sim.ball.p.x;
    for _ in 0..50 {
        sim.tick(&Input::default());
    }
    assert!(
        sim.opponent.p.x > shadow_x + uu(120),
        "it stayed under the ball instead of running to the landing spot: \
         opponent x {}, ball started at x {shadow_x}",
        sim.opponent.p.x
    );
}

#[test]
fn it_does_not_score_in_its_own_net() {
    let mut sim = ai_only();
    sim.car.p = V3::new(uu(-3900), uu(CAR_REST_Y), uu(4900));
    for _ in 0..80 * 60 {
        sim.tick(&Input::default());
    }
    assert_eq!(
        sim.score_blue, 0,
        "the opponent scored on itself: blue {} orange {}",
        sim.score_blue, sim.score_orange
    );
}

#[test]
fn the_opponent_scores_against_a_parked_player() {
    let mut sim = World::new();
    coast(&mut sim, 240 * 60);
    assert!(
        sim.score_orange > 0,
        "opponent never scored: ball at {:?}, opponent at {:?}",
        sim.ball.p,
        sim.opponent.p
    );
}

#[test]
fn the_opponent_stays_inside_the_arena() {
    let mut sim = World::new();
    for _ in 0..60 * 60 {
        sim.tick(&Input::default());
        assert!(
            in_bounds(sim.opponent.p, CAR_R),
            "opponent escaped: {:?}",
            sim.opponent.p
        );
    }
}

fn charge(speed: i32, off: i32) -> World {
    let mut sim = solo();
    sim.ball.p = V3::new(uu(HALF_X - BALL_R), uu(BALL_R), 0);
    let ahead = isqrt_i32((CAR_R * 2 - 8) * (CAR_R * 2 - 8) - off * off);
    sim.car.p = V3::new(0, uu(CAR_REST_Y), -uu(ahead));
    sim.car.v = V3::new(0, 0, speed);
    sim.car.yaw = 0;
    sim.opponent.p = V3::new(uu(off), uu(CAR_REST_Y), 0);
    sim.opponent.v = V3::zero();
    sim.tick(&Input::default());
    sim
}

#[test]
fn a_supersonic_car_wrecks_the_one_it_runs_into() {
    let sim = charge(SUPERSONIC_SPEED + 40, 0);
    assert!(
        sim.car.supersonic,
        "the test never got the attacker supersonic"
    );
    assert!(
        sim.opponent.wrecked(),
        "supersonic contact did not demolish"
    );
    assert!(sim.demo, "the demolition was not announced for the bang");
    assert!(
        !sim.car.wrecked(),
        "the car doing the hitting should be fine"
    );
}

#[test]
fn below_supersonic_the_same_hit_is_only_a_shove() {
    let sim = charge(SUPERSONIC_SPEED - 300, 0);
    assert!(
        !sim.car.supersonic,
        "the test was meant to stay under the line"
    );
    assert!(!sim.opponent.wrecked(), "a bump should not demolish");
    assert!(
        sim.opponent.v.z > 0,
        "the bump sent nobody anywhere: {:?}",
        sim.opponent.v
    );
    assert!(sim.opponent.v.y > 0, "a bump lifts you off your wheels too");
}

#[test]
fn you_cannot_demolish_with_your_flank() {
    let sim = charge(SUPERSONIC_SPEED + 40, 130);
    assert!(
        sim.car.supersonic,
        "the test never got the attacker supersonic"
    );
    assert!(
        !sim.opponent.wrecked(),
        "a glancing hit should not demolish"
    );
}

#[test]
fn a_goal_throws_the_cars_away_from_the_ball() {
    let mut sim = solo();
    sim.opponent_ai = false;
    sim.car.p = V3::new(0, uu(CAR_REST_Y), uu(4400));
    sim.car.v = V3::zero();
    sim.opponent.p = V3::new(0, uu(CAR_REST_Y), 0);
    sim.opponent.v = V3::zero();
    sim.ball.p = V3::new(0, uu(BALL_R), uu(HALF_Z - 40));
    sim.ball.v = V3::new(0, 0, 900);
    for _ in 0..30 {
        sim.tick(&Input::default());
        if sim.goal_freeze > 0 {
            break;
        }
    }
    assert!(sim.goal_freeze > 0, "the shot never went in");
    assert!(
        sim.car.v.z < 0,
        "the near car was not pushed back off the line: {:?}",
        sim.car.v
    );
    assert!(sim.car.v.y > 0, "the near car was not lifted");
    assert!(
        !sim.car.grounded,
        "a car in the mouth should leave the floor"
    );
    assert_eq!(
        sim.opponent.v,
        V3::zero(),
        "the blast reached the halfway line"
    );
}

#[test]
fn a_wrecked_car_is_out_of_play_and_comes_back() {
    let mut sim = charge(SUPERSONIC_SPEED + 40, 0);
    assert!(sim.opponent.wrecked());
    sim.ball.p = V3::new(0, uu(BALL_R), -uu(400));
    sim.ball.v = V3::new(0, 0, 600);
    let died_at = sim.opponent.p;
    assert!(
        (died_at.z + uu(4608)).abs() > uu(1000),
        "the wreck was teleported home on impact: {died_at:?}"
    );
    coast(&mut sim, 60);
    assert_eq!(
        sim.opponent.p, died_at,
        "a wrecked car should not be pushed around"
    );
    assert!(
        sim.ball.p.z > 0,
        "the ball stopped on a car that is not there"
    );
    coast(&mut sim, DEMO_RESPAWN as u32);
    assert!(!sim.opponent.wrecked(), "never came back");
    assert!(
        (sim.opponent.p.z - uu(4608)).abs() < uu(600),
        "came back somewhere other than its own end: {:?}",
        sim.opponent.p
    );
    assert!(
        sim.opponent.boost >= BOOST_MAX / 3,
        "came back with an empty tank"
    );
    assert!(
        sim.opponent.boost < BOOST_MAX / 2,
        "came back with a full one"
    );
}

#[test]
fn boost_is_what_gets_a_car_supersonic() {
    let mut sim = solo();
    sim.ball.p.x = uu(HALF_X - BALL_R);
    drive(
        &mut sim,
        200,
        Input {
            throttle: 128,
            ..Input::default()
        },
    );
    assert!(
        !sim.car.supersonic,
        "throttle alone should never be supersonic"
    );

    sim.car.boost = BOOST_MAX;
    sim.car.p.z = -uu(4608);
    drive(
        &mut sim,
        90,
        Input {
            throttle: 128,
            boost: true,
            ..Input::default()
        },
    );
    assert!(
        sim.car.supersonic,
        "a full tank should get there: {}",
        sim.car.v.len()
    );
    drive(
        &mut sim,
        20,
        Input {
            throttle: 128,
            ..Input::default()
        },
    );
    assert!(sim.car.supersonic, "lost it far too quickly");
    drive(&mut sim, 120, Input::default());
    assert!(!sim.car.supersonic, "kept it long after slowing down");
}

#[test]
fn cars_cannot_occupy_the_same_spot() {
    let mut sim = World::new();
    sim.car.p = V3::new(0, uu(CAR_REST_Y), 0);
    sim.opponent.p = V3::new(uu(10), uu(CAR_REST_Y), 0);
    sim.tick(&Input::default());
    let dx = sim.opponent.p.x - sim.car.p.x;
    let dz = sim.opponent.p.z - sim.car.p.z;
    let apart = isqrt_i32(dx * dx + dz * dz);
    assert!(apart > uu(CAR_R), "cars stayed overlapped: {apart}");
}

#[test]
fn a_fast_car_sticks_to_a_side_wall() {
    let mut sim = solo();
    sim.car.p = V3::new(uu(HALF_X - 200), uu(CAR_REST_Y), 0);
    sim.car.yaw = 700;
    sim.car.v = V3::new(1100, 0, 1700);
    drive(
        &mut sim,
        40,
        Input {
            throttle: 128,
            boost: true,
            ..Input::default()
        },
    );
    assert!(
        sim.car.up.x < -3000,
        "did not take the wall: up {:?}",
        sim.car.up
    );
    assert!(sim.car.grounded, "wall driving should count as grounded");
}

#[test]
fn the_visible_wall_curve_is_a_drivable_collision_surface() {
    let mut sim = solo();
    sim.car.p = V3::new(uu(HALF_X - WALL_RAMP_R - 20), uu(CAR_REST_Y), 0);
    sim.car.yaw = 1024;
    sim.car.v = V3::new(1200, 0, 0);

    drive(
        &mut sim,
        10,
        Input {
            throttle: 128,
            boost: true,
            ..Input::default()
        },
    );

    assert!(
        sim.car.p.y > uu(CAR_REST_Y + 20),
        "car crossed the rendered ramp without climbing: {:?}",
        sim.car.p
    );
    assert!(
        sim.car.up.x < -300 && sim.car.up.y > 300,
        "ramp should rotate the surface normal continuously: {:?}",
        sim.car.up
    );
    assert!(sim.car.grounded, "the ramp should support the wheels");
}

#[test]
fn a_straight_run_can_climb_from_floor_to_wall() {
    let mut sim = solo();
    sim.car.p = V3::new(uu(HALF_X - WALL_RAMP_R - 40), uu(CAR_REST_Y), 0);
    sim.car.yaw = 1024;
    sim.car.v = V3::new(1500, 0, 0);

    drive(
        &mut sim,
        40,
        Input {
            throttle: 128,
            boost: true,
            ..Input::default()
        },
    );

    assert!(
        sim.car.p.y >= uu(WALL_RAMP_R - 20),
        "never reached the wall above the curve: {:?}",
        sim.car.p
    );
    assert!(
        sim.car.up.x < -3000,
        "did not finish on the side wall: {:?}",
        sim.car.up
    );
}

#[test]
fn a_slow_car_falls_off_the_wall() {
    let mut sim = solo();
    sim.car.p = V3::new(uu(HALF_X - 200), uu(CAR_REST_Y), 0);
    sim.car.yaw = 700;
    sim.car.v = V3::new(1100, 0, 1700);
    drive(
        &mut sim,
        40,
        Input {
            throttle: 128,
            boost: true,
            ..Input::default()
        },
    );
    assert!(sim.car.up.x < -3000, "should be on the wall first");
    drive(&mut sim, 420, Input::default());
    assert!(
        sim.car.up.y > 3600,
        "should have dropped off: up {:?}",
        sim.car.up
    );
    assert!(sim.car.grounded, "should have landed on the arena surface");
    assert!(
        sim.car.p.y < uu(WALL_RAMP_R),
        "should be down on the floor ramp: p {:?}, v {:?}, up {:?}",
        sim.car.p,
        sim.car.v,
        sim.car.up
    );
    assert!(
        sim.car.up.y > 3000,
        "landing should be floor-like again: {:?}",
        sim.car.up
    );
}

#[test]
fn the_basis_on_the_floor_is_the_old_heading() {
    for yaw in [0u16, 512, 1024, 2048, 3000] {
        let mut car = Car {
            up: V3::new(0, 4096, 0),
            yaw,
            ..Car::default()
        };
        car.p.y = uu(CAR_REST_Y);
        let (right, up, fwd) = car.basis(&trig());
        let (s, c) = heading(&trig(), yaw);
        assert!((fwd.x - s).abs() < 40, "yaw {yaw}: fwd.x {} vs {s}", fwd.x);
        assert!((fwd.z - c).abs() < 40, "yaw {yaw}: fwd.z {} vs {c}", fwd.z);
        assert!(fwd.y.abs() < 40, "yaw {yaw}: forward left the floor plane");
        assert!((up.y - 4096).abs() < 40);
        assert!((right.x - c).abs() < 40, "yaw {yaw}: right.x {}", right.x);
        assert!((right.z + s).abs() < 40, "yaw {yaw}: right.z {}", right.z);
    }
}

#[test]
fn the_car_can_be_aimed_in_the_air() {
    let mut sim = solo();
    sim.tick(&Input {
        jump_pressed: true, jump_held: true,
        ..Input::default()
    });
    assert!(!sim.car.grounded);
    let before = sim.car.yaw;
    drive(
        &mut sim,
        20,
        Input {
            steer: 128,
            ..Input::default()
        },
    );
    let turned = sim.car.yaw.wrapping_sub(before);
    assert!(turned > 0 && turned < 2048, "no usable air yaw: {turned}");
}

#[test]
fn air_roll_turns_the_car_about_its_nose() {
    let mut sim = solo();
    sim.tick(&Input {
        jump_pressed: true, jump_held: true,
        ..Input::default()
    });
    let fwd_before = sim.car.basis(&trig()).2;
    drive(
        &mut sim,
        20,
        Input {
            steer: 128,
            air_roll: true,
            ..Input::default()
        },
    );
    let (_, up, fwd) = sim.car.basis(&trig());
    assert!(up.y < 3600, "roll should tip the car off upright: {up:?}");
    let drift = (fwd.x - fwd_before.x).abs() + (fwd.z - fwd_before.z).abs();
    assert!(drift < 700, "roll moved the nose too much: {drift}");
}

#[test]
fn pitch_tips_the_nose_in_the_air() {
    let mut sim = solo();
    sim.tick(&Input {
        jump_pressed: true, jump_held: true,
        ..Input::default()
    });
    let before = sim.car.basis(&trig()).2.y;
    drive(
        &mut sim,
        12,
        Input {
            pitch: 128,
            ..Input::default()
        },
    );
    let after = sim.car.basis(&trig()).2.y;
    assert!(
        (after - before).abs() > 400,
        "pitch did not move the nose: {before} then {after}"
    );
}

#[test]
fn the_throttle_does_not_pitch_an_airborne_car() {
    let mut sim = solo();
    drive(
        &mut sim,
        40,
        Input {
            throttle: 128,
            ..Input::default()
        },
    );
    sim.tick(&Input {
        throttle: 128,
        jump_pressed: true,
        jump_held: true,
        ..Input::default()
    });
    drive(
        &mut sim,
        30,
        Input {
            throttle: 128,
            boost: true,
            ..Input::default()
        },
    );
    assert!(
        sim.car.up.y > 4000,
        "throttle tipped the car in the air: up={:?}",
        sim.car.up
    );
}

#[test]
fn attitude_resets_on_landing() {
    let mut sim = solo();
    sim.tick(&Input {
        jump_pressed: true, jump_held: true,
        ..Input::default()
    });
    drive(
        &mut sim,
        18,
        Input {
            steer: 128,
            air_roll: true,
            ..Input::default()
        },
    );
    assert!(sim.car.basis(&trig()).1.y < 3600, "should be tipped over mid-air");
    drive(&mut sim, 180, Input::default());
    assert!(sim.car.grounded, "should have landed");
    assert!(
        sim.car.up.y > 3600,
        "landing should set it upright: {:?}",
        sim.car.up
    );
}

#[test]
fn a_dodge_converts_the_second_jump_into_ground_speed() {
    let mut sim = solo();
    drive(
        &mut sim,
        120,
        Input {
            throttle: 128,
            ..Input::default()
        },
    );
    let before = sim.car.v.len_xz();
    sim.tick(&Input {
        throttle: 128,
        jump_pressed: true, jump_held: true,
        ..Input::default()
    });
    assert!(!sim.car.grounded, "the first press should leave the ground");
    drive(
        &mut sim,
        4,
        Input {
            throttle: 128,
            ..Input::default()
        },
    );
    sim.tick(&Input {
        throttle: 128,
        pitch: 128,
        jump_pressed: true, jump_held: true,
        ..Input::default()
    });
    assert_eq!(sim.car.jumps_used, 2);
    assert!(
        sim.car.dodge_timer > 0,
        "a directional second press is a flip"
    );
    assert!(
        sim.car.v.len_xz() > before,
        "flip added no speed: {} then {}",
        before,
        sim.car.v.len_xz()
    );
}

#[test]
fn a_second_jump_with_no_direction_is_a_double_jump() {
    let mut sim = solo();
    sim.tick(&Input {
        jump_pressed: true, jump_held: true,
        ..Input::default()
    });
    drive(&mut sim, 4, Input::default());
    let rising = sim.car.v.y;
    sim.tick(&Input {
        jump_pressed: true, jump_held: true,
        ..Input::default()
    });
    assert_eq!(sim.car.dodge_timer, 0, "no direction means no flip");
    assert!(sim.car.v.y > rising, "double jump added no height");
}

#[test]
fn the_dodge_window_closes() {
    let mut sim = solo();
    sim.tick(&Input {
        jump_pressed: true, jump_held: true,
        ..Input::default()
    });
    drive(&mut sim, DODGE_WINDOW as u32 + 2, Input::default());
    sim.tick(&Input {
        pitch: 128,
        jump_pressed: true, jump_held: true,
        ..Input::default()
    });
    assert_eq!(sim.car.jumps_used, 1, "a late press should not count");
    assert_eq!(sim.car.dodge_timer, 0);
}

#[test]
fn a_big_pad_fills_the_tank_and_then_goes_away() {
    let mut sim = solo();
    sim.car.boost = 0;
    sim.car.p = V3::new(uu(Pad::at(3 as usize).x), uu(CAR_REST_Y), uu(Pad::at(3 as usize).z));
    sim.tick(&Input::default());
    assert_eq!(
        sim.car.boost,
        BOOST_MAX_PIPS * BOOST_SCALE,
        "pad did not fill"
    );
    assert!(sim.pad_timers[3] > 0, "pad did not go on cooldown");

    sim.car.boost = 0;
    sim.tick(&Input::default());
    assert!(
        sim.car.boost < BOOST_MAX_PIPS * BOOST_SCALE / 2,
        "dead pad still paid out"
    );
}

#[test]
fn a_small_pad_tops_up_rather_than_fills() {
    let mut sim = solo();
    sim.car.boost = 0;
    let small = (0..34).position(|i| !Pad::at(i).big).unwrap();
    sim.car.p = V3::new(uu(Pad::at(small as usize).x), uu(CAR_REST_Y), uu(Pad::at(small as usize).z));
    sim.tick(&Input::default());
    assert!(
        sim.car.boost >= 12 * BOOST_SCALE,
        "small pad should give twelve"
    );
    assert!(
        sim.car.boost < BOOST_MAX / 2,
        "small pad should not fill the tank"
    );
    assert!(sim.pad_timers[small] > 0);
    assert!(sim.pad_timers[small] < 600, "small pads respawn faster");
}

#[test]
fn every_pad_sits_inside_the_arena() {
    for pad in (0..34).map(Pad::at) {
        let (x, z) = (pad.x.abs(), pad.z.abs());
        assert!(x <= HALF_X, "{pad:?} outside the side walls");
        assert!(z <= HALF_Z, "{pad:?} past a goal line");
        assert!(x + z <= CORNER, "{pad:?} outside a corner chamfer");
    }
}

#[test]
fn a_whole_match_stays_sane() {
    let mut sim = World::new();
    let mut t = 0i32;
    while !sim.finished() {
        t += 1;
        sim.tick(&Input {
            throttle: 128,
            steer: ((t * 7) % 256) - 128,
            pitch: ((t * 13) % 256) - 128,
            boost: t % 5 != 0,
            jump_pressed: t % 37 == 0,
            jump_held: t % 37 < 6,
            air_roll: t % 11 == 0,
            handbrake: t % 23 < 6,
        });
        assert!(
            in_bounds(sim.car.p, CAR_R),
            "car escaped at {t}: {:?}",
            sim.car.p
        );
        assert!(
            in_bounds(sim.ball.p, BALL_R),
            "ball escaped at {t}: {:?}",
            sim.ball.p
        );
        assert!(spin_rad_per_s(sim.ball.w) <= 6, "spin ran away at {t}");
    }
    assert!(t as u32 >= MATCH_TICKS);
}

#[test]
fn clock_runs_out() {
    let mut sim = solo();
    sim.clock = 3;
    coast(&mut sim, 10);
    assert!(sim.finished());
}

#[test]
fn authored_time_limit_sets_and_ends_the_clock() {
    let mut sim = World::with_win_condition(WinCondition::TimeLimit(3));
    sim.opponent_ai = false;
    coast(&mut sim, 2);
    assert_eq!(sim.clock, 1);
    assert!(!sim.finished());
    coast(&mut sim, 1);
    assert!(sim.finished());
}

#[test]
fn goal_limit_has_no_clock_and_finishes_after_the_winning_celebration() {
    let mut sim = World::with_win_condition(WinCondition::GoalLimit(2));
    sim.opponent_ai = false;
    assert_eq!(sim.clock, 0, "a goal-limit match grew a hidden timer");

    sim.ball.p = V3::new(uu(200), uu(BALL_R), uu(HALF_Z));
    sim.score(Team::Blue);
    assert!(!sim.finished(), "the first of two goals ended the match");
    coast(&mut sim, GOAL_FREEZE_TICKS as u32);
    assert_eq!(sim.ball.p, V3::new(0, uu(BALL_R), 0));

    let winning_spot = V3::new(-uu(300), uu(BALL_R), uu(HALF_Z));
    sim.ball.p = winning_spot;
    sim.score(Team::Blue);
    assert!(sim.goal_freeze > 0);
    assert!(!sim.finished(), "the winning explosion was skipped");
    coast(&mut sim, GOAL_FREEZE_TICKS as u32);
    assert!(sim.finished());
    assert_eq!(
        sim.ball.p, winning_spot,
        "a fresh kickoff replaced the winning-goal backdrop"
    );
    assert_eq!(sim.clock, 0);
}

#[test]
fn one_tick_audio_events_clear_during_a_goal_celebration() {
    let mut sim = solo();
    sim.goal_freeze = 2;
    sim.hit = 1000;
    sim.pad_taken = true;
    sim.demo = true;
    sim.tick(&Input::default());
    assert_eq!(sim.hit, 0);
    assert!(!sim.pad_taken);
    assert!(!sim.demo, "a demolition bang repeated through the freeze");
}

#[test]
fn holding_accelerate_off_the_kickoff_is_not_a_free_goal() {
    let mut sim = World::new();
    let go = Input {
        throttle: 128,
        ..Input::default()
    };
    let mut touches = 0;
    for tick in 0..8 * 60 {
        sim.tick(&go);
        if sim.hit > 0 {
            touches += 1;
        }
        if touches > 1 {
            return;
        }
        if touches == 1 {
            assert_eq!(
                (sim.score_blue, sim.score_orange),
                (0, 0),
                "the opening touch scored on tick {tick}, either way"
            );
        }
    }
    assert!(touches > 0, "nobody reached the kickoff ball");
}

#[test]
fn the_speed_cap_counts_the_whole_velocity() {
    let mut sim = airborne();
    sim.car.boost = BOOST_MAX;
    sim.car.v = V3::new(0, 2400, 2000);
    let mut peak = 0;
    for _ in 0..90 {
        sim.tick(&Input {
            throttle: 128,
            boost: true,
            ..Input::default()
        });
        peak = peak.max(to_uu_s(sim.car.v.len()));
    }
    assert!(
        peak <= 2320,
        "a car should never exceed the 2300 uu/s ceiling: peaked at {peak} uu/s"
    );
}

#[test]
fn a_kickoff_clears_whatever_the_car_was_doing() {
    let mut sim = solo();
    sim.car.jumps_used = 1;
    sim.car.jump_holding = true;
    sim.car.jump_slices = 9;
    sim.car.jump_min_left = 2;
    sim.car.jump_bonus_rem = 13;
    sim.car.jump_sticky_rem = 5;
    sim.car.jump_normal = V3::new(4096, 0, 0);
    sim.car.dodge_window = 40;
    sim.car.dodge_timer = 20;
    sim.car.dodge_dir = 1024;
    sim.car.w_pitch = 30;
    sim.car.w_yaw = -20;
    sim.car.w_roll = 15;
    sim.car.boosting = true;
    sim.car.boost_ticks = 4;
    sim.car.boost_rem = 300;
    sim.car.air_throttle_rem = 11;

    sim.kickoff();

    let c = &sim.car;
    assert_eq!(
        (c.jumps_used, c.jump_slices, c.jump_min_left),
        (0, 0, 0),
        "jump counters should be back to rest"
    );
    assert!(!c.jump_holding, "and the hold phase should be over");
    assert_eq!((c.jump_bonus_rem, c.jump_sticky_rem), (0, 0));
    assert_eq!(c.jump_normal, V3::zero());
    assert_eq!(
        (c.dodge_window, c.dodge_timer, c.dodge_dir),
        (0, 0, 0),
        "no dodge should survive a restart"
    );
    assert_eq!(
        (c.w_pitch, c.w_yaw, c.w_roll),
        (0, 0, 0),
        "and the car should not still be turning"
    );
    assert!(!c.boosting);
    assert_eq!((c.boost_ticks, c.boost_rem, c.air_throttle_rem), (0, 0, 0));
}

#[test]
fn gravity_averages_650_uu_per_second_squared_over_nine_ticks() {
    let mut sim = solo();
    let mut total = 0;
    for _ in 0..9 {
        total += sim.gravity_step();
    }
    assert_eq!(
        total, GRAVITY_NUM,
        "nine ticks must remove exactly {GRAVITY_NUM} internal units, got {total}"
    );
    assert_eq!(
        to_uu_s2(total) / 9,
        650,
        "average gravity should read 650 uu/s^2"
    );
}

#[test]
fn gravity_phase_does_not_drift_over_a_long_match() {
    let mut sim = solo();
    let mut total = 0;
    for _ in 0..900 {
        total += sim.gravity_step();
    }
    assert_eq!(total, GRAVITY_NUM * 100, "100 nine-tick groups, no drift");
}

#[test]
fn holding_jump_reaches_higher_than_tapping_jump() {
    let (tap, _) = jump_apex(&mut solo(), 1, 200);
    let (held, _) = jump_apex(&mut solo(), 40, 200);
    assert!(
        held > tap + 10,
        "a held jump must clear a tap by a visible margin: tap {tap} uu, held {held} uu"
    );
}

#[test]
fn tap_jump_gets_the_minimum_three_120hz_bonus_slices() {
    let mut sim = solo();
    sim.tick(&Input {
        jump_pressed: true,
        jump_held: true,
        ..Input::default()
    });
    sim.tick(&Input::default());
    assert_eq!(
        sim.car.jump_slices, JUMP_SLICES_MIN,
        "a released jump must still spend its minimum slices"
    );
    assert!(!sim.car.jump_holding, "and then stop");
}

#[test]
fn held_jump_stops_adding_force_after_0_2_seconds() {
    let mut sim = solo();
    for t in 0..40 {
        sim.tick(&Input {
            jump_pressed: t == 0,
            jump_held: true,
            ..Input::default()
        });
    }
    assert_eq!(
        sim.car.jump_slices, JUMP_SLICES_MAX,
        "the hold is capped at {JUMP_SLICES_MAX} slices, i.e. 0.2 s"
    );
    assert!(!sim.car.jump_holding, "and the phase is over");
}

#[test]
fn held_jump_bonus_totals_the_immediate_impulse() {
    let mut rem: i32 = 0;
    let mut total = 0;
    for _ in 0..JUMP_SLICES_MAX {
        rem += JUMP_BONUS_NUM;
        total += rem / JUMP_BONUS_DEN;
        rem %= JUMP_BONUS_DEN;
    }
    assert_eq!(total, CAR_JUMP_V, "held bonus should match the impulse");
}

#[test]
fn double_jump_adds_to_existing_vertical_velocity() {
    let mut sim = solo();
    sim.tick(&Input {
        jump_pressed: true,
        jump_held: true,
        ..Input::default()
    });
    drive(&mut sim, 14, Input::default());
    assert!(sim.car.dodge_window > 0, "second jump should be available");
    let before = sim.car.v.y;
    sim.tick(&Input {
        jump_pressed: true,
        jump_held: true,
        ..Input::default()
    });
    assert!(
        sim.car.v.y > before,
        "a second jump must gain speed, not overwrite it: {} -> {}",
        to_uu_s(before),
        to_uu_s(sim.car.v.y)
    );
}

#[test]
fn second_jump_window_begins_after_first_jump_hold_finishes() {
    let mut sim = solo();
    sim.tick(&Input {
        jump_pressed: true,
        jump_held: true,
        ..Input::default()
    });
    assert_eq!(
        sim.car.dodge_window, 0,
        "the window must not open while the first jump is still building"
    );
    for _ in 0..12 {
        sim.tick(&Input {
            jump_held: true,
            ..Input::default()
        });
    }
    assert!(
        !sim.car.jump_holding && sim.car.dodge_window > 0,
        "and must open once the hold is spent"
    );
}

#[test]
fn jump_state_resets_after_stable_surface_contact() {
    let mut sim = solo();
    let (_, landed) = jump_apex(&mut sim, 40, 300);
    assert!(landed.is_some(), "the car should come back down");
    drive(&mut sim, 5, Input::default());
    assert!(sim.car.grounded);
    assert_eq!(sim.car.jumps_used, 0, "jumps come back on landing");
    assert!(!sim.car.jump_holding);
    assert_eq!(sim.car.jump_slices, 0);
}
