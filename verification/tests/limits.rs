//! What the match holds to, whatever is done to it.

use nitroxide::arena::{confine, nearest_arena_wall};
use nitroxide::ball::{ball_friction, spin_rad_per_s, Ball};
use nitroxide::car::Input;
use nitroxide::contact::car_contact;
use nitroxide::curve::curve;
use nitroxide::flight::{fly, Team};
use nitroxide::num::{isqrt_i32, isqrt_wide, mul_div, mul_shift12};
use nitroxide::pads::Pad;
use nitroxide::sim::{spawned, Sim, WinCondition};
use nitroxide::trig::Trig;
use nitroxide::tuning::{
    uu, BALL_R, BOOST_MAX, CORNER, GOAL_FREEZE_TICKS, HALF_X, HALF_Z,
};
use nitroxide::vec3::V3;

fn wave(f: fn(f64) -> f64) -> Vec<i32> {
    (0..4096)
        .map(|i| (f(i as f64 * std::f64::consts::TAU / 4096.0) * 4096.0).round() as i32)
        .collect()
}

fn bearing(y: i32, x: i32) -> u16 {
    let turns = (y as f64).atan2(x as f64) / std::f64::consts::TAU;
    ((turns * 4096.0).round() as i32).rem_euclid(4096) as u16
}

fn trig() -> Trig<fn(i32, i32) -> u16> {
    Trig::new(wave(f64::sin), wave(f64::cos), bearing as fn(i32, i32) -> u16).unwrap()
}

#[test]
fn tables_that_are_not_a_whole_turn_are_refused() {
    let f = bearing as fn(i32, i32) -> u16;
    assert!(Trig::new(wave(f64::sin), wave(f64::cos)[..4095].to_vec(), f).is_none());
    let mut loud = wave(f64::sin);
    loud[7] = 4097;
    assert!(Trig::new(loud, wave(f64::cos), f).is_none());
    let t = trig();
    assert_eq!((t.sin_q12(1024), t.cos_q12(1024)), (4096, 0));
    assert_eq!(t.sin_q12(1024 + 4096), 4096);
    assert_eq!(t.atan2_q12(1, 0), 1024);
}

#[test]
fn a_match_out_of_range_is_not_stepped() {
    let t = trig();
    let mut s = Sim::new();
    s.ball.v.x = i32::MAX;
    let before = s.clock;
    assert!(!s.try_advance(&t, &Input::default(), None));
    assert_eq!(s.clock, before);
    s.ball.v.x = 0;
    assert!(s.try_advance(&t, &Input::default(), None));
    assert_eq!(s.clock, before - 1);
}

#[test]
fn a_timed_match_runs_down_and_stays_over() {
    let t = trig();
    let mut s = Sim::with_win_condition(WinCondition::TimeLimit(2));
    assert!(!s.finished());
    s.try_advance(&t, &Input::default(), None);
    s.try_advance(&t, &Input::default(), None);
    assert!(s.finished());
    s.try_advance(&t, &Input::default(), None);
    assert!(s.finished() && s.clock == 0);
}

#[test]
fn a_goal_is_counted_once_and_ends_in_a_kickoff() {
    let t = trig();
    let mut s = Sim::new();
    s.score(Team::Blue);
    assert_eq!((s.score_blue, s.score_orange, s.goal_freeze), (1, 0, GOAL_FREEZE_TICKS));
    let clock = s.clock;
    for _ in 0..GOAL_FREEZE_TICKS {
        assert!(s.try_advance(&t, &Input::default(), None));
        assert_eq!((s.score_blue, s.hit, s.pad_taken), (1, 0, false));
    }
    assert_eq!(s.goal_freeze, 0);
    assert_eq!(s.clock, clock, "a celebration stops the clock");
    assert_eq!((s.ball.p.x, s.ball.p.y, s.ball.p.z), (0, uu(BALL_R), 0));
    assert_eq!((s.car.p.x, s.car.p.z), (-s.opponent.p.x, -s.opponent.p.z));
}

#[test]
fn the_winning_goal_keeps_its_backdrop() {
    let t = trig();
    let mut s = Sim::with_win_condition(WinCondition::GoalLimit(1));
    s.ball.p = V3::new(uu(100), uu(200), uu(5300));
    s.score(Team::Orange);
    let at = s.ball.p;
    for _ in 0..GOAL_FREEZE_TICKS {
        s.try_advance(&t, &Input::default(), None);
    }
    assert!(s.finished());
    assert_eq!(s.ball.p, at);
}

#[test]
fn a_wreck_waits_and_comes_back_fresh() {
    let t = trig();
    let mut s = Sim::new();
    s.car.demo_timer = 3;
    let at = s.car.p;
    let full = Input { throttle: 128, boost: true, ..Input::default() };
    s.try_advance(&t, &full, None);
    assert_eq!((s.car.demo_timer, s.car.p), (2, at));
    s.try_advance(&t, &full, None);
    s.try_advance(&t, &Input::default(), None);
    assert!(!s.car.wrecked());
    assert_eq!(s.car.boost, BOOST_MAX / 3);
    assert_eq!(spawned(Team::Blue).boost, BOOST_MAX / 3);
}

#[test]
fn only_a_supersonic_car_wrecks() {
    let t = trig();
    let mut s = Sim::new();
    s.car.p = V3::new(0, uu(28), uu(-150));
    s.opponent.p = V3::new(0, uu(28), 0);
    s.car.v = V3::new(0, 0, 2400);
    s.car.supersonic = true;
    let (wrecks, _) = car_contact(&t, &s.car, &s.opponent).expect("they touch");
    assert!(wrecks);
    s.car.supersonic = false;
    let (wrecks, _) = car_contact(&t, &s.car, &s.opponent).expect("they touch");
    assert!(!wrecks);
}

#[test]
fn gravity_never_drifts() {
    let mut s = Sim::new();
    let total: i32 = (0..9).map(|_| s.gravity_step()).sum();
    assert_eq!(total, 104);
    let again: i32 = (0..9).map(|_| s.gravity_step()).sum();
    assert_eq!(again, 104);
}

#[test]
fn confining_leaves_the_inside_alone_and_brings_the_rest_in() {
    let inside = confine(uu(100), uu(-200), 5, 6, BALL_R, 0, false);
    assert_eq!((inside.0, inside.1), (uu(100), uu(-200)));
    let out = confine(uu(9000), uu(0), 500, 0, BALL_R, 0, false);
    assert!(out.0 <= uu(HALF_X - BALL_R));
    let corner = confine(uu(HALF_X), uu(HALF_Z), 500, 500, BALL_R, 0, false);
    assert!(corner.0.abs() + corner.1.abs() <= uu(CORNER));
}

#[test]
fn a_curve_stays_between_its_ends() {
    let table = [(0, 100), (10, 200), (20, 0)];
    assert_eq!(curve(&table, -5), 100);
    assert_eq!(curve(&table, 5), 150);
    assert_eq!(curve(&table, 10), 200);
    assert_eq!(curve(&table, 15), 100);
    assert_eq!(curve(&table, 99), 0);
}

#[test]
fn friction_never_lifts_the_spin_over_its_ceiling() {
    let mut b = Ball::default();
    b.v = V3::new(6000, 0, 0);
    for _ in 0..200 {
        ball_friction(&mut b, V3::new(0, 4096, 0), 6000, 2048, V3::zero());
        assert!(spin_rad_per_s(b.w) <= 6);
    }
}

#[test]
fn pads_only_refuel() {
    let t = trig();
    let mut s = Sim::new();
    let pad = Pad::at(0);
    s.opponent_ai = false;
    s.car.p = V3::new(uu(pad.x), uu(28), uu(pad.z));
    s.car.boost = 0;
    s.try_advance(&t, &Input::default(), None);
    assert_eq!(s.car.boost, BOOST_MAX);
    assert!(s.pad_taken);
    assert_eq!(s.pad_timers[0], pad.respawn());
    s.car.boost = 0;
    s.try_advance(&t, &Input::default(), None);
    assert_eq!(s.car.boost, 0, "a taken pad gives nothing");
}

#[test]
fn the_generator_never_sticks() {
    let mut s = Sim::new();
    let a = s.ai_rand();
    let b = s.ai_rand();
    assert_ne!(a, b);
    for _ in 0..1000 {
        s.ai_rand();
    }
}

#[test]
fn fixed_point_helpers_round_as_they_say() {
    assert_eq!(isqrt_i32(0), 0);
    assert_eq!(isqrt_i32(99), 9);
    assert_eq!(isqrt_i32(i32::MAX), 46_340);
    assert_eq!(mul_shift12(-1, 1), -1, "a shift rounds down");
    assert_eq!(mul_div(-7, 1, 2), -3, "a division rounds to nothing");
}

#[test]
fn two_players_drive_two_cars() {
    let t = trig();
    let mut s = Sim::new();
    s.opponent_ai = false;
    let (a, b) = (s.car.p, s.opponent.p);
    let go = Input { throttle: 128, ..Input::default() };
    for _ in 0..30 {
        s.tick_versus(&t, &go, &Input::default());
    }
    assert!(s.car.p.z != a.z, "player one drove off");
    assert_eq!(s.opponent.p.z, b.z, "player two sat still");
    for _ in 0..30 {
        s.tick_versus(&t, &Input::default(), &go);
    }
    assert!(s.opponent.p.z != b.z);
    let mut solo = Sim::new();
    solo.tick(&t, &go);
    assert_eq!(solo.clock, Sim::new().clock - 1);
}

#[test]
fn a_corner_plane_is_as_far_as_it_is() {
    let wall = nearest_arena_wall(uu(3800), uu(4200), false);
    assert_eq!(wall.distance, 2896);
    assert_eq!(wall.inward, V3::new(-2896, 0, -2896));
    let side = nearest_arena_wall(uu(-4000), 0, false);
    assert_eq!((side.distance, side.inward), (uu(96), V3::new(4096, 0, 0)));
    let end = nearest_arena_wall(0, uu(5000), false);
    assert_eq!((end.distance, end.inward), (uu(120), V3::new(0, 0, -4096)));
    let open = nearest_arena_wall(0, uu(5000), true);
    assert!(open.distance > uu(2000), "with the mouth open the end wall is not there");
}

/// Flat out, steering and jumping on different periods.
fn thrash(i: i32) -> Input {
    Input {
        throttle: 128,
        steer: (i * 7) % 256 - 128,
        pitch: (i * 13) % 256 - 128,
        boost: i % 5 != 0,
        jump_pressed: i % 37 == 0,
        jump_held: i % 37 < 6,
        air_roll: i % 11 == 0,
        handbrake: i % 23 < 6,
    }
}

#[test]
fn a_match_in_play_can_always_be_stepped() {
    let t = trig();
    let mut s = Sim::new();
    for i in 0..3000 {
        assert!(s.steppable(), "tick {i}");
        s.tick(&t, &thrash(i));
        for c in [&s.car, &s.opponent] {
            assert!(c.p.x.abs() <= uu(HALF_X) + uu(84) && c.p.y >= uu(28));
            for axle in c.suspension {
                assert!((-1024..=512).contains(&axle));
            }
            for rate in [c.w_pitch, c.w_yaw, c.w_roll] {
                assert!((-60..=60).contains(&rate));
            }
        }
        assert!(s.ball.w.len() <= 6554, "spin at {i}");
    }
}

#[test]
fn a_ball_dead_centre_on_the_frame_stays_in_range() {
    // One sub-unit off the outer top corner of the frame on every axis, where
    // the normal rounds to the longest it can be.
    let v = V3::new(-3600, -3600, -3600);
    let mut s = Sim::new();
    s.ball.p = V3::new(57_153 - v.x, 41_153 - v.y, 327_681 - v.z);
    s.ball.v = v;
    fly(&mut s.ball, 0);
    assert!(s.ball.v.y > 6400, "it is thrown out harder than it came in: {:?}", s.ball);
    assert!(s.ball.w.len() > 6554, "the cap goes by a length that has saturated");
    assert!(s.ball.steppable());
}

#[test]
fn a_car_faster_than_any_drives_is_still_stepped() {
    let t = trig();
    let mut s = Sim::new();
    s.car.v = V3::new(40_000, 0, 0);
    assert!(s.try_advance(&t, &Input::default(), None));
    s.car.v = V3::new(300_000, 0, 0);
    assert!(s.try_advance(&t, &Input::default(), None));
    s.car.v = V3::new(2_000_000, 0, 0);
    assert!(!s.try_advance(&t, &Input::default(), None));
    assert_eq!(s.car.v, V3::new(2_000_000, 0, 0));
}

#[test]
fn a_shove_lands_whatever_fits() {
    let mut s = Sim::new();
    s.opponent.v = V3::new(100_000, -5, 0);
    s.apply_hit((false, V3::new(1_000_000, 7, -3)), Team::Orange);
    assert_eq!(s.opponent.v, V3::new(1_100_000, 2, -3));
    assert!(!s.opponent.grounded && !s.demo);
    let at = s.car.p;
    s.car.v = V3::new(i32::MAX, 0, 0);
    s.apply_hit((true, V3::new(i32::MAX, 0, 0)), Team::Blue);
    assert_eq!((s.car.p, s.car.v, s.car.demo_timer, s.demo), (at, V3::zero(), 180, true));
}

#[test]
fn a_goal_is_a_ball_wholly_over_the_line() {
    let t = trig();
    for (z, blue) in [(uu(5210), 0), (uu(5212), 1)] {
        let mut s = Sim::new();
        s.ball.p = V3::new(0, uu(200), z);
        s.ball.v = V3::zero();
        s.tick_ball(&t, 0);
        assert_eq!((s.score_blue, s.score_orange), (blue, 0), "at {z}");
    }
    let mut s = Sim::new();
    s.ball.p = V3::new(uu(1200), uu(200), uu(5212));
    s.tick_ball(&t, 0);
    assert_eq!((s.score_blue, s.ball.p.z), (0, uu(HALF_Z - BALL_R)), "beside the mouth is a wall");
}

#[test]
fn a_wreck_sits_out_a_celebration_too() {
    let t = trig();
    let mut s = Sim::new();
    s.goal_freeze = 20;
    s.opponent.demo_timer = 9;
    let at = s.opponent.p;
    s.tick(&t, &thrash(3));
    assert_eq!((s.opponent.demo_timer, s.opponent.p), (8, at));
    s.goal_freeze = 0;
    s.tick(&t, &thrash(4));
    assert_eq!((s.opponent.demo_timer, s.opponent.p), (7, at));
}

#[test]
fn no_goal_names_no_scorer() {
    let t = trig();
    let mut s = Sim::new();
    s.last_scorer = Team::Orange;
    s.tick(&t, &Input::default());
    assert_eq!((s.last_scorer, s.goal_freeze), (Team::Orange, 0));
}

#[test]
fn a_second_pad_replaces_the_opponent() {
    let t = trig();
    let mut s = Sim::new();
    for i in 0..40 {
        s.tick(&t, &thrash(i));
    }
    let plan = (s.ai_target, s.ai_target_ticks, s.ai_rng, s.ai_escape);
    s.tick_versus(&t, &thrash(1), &thrash(2));
    assert_eq!((s.ai_target, s.ai_target_ticks, s.ai_rng, s.ai_escape), plan);

    let mut parked = Sim::new();
    parked.opponent_ai = false;
    let mut idle = parked;
    for i in 0..200 {
        parked.tick(&t, &thrash(i));
        idle.tick_versus(&t, &thrash(i), &Input::default());
        assert_eq!(format!("{parked:?}"), format!("{idle:?}"));
    }
}

#[test]
fn a_wide_root_is_a_root() {
    assert_eq!(isqrt_wide(0), 0);
    assert_eq!(isqrt_wide(i32::MAX as i64), 46_340);
    assert_eq!(isqrt_wide(65_536 * 65_536), 65_536);
    assert_eq!(isqrt_wide(65_536 * 65_536 - 1), 65_535);
}

#[test]
fn the_opponent_leads_a_ball_faster_than_a_32_bit_square() {
    let mut s = Sim::new();
    s.ball.p = V3::new(uu(100), uu(1500), 0);
    s.ball.v = V3::new(0, 60_000, 64);
    assert_eq!(s.ai_ball_lead(), (uu(100), uu(120)), "a whole two seconds ahead");
}

#[test]
fn a_tick_of_flight_brings_a_fast_ball_under_twice_its_cap() {
    for v in [V3::new(25_000, 0, 0), V3::new(-25_000, 25_000, 25_000), V3::new(0, -25_000, 0)] {
        for x in [0, 250_000] {
            let mut b = Sim::new().ball;
            b.p.x = x;
            b.v = v;
            fly(&mut b, 0);
            let fastest = b.v.x.abs().max(b.v.y.abs()).max(b.v.z.abs());
            assert!(fastest <= 10_000, "{:?} came out as {:?}", v, b);
        }
    }
}

#[test]
fn cars_drive_on_through_a_celebration_and_the_ball_lies() {
    let t = trig();
    let mut s = Sim::new();
    s.goal_freeze = 60;
    s.car.p = V3::new(uu(HALF_X) - 30_000, s.car.p.y, 0);
    s.car.v = V3::new(2000, 0, 0);
    let ball = s.ball;
    for _ in 0..59 {
        s.tick(&t, &Input::default());
        assert!(s.car.p.x < uu(HALF_X), "{:?}", s.car.p);
        assert_eq!((s.ball.p, s.ball.v), (ball.p, ball.v));
    }
    s.tick(&t, &Input::default());
    assert_eq!(s.car.p, spawned(Team::Blue).p);
    assert_eq!((s.ball.p, s.ball.v), (ball.p, ball.v));
}

#[test]
fn a_ball_faster_than_any_is_stepped_and_slowed() {
    let t = trig();
    let mut s = Sim::new();
    s.opponent_ai = false;
    s.ball.v = V3::new(70_000, 0, 0);
    assert!(s.try_advance(&t, &Input::default(), None));
    assert_eq!(s.ball.p.x, 70_000);
    assert!(s.ball.v.x > 9000 && s.ball.v.x <= 9662, "{:?}", s.ball.v);
    s.ball.v = V3::new(0, 0, -300_000);
    assert!(s.try_advance(&t, &Input::default(), None));
    assert!(s.ball.p.z >= -uu(HALF_Z), "{:?}", s.ball.p);
}

#[test]
fn only_a_thinking_opponent_minds_how_far_off_it_is() {
    let t = trig();
    let mut s = Sim::new();
    s.opponent.p.x = 2_000_000;
    assert!(!s.try_advance(&t, &Input::default(), None));
    assert!(s.try_advance(&t, &Input::default(), Some(Input::default())));
    assert!(s.opponent.p.x < uu(HALF_X));
}

#[test]
fn a_fall_on_its_side_never_levels_off() {
    let t = trig();
    for n in [2000, 6000, 20_000] {
        let mut c = spawned(Team::Blue);
        c.p = V3::new(0, 100_000, 0);
        c.v = V3::new(0, -n, 0);
        c.up = V3::new(4096, 0, 0);
        c.grounded = false;
        Sim::tick_car(&t, &mut c, &Input::default(), 11);
        assert_eq!(c.v, V3::new(0, -n - 11, 0));
        Sim::tick_car(&t, &mut c, &Input::default(), 12);
        assert_eq!(c.v, V3::new(0, -n - 23, 0));
    }
    // The right way up, the same fall is held to the throttle ceiling.
    let mut c = spawned(Team::Blue);
    c.p = V3::new(0, 100_000, 0);
    c.v = V3::new(0, -2000, 0);
    c.grounded = false;
    Sim::tick_car(&t, &mut c, &Input::default(), 11);
    assert_eq!(c.v, V3::new(0, -1515, 0));
}

#[test]
fn a_tumbling_car_keeps_its_attitude_and_its_counters() {
    let t = trig();
    let mut c = spawned(Team::Blue);
    c.p = V3::new(0, 60_000, 0);
    c.grounded = false;
    for i in 0..400 {
        let slide = c.slide;
        let input = Input {
            pitch: if i % 90 < 60 { 128 } else { -77 },
            steer: if i % 50 < 30 { -128 } else { 100 },
            air_roll: i % 20 < 12,
            handbrake: i % 7 < 3,
            jump_pressed: i % 31 == 0,
            jump_held: i % 31 < 9,
            throttle: 128,
            ..Input::default()
        };
        Sim::tick_car(&t, &mut c, &input, 11 + i % 2);
        let up = c.up.x * c.up.x + c.up.y * c.up.y + c.up.z * c.up.z;
        assert!((16_000_000..=16_809_984).contains(&up), "tick {i}: {:?}", c.up);
        let built = if input.handbrake { (slide + 85).min(1024) } else { (slide - 34).max(0) };
        assert_eq!(c.slide, built);
        assert!(c.jump_slices <= 24 && c.w_pitch.abs() <= 60 && c.w_roll.abs() <= 60);
        assert!(c.jump_bonus_rem.abs() < 27 && c.jump_sticky_rem.abs() < 9);
        assert!(c.v.len() <= 2453 + 93, "tick {i}: {:?}", c.v);
    }
}

#[test]
fn a_match_left_alone_keeps_its_pace() {
    let t = trig();
    let mut s = Sim::new();
    s.opponent_ai = false;
    s.ball.v = V3::new(4000, 3000, 1000);
    s.car.v = V3::new(2000, 0, 0);
    for i in 0..120 {
        let before = s.car.v.len().max(2453);
        s.tick(&t, &Input::default());
        assert!(s.car.v.len() <= before + 93, "tick {i}: {:?}", s.car.v);
        let v = s.ball.v;
        assert!(v.x.abs().max(v.y.abs()).max(v.z.abs()) <= 10_000, "tick {i}: {v:?}");
        assert!(s.ball.w.len() <= 6554);
    }
}

#[test]
fn a_full_scoreboard_stops_only_the_next_goal() {
    let t = trig();
    let mut s = Sim::new();
    s.opponent_ai = false;
    s.score_blue = 65_535;
    assert!(s.try_advance(&t, &Input::default(), None));
    s.ball.p.z = uu(HALF_Z + BALL_R);
    s.ball.v = V3::new(0, 0, 100);
    assert!(!s.try_advance(&t, &Input::default(), None));
    s.ball.p.z = -uu(HALF_Z + BALL_R);
    s.ball.v = V3::new(0, 0, -100);
    assert!(s.try_advance(&t, &Input::default(), None));
    assert_eq!((s.score_blue, s.score_orange), (65_535, 1));
}

#[test]
fn a_celebration_does_not_look_at_the_ball() {
    let t = trig();
    let mut s = Sim::new();
    s.ball.v = V3::new(i32::MAX, 0, 0);
    s.goal_freeze = 2;
    assert!(s.try_advance(&t, &Input::default(), None));
    assert_eq!(s.ball.v.x, i32::MAX);
    s.car.v = V3::new(i32::MIN, 0, 0);
    assert!(s.try_advance(&t, &Input::default(), None));
    assert_eq!((s.goal_freeze, s.car.v, s.ball.v), (0, V3::new(0, 0, 0), V3::new(0, 0, 0)));
}
