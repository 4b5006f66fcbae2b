//! The game round the match, played from outside.

use nitroxide::atlas::{page_span, palette_span, Sheet};
use nitroxide::car::Input;
use nitroxide::colour::{car_name, curb, hue, mix, paint_name, set_appearance, shade, tinted, Livery};
use nitroxide::game::{Game, PauseRow, Phase, Player, SettingsRow};
use nitroxide::hud::{
    draw_goal_banner, draw_hud, draw_pause_menu, draw_results, draw_settings, draw_title, seat_name,
    Font, Label, Text, Type,
};
use nitroxide::music::{disc_has_menu_tracks, drive_track, from_bcd, DriveOrder, DriveStep, Music};
use nitroxide::overlay::{draw_disc, draw_intro, draw_now_playing, draw_select, splash_level};
use nitroxide::pad::{read_pad, Edges, Handshake, Held, Presence};
use nitroxide::panels::{
    menu_panels, menu_row_y, menu_sweep, select_panels, stage_car_screen_x, stage_car_x, FrontPanels,
    MenuRows, SeatPanel, SelectPanels,
};
use nitroxide::show::{render_overlay, render_picture, Layer, Picture};
use nitroxide::sim::{Sim, WinCondition};
use nitroxide::sound::{cues, deadline, expired, BoostVoice, Cues, Mixer};
use nitroxide::station::{hold_at, stand_at, Station};
use nitroxide::trig::Trig;
use nitroxide::tuning::uu;
use nitroxide::view::{
    boost_gauge_x, boost_gauge_y, quad_overlaps_view, scissor, screen_centre, ArenaTime, Bounds, Viewport,
};

fn trig() -> Trig<fn(i32, i32) -> u16> {
    let wave = |f: fn(f64) -> f64| -> Vec<i32> {
        (0..4096)
            .map(|i| (f(i as f64 * std::f64::consts::TAU / 4096.0) * 4096.0).round() as i32)
            .collect()
    };
    Trig::new(wave(f64::sin), wave(f64::cos), bearing as fn(i32, i32) -> u16).unwrap()
}

fn bearing(y: i32, x: i32) -> u16 {
    let turns = (y as f64).atan2(x as f64) / std::f64::consts::TAU;
    ((turns * 4096.0).round() as i32).rem_euclid(4096) as u16
}

/// Eight pixels a character, as a fixed-width face would measure.
fn face() -> Type<fn(Font, Text) -> u16> {
    Type::new(eight_wide as fn(Font, Text) -> u16)
}

fn eight_wide(_font: Font, text: Text) -> u16 {
    match text {
        Text::Word(s) => 8 * s.len() as u16,
        Text::Number(n) => 8 * format!("{n}").len() as u16,
        Text::Clock(..) => 32,
        Text::Letter(_) => 8,
    }
}

fn hands_off() -> Held {
    Held {
        left: false,
        right: false,
        up: false,
        down: false,
        throttle: false,
        reverse: false,
        boost: false,
        jump: false,
        jump_pressed: false,
        air_roll: false,
        stick_x: None,
        stick_y: None,
    }
}

fn press(e: Edges) -> Player {
    Player { edges: e, held: hands_off() }
}

fn idle() -> Player {
    press(Edges::idle())
}

fn cross() -> Edges {
    Edges { cross: true, ..Edges::idle() }
}

fn start() -> Edges {
    Edges { start: true, ..Edges::idle() }
}

fn down() -> Edges {
    Edges { down: true, ..Edges::idle() }
}

fn right() -> Edges {
    Edges { right: true, ..Edges::idle() }
}

/// A game past its boot splash.
fn at_title() -> (Game, Trig<fn(i32, i32) -> u16>, u32) {
    let t = trig();
    let mut g = Game::new();
    let mut tick = 0;
    while g.phase == Phase::Intro {
        g.advance(&t, &idle(), false, &idle(), tick);
        tick += 1;
        assert!(tick < 10_000, "the splash never ended");
    }
    assert_eq!(g.phase, Phase::Title);
    (g, t, tick)
}

fn words(labels: &[Label]) -> Vec<&'static str> {
    labels
        .iter()
        .filter_map(|l| match l.text {
            Text::Word(s) => Some(s),
            _ => None,
        })
        .collect()
}

// ---- phases ----------------------------------------------------------------

#[test]
fn the_splash_ends_by_itself_and_a_button_ends_it_sooner() {
    let (_, t, full) = at_title();
    let mut g = Game::new();
    let mut tick = 0;
    while g.phase == Phase::Intro {
        g.advance(&t, &press(cross()), false, &idle(), tick);
        tick += 1;
    }
    assert!(tick > 1, "a button held through boot skipped the splash at once");
    assert!(tick < full);
}

#[test]
fn a_solo_match_is_picked_played_paused_and_left() {
    let (mut g, t, mut tick) = at_title();
    let mut go = |g: &mut Game, e: Edges| {
        tick += 1;
        g.advance(&t, &press(e), false, &idle(), tick)
    };
    go(&mut g, cross());
    assert_eq!(g.phase, Phase::Select);
    go(&mut g, cross());
    assert!(g.all_ready());
    for _ in 0..4 {
        if g.phase == Phase::Select {
            go(&mut g, start());
        }
    }
    assert_eq!(g.phase, Phase::Play);
    assert!(!g.paused);
    let clock = g.sim.clock;
    let orders = go(&mut g, Edges::idle());
    assert!(orders.listen && !orders.stuck);
    assert_eq!(g.sim.clock, clock - 1);
    go(&mut g, start());
    assert!(g.paused);
    let held = g.sim.clock;
    go(&mut g, Edges::idle());
    assert_eq!(g.sim.clock, held, "a pause holds the match");
    assert_eq!(g.pause_rows(), vec![PauseRow::Resume, PauseRow::Settings, PauseRow::Quit]);
    go(&mut g, down());
    go(&mut g, down());
    let orders = go(&mut g, cross());
    assert_eq!(g.phase, Phase::Title);
    assert!(orders.hush);
}

#[test]
fn a_pause_menu_of_two_players_can_swap_sides() {
    let mut g = Game::new();
    stand_at(&mut g, Station::SplitPlay);
    assert!(g.two_player);
    assert_eq!(
        g.pause_rows(),
        vec![PauseRow::Resume, PauseRow::Swap, PauseRow::Settings, PauseRow::Quit]
    );
    let before = render_picture(&mut g, 0);
    g.swap_seats = true;
    let after = render_picture(&mut g, 0);
    match (before, after) {
        (Picture::Split(a, b), Picture::Split(c, d)) => {
            assert_eq!((a.seat, b.seat), (0, 1));
            assert_eq!((c.seat, d.seat), (1, 0));
            assert_eq!((a.vp, b.vp), (c.vp, d.vp));
            assert_eq!((c.camera_slot, d.camera_slot), (1, 0));
        }
        _ => panic!("two players share a split screen"),
    }
}

#[test]
fn seats_never_share_a_paint_however_far_one_cycles() {
    let (mut g, t, mut tick) = at_title();
    tick += 1;
    g.advance(&t, &press(cross()), false, &idle(), tick);
    assert_eq!(g.phase, Phase::Select);
    tick += 1;
    g.advance(&t, &press(down()), false, &idle(), tick);
    let first = g.one.paint;
    for _ in 0..7 {
        tick += 1;
        g.advance(&t, &press(right()), false, &idle(), tick);
        assert_ne!(g.one.paint, g.two.paint);
    }
    assert_eq!(g.one.paint, first, "seven steps round eight paints with one taken");
}

#[test]
fn settings_leave_the_match_alone_and_ask_to_be_saved() {
    let (mut g, _, tick) = at_title();
    g.settings = Some(0);
    let before = g.sim.clock;
    assert_eq!(g.settings_rows(), vec![SettingsRow::Arena, SettingsRow::Sound, SettingsRow::Back]);
    let night = g.arena_time;
    g.settings_input(&right(), tick);
    assert_ne!(g.arena_time, night);
    g.settings_input(&down(), tick);
    let orders = g.settings_input(&right(), tick);
    assert_eq!(orders.mute, Some(true));
    assert!(g.muted && g.settings_dirty && g.sfx_volume == 0);
    g.settings_input(&down(), tick);
    let orders = g.settings_input(&cross(), tick);
    assert!(g.settings.is_none());
    assert!(orders.save);
    g.saved(true);
    assert!(!g.settings_dirty);
    assert_eq!(g.sim.clock, before);
}

#[test]
fn a_failed_save_is_tried_again() {
    let mut g = Game::new();
    g.settings_dirty = true;
    g.saved(false);
    assert!(g.settings_dirty);
}

#[test]
fn loaded_volumes_set_the_switches() {
    let mut g = Game::new();
    assert_eq!(g.load(0, 0), DriveOrder::Hold);
    assert!(g.muted && !g.music.enabled());
    let mut g = Game::new();
    g.load(100, 100);
    assert!(!g.muted && g.music.enabled());
}

// ---- what is shown ---------------------------------------------------------

#[test]
fn every_phase_shows_its_own_picture() {
    let mut g = Game::new();
    assert_eq!(render_picture(&mut g, 5), Picture::Blank);
    assert_eq!(render_overlay(&g), vec![Layer::Splash, Layer::NowPlaying]);

    let (mut g, _, tick) = at_title();
    g.menu_at = tick;
    match render_picture(&mut g, tick) {
        Picture::Menu(FrontPanels::Title(rows)) => {
            assert_eq!((rows.selected, rows.rows, rows.fill), (0, 3, 0));
        }
        other => panic!("{other:?}"),
    }
    assert_eq!(g.sim.car.p.x, uu(150));
    assert_eq!(render_overlay(&g), vec![Layer::Title, Layer::NowPlaying]);
    g.settings = Some(0);
    assert_eq!(render_overlay(&g), vec![Layer::Title, Layer::Settings, Layer::NowPlaying]);

    let mut g = Game::new();
    stand_at(&mut g, Station::Play);
    match render_picture(&mut g, 9) {
        Picture::Solo(p) => assert_eq!((p.vp, p.seat, p.ball_cam), (Viewport::full(), 0, false)),
        other => panic!("{other:?}"),
    }
    assert_eq!(render_overlay(&g), vec![Layer::Hud, Layer::NowPlaying]);
    g.sim.goal_freeze = 9;
    g.paused = true;
    assert_eq!(
        render_overlay(&g),
        vec![Layer::Hud, Layer::GoalBanner, Layer::PauseMenu, Layer::NowPlaying]
    );
    g.phase = Phase::Results;
    assert_eq!(render_overlay(&g), vec![Layer::Results, Layer::NowPlaying]);
}

#[test]
fn the_solo_select_screen_stands_its_car_in_the_middle() {
    let (mut g, t, mut tick) = at_title();
    tick += 1;
    g.advance(&t, &press(down()), false, &idle(), tick);
    tick += 1;
    g.advance(&t, &press(cross()), false, &idle(), tick);
    assert_eq!(g.phase, Phase::Select);
    assert!(g.select_solo());
    match render_picture(&mut g, tick) {
        Picture::Menu(FrontPanels::Select(p)) => {
            assert!(!p.pair && p.one.live && !p.two.live);
            assert_eq!((p.top, p.row_step, p.arena_y, p.rule_y), (134, 20, 188, 208));
        }
        other => panic!("{other:?}"),
    }
    assert_eq!(g.sim.car.p.x, 0);
}

#[test]
fn stations_start_where_they_say() {
    let mut g = Game::new();
    stand_at(&mut g, Station::Day);
    assert_eq!((g.phase, g.arena_time), (Phase::Intro, ArenaTime::Day));
    let mut g = Game::new();
    stand_at(&mut g, Station::Goal);
    assert_eq!(g.phase, Phase::Play);
    assert_eq!(g.sim.ball.v.z, 5500);
    assert_eq!(g.sim.opponent.p.x, uu(3000));
    let mut g = Game::new();
    stand_at(&mut g, Station::Roof);
    g.sim.ball.p.y = 0;
    hold_at(&mut g, Station::Roof);
    assert_eq!(g.sim.ball.p.y, uu(1700));
    let mut g = Game::new();
    stand_at(&mut g, Station::Sprinter);
    assert_eq!(g.one.car, 2);
}

// ---- pads ------------------------------------------------------------------

#[test]
fn a_pad_reads_into_one_tick_of_intent() {
    let all = Held { throttle: true, right: true, boost: true, jump: true, jump_pressed: true, ..hands_off() };
    let i = read_pad(&all);
    assert_eq!((i.throttle, i.steer, i.pitch), (128, 128, 0));
    assert!(i.boost && i.jump_pressed && i.jump_held && !i.handbrake);
    let both = Held { throttle: true, reverse: true, ..hands_off() };
    assert_eq!(read_pad(&both).throttle, 0);
    let stick = Held { stick_x: Some(-300), stick_y: Some(-64), left: false, ..hands_off() };
    let i = read_pad(&stick);
    assert_eq!((i.steer, i.pitch), (-128, 64), "the stick is held to its range, and forward is up");
    let roll = Held { air_roll: true, ..hands_off() };
    assert!(read_pad(&roll).air_roll && read_pad(&roll).handbrake);
    let quiet: Input = read_pad(&hands_off());
    assert_eq!((quiet.throttle, quiet.steer, quiet.pitch), (0, 0, 0));
}

#[test]
fn a_digital_pad_is_asked_four_times_and_then_left_alone() {
    let mut h = Handshake::new();
    let port = Presence { connected: true, analog: false };
    let mut asked = 0;
    for clock in 0..600 {
        if h.pace(port, clock) {
            assert_eq!(clock % 15, 0);
            asked += 1;
        }
    }
    assert_eq!(asked, 4);
    h.pace(Presence { connected: false, analog: false }, 601);
    assert!(h.pace(port, 615), "plugging in again asks again");
    let mut analog = Handshake::new();
    assert!(!analog.pace(Presence { connected: true, analog: true }, 0));
}

// ---- music -----------------------------------------------------------------

#[test]
fn a_disc_is_trusted_only_with_all_its_tracks() {
    assert_eq!(from_bcd(0x00), 0);
    assert_eq!(from_bcd(0x09), 9);
    assert_eq!(from_bcd(0x42), 42);
    assert!(!disc_has_menu_tracks(None));
    assert!(!disc_has_menu_tracks(Some(&[2, 1])));
    assert!(!disc_has_menu_tracks(Some(&[2, 1, 0x01])));
    assert!(disc_has_menu_tracks(Some(&[2, 1, 0x99])));
    assert_eq!(drive_track(2, 3), 255);
    assert_eq!(drive_track(7, 3), 4);
}

#[test]
fn music_is_probed_once_and_goes_round_its_songs() {
    let mut m = Music::new();
    assert!(!m.available());
    assert_eq!(m.step(89), DriveStep::Wait);
    assert_eq!(m.step(90), DriveStep::Probe);
    assert!(m.take_probe(Some(&[2, 1, 0x99]), 100));
    let first = m.track_name();
    assert_eq!(first, "KNUCKLE DUST");
    assert!(matches!(m.step(101), DriveStep::Play(_)));
    assert_eq!(m.now_playing(100), Some((first, 0)));
    let mut names = vec![first];
    for tick in 0..3 {
        m.song_over(200 + tick);
        names.push(m.track_name());
    }
    m.song_over(300);
    assert_eq!(m.track_name(), first);
    assert_eq!(names, vec!["KNUCKLE DUST", "RUSTED HAMMER", "CHAINSAW HEART", "NIGHT CRAWLER"]);
    assert!(m.cycle_track(-1, 301));
    assert_eq!(m.track_name(), "NIGHT CRAWLER");
    assert_eq!(m.set_enabled(false, 302), DriveOrder::Pause);
    assert_eq!(m.step(303), DriveStep::Wait);
    assert!(!m.cycle_track(1, 304), "switched off, it only moves the pointer");
    assert_eq!(m.set_enabled(true, 305), DriveOrder::Begin);
    assert!(!m.poll_due(false, 400));
    assert!(m.poll_due(true, 400));
    assert!(!m.poll_due(true, 401));
}

#[test]
fn a_missing_disc_is_never_played() {
    let mut m = Music::new();
    assert!(!m.take_probe(None, 90));
    assert_eq!(m.step(91), DriveStep::Wait);
    assert_eq!(m.now_playing(91), None);
    assert_eq!(m.set_enabled(true, 92), DriveOrder::Hold);
    assert_eq!(m.stop(), DriveOrder::Hold);
}

#[test]
fn leaving_pauses_a_drive_that_has_the_songs() {
    let mut m = Music::default();
    assert_eq!(m, Music::new());
    assert_eq!(m.stop(), DriveOrder::Hold);
    assert!(m.take_probe(Some(&[0, 1, 5]), 90));
    assert_eq!(m.stop(), DriveOrder::Pause);
    assert_eq!(m.set_enabled(false, 91), DriveOrder::Pause);
    assert_eq!(m.stop(), DriveOrder::Pause);
}

// ---- sound -----------------------------------------------------------------

#[test]
fn a_mixer_refuses_lengths_it_cannot_time() {
    assert!(Mixer::new(vec![1, 2, 3]).is_none());
    assert!(Mixer::new(vec![1, 2, 3, u32::MAX]).is_none());
    assert!(Mixer::new(vec![1, 2, 3, 4]).is_some());
}

fn quiet() -> Cues {
    Cues { hit: 0, pad_taken: false, demo: false, boosting: false, freeze: 0 }
}

#[test]
fn the_boost_voice_acts_on_edges_and_silence_forgets_it() {
    let mut m = Mixer::new(vec![1000, 1000, 1000, 1000]).unwrap();
    let on = Cues { boosting: true, ..quiet() };
    assert_eq!(m.update(&on).boost, BoostVoice::On);
    assert_eq!(m.update(&on).boost, BoostVoice::Keep);
    assert_eq!(m.update(&quiet()).boost, BoostVoice::Off);
    assert!(m.set_muted(true));
    let out = m.update(&Cues { hit: 9000, demo: true, pad_taken: true, freeze: 150, ..on });
    assert!(out.shots.is_empty());
    assert!(m.muted());
}

#[test]
fn every_event_has_its_own_voice_and_is_cut_off() {
    let mut m = Mixer::new(vec![6000, 6000, 6000, 6000]).unwrap();
    let out = m.update(&Cues { hit: 9000, demo: true, pad_taken: true, freeze: 150, boosting: false });
    let mut voices: Vec<u8> = out.shots.iter().map(|s| s.voice).collect();
    let n = voices.len();
    voices.sort_unstable();
    voices.dedup();
    assert_eq!(voices.len(), n, "two sounds on one voice");
    assert!(n >= 3);
    let mut ended = Vec::new();
    for _ in 0..600 {
        ended.extend(m.update(&Cues { freeze: 150, ..quiet() }).off);
    }
    ended.sort_unstable();
    ended.dedup();
    assert_eq!(ended, voices, "every one of them is silenced");
    assert!(expired(10, Some(10)) && expired(11, Some(10)) && !expired(9, Some(10)));
    assert!(!expired(10, None));
    assert!(deadline(5, 6000, 6000) > 5 + 60);
    assert_eq!(cues(&Sim::new()), quiet());
}

// ---- type ------------------------------------------------------------------

#[test]
fn the_hud_writes_both_scores_and_the_clock() {
    let mut g = Game::new();
    stand_at(&mut g, Station::Play);
    g.sim.score_blue = 3;
    g.sim.score_orange = 11;
    let labels = draw_hud(&g, &face());
    assert!(labels.iter().any(|l| l.text == Text::Number(3)));
    assert!(labels.iter().any(|l| l.text == Text::Number(11)));
    assert!(labels.iter().any(|l| l.text == Text::Clock(b'5', b'0', b'0')));
    assert_eq!(seat_name(&g, 0), "P1");
    assert_eq!(seat_name(&g, 1), "CPU");
    g.two_player = true;
    assert_eq!(seat_name(&g, 1), "P2");
}

#[test]
fn menus_write_their_rows() {
    let (g, _, tick) = at_title();
    assert!(!draw_title(&g, tick).is_empty());
    let mut p = Game::new();
    stand_at(&mut p, Station::Play);
    p.paused = true;
    let (fills, labels) = draw_pause_menu(&p);
    assert!(!fills.is_empty());
    let said = words(&labels);
    assert!(said.contains(&"RESUME") && said.contains(&"SETTINGS") && said.contains(&"QUIT TO MENU"), "{said:?}");
    p.settings = Some(0);
    let (fills, labels) = draw_settings(&p, &face());
    assert!(!fills.is_empty() && !labels.is_empty());
    let mut s = Sim::new();
    s.score_blue = 2;
    assert!(draw_results(&s).iter().any(|l| l.text == Text::Number(2)));
    p.sim.goal_freeze = 100;
    assert!(!draw_goal_banner(&p, &Livery::set_seat_paints(0, 5), &face()).is_empty());
}

#[test]
fn the_splash_fades_in_holds_and_fades_out() {
    assert_eq!(splash_level(0), 0);
    let mut peak = 0;
    let mut t = 0;
    while t < 200 {
        peak = peak.max(splash_level(t));
        t += 1;
    }
    assert_eq!(peak, 128);
    assert_eq!(draw_intro(30, &face()).len(), 18);
}

#[test]
fn the_now_playing_banner_comes_and_goes() {
    let t = trig();
    let mut g = Game::new();
    assert!(draw_now_playing(&g, &t, &face(), 160).is_none());
    g.take_probe(Some(&[2, 1, 0x99]), 100);
    let (shapes, labels) = draw_now_playing(&g, &t, &face(), 160).unwrap();
    assert!(!shapes.is_empty());
    assert!(words(&labels).contains(&"KNUCKLE DUST"));
    assert!(draw_now_playing(&g, &t, &face(), 100_000).is_none());
    assert!(!draw_disc(&t, 40, 40, 7).is_empty());
}

#[test]
fn the_select_screen_names_cars_and_paints() {
    let (mut g, t, mut tick) = at_title();
    tick += 1;
    g.advance(&t, &press(cross()), false, &idle(), tick);
    let said = words(&draw_select(&g, &face(), tick));
    assert!(said.contains(&car_name(g.one.car)), "{said:?}");
    assert!(said.contains(&paint_name(g.one.paint)), "{said:?}");
    assert_eq!(paint_name(0), "COBALT");
    assert_eq!(car_name(0), "COMET");
}

// ---- panels, colours, views ------------------------------------------------

#[test]
fn panels_stand_where_the_layout_says() {
    assert_eq!(menu_row_y(0), 156);
    assert_eq!(menu_row_y(2), 206);
    assert_eq!(menu_sweep(0), 0);
    assert_eq!(menu_sweep(1_000), 4096);
    assert!(menu_sweep(1) > 0 && menu_sweep(1) < 4096);
    assert_eq!(stage_car_x(0, true), -150);
    assert_eq!(stage_car_x(1, true), 150);
    assert_eq!(stage_car_x(0, false), 150);
    assert_eq!(stage_car_screen_x(0, true), 85);
    assert_eq!(stage_car_screen_x(1, true), 235);
    let rows = menu_panels(&MenuRows { selected: 1, rows: 3, fill: 2048 });
    assert!(rows.len() >= 3);
    let livery = Livery::set_seat_paints(0, 5);
    let seat = SeatPanel { live: true, ready: false, selected: 0 };
    let both = SelectPanels { top: 134, row_step: 20, arena_y: 188, rule_y: 208, one: seat, two: seat, pair: true };
    let alone = SelectPanels { pair: false, ..both };
    assert!(select_panels(&livery, &both).len() > select_panels(&livery, &alone).len());
}

#[test]
fn colours_scale_mix_and_tint() {
    assert_eq!(shade((100, 200, 50), 1, 2), (50, 100, 25));
    assert_eq!(shade((200, 200, 200), 2, 1), (255, 255, 255));
    assert_eq!(mix((0, 0, 0), (160, 160, 160), 4), (40, 40, 40));
    assert_eq!(mix((9, 9, 9), (200, 0, 0), -5), (9, 9, 9));
    assert_eq!(tinted((100, 100, 100), (128, 64, 255)), (100, 50, 199));
    let livery = Livery::set_seat_paints(0, 5);
    assert_eq!(livery.seat_signal(0), (54, 118, 240));
    assert_eq!(livery.seat_signal(1), (250, 138, 34));
    assert_ne!(curb(&livery, (128, 128, 128), -5000), curb(&livery, (128, 128, 128), 5000));
    let (r, g, b) = hue((54, 118, 240));
    assert!(r < g && g < b);
    let body = vec![(32, 80, 168), (16, 34, 80), (1, 2, 3)];
    assert_eq!(set_appearance(&body, 0), body);
    assert_eq!(set_appearance(&body, 5), vec![(208, 96, 24), (88, 38, 10), (1, 2, 3)]);
}

#[test]
fn views_tile_the_screen() {
    let (full, top, bottom) = (Viewport::full(), Viewport::top(), Viewport::bottom());
    assert_eq!((full.w, full.h), (320, 240));
    assert_eq!(top.h + bottom.h, full.h);
    assert_eq!(bottom.y, top.h);
    assert_eq!((boost_gauge_x(full), boost_gauge_y(full)), (268, 190));
    assert_eq!(screen_centre(bottom), (160, 180));
    let s = scissor(bottom, 256);
    assert_eq!((s.x0, s.y0, s.x1, s.y1), (0, 376, 319, 495));
    let b = Bounds::around(full);
    assert!(b.on_view(0, 0) && b.on_view(-80, 319) && !b.on_view(-81, 0) && !b.on_view(0, 320));
    assert!(quad_overlaps_view(&b, &[(-900, -900), (900, -900), (-900, 900), (900, 900)]));
    assert!(!quad_overlaps_view(&b, &[(500, 0), (600, 0), (500, 9), (600, 9)]));
    assert!(!b.split && Bounds::around(top).split);
}

#[test]
fn looks_go_round() {
    let start = ArenaTime::Night;
    assert_eq!(start.next().next().next(), start);
    assert_eq!(start.next().prev(), start);
}

#[test]
fn only_the_whole_atlas_is_uploaded() {
    let sheet = Sheet {
        width: 256,
        height: 768,
        halfwords_per_row: 64,
        pixel_bytes: 98_304,
        clut_entries: 64,
        clut_bytes: 128,
    };
    assert!(sheet.valid());
    assert!(!Sheet { height: 256, ..sheet }.valid());
    assert!(!Sheet { pixel_bytes: 98_303, ..sheet }.valid());
    assert!(!Sheet { clut_bytes: 32, ..sheet }.valid());
    assert_eq!(page_span(0).0, 0);
    assert_eq!(page_span(2).1, sheet.pixel_bytes);
    assert_eq!(palette_span(3), (96, 128));
}

#[test]
fn a_two_pad_match_waits_for_both_and_a_pulled_pad_unlocks() {
    let (mut g, t, mut tick) = at_title();
    let mut go = |g: &mut Game, a: Edges, connected: bool, b: Edges| {
        tick += 1;
        g.advance(&t, &press(a), connected, &press(b), tick)
    };
    go(&mut g, cross(), true, Edges::idle());
    assert_eq!(g.phase, Phase::Select);
    go(&mut g, Edges::idle(), true, Edges::idle());
    assert!(g.two_player);
    go(&mut g, Edges::idle(), true, cross());
    assert!(g.two.ready && !g.all_ready());
    go(&mut g, start(), true, Edges::idle());
    assert_eq!(g.phase, Phase::Select, "one player is not enough");
    go(&mut g, Edges::idle(), false, Edges::idle());
    assert!(!g.two.ready && !g.two_player, "a pad that is pulled takes its lock with it");
}

#[test]
fn a_match_is_played_to_the_rule_that_was_picked() {
    let (mut g, t, mut tick) = at_title();
    let mut go = |g: &mut Game, e: Edges| {
        tick += 1;
        g.advance(&t, &press(e), false, &idle(), tick)
    };
    go(&mut g, cross());
    go(&mut g, down());
    go(&mut g, down());
    go(&mut g, down());
    go(&mut g, right());
    let picked = g.match_rule;
    go(&mut g, cross());
    for _ in 0..4 {
        if g.phase == Phase::Select {
            go(&mut g, start());
        }
    }
    assert_eq!(g.phase, Phase::Play);
    assert_eq!(g.sim.win_condition, nitroxide::game::match_rule(picked));
    assert_eq!(nitroxide::game::match_rule(0), WinCondition::TimeLimit(3600));
    assert_eq!(nitroxide::game::match_rule(3), WinCondition::GoalLimit(1));
}

#[test]
fn a_paint_step_back_restores_the_paint() {
    let mut g = Game::default();
    assert_eq!((g.one.paint, g.two.paint), (0, 5));
    for seat in 0..2 {
        for _ in 0..9 {
            let before = (g.one.paint, g.two.paint);
            for step in [1, -1] {
                g.cycle_paint(seat, step);
                assert_ne!(g.one.paint, g.two.paint);
                assert_ne!((g.one.paint, g.two.paint), before);
                g.cycle_paint(seat, -step);
                assert_eq!((g.one.paint, g.two.paint), before);
            }
            g.cycle_paint(seat, 1);
        }
    }
}

#[test]
fn the_game_boots_knowing_nothing_of_the_disc() {
    let g = Game::default();
    assert_eq!(g.music, Music::new());
    assert_eq!((g.music.announced_at, g.music.next_poll), (None, 0));
    assert!(g.phase == Phase::Intro && g.intro_t == 0);
}
