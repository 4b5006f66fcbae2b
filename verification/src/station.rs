//! Fixed starting stations: the game put straight into a scene worth looking
//! at, for captures and inspection.

use vstd::prelude::*;
use crate::ball::Ball;
use crate::car;
use crate::car::Car;
use crate::game::{Game, Phase, Seat};
use crate::sim::Sim;
use crate::tuning::{uu, CAR_REST_Y};
use crate::vec3;
use crate::vec3::V3;
use crate::view::ArenaTime;

verus! {

/// A place to start instead of the boot splash.
#[derive(Copy, Clone, Debug, PartialEq, Eq, Structural)]
pub enum Station {
    /// Daylight.
    Day,
    /// Sunset.
    Sunset,
    /// Straight into a match.
    Play,
    /// Straight into a two-player match.
    SplitPlay,
    /// The second car.
    Hatch,
    /// The third car.
    Sprinter,
    /// Close on the wheels.
    Wheels,
    /// The ball already on its way to the goal.
    Goal,
    /// The ball parked in the air in front of the car.
    AirBall,
    /// The ball up against the roof.
    Roof,
    /// The car driving on a wall.
    Wall,
    /// Two views of a ball high on a wall.
    SplitWall,
    /// Jammed into a corner.
    Corner,
}

/// A car at a place along the pitch.
pub open spec fn car_z(c: Car, z: int) -> Car {
    Car { p: V3 { z: (z * 64) as i32, ..c.p }, ..c }
}

/// A car at a place across the pitch.
pub open spec fn car_x(c: Car, x: int) -> Car {
    Car { p: V3 { x: (x * 64) as i32, ..c.p }, ..c }
}

/// A ball hung still in the air.
pub open spec fn hung(b: Ball, x: int, y: int, z: int) -> Ball {
    Ball { p: vec3::v3(x * 64, y * 64, z * 64), v: vec3::zero3(), grounded: false, ..b }
}

/// The player's car at a station.
#[verifier::opaque]
pub open spec fn posed_car(c: Car, at: Station) -> Car {
    match at {
        Station::Wheels | Station::Roof => car_z(c, -1800),
        Station::AirBall => car_z(c, -2600),
        Station::Wall => Car {
            p: vec3::v3(260_352, 39_680, -76_800),
            up: vec3::v3(-4096, 0, 0),
            grounded: true,
            ..c
        },
        Station::SplitWall => car_z(car_x(c, 3300), -1200),
        Station::Corner => car_z(car_x(c, -2900), 3900),
        _ => c,
    }
}

/// The opponent's car at a station, out of the way.
#[verifier::opaque]
pub open spec fn posed_rival(c: Car, at: Station) -> Car {
    match at {
        Station::Wheels | Station::Wall => car_x(c, -3000),
        Station::Goal | Station::AirBall | Station::Roof | Station::Corner => car_x(c, 3000),
        Station::SplitWall => car_z(car_x(c, 3300), 1200),
        _ => c,
    }
}

/// The ball at a station.
#[verifier::opaque]
pub open spec fn posed_ball(b: Ball, at: Station) -> Ball {
    match at {
        Station::Wheels => Ball { p: V3 { x: 192_000, ..b.p }, ..b },
        Station::Goal => Ball { v: V3 { z: 5500, ..b.v }, ..b },
        Station::AirBall => Ball { p: vec3::v3(0, 35_840, -96_000), grounded: false, ..b },
        Station::Roof => hung(b, 0, 1700, 400),
        Station::Wall => Ball { p: V3 { x: 249_600, z: 38_400, ..b.p }, ..b },
        Station::SplitWall => hung(b, 4016, 1022, 0),
        Station::Corner => Ball { p: V3 { x: (-224_000) as i32, z: 281_600, ..b.p }, ..b },
        _ => b,
    }
}

/// A station that starts a match.
pub open spec fn plays(at: Station) -> bool {
    !(at == Station::Day || at == Station::Sunset || at == Station::Hatch || at
        == Station::Sprinter)
}

/// The match at a station. Nobody drives the opponent at a posed one.
#[verifier::opaque]
pub open spec fn posed(s: Sim, at: Station) -> Sim {
    Sim {
        car: posed_car(s.car, at),
        opponent: posed_rival(s.opponent, at),
        ball: posed_ball(s.ball, at),
        opponent_ai: s.opponent_ai && (!plays(at) || at == Station::Play),
        ..s
    }
}

/// The player's choices at a station.
#[verifier::opaque]
pub open spec fn posed_seat(seat: Seat, at: Station) -> Seat {
    Seat {
        car: if at == Station::Hatch {
            1
        } else if at == Station::Sprinter {
            2
        } else {
            seat.car
        },
        ball_cam: seat.ball_cam || at == Station::AirBall || at == Station::Roof || at
            == Station::SplitWall,
        ..seat
    }
}

/// A game standing at a station.
#[verifier::opaque]
pub open spec fn stood(g: Game, at: Station) -> Game {
    let split = at == Station::SplitPlay || at == Station::SplitWall;
    Game {
        phase: if plays(at) {
            Phase::Play
        } else {
            g.phase
        },
        sim: posed(g.sim, at),
        one: posed_seat(g.one, at),
        two: Seat { ball_cam: g.two.ball_cam || at == Station::SplitWall, ..g.two },
        two_player: g.two_player || split,
        arena_time: if at == Station::Day {
            ArenaTime::Day
        } else if at == Station::Sunset {
            ArenaTime::Sunset
        } else {
            g.arena_time
        },
        ..g
    }
}

/// The wheels turned, dropped and steered, standing still.
#[verifier::opaque]
pub open spec fn shown_wheels(c: Car) -> Car {
    Car {
        p: vec3::v3(0, 1792, -115_200),
        v: vec3::zero3(),
        steer: (-1100) as i32,
        wheel_spin: 384,
        suspension: car::axles(512, -512),
        ..c
    }
}

/// A game with its station's pose held after a tick. Only two stations hold
/// one: the rest run as matches.
pub open spec fn held(g: Game, at: Station) -> Game {
    match at {
        Station::Roof => Game { sim: Sim { ball: hung(g.sim.ball, 0, 1700, 400), ..g.sim }, ..g },
        Station::Wheels => Game { sim: Sim { car: shown_wheels(g.sim.car), ..g.sim }, ..g },
        _ => g,
    }
}

fn hang(ball: &mut Ball, x: i32, y: i32, z: i32)
    requires
        -0x10_0000 <= x <= 0x10_0000,
        -0x10_0000 <= y <= 0x10_0000,
        -0x10_0000 <= z <= 0x10_0000,
    ensures
        *final(ball) == hung(*old(ball), x as int, y as int, z as int),
{
    ball.p = V3 { x: uu(x), y: uu(y), z: uu(z) };
    ball.v = V3::zero();
    ball.grounded = false;
}

fn pose_car(c: &mut Car, at: Station)
    ensures
        *final(c) == posed_car(*old(c), at),
        final(c).valid() == old(c).valid(),
{
    proof {
        reveal(posed_car);
    }
    match at {
        Station::Wheels | Station::Roof => {
            c.p.z = uu(-1800);
        },
        Station::AirBall => {
            c.p.z = uu(-2600);
        },
        Station::Wall => {
            c.p = V3 { x: uu(4096 - CAR_REST_Y), y: uu(620), z: uu(-1200) };
            c.up = V3 { x: -4096, y: 0, z: 0 };
            c.grounded = true;
        },
        Station::SplitWall => {
            c.p.x = uu(3300);
            c.p.z = uu(-1200);
        },
        Station::Corner => {
            c.p.x = uu(-2900);
            c.p.z = uu(3900);
        },
        _ => {},
    }
}

fn pose_rival(c: &mut Car, at: Station)
    ensures
        *final(c) == posed_rival(*old(c), at),
        final(c).valid() == old(c).valid(),
{
    proof {
        reveal(posed_rival);
    }
    match at {
        Station::Wheels | Station::Wall => {
            c.p.x = uu(-3000);
        },
        Station::Goal | Station::AirBall | Station::Roof | Station::Corner => {
            c.p.x = uu(3000);
        },
        Station::SplitWall => {
            c.p.x = uu(3300);
            c.p.z = uu(1200);
        },
        _ => {},
    }
}

fn pose_ball(b: &mut Ball, at: Station)
    ensures
        *final(b) == posed_ball(*old(b), at),
{
    proof {
        reveal(posed_ball);
    }
    match at {
        Station::Wheels => {
            b.p.x = uu(3000);
        },
        Station::Goal => {
            b.v.z = 5500;
        },
        Station::AirBall => {
            b.p = V3 { x: 0, y: uu(560), z: uu(-1500) };
            b.grounded = false;
        },
        Station::Roof => {
            hang(b, 0, 1700, 400);
        },
        Station::Wall => {
            b.p.x = uu(3900);
            b.p.z = uu(600);
        },
        Station::SplitWall => {
            hang(b, 4096 - 80, 1022, 0);
        },
        Station::Corner => {
            b.p.x = uu(-3500);
            b.p.z = uu(4400);
        },
        _ => {},
    }
}

fn starts_play(at: Station) -> (r: bool)
    ensures
        r == plays(at),
{
    !(at == Station::Day || at == Station::Sunset || at == Station::Hatch || at
        == Station::Sprinter)
}

fn pose(s: &mut Sim, at: Station)
    ensures
        *final(s) == posed(*old(s), at),
        final(s).valid() == old(s).valid(),
{
    proof {
        reveal(posed);
    }
    pose_car(&mut s.car, at);
    pose_rival(&mut s.opponent, at);
    pose_ball(&mut s.ball, at);
    if starts_play(at) && at != Station::Play {
        s.opponent_ai = false;
    }
}

fn pose_seat(seat: &mut Seat, at: Station)
    ensures
        *final(seat) == posed_seat(*old(seat), at),
        old(seat).car < 3 ==> final(seat).car < 3,
        final(seat).paint == old(seat).paint,
        final(seat).row == old(seat).row,
{
    proof {
        reveal(posed_seat);
    }
    if at == Station::Hatch {
        seat.car = 1;
    } else if at == Station::Sprinter {
        seat.car = 2;
    }
    if at == Station::AirBall || at == Station::Roof || at == Station::SplitWall {
        seat.ball_cam = true;
    }
}

/// Put a freshly started game at a station.
pub fn stand_at(game: &mut Game, at: Station)
    requires
        old(game).wf(),
        old(game).pause_row == 0,
    ensures
        *final(game) == stood(*old(game), at),
        final(game).wf(),
{
    proof {
        reveal(stood);
    }
    pose(&mut game.sim, at);
    pose_seat(&mut game.one, at);
    if starts_play(at) {
        game.phase = Phase::Play;
    }
    if at == Station::Day {
        game.arena_time = ArenaTime::Day;
    }
    if at == Station::Sunset {
        game.arena_time = ArenaTime::Sunset;
    }
    if at == Station::SplitPlay || at == Station::SplitWall {
        game.two_player = true;
    }
    if at == Station::SplitWall {
        game.two.ball_cam = true;
    }
}

fn show_wheels(c: &mut Car)
    ensures
        *final(c) == shown_wheels(*old(c)),
        final(c).valid() == old(c).valid(),
{
    proof {
        reveal(shown_wheels);
    }
    c.p = V3 { x: 0, y: uu(CAR_REST_Y), z: uu(-1800) };
    c.v = V3::zero();
    c.steer = -1100;
    c.wheel_spin = 384;
    c.suspension = [512, -512];
    proof {
        car::lemma_axles(c.suspension);
    }
}

/// Hold a station's pose after a tick, for the two that are inspected rather
/// than played.
pub fn hold_at(game: &mut Game, at: Station)
    requires
        old(game).wf(),
    ensures
        *final(game) == held(*old(game), at),
        final(game).wf(),
{
    match at {
        Station::Roof => {
            hang(&mut game.sim.ball, 0, 1700, 400);
        },
        Station::Wheels => {
            show_wheels(&mut game.sim.car);
        },
        _ => {},
    }
}

} // verus!
