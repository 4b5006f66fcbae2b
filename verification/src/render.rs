//! A frame: which views it is made of, where each is filmed from, and what goes
//! into one, in order.

use vstd::prelude::*;
use crate::actors;
use crate::actors::{car_flame, pads, shadow, Caster};
use crate::blast;
use crate::blast::{demo_burst, goal_burst, to_drawn};
use crate::camera;
use crate::camera::{camera, close_camera, look_from, CameraState, Scene, Sight, FILM_LIMIT};
use crate::car::{fits, Car};
use crate::colour::Livery;
use crate::cull;
use crate::cull::Cull;
use crate::dials;
use crate::dials::{boost_gauge, scoreboard};
use crate::enclosure;
use crate::enclosure::{ceiling, lamps, walls};
use crate::goals;
use crate::goals::goals;
use crate::lens;
use crate::lens::{push_glass, Dot, Lens, Packet};
use crate::light;
use crate::light::arena_sky;
use crate::num;
use crate::panels;
use crate::panels::{
    menu_panels, select_panels, FrontPanels, ScreenQuad, STAGE_CAM_BACK, STAGE_CAM_PITCH,
    STAGE_CAM_UP, STAGE_Z,
};
use crate::pitch;
use crate::pitch::floor;
use crate::sim::Sim;
use crate::sphere;
use crate::sphere::ball;
use crate::trig::{Angles, Trig};
use crate::turn::Mat3;
use crate::tuning::{BALL_R, BOOST_SCALE, CAR_HALF_L, CAR_HALF_W, CAR_REST_Y};
use crate::vec3;
use crate::vec3::V3;
use crate::view;
use crate::view::{boost_gauge_x, boost_gauge_y, Bounds, Viewport, SCREEN_H, SCREEN_W};
use crate::walls::Walls;

verus! {

/// Depth slot of the sky.
pub const SKY_SLOT: usize = 511;
/// Depth slot of the line between two views.
pub const SPLIT_SEAM_SLOT: usize = 0;
/// Half the thickness of that line.
pub const SPLIT_SEAM_W: i16 = 2;

// ---- which views -----------------------------------------------------------

/// One view of a frame: where on the screen, whose car it follows, whether it
/// watches the ball, and which camera it continues.
#[derive(Copy, Clone, Debug, PartialEq, Eq, Structural)]
pub struct Pass {
    /// Where on the screen.
    pub vp: Viewport,
    /// Whose car it follows.
    pub seat: usize,
    /// Whether it watches the ball.
    pub ball_cam: bool,
    /// Which camera it continues.
    pub camera_slot: usize,
}

/// One player's frame: the whole screen.
pub open spec fn solo_pass(ball_cam: bool) -> Pass {
    Pass { vp: view::whole(), seat: 0, ball_cam, camera_slot: 0 }
}

/// One frame of the match for one player, on the whole screen.
pub fn render(ball_cam: bool) -> (r: Pass)
    ensures
        r == solo_pass(ball_cam),
{
    Pass { vp: Viewport::full(), seat: 0, ball_cam, camera_slot: 0 }
}

/// Two players' frame: a half each, player one on top unless they are swapped.
/// A player keeps their own car, camera and choice of ball cam whichever half
/// they sit at.
pub open spec fn split_passes(ball_cam: (bool, bool), swapped: bool) -> (Pass, Pass) {
    if swapped {
        (
            Pass { vp: view::upper(), seat: 1, ball_cam: ball_cam.1, camera_slot: 1 },
            Pass { vp: view::lower(), seat: 0, ball_cam: ball_cam.0, camera_slot: 0 },
        )
    } else {
        (
            Pass { vp: view::upper(), seat: 0, ball_cam: ball_cam.0, camera_slot: 0 },
            Pass { vp: view::lower(), seat: 1, ball_cam: ball_cam.1, camera_slot: 1 },
        )
    }
}

/// One frame of a two-player match: two full passes, in the order they are
/// drawn.
pub fn render_split(ball_cam: (bool, bool), swapped: bool) -> (r: (Pass, Pass))
    ensures
        r == split_passes(ball_cam, swapped),
{
    let (near, far): (usize, usize) = if swapped {
        (1, 0)
    } else {
        (0, 1)
    };
    let (near_cam, far_cam) = if swapped {
        (ball_cam.1, ball_cam.0)
    } else {
        (ball_cam.0, ball_cam.1)
    };
    (
        Pass { vp: Viewport::top(), seat: near, ball_cam: near_cam, camera_slot: near },
        Pass { vp: Viewport::bottom(), seat: far, ball_cam: far_cam, camera_slot: far },
    )
}

/// Swapping sides swaps the halves of the screen and nothing else: the players
/// keep their cars, their cameras and their ball cams.
pub proof fn law_swapping_sides_only_moves_the_pictures(ball_cam: (bool, bool))
    ensures
        split_passes(ball_cam, true).0 == (Pass {
            vp: view::upper(),
            ..split_passes(ball_cam, false).1
        }),
        split_passes(ball_cam, true).1 == (Pass {
            vp: view::lower(),
            ..split_passes(ball_cam, false).0
        }),
{
}

// ---- where from ------------------------------------------------------------

/// What a view is filmed from, and what is left in the tank of the car it
/// follows.
#[derive(Copy, Clone, Debug, PartialEq, Eq, Structural)]
pub struct Shot {
    /// The camera.
    pub view: Sight,
    /// Whole pips of boost.
    pub boost: i32,
}

/// The car a view follows.
pub open spec fn subject(s: Sim, seat: usize) -> Car {
    if seat == 0 {
        s.car
    } else {
        s.opponent
    }
}

/// What a view's camera is asked to film. A goal puts every camera on the ball.
pub open spec fn scene_of(s: Sim, pass: Pass) -> Scene {
    Scene {
        ball: s.ball,
        car: subject(s, pass.seat),
        ball_cam: pass.ball_cam || s.goal_freeze > 0,
        hold_car: s.goal_freeze == 0,
        close: false,
    }
}

/// Everything is where a camera can film it.
pub open spec fn filmable(s: Sim) -> bool {
    &&& s.ball.p.within(FILM_LIMIT as int)
    &&& s.car.p.within(FILM_LIMIT as int)
    &&& s.car.up.within(4096)
    &&& s.opponent.p.within(FILM_LIMIT as int)
    &&& s.opponent.up.within(4096)
}

/// Whether everything is where a camera can film it.
pub fn can_film(s: &Sim) -> (r: bool)
    ensures
        r == filmable(*s),
{
    fits(s.ball.p, FILM_LIMIT) && fits(s.car.p, FILM_LIMIT) && fits(s.car.up, 4096) && fits(
        s.opponent.p,
        FILM_LIMIT,
    ) && fits(s.opponent.up, 4096)
}

fn find_scene(s: &Sim, pass: &Pass) -> (r: Scene)
    ensures
        r == scene_of(*s, *pass),
{
    let celebrating = s.goal_freeze > 0;
    Scene {
        ball: s.ball,
        car: if pass.seat == 0 {
            s.car
        } else {
            s.opponent
        },
        ball_cam: pass.ball_cam || celebrating,
        hold_car: !celebrating,
        close: false,
    }
}

/// Where one view of the match is filmed from, and what its camera remembers.
pub fn render_view<F: Fn(i32, i32) -> u16>(
    trig: &Trig<F>,
    s: &Sim,
    pass: &Pass,
    prev: &CameraState,
) -> (r: (Shot, CameraState))
    requires
        trig.wf(),
        filmable(*s),
        prev.wf(),
    ensures
        r.0.view == camera::filmed(trig.model(), scene_of(*s, *pass), *prev),
        r.0.boost == num::tdiv(
            subject(*s, pass.seat).boost as int,
            BOOST_SCALE as int,
        ),
        r.1 == camera::remembered(trig.model(), scene_of(*s, *pass), *prev),
        r.0.view.wf(),
        r.0.view.eye.within(16000),
        r.1.wf(),
{
    let scene = find_scene(s, pass);
    let (view, next) = camera(trig, &scene, prev);
    (Shot { view, boost: scene.car.boost / BOOST_SCALE }, next)
}

/// Where one view is filmed from close on the wheels, and what its camera
/// remembers.
pub fn render_close_view<F: Fn(i32, i32) -> u16>(
    trig: &Trig<F>,
    s: &Sim,
    pass: &Pass,
    prev: &CameraState,
) -> (r: (Shot, CameraState))
    requires
        trig.wf(),
        filmable(*s),
        prev.wf(),
    ensures
        r.0.view == camera::filmed(
            trig.model(),
            (Scene { close: true, ..scene_of(*s, *pass) }),
            *prev,
        ),
        r.0.boost == num::tdiv(
            subject(*s, pass.seat).boost as int,
            BOOST_SCALE as int,
        ),
        r.1 == camera::remembered(
            trig.model(),
            (Scene { close: true, ..scene_of(*s, *pass) }),
            *prev,
        ),
        r.0.view.wf(),
        r.0.view.eye.within(16000),
        r.1.wf(),
{
    let scene = find_scene(s, pass);
    let (view, next) = close_camera(trig, &scene, prev);
    (Shot { view, boost: scene.car.boost / BOOST_SCALE }, next)
}

/// Every goal is watched: whatever a player drives with, every view turns onto
/// the ball while the match is frozen, and off it again after.
pub proof fn law_a_goal_turns_every_camera(s: Sim, pass: Pass)
    ensures
        s.goal_freeze > 0 ==> scene_of(s, pass).ball_cam && !scene_of(s, pass).hold_car,
        s.goal_freeze == 0 ==> scene_of(s, pass).ball_cam == pass.ball_cam && scene_of(
            s,
            pass,
        ).hold_car,
{
}

/// Where the front end is filmed from: straight down the pitch from the middle.
pub fn render_menu<F: Fn(i32, i32) -> u16>(trig: &Trig<F>) -> (r: Sight)
    requires
        trig.wf(),
    ensures
        r == camera::looking(trig.model(), vec3::v3(0, -150, -520), 0, 168),
        r.wf(),
        r.eye.within(16000),
{
    look_from(
        trig,
        V3::new(0, -STAGE_CAM_UP, STAGE_Z - STAGE_CAM_BACK),
        0,
        STAGE_CAM_PITCH,
    )
}

// ---- what goes into one ----------------------------------------------------

/// The lenses a view is drawn through: the world's, and one that stands where
/// each moving thing does.
pub struct Lenses<P> {
    /// The world.
    pub world: Lens<P>,
    /// The ball.
    pub ball: Lens<P>,
    /// Seat 0's car.
    pub one: Lens<P>,
    /// Seat 1's car.
    pub two: Lens<P>,
}

impl<P: Fn(V3) -> Dot> Lenses<P> {
    /// Every lens takes every point to one place.
    pub open spec fn wf(&self) -> bool {
        self.world.wf() && self.ball.wf() && self.one.wf() && self.two.wf()
    }
}

/// The sky: a gradient over the view, behind everything.
pub open spec fn sky(v: Sight, vp: Viewport, time: view::ArenaTime) -> ScreenQuad {
    let (x1, y1) = ((vp.x + vp.w) as i16, (vp.y + vp.h) as i16);
    ScreenQuad {
        slot: SKY_SLOT,
        a: (vp.x, vp.y),
        b: (x1, vp.y),
        c: (vp.x, y1),
        d: (x1, y1),
        tint: light::sky_of(v, time),
    }
}

/// The line between two views. Each half draws its own side of it.
pub open spec fn seam(vp: Viewport) -> Seq<ScreenQuad> {
    if vp.h < SCREEN_H {
        let inner = if vp.y == 0 {
            vp.h as int
        } else {
            vp.y as int
        };
        let (y0, y1) = ((inner - 2) as i16, (inner + 2) as i16);
        seq![
            ScreenQuad {
                slot: SPLIT_SEAM_SLOT,
                a: (0, y0),
                b: (SCREEN_W, y0),
                c: (0, y1),
                d: (SCREEN_W, y1),
                tint: lens::flat((10, 12, 20)),
            },
        ]
    } else {
        Seq::empty()
    }
}

fn backdrop(view: &Sight, vp: Viewport, time: view::ArenaTime) -> (r: Vec<ScreenQuad>)
    requires
        view.wf(),
        vp.on_screen(),
    ensures
        r@ == seq![sky(*view, vp, time)] + seam(vp),
{
    let mut out: Vec<ScreenQuad> = Vec::new();
    let (x1, y1): (i16, i16) = (vp.x + vp.w, vp.y + vp.h);
    out.push(
        ScreenQuad {
            slot: SKY_SLOT,
            a: (vp.x, vp.y),
            b: (x1, vp.y),
            c: (vp.x, y1),
            d: (x1, y1),
            tint: arena_sky(view, time),
        },
    );
    if vp.h < SCREEN_H {
        let inner: i16 = if vp.y == 0 {
            vp.h
        } else {
            vp.y
        };
        let (y0, y1): (i16, i16) = (inner - SPLIT_SEAM_W, inner + SPLIT_SEAM_W);
        out.push(
            ScreenQuad {
                slot: SPLIT_SEAM_SLOT,
                a: (0, y0),
                b: (SCREEN_W, y0),
                c: (0, y1),
                d: (SCREEN_W, y1),
                tint: ((10, 12, 20), (10, 12, 20), (10, 12, 20), (10, 12, 20)),
            },
        );
    }
    assert(out@ =~= seq![sky(*view, vp, time)] + seam(vp));
    out
}

/// The view's camera and band of screen.
pub open spec fn cull_of(v: Sight, vp: Viewport) -> Cull {
    Cull { view: v, bounds: view::bounds_of(vp) }
}

/// The match is one a frame can be drawn of: its timers are ones it sets, and
/// everything is on or about the pitch.
pub open spec fn drawable(s: Sim) -> bool {
    &&& s.goal_freeze <= 150
    &&& s.car.demo_timer <= 180
    &&& s.opponent.demo_timer <= 180
    &&& s.ball.p.within(0x8_0000)
    &&& s.car.p.within(0x8_0000)
    &&& s.opponent.p.within(0x8_0000)
}

fn on_pitch(p: V3) -> (r: bool)
    ensures
        r == p.within(0x8_0000),
{
    -0x8_0000 <= p.x && p.x <= 0x8_0000 && -0x8_0000 <= p.y && p.y <= 0x8_0000 && -0x8_0000 <= p.z
        && p.z <= 0x8_0000
}

/// Whether a frame can be drawn of a match.
pub fn can_draw(s: &Sim) -> (r: bool)
    ensures
        r == drawable(*s),
{
    s.goal_freeze <= 150 && s.car.demo_timer <= 180 && s.opponent.demo_timer <= 180 && on_pitch(
        s.ball.p,
    ) && on_pitch(s.car.p) && on_pitch(s.opponent.p)
}

/// The pitch, its pads, and the walls round it.
#[verifier::opaque]
pub open spec fn arena_part<P: Fn(V3) -> Dot>(
    l: &Lens<P>,
    lights: &light::Lighting,
    s: Sim,
    c: Cull,
) -> Seq<Packet> {
    pitch::tiles(l, light::look_of(lights.time), c, 80) + actors::pads_drawn(l, c, s, 34)
        + enclosure::all_walls(l, lights, c) + enclosure::floodlights(l, c)
}

fn push_arena<P: Fn(V3) -> Dot>(
    out: &mut Vec<Packet>,
    lens: &Lens<P>,
    w: &Walls<'_>,
    s: &Sim,
    cull: &Cull,
)
    requires
        lens.wf(),
        w.wf(),
        cull.wf(),
    ensures
        final(out)@ == old(out)@ + arena_part(lens, w.lights, *s, *cull),
{
    proof {
        reveal(arena_part);
    }
    let ghost before = out@;
    floor(out, lens, w.lights, cull);
    pads(out, lens, s, cull);
    walls(out, lens, w, cull);
    lamps(out, lens, cull);
    assert(out@ =~= before + arena_part(lens, w.lights, *s, *cull));
}

/// The front end's panels over its arena.
#[verifier::opaque]
pub open spec fn front_part(front: FrontPanels, livery: Livery) -> Seq<Packet> {
    lens::all_on_glass(
        match front {
            FrontPanels::Title(menu) => panels::list_panels(panels::rows_drawn(menu), menu),
            FrontPanels::Select(select) => panels::select_fascia(livery, select),
        },
    )
}

/// The select screen's rows are on or about the screen.
pub open spec fn placed(front: FrontPanels) -> bool {
    match front {
        FrontPanels::Title(_) => true,
        FrontPanels::Select(p) => {
            &&& -4096 <= p.top <= 4096
            &&& -2048 <= p.row_step <= 2048
            &&& -8192 <= p.arena_y <= 8192
            &&& -8192 <= p.rule_y <= 8192
        },
    }
}

fn push_front(out: &mut Vec<Packet>, front: &FrontPanels, livery: &Livery)
    requires
        livery.wf(),
        placed(*front),
    ensures
        final(out)@ == old(out)@ + front_part(*front, *livery),
{
    proof {
        reveal(front_part);
    }
    match front {
        FrontPanels::Title(menu) => {
            let q = menu_panels(menu);
            push_glass(out, &q);
        },
        FrontPanels::Select(select) => {
            let q = select_panels(livery, select);
            push_glass(out, &q);
        },
    }
}

/// The match's furniture and fireworks: the boost dial, the scoreboard, a goal's
/// celebration and the cars' wrecks.
#[verifier::opaque]
pub open spec fn match_part<P: Fn(V3) -> Dot>(
    l: &Lens<P>,
    a: Angles,
    s: Sim,
    livery: Livery,
    vp: Viewport,
    boost: int,
) -> Seq<Packet> {
    let b = view::bounds_of(vp);
    lens::all_on_glass(dials::dial(a, vp.x + vp.w - 52, vp.y + vp.h - 50, boost, b.split))
        + lens::all_on_glass(dials::fascia(livery)) + blast::celebration(l, b, a, s, livery)
        + blast::wrecks(l, b, a, s, livery)
}

fn push_match<P: Fn(V3) -> Dot, F: Fn(i32, i32) -> u16>(
    out: &mut Vec<Packet>,
    lens: &Lens<P>,
    trig: &Trig<F>,
    s: &Sim,
    livery: &Livery,
    vp: Viewport,
    bounds: &Bounds,
    boost: i32,
)
    requires
        lens.wf(),
        trig.wf(),
        livery.wf(),
        drawable(*s),
        vp.on_screen(),
        *bounds == view::bounds_of(vp),
        -0x100_0000 <= boost <= 0x100_0000,
    ensures
        final(out)@ == old(out)@ + match_part(
            lens,
            trig.model(),
            *s,
            *livery,
            vp,
            boost as int,
        ),
{
    proof {
        reveal(match_part);
    }
    let ghost before = out@;
    let gauge = boost_gauge(trig, boost_gauge_x(vp), boost_gauge_y(vp), boost, bounds.split);
    push_glass(out, &gauge);
    let plate = scoreboard(livery);
    push_glass(out, &plate);
    goal_burst(out, lens, bounds, trig, s, livery);
    demo_burst(out, lens, bounds, trig, s, livery);
    assert(out@ =~= before + match_part(lens, trig.model(), *s, *livery, vp, boost as int));
}

/// What casts the ball's shadow.
pub open spec fn ball_caster(s: Sim) -> Caster {
    let p = blast::drawn(s.ball.p);
    Caster { x: p.x, height: (-p.y - 91) as i32, z: p.z, rx: 91, rz: 91, yaw: 0 }
}

/// What casts a car's shadow: its own footprint, turned with it.
pub open spec fn car_caster(c: Car) -> Caster {
    let p = blast::drawn(c.p);
    Caster { x: p.x, height: (-p.y - 28) as i32, z: p.z, rx: 58, rz: 82, yaw: c.yaw }
}

/// A car's shadow, while it is in play.
pub open spec fn car_shade<P: Fn(V3) -> Dot>(
    l: &Lens<P>,
    b: Bounds,
    a: Angles,
    look: light::ArenaLook,
    c: Car,
) -> Seq<Packet> {
    if c.is_wrecked() {
        Seq::empty()
    } else {
        actors::shade_under(l, b, a, look, car_caster(c))
    }
}

/// The roof, the goals, and the shadows under everything that moves.
#[verifier::opaque]
pub open spec fn trim_part<P: Fn(V3) -> Dot>(
    l: &Lens<P>,
    a: Angles,
    lights: &light::Lighting,
    s: Sim,
    c: Cull,
) -> Seq<Packet> {
    let look = light::look_of(lights.time);
    enclosure::roof(l, lights, c) + goals::both_goals(l, c.bounds, lights.livery)
        + actors::shade_under(l, c.bounds, a, look, ball_caster(s)) + car_shade(
        l,
        c.bounds,
        a,
        look,
        s.car,
    ) + car_shade(l, c.bounds, a, look, s.opponent)
}

fn push_car_shade<P: Fn(V3) -> Dot, F: Fn(i32, i32) -> u16>(
    out: &mut Vec<Packet>,
    lens: &Lens<P>,
    trig: &Trig<F>,
    lights: &light::Lighting,
    bounds: &Bounds,
    c: &Car,
)
    requires
        lens.wf(),
        trig.wf(),
        lights.wf(),
        c.p.within(0x8_0000),
    ensures
        final(out)@ == old(out)@ + car_shade(
            lens,
            *bounds,
            trig.model(),
            light::look_of(lights.time),
            *c,
        ),
{
    let ghost before = out@;
    if !c.wrecked() {
        let p = to_drawn(c.p);
        let caster = Caster {
            x: p.x,
            height: -p.y - CAR_REST_Y,
            z: p.z,
            rx: CAR_HALF_W,
            rz: CAR_HALF_L,
            yaw: c.yaw,
        };
        shadow(out, lens, bounds, trig, lights, &caster);
    }
    assert(out@ =~= before + car_shade(
        lens,
        *bounds,
        trig.model(),
        light::look_of(lights.time),
        *c,
    ));
}

fn push_trim<P: Fn(V3) -> Dot, F: Fn(i32, i32) -> u16>(
    out: &mut Vec<Packet>,
    lens: &Lens<P>,
    trig: &Trig<F>,
    w: &Walls<'_>,
    s: &Sim,
    cull: &Cull,
)
    requires
        lens.wf(),
        trig.wf(),
        w.wf(),
        cull.wf(),
        w.lights.livery.wf(),
        drawable(*s),
    ensures
        final(out)@ == old(out)@ + trim_part(lens, trig.model(), w.lights, *s, *cull),
{
    proof {
        reveal(trim_part);
    }
    let ghost before = out@;
    ceiling(out, lens, w.lights, cull);
    goals(out, lens, &cull.bounds, &w.lights.livery);
    let p = to_drawn(s.ball.p);
    let caster = Caster {
        x: p.x,
        height: -p.y - BALL_R,
        z: p.z,
        rx: BALL_R,
        rz: BALL_R,
        yaw: 0,
    };
    shadow(out, lens, &cull.bounds, trig, w.lights, &caster);
    push_car_shade(out, lens, trig, w.lights, &cull.bounds, &s.car);
    push_car_shade(out, lens, trig, w.lights, &cull.bounds, &s.opponent);
    assert(out@ =~= before + trim_part(lens, trig.model(), w.lights, *s, *cull));
}

/// A car's plume, while it is in play.
pub open spec fn car_plume<P: Fn(V3) -> Dot>(l: &Lens<P>, b: Bounds, v: Sight, c: Car) -> Seq<
    Packet,
> {
    if c.is_wrecked() {
        Seq::empty()
    } else {
        actors::plume(l, b, c, cull::camera_space(v, actors::ground_of(c)).z as int)
    }
}

fn push_car_plume<P: Fn(V3) -> Dot>(
    out: &mut Vec<Packet>,
    lens: &Lens<P>,
    bounds: &Bounds,
    view: &Sight,
    c: &Car,
)
    requires
        lens.wf(),
        view.wf(),
        view.eye.within(16000),
        c.p.within(0x8_0000),
    ensures
        final(out)@ == old(out)@ + car_plume(lens, *bounds, *view, *c),
{
    let ghost before = out@;
    if !c.wrecked() {
        car_flame(out, lens, bounds, view, c);
    }
    assert(out@ =~= before + car_plume(lens, *bounds, *view, *c));
}

/// What stands over the arena: the front end's panels, or the match's furniture.
#[verifier::opaque]
pub open spec fn over_part<P: Fn(V3) -> Dot>(
    l: &Lens<P>,
    a: Angles,
    s: Sim,
    livery: Livery,
    vp: Viewport,
    front: Option<FrontPanels>,
    boost: int,
) -> Seq<Packet> {
    match front {
        Some(p) => front_part(p, livery),
        None => match_part(l, a, s, livery, vp, boost),
    }
}

/// The ball and the cars' plumes.
#[verifier::opaque]
pub open spec fn moving_part<P: Fn(V3) -> Dot>(
    l: &Lenses<P>,
    mesh: Seq<V3>,
    world: Mat3,
    s: Sim,
    v: Sight,
    b: Bounds,
) -> Seq<Packet> {
    sphere::bands(&l.ball, mesh, world, sphere::to_eye(v, s), b.split, 5) + car_plume(
        &l.one,
        b,
        v,
        s.car,
    ) + car_plume(&l.two, b, v, s.opponent)
}

fn push_over<P: Fn(V3) -> Dot, F: Fn(i32, i32) -> u16>(
    out: &mut Vec<Packet>,
    lens: &Lens<P>,
    trig: &Trig<F>,
    s: &Sim,
    livery: &Livery,
    vp: Viewport,
    bounds: &Bounds,
    front: &Option<FrontPanels>,
    boost: i32,
)
    requires
        lens.wf(),
        trig.wf(),
        livery.wf(),
        drawable(*s),
        vp.on_screen(),
        *bounds == view::bounds_of(vp),
        front matches Some(p) ==> placed(*p),
        -0x100_0000 <= boost <= 0x100_0000,
    ensures
        final(out)@ == old(out)@ + over_part(
            lens,
            trig.model(),
            *s,
            *livery,
            vp,
            *front,
            boost as int,
        ),
{
    proof {
        reveal(over_part);
    }
    match front {
        Some(p) => push_front(out, p, livery),
        None => push_match(out, lens, trig, s, livery, vp, bounds, boost),
    }
}

fn push_moving<P: Fn(V3) -> Dot>(
    out: &mut Vec<Packet>,
    lenses: &Lenses<P>,
    mesh: &Vec<V3>,
    world: &Mat3,
    s: &Sim,
    view: &Sight,
    bounds: &Bounds,
)
    requires
        lenses.wf(),
        sphere::is_mesh(mesh@),
        world.within(32768),
        drawable(*s),
        view.wf(),
        view.eye.within(16000),
    ensures
        final(out)@ == old(out)@ + moving_part(lenses, mesh@, *world, *s, *view, *bounds),
{
    proof {
        reveal(moving_part);
    }
    let ghost before = out@;
    ball(out, &lenses.ball, mesh, world, s, view, bounds.split);
    push_car_plume(out, &lenses.one, bounds, view, &s.car);
    push_car_plume(out, &lenses.two, bounds, view, &s.opponent);
    assert(out@ =~= before + moving_part(lenses, mesh@, *world, *s, *view, *bounds));
}

/// Everything in one view but the cars' meshes, in the order it is filed.
pub open spec fn frame<P: Fn(V3) -> Dot>(
    l: &Lenses<P>,
    a: Angles,
    lights: &light::Lighting,
    mesh: Seq<V3>,
    world: Mat3,
    s: Sim,
    v: Sight,
    vp: Viewport,
    front: Option<FrontPanels>,
    boost: int,
) -> Seq<Packet> {
    let c = cull_of(v, vp);
    lens::all_on_glass(seq![sky(v, vp, lights.time)] + seam(vp)) + arena_part(
        &l.world,
        lights,
        s,
        c,
    ) + over_part(&l.world, a, s, lights.livery, vp, front, boost) + trim_part(
        &l.world,
        a,
        lights,
        s,
        c,
    ) + moving_part(l, mesh, world, s, v, c.bounds)
}

/// Builds one view from an already-chosen camera. The front end's panels take
/// the place of the match's furniture; everything else is the arena exactly as
/// a match draws it.
pub fn build_view<P: Fn(V3) -> Dot, F: Fn(i32, i32) -> u16>(
    out: &mut Vec<Packet>,
    lenses: &Lenses<P>,
    trig: &Trig<F>,
    w: &Walls<'_>,
    mesh: &Vec<V3>,
    world: &Mat3,
    s: &Sim,
    view: &Sight,
    vp: Viewport,
    front: &Option<FrontPanels>,
    boost: i32,
)
    requires
        lenses.wf(),
        trig.wf(),
        w.wf(),
        w.lights.livery.wf(),
        sphere::is_mesh(mesh@),
        world.within(32768),
        drawable(*s),
        view.wf(),
        view.eye.within(16000),
        vp.on_screen(),
        front matches Some(p) ==> placed(*p),
        -0x100_0000 <= boost <= 0x100_0000,
    ensures
        final(out)@ == old(out)@ + frame(
            lenses,
            trig.model(),
            w.lights,
            mesh@,
            *world,
            *s,
            *view,
            vp,
            *front,
            boost as int,
        ),
{
    let ghost before = out@;
    let bounds = Bounds::around(vp);
    let cull = Cull { view: *view, bounds };
    let glass = backdrop(view, vp, w.lights.time);
    push_glass(out, &glass);
    push_arena(out, &lenses.world, w, s, &cull);
    push_over(out, &lenses.world, trig, s, &w.lights.livery, vp, &bounds, front, boost);
    push_trim(out, &lenses.world, trig, w, s, &cull);
    push_moving(out, lenses, mesh, world, s, view, &bounds);
    assert(out@ =~= before + frame(
        lenses,
        trig.model(),
        w.lights,
        mesh@,
        *world,
        *s,
        *view,
        vp,
        *front,
        boost as int,
    ));
}

/// What goes in before the panels or the furniture.
pub open spec fn beneath<P: Fn(V3) -> Dot>(
    l: &Lenses<P>,
    lights: &light::Lighting,
    s: Sim,
    v: Sight,
    vp: Viewport,
) -> Seq<Packet> {
    lens::all_on_glass(seq![sky(v, vp, lights.time)] + seam(vp)) + arena_part(
        &l.world,
        lights,
        s,
        cull_of(v, vp),
    )
}

/// What goes in after them.
pub open spec fn beyond<P: Fn(V3) -> Dot>(
    l: &Lenses<P>,
    a: Angles,
    lights: &light::Lighting,
    mesh: Seq<V3>,
    world: Mat3,
    s: Sim,
    v: Sight,
    vp: Viewport,
) -> Seq<Packet> {
    let c = cull_of(v, vp);
    trim_part(&l.world, a, lights, s, c) + moving_part(l, mesh, world, s, v, c.bounds)
}

/// The menu stands in the same building: with the same camera, what the front
/// end and a match draw differs only in what stands over the arena.
pub proof fn law_the_menu_is_the_same_arena<P: Fn(V3) -> Dot>(
    l: &Lenses<P>,
    a: Angles,
    lights: &light::Lighting,
    mesh: Seq<V3>,
    world: Mat3,
    s: Sim,
    v: Sight,
    vp: Viewport,
    p: FrontPanels,
    boost: int,
)
    ensures
        frame(l, a, lights, mesh, world, s, v, vp, Some(p), boost) == beneath(
            l,
            lights,
            s,
            v,
            vp,
        ) + front_part(p, lights.livery) + beyond(l, a, lights, mesh, world, s, v, vp),
        frame(l, a, lights, mesh, world, s, v, vp, None, boost) == beneath(l, lights, s, v, vp)
            + match_part(&l.world, a, s, lights.livery, vp, boost) + beyond(
            l,
            a,
            lights,
            mesh,
            world,
            s,
            v,
            vp,
        ),
{
    reveal(over_part);
    let head = beneath(l, lights, s, v, vp);
    let tail = beyond(l, a, lights, mesh, world, s, v, vp);
    assert((head + front_part(p, lights.livery)) + tail =~= frame(
        l,
        a,
        lights,
        mesh,
        world,
        s,
        v,
        vp,
        Some(p),
        boost,
    ));
    assert((head + match_part(&l.world, a, s, lights.livery, vp, boost)) + tail =~= frame(
        l,
        a,
        lights,
        mesh,
        world,
        s,
        v,
        vp,
        None,
        boost,
    ));
}

} // verus!
