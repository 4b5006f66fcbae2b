//! The type over the picture: what is written, where, and in what colour.
//!
//! Glyphs are drawn outside, and so is their width decided: a [`Type`] measures
//! a text, and everything here is laid out from those widths.

use vstd::prelude::*;
use crate::car::Car;
use crate::colour::Livery;
use crate::flight::Team;
use crate::game;
use crate::game::{Game, PauseRow, SettingsRow};
use crate::music;
use crate::num;
use crate::num::{clamp_i32, min_i32};
use crate::panels;
use crate::panels::menu_row_y;
use crate::sim::{Sim, WinCondition};
use crate::tuning::{BOOST_MAX_PIPS, BOOST_SCALE, GOAL_FREEZE_TICKS};
use crate::view;
use crate::view::{boost_gauge_x, boost_gauge_y, ArenaTime, Rgb, Viewport, HUD_CENTRE_X};

verus! {

/// The two faces: a wide display one for headings, a compact one for anything
/// read at a glance.
#[derive(Copy, Clone, Debug, PartialEq, Eq, Structural)]
pub enum Font {
    /// Title, menu rows, the goal headline.
    Display,
    /// Score, clock, boost, captions.
    Small,
}

/// Something written.
#[derive(Copy, Clone, Debug, PartialEq, Eq)]
pub enum Text {
    /// A fixed string.
    Word(&'static str),
    /// A number, in decimal.
    Number(u32),
    /// Minutes, a colon, tens and ones of seconds, as character codes.
    Clock(u8, u8, u8),
    /// One letter of the boot splash's line, by its place.
    Letter(usize),
}

/// One piece of type on the screen.
#[derive(Copy, Clone, Debug, PartialEq, Eq)]
pub struct Label {
    /// The face it is set in.
    pub font: Font,
    /// Left edge.
    pub x: i16,
    /// Top edge.
    pub y: i16,
    /// What it says.
    pub text: Text,
    /// Q8 scale: 256 is life size.
    pub scale: u16,
    /// A hard black copy goes one pixel down and right, under it.
    pub shadow: bool,
    /// Its colour.
    pub tint: Rgb,
}

/// A filled rectangle of the screen.
#[derive(Copy, Clone, Debug, PartialEq, Eq)]
pub struct Fill {
    /// Left edge.
    pub x: u16,
    /// Top edge.
    pub y: u16,
    /// Width.
    pub w: u16,
    /// Height.
    pub h: u16,
    /// Its colour.
    pub tint: Rgb,
}

/// Measures text.
pub struct Type<M> {
    measure: M,
}

impl<M: Fn(Font, Text) -> u16> Type<M> {
    /// How wide a text is, in pixels.
    pub closed spec fn width(&self, font: Font, text: Text) -> u16 {
        choose|w: u16| self.measure.ensures((font, text), w)
    }

    /// Every text has one width, and none is wider than the arithmetic holds.
    pub closed spec fn wf(&self) -> bool {
        &&& measures_all(self.measure)
        &&& one_width(self.measure)
        &&& within_reach(self.measure)
    }

    /// Takes the measuring function.
    pub fn new(measure: M) -> (r: Self)
        requires
            measures_all(measure),
            one_width(measure),
            within_reach(measure),
        ensures
            r.wf(),
            forall|f: Font, t: Text, w: u16| #[trigger]
                measure.ensures((f, t), w) ==> r.width(f, t) == w,
    {
        Type { measure }
    }

    /// How wide a text is, in pixels.
    pub fn text_width(&self, font: Font, text: Text) -> (r: i16)
        requires
            self.wf(),
        ensures
            r == self.width(font, text),
            0 <= r <= WIDEST,
    {
        (self.measure)(font, text) as i16
    }
}

/// The widest text the layout can place, in pixels.
pub const WIDEST: u16 = 1000;

/// `f` may be asked about every text.
pub open spec fn measures_all<M: Fn(Font, Text) -> u16>(f: M) -> bool {
    forall|font: Font, text: Text| #[trigger] f.requires((font, text))
}

/// `f` gives each text one width.
pub open spec fn one_width<M: Fn(Font, Text) -> u16>(f: M) -> bool {
    forall|font: Font, text: Text, a: u16, b: u16| #[trigger]
        f.ensures((font, text), a) && #[trigger] f.ensures((font, text), b) ==> a == b
}

/// No text is wider than the layout can place.
pub open spec fn within_reach<M: Fn(Font, Text) -> u16>(f: M) -> bool {
    forall|font: Font, text: Text, a: u16| #[trigger] f.ensures((font, text), a) ==> a <= WIDEST
}

// ---- placing ---------------------------------------------------------------

/// A text with a hard shadow under it.
pub open spec fn shadowed(font: Font, x: int, y: int, text: Text, tint: Rgb) -> Label {
    Label { font, x: x as i16, y: y as i16, text, scale: 256, shadow: true, tint }
}

/// A text without one.
pub open spec fn plain(font: Font, x: int, y: int, text: Text, scale: int, tint: Rgb) -> Label {
    Label { font, x: x as i16, y: y as i16, text, scale: scale as u16, shadow: false, tint }
}

/// A shadowed text centred on a column.
pub open spec fn centred<M: Fn(Font, Text) -> u16>(
    t: &Type<M>,
    font: Font,
    cx: int,
    y: int,
    text: Text,
    tint: Rgb,
) -> Label {
    shadowed(font, cx - t.width(font, text) / 2, y, text, tint)
}

pub(crate) fn cast_shadow(font: Font, x: i16, y: i16, text: Text, tint: Rgb) -> (r: Label)
    ensures
        r == shadowed(font, x as int, y as int, text, tint),
{
    Label { font, x, y, text, scale: 256, shadow: true, tint }
}

pub(crate) fn lay(font: Font, x: i16, y: i16, text: Text, scale: u16, tint: Rgb) -> (r: Label)
    ensures
        r == plain(font, x as int, y as int, text, scale as int, tint),
{
    Label { font, x, y, text, scale, shadow: false, tint }
}

pub(crate) fn centre<M: Fn(Font, Text) -> u16>(
    face: &Type<M>,
    font: Font,
    cx: i16,
    y: i16,
    text: Text,
    tint: Rgb,
) -> (r: Label)
    requires
        face.wf(),
        -1000 <= cx <= 1000,
    ensures
        r == centred(face, font, cx as int, y as int, text, tint),
{
    let w: i16 = face.text_width(font, text);
    cast_shadow(font, cx - w / 2, y, text, tint)
}

/// White on the row that is lit, grey on the others.
pub open spec fn row_tint(lit: bool) -> Rgb {
    if lit {
        (255, 255, 255)
    } else {
        (148, 158, 182)
    }
}

pub(crate) fn tint_row(lit: bool) -> (r: Rgb)
    ensures
        r == row_tint(lit),
{
    if lit {
        (255, 255, 255)
    } else {
        (148, 158, 182)
    }
}

/// The gold of an arrow.
pub open spec fn arrow_gold() -> Rgb {
    (255, 210, 110)
}

/// What to call a seat on screen.
pub open spec fn name_of(seat: int, two_player: bool) -> &'static str {
    if seat == 0 {
        "P1"
    } else if two_player {
        "P2"
    } else {
        "CPU"
    }
}

/// What to call a seat on screen.
pub fn seat_name(game: &Game, seat: usize) -> (r: &'static str)
    ensures
        r == name_of(seat as int, game.two_player),
{
    if seat == 0 {
        "P1"
    } else if game.two_player {
        "P2"
    } else {
        "CPU"
    }
}

// ---- the match -------------------------------------------------------------

/// Column the blue score is centred on.
pub const SCORE_BLUE_X: i16 = 104;
/// Column the orange score is centred on.
pub const SCORE_ORANGE_X: i16 = 216;

/// A score, doubled, centred on its block.
pub open spec fn score_label<M: Fn(Font, Text) -> u16>(
    t: &Type<M>,
    cx: int,
    score: u16,
) -> Label {
    let text = Text::Number(score as u32);
    Label {
        font: Font::Small,
        x: (cx - t.width(Font::Small, text)) as i16,
        y: 3,
        text,
        scale: 512,
        shadow: true,
        tint: (255, 255, 255),
    }
}

/// A clock as text: minutes, and two digits of seconds.
pub open spec fn clock_text(clock: u32) -> Text {
    let secs = clock as int / 60;
    Text::Clock(
        ((48 + (secs / 60) % 256) % 256) as u8,
        (48 + (secs % 60) / 10) as u8,
        (48 + (secs % 60) % 10) as u8,
    )
}

/// The clock's colour: under a minute it flashes.
pub open spec fn clock_tint(clock: u32) -> Rgb {
    if clock >= 3600 {
        (226, 232, 244)
    } else if (clock as int / 15) % 2 == 0 {
        (255, 120, 96)
    } else {
        (255, 196, 170)
    }
}

/// The scores and, between them, the clock or the target.
pub open spec fn score_line<M: Fn(Font, Text) -> u16>(t: &Type<M>, s: Sim) -> Seq<Label> {
    let scores = seq![
        score_label(t, 104, s.score_blue),
        score_label(t, 216, s.score_orange),
    ];
    match s.win_condition {
        WinCondition::TimeLimit(_) => scores + seq![
            centred(t, Font::Small, 160, 8, clock_text(s.clock), clock_tint(s.clock)),
        ],
        WinCondition::GoalLimit(target) => {
            let prefix = Text::Word("TO ");
            let number = Text::Number(target as u32);
            let x = 160 - (t.width(Font::Small, prefix) + t.width(Font::Small, number)) / 2;
            scores + seq![
                shadowed(Font::Small, x, 8, prefix, (226, 232, 244)),
                shadowed(
                    Font::Small,
                    x + t.width(Font::Small, prefix),
                    8,
                    number,
                    (255, 220, 120),
                ),
            ]
        },
    }
}

/// A car's boost, in pips.
pub open spec fn pips(c: Car) -> int {
    num::clamp(num::tdiv(c.boost as int, BOOST_SCALE as int), 0, BOOST_MAX_PIPS as int)
}

/// One player's readouts: the number in the dial, and which camera is on.
pub open spec fn seat_line<M: Fn(Font, Text) -> u16>(
    t: &Type<M>,
    vp: Viewport,
    c: Car,
    ball_cam: bool,
) -> Seq<Label> {
    let dial = seq![
        centred(
            t,
            Font::Small,
            vp.x + vp.w - 52,
            vp.y + vp.h - 56,
            Text::Number(pips(c) as u32),
            (255, 214, 120),
        ),
    ];
    if ball_cam {
        dial + seq![
            shadowed(
                Font::Small,
                vp.x + 8,
                vp.y + vp.h - 22,
                Text::Word("BALL CAM"),
                (146, 202, 255),
            ),
        ]
    } else {
        dial
    }
}

/// The match's readouts. Below the score line everything belongs to a seat, and
/// follows the view that seat looks through.
pub open spec fn hud_labels<M: Fn(Font, Text) -> u16>(t: &Type<M>, g: Game) -> Seq<Label> {
    let top = score_line(t, g.sim);
    if !g.two_player {
        top + seat_line(t, view::whole(), g.sim.car, g.one.ball_cam)
    } else if g.swap_seats {
        top + seat_line(t, view::upper(), g.sim.opponent, g.two.ball_cam) + seat_line(
            t,
            view::lower(),
            g.sim.car,
            g.one.ball_cam,
        )
    } else {
        top + seat_line(t, view::upper(), g.sim.car, g.one.ball_cam) + seat_line(
            t,
            view::lower(),
            g.sim.opponent,
            g.two.ball_cam,
        )
    }
}

fn lay_score<M: Fn(Font, Text) -> u16>(face: &Type<M>, cx: i16, score: u16) -> (r: Label)
    requires
        face.wf(),
        0 <= cx <= 320,
    ensures
        r == score_label(face, cx as int, score),
{
    let text = Text::Number(score as u32);
    let w: i16 = face.text_width(Font::Small, text);
    Label {
        font: Font::Small,
        x: cx - w,
        y: 3,
        text,
        scale: 512,
        shadow: true,
        tint: (255, 255, 255),
    }
}

fn lay_clock<M: Fn(Font, Text) -> u16>(face: &Type<M>, clock: u32) -> (r: Label)
    requires
        face.wf(),
    ensures
        r == centred(face, Font::Small, 160, 8, clock_text(clock), clock_tint(clock)),
{
    let secs: u32 = clock / 60;
    let minutes: u8 = ((secs / 60) % 256) as u8;
    let text = Text::Clock(
        minutes.wrapping_add(48),
        (48 + (secs % 60) / 10) as u8,
        (48 + (secs % 60) % 10) as u8,
    );
    let tint: Rgb = if clock >= 3600 {
        (226, 232, 244)
    } else if (clock / 15) % 2 == 0 {
        (255, 120, 96)
    } else {
        (255, 196, 170)
    };
    centre(face, Font::Small, HUD_CENTRE_X, 8, text, tint)
}

fn push_score_line<M: Fn(Font, Text) -> u16>(out: &mut Vec<Label>, face: &Type<M>, s: &Sim)
    requires
        face.wf(),
        old(out).len() == 0,
    ensures
        final(out)@ == score_line(face, *s),
{
    out.push(lay_score(face, SCORE_BLUE_X, s.score_blue));
    out.push(lay_score(face, SCORE_ORANGE_X, s.score_orange));
    match s.win_condition {
        WinCondition::TimeLimit(_) => {
            out.push(lay_clock(face, s.clock));
        },
        WinCondition::GoalLimit(target) => {
            let prefix = Text::Word("TO ");
            let number = Text::Number(target as u32);
            let pw: i16 = face.text_width(Font::Small, prefix);
            let nw: i16 = face.text_width(Font::Small, number);
            let x: i16 = HUD_CENTRE_X - (pw + nw) / 2;
            out.push(cast_shadow(Font::Small, x, 8, prefix, (226, 232, 244)));
            out.push(cast_shadow(Font::Small, x + pw, 8, number, (255, 220, 120)));
        },
    }
    assert(out@ =~= score_line(face, *s));
}

fn push_seat_line<M: Fn(Font, Text) -> u16>(
    out: &mut Vec<Label>,
    face: &Type<M>,
    vp: Viewport,
    car: &Car,
    ball_cam: bool,
)
    requires
        face.wf(),
        vp.on_screen(),
    ensures
        final(out)@ == old(out)@ + seat_line(face, vp, *car, ball_cam),
{
    let ghost before = out@;
    let n: i32 = clamp_i32(car.boost / BOOST_SCALE, 0, BOOST_MAX_PIPS);
    let cx: i16 = boost_gauge_x(vp);
    let cy: i16 = boost_gauge_y(vp);
    out.push(centre(face, Font::Small, cx, cy - 6, Text::Number(n as u32), (255, 214, 120)));
    if ball_cam {
        out.push(
            cast_shadow(
                Font::Small,
                vp.x + 8,
                vp.y + vp.h - 22,
                Text::Word("BALL CAM"),
                (146, 202, 255),
            ),
        );
    }
    assert(out@ =~= before + seat_line(face, vp, *car, ball_cam));
}

/// The match's readouts: both scores, the clock or the target, and each
/// player's boost and camera.
pub fn draw_hud<M: Fn(Font, Text) -> u16>(game: &Game, face: &Type<M>) -> (r: Vec<Label>)
    requires
        face.wf(),
    ensures
        r@ == hud_labels(face, *game),
{
    let mut out: Vec<Label> = Vec::new();
    let s = &game.sim;
    push_score_line(&mut out, face, s);
    if !game.two_player {
        push_seat_line(&mut out, face, Viewport::full(), &s.car, game.one.ball_cam);
    } else if game.swap_seats {
        push_seat_line(&mut out, face, Viewport::top(), &s.opponent, game.two.ball_cam);
        push_seat_line(&mut out, face, Viewport::bottom(), &s.car, game.one.ball_cam);
    } else {
        push_seat_line(&mut out, face, Viewport::top(), &s.car, game.one.ball_cam);
        push_seat_line(&mut out, face, Viewport::bottom(), &s.opponent, game.two.ball_cam);
    }
    out
}

/// How big the goal headline has grown, Q8: it lands rather than appears.
pub open spec fn banner_scale(freeze: int) -> int {
    num::min(256 + (GOAL_FREEZE_TICKS - freeze) * 16, 448)
}

/// The seat credited with the goal.
pub open spec fn scorer(s: Sim) -> int {
    match s.last_scorer {
        Team::Blue => 0,
        Team::Orange => 1,
    }
}

/// The goal headline: who scored, in their colour.
pub open spec fn banner_labels<M: Fn(Font, Text) -> u16>(
    t: &Type<M>,
    g: Game,
    l: Livery,
) -> Seq<Label> {
    let name = Text::Word(name_of(scorer(g.sim), g.two_player));
    let tail = Text::Word(" SCORED");
    let grow = banner_scale(g.sim.goal_freeze as int);
    let w = ((t.width(Font::Display, name) + t.width(Font::Display, tail)) * grow) / 256;
    let x = 160 - w / 2;
    seq![
        plain(Font::Display, x, 34, name, grow, l.signal_of(scorer(g.sim))),
        plain(
            Font::Display,
            x + (t.width(Font::Display, name) * grow) / 256,
            34,
            tail,
            grow,
            (240, 240, 220),
        ),
    ]
}

/// The goal headline. It names the team credited, so an own goal reads as the
/// other side scoring.
pub fn draw_goal_banner<M: Fn(Font, Text) -> u16>(
    game: &Game,
    livery: &Livery,
    face: &Type<M>,
) -> (r: Vec<Label>)
    requires
        face.wf(),
        livery.wf(),
        game.sim.goal_freeze <= GOAL_FREEZE_TICKS,
    ensures
        r@ == banner_labels(face, *game, *livery),
{
    let seat: usize = match game.sim.last_scorer {
        Team::Blue => 0,
        Team::Orange => 1,
    };
    let name = Text::Word(seat_name(game, seat));
    let tail = Text::Word(" SCORED");
    let age: i32 = (GOAL_FREEZE_TICKS - game.sim.goal_freeze) as i32;
    let grow: i32 = min_i32(256 + age * 16, 448);
    let nw: i32 = face.text_width(Font::Display, name) as i32;
    let tw: i32 = face.text_width(Font::Display, tail) as i32;
    assert(0 <= (nw + tw) * grow <= 2000 * 448) by (nonlinear_arith)
        requires
            0 <= nw + tw <= 2000,
            0 <= grow <= 448,
    ;
    assert(0 <= nw * grow <= 1000 * 448) by (nonlinear_arith)
        requires
            0 <= nw <= 1000,
            0 <= grow <= 448,
    ;
    let w: i32 = (nw + tw) * grow / 256;
    let x: i16 = (160 - w / 2) as i16;
    let mut out: Vec<Label> = Vec::new();
    out.push(lay(Font::Display, x, 34, name, grow as u16, livery.seat_signal(seat)));
    let along: i16 = (nw * grow / 256) as i16;
    out.push(lay(Font::Display, x + along, 34, tail, grow as u16, (240, 240, 220)));
    assert(out@ =~= banner_labels(face, *game, *livery));
    out
}

// ---- the front end ---------------------------------------------------------

/// The menu's rows.
pub open spec fn menu_word(row: int) -> &'static str {
    if row == 0 {
        "MATCH"
    } else if row == 1 {
        "PRACTICE"
    } else {
        "SETTINGS"
    }
}

/// A triangle wave, so the title's colour breathes rather than snapping.
pub open spec fn breath(tick: u32) -> int {
    let phase = (tick as int / 2) % 64;
    if phase < 32 {
        phase
    } else {
        64 - phase
    }
}

/// The title and the menu rows.
pub open spec fn title_labels(g: Game, tick: u32) -> Seq<Label> {
    let name = Text::Word("NITROXIDE");
    let wave = breath(tick);
    seq![
        plain(Font::Display, 13, 13, name, 352, (0, 0, 0)),
        plain(Font::Display, 12, 12, name, 352, (0, 0, 0)),
        plain(
            Font::Display,
            10,
            10,
            name,
            352,
            ((110 + wave * 4) as u8, (188 + wave) as u8, 255),
        ),
        shadowed(
            Font::Display,
            26,
            panels::row_top(0) + 5,
            Text::Word(menu_word(0)),
            row_tint(g.menu == 0),
        ),
        shadowed(
            Font::Display,
            26,
            panels::row_top(1) + 5,
            Text::Word(menu_word(1)),
            row_tint(g.menu == 1),
        ),
        shadowed(
            Font::Display,
            26,
            panels::row_top(2) + 5,
            Text::Word(menu_word(2)),
            row_tint(g.menu == 2),
        ),
    ]
}

/// The title, breathing, over two offset copies, and the menu rows on their
/// panels.
pub fn draw_title(game: &Game, tick: u32) -> (r: Vec<Label>)
    ensures
        r@ == title_labels(*game, tick),
{
    let phase: u32 = (tick / 2) % 64;
    let wave: u32 = if phase < 32 {
        phase
    } else {
        64 - phase
    };
    let name = Text::Word("NITROXIDE");
    let mut out: Vec<Label> = Vec::new();
    out.push(lay(Font::Display, 13, 13, name, 352, (0, 0, 0)));
    out.push(lay(Font::Display, 12, 12, name, 352, (0, 0, 0)));
    out.push(
        lay(Font::Display, 10, 10, name, 352, ((110 + wave * 4) as u8, (188 + wave) as u8, 255)),
    );
    out.push(
        cast_shadow(
            Font::Display,
            26,
            menu_row_y(0) + 5,
            Text::Word("MATCH"),
            tint_row(game.menu == 0),
        ),
    );
    out.push(
        cast_shadow(
            Font::Display,
            26,
            menu_row_y(1) + 5,
            Text::Word("PRACTICE"),
            tint_row(game.menu == 1),
        ),
    );
    out.push(
        cast_shadow(
            Font::Display,
            26,
            menu_row_y(2) + 5,
            Text::Word("SETTINGS"),
            tint_row(game.menu == 2),
        ),
    );
    assert(out@ =~= title_labels(*game, tick));
    out
}

/// What the results say, and in what colour.
pub open spec fn verdict(s: Sim) -> (&'static str, Rgb) {
    if s.score_blue > s.score_orange {
        ("WINNER", (140, 240, 160))
    } else if s.score_blue < s.score_orange {
        ("DEFEAT", (240, 130, 130))
    } else {
        ("DRAW", (230, 230, 150))
    }
}

/// The results.
pub open spec fn results_labels(s: Sim) -> Seq<Label> {
    seq![
        plain(Font::Display, 96, 48, Text::Word(verdict(s).0), 448, verdict(s).1),
        plain(Font::Small, 84, 120, Text::Word("GOALS"), 256, (160, 175, 205)),
        plain(Font::Small, 200, 120, Text::Number(s.score_blue as u32), 256, (245, 245, 190)),
        plain(Font::Small, 84, 144, Text::Word("CONCEDED"), 256, (160, 175, 205)),
        plain(Font::Small, 200, 144, Text::Number(s.score_orange as u32), 256, (245, 245, 190)),
        plain(Font::Small, 92, 206, Text::Word("PRESS START"), 256, (230, 230, 160)),
    ]
}

/// The results: the verdict from player one's side, and both scores.
pub fn draw_results(s: &Sim) -> (r: Vec<Label>)
    ensures
        r@ == results_labels(*s),
{
    let (word, tint): (&'static str, Rgb) = if s.score_blue > s.score_orange {
        ("WINNER", (140, 240, 160))
    } else if s.score_blue < s.score_orange {
        ("DEFEAT", (240, 130, 130))
    } else {
        ("DRAW", (230, 230, 150))
    };
    let mut out: Vec<Label> = Vec::new();
    out.push(lay(Font::Display, 96, 48, Text::Word(word), 448, tint));
    out.push(lay(Font::Small, 84, 120, Text::Word("GOALS"), 256, (160, 175, 205)));
    out.push(
        lay(Font::Small, 200, 120, Text::Number(s.score_blue as u32), 256, (245, 245, 190)),
    );
    out.push(lay(Font::Small, 84, 144, Text::Word("CONCEDED"), 256, (160, 175, 205)));
    out.push(
        lay(Font::Small, 200, 144, Text::Number(s.score_orange as u32), 256, (245, 245, 190)),
    );
    out.push(lay(Font::Small, 92, 206, Text::Word("PRESS START"), 256, (230, 230, 160)));
    assert(out@ =~= results_labels(*s));
    out
}

// ---- menus over a held frame -----------------------------------------------

/// The pause menu's left edge and width.
pub const PAUSE_X: i16 = 64;
/// The pause menu's width.
pub const PAUSE_W: i16 = 192;
/// The settings panel's left edge.
pub const SETTINGS_X: i16 = 48;
/// The settings panel's width: a song's row is longer than any pause row.
pub const SETTINGS_W: i16 = 224;

/// Height of a plate with this many rows.
pub open spec fn plate_h(rows: int) -> int {
    56 + rows * 16
}

/// Top of a plate with this many rows, centred on the screen.
pub open spec fn plate_y(rows: int) -> int {
    (240 - plate_h(rows)) / 2
}

/// A plate: a dark border, and the panel inside it.
pub open spec fn plate_fills(x: int, w: int, rows: int) -> Seq<Fill> {
    let y = plate_y(rows);
    let h = plate_h(rows);
    seq![
        Fill { x: x as u16, y: y as u16, w: w as u16, h: h as u16, tint: (10, 12, 22) },
        Fill {
            x: (x + 4) as u16,
            y: (y + 4) as u16,
            w: (w - 8) as u16,
            h: (h - 8) as u16,
            tint: (24, 28, 44),
        },
    ]
}

fn lay_plate(x: i16, w: i16, rows: usize) -> (r: Vec<Fill>)
    requires
        0 <= x <= 320,
        8 <= w <= 320,
        rows <= 8,
    ensures
        r@ == plate_fills(x as int, w as int, rows as int),
{
    let h: u16 = 56 + rows as u16 * 16;
    let y: u16 = (240 - h) / 2;
    let mut out: Vec<Fill> = Vec::new();
    out.push(Fill { x: x as u16, y, w: w as u16, h, tint: (10, 12, 22) });
    out.push(
        Fill {
            x: x as u16 + 4,
            y: y + 4,
            w: w as u16 - 8,
            h: h - 8,
            tint: (24, 28, 44),
        },
    );
    assert(out@ =~= plate_fills(x as int, w as int, rows as int));
    out
}

/// What a pause row says.
pub open spec fn pause_word(row: PauseRow, swapped: bool) -> &'static str {
    match row {
        PauseRow::Resume => "RESUME",
        PauseRow::Swap => if swapped {
            "SIDES: P2 P1"
        } else {
            "SIDES: P1 P2"
        },
        PauseRow::Settings => "SETTINGS",
        PauseRow::Quit => "QUIT TO MENU",
    }
}

fn pause_label(row: PauseRow, swapped: bool) -> (r: &'static str)
    ensures
        r == pause_word(row, swapped),
{
    match row {
        PauseRow::Resume => "RESUME",
        PauseRow::Swap => if swapped {
            "SIDES: P2 P1"
        } else {
            "SIDES: P1 P2"
        },
        PauseRow::Settings => "SETTINGS",
        PauseRow::Quit => "QUIT TO MENU",
    }
}

/// The arrow in front of a row, on the row that is lit.
pub open spec fn arrow(x: int, y: int, lit: bool) -> Seq<Label> {
    if lit {
        seq![shadowed(Font::Small, x + 14, y, Text::Word(">"), arrow_gold())]
    } else {
        Seq::empty()
    }
}

/// The first `n` rows of the pause menu.
pub open spec fn pause_rows_shown(g: Game, n: nat) -> Seq<Label>
    decreases n,
{
    if n == 0 {
        Seq::empty()
    } else {
        let i = n - 1;
        let rows = game::pause_list(g.two_player);
        let y = plate_y(rows.len() as int) + 40 + i * 16;
        pause_rows_shown(g, i as nat) + arrow(64, y, i == g.pause_row) + seq![
            shadowed(
                Font::Small,
                92,
                y,
                Text::Word(pause_word(rows[i], g.swap_seats)),
                row_tint(i == g.pause_row),
            ),
        ]
    }
}

/// The pause menu.
pub open spec fn pause_labels(g: Game) -> Seq<Label> {
    let n = game::pause_list(g.two_player).len();
    seq![
        shadowed(
            Font::Display,
            110,
            plate_y(n as int) + 12,
            Text::Word("PAUSED"),
            (255, 255, 255),
        ),
    ] + pause_rows_shown(g, n)
}

/// The pause menu: its plate, and what is written on it.
pub fn draw_pause_menu(game: &Game) -> (r: (Vec<Fill>, Vec<Label>))
    ensures
        r.0@ == plate_fills(64, 192, game::pause_list(game.two_player).len() as int),
        r.1@ == pause_labels(*game),
{
    let rows = game.pause_rows();
    let n: usize = rows.len();
    let fills = lay_plate(PAUSE_X, PAUSE_W, n);
    let top: i16 = (240 - (56 + n as i16 * 16)) / 2;
    assert(top == plate_y(n as int));
    let mut out: Vec<Label> = Vec::new();
    out.push(
        cast_shadow(Font::Display, PAUSE_X + 46, top + 12, Text::Word("PAUSED"), (255, 255, 255)),
    );
    let ghost first = out@;
    let mut i: usize = 0;
    while i < n
        invariant
            i <= n,
            n == rows.len() <= 4,
            rows@ == game::pause_list(game.two_player),
            top == plate_y(n as int),
            first.len() == 1,
            out@ == first + pause_rows_shown(*game, i as nat),
        decreases n - i,
    {
        let ghost before = out@;
        let y: i16 = top + 40 + i as i16 * 16;
        let lit = i == game.pause_row;
        if lit {
            out.push(cast_shadow(Font::Small, PAUSE_X + 14, y, Text::Word(">"), (255, 210, 110)));
        }
        out.push(
            cast_shadow(
                Font::Small,
                PAUSE_X + 28,
                y,
                Text::Word(pause_label(rows[i], game.swap_seats)),
                tint_row(lit),
            ),
        );
        i += 1;
        assert(out@ =~= first + pause_rows_shown(*game, i as nat));
    }
    assert(out@ =~= pause_labels(*game));
    (fills, out)
}

/// What a settings row says: its label, and its value.
pub open spec fn setting_words(g: Game, row: SettingsRow) -> (&'static str, &'static str) {
    match row {
        SettingsRow::Arena => (
            "ARENA: ",
            match g.arena_time {
                ArenaTime::Day => "DAY",
                ArenaTime::Sunset => "SUNSET",
                ArenaTime::Night => "NIGHT",
            },
        ),
        SettingsRow::Sound => (
            "SOUND: ",
            if g.muted {
                "OFF"
            } else {
                "ON"
            },
        ),
        SettingsRow::Music => (
            "MUSIC: ",
            if g.music.enabled {
                "ON"
            } else {
                "OFF"
            },
        ),
        SettingsRow::Track => ("TRACK: ", music::song_title(g.music.index)),
        SettingsRow::Back => ("BACK", ""),
    }
}

fn setting_text(game: &Game, row: SettingsRow) -> (r: (&'static str, &'static str))
    requires
        game.music.wf(),
    ensures
        r == setting_words(*game, row),
{
    match row {
        SettingsRow::Arena => (
            "ARENA: ",
            match game.arena_time {
                ArenaTime::Day => "DAY",
                ArenaTime::Sunset => "SUNSET",
                ArenaTime::Night => "NIGHT",
            },
        ),
        SettingsRow::Sound => (
            "SOUND: ",
            if game.muted {
                "OFF"
            } else {
                "ON"
            },
        ),
        SettingsRow::Music => (
            "MUSIC: ",
            if game.music.enabled() {
                "ON"
            } else {
                "OFF"
            },
        ),
        SettingsRow::Track => ("TRACK: ", game.music.track_name()),
        SettingsRow::Back => ("BACK", ""),
    }
}

/// The highlighted settings row.
pub open spec fn setting_lit(g: Game) -> int {
    match g.settings {
        Some(row) => row as int,
        None => 0,
    }
}

/// One row of the settings panel. The value follows its label.
pub open spec fn setting_labels<M: Fn(Font, Text) -> u16>(
    t: &Type<M>,
    g: Game,
    i: int,
) -> Seq<Label> {
    let rows = game::settings_list(g.music.available);
    let y = plate_y(rows.len() as int) + 40 + i * 16;
    let lit = i == setting_lit(g);
    let (label, value) = setting_words(g, rows[i]);
    arrow(48, y, lit) + seq![
        shadowed(Font::Small, 76, y, Text::Word(label), row_tint(lit)),
        shadowed(
            Font::Small,
            76 + t.width(Font::Small, Text::Word(label)),
            y,
            Text::Word(value),
            row_tint(lit),
        ),
    ]
}

/// The first `n` rows of the settings panel.
pub open spec fn settings_rows_shown<M: Fn(Font, Text) -> u16>(
    t: &Type<M>,
    g: Game,
    n: nat,
) -> Seq<Label>
    decreases n,
{
    if n == 0 {
        Seq::empty()
    } else {
        settings_rows_shown(t, g, (n - 1) as nat) + setting_labels(t, g, n - 1)
    }
}

/// The settings panel.
pub open spec fn settings_labels<M: Fn(Font, Text) -> u16>(t: &Type<M>, g: Game) -> Seq<Label> {
    let n = game::settings_list(g.music.available).len();
    let title = Text::Word("SETTINGS");
    seq![
        shadowed(
            Font::Display,
            48 + num::tdiv(224 - t.width(Font::Display, title), 2),
            plate_y(n as int) + 12,
            title,
            (255, 255, 255),
        ),
    ] + settings_rows_shown(t, g, n)
}

fn push_setting<M: Fn(Font, Text) -> u16>(
    out: &mut Vec<Label>,
    game: &Game,
    face: &Type<M>,
    row: SettingsRow,
    i: usize,
    y: i16,
)
    requires
        face.wf(),
        game.music.wf(),
        i < game::settings_list(game.music.available).len(),
        row == game::settings_list(game.music.available)[i as int],
        y == plate_y(game::settings_list(game.music.available).len() as int) + 40 + i * 16,
    ensures
        final(out)@ == old(out)@ + setting_labels(face, *game, i as int),
{
    let ghost before = out@;
    let at: usize = match game.settings {
        Some(row) => row,
        None => 0,
    };
    let lit = i == at;
    let (label, value) = setting_text(game, row);
    if lit {
        out.push(cast_shadow(Font::Small, SETTINGS_X + 14, y, Text::Word(">"), (255, 210, 110)));
    }
    let tint = tint_row(lit);
    out.push(cast_shadow(Font::Small, SETTINGS_X + 28, y, Text::Word(label), tint));
    let w: i16 = face.text_width(Font::Small, Text::Word(label));
    out.push(cast_shadow(Font::Small, SETTINGS_X + 28 + w, y, Text::Word(value), tint));
    assert(out@ =~= before + setting_labels(face, *game, i as int));
}

/// The settings panel: its plate, and what is written on it.
pub fn draw_settings<M: Fn(Font, Text) -> u16>(
    game: &Game,
    face: &Type<M>,
) -> (r: (Vec<Fill>, Vec<Label>))
    requires
        face.wf(),
        game.music.wf(),
    ensures
        r.0@ == plate_fills(48, 224, game::settings_list(game.music.available).len() as int),
        r.1@ == settings_labels(face, *game),
{
    let rows = game.settings_rows();
    let n: usize = rows.len();
    let fills = lay_plate(SETTINGS_X, SETTINGS_W, n);
    let top: i16 = (240 - (56 + n as i16 * 16)) / 2;
    assert(top == plate_y(n as int));
    let title = Text::Word("SETTINGS");
    let tw: i16 = face.text_width(Font::Display, title);
    let mut out: Vec<Label> = Vec::new();
    out.push(
        cast_shadow(
            Font::Display,
            SETTINGS_X + (SETTINGS_W - tw) / 2,
            top + 12,
            title,
            (255, 255, 255),
        ),
    );
    let ghost first = out@;
    let mut i: usize = 0;
    while i < n
        invariant
            i <= n,
            n == rows.len() <= 5,
            rows@ == game::settings_list(game.music.available),
            top == plate_y(n as int),
            first.len() == 1,
            face.wf(),
            game.music.wf(),
            out@ == first + settings_rows_shown(face, *game, i as nat),
        decreases n - i,
    {
        let y: i16 = top + 40 + i as i16 * 16;
        push_setting(&mut out, game, face, rows[i], i, y);
        i += 1;
        assert(out@ =~= first + settings_rows_shown(face, *game, i as nat));
    }
    assert(out@ =~= settings_labels(face, *game));
    (fills, out)
}

} // verus!
