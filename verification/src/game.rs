//! The game around the match: the title, the select screen, the match itself,
//! the pause and settings menus, and the results.
//!
//! One tick is [`Game::pace_analog`], then the music, then [`Game::advance`].
//! What has to happen outside comes back as [`Orders`].

use vstd::prelude::*;
use crate::ball::Ball;
use crate::car;
use crate::car::{Car, Input};
use crate::colour::{CAR_COUNT, PAINT_COUNT};
use crate::music;
use crate::music::{DriveOrder, Music};
use crate::pad;
use crate::pad::{read_pad, Edges, Handshake, Held, Presence};
use crate::panels;
use crate::panels::{stage_car_x, MENU_ROWS};
use crate::sim;
use crate::sim::{Sim, WinCondition};
use crate::tick;
use crate::trig::{Angles, Trig};
use crate::tuning::{uu, CAR_REST_Y};
use crate::vec3;
use crate::vec3::V3;
use crate::view;
use crate::view::ArenaTime;

verus! {

/// Ticks the boot splash fades in over.
pub const INTRO_FADE_IN: i32 = 32;
/// Ticks it holds.
pub const INTRO_HOLD: i32 = 74;
/// Ticks it lasts.
pub const INTRO_TOTAL: i32 = 150;
/// Ticks before a press can skip it.
pub const INTRO_GRACE: i32 = 8;

/// Rows each select panel walks: car, paint, and the two shared ones.
pub const SELECT_ROWS: usize = 4;
/// The car row.
pub const ROW_CAR: usize = 0;
/// The paint row.
pub const ROW_PAINT: usize = 1;
/// The shared arena row.
pub const ROW_ARENA: usize = 2;
/// The shared win-condition row.
pub const ROW_RULE: usize = 3;
/// Match rules on offer.
pub const RULE_COUNT: usize = 6;
/// The rule offered first: five minutes.
pub const DEFAULT_MATCH_RULE: usize = 2;
/// The menu row that parks the opponent instead of driving it.
pub const ROW_PRACTICE: usize = 1;
/// The menu row that opens the settings panel.
pub const ROW_SETTINGS: usize = 2;

/// Where the game is.
#[derive(Copy, Clone, Debug, PartialEq, Eq, Structural)]
pub enum Phase {
    /// Boot splash.
    Intro,
    /// The front end.
    Title,
    /// Both seats pick a car and a colour.
    Select,
    /// A match.
    Play,
    /// The score, over the last frame of the match.
    Results,
}

/// One entry in the pause menu.
#[derive(Copy, Clone, Debug, PartialEq, Eq, Structural)]
pub enum PauseRow {
    /// Back to the match.
    Resume,
    /// Change sides of the screen.
    Swap,
    /// Open the settings panel.
    Settings,
    /// Leave the match.
    Quit,
}

/// One entry in the settings panel.
#[derive(Copy, Clone, Debug, PartialEq, Eq, Structural)]
pub enum SettingsRow {
    /// The arena's look.
    Arena,
    /// Sound effects on or off.
    Sound,
    /// Music on or off.
    Music,
    /// Which song.
    Track,
    /// Close the panel.
    Back,
}

/// One player's choices.
#[derive(Copy, Clone, Debug, PartialEq, Eq, Structural)]
pub struct Seat {
    /// Which car the seat drives.
    pub car: usize,
    /// Which paint it wears.
    pub paint: usize,
    /// Highlighted row of its panel.
    pub row: usize,
    /// Locked in.
    pub ready: bool,
    /// Watching the ball rather than the car.
    pub ball_cam: bool,
}

/// What a tick wants done outside.
#[derive(Copy, Clone, Debug, PartialEq, Eq, Structural)]
pub struct Orders {
    /// Silence every voice.
    pub hush: bool,
    /// Sound this tick of the match.
    pub listen: bool,
    /// Turn sound effects off or on.
    pub mute: Option<bool>,
    /// What to ask of the drive.
    pub drive: DriveOrder,
    /// Write the settings out, and report back to [`Game::saved`].
    pub save: bool,
    /// The match could not be stepped within its numbers' range and stands
    /// still.
    pub stuck: bool,
}

/// Everything around the match, and the match.
#[derive(Copy, Clone, Debug)]
pub struct Game {
    /// Ticks since boot, wrapping: paces the analog handshake.
    pub clock: u32,
    /// Port one's handshake.
    pub port_one: Handshake,
    /// Port two's handshake.
    pub port_two: Handshake,
    /// Where the game is.
    pub phase: Phase,
    /// The match.
    pub sim: Sim,
    /// Seat 0, which defends -Z.
    pub one: Seat,
    /// Seat 1, which defends +Z.
    pub two: Seat,
    /// Highlighted menu row.
    pub menu: usize,
    /// The tick the highlight last moved on.
    pub menu_at: u32,
    /// Two pads: player two drives seat 1 and the opponent does not.
    pub two_player: bool,
    /// The match is held and the pause menu is up.
    pub paused: bool,
    /// Highlighted pause row.
    pub pause_row: usize,
    /// The settings panel's highlighted row, while it is open.
    pub settings: Option<usize>,
    /// Player two takes the upper half.
    pub swap_seats: bool,
    /// The music.
    pub music: Music,
    /// The arena's look.
    pub arena_time: ArenaTime,
    /// Which match rule is picked.
    pub match_rule: usize,
    /// Which panel pad one is editing.
    pub focus: usize,
    /// Seed of the opponent's opening car and colour.
    pub seed: u32,
    /// Ticks spent on the boot splash.
    pub intro_t: i32,
    /// Sound effects are off.
    pub muted: bool,
    /// Sound volume, as saved.
    pub sfx_volume: u8,
    /// Music volume, as saved.
    pub music_volume: u8,
    /// A saved setting has changed.
    pub settings_dirty: bool,
}

// ---- lists -----------------------------------------------------------------

/// The match rules on offer. One condition at a time.
pub open spec fn rule_of(i: int) -> WinCondition {
    if i == 0 {
        WinCondition::TimeLimit(3600)
    } else if i == 1 {
        WinCondition::TimeLimit(10_800)
    } else if i == 2 {
        WinCondition::TimeLimit(18_000)
    } else if i == 3 {
        WinCondition::GoalLimit(1)
    } else if i == 4 {
        WinCondition::GoalLimit(3)
    } else {
        WinCondition::GoalLimit(5)
    }
}

/// A match rule on offer.
pub fn match_rule(i: usize) -> (r: WinCondition)
    requires
        i < RULE_COUNT,
    ensures
        r == rule_of(i as int),
{
    match i {
        0 => WinCondition::TimeLimit(3600),
        1 => WinCondition::TimeLimit(10_800),
        2 => WinCondition::TimeLimit(18_000),
        3 => WinCondition::GoalLimit(1),
        4 => WinCondition::GoalLimit(3),
        _ => WinCondition::GoalLimit(5),
    }
}

/// The pause rows on offer: swapping sides means nothing with one pad.
pub open spec fn pause_list(two_player: bool) -> Seq<PauseRow> {
    if two_player {
        seq![PauseRow::Resume, PauseRow::Swap, PauseRow::Settings, PauseRow::Quit]
    } else {
        seq![PauseRow::Resume, PauseRow::Settings, PauseRow::Quit]
    }
}

/// The settings rows on offer: no music rows on a disc without the songs.
pub open spec fn settings_list(music: bool) -> Seq<SettingsRow> {
    if music {
        seq![
            SettingsRow::Arena,
            SettingsRow::Sound,
            SettingsRow::Music,
            SettingsRow::Track,
            SettingsRow::Back,
        ]
    } else {
        seq![SettingsRow::Arena, SettingsRow::Sound, SettingsRow::Back]
    }
}

/// How many pause rows are on offer.
pub open spec fn pause_len(two_player: bool) -> int {
    if two_player {
        4
    } else {
        3
    }
}

/// How many settings rows are on offer.
pub open spec fn settings_len(music: bool) -> int {
    if music {
        5
    } else {
        3
    }
}

/// An index stepped round a list of `n`, up or down.
#[verifier::opaque]
pub open spec fn walked(i: usize, n: int, up: bool, down: bool) -> usize {
    if up {
        ((i + n - 1) % n) as usize
    } else if down {
        ((i + 1) % n) as usize
    } else {
        i
    }
}

/// An index moved `step` round a list of `n`.
#[verifier::opaque]
pub open spec fn stepped(i: usize, step: int, n: int) -> usize {
    ((i + step + n) % n) as usize
}

/// The paint `step` along from `paint`, stepping over `taken`.
pub open spec fn next_paint(paint: usize, step: int, taken: usize) -> usize {
    let next = stepped(paint, step, 8);
    if next != taken {
        next
    } else {
        stepped(next, step, 8)
    }
}

/// Nothing to do outside.
pub open spec fn no_orders() -> Orders {
    Orders {
        hush: false,
        listen: false,
        mute: None,
        drive: DriveOrder::Hold,
        save: false,
        stuck: false,
    }
}

impl Orders {
    /// Nothing to do outside.
    pub fn none() -> (r: Self)
        ensures
            r == no_orders(),
    {
        Orders {
            hush: false,
            listen: false,
            mute: None,
            drive: DriveOrder::Hold,
            save: false,
            stuck: false,
        }
    }
}

fn walk(i: usize, n: usize, up: bool, down: bool) -> (r: usize)
    requires
        i < n <= 64,
    ensures
        r == walked(i, n as int, up, down),
        r < n,
{
    proof {
        reveal(walked);
    }
    if up {
        (i + n - 1) % n
    } else if down {
        (i + 1) % n
    } else {
        i
    }
}

/// The draw a tick gives.
fn draw(tick: u32) -> (r: u32)
    ensures
        r == drawn(tick),
{
    proof {
        reveal(drawn);
    }
    tick.wrapping_mul(1_664_525).wrapping_add(1_013_904_223)
}

fn step_round(i: usize, step: i32, n: usize) -> (r: usize)
    requires
        i < n <= 64,
        -1 <= step <= 1,
    ensures
        r == stepped(i, step as int, n as int),
        r < n,
        step != 0 && n >= 2 ==> r != i,
{
    proof {
        reveal(stepped);
        let t = i + step + n;
        assert(t % (n as int) == if t >= 2 * n {
            t - 2 * n
        } else if t >= n {
            t - n
        } else {
            t
        }) by (nonlinear_arith)
            requires
                n > 0,
                n - 1 <= t <= 2 * n,
                t == i + step + n,
        ;
    }
    ((i as i32 + step + n as i32) % (n as i32)) as usize
}

// ---- what each part of a tick does -----------------------------------------

/// One seat of a game.
pub open spec fn seat_of(g: Game, seat: int) -> Seat {
    if seat == 0 {
        g.one
    } else {
        g.two
    }
}

/// A game with one seat replaced.
pub open spec fn with_seat(g: Game, seat: int, s: Seat) -> Game {
    if seat == 0 {
        Game { one: s, ..g }
    } else {
        Game { two: s, ..g }
    }
}

/// Back at the front end, with the highlight sweeping in from scratch.
pub open spec fn titled(g: Game, tick: u32) -> Game {
    Game { menu_at: tick, settings: None, phase: Phase::Title, ..g }
}

/// The draw a tick gives: one multiply and an add, wrapping.
#[verifier::opaque]
pub open spec fn drawn(tick: u32) -> int {
    (tick * 1_664_525 + 1_013_904_223) % 0x1_0000_0000
}

/// The opponent a tick draws: a car, and a paint player one is not wearing.
#[verifier::opaque]
pub open spec fn drawn_rival(g: Game, tick: u32) -> Seat {
    let n = drawn(tick);
    let paint = ((n / 0x100_0000) % 8) as usize;
    Seat {
        car: ((n / 0x1_0000) % 3) as usize,
        paint: if paint == g.one.paint {
            stepped(paint, 1, 8)
        } else {
            paint
        },
        row: 0,
        ready: false,
        ..g.two
    }
}

/// The select screen just opened: nobody ready, and an opponent drawn.
#[verifier::opaque]
pub open spec fn opened(g: Game, tick: u32) -> Game {
    Game {
        one: Seat { row: 0, ready: false, ..g.one },
        two: drawn_rival(g, tick),
        focus: 0,
        seed: tick,
        phase: Phase::Select,
        ..g
    }
}

/// The match the select screen just dressed, kicked off.
#[verifier::opaque]
pub open spec fn started(g: Game) -> Game {
    Game {
        sim: Sim {
            opponent_ai: g.menu != ROW_PRACTICE && !g.two_player,
            ..sim::fresh(rule_of(g.match_rule as int))
        },
        one: Seat { ball_cam: false, ..g.one },
        two: Seat { ball_cam: false, ..g.two },
        paused: false,
        pause_row: 0,
        phase: Phase::Play,
        ..g
    }
}

/// One seat on the select screen rather than two: practice with one pad.
pub open spec fn alone(g: Game) -> bool {
    !g.two_player && g.menu == ROW_PRACTICE
}

/// Every seat that has a pad on it has locked in.
pub open spec fn locked_in(g: Game) -> bool {
    g.one.ready && (!g.two_player || g.two.ready)
}

/// The direction left and right ask for.
pub open spec fn sideways(forward: bool, back: bool) -> int {
    if forward {
        1
    } else if back {
        -1
    } else {
        0
    }
}

/// The arena's look, stepped.
pub open spec fn relit(g: Game, step: int) -> Game {
    Game {
        arena_time: if step > 0 {
            view::later(g.arena_time)
        } else {
            view::earlier(g.arena_time)
        },
        ..g
    }
}

/// What a settings row does when it is stepped.
#[verifier::opaque]
pub open spec fn setting_changed(
    g: Game,
    row: SettingsRow,
    step: int,
    tick: u32,
) -> (Game, Orders) {
    match row {
        SettingsRow::Arena => (relit(g, step), no_orders()),
        SettingsRow::Sound => (
            Game {
                muted: !g.muted,
                sfx_volume: if g.muted {
                    100
                } else {
                    0
                },
                settings_dirty: true,
                ..g
            },
            Orders { mute: Some(!g.muted), ..no_orders() },
        ),
        SettingsRow::Music => (
            Game {
                music: music::switched(g.music, !g.music.enabled, tick),
                music_volume: if g.music.enabled {
                    0
                } else {
                    100
                },
                settings_dirty: true,
                ..g
            },
            Orders { drive: music::switch_order(g.music, !g.music.enabled), ..no_orders() },
        ),
        SettingsRow::Track => (
            Game { music: music::cycled(g.music, step, tick), ..g },
            Orders {
                drive: if music::playable(g.music) {
                    DriveOrder::Begin
                } else {
                    DriveOrder::Hold
                },
                ..no_orders()
            },
        ),
        SettingsRow::Back => (g, no_orders()),
    }
}

/// One tick of the settings panel. Circle or start close it.
#[verifier::opaque]
pub open spec fn settings_stepped(g: Game, e: Edges, tick: u32) -> (Game, Orders) {
    match g.settings {
        None => (g, no_orders()),
        Some(at) => {
            let rows = settings_list(g.music.available);
            let row = walked(at, settings_len(g.music.available), e.up, e.down);
            let back = e.circle || e.start;
            let step = sideways(e.right || e.cross, e.left);
            if back || (e.cross && rows[row as int] == SettingsRow::Back) {
                (
                    Game { settings: None, ..g },
                    Orders { save: g.settings_dirty, ..no_orders() },
                )
            } else if step == 0 {
                (Game { settings: Some(row), ..g }, no_orders())
            } else {
                setting_changed(Game { settings: Some(row), ..g }, rows[row as int], step, tick)
            }
        },
    }
}

/// One tick of the boot splash.
#[verifier::opaque]
pub open spec fn intro_stepped(g: Game, e: Edges, tick: u32) -> Game {
    let on = Game { intro_t: (g.intro_t + 1) as i32, ..g };
    let skip = on.intro_t > INTRO_GRACE && (e.cross || e.circle || e.start);
    if skip || on.intro_t >= INTRO_TOTAL {
        titled(on, tick)
    } else {
        on
    }
}

/// The front end after the D-pad: up and down walk the rows, left and right
/// change the car on show.
#[verifier::opaque]
pub open spec fn browsed(g: Game, e: Edges, tick: u32) -> Game {
    if e.up || e.down {
        Game { menu: walked(g.menu, 3, e.up, e.down), menu_at: tick, ..g }
    } else if e.left || e.right {
        Game { one: Seat { car: walked(g.one.car, 3, e.left, e.right), ..g.one }, ..g }
    } else {
        g
    }
}

/// One tick of the front end. An open settings panel owns the pad.
#[verifier::opaque]
pub open spec fn title_stepped(g: Game, e: Edges, tick: u32) -> (Game, Orders) {
    if g.settings is Some {
        settings_stepped(g, e, tick)
    } else {
        let b = browsed(g, e, tick);
        if !(e.cross || e.start) {
            (b, no_orders())
        } else if b.menu == ROW_SETTINGS {
            (Game { settings: Some(0), ..b }, no_orders())
        } else {
            (opened(b, tick), no_orders())
        }
    }
}

/// What left and right do to the row a seat stands on.
#[verifier::opaque]
pub open spec fn picked(g: Game, seat: int, step: int) -> Game {
    let s = seat_of(g, seat);
    if s.row == ROW_CAR {
        with_seat(g, seat, Seat { car: stepped(s.car, step, 3), ..s })
    } else if s.row == ROW_PAINT {
        with_seat(
            g,
            seat,
            Seat { paint: next_paint(s.paint, step, seat_of(g, 1 - seat).paint), ..s },
        )
    } else if s.row == ROW_ARENA {
        relit(g, step)
    } else {
        Game { match_rule: stepped(g.match_rule, step, 6), ..g }
    }
}

/// Cross locks a seat in, circle leaves for the title.
#[verifier::opaque]
pub open spec fn decided(g: Game, own: int, e: Edges, tick: u32) -> (Game, bool) {
    if e.cross {
        (with_seat(g, own, Seat { ready: true, ..seat_of(g, own) }), false)
    } else if e.circle {
        (titled(g, tick), true)
    } else {
        (g, false)
    }
}

/// One pad's tick on a seat's panel, and whether it left for the title. A pad
/// readies its own seat; alone, pad one's is seat 0 whichever panel it is on.
#[verifier::opaque]
pub open spec fn panel_stepped(g: Game, seat: int, e: Edges, tick: u32) -> (Game, bool) {
    let s = seat_of(g, seat);
    if s.ready {
        (
            if e.circle {
                with_seat(g, seat, Seat { ready: false, ..s })
            } else {
                g
            },
            false,
        )
    } else {
        let moved = with_seat(g, seat, Seat { row: walked(s.row, 4, e.up, e.down), ..s });
        let step = sideways(e.right, e.left);
        let p = if step != 0 {
            picked(moved, seat, step)
        } else {
            moved
        };
        let own = if g.two_player {
            seat
        } else {
            0
        };
        decided(p, own, e, tick)
    }
}

/// The select screen once the second port is known. A pad arriving takes its
/// panel over, a pad leaving hands it back.
#[verifier::opaque]
pub open spec fn seated(g: Game, connected: bool) -> Game {
    if connected == g.two_player {
        g
    } else {
        Game {
            two_player: connected,
            focus: 0,
            two: Seat { ready: false, ..g.two },
            ..g
        }
    }
}

/// The end of a select tick: a lone pad hops panels, and the match starts once
/// everyone has locked in.
#[verifier::opaque]
pub open spec fn select_closed(g: Game, e: Edges) -> Game {
    let h = if !alone(g) && !g.two_player && (e.l1 || e.r1) {
        Game { focus: (1 - g.focus) as usize, ..g }
    } else {
        g
    };
    if locked_in(h) {
        started(h)
    } else {
        h
    }
}

/// One tick of the select screen.
#[verifier::opaque]
pub open spec fn select_stepped(
    g: Game,
    one: Edges,
    connected: bool,
    two: Edges,
    tick: u32,
) -> Game {
    let s = seated(g, connected);
    let first = if connected {
        0
    } else {
        s.focus as int
    };
    let (a, a_left) = panel_stepped(s, first, one, tick);
    if a_left {
        a
    } else {
        let (b, b_left) = panel_stepped(a, 1, pad::masked(two, connected), tick);
        if b_left {
            b
        } else {
            select_closed(b, one)
        }
    }
}

/// What a pause row does.
#[verifier::opaque]
pub open spec fn pause_chosen(g: Game, row: PauseRow, tick: u32) -> (Game, Orders) {
    match row {
        PauseRow::Resume => (Game { paused: false, ..g }, no_orders()),
        PauseRow::Swap => (Game { swap_seats: !g.swap_seats, ..g }, no_orders()),
        PauseRow::Settings => (Game { settings: Some(0), ..g }, no_orders()),
        PauseRow::Quit => (
            titled(Game { paused: false, ..g }, tick),
            Orders { hush: true, ..no_orders() },
        ),
    }
}

/// One tick of a held match. Either pad drives the menu; an open settings panel
/// owns both.
#[verifier::opaque]
pub open spec fn pause_stepped(g: Game, e: Edges, tick: u32) -> (Game, Orders) {
    if g.settings is Some {
        settings_stepped(g, e, tick)
    } else {
        let rows = pause_list(g.two_player);
        let w = Game {
            pause_row: walked(g.pause_row, pause_len(g.two_player), e.up, e.down),
            ..g
        };
        if e.start {
            (Game { paused: false, ..w }, no_orders())
        } else if e.cross {
            pause_chosen(w, rows[w.pause_row as int], tick)
        } else {
            (w, no_orders())
        }
    }
}

/// A pad as the game sees it this tick.
#[derive(Copy, Clone, Debug, PartialEq, Eq)]
pub struct Player {
    /// What went down.
    pub edges: Edges,
    /// What is held.
    pub held: Held,
}

/// The cameras after the triangles.
#[verifier::opaque]
pub open spec fn recammed(g: Game, one: Edges, two: Edges) -> Game {
    Game {
        one: Seat { ball_cam: g.one.ball_cam != one.triangle, ..g.one },
        two: Seat { ball_cam: g.two.ball_cam != (g.two_player && two.triangle), ..g.two },
        ..g
    }
}

/// Player two's intent, in a two-pad match.
pub open spec fn rival_intent(g: Game, two: Player) -> Option<Input> {
    if g.two_player {
        Some(pad::intent(two.held))
    } else {
        None
    }
}

/// The game once the match was stepped, or could not be: over to the results
/// when the match is over.
pub open spec fn judged(g: Game, stepped: bool) -> (Game, Orders) {
    if !stepped {
        (g, Orders { stuck: true, ..no_orders() })
    } else if g.sim.is_finished() {
        (
            Game { phase: Phase::Results, ..g },
            Orders { listen: true, hush: true, ..no_orders() },
        )
    } else {
        (g, Orders { listen: true, ..no_orders() })
    }
}

/// The match can be stepped within its numbers' range.
#[verifier::opaque]
pub open spec fn match_fits(
    t: Angles,
    s: Sim,
    input: Input,
    rival: Option<Input>,
) -> bool {
    tick::fits(t, s, input, rival)
}

/// The match, one tick on.
#[verifier::opaque]
pub open spec fn match_on(
    t: Angles,
    s: Sim,
    input: Input,
    rival: Option<Input>,
) -> Sim {
    tick::advanced(t, s, input, rival)
}

/// Steps the match, or leaves it as it is and says so.
fn step_match<F: Fn(i32, i32) -> u16>(
    s: &mut Sim,
    trig: &Trig<F>,
    input: &Input,
    rival: Option<Input>,
) -> (r: bool)
    requires
        trig.wf(),
    ensures
        r == match_fits(trig.model(), *old(s), *input, rival),
        r ==> *final(s) == match_on(trig.model(), *old(s), *input, rival),
        r ==> final(s).valid(),
        !r ==> *final(s) == *old(s),
{
    proof {
        reveal(match_fits);
        reveal(match_on);
    }
    s.try_advance(trig, input, rival)
}

/// One tick of a live match.
#[verifier::opaque]
pub open spec fn play_stepped(t: Angles, g: Game, one: Player, two: Player) -> (Game, Orders) {
    if one.edges.start {
        (Game { paused: true, pause_row: 0, ..g }, Orders { hush: true, ..no_orders() })
    } else {
        let c = recammed(g, one.edges, two.edges);
        let input = pad::intent(one.held);
        let rival = rival_intent(g, two);
        let fits = match_fits(t, c.sim, input, rival);
        judged(
            Game {
                sim: if fits {
                    match_on(t, c.sim, input, rival)
                } else {
                    c.sim
                },
                ..c
            },
            fits,
        )
    }
}

/// One tick of the results.
#[verifier::opaque]
pub open spec fn results_stepped(g: Game, e: Edges, tick: u32) -> Game {
    if e.start || e.cross {
        titled(g, tick)
    } else {
        g
    }
}

/// One tick of the game.
pub open spec fn stepped_on(
    t: Angles,
    g: Game,
    one: Player,
    connected: bool,
    two: Player,
    tick: u32,
) -> (Game, Orders) {
    match g.phase {
        Phase::Intro => (intro_stepped(g, one.edges, tick), no_orders()),
        Phase::Title => title_stepped(g, one.edges, tick),
        Phase::Select => (
            select_stepped(g, one.edges, connected, two.edges, tick),
            no_orders(),
        ),
        Phase::Play => if g.paused {
            pause_stepped(
                g,
                pad::either(one.edges, pad::masked(two.edges, g.two_player)),
                tick,
            )
        } else {
            play_stepped(t, g, one, two)
        },
        Phase::Results => (results_stepped(g, one.edges, tick), no_orders()),
    }
}

// ---- the stage -------------------------------------------------------------

/// How far round the staged cars have drifted.
pub open spec fn stage_spin(tick: u32) -> u16 {
    (1500 + ((tick * 3) % 4096) / 5) as u16
}

/// A car parked on the stage.
pub open spec fn staged_car(c: Car, x: int, z: int, spin: u16) -> Car {
    Car {
        p: vec3::v3(x * 64, CAR_REST_Y * 64, z * 64),
        yaw: spin,
        v: vec3::zero3(),
        grounded: true,
        steer: 0,
        boosting: false,
        suspension: car::axles(0, 0),
        ..c
    }
}

/// A match with its cars parked where the front-end camera looks, and the ball
/// behind it.
#[verifier::opaque]
pub open spec fn staged(s: Sim, tick: u32, pair: bool) -> Sim {
    let spin = stage_spin(tick);
    Sim {
        car: staged_car(s.car, panels::stage_x(0, pair), 0, spin),
        opponent: staged_car(
            s.opponent,
            panels::stage_x(1, pair),
            if pair {
                0
            } else {
                -3000
            },
            spin,
        ),
        ball: Ball {
            p: V3 { z: (-192_000) as i32, ..s.ball.p },
            v: vec3::zero3(),
            ..s.ball
        },
        ..s
    }
}

fn park(car: &mut Car, x: i32, z: i32, spin: u16)
    requires
        -0x10_0000 <= x <= 0x10_0000,
        -0x10_0000 <= z <= 0x10_0000,
    ensures
        *final(car) == staged_car(*old(car), x as int, z as int, spin),
{
    car.p = V3 { x: uu(x), y: uu(CAR_REST_Y), z: uu(z) };
    car.yaw = spin;
    car.v = V3::zero();
    car.grounded = true;
    car.steer = 0;
    car.boosting = false;
    car.suspension = [0, 0];
    proof {
        car::lemma_axles(car.suspension);
    }
}

/// The game as it boots: at the splash, with a five-minute match ready behind it
/// and nothing known of the disc or of a second pad.
pub open spec fn booted() -> Game {
    Game {
        clock: 0,
        port_one: Handshake { attempts: pad::ANALOG_ATTEMPTS, seen: false },
        port_two: Handshake { attempts: pad::ANALOG_ATTEMPTS, seen: false },
        phase: Phase::Intro,
        sim: sim::fresh(WinCondition::TimeLimit(18_000)),
        one: Seat { car: 0, paint: 0, row: 0, ready: false, ball_cam: false },
        two: Seat { car: 1, paint: 5, row: 0, ready: false, ball_cam: false },
        menu: 0,
        menu_at: 0,
        two_player: false,
        paused: false,
        pause_row: 0,
        settings: None,
        swap_seats: false,
        music: Music {
            available: false,
            enabled: true,
            index: 0,
            probed: false,
            announced_at: None,
            next_poll: 0,
        },
        arena_time: ArenaTime::Night,
        match_rule: DEFAULT_MATCH_RULE,
        focus: 0,
        seed: 0,
        intro_t: 0,
        muted: false,
        sfx_volume: 100,
        music_volume: 100,
        settings_dirty: false,
    }
}

impl Game {
    /// Every index names something, the two seats wear different paints, and
    /// the match is sound.
    pub open spec fn wf(self) -> bool {
        &&& self.one.car < CAR_COUNT && self.two.car < CAR_COUNT
        &&& self.one.paint < PAINT_COUNT && self.two.paint < PAINT_COUNT
        &&& self.one.paint != self.two.paint
        &&& self.one.row < SELECT_ROWS && self.two.row < SELECT_ROWS
        &&& self.menu < MENU_ROWS
        &&& self.focus < 2
        &&& self.match_rule < RULE_COUNT
        &&& 0 <= self.intro_t <= INTRO_TOTAL
        &&& self.phase == Phase::Intro ==> self.intro_t < INTRO_TOTAL
        &&& self.phase == Phase::Play ==> self.pause_row < pause_len(self.two_player)
        &&& self.settings matches Some(row) ==> row < settings_len(self.music.available)
        &&& self.music.wf()
        &&& self.sim.valid()
    }

    /// At the boot splash, with a five-minute match ready behind it.
    pub fn new() -> (r: Self)
        ensures
            r == booted(),
            r.wf(),
    {
        Game {
            clock: 0,
            port_one: Handshake::new(),
            port_two: Handshake::new(),
            phase: Phase::Intro,
            sim: Sim::new(),
            one: Seat { car: 0, paint: 0, row: 0, ready: false, ball_cam: false },
            two: Seat { car: 1, paint: 5, row: 0, ready: false, ball_cam: false },
            menu: 0,
            menu_at: 0,
            two_player: false,
            paused: false,
            pause_row: 0,
            settings: None,
            swap_seats: false,
            music: Music::new(),
            arena_time: ArenaTime::Night,
            match_rule: DEFAULT_MATCH_RULE,
            focus: 0,
            seed: 0,
            intro_t: 0,
            muted: false,
            sfx_volume: 100,
            music_volume: 100,
            settings_dirty: false,
        }
    }

    /// Take the saved volumes. Zero is off. Says what the music wants of the
    /// drive.
    pub fn load(&mut self, sfx_volume: u8, music_volume: u8) -> (r: DriveOrder)
        requires
            old(self).wf(),
        ensures
            final(self).wf(),
            r == music::switch_order(old(self).music, music_volume != 0),
            *final(self) == (Game {
                sfx_volume,
                music_volume,
                muted: sfx_volume == 0,
                music: music::switched(old(self).music, music_volume != 0, 0),
                ..*old(self)
            }),
    {
        self.sfx_volume = sfx_volume;
        self.music_volume = music_volume;
        self.muted = sfx_volume == 0;
        self.music.set_enabled(music_volume != 0, 0)
    }

    /// Hear whether the settings were written out.
    pub fn saved(&mut self, ok: bool)
        requires
            old(self).wf(),
        ensures
            final(self).wf(),
            *final(self) == (Game {
                settings_dirty: old(self).settings_dirty && !ok,
                ..*old(self)
            }),
    {
        if ok {
            self.settings_dirty = false;
        }
    }

    /// The pause rows on offer, in order.
    pub fn pause_rows(&self) -> (r: Vec<PauseRow>)
        ensures
            r@ == pause_list(self.two_player),
            r.len() == pause_len(self.two_player),
    {
        if self.two_player {
            vec![PauseRow::Resume, PauseRow::Swap, PauseRow::Settings, PauseRow::Quit]
        } else {
            vec![PauseRow::Resume, PauseRow::Settings, PauseRow::Quit]
        }
    }

    /// The settings rows on offer, in order.
    pub fn settings_rows(&self) -> (r: Vec<SettingsRow>)
        ensures
            r@ == settings_list(self.music.available),
            r.len() == settings_len(self.music.available),
    {
        if self.music.available() {
            vec![
                SettingsRow::Arena,
                SettingsRow::Sound,
                SettingsRow::Music,
                SettingsRow::Track,
                SettingsRow::Back,
            ]
        } else {
            vec![SettingsRow::Arena, SettingsRow::Sound, SettingsRow::Back]
        }
    }

    /// Take the drive's answer to a probe. Says whether to start a song.
    pub fn take_probe(&mut self, reply: Option<&[u8]>, tick: u32) -> (r: bool)
        requires
            old(self).wf(),
            !old(self).music.probed,
        ensures
            final(self).wf(),
            ({
                let shown = music::shows_menu_tracks(
                    match reply {
                        Some(bytes) => Some(bytes@),
                        None => None,
                    },
                );
                &&& r == (shown && old(self).music.enabled)
                &&& *final(self) == (Game {
                    music: music::told(old(self).music, shown, tick),
                    ..*old(self)
                })
            }),
    {
        self.music.take_probe(reply, tick)
    }

    /// One tick of the analog handshakes: which ports to ask for analog mode.
    pub fn pace_analog(&mut self, one: Presence, two: Presence) -> (r: (bool, bool))
        requires
            old(self).wf(),
        ensures
            final(self).wf(),
            ({
                let clock = music::ticks_on(old(self).clock, 1);
                &&& r.0 == pad::attempt_due(old(self).port_one, one, clock)
                &&& r.1 == pad::attempt_due(old(self).port_two, two, clock)
                &&& *final(self) == (Game {
                    clock,
                    port_one: pad::handshaken(old(self).port_one, one, clock),
                    port_two: pad::handshaken(old(self).port_two, two, clock),
                    ..*old(self)
                })
            }),
    {
        self.clock = self.clock.wrapping_add(1);
        let a = self.port_one.pace(one, self.clock);
        let b = self.port_two.pace(two, self.clock);
        (a, b)
    }

    /// Whether the second port is to be read this tick: always on the select
    /// screen, so that plugging a pad in shows, and in a two-pad match, except
    /// on the tick it is paused.
    pub fn wants_second_pad(&self, one: &Edges) -> (r: bool)
        ensures
            r == match self.phase {
                Phase::Select => true,
                Phase::Play => self.two_player && (self.paused || !one.start),
                _ => false,
            },
    {
        match self.phase {
            Phase::Select => true,
            Phase::Play => self.two_player && (self.paused || !one.start),
            _ => false,
        }
    }

    fn seat(&self, seat: usize) -> (r: Seat)
        ensures
            r == seat_of(*self, seat as int),
    {
        if seat == 0 {
            self.one
        } else {
            self.two
        }
    }

    fn put_seat(&mut self, seat: usize, s: Seat)
        ensures
            *final(self) == with_seat(*old(self), seat as int, s),
    {
        if seat == 0 {
            self.one = s;
        } else {
            self.two = s;
        }
    }

    /// Step the arena's look.
    fn relight(&mut self, step: i32)
        ensures
            *final(self) == relit(*old(self), step as int),
            old(self).wf() ==> final(self).wf(),
    {
        self.arena_time = if step > 0 {
            self.arena_time.next()
        } else {
            self.arena_time.prev()
        };
    }

    /// What a settings row does when it is stepped.
    fn change_setting(&mut self, row: SettingsRow, step: i32, tick: u32) -> (r: Orders)
        requires
            old(self).wf(),
            step == 1 || step == -1,
        ensures
            (*final(self), r) == setting_changed(*old(self), row, step as int, tick),
            final(self).wf(),
    {
        proof {
            reveal(setting_changed);
        }
        let mut orders = Orders::none();
        match row {
            SettingsRow::Arena => {
                self.relight(step);
            },
            SettingsRow::Sound => {
                self.muted = !self.muted;
                self.sfx_volume = if self.muted {
                    0
                } else {
                    100
                };
                self.settings_dirty = true;
                orders.mute = Some(self.muted);
            },
            SettingsRow::Music => {
                let on = !self.music.enabled();
                orders.drive = self.music.set_enabled(on, tick);
                self.music_volume = if on {
                    100
                } else {
                    0
                };
                self.settings_dirty = true;
            },
            SettingsRow::Track => {
                if self.music.cycle_track(step, tick) {
                    orders.drive = DriveOrder::Begin;
                }
            },
            SettingsRow::Back => {},
        }
        orders
    }

    /// One tick of settings-panel input, from whichever menu opened it. Circle
    /// or start close it back to that menu.
    #[verifier::rlimit(60)]
    pub fn settings_input(&mut self, e: &Edges, tick: u32) -> (r: Orders)
        requires
            old(self).wf(),
        ensures
            (*final(self), r) == settings_stepped(*old(self), *e, tick),
            final(self).wf(),
    {
        proof {
            reveal(settings_stepped);
        }
        let at: usize = match self.settings {
            None => {
                return Orders::none();
            },
            Some(at) => at,
        };
        let rows = self.settings_rows();
        let row: usize = walk(at, rows.len(), e.up, e.down);
        if e.circle || e.start || (e.cross && rows[row] == SettingsRow::Back) {
            self.settings = None;
            let mut orders = Orders::none();
            orders.save = self.settings_dirty;
            return orders;
        }
        self.settings = Some(row);
        let step: i32 = if e.right || e.cross {
            1
        } else if e.left {
            -1
        } else {
            0
        };
        if step == 0 {
            return Orders::none();
        }
        self.change_setting(rows[row], step, tick)
    }

    /// Kick off the match the select screen just dressed. Two pads make it a
    /// versus game; one makes it a match against the opponent, or free play
    /// with it parked.
    fn start_match(&mut self)
        requires
            old(self).wf(),
        ensures
            *final(self) == started(*old(self)),
            final(self).wf(),
    {
        proof {
            reveal(started);
        }
        self.sim = Sim::with_win_condition(match_rule(self.match_rule));
        self.sim.opponent_ai = self.menu != ROW_PRACTICE && !self.two_player;
        self.one.ball_cam = false;
        self.two.ball_cam = false;
        self.paused = false;
        self.pause_row = 0;
        self.phase = Phase::Play;
    }

    /// Back to the front end, with the highlight sweeping in from scratch.
    fn to_title(&mut self, tick: u32)
        ensures
            *final(self) == titled(*old(self), tick),
    {
        self.menu_at = tick;
        self.settings = None;
        self.phase = Phase::Title;
    }

    /// One seat on the select screen rather than two.
    pub fn select_solo(&self) -> (r: bool)
        ensures
            r == alone(*self),
    {
        !self.two_player && self.menu == ROW_PRACTICE
    }

    /// Open the select screen: nobody ready, and an opponent drawn out of the
    /// tick the screen opened on.
    fn open_select(&mut self, tick: u32)
        requires
            old(self).wf(),
            old(self).phase == Phase::Title,
        ensures
            *final(self) == opened(*old(self), tick),
            final(self).wf(),
    {
        proof {
            reveal(opened);
            reveal(drawn_rival);
        }
        self.one.ready = false;
        self.two.ready = false;
        self.one.row = 0;
        self.two.row = 0;
        self.focus = 0;
        self.seed = tick;
        let n: u32 = draw(tick);
        self.two.car = ((n / 0x1_0000) % 3) as usize;
        self.two.paint = ((n / 0x100_0000) % 8) as usize;
        if self.two.paint == self.one.paint {
            self.two.paint = step_round(self.two.paint, 1, PAINT_COUNT);
        }
        self.phase = Phase::Select;
    }

    /// Step a seat's paint, stepping over whatever the other seat is wearing.
    pub fn cycle_paint(&mut self, seat: usize, step: i32)
        requires
            seat < 2,
            step == 1 || step == -1,
            old(self).one.paint < PAINT_COUNT,
            old(self).two.paint < PAINT_COUNT,
        ensures
            *final(self) == with_seat(
                *old(self),
                seat as int,
                Seat {
                    paint: next_paint(
                        seat_of(*old(self), seat as int).paint,
                        step as int,
                        seat_of(*old(self), 1 - seat).paint,
                    ),
                    ..seat_of(*old(self), seat as int)
                },
            ),
            final(self).one.paint < PAINT_COUNT,
            final(self).two.paint < PAINT_COUNT,
            final(self).one.paint != final(self).two.paint,
            old(self).wf() ==> final(self).wf(),
    {
        let mut s = self.seat(seat);
        let taken: usize = self.seat(1 - seat).paint;
        let mut next: usize = step_round(s.paint, step, PAINT_COUNT);
        if next == taken {
            next = step_round(next, step, PAINT_COUNT);
        }
        s.paint = next;
        self.put_seat(seat, s);
    }

    /// True when every seat that has a pad on it has locked in.
    pub fn all_ready(&self) -> (r: bool)
        ensures
            r == locked_in(*self),
    {
        self.one.ready && (!self.two_player || self.two.ready)
    }

    /// Left and right on the car row.
    fn pick_car(&mut self, seat: usize, step: i32)
        requires
            old(self).wf(),
            seat < 2,
            step == 1 || step == -1,
        ensures
            *final(self) == with_seat(
                *old(self),
                seat as int,
                Seat {
                    car: stepped(seat_of(*old(self), seat as int).car, step as int, 3),
                    ..seat_of(*old(self), seat as int)
                },
            ),
            final(self).wf(),
    {
        let mut s = self.seat(seat);
        s.car = step_round(s.car, step, CAR_COUNT);
        self.put_seat(seat, s);
    }

    /// Left and right on the rule row.
    fn pick_rule(&mut self, step: i32)
        requires
            old(self).wf(),
            step == 1 || step == -1,
        ensures
            *final(self) == (Game {
                match_rule: stepped(old(self).match_rule, step as int, 6),
                ..*old(self)
            }),
            final(self).wf(),
    {
        self.match_rule = step_round(self.match_rule, step, RULE_COUNT);
    }

    /// What left and right do to the row a seat stands on.
    fn pick(&mut self, seat: usize, step: i32)
        requires
            old(self).wf(),
            old(self).phase == Phase::Select,
            seat < 2,
            step == 1 || step == -1,
        ensures
            *final(self) == picked(*old(self), seat as int, step as int),
            final(self).wf(),
            final(self).phase == Phase::Select,
            final(self).two_player == old(self).two_player,
    {
        proof {
            reveal(picked);
        }
        let row: usize = self.seat(seat).row;
        if row == ROW_CAR {
            self.pick_car(seat, step);
        } else if row == ROW_PAINT {
            self.cycle_paint(seat, step);
        } else if row == ROW_ARENA {
            self.relight(step);
        } else {
            self.pick_rule(step);
        }
    }

    /// Lock a seat in, or leave for the title. Says whether it left.
    fn decide(&mut self, own: usize, e: &Edges, tick: u32) -> (r: bool)
        requires
            old(self).wf(),
            old(self).phase == Phase::Select,
            own < 2,
        ensures
            (*final(self), r) == decided(*old(self), own as int, *e, tick),
            final(self).wf(),
            !r ==> final(self).phase == Phase::Select,
            final(self).two_player == old(self).two_player,
    {
        proof {
            reveal(decided);
        }
        if e.cross {
            let mut mine = self.seat(own);
            mine.ready = true;
            self.put_seat(own, mine);
            false
        } else if e.circle {
            self.to_title(tick);
            true
        } else {
            false
        }
    }

    /// One pad's tick on a seat's panel. Says whether it left for the title.
    #[verifier::rlimit(60)]
    fn panel_input(&mut self, seat: usize, e: &Edges, tick: u32) -> (r: bool)
        requires
            old(self).wf(),
            old(self).phase == Phase::Select,
            seat < 2,
        ensures
            (*final(self), r) == panel_stepped(*old(self), seat as int, *e, tick),
            final(self).wf(),
            !r ==> final(self).phase == Phase::Select,
            final(self).two_player == old(self).two_player,
    {
        proof {
            reveal(panel_stepped);
        }
        let mut s = self.seat(seat);
        if s.ready {
            if e.circle {
                s.ready = false;
                self.put_seat(seat, s);
            }
            return false;
        }
        s.row = walk(s.row, SELECT_ROWS, e.up, e.down);
        self.put_seat(seat, s);
        let step: i32 = if e.right {
            1
        } else if e.left {
            -1
        } else {
            0
        };
        if step != 0 {
            self.pick(seat, step);
        }
        let own: usize = if self.two_player {
            seat
        } else {
            0
        };
        self.decide(own, e, tick)
    }

    /// Note whether a second pad answers. One arriving takes its panel over,
    /// one leaving hands it back, and nothing stays locked in on someone else's
    /// behalf.
    fn seat_pads(&mut self, connected: bool)
        requires
            old(self).wf(),
            old(self).phase == Phase::Select,
        ensures
            *final(self) == seated(*old(self), connected),
            final(self).wf(),
            final(self).phase == Phase::Select,
            final(self).two_player == connected,
    {
        proof {
            reveal(seated);
        }
        if connected != self.two_player {
            self.two_player = connected;
            self.focus = 0;
            self.two.ready = false;
        }
    }

    /// The end of a select tick: hop panels, and start once everyone is ready.
    fn close_select(&mut self, e: &Edges)
        requires
            old(self).wf(),
            old(self).phase == Phase::Select,
        ensures
            *final(self) == select_closed(*old(self), *e),
            final(self).wf(),
    {
        proof {
            reveal(select_closed);
        }
        if !self.select_solo() && !self.two_player && (e.l1 || e.r1) {
            self.focus = 1 - self.focus;
        }
        if self.all_ready() {
            self.start_match();
        }
    }

    /// One tick of the select screen.
    fn select_input(&mut self, one: &Edges, connected: bool, two: &Edges, tick: u32)
        requires
            old(self).wf(),
            old(self).phase == Phase::Select,
        ensures
            *final(self) == select_stepped(*old(self), *one, connected, *two, tick),
            final(self).wf(),
    {
        proof {
            reveal(select_stepped);
        }
        self.seat_pads(connected);
        let first: usize = if connected {
            0
        } else {
            self.focus
        };
        if self.panel_input(first, one, tick) {
            return;
        }
        let second = two.only_if(connected);
        if self.panel_input(1, &second, tick) {
            return;
        }
        self.close_select(one);
    }

    /// The D-pad on the front end.
    fn browse(&mut self, e: &Edges, tick: u32)
        requires
            old(self).wf(),
            old(self).phase == Phase::Title,
        ensures
            *final(self) == browsed(*old(self), *e, tick),
            final(self).wf(),
            final(self).phase == Phase::Title,
    {
        proof {
            reveal(browsed);
        }
        if e.up || e.down {
            self.menu = walk(self.menu, MENU_ROWS, e.up, e.down);
            self.menu_at = tick;
        } else if e.left || e.right {
            self.one.car = walk(self.one.car, CAR_COUNT, e.left, e.right);
        }
    }

    /// One tick of the front end.
    fn title_input(&mut self, e: &Edges, tick: u32) -> (r: Orders)
        requires
            old(self).wf(),
            old(self).phase == Phase::Title,
        ensures
            (*final(self), r) == title_stepped(*old(self), *e, tick),
            final(self).wf(),
    {
        proof {
            reveal(title_stepped);
        }
        if self.settings.is_some() {
            return self.settings_input(e, tick);
        }
        self.browse(e, tick);
        if e.cross || e.start {
            if self.menu == ROW_SETTINGS {
                self.settings = Some(0);
            } else {
                self.open_select(tick);
            }
        }
        Orders::none()
    }

    /// One tick of a held match.
    fn pause_input(&mut self, e: &Edges, tick: u32) -> (r: Orders)
        requires
            old(self).wf(),
            old(self).phase == Phase::Play,
        ensures
            (*final(self), r) == pause_stepped(*old(self), *e, tick),
            final(self).wf(),
    {
        proof {
            reveal(pause_stepped);
            reveal(pause_chosen);
        }
        if self.settings.is_some() {
            return self.settings_input(e, tick);
        }
        let rows = self.pause_rows();
        let mut orders = Orders::none();
        self.pause_row = walk(self.pause_row, rows.len(), e.up, e.down);
        if e.start {
            self.paused = false;
        } else if e.cross {
            match rows[self.pause_row] {
                PauseRow::Resume => {
                    self.paused = false;
                },
                PauseRow::Swap => {
                    self.swap_seats = !self.swap_seats;
                },
                PauseRow::Settings => {
                    self.settings = Some(0);
                },
                PauseRow::Quit => {
                    orders.hush = true;
                    self.paused = false;
                    self.to_title(tick);
                },
            }
        }
        orders
    }

    /// The triangles swing each player's own camera.
    fn swing_cameras(&mut self, one: &Edges, two: &Edges)
        requires
            old(self).wf(),
        ensures
            *final(self) == recammed(*old(self), *one, *two),
            final(self).wf(),
            final(self).phase == old(self).phase,
            final(self).two_player == old(self).two_player,
    {
        proof {
            reveal(recammed);
        }
        if one.triangle {
            self.one.ball_cam = !self.one.ball_cam;
        }
        if self.two_player && two.triangle {
            self.two.ball_cam = !self.two.ball_cam;
        }
    }

    /// Step the match, and leave it once it is over.
    fn step(&mut self, stepped: bool) -> (r: Orders)
        requires
            old(self).wf(),
            old(self).phase == Phase::Play,
        ensures
            (*final(self), r) == judged(*old(self), stepped),
            final(self).wf(),
    {
        let mut orders = Orders::none();
        if !stepped {
            orders.stuck = true;
            return orders;
        }
        orders.listen = true;
        if self.sim.finished() {
            orders.hush = true;
            self.phase = Phase::Results;
        }
        orders
    }

    /// One tick of a live match.
    fn play<F: Fn(i32, i32) -> u16>(
        &mut self,
        trig: &Trig<F>,
        one: &Player,
        two: &Player,
    ) -> (r: Orders)
        requires
            trig.wf(),
            old(self).wf(),
            old(self).phase == Phase::Play,
        ensures
            (*final(self), r) == play_stepped(trig.model(), *old(self), *one, *two),
            final(self).wf(),
    {
        proof {
            reveal(play_stepped);
        }
        let mut orders = Orders::none();
        if one.edges.start {
            orders.hush = true;
            self.paused = true;
            self.pause_row = 0;
            return orders;
        }
        self.swing_cameras(&one.edges, &two.edges);
        let input = read_pad(&one.held);
        let rival = if self.two_player {
            Some(read_pad(&two.held))
        } else {
            None
        };
        let mut sim = self.sim;
        let stepped = step_match(&mut sim, trig, &input, rival);
        self.sim = sim;
        self.step(stepped)
    }

    /// One tick of the game. `connected` says whether a second pad answers;
    /// `two` is what it did.
    pub fn advance<F: Fn(i32, i32) -> u16>(
        &mut self,
        trig: &Trig<F>,
        one: &Player,
        connected: bool,
        two: &Player,
        tick: u32,
    ) -> (r: Orders)
        requires
            trig.wf(),
            old(self).wf(),
        ensures
            (*final(self), r) == stepped_on(
                trig.model(),
                *old(self),
                *one,
                connected,
                *two,
                tick,
            ),
            final(self).wf(),
    {
        proof {
            reveal(intro_stepped);
            reveal(results_stepped);
        }
        match self.phase {
            Phase::Intro => {
                self.intro_t += 1;
                let e = &one.edges;
                let skip = self.intro_t > INTRO_GRACE && (e.cross || e.circle || e.start);
                if skip || self.intro_t >= INTRO_TOTAL {
                    self.to_title(tick);
                }
                Orders::none()
            },
            Phase::Title => self.title_input(&one.edges, tick),
            Phase::Select => {
                self.select_input(&one.edges, connected, &two.edges, tick);
                Orders::none()
            },
            Phase::Play => {
                if self.paused {
                    let both = one.edges.or(two.edges.only_if(self.two_player));
                    self.pause_input(&both, tick)
                } else {
                    self.play(trig, one, two)
                }
            },
            Phase::Results => {
                if one.edges.start || one.edges.cross {
                    self.to_title(tick);
                }
                Orders::none()
            },
        }
    }

    /// Park the cars where the front-end camera is looking, and turn them. The
    /// match is not ticked on the front end, so writing the pose is the whole
    /// animation.
    pub fn stage_cars(&mut self, tick: u32, pair: bool)
        requires
            old(self).wf(),
        ensures
            *final(self) == (Game { sim: staged(old(self).sim, tick, pair), ..*old(self) }),
            final(self).wf(),
    {
        proof {
            reveal(staged);
        }
        let turned: u32 = tick.wrapping_mul(3) % 4096;
        assert(turned == (tick * 3) % 4096) by {
            assert((tick * 3) % 0x1_0000_0000 % 4096 == (tick * 3) % 4096);
        }
        let spin: u16 = (1500 + turned / 5) as u16;
        let spare: i32 = if pair {
            0
        } else {
            -3000
        };
        park(&mut self.sim.car, stage_car_x(0, pair), 0, spin);
        park(&mut self.sim.opponent, stage_car_x(1, pair), spare, spin);
        self.sim.ball.p.z = uu(-3000);
        self.sim.ball.v = V3::zero();
    }
}

impl Default for Game {
    fn default() -> (r: Self)
        ensures
            r == booted(),
            r.wf(),
    {
        Self::new()
    }
}

} // verus!
