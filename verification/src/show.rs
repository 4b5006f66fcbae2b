//! What each phase of the game shows: the picture behind, and what is written
//! over it.

use vstd::prelude::*;
use crate::game;
use crate::game::{Game, Phase};
use crate::overlay::{SELECT_ARENA_Y, SELECT_ROW_STEP, SELECT_RULE_Y, SELECT_TOP};
use crate::panels;
use crate::panels::{menu_sweep, FrontPanels, MenuRows, SeatPanel, SelectPanels, MENU_ROWS};
use crate::render;
use crate::render::{render, render_split, Pass};
use crate::sim::Sim;
use crate::vec3::V3;

verus! {

/// The picture behind a frame.
#[derive(Copy, Clone, Debug, PartialEq, Eq, Structural)]
pub enum Picture {
    /// Nothing: what is written over it covers the whole frame.
    Blank,
    /// The staged cars, under the front end's panels.
    Menu(FrontPanels),
    /// The match, on the whole screen.
    Solo(Pass),
    /// The match, in two halves.
    Split(Pass, Pass),
}

/// The title's rows, with the highlight partly across the chosen one.
pub open spec fn title_rows(g: Game, tick: u32) -> MenuRows {
    MenuRows {
        selected: g.menu,
        rows: MENU_ROWS,
        fill: panels::swept((tick - g.menu_at) % 0x1_0000_0000) as i32,
    }
}

/// The select screen's panels. Pad one alone edits one seat at a time; with two
/// pads both are live.
pub open spec fn select_columns(g: Game) -> SelectPanels {
    SelectPanels {
        top: SELECT_TOP,
        row_step: SELECT_ROW_STEP,
        arena_y: SELECT_ARENA_Y,
        rule_y: SELECT_RULE_Y,
        one: SeatPanel {
            live: g.two_player || g.focus == 0,
            ready: g.one.ready,
            selected: g.one.row,
        },
        two: SeatPanel {
            live: g.two_player || g.focus == 1,
            ready: g.two_player && g.two.ready,
            selected: g.two.row,
        },
        pair: !game::alone(g),
    }
}

/// What a phase shows.
pub open spec fn pictured(g: Game, tick: u32) -> Picture {
    match g.phase {
        Phase::Intro => Picture::Blank,
        Phase::Title => Picture::Menu(FrontPanels::Title(title_rows(g, tick))),
        Phase::Select => Picture::Menu(FrontPanels::Select(select_columns(g))),
        Phase::Play | Phase::Results => if g.two_player {
            let p = render::split_passes((g.one.ball_cam, g.two.ball_cam), g.swap_seats);
            Picture::Split(p.0, p.1)
        } else {
            Picture::Solo(render::solo_pass(g.one.ball_cam))
        },
    }
}

/// The match as a phase stages it for its picture. A lone car on the select
/// screen stands in the middle; the title's stands clear of its rows.
pub open spec fn staged_for(g: Game, tick: u32) -> Sim {
    match g.phase {
        Phase::Title => game::staged(g.sim, tick, false),
        Phase::Select => {
            let s = game::staged(g.sim, tick, !game::alone(g));
            if game::alone(g) {
                Sim { car: crate::car::Car { p: V3 { x: 0, ..s.car.p }, ..s.car }, ..s }
            } else {
                s
            }
        },
        _ => g.sim,
    }
}

fn title_panel(g: &Game, tick: u32) -> (r: MenuRows)
    ensures
        r == title_rows(*g, tick),
{
    let elapsed: u32 = tick.wrapping_sub(g.menu_at);
    MenuRows { selected: g.menu, rows: MENU_ROWS, fill: menu_sweep(elapsed) }
}

fn select_panel(g: &Game) -> (r: SelectPanels)
    ensures
        r == select_columns(*g),
{
    SelectPanels {
        top: SELECT_TOP,
        row_step: SELECT_ROW_STEP,
        arena_y: SELECT_ARENA_Y,
        rule_y: SELECT_RULE_Y,
        one: SeatPanel {
            live: g.two_player || g.focus == 0,
            ready: g.one.ready,
            selected: g.one.row,
        },
        two: SeatPanel {
            live: g.two_player || g.focus == 1,
            ready: g.two_player && g.two.ready,
            selected: g.two.row,
        },
        pair: !g.select_solo(),
    }
}

/// Stages the cars where the phase wants them, and says what its picture is.
/// The results keep the last frame of the match behind them.
pub fn render_picture(g: &mut Game, tick: u32) -> (r: Picture)
    requires
        old(g).wf(),
    ensures
        r == pictured(*old(g), tick),
        *final(g) == (Game { sim: staged_for(*old(g), tick), ..*old(g) }),
        final(g).wf(),
{
    match g.phase {
        Phase::Intro => Picture::Blank,
        Phase::Title => {
            let rows = title_panel(g, tick);
            g.stage_cars(tick, false);
            Picture::Menu(FrontPanels::Title(rows))
        },
        Phase::Select => {
            let panel = select_panel(g);
            g.stage_cars(tick, panel.pair);
            if !panel.pair {
                g.sim.car.p.x = 0;
            }
            Picture::Menu(FrontPanels::Select(panel))
        },
        Phase::Play | Phase::Results => {
            if g.two_player {
                let (a, b) = render_split((g.one.ball_cam, g.two.ball_cam), g.swap_seats);
                Picture::Split(a, b)
            } else {
                Picture::Solo(render(g.one.ball_cam))
            }
        },
    }
}

// ---- over it ---------------------------------------------------------------

/// Something written over the picture.
#[derive(Copy, Clone, Debug, PartialEq, Eq, Structural)]
pub enum Layer {
    /// The boot splash.
    Splash,
    /// The title and its rows.
    Title,
    /// The settings panel.
    Settings,
    /// The select screen's text.
    Select,
    /// The score, the clock and the boost.
    Hud,
    /// The goal banner.
    GoalBanner,
    /// The pause menu.
    PauseMenu,
    /// The final score.
    Results,
    /// The song that has just started.
    NowPlaying,
}

/// What a phase writes over its picture, first to last. The song is announced
/// over every one.
pub open spec fn layers(g: Game) -> Seq<Layer> {
    (match g.phase {
        Phase::Intro => seq![Layer::Splash],
        Phase::Title => if g.settings is Some {
            seq![Layer::Title, Layer::Settings]
        } else {
            seq![Layer::Title]
        },
        Phase::Select => seq![Layer::Select],
        Phase::Play => {
            let banner = if g.sim.goal_freeze > 0 {
                seq![Layer::Hud, Layer::GoalBanner]
            } else {
                seq![Layer::Hud]
            };
            if !g.paused {
                banner
            } else if g.settings is Some {
                banner.push(Layer::Settings)
            } else {
                banner.push(Layer::PauseMenu)
            }
        },
        Phase::Results => seq![Layer::Results],
    }).push(Layer::NowPlaying)
}

/// What is written over the picture, first to last.
pub fn render_overlay(g: &Game) -> (r: Vec<Layer>)
    ensures
        r@ == layers(*g),
{
    let mut out: Vec<Layer> = Vec::new();
    match g.phase {
        Phase::Intro => out.push(Layer::Splash),
        Phase::Title => {
            out.push(Layer::Title);
            if g.settings.is_some() {
                out.push(Layer::Settings);
            }
        },
        Phase::Select => out.push(Layer::Select),
        Phase::Play => {
            out.push(Layer::Hud);
            if g.sim.goal_freeze > 0 {
                out.push(Layer::GoalBanner);
            }
            if g.paused {
                if g.settings.is_some() {
                    out.push(Layer::Settings);
                } else {
                    out.push(Layer::PauseMenu);
                }
            }
        },
        Phase::Results => out.push(Layer::Results),
    }
    out.push(Layer::NowPlaying);
    assert(out@ =~= layers(*g));
    out
}

/// The song is announced over every phase, last of all.
pub proof fn law_every_phase_announces_the_song(g: Game)
    ensures
        layers(g).len() >= 2,
        layers(g).last() == Layer::NowPlaying,
{
}

/// Showing a match never changes it: only the front end moves the cars, and only
/// to stage them.
pub proof fn law_showing_a_match_leaves_it_alone(g: Game, tick: u32)
    requires
        g.phase == Phase::Play || g.phase == Phase::Results || g.phase == Phase::Intro,
    ensures
        staged_for(g, tick) == g.sim,
{
}

} // verus!
