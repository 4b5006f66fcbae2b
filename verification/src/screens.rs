//! How the screens answer the pads: which way a list moves, what pauses and
//! resumes a match, and what ends it.

use vstd::prelude::*;
use crate::game;
use crate::game::{Game, Phase, Player};
use crate::pad;
use crate::pad::Edges;
use crate::sim::WinCondition;
use crate::tick;
use crate::trig::Angles;

verus! {

/// Down moves a list down and up moves it up, round its ends; the one undoes the
/// other.
pub proof fn law_down_moves_down(i: usize, n: int)
    requires
        0 < n <= 100,
        i < n,
    ensures
        i + 1 < n ==> game::walked(i, n, false, true) == i + 1,
        i + 1 == n ==> game::walked(i, n, false, true) == 0,
        i > 0 ==> game::walked(i, n, true, false) == i - 1,
        i == 0 ==> game::walked(i, n, true, false) == n - 1,
        game::walked(i, n, false, false) == i,
        game::walked(game::walked(i, n, false, true), n, true, false) == i,
        game::walked(game::walked(i, n, true, false), n, false, true) == i,
{
    reveal(game::walked);
    lemma_round(i + 1, n);
    lemma_round(i + n - 1, n);
    lemma_round(i + n, n);
    let down = game::walked(i, n, false, true);
    let up = game::walked(i, n, true, false);
    lemma_round(down + n - 1, n);
    lemma_round(up + 1, n);
}

proof fn lemma_round(x: int, n: int)
    requires
        0 < n,
        0 <= x < 2 * n,
    ensures
        x < n ==> x % n == x,
        x >= n ==> x % n == x - n,
{
    if x < n {
        assert(x % n == x) by (nonlinear_arith)
            requires
                0 <= x < n,
        ;
    } else {
        assert(x % n == x - n) by (nonlinear_arith)
            requires
                n <= x < 2 * n,
                n > 0,
        ;
    }
}

/// Start holds a match where it is and hushes it, and start again lets it go on
/// from there.
pub proof fn law_start_pauses_and_resumes(t: Angles, g: Game, one: Player, two: Player, tick: u32)
    requires
        g.phase == Phase::Play,
        !g.paused,
        g.settings is None,
        one.edges.start,
    ensures
        ({
            let (held, orders) = game::play_stepped(t, g, one, two);
            let (on, _) = game::pause_stepped(held, one.edges, tick);
            &&& held.paused && held.sim == g.sim && held.pause_row == 0
            &&& orders.hush && !orders.stuck
            &&& !on.paused && on.sim == g.sim && on.phase == Phase::Play
        }),
{
    reveal(game::play_stepped);
    reveal(game::pause_stepped);
    reveal(game::walked);
}

/// The pause menu does what its rows say: the first resumes, the last leaves for the
/// title, and with two players the second swaps the pictures.
pub proof fn law_the_pause_menu_does_what_it_says(g: Game, e: Edges, tick: u32)
    requires
        g.phase == Phase::Play,
        g.paused,
        g.settings is None,
        e.cross,
        !e.start,
        !e.up,
        !e.down,
        g.pause_row < game::pause_len(g.two_player),
    ensures
        ({
            let (r, orders) = game::pause_stepped(g, e, tick);
            let last = game::pause_len(g.two_player) - 1;
            &&& g.pause_row == 0 ==> !r.paused && r.phase == Phase::Play
            &&& g.pause_row == last ==> r.phase == Phase::Title && !r.paused && orders.hush
            &&& g.two_player && g.pause_row == 1 ==> r.swap_seats != g.swap_seats && r.paused
            &&& g.pause_row == last - 1 ==> r.settings == Some(0usize) && r.paused
            &&& r.sim == g.sim
        }),
{
    reveal(game::pause_stepped);
    reveal(game::pause_chosen);
    reveal(game::walked);
}

/// In play the pads drive the match: the first the player's car, the second, where
/// there is one, the other's; and it goes to the results once it is finished and
/// not before. The triangle flips that seat's camera and only that.
pub proof fn law_the_pads_drive_the_match(t: Angles, g: Game, one: Player, two: Player)
    requires
        g.phase == Phase::Play,
        !one.edges.start,
    ensures
        ({
            let (r, orders) = game::play_stepped(t, g, one, two);
            let rival = if g.two_player {
                Some(pad::intent(two.held))
            } else {
                None
            };
            let fits = tick::fits(t, g.sim, pad::intent(one.held), rival);
            &&& fits ==> r.sim == tick::advanced(t, g.sim, pad::intent(one.held), rival)
            &&& !fits ==> r.sim == g.sim && orders.stuck
            &&& fits ==> (r.phase == Phase::Results <==> r.sim.is_finished())
            &&& !r.sim.is_finished() ==> r.phase == Phase::Play
            &&& r.one.ball_cam == (g.one.ball_cam != one.edges.triangle)
            &&& r.two.ball_cam == (g.two.ball_cam != (g.two_player && two.edges.triangle))
            &&& r.one.car == g.one.car && r.two.car == g.two.car && r.paused == g.paused
        }),
{
    reveal(game::play_stepped);
    reveal(game::recammed);
    reveal(game::match_fits);
    reveal(game::match_on);
}

/// The rules on offer: one, three or five minutes, or the first to one, three or five
/// goals.
pub proof fn law_the_rules_on_offer()
    ensures
        game::rule_of(0) == WinCondition::TimeLimit(3600),
        game::rule_of(1) == WinCondition::TimeLimit(10_800),
        game::rule_of(2) == WinCondition::TimeLimit(18_000),
        game::rule_of(3) == WinCondition::GoalLimit(1),
        game::rule_of(4) == WinCondition::GoalLimit(3),
        game::rule_of(5) == WinCondition::GoalLimit(5),
{
}

/// The opponent drives itself in a match against it, and in no other: not in
/// practice, and not where somebody holds the second pad.
pub proof fn law_the_opponent_drives_itself_when_nobody_else_does(g: Game)
    ensures
        ({
            let r = game::started(g);
            &&& g.menu == 1 ==> !r.sim.opponent_ai
            &&& g.two_player ==> !r.sim.opponent_ai
            &&& g.menu == 0 && !g.two_player ==> r.sim.opponent_ai
            &&& r.phase == Phase::Play && !r.paused
            &&& !r.one.ball_cam && !r.two.ball_cam
            &&& r.sim.win_condition == game::rule_of(g.match_rule as int)
        }),
{
    reveal(game::started);
}

} // verus!
