//! What holds of the game around the match.

use vstd::prelude::*;
use crate::game;
use crate::game::{Game, Phase, Player, INTRO_GRACE, INTRO_TOTAL};
use crate::inplay;
use crate::pad;
use crate::pad::Edges;
use crate::tick;
use crate::trig::Angles;

verus! {

/// Changing settings never touches the match.
pub proof fn law_settings_leave_the_match_alone(g: Game, e: Edges, tick: u32)
    ensures
        game::settings_stepped(g, e, tick).0.sim == g.sim,
        game::settings_stepped(g, e, tick).0.phase == g.phase,
{
    reveal(game::settings_stepped);
    reveal(game::setting_changed);
}

/// A pause holds the match: nothing on the pause menu steps it.
pub proof fn law_a_pause_holds_the_match(g: Game, e: Edges, tick: u32)
    ensures
        game::pause_stepped(g, e, tick).0.sim == g.sim,
{
    reveal(game::pause_stepped);
    reveal(game::pause_chosen);
    law_settings_leave_the_match_alone(g, e, tick);
}

/// A match in play is never stuck: unless it is paused, a tick of the game steps
/// it.
pub proof fn law_a_match_in_play_is_never_stuck(t: Angles, g: Game, one: Player, two: Player)
    requires
        inplay::smooth(t),
        inplay::in_play(g.sim),
    ensures
        !game::play_stepped(t, g, one, two).1.stuck,
        !one.edges.start ==> game::play_stepped(t, g, one, two).0.sim == tick::advanced(
            t,
            g.sim,
            pad::intent(one.held),
            game::rival_intent(g, two),
        ),
{
    reveal(game::play_stepped);
    reveal(game::recammed);
    reveal(game::match_fits);
    reveal(game::match_on);
    inplay::law_a_match_in_play_can_be_stepped(
        t,
        g.sim,
        pad::intent(one.held),
        game::rival_intent(g, two),
    );
}

/// The front end never steps a match either.
pub proof fn law_the_front_end_leaves_the_match_alone(g: Game, e: Edges, tick: u32)
    ensures
        game::title_stepped(g, e, tick).0.sim == g.sim,
{
    reveal(game::title_stepped);
    reveal(game::browsed);
    reveal(game::opened);
    law_settings_leave_the_match_alone(g, e, tick);
}

/// Stepping a paint never lands on the one the other seat is wearing, and moves;
/// stepping back restores it.
pub proof fn law_seats_never_share_a_paint(paint: usize, step: int, taken: usize)
    requires
        paint < 8,
        taken < 8,
        paint != taken,
        step == 1 || step == -1,
    ensures
        game::next_paint(paint, step, taken) < 8,
        game::next_paint(paint, step, taken) != taken,
        game::next_paint(paint, step, taken) != paint,
        game::next_paint(game::next_paint(paint, step, taken), -step, taken) == paint,
{
    lemma_round(paint, step);
    let one = game::stepped(paint, step, 8);
    lemma_round(one, step);
    lemma_twice_round(paint, step);
}

/// One step round eight lands somewhere else, and one step back undoes it.
proof fn lemma_round(at: usize, step: int)
    requires
        at < 8,
        step == 1 || step == -1,
    ensures
        game::stepped(at, step, 8) < 8,
        game::stepped(at, step, 8) != at,
        game::stepped(game::stepped(at, step, 8), -step, 8) == at,
{
    reveal(game::stepped);
}

/// Two steps round eight land somewhere else too.
proof fn lemma_twice_round(at: usize, step: int)
    requires
        at < 8,
        step == 1 || step == -1,
    ensures
        game::stepped(game::stepped(at, step, 8), step, 8) != at,
{
    reveal(game::stepped);
}

/// A held button cannot skip the splash before it is seen, and it always ends.
pub proof fn law_the_splash_is_seen_and_ends(g: Game, e: Edges, tick: u32)
    requires
        g.phase == Phase::Intro,
        0 <= g.intro_t < INTRO_TOTAL,
    ensures
        g.intro_t < INTRO_GRACE ==> game::intro_stepped(g, e, tick).phase == Phase::Intro,
        g.intro_t == INTRO_TOTAL - 1 ==> game::intro_stepped(g, e, tick).phase == Phase::Title,
        game::intro_stepped(g, e, tick).intro_t == g.intro_t + 1,
{
    reveal(game::intro_stepped);
}

/// A match starts when, and only when, every seat that has a pad on it has
/// locked in: nobody readies up on the opponent's behalf.
pub proof fn law_a_match_waits_for_its_players(g: Game, e: Edges)
    requires
        g.phase == Phase::Select,
    ensures
        game::select_closed(g, e).phase == Phase::Play <==> g.one.ready && (g.two_player
            ==> g.two.ready),
        !g.two_player ==> (game::locked_in(g) <==> g.one.ready),
{
    reveal(game::select_closed);
    reveal(game::started);
}

/// A match starts under the rule that was picked, against the opponent only
/// with one pad and not in practice.
pub proof fn law_a_match_is_what_was_picked(g: Game)
    ensures
        game::started(g).sim.win_condition == game::rule_of(g.match_rule as int),
        game::started(g).sim.opponent_ai <==> !g.two_player && g.menu != game::ROW_PRACTICE,
        !game::started(g).one.ball_cam && !game::started(g).two.ball_cam,
        !game::started(g).paused,
{
    reveal(game::started);
}

/// A pad that comes or goes takes nothing locked in with it.
pub proof fn law_a_pad_change_unlocks(g: Game, connected: bool)
    requires
        connected != g.two_player,
    ensures
        !game::seated(g, connected).two.ready,
        game::seated(g, connected).focus == 0,
        game::seated(g, connected).two_player == connected,
{
    reveal(game::seated);
}

/// The opponent a tick draws never wears player one's paint.
pub proof fn law_the_rival_wears_its_own(g: Game, tick: u32)
    requires
        g.one.paint < 8,
    ensures
        game::drawn_rival(g, tick).paint < 8,
        game::drawn_rival(g, tick).paint != g.one.paint,
        game::drawn_rival(g, tick).car < 3,
{
    reveal(game::drawn_rival);
    reveal(game::stepped);
}

/// Walking a list up and down again comes home, and never leaves the list.
pub proof fn law_lists_go_round(i: usize, n: int)
    requires
        0 <= i < n <= 64,
    ensures
        game::walked(i, n, true, false) < n,
        game::walked(i, n, false, true) < n,
        game::walked(game::walked(i, n, true, false), n, false, true) == i,
        game::walked(game::walked(i, n, false, true), n, true, false) == i,
{
    reveal(game::walked);
    assert((i + n - 1) % n == if i == 0 {
        n - 1
    } else {
        i - 1
    }) by (nonlinear_arith)
        requires
            0 <= i < n,
    ;
    assert((i + 1) % n == if i == n - 1 {
        0
    } else {
        i + 1
    }) by (nonlinear_arith)
        requires
            0 <= i < n,
    ;
    let up = game::walked(i, n, true, false);
    let down = game::walked(i, n, false, true);
    assert((up + 1) % n == i) by (nonlinear_arith)
        requires
            0 <= i < n,
            up == if i == 0 {
                n - 1
            } else {
                i - 1
            },
    ;
    assert((down + n - 1) % n == i) by (nonlinear_arith)
        requires
            0 <= i < n,
            down == if i == n - 1 {
                0
            } else {
                i + 1
            },
    ;
}

} // verus!
