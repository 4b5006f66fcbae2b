//! What the screen and the speakers tell of a match: the clock, the tank, the
//! result and the sounds.

use vstd::prelude::*;
use crate::car::Car;
use crate::flight::Team;
use crate::hud;
use crate::hud::Text;
use crate::sim::Sim;
use crate::sound;
use crate::sound::{BoostVoice, Cues, Mix};

verus! {

// ---- the screen ------------------------------------------------------------------

/// The clock reads the time left: minutes, tens of seconds and seconds, of a match
/// stepped sixty times a second.
pub proof fn law_the_clock_reads_the_time_left(clock: u32)
    requires
        clock < 36_000,
    ensures
        hud::clock_text(clock) matches Text::Clock(m, t, u) && {
            &&& 48 <= m <= 57
            &&& 48 <= t <= 53
            &&& 48 <= u <= 57
            &&& 60 * (m - 48) + 10 * (t - 48) + (u - 48) == clock as int / 60
        },
{
}

/// The tank reads in pips of 64, full at 100 and empty at none.
pub proof fn law_the_tank_reads_in_pips(c: Car)
    requires
        0 <= c.boost <= 6400,
    ensures
        0 <= hud::pips(c) <= 100,
        64 * hud::pips(c) <= c.boost < 64 * hud::pips(c) + 64,
        c.boost == 6400 ==> hud::pips(c) == 100,
        c.boost == 0 ==> hud::pips(c) == 0,
{
}

/// A match is won by whoever scored more, lost the other way about, and drawn on
/// equal scores.
pub proof fn law_the_higher_score_wins(s: Sim)
    ensures
        s.score_blue > s.score_orange ==> hud::verdict(s).0 == "WINNER",
        s.score_blue < s.score_orange ==> hud::verdict(s).0 == "DEFEAT",
        s.score_blue == s.score_orange ==> hud::verdict(s).0 == "DRAW",
{
}

/// A goal is put down to the side that scored it: the player at the bottom, whoever
/// drives the other car at the top.
pub proof fn law_a_goal_is_put_down_to_its_scorer(s: Sim, two_player: bool)
    ensures
        s.last_scorer == Team::Blue ==> hud::name_of(hud::scorer(s), two_player) == "P1",
        s.last_scorer == Team::Orange && two_player ==> hud::name_of(hud::scorer(s), two_player)
            == "P2",
        s.last_scorer == Team::Orange && !two_player ==> hud::name_of(hud::scorer(s), two_player)
            == "CPU",
{
}

// ---- the speakers ----------------------------------------------------------------

/// A tick sounds on this voice.
pub open spec fn sounds(m: Mix, c: Cues, voice: u8) -> bool {
    exists|i: int|
        0 <= i < sound::shots_for(m, c).len() && (#[trigger] sound::shots_for(m, c)[i]).voice == voice
}

/// Each event is heard when it happens and not otherwise: a touch once it is hard
/// enough, a pad, a wreck, boost as it comes on, and a goal as its celebration
/// starts.
pub proof fn law_each_event_is_heard_once(m: Mix, c: Cues)
    ensures
        sounds(m, c, sound::V_HIT) <==> c.hit > 260,
        sounds(m, c, sound::V_PAD) <==> c.pad_taken,
        sounds(m, c, sound::V_DEMO) <==> c.demo,
        sounds(m, c, sound::V_BOOST_ON) <==> c.boosting && !m.boosting,
        sounds(m, c, sound::V_GOAL) <==> c.freeze > 0 && m.last_freeze == 0,
{
    let a = sound::earned(c.hit > sound::HIT_FLOOR, sound::hit_shot(c.hit as int));
    let b = sound::earned(c.pad_taken, sound::pad_shot());
    let d = sound::earned(c.demo, sound::demo_shot());
    let e = sound::earned(c.boosting && !m.boosting, sound::boost_shot());
    let f = sound::earned(c.freeze > 0 && m.last_freeze == 0, sound::goal_shot());
    let all = sound::shots_for(m, c);
    assert(all =~= a + b + d + e + f);
    if c.hit > sound::HIT_FLOOR {
        assert(all[0] == a[0]);
    }
    if c.pad_taken {
        assert(all[a.len() as int] == b[0]);
    }
    if c.demo {
        assert(all[(a.len() + b.len()) as int] == d[0]);
    }
    if c.boosting && !m.boosting {
        assert(all[(a.len() + b.len() + d.len()) as int] == e[0]);
    }
    if c.freeze > 0 && m.last_freeze == 0 {
        assert(all[(a.len() + b.len() + d.len() + e.len()) as int] == f[0]);
    }
}

/// A harder touch is never quieter or lower than a softer one.
pub proof fn law_a_harder_touch_is_louder(soft: int, hard: int)
    requires
        260 < soft <= hard <= 100_000,
    ensures
        0 <= sound::hit_shot(soft).volume <= sound::hit_shot(hard).volume,
        30_000 <= sound::hit_shot(soft).rate <= sound::hit_shot(hard).rate,
{
}

/// The boost voice is held just while somebody boosts: it is keyed on as boost comes
/// on, off as it goes, and otherwise left as it is.
pub proof fn law_the_boost_voice_follows_the_boost(m: Mix, c: Cues)
    ensures
        c.boosting && !m.boosting ==> sound::boost_voice(m, c) == BoostVoice::On,
        !c.boosting && m.boosting ==> sound::boost_voice(m, c) == BoostVoice::Off,
        c.boosting == m.boosting ==> sound::boost_voice(m, c) == BoostVoice::Keep,
        !m.muted ==> sound::heard(m, c).boosting == c.boosting,
        !m.muted ==> sound::heard(m, c).last_freeze == c.freeze,
{
}

/// What is heard of a match is what happened in it.
pub proof fn law_the_cues_are_the_matchs(s: Sim)
    ensures
        ({
            let c = sound::cues_of(s);
            &&& c.hit == s.hit
            &&& c.pad_taken == s.pad_taken
            &&& c.demo == s.demo
            &&& c.boosting == s.car.boosting
            &&& c.freeze == s.goal_freeze
        }),
{
}

} // verus!
