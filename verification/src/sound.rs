//! Sound effects: which voice each event sounds on, how loud and how high, and
//! when a voice has run out.

use vstd::prelude::*;
use crate::music;
use crate::num;
use crate::num::min_i32;
use crate::sim::Sim;

verus! {

/// Ball hits.
pub const V_HIT: u8 = 0;
/// The held boost hiss, which is noise rather than a sample.
pub const V_BOOST: u8 = 1;
/// Boost pads.
pub const V_PAD: u8 = 2;
/// Goals.
pub const V_GOAL: u8 = 3;
/// The transient at the front of a boost.
pub const V_BOOST_ON: u8 = 4;
/// Demolitions. They share the goal's sample, not its voice.
pub const V_DEMO: u8 = 5;
/// Voices driven here.
pub const VOICE_COUNT: usize = 6;

/// Resident samples.
pub const SAMPLE_COUNT: usize = 4;
/// The longest sample the cutoff arithmetic can time, in sample points.
pub const LONGEST_SAMPLE: u32 = 0x400_0000;

/// Below this a contact is a nudge, not a hit.
pub const HIT_FLOOR: i32 = 260;
/// Impulse that counts as a full-volume hit.
pub const HIT_LOUD: i32 = 2600;
/// The loudest a hit sounds.
pub const HIT_VOLUME: i32 = 10752;
/// Ticks of margin past a sample's own length before its voice is silenced.
pub const TAIL_MARGIN: u32 = 2;
/// The frame clock sounds are timed on.
pub const TICKS_HZ: u32 = 60;

/// One sound to start: a sample slot on a voice, at a volume and a rate.
#[derive(Copy, Clone, Debug, PartialEq, Eq, Structural)]
pub struct Shot {
    /// The voice it sounds on.
    pub voice: u8,
    /// The sample it plays.
    pub slot: u8,
    /// How loud.
    pub volume: i16,
    /// Playback rate, in Hz.
    pub rate: u32,
}

/// What to do with the held boost voice.
#[derive(Copy, Clone, Debug, PartialEq, Eq, Structural)]
pub enum BoostVoice {
    /// Leave it as it is.
    Keep,
    /// Key it on.
    On,
    /// Key it off.
    Off,
}

/// The part of a match the sound follows.
#[derive(Copy, Clone, Debug, PartialEq, Eq, Structural)]
pub struct Cues {
    /// Strength of this tick's ball contact.
    pub hit: i32,
    /// A pad was taken.
    pub pad_taken: bool,
    /// A car was wrecked.
    pub demo: bool,
    /// The player's car is boosting.
    pub boosting: bool,
    /// Ticks left of a goal celebration.
    pub freeze: u16,
}

/// The cues a match gives.
pub open spec fn cues_of(s: Sim) -> Cues {
    Cues {
        hit: s.hit,
        pad_taken: s.pad_taken,
        demo: s.demo,
        boosting: s.car.boosting,
        freeze: s.goal_freeze,
    }
}

/// What the sound remembers between ticks.
#[derive(Debug)]
pub struct Mixer {
    /// Sound is off.
    pub muted: bool,
    /// The boost voice is keyed on.
    pub boosting: bool,
    /// The goal celebration seen last tick.
    pub last_freeze: u16,
    /// Ticks since boot, wrapping: the clock the cutoffs are timed on.
    pub tick: u32,
    /// The tick each voice must be silenced on, while it sounds.
    pub off_at: Vec<Option<u32>>,
    /// Length of each sample, in sample points.
    pub lengths: Vec<u32>,
}

/// What a [`Mixer`] remembers, as a value.
#[verifier::ext_equal]
pub struct Mix {
    /// Sound is off.
    pub muted: bool,
    /// The boost voice is keyed on.
    pub boosting: bool,
    /// The goal celebration seen last tick.
    pub last_freeze: u16,
    /// Ticks since boot, wrapping.
    pub tick: u32,
    /// The tick each voice must be silenced on, while it sounds.
    pub off_at: Seq<Option<u32>>,
    /// Length of each sample, in sample points.
    pub lengths: Seq<u32>,
}

impl View for Mixer {
    type V = Mix;

    open spec fn view(&self) -> Mix {
        Mix {
            muted: self.muted,
            boosting: self.boosting,
            last_freeze: self.last_freeze,
            tick: self.tick,
            off_at: self.off_at@,
            lengths: self.lengths@,
        }
    }
}

/// The shot a ball contact earns: volume and pitch both track how hard it was.
pub open spec fn hit_shot(hit: int) -> Shot {
    Shot {
        voice: V_HIT,
        slot: 0,
        volume: ((num::min(hit - HIT_FLOOR, HIT_LOUD as int) * HIT_VOLUME) / (HIT_LOUD as int)) as i16,
        rate: (30_000 + num::min(hit, HIT_LOUD as int) * 6) as u32,
    }
}

/// The shot a pad earns.
pub open spec fn pad_shot() -> Shot {
    Shot { voice: V_PAD, slot: 1, volume: 0x1E00, rate: 44_100 }
}

/// The shot a demolition earns.
pub open spec fn demo_shot() -> Shot {
    Shot { voice: V_DEMO, slot: 2, volume: 0x2C00, rate: 44_100 }
}

/// The shot a boost starts with.
pub open spec fn boost_shot() -> Shot {
    Shot { voice: V_BOOST_ON, slot: 3, volume: 0x1C00, rate: 44_100 }
}

/// The shot a goal earns: the same sample as a demolition, pitched down.
pub open spec fn goal_shot() -> Shot {
    Shot { voice: V_GOAL, slot: 2, volume: 0x3000, rate: 32_000 }
}

/// One shot, if it was earned.
pub open spec fn earned(yes: bool, shot: Shot) -> Seq<Shot> {
    if yes {
        seq![shot]
    } else {
        Seq::empty()
    }
}

/// The shots one tick of a match earns, in order.
pub open spec fn shots_for(m: Mix, c: Cues) -> Seq<Shot> {
    earned(c.hit > HIT_FLOOR, hit_shot(c.hit as int)) + earned(c.pad_taken, pad_shot()) + earned(
        c.demo,
        demo_shot(),
    ) + earned(c.boosting && !m.boosting, boost_shot()) + earned(
        c.freeze > 0 && m.last_freeze == 0,
        goal_shot(),
    )
}

/// What one tick does with the boost voice: only its edges are acted on.
pub open spec fn boost_voice(m: Mix, c: Cues) -> BoostVoice {
    if c.boosting == m.boosting {
        BoostVoice::Keep
    } else if c.boosting {
        BoostVoice::On
    } else {
        BoostVoice::Off
    }
}

/// Ticks until a sample of `len` sample points at `rate` has run out.
pub open spec fn shot_ticks(len: int, rate: int) -> int {
    (len * TICKS_HZ) / num::max(rate, 1) + TAIL_MARGIN
}

/// A voice with this deadline has run out.
pub open spec fn run_out(now: u32, deadline: Option<u32>) -> bool {
    deadline matches Some(at) && music::reached(now, at)
}

/// The deadlines left once the voices that have run out are silenced.
pub open spec fn still_sounding(now: u32, off_at: Seq<Option<u32>>) -> Seq<Option<u32>> {
    Seq::new(
        off_at.len(),
        |i: int|
            if run_out(now, off_at[i]) {
                None::<u32>
            } else {
                off_at[i]
            },
    )
}

/// The voices below `n` that have run out, in order.
pub open spec fn silenced(now: u32, off_at: Seq<Option<u32>>, n: nat) -> Seq<u8>
    decreases n,
{
    if n == 0 {
        Seq::empty()
    } else if run_out(now, off_at[n - 1]) {
        silenced(now, off_at, (n - 1) as nat).push((n - 1) as u8)
    } else {
        silenced(now, off_at, (n - 1) as nat)
    }
}

/// The deadlines once these shots have started, each on its own voice.
pub open spec fn timed(m: Mix, shots: Seq<Shot>) -> Seq<Option<u32>>
    decreases shots.len(),
{
    if shots.len() == 0 {
        m.off_at
    } else {
        let s = shots.last();
        timed(m, shots.drop_last()).update(
            s.voice as int,
            Some(
                music::ticks_on(m.tick, shot_ticks(m.lengths[s.slot as int] as int, s.rate as int)),
            ),
        )
    }
}

/// The clock moved on and the voices that ran out silenced.
pub open spec fn clocked(m: Mix) -> Mix {
    let tick = music::ticks_on(m.tick, 1);
    Mix { tick, off_at: still_sounding(tick, m.off_at), ..m }
}

/// One tick of a match, heard.
pub open spec fn heard(m: Mix, c: Cues) -> Mix {
    let now = clocked(m);
    if m.muted {
        now
    } else {
        Mix {
            boosting: c.boosting,
            last_freeze: c.freeze,
            off_at: timed(now, shots_for(now, c)),
            ..now
        }
    }
}

/// Everything silenced.
pub open spec fn hushed(m: Mix) -> Mix {
    Mix {
        boosting: false,
        last_freeze: 0,
        off_at: Seq::new(VOICE_COUNT as nat, |i: int| None::<u32>),
        ..m
    }
}

/// What to do with the voices this tick.
#[derive(Debug)]
pub struct Mixdown {
    /// Voices to key off, their sounds over.
    pub off: Vec<u8>,
    /// Sounds to start.
    pub shots: Vec<Shot>,
    /// What to do with the held boost voice.
    pub boost: BoostVoice,
}

/// A silent row of voices.
fn idle_voices() -> (r: Vec<Option<u32>>)
    ensures
        r@ == Seq::new(VOICE_COUNT as nat, |i: int| None::<u32>),
{
    let mut row: Vec<Option<u32>> = Vec::new();
    let mut i: usize = 0;
    while i < VOICE_COUNT
        invariant
            i <= VOICE_COUNT,
            row@ == Seq::new(i as nat, |i: int| None::<u32>),
        decreases VOICE_COUNT - i,
    {
        row.push(None);
        i += 1;
    }
    row
}

impl Mixer {
    /// A deadline for every voice, and a length for every sample that the clock
    /// arithmetic can hold.
    pub open spec fn wf(&self) -> bool {
        &&& self.off_at.len() == VOICE_COUNT
        &&& self.lengths.len() == SAMPLE_COUNT
        &&& forall|i: int|
            0 <= i < SAMPLE_COUNT ==> #[trigger] self.lengths[i] <= LONGEST_SAMPLE
    }

    /// Sounding, with nothing held. Takes the sample lengths; refused unless
    /// there are four and each is within the clock arithmetic's reach.
    pub fn new(lengths: Vec<u32>) -> (r: Option<Self>)
        ensures
            r is Some <==> lengths.len() == SAMPLE_COUNT && forall|i: int|
                0 <= i < SAMPLE_COUNT ==> #[trigger] lengths[i] <= LONGEST_SAMPLE,
            r matches Some(m) ==> m.wf() && m@ == hushed(
                Mix {
                    muted: false,
                    boosting: false,
                    last_freeze: 0,
                    tick: 0,
                    off_at: Seq::empty(),
                    lengths: lengths@,
                },
            ),
    {
        if lengths.len() != SAMPLE_COUNT {
            return None;
        }
        let mut i: usize = 0;
        while i < SAMPLE_COUNT
            invariant
                i <= SAMPLE_COUNT,
                lengths.len() == SAMPLE_COUNT,
                forall|j: int| 0 <= j < i ==> #[trigger] lengths[j] <= LONGEST_SAMPLE,
            decreases SAMPLE_COUNT - i,
        {
            if lengths[i] > LONGEST_SAMPLE {
                return None;
            }
            i += 1;
        }
        Some(
            Mixer {
                muted: false,
                boosting: false,
                last_freeze: 0,
                tick: 0,
                off_at: idle_voices(),
                lengths,
            },
        )
    }

    /// Is sound currently off?
    pub fn muted(&self) -> (r: bool)
        ensures
            r == self.muted,
    {
        self.muted
    }

    /// Turn sound off or back on. Says whether every voice has to be keyed off.
    pub fn set_muted(&mut self, off: bool) -> (r: bool)
        requires
            old(self).wf(),
        ensures
            final(self).wf(),
            r == off,
            final(self)@ == if off {
                hushed(Mix { muted: true, ..old(self)@ })
            } else {
                Mix { muted: false, ..old(self)@ }
            },
    {
        self.muted = off;
        if off {
            self.stop_all();
        }
        off
    }

    /// Forget what is held and what is timed: every voice is being keyed off.
    pub fn stop_all(&mut self)
        requires
            old(self).wf(),
        ensures
            final(self).wf(),
            final(self)@ == hushed(old(self)@),
    {
        self.boosting = false;
        self.last_freeze = 0;
        self.off_at = idle_voices();
    }

    /// Drop the deadlines of the voices whose sound has run out, and name them.
    fn expire_voices(&mut self) -> (off: Vec<u8>)
        requires
            old(self).wf(),
        ensures
            final(self).wf(),
            final(self)@ == (Mix {
                off_at: still_sounding(old(self).tick, old(self).off_at@),
                ..old(self)@
            }),
            off@ == silenced(old(self).tick, old(self).off_at@, VOICE_COUNT as nat),
    {
        let mut off: Vec<u8> = Vec::new();
        let mut left: Vec<Option<u32>> = Vec::new();
        let now: u32 = self.tick;
        let mut i: usize = 0;
        while i < VOICE_COUNT
            invariant
                i <= VOICE_COUNT,
                self.wf(),
                *self == *old(self),
                now == self.tick,
                left@ == still_sounding(now, self.off_at@).take(i as int),
                off@ == silenced(now, self.off_at@, i as nat),
            decreases VOICE_COUNT - i,
        {
            if expired(now, self.off_at[i]) {
                off.push(i as u8);
                left.push(None);
            } else {
                left.push(self.off_at[i]);
            }
            i += 1;
        }
        assert(left@ == still_sounding(now, self.off_at@));
        self.off_at = left;
        off
    }

    /// The shots one tick of a match earns.
    fn earn(&self, cues: &Cues) -> (shots: Vec<Shot>)
        ensures
            shots@ == shots_for(self@, *cues),
            forall|i: int|
                0 <= i < shots.len() ==> (#[trigger] shots[i]).voice < VOICE_COUNT && shots[i].slot
                    < SAMPLE_COUNT,
    {
        let mut shots: Vec<Shot> = Vec::new();
        if cues.hit > HIT_FLOOR {
            let over: i32 = min_i32(cues.hit - HIT_FLOOR, HIT_LOUD);
            let rate: i32 = 30_000 + min_i32(cues.hit, HIT_LOUD) * 6;
            let volume: i32 = over * HIT_VOLUME / HIT_LOUD;
            shots.push(Shot { voice: V_HIT, slot: 0, volume: volume as i16, rate: rate as u32 });
        }
        if cues.pad_taken {
            shots.push(Shot { voice: V_PAD, slot: 1, volume: 0x1E00, rate: 44_100 });
        }
        if cues.demo {
            shots.push(Shot { voice: V_DEMO, slot: 2, volume: 0x2C00, rate: 44_100 });
        }
        if cues.boosting && !self.boosting {
            shots.push(Shot { voice: V_BOOST_ON, slot: 3, volume: 0x1C00, rate: 44_100 });
        }
        if cues.freeze > 0 && self.last_freeze == 0 {
            shots.push(Shot { voice: V_GOAL, slot: 2, volume: 0x3000, rate: 32_000 });
        }
        assert(shots@ =~= shots_for(self@, *cues));
        shots
    }

    /// Time the shots' voices: each is to be silenced once its sample has run
    /// out at the rate it plays at.
    fn start(&mut self, shots: &Vec<Shot>)
        requires
            old(self).wf(),
            forall|i: int|
                0 <= i < shots.len() ==> (#[trigger] shots[i]).voice < VOICE_COUNT && shots[i].slot
                    < SAMPLE_COUNT,
        ensures
            final(self).wf(),
            final(self)@ == (Mix { off_at: timed(old(self)@, shots@), ..old(self)@ }),
    {
        let mut i: usize = 0;
        assert(shots@.take(0) =~= Seq::<Shot>::empty());
        while i < shots.len()
            invariant
                i <= shots.len(),
                self.wf(),
                self@ == (Mix { off_at: timed(old(self)@, shots@.take(i as int)), ..old(self)@ }),
                forall|i: int|
                    0 <= i < shots.len() ==> (#[trigger] shots[i]).voice < VOICE_COUNT
                        && shots[i].slot < SAMPLE_COUNT,
            decreases shots.len() - i,
        {
            let shot = shots[i];
            let at: u32 = deadline(self.tick, self.lengths[shot.slot as usize], shot.rate);
            self.off_at.set(shot.voice as usize, Some(at));
            proof {
                let now = shots@.take(i as int + 1);
                assert(now.drop_last() =~= shots@.take(i as int));
                assert(now.last() == shot);
            }
            i += 1;
        }
        assert(shots@.take(shots@.len() as int) =~= shots@);
    }

    /// Read one tick of the match: the voices whose sounds are over, the shots
    /// it earned, and what to do with the boost voice. Muted, the clock and the
    /// cutoffs still run, and nothing else.
    pub fn update(&mut self, cues: &Cues) -> (r: Mixdown)
        requires
            old(self).wf(),
        ensures
            final(self).wf(),
            final(self)@ == heard(old(self)@, *cues),
            r.off@ == silenced(
                music::ticks_on(old(self).tick, 1),
                old(self).off_at@,
                VOICE_COUNT as nat,
            ),
            r.shots@ == if old(self).muted {
                Seq::empty()
            } else {
                shots_for(old(self)@, *cues)
            },
            r.boost == if old(self).muted {
                BoostVoice::Keep
            } else {
                boost_voice(old(self)@, *cues)
            },
    {
        self.tick = self.tick.wrapping_add(1);
        let off = self.expire_voices();
        if self.muted {
            return Mixdown { off, shots: Vec::new(), boost: BoostVoice::Keep };
        }
        assert(self@ == clocked(old(self)@));
        let shots = self.earn(cues);
        let boost = if cues.boosting == self.boosting {
            BoostVoice::Keep
        } else if cues.boosting {
            BoostVoice::On
        } else {
            BoostVoice::Off
        };
        self.start(&shots);
        self.boosting = cues.boosting;
        self.last_freeze = cues.freeze;
        Mixdown { off, shots, boost }
    }
}

/// The cues a match gives.
pub fn cues(s: &Sim) -> (r: Cues)
    ensures
        r == cues_of(*s),
{
    Cues {
        hit: s.hit,
        pad_taken: s.pad_taken,
        demo: s.demo,
        boosting: s.car.boosting,
        freeze: s.goal_freeze,
    }
}

/// The tick a voice started now has to be silenced on.
pub fn deadline(tick: u32, sample_len: u32, rate: u32) -> (r: u32)
    requires
        sample_len <= LONGEST_SAMPLE,
    ensures
        r == music::ticks_on(tick, shot_ticks(sample_len as int, rate as int)),
{
    let hz: u32 = if rate == 0 {
        1
    } else {
        rate
    };
    let body: u32 = sample_len * TICKS_HZ / hz;
    proof {
        assert(body <= sample_len * TICKS_HZ) by (nonlinear_arith)
            requires
                hz >= 1,
                body == (sample_len * TICKS_HZ) as u32 / hz,
                sample_len * TICKS_HZ <= 0xffff_ffff,
        ;
    }
    tick.wrapping_add(body + TAIL_MARGIN)
}

/// Whether a voice with this deadline is to be keyed off now.
pub fn expired(now: u32, deadline: Option<u32>) -> (r: bool)
    ensures
        r == run_out(now, deadline),
{
    match deadline {
        Some(at) => now.wrapping_sub(at) < 0x7fff_ffff,
        None => false,
    }
}

/// No event ever cuts another off: no two sound on one voice, and none on the
/// held boost's.
pub proof fn law_every_event_has_its_own_voice(m: Mix, c: Cues, i: int, j: int)
    requires
        0 <= i < j < shots_for(m, c).len(),
    ensures
        shots_for(m, c)[i].voice != shots_for(m, c)[j].voice,
        shots_for(m, c)[i].voice != V_BOOST,
        shots_for(m, c)[j].voice != V_BOOST,
{
}

/// Every shot a tick starts is timed: its voice is silenced once its sample has
/// run out, whichever other shots started beside it.
pub proof fn law_every_shot_is_cut_off(m: Mix, c: Cues, i: int)
    requires
        0 <= i < shots_for(m, c).len(),
        m.off_at.len() == VOICE_COUNT,
    ensures
        timed(m, shots_for(m, c))[shots_for(m, c)[i].voice as int] == Some(
            music::ticks_on(
                m.tick,
                shot_ticks(
                    m.lengths[shots_for(m, c)[i].slot as int] as int,
                    shots_for(m, c)[i].rate as int,
                ),
            ),
        ),
{
    let shots = shots_for(m, c);
    assert forall|j: int, k: int| 0 <= j < k < shots.len() implies (#[trigger] shots[j]).voice != (
    #[trigger] shots[k]).voice && shots[j].voice < VOICE_COUNT && shots[k].voice < VOICE_COUNT by {
    }
    assert forall|j: int| 0 <= j < shots.len() implies (#[trigger] shots[j]).voice < VOICE_COUNT by {
    }
    lemma_timed(m, shots, i);
}

proof fn lemma_timed(m: Mix, shots: Seq<Shot>, i: int)
    requires
        0 <= i < shots.len(),
        m.off_at.len() == VOICE_COUNT,
        forall|j: int| 0 <= j < shots.len() ==> (#[trigger] shots[j]).voice < VOICE_COUNT,
        forall|j: int, k: int|
            0 <= j < k < shots.len() ==> (#[trigger] shots[j]).voice != (#[trigger] shots[k]).voice,
    ensures
        timed(m, shots)[shots[i].voice as int] == Some(
            music::ticks_on(
                m.tick,
                shot_ticks(m.lengths[shots[i].slot as int] as int, shots[i].rate as int),
            ),
        ),
    decreases shots.len(),
{
    let rest = shots.drop_last();
    assert forall|j: int| 0 <= j < rest.len() implies (#[trigger] rest[j]).voice < VOICE_COUNT by {
        assert(shots[j].voice < VOICE_COUNT);
    }
    lemma_timed_len(m, rest);
    if i < shots.len() - 1 {
        assert forall|j: int, k: int| 0 <= j < k < rest.len() implies (#[trigger] rest[j]).voice != (
        #[trigger] rest[k]).voice by {
            assert(shots[j].voice != shots[k].voice);
        }
        lemma_timed(m, rest, i);
        assert(shots[i].voice != shots[shots.len() - 1].voice);
    }
}

proof fn lemma_timed_len(m: Mix, shots: Seq<Shot>)
    requires
        m.off_at.len() == VOICE_COUNT,
        forall|j: int| 0 <= j < shots.len() ==> (#[trigger] shots[j]).voice < VOICE_COUNT,
    ensures
        timed(m, shots).len() == m.off_at.len(),
    decreases shots.len(),
{
    if shots.len() > 0 {
        let rest = shots.drop_last();
        assert forall|j: int| 0 <= j < rest.len() implies (#[trigger] rest[j]).voice
            < VOICE_COUNT by {
            assert(shots[j].voice < VOICE_COUNT);
        }
        lemma_timed_len(m, rest);
    }
}

/// A held boost is keyed on once: the tick after an edge, the same state is no
/// edge.
pub proof fn law_boost_voice_acts_on_edges(m: Mix, c: Cues)
    ensures
        boost_voice(Mix { boosting: c.boosting, ..m }, c) == BoostVoice::Keep,
{
}

} // verus!
