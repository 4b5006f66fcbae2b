//! The disc's menu music: which song is on, and what to ask the drive for.
//!
//! The songs are the first audio tracks on a mixed-mode disc, whose track 1 is
//! data. The drive itself is driven from outside: this says when to probe it,
//! which track to start, when to poll it, and what an answer means.

use vstd::prelude::*;

verus! {

/// First audio track on a mixed-mode disc: track 1 is the data track.
pub const FIRST_TRACK: u8 = 2;
/// How many menu songs the disc carries.
pub const TRACK_COUNT: u8 = 4;
/// The disc must show at least this many tracks for the music to be there.
pub const TRACKS_NEEDED: u8 = 5;
/// How long the now-playing banner stays up once a song starts: 4 s.
pub const BANNER_TICKS: u32 = 240;
/// Ticks between drive status polls.
pub const POLL_TICKS: u32 = 30;
/// Ticks to wait before asking the drive anything.
pub const PROBE_TICK: u32 = 90;

/// Which of the songs is on, and what is known of the disc.
#[derive(Copy, Clone, Debug, PartialEq, Eq)]
pub struct Music {
    /// The disc really does carry the menu tracks.
    pub available: bool,
    /// The player has not turned it off.
    pub enabled: bool,
    /// Which of the songs is playing, from zero.
    pub index: u8,
    /// The drive has been asked what is on the disc.
    pub probed: bool,
    /// Tick the current song was started on, for the now-playing banner.
    pub announced_at: Option<u32>,
    /// Tick of the next drive status poll.
    pub next_poll: u32,
}

/// What the music wants of the drive this tick.
#[derive(Copy, Clone, Debug, PartialEq, Eq, Structural)]
pub enum DriveStep {
    /// Nothing.
    Wait,
    /// Ask it what is on the disc.
    Probe,
    /// Drive the start handshake for this absolute track.
    Play(u8),
}

/// What a change of settings wants of the drive.
#[derive(Copy, Clone, Debug, PartialEq, Eq, Structural)]
pub enum DriveOrder {
    /// Nothing.
    Hold,
    /// Start the current track from the top.
    Begin,
    /// Stop where it is.
    Pause,
}

/// `a - b` over wrapping 32-bit ticks.
pub open spec fn ticks_since(a: u32, b: u32) -> int {
    (a - b) % 0x1_0000_0000
}

/// `a` has reached `b`, over wrapping 32-bit ticks.
pub open spec fn reached(a: u32, b: u32) -> bool {
    ticks_since(a, b) < 0x7fff_ffff
}

/// A tick this far on, wrapping.
pub open spec fn ticks_on(tick: u32, by: int) -> u32 {
    ((tick + by) % 0x1_0000_0000) as u32
}

/// A packed decimal byte's value.
pub open spec fn bcd_value(v: u8) -> int {
    (v / 16) * 10 + v % 16
}

/// What the disc calls a song.
pub open spec fn song_title(index: u8) -> &'static str {
    if index == 0 {
        "KNUCKLE DUST"
    } else if index == 1 {
        "RUSTED HAMMER"
    } else if index == 2 {
        "CHAINSAW HEART"
    } else {
        "NIGHT CRAWLER"
    }
}

/// The music with the current track armed to start.
pub open spec fn begun(m: Music, tick: u32) -> Music {
    Music {
        next_poll: ticks_on(tick, POLL_TICKS as int),
        announced_at: Some(tick),
        ..m
    }
}

/// The music when the player's switch lets it play and the disc has it.
pub open spec fn playable(m: Music) -> bool {
    m.available && m.enabled
}

/// The song a step of this many lands on.
pub open spec fn song_after(index: u8, step: int) -> int {
    (index + step) % 4
}

/// The music after the player's switch was set. On starts the current song from
/// the top.
pub open spec fn switched(m: Music, on: bool, tick: u32) -> Music {
    let set = Music { enabled: on, ..m };
    if m.available && on {
        begun(set, tick)
    } else {
        set
    }
}

/// What setting the player's switch wants of the drive.
pub open spec fn switch_order(m: Music, on: bool) -> DriveOrder {
    if !m.available {
        DriveOrder::Hold
    } else if on {
        DriveOrder::Begin
    } else {
        DriveOrder::Pause
    }
}

/// The music after stepping through the songs.
pub open spec fn cycled(m: Music, step: int, tick: u32) -> Music {
    let moved = Music { index: song_after(m.index, step) as u8, ..m };
    if playable(m) {
        begun(moved, tick)
    } else {
        moved
    }
}

/// The music once the drive has answered.
pub open spec fn told(m: Music, shown: bool, tick: u32) -> Music {
    let known = Music { probed: true, available: shown, ..m };
    if playable(known) {
        begun(known, tick)
    } else {
        known
    }
}

/// Whether a track-count answer shows the menu songs: status, first and last
/// track, the last two in packed decimal.
pub open spec fn shows_menu_tracks(reply: Option<Seq<u8>>) -> bool {
    match reply {
        Some(bytes) => bytes.len() >= 3 && bcd_value(bytes[2]) >= TRACKS_NEEDED,
        None => false,
    }
}

/// BCD byte to binary. Track numbers come off the drive packed.
pub fn from_bcd(v: u8) -> (r: u8)
    ensures
        r == bcd_value(v),
{
    assert(v >> 4 == v / 16) by (bit_vector);
    assert(v & 0x0F == v % 16) by (bit_vector);
    (v >> 4) * 10 + (v & 0x0F)
}

/// Whether a track-count answer shows the menu songs.
pub fn disc_has_menu_tracks(reply: Option<&[u8]>) -> (r: bool)
    ensures
        r == shows_menu_tracks(
            match reply {
                Some(bytes) => Some(bytes@),
                None => None,
            },
        ),
{
    match reply {
        Some(bytes) => bytes.len() >= 3 && from_bcd(bytes[2]) >= TRACKS_NEEDED,
        None => false,
    }
}

/// The track to ask the drive for, with the loader's own base taken off so that
/// adding it back on the way out lands on the absolute track.
pub fn drive_track(absolute: u8, base: u8) -> (r: u8)
    ensures
        (r + base) % 256 == absolute,
{
    absolute.wrapping_sub(base)
}

impl Music {
    /// The song exists, and nothing is offered before the disc was asked.
    pub open spec fn wf(self) -> bool {
        &&& self.index < TRACK_COUNT
        &&& !self.probed ==> !self.available
    }

    /// Switched on, with nothing known of the disc yet.
    pub fn new() -> (r: Self)
        ensures
            r == (Music {
                available: false,
                enabled: true,
                index: 0,
                probed: false,
                announced_at: None,
                next_poll: 0,
            }),
            r.wf(),
    {
        Music {
            available: false,
            enabled: true,
            index: 0,
            probed: false,
            announced_at: None,
            next_poll: 0,
        }
    }

    /// Is there music to talk about?
    pub fn available(&self) -> (r: bool)
        ensures
            r == self.available,
    {
        self.available
    }

    /// Has the player left it on?
    pub fn enabled(&self) -> (r: bool)
        ensures
            r == self.enabled,
    {
        self.enabled
    }

    /// What the current song is called on the disc's own tracklist.
    pub fn track_name(&self) -> (r: &'static str)
        requires
            self.wf(),
        ensures
            r == song_title(self.index),
    {
        if self.index == 0 {
            "KNUCKLE DUST"
        } else if self.index == 1 {
            "RUSTED HAMMER"
        } else if self.index == 2 {
            "CHAINSAW HEART"
        } else {
            "NIGHT CRAWLER"
        }
    }

    /// The song to announce and how long it has been up, while a start is
    /// recent enough to announce. Switched off, there is nothing to name.
    pub fn now_playing(&self, tick: u32) -> (r: Option<(&'static str, u32)>)
        requires
            self.wf(),
        ensures
            r is Some <==> playable(*self) && (self.announced_at matches Some(at) && ticks_since(
                tick,
                at,
            ) <= BANNER_TICKS),
            r matches Some(now) ==> now.0 == song_title(self.index) && now.1 == ticks_since(
                tick,
                self.announced_at.unwrap(),
            ) && now.1 <= BANNER_TICKS,
    {
        match self.announced_at {
            None => None,
            Some(at) => {
                if !self.available || !self.enabled {
                    return None;
                }
                let elapsed: u32 = tick.wrapping_sub(at);
                if elapsed > BANNER_TICKS {
                    None
                } else {
                    Some((self.track_name(), elapsed))
                }
            },
        }
    }

    /// Arm the start handshake for the current track.
    fn begin_track(&mut self, tick: u32)
        ensures
            *final(self) == begun(*old(self), tick),
    {
        self.next_poll = tick.wrapping_add(POLL_TICKS);
        self.announced_at = Some(tick);
    }

    /// Step to the previous or next song. Says whether to start it at once;
    /// switched off, it only moves the pointer the next start will use.
    pub fn cycle_track(&mut self, step: i32, tick: u32) -> (r: bool)
        requires
            old(self).wf(),
        ensures
            r == playable(*old(self)),
            *final(self) == cycled(*old(self), step as int, tick),
            final(self).wf(),
    {
        let part: i32 = step % 4;
        let next: i32 = (self.index as i32 + part + 4) % 4;
        assert(next == song_after(self.index, step as int));
        self.index = next as u8;
        if self.available && self.enabled {
            self.begin_track(tick);
            true
        } else {
            false
        }
    }

    /// Turn the music on or off. Off pauses the drive rather than only declining
    /// to start it again.
    pub fn set_enabled(&mut self, on: bool, tick: u32) -> (r: DriveOrder)
        ensures
            r == switch_order(*old(self), on),
            *final(self) == switched(*old(self), on, tick),
    {
        self.enabled = on;
        if !self.available {
            return DriveOrder::Hold;
        }
        if on {
            self.begin_track(tick);
            DriveOrder::Begin
        } else {
            DriveOrder::Pause
        }
    }

    /// What the music wants of the drive this tick.
    pub fn step(&self, tick: u32) -> (r: DriveStep)
        requires
            self.wf(),
        ensures
            r == if !self.probed {
                if tick < PROBE_TICK {
                    DriveStep::Wait
                } else {
                    DriveStep::Probe
                }
            } else if playable(*self) {
                DriveStep::Play((FIRST_TRACK + self.index) as u8)
            } else {
                DriveStep::Wait
            },
    {
        if !self.probed {
            if tick < PROBE_TICK {
                DriveStep::Wait
            } else {
                DriveStep::Probe
            }
        } else if self.available && self.enabled {
            DriveStep::Play(FIRST_TRACK + self.index)
        } else {
            DriveStep::Wait
        }
    }

    /// Take the drive's answer to a probe. Says whether to start the current
    /// track.
    pub fn take_probe(&mut self, reply: Option<&[u8]>, tick: u32) -> (r: bool)
        requires
            old(self).wf(),
        ensures
            final(self).wf(),
            ({
                let shown = shows_menu_tracks(
                    match reply {
                        Some(bytes) => Some(bytes@),
                        None => None,
                    },
                );
                &&& r == (shown && old(self).enabled)
                &&& *final(self) == told(*old(self), shown, tick)
            }),
    {
        self.probed = true;
        self.available = disc_has_menu_tracks(reply);
        if self.available && self.enabled {
            self.begin_track(tick);
            true
        } else {
            false
        }
    }

    /// Whether to poll the drive this tick, given whether the song has started.
    /// Polling puts the next poll off.
    pub fn poll_due(&mut self, started: bool, tick: u32) -> (r: bool)
        ensures
            r == (started && reached(tick, old(self).next_poll)),
            *final(self) == if r {
                Music { next_poll: ticks_on(tick, POLL_TICKS as int), ..*old(self) }
            } else {
                *old(self)
            },
    {
        if started && tick.wrapping_sub(self.next_poll) < 0x7fff_ffff {
            self.next_poll = tick.wrapping_add(POLL_TICKS);
            true
        } else {
            false
        }
    }

    /// The song is over: start the next one.
    pub fn song_over(&mut self, tick: u32)
        requires
            old(self).wf(),
        ensures
            *final(self) == begun(
                Music { index: song_after(old(self).index, 1) as u8, ..*old(self) },
                tick,
            ),
            final(self).wf(),
    {
        self.index = (self.index + 1) % TRACK_COUNT;
        self.begin_track(tick);
    }

    /// Stop the drive. For leaving the program, not for muting.
    pub fn stop(&self) -> (r: DriveOrder)
        ensures
            r == if self.available {
                DriveOrder::Pause
            } else {
                DriveOrder::Hold
            },
    {
        if self.available {
            DriveOrder::Pause
        } else {
            DriveOrder::Hold
        }
    }
}

impl Default for Music {
    fn default() -> (r: Self)
        ensures
            r == (Music {
                available: false,
                enabled: true,
                index: 0,
                probed: false,
                announced_at: None,
                next_poll: 0,
            }),
    {
        Self::new()
    }
}

/// Stepping forward and back again comes home, and four steps one way are a
/// whole round.
pub proof fn law_songs_go_round(index: u8, step: int)
    requires
        index < TRACK_COUNT,
    ensures
        song_after(song_after(index, step) as u8, -step) == index,
        song_after(index, 4) == index,
{
}

} // verus!
