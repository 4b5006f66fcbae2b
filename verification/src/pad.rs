//! Controllers: what was pressed this tick, and what it asks of a car.

use vstd::prelude::*;
use crate::car::Input;
use crate::num;
use crate::num::clamp_i32;

verus! {

/// The buttons that went down this tick.
#[derive(Copy, Clone, Debug, PartialEq, Eq, Structural)]
pub struct Edges {
    /// D-pad up.
    pub up: bool,
    /// D-pad down.
    pub down: bool,
    /// D-pad left.
    pub left: bool,
    /// D-pad right.
    pub right: bool,
    /// Cross.
    pub cross: bool,
    /// Circle.
    pub circle: bool,
    /// Triangle.
    pub triangle: bool,
    /// Start.
    pub start: bool,
    /// Left shoulder.
    pub l1: bool,
    /// Right shoulder.
    pub r1: bool,
}

/// What one pad is holding down, and where its left stick is.
#[derive(Copy, Clone, Debug, PartialEq, Eq)]
pub struct Held {
    /// Steer left.
    pub left: bool,
    /// Steer right.
    pub right: bool,
    /// Nose down.
    pub up: bool,
    /// Nose up.
    pub down: bool,
    /// Throttle.
    pub throttle: bool,
    /// Reverse.
    pub reverse: bool,
    /// Boost.
    pub boost: bool,
    /// Jump.
    pub jump: bool,
    /// Jump went down this tick.
    pub jump_pressed: bool,
    /// Air roll, and powerslide on the ground.
    pub air_roll: bool,
    /// Sideways stick, where it clears its deadzone.
    pub stick_x: Option<i16>,
    /// Fore-and-aft stick, where it clears its deadzone. Forward is negative.
    pub stick_y: Option<i16>,
}

/// Nothing pressed.
pub open spec fn untouched() -> Edges {
    Edges {
        up: false,
        down: false,
        left: false,
        right: false,
        cross: false,
        circle: false,
        triangle: false,
        start: false,
        l1: false,
        r1: false,
    }
}

/// These buttons if `on`, and none otherwise.
pub open spec fn masked(e: Edges, on: bool) -> Edges {
    if on {
        e
    } else {
        untouched()
    }
}

/// The buttons either pad pressed.
pub open spec fn either(a: Edges, b: Edges) -> Edges {
    Edges {
        up: a.up || b.up,
        down: a.down || b.down,
        left: a.left || b.left,
        right: a.right || b.right,
        cross: a.cross || b.cross,
        circle: a.circle || b.circle,
        triangle: a.triangle || b.triangle,
        start: a.start || b.start,
        l1: a.l1 || b.l1,
        r1: a.r1 || b.r1,
    }
}

impl Edges {
    /// Nothing pressed.
    pub fn idle() -> (r: Self)
        ensures
            r == untouched(),
    {
        Edges {
            up: false,
            down: false,
            left: false,
            right: false,
            cross: false,
            circle: false,
            triangle: false,
            start: false,
            l1: false,
            r1: false,
        }
    }

    /// These buttons if `on`, and none otherwise.
    pub fn only_if(self, on: bool) -> (r: Self)
        ensures
            r == masked(self, on),
    {
        if on {
            self
        } else {
            Edges::idle()
        }
    }

    /// The buttons either pad pressed.
    pub fn or(self, other: Edges) -> (r: Self)
        ensures
            r == either(self, other),
    {
        Edges {
            up: self.up || other.up,
            down: self.down || other.down,
            left: self.left || other.left,
            right: self.right || other.right,
            cross: self.cross || other.cross,
            circle: self.circle || other.circle,
            triangle: self.triangle || other.triangle,
            start: self.start || other.start,
            l1: self.l1 || other.l1,
            r1: self.r1 || other.r1,
        }
    }
}

/// A pair of opposed buttons as an axis.
pub open spec fn opposed(plus: bool, minus: bool) -> int {
    (if plus {
        128int
    } else {
        0
    }) - (if minus {
        128int
    } else {
        0
    })
}

/// A pad as one tick of intent. The stick wins over the D-pad when it is
/// pushed, and a forward push is nose down.
pub open spec fn intent(h: Held) -> Input {
    Input {
        throttle: opposed(h.throttle, h.reverse) as i32,
        steer: num::clamp(
            match h.stick_x {
                Some(v) => v as int,
                None => opposed(h.right, h.left),
            },
            -128,
            128,
        ) as i32,
        pitch: num::clamp(
            match h.stick_y {
                Some(v) => -(v as int),
                None => opposed(h.up, h.down),
            },
            -128,
            128,
        ) as i32,
        boost: h.boost,
        jump_pressed: h.jump_pressed,
        jump_held: h.jump,
        air_roll: h.air_roll,
        handbrake: h.air_roll,
    }
}

fn axis(plus: bool, minus: bool) -> (r: i32)
    ensures
        r == opposed(plus, minus),
{
    let mut v: i32 = 0;
    if plus {
        v += 128;
    }
    if minus {
        v -= 128;
    }
    v
}

/// One pad's state into one tick of intent. Both players go through this.
pub fn read_pad(held: &Held) -> (r: Input)
    ensures
        r == intent(*held),
        -128 <= r.throttle <= 128,
        -128 <= r.steer <= 128,
        -128 <= r.pitch <= 128,
{
    let steer: i32 = match held.stick_x {
        Some(v) => v as i32,
        None => axis(held.right, held.left),
    };
    let pitch: i32 = match held.stick_y {
        Some(v) => -(v as i32),
        None => axis(held.up, held.down),
    };
    Input {
        throttle: axis(held.throttle, held.reverse),
        steer: clamp_i32(steer, -128, 128),
        pitch: clamp_i32(pitch, -128, 128),
        boost: held.boost,
        jump_pressed: held.jump_pressed,
        jump_held: held.jump,
        air_roll: held.air_roll,
        handbrake: held.air_roll,
    }
}

// ---- the analog handshake --------------------------------------------------

/// Handshake attempts per plug-in before a pad is taken as digital-only.
pub const ANALOG_ATTEMPTS: u8 = 4;
/// Ticks between handshake attempts.
pub const ANALOG_PERIOD: u32 = 15;

/// What is known of one port.
#[derive(Copy, Clone, Debug, PartialEq, Eq, Structural)]
pub struct Handshake {
    /// Attempts left since the pad was last plugged in.
    pub attempts: u8,
    /// The port answered last tick.
    pub seen: bool,
}

/// What one port says of itself this tick.
#[derive(Copy, Clone, Debug, PartialEq, Eq, Structural)]
pub struct Presence {
    /// A pad answers.
    pub connected: bool,
    /// It is in analog mode.
    pub analog: bool,
}

/// Attempts left once this tick's answer is known: plugging in re-arms them.
pub open spec fn armed(h: Handshake, p: Presence) -> u8 {
    if p.connected && !h.seen {
        ANALOG_ATTEMPTS
    } else {
        h.attempts
    }
}

/// An attempt is due: a connected pad that is not analog yet, on its beat, with
/// attempts left.
pub open spec fn attempt_due(h: Handshake, p: Presence, clock: u32) -> bool {
    clock % 15 == 0 && p.connected && !p.analog && armed(h, p) > 0
}

/// What is known of a port after this tick.
pub open spec fn handshaken(h: Handshake, p: Presence, clock: u32) -> Handshake {
    Handshake {
        attempts: if attempt_due(h, p, clock) {
            (armed(h, p) - 1) as u8
        } else {
            armed(h, p)
        },
        seen: p.connected,
    }
}

impl Handshake {
    /// Nothing seen yet, every attempt left.
    pub fn new() -> (r: Self)
        ensures
            r == (Handshake { attempts: ANALOG_ATTEMPTS, seen: false }),
    {
        Handshake { attempts: ANALOG_ATTEMPTS, seen: false }
    }

    /// One tick of one port. Says whether to ask the pad for analog mode.
    pub fn pace(&mut self, port: Presence, clock: u32) -> (r: bool)
        ensures
            r == attempt_due(*old(self), port, clock),
            *final(self) == handshaken(*old(self), port, clock),
    {
        if port.connected && !self.seen {
            self.attempts = ANALOG_ATTEMPTS;
        }
        self.seen = port.connected;
        if clock % ANALOG_PERIOD == 0 && port.connected && !port.analog && self.attempts > 0 {
            self.attempts -= 1;
            true
        } else {
            false
        }
    }
}

impl Default for Handshake {
    fn default() -> (r: Self)
        ensures
            r == (Handshake { attempts: ANALOG_ATTEMPTS, seen: false }),
    {
        Self::new()
    }
}

/// The state of a port after `n` ticks of the same pad staying plugged in and
/// digital.
pub open spec fn digital_after(h: Handshake, clock: u32, n: nat) -> Handshake
    decreases n,
{
    if n == 0 {
        h
    } else {
        handshaken(
            digital_after(h, clock, (n - 1) as nat),
            Presence { connected: true, analog: false },
            ((clock + n - 1) % 0x1_0000_0000) as u32,
        )
    }
}

/// A pad that stays plugged in is never asked more often than it has attempts:
/// they only ever run down, and at zero it is asked no more.
pub proof fn law_attempts_run_down(h: Handshake, clock: u32, n: nat)
    requires
        h.seen,
    ensures
        digital_after(h, clock, n).seen,
        digital_after(h, clock, n).attempts <= h.attempts,
        h.attempts == 0 ==> !attempt_due(
            digital_after(h, clock, n),
            Presence { connected: true, analog: false },
            clock,
        ),
    decreases n,
{
    if n > 0 {
        law_attempts_run_down(h, clock, (n - 1) as nat);
    }
}

/// Every axis a pad gives is in range, and one button is both air roll and
/// powerslide.
pub proof fn law_intent_is_in_range(h: Held)
    ensures
        -128 <= intent(h).throttle <= 128,
        -128 <= intent(h).steer <= 128,
        -128 <= intent(h).pitch <= 128,
        intent(h).handbrake == intent(h).air_roll,
{
}

} // verus!
