//! The boost pads.

use vstd::prelude::*;
use crate::tuning::{BOOST_MAX, PADS};

verus! {

/// How many pads there are.
pub const PAD_COUNT: usize = 34;

/// One boost pad on the pitch.
#[derive(Copy, Clone, Debug, PartialEq, Eq, Structural)]
pub struct Pad {
    /// Position, in uu.
    pub x: i32,
    /// Position, in uu.
    pub z: i32,
    /// Big pads fill the tank; small ones top it up.
    pub big: bool,
}

/// The pad at this place in the layout.
#[verifier::opaque]
pub open spec fn pad_at(i: int) -> Pad {
    Pad { x: PADS@[i].0, z: PADS@[i].1, big: PADS@[i].2 }
}

impl Pad {
    /// Pickup radius, in uu.
    pub open spec fn reach(self) -> int {
        if self.big {
            208
        } else {
            144
        }
    }

    /// Ticks it stays dead after being taken.
    pub open spec fn downtime(self) -> int {
        if self.big {
            600
        } else {
            240
        }
    }

    /// What it gives, in boost storage units.
    pub open spec fn gift(self) -> int {
        if self.big {
            BOOST_MAX as int
        } else {
            768
        }
    }

    /// The pad at this place in the layout.
    pub fn at(i: usize) -> (r: Self)
        requires
            i < PAD_COUNT,
        ensures
            r == pad_at(i as int),
            -3584 <= r.x <= 3584,
            -4240 <= r.z <= 4240,
    {
        proof {
            law_pads_are_inside(i as int);
            reveal(pad_at);
        }
        let (x, z, big): (i32, i32, bool) = PADS[i];
        Pad { x, z, big }
    }

    /// Pickup radius, in uu (208 and 144).
    pub fn radius(&self) -> (r: i32)
        ensures
            r == self.reach(),
    {
        if self.big {
            208
        } else {
            144
        }
    }

    /// Ticks it stays dead after being taken (10 s and 4 s).
    pub fn respawn(&self) -> (r: u16)
        ensures
            r == self.downtime(),
    {
        if self.big {
            600
        } else {
            240
        }
    }

    /// What it gives, in boost storage units.
    pub fn payout(&self) -> (r: i32)
        ensures
            r == self.gift(),
    {
        if self.big {
            BOOST_MAX
        } else {
            768
        }
    }
}

/// Every pad sits inside the side walls, the goal lines and the corner planes,
/// and the big ones are exactly the first six.
pub proof fn law_pads_are_inside(i: int)
    requires
        0 <= i < PAD_COUNT,
    ensures
        -3584 <= pad_at(i).x <= 3584,
        -4240 <= pad_at(i).z <= 4240,
        crate::num::abs(pad_at(i).x as int) + crate::num::abs(pad_at(i).z as int)
            <= crate::tuning::CORNER,
        pad_at(i).big <==> i < 6,
{
    reveal(pad_at);
}

/// The timers as one array.
pub open spec fn timers_of(s: Seq<u16>) -> [u16; 34] {
    choose|a: [u16; 34]| a@ == s
}

/// The first `n` entries of a sequence, written into an array.
spec fn written(s: Seq<u16>, n: nat) -> [u16; 34]
    decreases n,
{
    if n == 0 {
        timers_of(s)
    } else {
        vstd::array::spec_array_update(written(s, (n - 1) as nat), n - 1, s[n - 1])
    }
}

proof fn lemma_written(s: Seq<u16>, n: nat)
    requires
        n <= 34,
        s.len() == 34,
    ensures
        forall|i: int| 0 <= i < n ==> #[trigger] written(s, n)@[i] == s[i],
    decreases n,
{
    if n > 0 {
        lemma_written(s, (n - 1) as nat);
        let before = written(s, (n - 1) as nat);
        assert(before@.len() == 34);
        assert(written(s, n)@ == before@.update(n - 1, s[n - 1]));
    }
}

/// Timers hold what they were made of.
pub proof fn lemma_timers_hold(s: Seq<u16>)
    requires
        s.len() == 34,
    ensures
        timers_of(s)@ == s,
{
    lemma_written(s, 34);
    let a = written(s, 34);
    assert(a@ =~= s);
}

/// An array is the only one with its contents.
pub proof fn lemma_timers(a: [u16; 34])
    ensures
        timers_of(a@) == a,
{
    let b = timers_of(a@);
    assert(b@ == a@);
    assert(b =~= a);
}

} // verus!
