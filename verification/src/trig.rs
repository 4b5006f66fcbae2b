//! Sines, cosines and bearings, supplied from outside.
//!
//! Angles are Q0.12: 4096 is one full turn. The two tables are checked when
//! they are handed over; the bearing function is taken as it is.

use vstd::prelude::*;

verus! {

/// Q12 angles in one full turn.
pub const TURN: usize = 4096;

/// What a [`Trig`] computes, as mathematical functions.
pub struct Angles {
    /// Q12 sine of each Q0.12 angle in one turn.
    pub sine: Seq<i32>,
    /// Q12 cosine of each Q0.12 angle in one turn.
    pub cosine: Seq<i32>,
    /// The Q0.12 angle whose tangent is the first over the second.
    pub bearing: spec_fn(i32, i32) -> u16,
}

impl Angles {
    /// Q12 sine.
    pub open spec fn sin(self, angle: u16) -> int {
        self.sine[(angle % 4096) as int] as int
    }

    /// Q12 cosine.
    pub open spec fn cos(self, angle: u16) -> int {
        self.cosine[(angle % 4096) as int] as int
    }

    /// The Q0.12 angle of the direction `(x, y)`.
    pub open spec fn atan2(self, y: int, x: int) -> u16 {
        (self.bearing)(y as i32, x as i32)
    }
}

/// A table holds one Q12 value for every angle of a turn.
pub open spec fn is_wave(t: Seq<i32>) -> bool {
    &&& t.len() == 4096
    &&& forall|i: int| 0 <= i < t.len() ==> -4096 <= #[trigger] t[i] <= 4096
}

/// The trigonometry a match is stepped with: a sine and a cosine table of one
/// turn each, and a bearing function.
pub struct Trig<F> {
    sin: Vec<i32>,
    cos: Vec<i32>,
    atan2: F,
}

impl<F: Fn(i32, i32) -> u16> Trig<F> {
    /// The functions this computes.
    pub closed spec fn model(&self) -> Angles {
        Angles {
            sine: self.sin@,
            cosine: self.cos@,
            bearing: |y: i32, x: i32| choose|a: u16| self.atan2.ensures((y, x), a),
        }
    }

    /// The tables are whole turns of Q12 values, and the bearing function takes
    /// every pair and gives each pair one answer.
    pub closed spec fn wf(&self) -> bool {
        &&& is_wave(self.sin@)
        &&& is_wave(self.cos@)
        &&& takes_all(self.atan2)
        &&& one_answer(self.atan2)
    }

    /// Takes the two tables and the bearing function. Tables that are not one
    /// whole turn of values in `-4096..=4096` are refused.
    pub fn new(sin: Vec<i32>, cos: Vec<i32>, atan2: F) -> (r: Option<Self>)
        requires
            takes_all(atan2),
            one_answer(atan2),
        ensures
            r is Some <==> is_wave(sin@) && is_wave(cos@),
            r matches Some(t) ==> {
                &&& t.wf()
                &&& t.model().sine == sin@
                &&& t.model().cosine == cos@
                &&& forall|y: i32, x: i32, a: u16|
                    #[trigger] atan2.ensures((y, x), a) ==> t.model().atan2(y as int, x as int) == a
            },
    {
        if whole_wave(&sin) && whole_wave(&cos) {
            Some(Trig { sin, cos, atan2 })
        } else {
            None
        }
    }

    /// Every sine and cosine is a Q12 value.
    pub proof fn lemma_waves(&self)
        requires
            self.wf(),
        ensures
            forall|a: u16| -4096 <= #[trigger] self.model().sin(a) <= 4096,
            forall|a: u16| -4096 <= #[trigger] self.model().cos(a) <= 4096,
    {
    }

    /// Q12 sine of a Q0.12 angle.
    pub fn sin_q12(&self, angle: u16) -> (r: i32)
        requires
            self.wf(),
        ensures
            r == self.model().sin(angle),
            -4096 <= r <= 4096,
    {
        self.sin[(angle % 4096) as usize]
    }

    /// Q12 cosine of a Q0.12 angle.
    pub fn cos_q12(&self, angle: u16) -> (r: i32)
        requires
            self.wf(),
        ensures
            r == self.model().cos(angle),
            -4096 <= r <= 4096,
    {
        self.cos[(angle % 4096) as usize]
    }

    /// The Q0.12 angle of the direction `(x, y)`.
    pub fn atan2_q12(&self, y: i32, x: i32) -> (r: u16)
        requires
            self.wf(),
        ensures
            r == self.model().atan2(y as int, x as int),
    {
        (self.atan2)(y, x)
    }
}

/// `f` may be called on every pair.
pub open spec fn takes_all<F: Fn(i32, i32) -> u16>(f: F) -> bool {
    forall|y: i32, x: i32| #[trigger] f.requires((y, x))
}

/// `f` gives each pair one answer.
pub open spec fn one_answer<F: Fn(i32, i32) -> u16>(f: F) -> bool {
    forall|y: i32, x: i32, a: u16, b: u16| #[trigger]
        f.ensures((y, x), a) && #[trigger] f.ensures((y, x), b) ==> a == b
}

/// Whether a table holds one whole turn of Q12 values.
fn whole_wave(t: &Vec<i32>) -> (r: bool)
    ensures
        r == is_wave(t@),
{
    if t.len() != TURN {
        return false;
    }
    let mut i: usize = 0;
    while i < t.len()
        invariant
            i <= t@.len(),
            t@.len() == 4096,
            forall|j: int| 0 <= j < i ==> -4096 <= #[trigger] t@[j] <= 4096,
        decreases t@.len() - i,
    {
        if t[i] < -4096 || t[i] > 4096 {
            return false;
        }
        i = i + 1;
    }
    true
}

/// `sin`/`cos` of a Q12 angle as an XZ forward direction, both Q12.
pub fn heading<F: Fn(i32, i32) -> u16>(trig: &Trig<F>, yaw: u16) -> (r: (i32, i32))
    requires
        trig.wf(),
    ensures
        r.0 == trig.model().sin(yaw),
        r.1 == trig.model().cos(yaw),
        -4096 <= r.0 <= 4096,
        -4096 <= r.1 <= 4096,
{
    (trig.sin_q12(yaw), trig.cos_q12(yaw))
}

} // verus!
