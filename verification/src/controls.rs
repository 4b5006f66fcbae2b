//! What a pad's buttons and sticks ask of a car.

use vstd::prelude::*;
use crate::pad;
use crate::pad::{Edges, Handshake, Held, Presence};

verus! {

/// The same hands on a pad held up to a mirror: left for right, up and down as
/// they were.
pub open spec fn mirrored(h: Held) -> Held {
    Held {
        left: h.right,
        right: h.left,
        stick_x: match h.stick_x {
            Some(v) => Some((-v) as i16),
            None => None,
        },
        ..h
    }
}

/// Every reading of a stick has an opposite.
pub open spec fn sane(h: Held) -> bool {
    &&& h.stick_x matches Some(v) ==> v > i16::MIN
    &&& h.stick_y matches Some(v) ==> v > i16::MIN
}

/// Right asks for right and left for left: a stick, where the pad has one, as far as
/// it is pushed up to its stop, and the buttons all the way. Both buttons at once
/// ask for neither. Mirrored hands ask for the mirrored turn and nothing else
/// changes.
pub proof fn law_right_asks_for_right(h: Held)
    requires
        sane(h),
    ensures
        ({
            let i = pad::intent(h);
            &&& h.stick_x matches Some(v) ==> {
                &&& -128 <= v <= 128 ==> i.steer == v
                &&& v > 128 ==> i.steer == 128
                &&& v < -128 ==> i.steer == -128
            }
            &&& h.stick_x is None ==> {
                &&& h.right && !h.left ==> i.steer == 128
                &&& h.left && !h.right ==> i.steer == -128
                &&& h.left == h.right ==> i.steer == 0
            }
            &&& pad::intent(mirrored(h)).steer == -i.steer
            &&& pad::intent(mirrored(h)).throttle == i.throttle
            &&& pad::intent(mirrored(h)).pitch == i.pitch
        }),
{
}

/// Up asks for nose down: a stick pushed up counts down, and so asks for what the up
/// button does.
pub proof fn law_up_asks_for_nose_down(h: Held)
    requires
        sane(h),
    ensures
        ({
            let i = pad::intent(h);
            &&& h.stick_y matches Some(v) ==> {
                &&& -128 <= v <= 128 ==> i.pitch == -v
                &&& v < -128 ==> i.pitch == 128
                &&& v > 128 ==> i.pitch == -128
            }
            &&& h.stick_y is None ==> {
                &&& h.up && !h.down ==> i.pitch == 128
                &&& h.down && !h.up ==> i.pitch == -128
                &&& h.up == h.down ==> i.pitch == 0
            }
        }),
{
}

/// The throttle drives forward and the reverse backward, both together neither;
/// boost, jump and roll are asked for by their own buttons and no others.
pub proof fn law_every_button_has_its_use(h: Held)
    ensures
        ({
            let i = pad::intent(h);
            &&& h.throttle && !h.reverse ==> i.throttle == 128
            &&& h.reverse && !h.throttle ==> i.throttle == -128
            &&& h.throttle == h.reverse ==> i.throttle == 0
            &&& i.boost == h.boost
            &&& i.jump_pressed == h.jump_pressed
            &&& i.jump_held == h.jump
            &&& i.air_roll == h.air_roll
            &&& i.handbrake == h.air_roll
        }),
{
}

/// A press counts for whichever pad made it, and a pad that is not in makes none.
pub proof fn law_either_pad_presses(a: Edges, b: Edges)
    ensures
        pad::either(a, b) == pad::either(b, a),
        pad::either(a, pad::masked(b, false)) == a,
        pad::either(a, a) == a,
        pad::masked(a, true) == a,
        a.cross || b.cross ==> pad::either(a, b).cross,
        a.up || b.up ==> pad::either(a, b).up,
        a.down || b.down ==> pad::either(a, b).down,
        a.left || b.left ==> pad::either(a, b).left,
        a.right || b.right ==> pad::either(a, b).right,
        a.start || b.start ==> pad::either(a, b).start,
{
}

/// A pad that is plugged in is asked to go analog every fifteen ticks while it is
/// not, a number of times and no more; one that is pulled out is asked afresh when
/// it comes back.
pub proof fn law_a_digital_pad_is_asked_to_go_analog(h: Handshake, p: Presence, clock: u32)
    ensures
        ({
            let r = pad::handshaken(h, p, clock);
            let due = pad::attempt_due(h, p, clock);
            &&& r.seen == p.connected
            &&& due ==> p.connected && !p.analog && clock % 15 == 0
            &&& !p.connected ==> r.attempts == h.attempts
            &&& h.seen && due ==> r.attempts == h.attempts - 1
            &&& h.seen && !due ==> r.attempts == h.attempts
            &&& h.seen && p.connected && !p.analog && clock % 15 == 0 && h.attempts > 0 ==> due
        }),
{
}

} // verus!
