//! Every number the match is tuned by.
//!
//! Geometry is in uu. Speeds are sub-units per tick, accelerations sub-units
//! per tick squared, with the published per-second value beside each.

use vstd::prelude::*;

verus! {

/// Sub-unit fractional bits: `1 uu = 64 sub-units`.
pub const FP: i32 = 6;

/// Half the pitch width (centre to a side wall).
pub const HALF_X: i32 = 4096;
/// Half the pitch length (centre to a goal line).
pub const HALF_Z: i32 = 5120;
/// Ceiling height.
pub const CEIL: i32 = 2044;
/// Radius of the floor-to-wall quarter pipe. What is drawn and what is driven
/// on both come from here.
pub const WALL_RAMP_R: i32 = 260;
/// Where a corner plane crosses each axis: the corner is `|x| + |z| = CORNER`.
pub const CORNER: i32 = 8064;
/// Half the width of a goal mouth (892.755).
pub const GOAL_HALF_W: i32 = 893;
/// Height of a goal mouth (642.775).
pub const GOAL_H: i32 = 643;
/// How far the goal box extends behind the goal line.
pub const GOAL_DEPTH: i32 = 880;
/// Radius of the goal frame: the two uprights and the bar across them.
pub const POST_R: i32 = 17;
/// Ball radius (91.25).
pub const BALL_R: i32 = 91;

/// Car half length (nose to centre).
pub const CAR_HALF_L: i32 = 82;
/// Car half width.
pub const CAR_HALF_W: i32 = 58;
/// Car half height.
pub const CAR_HALF_H: i32 = 26;
/// Front axle offset from the car's centre, along its nose.
pub const WHEEL_FRONT_Z: i32 = 51;
/// Rear axle offset (negative: behind the centre).
pub const WHEEL_BACK_Z: i32 = -34;
/// Front half-track.
pub const WHEEL_FRONT_X: i32 = 26;
/// Rear half-track.
pub const WHEEL_BACK_X: i32 = 30;
/// Front wheel radius.
pub const WHEEL_FRONT_R: i32 = 13;
/// Rear wheel radius.
pub const WHEEL_BACK_R: i32 = 15;
/// Wheelbase, front axle to rear axle. Drives the steering model.
pub const WHEELBASE: i32 = WHEEL_FRONT_Z - WHEEL_BACK_Z;
/// Car collision radius, where a car is treated as a sphere.
pub const CAR_R: i32 = 84;
/// Ride height: the hitbox centre sits this far off the floor.
pub const CAR_REST_Y: i32 = 28;
/// Cosmetic suspension state uses eight fractional bits per visual uu.
pub const SUSPENSION_VISUAL_FP: i32 = 8;
/// Wheel droop when the car is unsupported: 4 visual uu.
pub const SUSPENSION_DROOP: i32 = -1024;
/// Maximum jounce from acceleration or braking: 2 visual uu.
pub const SUSPENSION_JOUNCE: i32 = 512;

/// Gravity is 650 uu/s^2, which is 104/9 sub-units per tick squared. It is
/// carried as that rational, so nine ticks always remove exactly 104.
pub const GRAVITY_NUM: i32 = 104;
/// The denominator of the gravity rational.
pub const GRAVITY_DEN: i32 = 9;
/// Gravity rounded to a whole step, for stepping one car outside a match.
pub const NOMINAL_GRAVITY: i32 = 12;
/// Throttle-only speed ceiling (1410 uu/s).
pub const CAR_MAX_SPEED: i32 = 1504;
/// Absolute speed ceiling (2300 uu/s).
pub const CAR_BOOST_SPEED: i32 = 2453;
/// Ball speed ceiling (6000 uu/s).
pub const BALL_MAX_SPEED: i32 = 6400;
/// Throttle acceleration at a standstill (1600 uu/s^2).
pub const CAR_ACCEL: i32 = 28;
/// Boost acceleration on the floor (991.667 uu/s^2), over [`ACCEL_DEN`].
pub const CAR_BOOST_ACCEL_NUM: i32 = 476;
/// Boost acceleration in the air (1058.333 uu/s^2), over [`ACCEL_DEN`].
pub const CAR_BOOST_ACCEL_AIR_NUM: i32 = 508;
/// The denominator both boost accelerations and the air throttle share.
pub const ACCEL_DEN: i32 = 27;
/// Once boost starts it burns for at least this long, fuel permitting (0.1 s).
pub const BOOST_MIN_TICKS: u8 = 6;
/// Air throttle (66.667 uu/s^2), over [`ACCEL_DEN`]. Reverse is half of it.
pub const CAR_AIR_THROTTLE_NUM: i32 = 32;
/// Braking (3500 uu/s^2).
pub const CAR_BRAKE: i32 = 62;
/// Engine braking (525 uu/s^2).
pub const CAR_COAST: i32 = 9;
/// Sideways velocity killed per tick with full grip, over 1024.
pub const CAR_GRIP: i32 = 780;
/// Immediate jump impulse (291.67 uu/s).
pub const CAR_JUMP_V: i32 = 311;
/// Held-jump acceleration per 120 Hz slice, over [`JUMP_BONUS_DEN`].
pub const JUMP_BONUS_NUM: i32 = 350;
/// The denominator of the held-jump rational.
pub const JUMP_BONUS_DEN: i32 = 27;
/// Slices the hold can extend over: 24 at 120 Hz is 0.2 s.
pub const JUMP_SLICES_MAX: u8 = 24;
/// Slices that run even if the button is already released.
pub const JUMP_SLICES_MIN: u8 = 3;
/// Pull back toward the surface just left, per slice, over
/// [`JUMP_STICKY_DEN`].
pub const JUMP_STICKY_NUM: i32 = 26;
/// The denominator of the sticky rational.
pub const JUMP_STICKY_DEN: i32 = 9;
/// Slices the sticky pull lasts.
pub const JUMP_STICKY_SLICES: u8 = 3;
/// Yaw rate in the air, Q0.12 per tick.
pub const AIR_TURN: i32 = 15;
/// Pitch and roll rate in the air, Q0.12 per tick.
pub const AIR_ROLL: i32 = 34;
/// How quickly an air-control rate reaches the commanded one, over 1024.
pub const AIR_SPIN_GAIN: i32 = 300;
/// What survives of a rate with nothing commanded, over 1024.
pub const AIR_SPIN_DECAY: i32 = 880;
/// Ceiling on any one air rate, Q0.12 per tick.
pub const AIR_SPIN_MAX: i32 = 60;
/// Speed needed to hold onto a wall.
pub const STICK_SPEED: i32 = 700;
/// A surface normal at least this upright is one a car can rest on: Q12
/// cosine of 45 degrees.
pub const SHALLOW_UP: i32 = 2896;
/// Ticks after leaving the ground in which a second press still counts.
pub const DODGE_WINDOW: u8 = 75;
/// Forward speed a flip adds (500 uu/s).
pub const DODGE_IMPULSE: i32 = 533;
/// How long the car is committed to a flip, and how long it draws rotated.
pub const DODGE_TICKS: u8 = 40;

/// Speed at which a car becomes supersonic (2200 uu/s).
pub const SUPERSONIC_SPEED: i32 = 2347;
/// Speed a supersonic car can fall back to and stay supersonic for a while.
pub const SUPERSONIC_KEEP: i32 = 2240;
/// How long that grace lasts (1 s).
pub const SUPERSONIC_GRACE: u8 = 60;
/// How far a goal blast reaches, in uu.
pub const GOAL_BLAST_R: i32 = 2600;
/// How hard a goal blast pushes outward at the centre.
pub const GOAL_BLAST: i32 = 1500;
/// How hard a goal blast pushes upward at the centre.
pub const GOAL_BLAST_UP: i32 = 900;
/// Ticks a wrecked car spends waiting (3 s).
pub const DEMO_RESPAWN: u16 = 180;
/// How far up the nose a contact has to be to count as the bumper, in uu.
pub const BUMP_NOSE: i32 = 64;
/// Ticks before the same car can bump again (0.25 s).
pub const BUMP_COOL: u8 = 15;
/// Shove handed to a grounded victim, against the closing speed.
pub const BUMP_GROUND: [(i32, i32); 3] = [(0, 1), (1493, 1173), (2347, 1632)];
/// Shove handed to an airborne victim, against the closing speed.
pub const BUMP_AIR: [(i32, i32); 3] = [(0, 1), (1493, 1483), (2347, 2075)];
/// The part of a bump that goes upward, against the closing speed.
pub const BUMP_UP: [(i32, i32); 3] = [(0, 1), (1493, 297), (2347, 445)];

/// Bounce off the arena, over 1024 (restitution 0.6).
pub const BALL_BOUNCE: i32 = 614;
/// Air drag per tick, over 4096 (0.03 per second).
pub const BALL_DRAG: i32 = 4094;
/// Vertical speed below which the ball stops bouncing.
pub const BALL_SETTLE_V: i32 = 24;
/// The ball's share of a car contact, over 1024.
pub const BALL_SHARE: i32 = 878;
/// The car's share of the same contact, over 1024.
pub const CAR_SHARE: i32 = 146;
/// How much of a touch's vertical part survives, over 1024.
pub const CARBALL_UP_SCALE: i32 = 358;
/// Relative speed the extra touch impulse stops growing at (4600 uu/s).
pub const CARBALL_MAX_REL: i32 = 4907;
/// What the extra touch impulse is worth, over 1024, against relative speed.
pub const CARBALL_EXTRA_CURVE: [(i32, i32); 4] = [(0, 666), (533, 666), (2453, 563), (4907, 307)];

/// Fractional bits of the ball's angular velocity, in radians per tick.
pub const SPIN_FP: i32 = 16;
/// Cap on the ball's angular speed: 6 rad/s in Q16 radians per tick.
pub const BALL_MAX_SPIN: i32 = 6554;
/// Coulomb friction against the arena, over 1024.
pub const BALL_FRICTION: i32 = 358;
/// Friction against a car, over 1024.
pub const CARBALL_FRICTION: i32 = 2048;
/// Spin picked up per sub-unit of slip removed, Q10. A solid sphere pays
/// `5/(7R)` of the slip into its spin; this is that, in Q16 radians.
pub const SPIN_PER_SLIP: i32 = 8230;

/// Boost is stored in 1/64ths of a pip.
pub const BOOST_SCALE: i32 = 64;
/// Full tank, in pips.
pub const BOOST_MAX_PIPS: i32 = 100;
/// Full tank, in storage units.
pub const BOOST_MAX: i32 = 6400;
/// Boost burnt per tick: a full tank lasts 3 s.
pub const BOOST_DRAIN: i32 = 36;

/// Ball this close, on the right side, and the opponent goes for the shot.
pub const AI_BALL_TARGET_RADIUS: i32 = 2650;
/// Spread of the go-round target used on the wrong side of the ball.
pub const AI_FORWARDING_RADIUS: i32 = 2385;
/// Spread of the closing target used when the ball is far but reachable.
pub const AI_APPROACH_RADIUS: i32 = 530;
/// Reverse into a target nearer than this.
pub const AI_REVERSE_GAP: i32 = 265;
/// Throttle eases off inside this range of a positional target.
pub const AI_THROTTLE_RAMP: i32 = 530;
/// How far off the ball the aim point sits, so contact sends it goalward: one
/// ball radius plus one car radius.
pub const AI_GOAL_BIAS: i32 = BALL_R + CAR_R;
/// Counted as arrived at a boost pad.
pub const AI_ARRIVED_BOOST: i32 = 53;
/// Counted as arrived at a ground target.
pub const AI_ARRIVED_POSITION: i32 = 106;
/// Boost pips below which the opponent breaks off to refuel.
pub const AI_BOOST_LOW: i32 = 5;
/// Pips at which a refuelling trip is called off.
pub const AI_BOOST_ENOUGH: i32 = 40;
/// Give up on a target after this many ticks and pick another (8 s).
pub const AI_TARGET_TIMEOUT: u16 = 480;
/// Roughly ahead: a right angle in Q12.
pub const AI_ALIGN_ANY: i32 = 1024;
/// Lined up enough to spend boost.
pub const AI_ALIGN_BOOST: i32 = 471;
/// Off line enough to want the handbrake.
pub const AI_ALIGN_SLIDE: i32 = 420;
/// Nearly dead astern.
pub const AI_ALIGN_ASTERN: i32 = 1628;
/// Barely moving, so slide to pivot, in uu per tick.
pub const AI_SLIDE_CRAWL: i32 = 8;
/// How close the opponent has to be to the kickoff ball before it burns.
pub const AI_KICKOFF_BOOST_GAP: i32 = 1500;
/// How long the opponent keeps backing away once clear of a mouth or a wall.
pub const AI_ESCAPE_TICKS: u8 = 40;

/// Ticks the world holds still after a goal before kickoff.
pub const GOAL_FREEZE_TICKS: u16 = 150;
/// Match length in ticks (5 minutes at 60 Hz).
pub const MATCH_TICKS: u32 = 18000;
/// `sqrt(2)` in Q12, for the 45-degree corner planes.
pub const SQRT2_Q12: i32 = 5793;
/// Q12 turns in one radian, `4096 / 2pi`.
pub const TURNS_PER_RAD: i32 = 652;

/// Max steering angle by speed, as `tan(angle)` in Q12.
pub const STEER_CURVE: [(i32, i32); 6] = [
    (0, 2431),
    (533, 1354),
    (1067, 754),
    (1600, 434),
    (1867, 349),
    (3200, 142),
];
/// Throttle authority by speed, over 1024.
pub const TORQUE_CURVE: [(i32, i32); 3] = [(0, 1024), (1493, 102), (1504, 0)];
/// The steering angle with the handbrake down, `tan(angle)` in Q12.
pub const SLIDE_STEER_CURVE: [(i32, i32); 2] = [(0, 1697), (2667, 519)];
/// Sideways grip against how sideways the car is going, both over 1024.
pub const LAT_FRICTION: [(i32, i32); 2] = [(0, 1024), (1024, 205)];
/// The share of the grip the handbrake takes away, over 1024.
pub const SLIDE_LOSS: i32 = 922;
/// Below this much sideways speed there is no slip worth measuring.
pub const SLIP_FLOOR: i32 = 6;
/// How fast the powerslide comes on, over 1024 per tick.
pub const SLIDE_RISE: i32 = 85;
/// How fast the powerslide lets go, over 1024 per tick.
pub const SLIDE_FALL: i32 = 34;

/// Every pad, as `(x, z, big)` in uu: six big ones on the flanks and corners,
/// and twenty-eight small ones threaded between them.
pub const PADS: [(i32, i32, bool); 34] = [
    (-3072, -4096, true),
    (3072, -4096, true),
    (-3584, 0, true),
    (3584, 0, true),
    (-3072, 4096, true),
    (3072, 4096, true),
    (0, -4240, false),
    (-1792, -4184, false),
    (1792, -4184, false),
    (-940, -3308, false),
    (940, -3308, false),
    (0, -2816, false),
    (-3584, -2484, false),
    (3584, -2484, false),
    (-1788, -2300, false),
    (1788, -2300, false),
    (-2048, -1036, false),
    (0, -1024, false),
    (2048, -1036, false),
    (-1024, 0, false),
    (1024, 0, false),
    (-2048, 1036, false),
    (0, 1024, false),
    (2048, 1036, false),
    (-1788, 2300, false),
    (1788, 2300, false),
    (-3584, 2484, false),
    (3584, 2484, false),
    (0, 2816, false),
    (-940, 3308, false),
    (940, 3308, false),
    (-1792, 4184, false),
    (1792, 4184, false),
    (0, 4240, false),
];

/// uu -> sub-units.
pub fn uu(v: i32) -> (r: i32)
    requires
        -0x200_0000 <= v < 0x200_0000,
    ensures
        r == v * 64,
{
    v * 64
}

} // verus!
