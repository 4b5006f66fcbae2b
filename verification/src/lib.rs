//! Rocket-car soccer in integer fixed point.
//!
//! The match lives in [`sim`]: two cars, a ball and the walled pitch around
//! them, stepped sixty times a second. Everything below it is split by what it
//! decides: [`arena`] knows where the surfaces are, [`drive`] steps one car,
//! [`flight`] steps the ball, [`contact`] decides what a touch does and [`ai`]
//! drives the opponent.
//!
//! Round the match stands the game, in [`game`]: the front end, the pause menu
//! and the results. [`show`] says what each phase shows, and [`render`] what
//! goes into a frame; [`camera`] films it, [`cull`] and [`lens`] decide what of
//! it reaches the screen, and a module for each part of the arena and each thing
//! in it builds the quads.
//!
//! Lengths are unreal units (uu), stored as sub-units with [`tuning::FP`]
//! fractional bits. Angles are Q0.12 turns: 4096 is one full turn. Axes are X
//! right, Y up, Z forward; drawing turns Y over. Sines, cosines and bearings come
//! from outside, as a [`trig::Trig`], and so do the projection of points
//! ([`lens::Lens`]), products of matrices ([`turn::Product`]) and the widths of
//! texts ([`hud::Type`]).

pub mod actors;
pub mod ai;
pub mod air;
pub mod arena;
pub mod atlas;
pub mod ball;
pub mod banks;
pub mod blast;
pub mod bounces;
pub mod bounds;
pub mod camera;
pub mod car;
pub mod cars;
pub mod chassis;
pub mod clashes;
pub mod colour;
pub mod compass;
pub mod contact;
pub mod controls;
pub mod cull;
pub mod curve;
pub mod dials;
pub mod drive;
pub mod driving;
pub mod enclosure;
pub mod flight;
pub mod frame;
pub mod game;
pub mod game_laws;
pub mod glances;
pub mod goals;
pub mod hud;
pub mod inplay;
pub mod keeps;
pub mod laws;
pub mod leaps;
pub mod lens;
pub mod light;
pub mod music;
pub mod num;
pub mod overlay;
pub mod pad;
pub mod pads;
pub mod panels;
pub mod pitch;
pub mod place;
pub mod play;
pub mod plays;
pub mod ramp;
pub mod readouts;
pub mod rebound;
pub mod render;
pub mod rides;
pub mod rivals;
pub mod screens;
pub mod shell;
pub mod show;
pub mod sim;
pub mod sound;
pub mod sphere;
pub mod spin;
pub mod station;
pub mod steady;
pub mod step;
pub mod surfaces;
pub mod tick;
pub mod touches;
pub mod trig;
pub mod tuning;
pub mod turn;
pub mod upright;
pub mod vantage;
pub mod vec3;
pub mod view;
pub mod walls;
