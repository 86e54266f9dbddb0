//! Kairos keeps a display, a metronome and a countdown aligned with a remote clock.
//!
//! The crate holds the logic of the program, every item of it verified: reading the
//! monotonic clock, the NTP exchange, the interval estimator, the sampling schedule,
//! what the display shows, the beat plan and the countdown to a target moment.
//! Sockets, threads, windows, audio devices and all floating-point arithmetic live in
//! the program around it, which hands the library plain values.

pub mod aim;
pub mod arith;
pub mod beat;
pub mod calibrate;
pub mod decimal;
pub mod display;
pub mod duration;
pub mod estimate;
pub mod float;
pub mod frame;
pub mod model;
pub mod order;
pub mod overrides;
pub mod present;
pub mod probe;
pub mod session;
pub mod snapshot;
pub mod sound;
pub mod source;
pub mod split;
pub mod strip;
pub mod sync;
pub mod target;
pub mod text;
pub mod theme;
pub mod time;
pub mod trim;
pub mod view;
