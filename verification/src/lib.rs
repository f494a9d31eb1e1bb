//! A library that decides which of several named visual themes should be
//! active at the current wall-clock time, following a cyclic daily schedule,
//! and produces smooth, time-bounded cross-fades between themes at each
//! scheduled transition.
//!
//! Colors, fade progress and times of day are held as plain integers in
//! fixed-point form, so every rule of the scheduler and of the interpolation
//! math is stated and proved exactly.

pub mod color;
pub mod schedule;
pub mod scheduler;
pub mod state;
pub mod theme;
