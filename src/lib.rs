//! A work/break interval timer: sessions made of timed sections, with pause
//! and resume, and the rules that build a session from its parameters.
//!
//! Instants are whole seconds since the Unix epoch and durations are whole
//! seconds, both held as `i64`.

pub mod clock;
pub mod commands;
pub mod decimal;
pub mod display;
pub mod error;
pub mod pomo;
pub mod setting;
pub mod timeline;
