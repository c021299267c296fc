//! A multi-track voice capture engine.
//!
//! While a bot is joined to a voice channel, an external transport delivers a
//! single real-time audio stream whose fragments are distinguishable only by a
//! per-speaker source identifier (SSRC).  This library demultiplexes that
//! stream into independent per-speaker PCM tracks, interleaves silence where a
//! source is present but quiet, reconciles asynchronous identity announcements
//! with audio that may precede them, and renders each track as a WAV file
//! image (48 kHz, 16-bit signed, stereo).
//!
//! The surrounding transport (event delivery, file persistence) stays outside
//! the library; it hands events in as plain values and writes the finished
//! byte images out.

mod cmap;

pub mod control;
pub mod events;
pub mod identity;
pub mod laws;
pub mod registry;
pub mod session;
pub mod text;
pub mod time;
pub mod track;
pub mod wav;
pub mod youtube;
