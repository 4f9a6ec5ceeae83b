//! Playback control for a demultiplexed, decoded audio stream: track selection,
//! seek resolution, the decode loop as a state machine, and the framing of a
//! short-time spectral analysis.

pub mod control;
pub mod display;
pub mod error;
pub mod progress;
pub mod seek;
pub mod session;
pub mod stft;
pub mod track;
