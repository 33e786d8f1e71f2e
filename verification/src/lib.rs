//! Core of a real-time audio-visual presentation loop.
//!
//! The library owns the synchronization discipline between a procedurally
//! generated video frame, a tone generator, and a hardware-style circular
//! audio byte buffer with a bounded look-ahead window. Window creation,
//! device initialization and input polling are platform collaborators and
//! live outside this crate; they deliver a play-cursor position and a tick
//! cadence, and receive the finished frame.

pub mod display;
pub mod sink;
pub mod sound;
pub mod presentation;
