//! A stereo audio delay engine built on resizable circular-buffer delay lines.
//!
//! The crate provides a fixed-capacity circular sample buffer, a delay line
//! whose read and write cursors are decoupled by a configurable offset, a
//! controller that unifies the two strategies for changing the delay length
//! at runtime, and a stereo engine that drives one delay line per channel
//! from a single shared delay-time parameter.

pub mod model;

pub mod delay_line;

pub mod ring;

pub mod controller;

pub mod mapping;

pub mod parameter;

pub mod engine;

pub mod laws;
