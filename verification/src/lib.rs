//! Signal-processing core of a polyphonic software synthesizer.
//!
//! The crate decodes a host-supplied binary event buffer into typed,
//! time-stamped events, manages a fixed pool of voices, and renders audio
//! one block at a time through oscillator, envelope and filter stages.
//! All sample and control arithmetic is carried out in signed fixed-point
//! (see [`fixed`]), so every stage of the render path is verified.

pub mod atom;
pub mod decoder;
pub mod envelope;
pub mod event;
pub mod filter;
pub mod fixed;
pub mod midi;
pub mod module;
pub mod oscillator;
pub mod synth;

pub mod voice;

pub use atom::pad_size;
