//! Decision logic of an audio recorder that captures an input and an output device together.

pub mod recorder;

pub use recorder::Recorder;
