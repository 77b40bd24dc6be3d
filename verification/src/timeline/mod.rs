//! The microsecond timeline: timestamps, clocks, frame history, audio
//! frames, viewport layout and stream time bases.

pub mod clock;
pub mod frame;
pub mod layout;
pub mod history;
pub mod audio;
pub mod output;
pub mod double;
pub mod stream;
pub mod samples;
