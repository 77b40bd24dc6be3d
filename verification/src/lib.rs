//! Playback core of a keyboard-driven video editor.
//!
//! Presentation timestamps are integer microseconds (`Pts`), audio samples are
//! carried as the bit patterns of IEEE-754 single-precision values, so that
//! every queue, cache, clock and parser of the player is proved here.

pub mod types;
pub mod timing;
pub mod rational;
pub mod frame_order;
pub mod buffer;
pub mod cache;
pub mod command;
pub mod instant;
pub mod timeline;
pub mod sync;
pub mod scheduler;
pub mod packet_queues;
pub mod playout;
pub mod buffer_manager;
pub mod platform;
pub mod editor;
