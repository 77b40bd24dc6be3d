//! Bounded buffers of decoded frames and audio samples.

mod audio_buffer;
mod frame_buffer;

pub use audio_buffer::{lemma_pop_after_push, stereo_duration, take_padded, AudioBuffer};
pub use frame_buffer::{evictable, old_frames_prefix, FrameBuffer};

use vstd::prelude::*;

verus! {

/// Common buffer operations shared between frame and audio buffers
pub trait Buffer {
    /// Number of items currently held.
    spec fn spec_len(&self) -> nat;

    /// Clear all items from the buffer
    fn clear(&mut self)
        ensures
            final(self).spec_len() == 0,
    ;

    /// Get the number of items currently in the buffer
    fn len(&self) -> (r: usize)
        ensures
            r == self.spec_len(),
    ;

    /// Check if the buffer is empty
    fn is_empty(&self) -> (r: bool)
        ensures
            r == (self.spec_len() == 0),
    {
        self.len() == 0
    }
}

} // verus!
