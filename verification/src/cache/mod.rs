//! Split ahead/behind caches of decoded frames and audio samples.

mod audio_cache;
mod frame_cache;

pub use audio_cache::{
    capacity_duration, keep_last_samples, latest_first, AudioCache, AUDIO_BUFFER_MICROS,
    CRITICAL_BELOW_MICROS, REFILL_BELOW_MICROS, SAMPLE_RATE,
};
pub use frame_cache::{
    lemma_request_frame_idempotent, pruned_prefix, spec_request, FrameCache, RequestOutcome,
    FRAME_BUFFER_CAPACITY,
};

use vstd::prelude::*;

verus! {

/// Common cache operations shared between frame and audio caches
pub trait Cache {
    /// Number of items currently held.
    spec fn spec_len(&self) -> nat;

    /// Clear all items from the cache
    fn clear(&mut self)
        ensures
            final(self).spec_len() == 0,
    ;

    /// Get the number of items currently in the cache (saturating)
    fn len(&self) -> (r: usize)
        ensures
            r == if self.spec_len() <= usize::MAX {
                self.spec_len()
            } else {
                usize::MAX as nat
            },
    ;

    /// Check if the cache is empty
    fn is_empty(&self) -> (r: bool)
        ensures
            r == (self.spec_len() == 0),
    {
        self.len() == 0
    }
}

} // verus!
