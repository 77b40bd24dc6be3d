//! Clocks of the microsecond timeline.

use std::time::Instant;
use vstd::prelude::*;

use crate::instant::{instant_now, micros_elapsed, micros_to_i64, spec_micros_to_i64};
use crate::timeline::frame::Microseconds;
use crate::timing::{add_micros, spec_add_micros};

verus! {

/// Unified clock trait for all timing components
pub trait Clock {
    /// Whether the clock is paused.
    spec fn spec_paused(&self) -> bool;

    /// Get current time in microseconds
    fn time(&self) -> Microseconds;

    /// Set the current time
    fn set_time(&mut self, time: Microseconds)
        ensures
            final(self).spec_paused() == old(self).spec_paused(),
    ;

    /// Pause the clock
    fn pause(&mut self)
        ensures
            final(self).spec_paused(),
    ;

    /// Resume the clock
    fn resume(&mut self)
        ensures
            !final(self).spec_paused(),
    ;

    /// Check if the clock is paused
    fn is_paused(&self) -> (r: bool)
        ensures
            r == self.spec_paused(),
    ;
}

/// Audio-driven clock that tracks the actual audio playback position.
///
/// The audio output updates it and it serves as the master clock for
/// A/V synchronization.
pub struct AudioClock {
    /// Current audio PTS in microseconds
    current_pts: i64,
    /// Pause state
    paused: bool,
}

impl AudioClock {
    pub closed spec fn spec_pts(&self) -> i64 {
        self.current_pts
    }

    pub closed spec fn spec_is_paused(&self) -> bool {
        self.paused
    }

    /// Create a new audio clock, paused at zero
    pub fn new() -> (r: Self)
        ensures
            r.spec_pts() == 0,
            r.spec_is_paused(),
    {
        AudioClock { current_pts: 0, paused: true }
    }

    pub fn update_pts(&mut self, pts: Microseconds)
        ensures
            final(self).spec_pts() == pts.0,
            final(self).spec_is_paused() == old(self).spec_is_paused(),
    {
        self.current_pts = pts.0;
    }

    pub fn is_paused(&self) -> (r: bool)
        ensures
            r == self.spec_is_paused(),
    {
        self.paused
    }
}

impl Clock for AudioClock {
    open spec fn spec_paused(&self) -> bool {
        self.spec_is_paused()
    }

    fn time(&self) -> (r: Microseconds)
        ensures
            r.0 == self.spec_pts(),
    {
        Microseconds(self.current_pts)
    }

    fn set_time(&mut self, time: Microseconds)
        ensures
            final(self).spec_pts() == time.0,
            final(self).spec_is_paused() == old(self).spec_is_paused(),
    {
        self.current_pts = time.0;
    }

    fn pause(&mut self)
        ensures
            final(self).spec_pts() == old(self).spec_pts(),
            final(self).spec_is_paused(),
    {
        self.paused = true;
    }

    fn resume(&mut self)
        ensures
            final(self).spec_pts() == old(self).spec_pts(),
            !final(self).spec_is_paused(),
    {
        self.paused = false;
    }

    fn is_paused(&self) -> (r: bool)
        ensures
            r == self.spec_is_paused(),
    {
        self.paused
    }
}

/// System clock that follows real time from an offset.
///
/// While paused it stands at the offset plus the time it ran before the
/// pause; while running it advances with the monotonic clock.
pub struct SystemClock {
    /// When the clock last started running (or was set).
    start_time: Instant,
    /// Whether the clock is paused.
    paused: bool,
    /// Microseconds run from `start_time` up to the pause (zero while running).
    frozen: i64,
    /// Time at `start_time`, in microseconds.
    offset: i64,
}

impl SystemClock {
    pub closed spec fn spec_offset(&self) -> i64 {
        self.offset
    }

    /// Microseconds the clock ran from its last start up to the pause.
    pub closed spec fn spec_frozen(&self) -> i64 {
        self.frozen
    }

    pub closed spec fn spec_is_paused(&self) -> bool {
        self.paused
    }

    /// The time a paused clock stands at.
    pub open spec fn spec_paused_at(&self) -> i64 {
        spec_add_micros(self.spec_offset() as int, self.spec_frozen() as int)
    }

    /// The time run before a pause is not negative, and a running clock keeps none.
    #[verifier::type_invariant]
    spec fn inv(&self) -> bool {
        &&& self.frozen >= 0
        &&& !self.paused ==> self.frozen == 0
    }

    /// Create a new system clock, paused at zero
    pub fn new() -> (r: Self)
        ensures
            r.spec_offset() == 0,
            r.spec_frozen() == 0,
            r.spec_is_paused(),
            r.spec_paused_at() == 0,
    {
        SystemClock { start_time: instant_now(), paused: true, frozen: 0, offset: 0 }
    }
}

impl Default for SystemClock {
    fn default() -> (r: Self)
        ensures
            r.spec_offset() == 0,
            r.spec_frozen() == 0,
            r.spec_is_paused(),
            r.spec_paused_at() == 0,
    {
        SystemClock::new()
    }
}

impl Clock for SystemClock {
    open spec fn spec_paused(&self) -> bool {
        self.spec_is_paused()
    }

    /// Paused: exactly the offset plus the time run before the pause.
    /// Running: the offset plus the microseconds since the last start.
    fn time(&self) -> (r: Microseconds)
        ensures
            self.spec_is_paused() ==> r.0 == self.spec_paused_at(),
            !self.spec_is_paused() ==> exists|e: u128|
                r.0 == spec_add_micros(self.spec_offset() as int, spec_micros_to_i64(e) as int),
            !self.spec_is_paused() ==> r.0 >= self.spec_offset(),
    {
        if self.paused {
            Microseconds(add_micros(self.offset, self.frozen))
        } else {
            let e = micros_to_i64(micros_elapsed(&self.start_time));
            Microseconds(add_micros(self.offset, e))
        }
    }

    fn set_time(&mut self, time: Microseconds)
        ensures
            final(self).spec_offset() == time.0,
            final(self).spec_frozen() == 0,
            final(self).spec_is_paused() == old(self).spec_is_paused(),
    {
        proof {
            use_type_invariant(&*self);
        }
        self.offset = time.0;
        self.start_time = instant_now();
        self.frozen = 0;
    }

    /// Stops the clock where it stands: the time run since the last start is
    /// kept; a paused clock is left as it is.
    fn pause(&mut self)
        ensures
            final(self).spec_is_paused(),
            final(self).spec_offset() == old(self).spec_offset(),
            old(self).spec_is_paused() ==> *final(self) == *old(self),
            !old(self).spec_is_paused() ==> exists|e: u128|
                final(self).spec_frozen() == spec_micros_to_i64(e),
    {
        proof {
            use_type_invariant(&*self);
        }
        if !self.paused {
            let e = micros_to_i64(micros_elapsed(&self.start_time));
            self.paused = true;
            self.frozen = e;
        }
    }

    /// Folds the time run before the pause into the offset and runs again
    /// from there; a running clock is left as it is.
    fn resume(&mut self)
        ensures
            !final(self).spec_is_paused(),
            final(self).spec_frozen() == 0,
            old(self).spec_is_paused() ==> final(self).spec_offset() == old(self).spec_paused_at(),
            !old(self).spec_is_paused() ==> final(self).spec_offset() == old(self).spec_offset(),
    {
        proof {
            use_type_invariant(&*self);
        }
        if self.paused {
            self.offset = add_micros(self.offset, self.frozen);
            self.start_time = instant_now();
            self.frozen = 0;
            self.paused = false;
        }
    }

    fn is_paused(&self) -> (r: bool)
        ensures
            r == self.spec_is_paused(),
    {
        self.paused
    }
}

} // verus!
