//! Audio-driven playback clock for A/V synchronization.

use std::time::Instant;
use vstd::prelude::*;

use crate::instant::{instant_now, micros_elapsed, micros_to_i64, spec_micros_to_i64};
use crate::timing::{add_micros, spec_add_micros};
use crate::types::{PlaybackState, Pts};

verus! {

/// Playback clock.
///
/// The audio output updates the clock, and the video renderer checks it to
/// determine when to display frames. While playing, the time is the base
/// PTS plus the time elapsed since the base was set; otherwise it stands
/// still at the last set PTS.
pub struct PlaybackClock {
    /// Current playback position (while not playing)
    current_pts: Pts,
    /// Playback state
    state: PlaybackState,
    /// Base PTS from audio
    audio_base_pts: Pts,
    /// When the base PTS was set
    audio_start_time: Instant,
}

/// The clock's time, given the microseconds elapsed since the base was set.
pub open spec fn spec_time_at(state: PlaybackState, current: Pts, base: Pts, elapsed: u128) -> Pts {
    if state == PlaybackState::Playing {
        spec_add_micros(base as int, spec_micros_to_i64(elapsed) as int)
    } else {
        current
    }
}

/// What setting the state to `new_state` makes of a clock in `state` at
/// `current` with base `base`, when `elapsed` microseconds have passed since
/// the base was set: as (state, current PTS, base PTS).
///
/// Leaving playback keeps the time reached; starting to play restarts the
/// clock from the last set PTS; anything else changes only the state.
pub open spec fn spec_set_state(
    state: PlaybackState,
    current: Pts,
    base: Pts,
    new_state: PlaybackState,
    elapsed: u128,
) -> (PlaybackState, Pts, Pts) {
    let playing = state == PlaybackState::Playing;
    if new_state == PlaybackState::Playing {
        if playing {
            (new_state, current, base)
        } else {
            (new_state, current, current)
        }
    } else if playing {
        (new_state, spec_time_at(PlaybackState::Playing, current, base, elapsed), base)
    } else {
        (new_state, current, base)
    }
}

impl PlaybackClock {
    pub closed spec fn spec_current_pts(&self) -> Pts {
        self.current_pts
    }

    pub closed spec fn spec_state(&self) -> PlaybackState {
        self.state
    }

    pub closed spec fn spec_base_pts(&self) -> Pts {
        self.audio_base_pts
    }

    /// A clock stopped at zero.
    pub fn new() -> (r: Self)
        ensures
            r.spec_current_pts() == 0,
            r.spec_base_pts() == 0,
            r.spec_state() == PlaybackState::Stopped,
    {
        PlaybackClock {
            current_pts: 0,
            state: PlaybackState::Stopped,
            audio_base_pts: 0,
            audio_start_time: instant_now(),
        }
    }

    /// The clock's time when `elapsed` microseconds have passed since the
    /// base was set.
    pub fn time_at(&self, elapsed: u128) -> (r: Pts)
        ensures
            r == spec_time_at(self.spec_state(), self.spec_current_pts(), self.spec_base_pts(), elapsed),
    {
        if self.state.is_playing() {
            add_micros(self.audio_base_pts, micros_to_i64(elapsed))
        } else {
            self.current_pts
        }
    }

    /// Get the current playback time
    ///
    /// If playing, this is the base PTS plus the time elapsed since it was
    /// set. If paused/stopped, the last set PTS.
    pub fn current_time(&self) -> (r: Pts)
        ensures
            exists|e: u128|
                r == spec_time_at(self.spec_state(), self.spec_current_pts(), self.spec_base_pts(), e),
            self.spec_state() != PlaybackState::Playing ==> r == self.spec_current_pts(),
            self.spec_state() == PlaybackState::Playing ==> r >= self.spec_base_pts(),
    {
        let elapsed = micros_elapsed(&self.audio_start_time);
        self.time_at(elapsed)
    }

    /// Update the clock from the audio output: while playing, the clock
    /// restarts from `pts`.
    pub fn update_from_audio(&mut self, pts: Pts)
        ensures
            final(self).spec_state() == old(self).spec_state(),
            old(self).spec_state() == PlaybackState::Playing ==> final(self).spec_base_pts() == pts
                && final(self).spec_current_pts() == pts,
            old(self).spec_state() != PlaybackState::Playing ==> final(self).spec_base_pts()
                == old(self).spec_base_pts() && final(self).spec_current_pts()
                == old(self).spec_current_pts(),
    {
        if self.state.is_playing() {
            self.audio_base_pts = pts;
            self.audio_start_time = instant_now();
            self.current_pts = pts;
        }
    }

    /// Get the current playback state
    pub fn state(&self) -> (r: PlaybackState)
        ensures
            r == self.spec_state(),
    {
        self.state
    }

    /// Set the playback state
    ///
    /// Starting to play restarts the clock from the last set PTS; leaving
    /// playback captures the time reached.
    pub fn set_state(&mut self, new_state: PlaybackState)
        ensures
            final(self).spec_state() == new_state,
            exists|e: u128|
                (final(self).spec_state(), final(self).spec_current_pts(), final(self).spec_base_pts())
                    == spec_set_state(
                    old(self).spec_state(),
                    old(self).spec_current_pts(),
                    old(self).spec_base_pts(),
                    new_state,
                    e,
                ),
            ({
                let was_playing = old(self).spec_state() == PlaybackState::Playing;
                if new_state == PlaybackState::Playing {
                    &&& final(self).spec_current_pts() == old(self).spec_current_pts()
                    &&& !was_playing ==> final(self).spec_base_pts() == old(self).spec_current_pts()
                    &&& was_playing ==> final(self).spec_base_pts() == old(self).spec_base_pts()
                } else {
                    &&& final(self).spec_base_pts() == old(self).spec_base_pts()
                    &&& !was_playing ==> final(self).spec_current_pts()
                        == old(self).spec_current_pts()
                    &&& was_playing ==> exists|e: u128|
                        final(self).spec_current_pts() == spec_time_at(
                            PlaybackState::Playing,
                            old(self).spec_current_pts(),
                            old(self).spec_base_pts(),
                            e,
                        )
                }
            }),
    {
        let ghost mut e: u128 = 0;
        match new_state {
            PlaybackState::Playing => {
                if !self.state.is_playing() {
                    // Starting playback - reset the audio timer
                    self.audio_start_time = instant_now();
                    self.audio_base_pts = self.current_pts;
                }
            },
            PlaybackState::Paused | PlaybackState::Stopped => {
                if self.state.is_playing() {
                    // Pausing - capture the current time
                    let elapsed = micros_elapsed(&self.audio_start_time);
                    self.current_pts = add_micros(self.audio_base_pts, micros_to_i64(elapsed));
                    assert(self.current_pts == spec_time_at(
                        PlaybackState::Playing,
                        old(self).spec_current_pts(),
                        old(self).spec_base_pts(),
                        elapsed,
                    ));
                    proof {
                        e = elapsed;
                    }
                }
            },
        }
        self.state = new_state;
        assert((self.spec_state(), self.spec_current_pts(), self.spec_base_pts()) == spec_set_state(
            old(self).spec_state(),
            old(self).spec_current_pts(),
            old(self).spec_base_pts(),
            new_state,
            e,
        ));
    }

    /// Seek to a specific time
    pub fn seek(&mut self, target_pts: Pts)
        ensures
            final(self).spec_state() == old(self).spec_state(),
            final(self).spec_current_pts() == target_pts,
            final(self).spec_base_pts() == target_pts,
    {
        self.current_pts = target_pts;
        self.audio_base_pts = target_pts;
        self.audio_start_time = instant_now();
    }

    /// Reset the clock to the beginning, stopped
    pub fn reset(&mut self)
        ensures
            final(self).spec_state() == PlaybackState::Stopped,
            final(self).spec_current_pts() == 0,
            final(self).spec_base_pts() == 0,
    {
        self.current_pts = 0;
        self.audio_base_pts = 0;
        self.audio_start_time = instant_now();
        self.state = PlaybackState::Stopped;
    }
}

impl Default for PlaybackClock {
    fn default() -> (r: Self)
        ensures
            r.spec_current_pts() == 0,
            r.spec_base_pts() == 0,
            r.spec_state() == PlaybackState::Stopped,
    {
        Self::new()
    }
}

/// While the clock is not playing, its time stands still: two readings
/// with nothing set in between agree, and equal the last PTS set.
pub proof fn lemma_time_stands_still_unless_playing(
    state: PlaybackState,
    current: Pts,
    base: Pts,
    e1: u128,
    e2: u128,
)
    requires
        state != PlaybackState::Playing,
    ensures
        spec_time_at(state, current, base, e1) == spec_time_at(state, current, base, e2),
        spec_time_at(state, current, base, e1) == current,
{
}

/// While playing, the clock never runs backwards: a later reading (more time
/// elapsed since the base) is at least the earlier one.
pub proof fn lemma_time_monotonic_while_playing(current: Pts, base: Pts, e1: u128, e2: u128)
    requires
        e1 <= e2,
    ensures
        spec_time_at(PlaybackState::Playing, current, base, e1) <= spec_time_at(
            PlaybackState::Playing,
            current,
            base,
            e2,
        ),
{
}

/// Pausing freezes the clock and playing again goes on from where it stood:
/// after leaving playback (with `e_pause` microseconds run since the base),
/// every later reading gives the time reached then; after starting to play
/// again, the first reading gives that same time and later readings never
/// less. Setting a playing clock to play changes nothing.
pub proof fn lemma_pause_then_play(
    current: Pts,
    base: Pts,
    stop: PlaybackState,
    e_pause: u128,
    e_while_paused: u128,
    e_resume: u128,
    e_after: u128,
)
    requires
        stop != PlaybackState::Playing,
    ensures
        ({
            let reached = spec_time_at(PlaybackState::Playing, current, base, e_pause);
            let p = spec_set_state(PlaybackState::Playing, current, base, stop, e_pause);
            let q = spec_set_state(p.0, p.1, p.2, PlaybackState::Playing, e_resume);
            &&& spec_time_at(p.0, p.1, p.2, e_while_paused) == reached
            &&& spec_time_at(q.0, q.1, q.2, 0) == reached
            &&& spec_time_at(q.0, q.1, q.2, e_after) >= reached
        }),
        spec_set_state(PlaybackState::Playing, current, base, PlaybackState::Playing, e_pause) == (
            PlaybackState::Playing,
            current,
            base,
        ),
{
}

} // verus!
