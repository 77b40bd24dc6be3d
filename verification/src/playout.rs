//! The audio output's turn: filling the device buffer from the audio cache
//! and steering the playback clock by what was played.

use vstd::prelude::*;

use crate::buffer::{stereo_duration, take_padded};
use crate::cache::AudioCache;
use crate::sync::PlaybackClock;
use crate::timing::{add_micros, spec_add_micros};
use crate::types::{frames_to_micros, PlaybackState, Pts, SampleBits, SILENCE};

verus! {

/// `n` silent samples.
pub open spec fn silence(n: nat) -> Seq<SampleBits> {
    Seq::new(n, |i: int| SILENCE)
}

/// The PTS in the middle of `actual` samples that start at `pts`.
pub open spec fn spec_mid_pts(pts: Pts, actual: nat, rate: nat) -> Pts {
    spec_add_micros(pts as int, stereo_duration(actual, rate) / 2)
}

pub(crate) fn silent(n: usize) -> (r: Vec<SampleBits>)
    ensures
        r@ == silence(n as nat),
{
    let mut out: Vec<SampleBits> = Vec::new();
    while out.len() < n
        invariant
            out@ == silence(out@.len()),
            out@.len() <= n,
        decreases n - out@.len(),
    {
        out.push(SILENCE);
        assert(out@ == silence(out@.len()));
    }
    out
}

/// Produces `len` samples for the audio device.
///
/// While the clock is not playing this is silence and nothing changes.
/// Otherwise the samples are popped from the cache (padded with silence),
/// and when real samples came out the clock restarts at the middle of them,
/// since they play over the next callback period.
pub fn audio_output(
    cache: &mut AudioCache,
    clock: &mut PlaybackClock,
    len: usize,
    sample_rate: u32,
) -> (r: Vec<SampleBits>)
    requires
        old(cache).wf(),
        sample_rate > 0,
    ensures
        final(cache).wf(),
        final(cache).same_settings(old(cache)),
        final(clock).spec_state() == old(clock).spec_state(),
        old(clock).spec_state() != PlaybackState::Playing ==> {
            &&& r@ == silence(len as nat)
            &&& final(cache).spec_ahead() == old(cache).spec_ahead()
            &&& final(cache).spec_behind() == old(cache).spec_behind()
            &&& final(cache).spec_playback_pts() == old(cache).spec_playback_pts()
            &&& final(clock).spec_current_pts() == old(clock).spec_current_pts()
            &&& final(clock).spec_base_pts() == old(clock).spec_base_pts()
        },
        old(clock).spec_state() == PlaybackState::Playing ==> {
            let actual = if old(cache).spec_ahead().len() < len {
                old(cache).spec_ahead().len()
            } else {
                len as nat
            };
            &&& r@ == take_padded(old(cache).spec_ahead(), len as nat)
            &&& final(cache).spec_ahead() == old(cache).spec_ahead().subrange(
                actual as int,
                old(cache).spec_ahead().len() as int,
            )
            &&& actual > 0 ==> final(clock).spec_base_pts() == spec_mid_pts(
                old(cache).spec_playback_pts(),
                actual,
                sample_rate as nat,
            ) && final(clock).spec_current_pts() == final(clock).spec_base_pts()
            &&& actual == 0 ==> final(clock).spec_base_pts() == old(clock).spec_base_pts()
                && final(clock).spec_current_pts() == old(clock).spec_current_pts()
        },
{
    // Only output audio if playing
    if !clock.state().is_playing() {
        return silent(len);
    }
    let (samples, pts, actual_count) = cache.pop(len);
    // Only steer the clock by real audio, not silence padding
    if actual_count > 0 {
        let frames_in_buffer = actual_count / 2;
        let duration = frames_to_micros(frames_in_buffer, sample_rate);
        let mid_pts = add_micros(pts, duration / 2);
        clock.update_from_audio(mid_pts);
    }
    samples
}

} // verus!
