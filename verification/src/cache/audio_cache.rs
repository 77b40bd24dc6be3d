use std::collections::VecDeque;
use vstd::prelude::*;

use crate::buffer::{stereo_duration, take_padded};
use crate::timing::{add_micros, capacity_samples, spec_add_micros, spec_capacity_samples};
use crate::types::{frames_to_micros, AudioSample, Pts, SampleBits, SILENCE};

verus! {

/// Default capacity of each half of the audio cache, in microseconds.
pub const AUDIO_BUFFER_MICROS: u64 = 2_000_000;

/// Default output sample rate in Hz.
pub const SAMPLE_RATE: u32 = 48000;

/// Below this much audio ahead, the decoder should refill (one second).
pub const REFILL_BELOW_MICROS: i64 = 1_000_000;

/// Below this much audio ahead, playback is about to starve.
pub const CRITICAL_BELOW_MICROS: i64 = 300_000;

/// Split audio cache.
///
/// Ahead cache (soft bounded): decoded audio waiting for playback; it may
/// overflow its soft capacity under burst decode.
///
/// Behind cache (hard bounded): recently played audio history.
///
/// Audio lifecycle: decode -> ahead -> playback/pop -> behind -> eviction
pub struct AudioCache {
    /// Future audio samples waiting for playback
    ahead: VecDeque<SampleBits>,
    /// Already-played audio history
    behind: VecDeque<SampleBits>,
    /// Soft limit for ahead cache
    ahead_soft_capacity_samples: usize,
    /// Hard limit for behind cache
    behind_hard_capacity_samples: usize,
    /// PTS of the samples being played now
    current_playback_pts: Pts,
    /// PTS of the most recently decoded samples
    newest_decoded_pts: Pts,
    sample_rate: u32,
}

/// The last `cap` items of `s` (all of `s` when it is shorter).
pub open spec fn keep_last_samples(s: Seq<SampleBits>, cap: nat) -> Seq<SampleBits> {
    if s.len() > cap {
        s.subrange(s.len() - cap, s.len() as int)
    } else {
        s
    }
}

/// `n` items of `s` from the back, latest first.
pub open spec fn latest_first(s: Seq<SampleBits>, n: nat) -> Seq<SampleBits> {
    Seq::new(n, |i: int| s[s.len() - 1 - i])
}

/// Microseconds that `samples` samples of stereo audio at `rate` Hz last,
/// rounded down and saturated at `i64::MAX`.
pub open spec fn capacity_duration(samples: nat, rate: nat) -> int {
    if rate == 0 {
        0
    } else if samples * 1_000_000 / (rate * 2) <= i64::MAX {
        (samples * 1_000_000 / (rate * 2)) as int
    } else {
        i64::MAX as int
    }
}

fn samples_to_micros(samples: usize, rate: u32) -> (r: i64)
    requires
        rate > 0,
    ensures
        r == capacity_duration(samples as nat, rate as nat),
{
    let q: u128 = samples as u128 * 1_000_000u128 / (rate as u128 * 2);
    if q <= i64::MAX as u128 {
        q as i64
    } else {
        i64::MAX
    }
}

impl AudioCache {
    pub closed spec fn spec_ahead(&self) -> Seq<SampleBits> {
        self.ahead@
    }

    pub closed spec fn spec_behind(&self) -> Seq<SampleBits> {
        self.behind@
    }

    pub closed spec fn spec_ahead_capacity(&self) -> nat {
        self.ahead_soft_capacity_samples as nat
    }

    pub closed spec fn spec_behind_capacity(&self) -> nat {
        self.behind_hard_capacity_samples as nat
    }

    pub closed spec fn spec_playback_pts(&self) -> Pts {
        self.current_playback_pts
    }

    pub closed spec fn spec_newest_pts(&self) -> Pts {
        self.newest_decoded_pts
    }

    pub closed spec fn spec_sample_rate(&self) -> nat {
        self.sample_rate as nat
    }

    /// The sample rate is positive and the history within its bound.
    pub open spec fn wf(&self) -> bool {
        &&& self.spec_sample_rate() > 0
        &&& self.spec_behind().len() <= self.spec_behind_capacity()
    }

    /// Everything but the two sample queues is as in `other`.
    pub open spec fn same_settings(&self, other: &Self) -> bool {
        &&& self.spec_ahead_capacity() == other.spec_ahead_capacity()
        &&& self.spec_behind_capacity() == other.spec_behind_capacity()
        &&& self.spec_sample_rate() == other.spec_sample_rate()
    }

    /// Create a new split audio cache; capacities are durations in microseconds.
    pub fn new(ahead_capacity_micros: u64, behind_capacity_micros: u64, sample_rate: u32) -> (r:
        Self)
        requires
            sample_rate > 0,
        ensures
            r.wf(),
            r.spec_ahead() == Seq::<SampleBits>::empty(),
            r.spec_behind() == Seq::<SampleBits>::empty(),
            r.spec_ahead_capacity() == spec_capacity_samples(
                ahead_capacity_micros as nat,
                sample_rate as nat,
            ),
            r.spec_behind_capacity() == spec_capacity_samples(
                behind_capacity_micros as nat,
                sample_rate as nat,
            ),
            r.spec_playback_pts() == 0,
            r.spec_newest_pts() == 0,
            r.spec_sample_rate() == sample_rate,
    {
        let ahead_soft_capacity_samples = capacity_samples(ahead_capacity_micros, sample_rate);
        let behind_hard_capacity_samples = capacity_samples(behind_capacity_micros, sample_rate);
        AudioCache {
            ahead: VecDeque::new(),
            behind: VecDeque::new(),
            ahead_soft_capacity_samples,
            behind_hard_capacity_samples,
            current_playback_pts: 0,
            newest_decoded_pts: 0,
            sample_rate,
        }
    }

    /// Push decoded audio into the ahead cache (which may overflow its soft capacity).
    ///
    /// When the ahead cache was empty, playback restarts at the pushed PTS.
    pub fn push(&mut self, audio: AudioSample)
        requires
            old(self).wf(),
        ensures
            final(self).wf(),
            final(self).same_settings(old(self)),
            final(self).spec_ahead() == old(self).spec_ahead() + audio.data@,
            final(self).spec_behind() == old(self).spec_behind(),
            final(self).spec_newest_pts() == audio.pts,
            final(self).spec_playback_pts() == if old(self).spec_ahead().len() == 0 {
                audio.pts
            } else {
                old(self).spec_playback_pts()
            },
    {
        if self.ahead.len() == 0 {
            self.current_playback_pts = audio.pts;
        }
        self.newest_decoded_pts = audio.pts;
        let n = audio.data.len();
        let mut i: usize = 0;
        while i < n
            invariant
                n == audio.data@.len(),
                0 <= i <= n,
                self.ahead@ == old(self).ahead@ + audio.data@.subrange(0, i as int),
                self.behind@ == old(self).behind@,
                self.ahead_soft_capacity_samples == old(self).ahead_soft_capacity_samples,
                self.behind_hard_capacity_samples == old(self).behind_hard_capacity_samples,
                self.sample_rate == old(self).sample_rate,
                self.newest_decoded_pts == audio.pts,
                self.current_playback_pts == if old(self).ahead@.len() == 0 {
                    audio.pts
                } else {
                    old(self).current_playback_pts
                },
            decreases n - i,
        {
            self.ahead.push_back(audio.data[i]);
            assert(audio.data@.subrange(0, i + 1) == audio.data@.subrange(0, i as int).push(
                audio.data@[i as int],
            ));
            i = i + 1;
        }
        assert(audio.data@.subrange(0, n as int) == audio.data@);
    }

    /// Pop samples for audio playback.
    ///
    /// Consumed samples move from the ahead cache to the history, whose oldest
    /// samples are then dropped down to its capacity; underruns are filled
    /// with silence. Returns the samples, the PTS of the audio being played
    /// now (before the pop) and the number of real samples. The playback PTS
    /// advances by the stereo frames consumed.
    pub fn pop(&mut self, count: usize) -> (r: (Vec<SampleBits>, Pts, usize))
        requires
            old(self).wf(),
        ensures
            final(self).wf(),
            final(self).same_settings(old(self)),
            r.2 == (if old(self).spec_ahead().len() < count {
                old(self).spec_ahead().len()
            } else {
                count as nat
            }),
            r.0@ == take_padded(old(self).spec_ahead(), count as nat),
            r.1 == old(self).spec_playback_pts(),
            final(self).spec_ahead() == old(self).spec_ahead().subrange(
                r.2 as int,
                old(self).spec_ahead().len() as int,
            ),
            final(self).spec_behind() == keep_last_samples(
                old(self).spec_behind() + old(self).spec_ahead().subrange(0, r.2 as int),
                old(self).spec_behind_capacity(),
            ),
            final(self).spec_newest_pts() == old(self).spec_newest_pts(),
            final(self).spec_playback_pts() == if r.2 > 0 {
                spec_add_micros(
                    old(self).spec_playback_pts() as int,
                    stereo_duration(r.2 as nat, old(self).spec_sample_rate()),
                )
            } else {
                old(self).spec_playback_pts()
            },
    {
        let available = if self.ahead.len() < count {
            self.ahead.len()
        } else {
            count
        };
        let ghost a = self.ahead@;
        let ghost b = self.behind@;
        let mut output: Vec<SampleBits> = Vec::new();
        let mut i: usize = 0;
        while i < available
            invariant
                0 <= i <= available,
                available <= a.len(),
                a == old(self).ahead@,
                b == old(self).behind@,
                output@ == a.subrange(0, i as int),
                self.ahead@ == a.subrange(i as int, a.len() as int),
                self.behind@ == b + a.subrange(0, i as int),
                self.ahead_soft_capacity_samples == old(self).ahead_soft_capacity_samples,
                self.behind_hard_capacity_samples == old(self).behind_hard_capacity_samples,
                self.sample_rate == old(self).sample_rate,
                self.current_playback_pts == old(self).current_playback_pts,
                self.newest_decoded_pts == old(self).newest_decoded_pts,
            decreases available - i,
        {
            let sample = self.ahead.pop_front();
            match sample {
                Some(s) => {
                    output.push(s);
                    // Move consumed sample into behind cache
                    self.behind.push_back(s);
                },
                None => {},
            }
            assert(a.subrange(0, i + 1) == a.subrange(0, i as int).push(a[i as int]));
            i = i + 1;
        }
        let ghost joined = self.behind@;
        // Hard-cap behind cache
        while self.behind.len() > self.behind_hard_capacity_samples
            invariant
                self.behind@.len() <= joined.len(),
                self.behind@ == joined.subrange(
                    joined.len() - self.behind@.len(),
                    joined.len() as int,
                ),
                self.behind@.len() < joined.len() ==> self.behind@.len()
                    >= self.behind_hard_capacity_samples,
                self.ahead@ == a.subrange(available as int, a.len() as int),
                self.ahead_soft_capacity_samples == old(self).ahead_soft_capacity_samples,
                self.behind_hard_capacity_samples == old(self).behind_hard_capacity_samples,
                self.sample_rate == old(self).sample_rate,
                self.current_playback_pts == old(self).current_playback_pts,
                self.newest_decoded_pts == old(self).newest_decoded_pts,
            decreases self.behind@.len(),
        {
            self.behind.pop_front();
        }
        proof {
            assert(joined.subrange(0, joined.len() as int) == joined);
        }
        // Underrun protection
        let ghost taken = output@;
        while output.len() < count
            invariant
                output@.len() <= count,
                output@.len() >= available,
                output@ == taken + Seq::new((output@.len() - available) as nat, |j: int| SILENCE),
            decreases count - output@.len(),
        {
            output.push(SILENCE);
            assert(output@ == taken + Seq::new((output@.len() - available) as nat, |j: int| SILENCE));
        }
        proof {
            if count > a.len() {
                assert(a.subrange(0, available as int) == a);
            }
            assert(output@ == take_padded(a, count as nat));
        }
        let playback_pts = self.current_playback_pts;
        if available > 0 {
            let frames_consumed = available / 2;
            let time_consumed = frames_to_micros(frames_consumed, self.sample_rate);
            self.current_playback_pts = add_micros(self.current_playback_pts, time_consumed);
        }
        (output, playback_pts, available)
    }

    /// Peek upcoming samples without consuming.
    pub fn peek_ahead(&self, count: usize) -> (r: Vec<SampleBits>)
        ensures
            r@ == self.spec_ahead().subrange(
                0,
                if count < self.spec_ahead().len() {
                    count as int
                } else {
                    self.spec_ahead().len() as int
                },
            ),
    {
        let n = if count < self.ahead.len() {
            count
        } else {
            self.ahead.len()
        };
        let mut out: Vec<SampleBits> = Vec::new();
        let mut i: usize = 0;
        while i < n
            invariant
                0 <= i <= n,
                n <= self.ahead@.len(),
                out@ == self.ahead@.subrange(0, i as int),
            decreases n - i,
        {
            out.push(self.ahead[i]);
            assert(self.ahead@.subrange(0, i + 1) == self.ahead@.subrange(0, i as int).push(
                self.ahead@[i as int],
            ));
            i = i + 1;
        }
        out
    }

    /// Peek recently played samples, latest first.
    pub fn peek_behind(&self, count: usize) -> (r: Vec<SampleBits>)
        ensures
            r@ == latest_first(
                self.spec_behind(),
                if count < self.spec_behind().len() {
                    count as nat
                } else {
                    self.spec_behind().len()
                },
            ),
    {
        let len = self.behind.len();
        let n = if count < len {
            count
        } else {
            len
        };
        let mut out: Vec<SampleBits> = Vec::new();
        let mut i: usize = 0;
        while i < n
            invariant
                0 <= i <= n,
                n <= len,
                len == self.behind@.len(),
                out@ == latest_first(self.behind@, i as nat),
            decreases n - i,
        {
            out.push(self.behind[len - 1 - i]);
            assert(out@ == latest_first(self.behind@, (i + 1) as nat));
            i = i + 1;
        }
        out
    }

    pub fn current_pts(&self) -> (r: Pts)
        ensures
            r == self.spec_playback_pts(),
    {
        self.current_playback_pts
    }

    /// Ahead cache reached its soft capacity.
    pub fn ahead_is_full(&self) -> (r: bool)
        ensures
            r == (self.spec_ahead().len() >= self.spec_ahead_capacity()),
    {
        self.ahead.len() >= self.ahead_soft_capacity_samples
    }

    /// Ahead cache holds more than 90% of its soft capacity.
    pub fn ahead_is_nearly_full(&self) -> (r: bool)
        ensures
            r == (self.spec_ahead().len() > self.spec_ahead_capacity() * 9 / 10),
    {
        let threshold: u128 = self.ahead_soft_capacity_samples as u128 * 9 / 10;
        (self.ahead.len() as u128) > threshold
    }

    /// Samples over ahead soft capacity.
    pub fn ahead_overflow_amount(&self) -> (r: usize)
        ensures
            r == (if self.spec_ahead().len() >= self.spec_ahead_capacity() {
                self.spec_ahead().len() - self.spec_ahead_capacity()
            } else {
                0
            }),
    {
        self.ahead.len().saturating_sub(self.ahead_soft_capacity_samples)
    }

    /// Decoder should refill when less than a second of audio is ahead.
    pub fn needs_refill(&self) -> (r: bool)
        requires
            self.wf(),
        ensures
            r == (stereo_duration(self.spec_ahead().len(), self.spec_sample_rate())
                < REFILL_BELOW_MICROS),
    {
        self.ahead_duration() < REFILL_BELOW_MICROS
    }

    /// Critical starvation: less than 0.3 seconds of audio ahead.
    pub fn is_critically_low(&self) -> (r: bool)
        requires
            self.wf(),
        ensures
            r == (stereo_duration(self.spec_ahead().len(), self.spec_sample_rate())
                < CRITICAL_BELOW_MICROS),
    {
        self.ahead_duration() < CRITICAL_BELOW_MICROS
    }

    /// Duration of the audio ahead, in microseconds.
    pub fn ahead_duration(&self) -> (r: i64)
        requires
            self.wf(),
        ensures
            r == stereo_duration(self.spec_ahead().len(), self.spec_sample_rate()),
    {
        frames_to_micros(self.ahead.len() / 2, self.sample_rate)
    }

    /// Duration of the audio history, in microseconds.
    pub fn behind_duration(&self) -> (r: i64)
        requires
            self.wf(),
        ensures
            r == stereo_duration(self.spec_behind().len(), self.spec_sample_rate()),
    {
        frames_to_micros(self.behind.len() / 2, self.sample_rate)
    }

    /// Duration the ahead cache's soft capacity stands for, in microseconds.
    pub fn ahead_capacity_duration(&self) -> (r: i64)
        requires
            self.wf(),
        ensures
            r == capacity_duration(self.spec_ahead_capacity(), self.spec_sample_rate()),
    {
        samples_to_micros(self.ahead_soft_capacity_samples, self.sample_rate)
    }

    /// Duration the history's capacity stands for, in microseconds.
    pub fn behind_capacity_duration(&self) -> (r: i64)
        requires
            self.wf(),
        ensures
            r == capacity_duration(self.spec_behind_capacity(), self.spec_sample_rate()),
    {
        samples_to_micros(self.behind_hard_capacity_samples, self.sample_rate)
    }

    pub fn ahead_len(&self) -> (r: usize)
        ensures
            r == self.spec_ahead().len(),
    {
        self.ahead.len()
    }

    pub fn behind_len(&self) -> (r: usize)
        ensures
            r == self.spec_behind().len(),
    {
        self.behind.len()
    }

    /// Total number of samples held (saturating at `usize::MAX`).
    pub fn len(&self) -> (r: usize)
        ensures
            r == (if self.spec_ahead().len() + self.spec_behind().len() <= usize::MAX {
                self.spec_ahead().len() + self.spec_behind().len()
            } else {
                usize::MAX as nat
            }),
    {
        self.ahead.len().saturating_add(self.behind.len())
    }

    pub fn is_empty(&self) -> (r: bool)
        ensures
            r == (self.spec_ahead().len() == 0 && self.spec_behind().len() == 0),
    {
        self.len() == 0
    }

    pub fn clear(&mut self)
        ensures
            final(self).same_settings(old(self)),
            final(self).spec_ahead() == Seq::<SampleBits>::empty(),
            final(self).spec_behind() == Seq::<SampleBits>::empty(),
            final(self).spec_playback_pts() == old(self).spec_playback_pts(),
            final(self).spec_newest_pts() == old(self).spec_newest_pts(),
    {
        self.ahead.clear();
        self.behind.clear();
    }

    /// Empty both halves and restart the timeline at `pts`.
    pub fn reset(&mut self, pts: Pts)
        ensures
            final(self).same_settings(old(self)),
            final(self).spec_ahead() == Seq::<SampleBits>::empty(),
            final(self).spec_behind() == Seq::<SampleBits>::empty(),
            final(self).spec_playback_pts() == pts,
            final(self).spec_newest_pts() == pts,
    {
        self.ahead.clear();
        self.behind.clear();
        self.current_playback_pts = pts;
        self.newest_decoded_pts = pts;
    }

    /// Trim the history down to its capacity.
    pub fn prune_behind(&mut self)
        ensures
            final(self).same_settings(old(self)),
            final(self).spec_ahead() == old(self).spec_ahead(),
            final(self).spec_behind() == keep_last_samples(
                old(self).spec_behind(),
                old(self).spec_behind_capacity(),
            ),
            final(self).spec_playback_pts() == old(self).spec_playback_pts(),
            final(self).spec_newest_pts() == old(self).spec_newest_pts(),
    {
        let ghost joined = self.behind@;
        while self.behind.len() > self.behind_hard_capacity_samples
            invariant
                self.behind@.len() <= joined.len(),
                self.behind@ == joined.subrange(
                    joined.len() - self.behind@.len(),
                    joined.len() as int,
                ),
                self.behind@.len() < joined.len() ==> self.behind@.len()
                    >= self.behind_hard_capacity_samples,
                self.ahead@ == old(self).ahead@,
                self.ahead_soft_capacity_samples == old(self).ahead_soft_capacity_samples,
                self.behind_hard_capacity_samples == old(self).behind_hard_capacity_samples,
                self.sample_rate == old(self).sample_rate,
                self.current_playback_pts == old(self).current_playback_pts,
                self.newest_decoded_pts == old(self).newest_decoded_pts,
            decreases self.behind@.len(),
        {
            self.behind.pop_front();
        }
        assert(joined.subrange(0, joined.len() as int) == joined);
    }
}

impl Default for AudioCache {
    fn default() -> (r: Self)
        ensures
            r.wf(),
            r.spec_ahead() == Seq::<SampleBits>::empty(),
            r.spec_behind() == Seq::<SampleBits>::empty(),
            r.spec_ahead_capacity() == 192000,
            r.spec_behind_capacity() == 192000,
            r.spec_playback_pts() == 0,
            r.spec_newest_pts() == 0,
            r.spec_sample_rate() == SAMPLE_RATE,
    {
        AudioCache::new(AUDIO_BUFFER_MICROS, AUDIO_BUFFER_MICROS, SAMPLE_RATE)
    }
}

impl super::Cache for AudioCache {
    closed spec fn spec_len(&self) -> nat {
        self.ahead@.len() + self.behind@.len()
    }

    fn clear(&mut self) {
        AudioCache::clear(self)
    }

    fn len(&self) -> (r: usize) {
        AudioCache::len(self)
    }
}

} // verus!
