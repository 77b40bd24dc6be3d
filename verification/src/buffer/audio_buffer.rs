use std::collections::VecDeque;
use vstd::prelude::*;

use crate::timing::{add_micros, capacity_samples, spec_add_micros, spec_capacity_samples};
use crate::types::{
    frames_to_micros, spec_frames_to_micros, AudioSample, Pts, SampleBits, SILENCE,
};

verus! {

/// Ring buffer for audio samples
///
/// Stores decoded interleaved stereo samples for the audio output.
pub struct AudioBuffer {
    samples: VecDeque<SampleBits>,
    capacity_samples: usize,
    current_pts: Pts,
    sample_rate: u32,
}

/// Duration of `n` interleaved stereo samples at `rate` Hz, saturated.
pub open spec fn stereo_duration(n: nat, rate: nat) -> int {
    if spec_frames_to_micros(n / 2, rate) <= i64::MAX {
        spec_frames_to_micros(n / 2, rate) as int
    } else {
        i64::MAX as int
    }
}

/// `count` samples taken from the front of `s`, padded with silence.
pub open spec fn take_padded(s: Seq<SampleBits>, count: nat) -> Seq<SampleBits> {
    if count <= s.len() {
        s.subrange(0, count as int)
    } else {
        s + Seq::new((count - s.len()) as nat, |i: int| SILENCE)
    }
}

/// Samples come out in the order they went in: after `pushed` is appended
/// behind the samples `held`, a pop of as many samples as were held gives
/// exactly those, and what remains is `pushed`; a later pop of up to
/// `pushed`'s length gives its start.
pub proof fn lemma_pop_after_push(held: Seq<SampleBits>, pushed: Seq<SampleBits>, count: nat)
    requires
        count <= pushed.len(),
    ensures
        take_padded(held + pushed, held.len()) == held,
        (held + pushed).subrange(held.len() as int, (held + pushed).len() as int) == pushed,
        take_padded(pushed, count) == pushed.subrange(0, count as int),
{
    assert((held + pushed).subrange(0, held.len() as int) =~= held);
    assert((held + pushed).subrange(held.len() as int, (held + pushed).len() as int) =~= pushed);
}

impl View for AudioBuffer {
    type V = Seq<SampleBits>;

    closed spec fn view(&self) -> Seq<SampleBits> {
        self.samples@
    }
}

impl AudioBuffer {
    pub closed spec fn spec_capacity(&self) -> nat {
        self.capacity_samples as nat
    }

    pub closed spec fn spec_current_pts(&self) -> Pts {
        self.current_pts
    }

    pub closed spec fn spec_sample_rate(&self) -> nat {
        self.sample_rate as nat
    }

    /// The sample rate is positive.
    pub open spec fn wf(&self) -> bool {
        self.spec_sample_rate() > 0
    }

    /// Create a new audio buffer holding `capacity_micros` of stereo audio.
    pub fn new(capacity_micros: u64, sample_rate: u32) -> (r: Self)
        requires
            sample_rate > 0,
        ensures
            r.wf(),
            r@ == Seq::<SampleBits>::empty(),
            r.spec_capacity() == spec_capacity_samples(capacity_micros as nat, sample_rate as nat),
            r.spec_current_pts() == 0,
            r.spec_sample_rate() == sample_rate,
    {
        let capacity_samples = capacity_samples(capacity_micros, sample_rate);
        AudioBuffer {
            samples: VecDeque::new(),
            capacity_samples,
            current_pts: 0,
            sample_rate,
        }
    }

    /// Push audio samples into the buffer
    ///
    /// If the samples do not fit, all of them are rejected, but the PTS still
    /// advances to the end of the rejected samples to keep the clock continuous.
    /// Otherwise the PTS becomes the start of the pushed samples.
    pub fn push(&mut self, audio: AudioSample)
        requires
            old(self).wf(),
        ensures
            final(self).wf(),
            final(self).spec_capacity() == old(self).spec_capacity(),
            final(self).spec_sample_rate() == old(self).spec_sample_rate(),
            if old(self)@.len() + audio.data@.len() > old(self).spec_capacity() {
                &&& final(self)@ == old(self)@
                &&& final(self).spec_current_pts() == spec_add_micros(
                    audio.pts as int,
                    stereo_duration(audio.data@.len(), old(self).spec_sample_rate()),
                )
            } else {
                &&& final(self)@ == old(self)@ + audio.data@
                &&& final(self).spec_current_pts() == audio.pts
            },
    {
        let sample_count = audio.data.len();
        let would_overflow = sample_count > self.capacity_samples || self.samples.len()
            > self.capacity_samples - sample_count;
        if would_overflow {
            let frames_in_sample = sample_count / 2;
            let sample_duration = frames_to_micros(frames_in_sample, self.sample_rate);
            self.current_pts = add_micros(audio.pts, sample_duration);
            return;
        }
        self.current_pts = audio.pts;
        let n = audio.data.len();
        let mut i: usize = 0;
        while i < n
            invariant
                n == audio.data@.len(),
                0 <= i <= n,
                self.samples@ == old(self)@ + audio.data@.subrange(0, i as int),
                self.capacity_samples == old(self).capacity_samples,
                self.sample_rate == old(self).sample_rate,
                self.current_pts == audio.pts,
            decreases n - i,
        {
            self.samples.push_back(audio.data[i]);
            assert(audio.data@.subrange(0, i + 1) == audio.data@.subrange(0, i as int).push(
                audio.data@[i as int],
            ));
            i = i + 1;
        }
        assert(audio.data@.subrange(0, n as int) == audio.data@);
    }

    /// Pop samples for audio output
    ///
    /// Returns the requested number of samples (filled with silence if not enough available),
    /// the PTS before the pop, and the number of actual (non-silence) samples.
    /// The PTS advances by the duration of the stereo frames consumed.
    pub fn pop(&mut self, count: usize) -> (r: (Vec<SampleBits>, Pts, usize))
        requires
            old(self).wf(),
        ensures
            final(self).wf(),
            final(self).spec_capacity() == old(self).spec_capacity(),
            final(self).spec_sample_rate() == old(self).spec_sample_rate(),
            r.2 == (if old(self)@.len() < count {
                old(self)@.len()
            } else {
                count as nat
            }),
            r.0@ == take_padded(old(self)@, count as nat),
            r.1 == old(self).spec_current_pts(),
            final(self)@ == old(self)@.subrange(r.2 as int, old(self)@.len() as int),
            final(self).spec_current_pts() == if r.2 > 0 {
                spec_add_micros(
                    old(self).spec_current_pts() as int,
                    stereo_duration(r.2 as nat, old(self).spec_sample_rate()),
                )
            } else {
                old(self).spec_current_pts()
            },
    {
        let available = if self.samples.len() < count {
            self.samples.len()
        } else {
            count
        };
        let mut output: Vec<SampleBits> = Vec::new();
        let mut i: usize = 0;
        while i < available
            invariant
                0 <= i <= available,
                available <= old(self)@.len(),
                output@ == old(self)@.subrange(0, i as int),
                self.samples@ == old(self)@.subrange(i as int, old(self)@.len() as int),
                self.capacity_samples == old(self).capacity_samples,
                self.sample_rate == old(self).sample_rate,
                self.current_pts == old(self).current_pts,
            decreases available - i,
        {
            let ghost before = self.samples@;
            let sample = self.samples.pop_front();
            match sample {
                Some(s) => {
                    output.push(s);
                },
                None => {},
            }
            assert(old(self)@.subrange(0, i + 1) == old(self)@.subrange(0, i as int).push(
                old(self)@[i as int],
            ));
            i = i + 1;
        }
        // Fill remaining with silence if we don't have enough samples
        let ghost taken = output@;
        while output.len() < count
            invariant
                output@.len() <= count,
                output@.len() >= available,
                output@ == taken + Seq::new((output@.len() - available) as nat, |j: int| SILENCE),
            decreases count - output@.len(),
        {
            let ghost prev = output@;
            output.push(SILENCE);
            assert(output@ == taken + Seq::new((output@.len() - available) as nat, |j: int| SILENCE));
        }
        proof {
            if count <= old(self)@.len() {
                assert(output@ == take_padded(old(self)@, count as nat));
            } else {
                assert(old(self)@.subrange(0, available as int) == old(self)@);
                assert(output@ == take_padded(old(self)@, count as nat));
            }
        }
        let current_pts = self.current_pts;
        if available > 0 {
            let frames_consumed = available / 2;
            let time_consumed = frames_to_micros(frames_consumed, self.sample_rate);
            self.current_pts = add_micros(self.current_pts, time_consumed);
        }
        (output, current_pts, available)
    }

    /// Get the number of samples currently in the buffer
    pub fn len(&self) -> (r: usize)
        ensures
            r == self@.len(),
    {
        self.samples.len()
    }

    /// Check if the buffer is empty
    pub fn is_empty(&self) -> (r: bool)
        ensures
            r == (self@.len() == 0),
    {
        self.len() == 0
    }

    /// Check if the buffer is nearly full (more than 90% of its capacity)
    pub fn is_nearly_full(&self) -> (r: bool)
        ensures
            r == (self@.len() > self.spec_capacity() * 9 / 10),
    {
        let threshold: u128 = self.capacity_samples as u128 * 9 / 10;
        (self.samples.len() as u128) > threshold
    }

    /// Get the current PTS
    pub fn current_pts(&self) -> (r: Pts)
        ensures
            r == self.spec_current_pts(),
    {
        self.current_pts
    }

    /// Clear all samples from the buffer
    pub fn clear(&mut self)
        ensures
            final(self)@ == Seq::<SampleBits>::empty(),
            final(self).spec_capacity() == old(self).spec_capacity(),
            final(self).spec_sample_rate() == old(self).spec_sample_rate(),
            final(self).spec_current_pts() == old(self).spec_current_pts(),
    {
        self.samples.clear();
    }

    /// Reset the buffer and PTS
    pub fn reset(&mut self, pts: Pts)
        ensures
            final(self)@ == Seq::<SampleBits>::empty(),
            final(self).spec_capacity() == old(self).spec_capacity(),
            final(self).spec_sample_rate() == old(self).spec_sample_rate(),
            final(self).spec_current_pts() == pts,
    {
        self.samples.clear();
        self.current_pts = pts;
    }

    /// Get the duration of buffered audio in microseconds
    pub fn buffered_duration(&self) -> (r: i64)
        requires
            self.wf(),
        ensures
            r == stereo_duration(self@.len(), self.spec_sample_rate()),
    {
        let frames = self.samples.len() / 2;
        frames_to_micros(frames, self.sample_rate)
    }
}

impl super::Buffer for AudioBuffer {
    closed spec fn spec_len(&self) -> nat {
        self.samples@.len()
    }

    fn clear(&mut self)
        ensures
            final(self)@ == Seq::<SampleBits>::empty(),
            final(self).spec_capacity() == old(self).spec_capacity(),
            final(self).spec_sample_rate() == old(self).spec_sample_rate(),
            final(self).spec_current_pts() == old(self).spec_current_pts(),
    {
        AudioBuffer::clear(self)
    }

    fn len(&self) -> (r: usize)
        ensures
            r == self@.len(),
    {
        AudioBuffer::len(self)
    }
}

} // verus!
