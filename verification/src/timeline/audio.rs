//! Audio frames on the microsecond timeline and the buffer they wait in
//! before the audio output reads them.

use std::collections::VecDeque;
use vstd::prelude::*;

use crate::timeline::frame::Microseconds;
use crate::timing::{add_micros, spec_add_micros};
use crate::types::SampleBits;

verus! {

/// Audio buffer error types
#[derive(Debug, Clone, Copy, PartialEq, Eq, Structural)]
pub enum AudioBufferError {
    /// Audio buffer is full
    Full,
    /// Audio buffer underrun
    Underrun,
}

/// Result of an audio push that does not wait
#[derive(Debug, Clone, Copy, PartialEq, Eq, Structural)]
pub enum AudioBufferResult {
    /// The frame was taken
    Accepted,
    Full,
}

/// Configuration for audio buffer behavior
#[derive(Debug, Clone, Copy)]
pub struct AudioBufferConfig {
    /// Maximum duration of audio to buffer, in microseconds
    pub max_duration_micros: u64,
    /// Sample rate (samples per second)
    pub sample_rate: u32,
    /// Number of channels (1=mono, 2=stereo, etc.)
    pub channels: u16,
}

/// Samples in `micros` microseconds of audio with `channels` channels at
/// `rate` Hz, rounded down and saturated at `usize::MAX`.
pub open spec fn spec_max_samples(micros: nat, rate: nat, channels: nat) -> nat {
    if micros * rate * channels / 1_000_000 <= usize::MAX {
        micros * rate * channels / 1_000_000
    } else {
        usize::MAX as nat
    }
}

impl Default for AudioBufferConfig {
    fn default() -> (r: Self)
        ensures
            r.max_duration_micros == 2_000_000,
            r.sample_rate == 48000,
            r.channels == 2,
    {
        AudioBufferConfig { max_duration_micros: 2_000_000, sample_rate: 48000, channels: 2 }
    }
}

impl AudioBufferConfig {
    /// Maximum number of samples to buffer
    pub fn max_samples(&self) -> (r: usize)
        ensures
            r == spec_max_samples(
                self.max_duration_micros as nat,
                self.sample_rate as nat,
                self.channels as nat,
            ),
    {
        let a: u128 = self.max_duration_micros as u128;
        let b: u128 = self.sample_rate as u128;
        let c: u128 = self.channels as u128;
        assert(a * b <= 0xffff_ffff_ffff_ffffu128 * 0xffff_ffffu128) by (nonlinear_arith)
            requires
                a <= 0xffff_ffff_ffff_ffffu128,
                b <= 0xffff_ffffu128,
        ;
        let ab: u128 = a * b;
        assert(ab * c <= 0xffff_ffff_ffff_ffffu128 * 0xffff_ffffu128 * 0xffffu128)
            by (nonlinear_arith)
            requires
                ab <= 0xffff_ffff_ffff_ffffu128 * 0xffff_ffffu128,
                c <= 0xffffu128,
        ;
        let total: u128 = ab * c;
        let q = total / 1_000_000;
        if q <= usize::MAX as u128 {
            q as usize
        } else {
            usize::MAX
        }
    }
}

/// A decoded audio frame containing interleaved PCM samples
pub struct AudioFrame {
    /// Presentation timestamp
    pub pts: Microseconds,
    /// Interleaved samples; for stereo: [L, R, L, R, ...]
    pub samples: Vec<SampleBits>,
    /// Sample rate
    pub sample_rate: u32,
    /// Number of channels
    pub channels: u16,
}

/// Microseconds that `per_channel` samples per channel last at `rate` Hz,
/// rounded down and saturated at `i64::MAX`. At a rate of zero no samples
/// last no time and any samples last without end (`i64::MAX`).
pub open spec fn spec_offset_micros(per_channel: nat, rate: nat) -> i64 {
    if rate == 0 {
        if per_channel == 0 {
            0
        } else {
            i64::MAX
        }
    } else if per_channel * 1_000_000 / rate <= i64::MAX {
        (per_channel * 1_000_000 / rate) as i64
    } else {
        i64::MAX
    }
}

fn offset_micros(per_channel: usize, rate: u32) -> (r: i64)
    ensures
        r == spec_offset_micros(per_channel as nat, rate as nat),
{
    if rate == 0 {
        return if per_channel == 0 {
            0
        } else {
            i64::MAX
        };
    }
    let q: u128 = per_channel as u128 * 1_000_000 / rate as u128;
    if q <= i64::MAX as u128 {
        q as i64
    } else {
        i64::MAX
    }
}

impl AudioFrame {
    /// Create a new audio frame
    pub fn new(pts: Microseconds, samples: Vec<SampleBits>, sample_rate: u32, channels: u16) -> (r:
        Self)
        ensures
            r.pts == pts,
            r.samples@ == samples@,
            r.sample_rate == sample_rate,
            r.channels == channels,
    {
        AudioFrame { pts, samples, sample_rate, channels }
    }

    /// The duration of this frame in microseconds
    pub fn duration(&self) -> (r: i64)
        requires
            self.channels > 0,
        ensures
            r == spec_offset_micros(
                self.samples@.len() / (self.channels as nat),
                self.sample_rate as nat,
            ),
    {
        offset_micros(self.num_samples(), self.sample_rate)
    }

    /// The number of samples per channel
    pub fn num_samples(&self) -> (r: usize)
        requires
            self.channels > 0,
        ensures
            r == self.samples@.len() / (self.channels as nat),
    {
        self.samples.len() / self.channels as usize
    }
}

/// The samples of all frames, one after another.
pub open spec fn flatten(fs: Seq<AudioFrame>) -> Seq<SampleBits>
    decreases fs.len(),
{
    if fs.len() == 0 {
        Seq::empty()
    } else {
        fs[0].samples@ + flatten(fs.drop_first())
    }
}

pub proof fn lemma_flatten_push(fs: Seq<AudioFrame>, f: AudioFrame)
    ensures
        flatten(fs.push(f)) == flatten(fs) + f.samples@,
    decreases fs.len(),
{
    if fs.len() == 0 {
        assert(fs.push(f).drop_first() == fs);
    } else {
        lemma_flatten_push(fs.drop_first(), f);
        assert(fs.push(f).drop_first() == fs.drop_first().push(f));
    }
}

/// The samples of `frames` from position `rp` of the first one on.
pub open spec fn stream_of(frames: Seq<AudioFrame>, rp: nat) -> Seq<SampleBits> {
    flatten(frames).subrange(rp as int, flatten(frames).len() as int)
}

/// The frames and read position after reading `n` more samples from
/// position `rp` of the first frame: every frame read to its end is dropped,
/// and reading stops when `n` samples are read or no frame is left.
pub open spec fn spec_advance(frames: Seq<AudioFrame>, rp: nat, n: nat) -> (Seq<AudioFrame>, nat)
    decreases frames.len(),
{
    if frames.len() == 0 || n == 0 {
        (frames, rp)
    } else {
        let flen = frames[0].samples@.len();
        let avail: nat = if rp <= flen {
            (flen - rp) as nat
        } else {
            0
        };
        let c: nat = if n < avail {
            n
        } else {
            avail
        };
        if rp + c >= flen {
            spec_advance(frames.drop_first(), 0, (n - c) as nat)
        } else {
            (frames, rp + c)
        }
    }
}

/// The first `want` samples of `s`, or all of them when there are fewer.
pub open spec fn read_prefix(s: Seq<SampleBits>, want: nat) -> Seq<SampleBits> {
    if want < s.len() {
        s.subrange(0, want as int)
    } else {
        s
    }
}

/// What is left of `s` after a read of `want` samples.
pub open spec fn read_rest(s: Seq<SampleBits>, want: nat) -> Seq<SampleBits> {
    if want < s.len() {
        s.subrange(want as int, s.len() as int)
    } else {
        Seq::empty()
    }
}

/// A read may stop in the middle of a frame: two reads of `a` and then `b`
/// samples give, one after the other, what one read of `a + b` gives, and
/// leave the same samples behind. Nothing is lost or read twice.
pub proof fn lemma_split_reads(s: Seq<SampleBits>, a: nat, b: nat)
    ensures
        read_prefix(s, a) + read_prefix(read_rest(s, a), b) == read_prefix(s, a + b),
        read_rest(read_rest(s, a), b) == read_rest(s, a + b),
{
    if a < s.len() {
        let r = s.subrange(a as int, s.len() as int);
        if b < r.len() {
            assert(s.subrange(0, a as int) + r.subrange(0, b as int) =~= s.subrange(0, (a + b) as int));
            assert(r.subrange(b as int, r.len() as int) =~= s.subrange((a + b) as int, s.len() as int));
        } else {
            assert(s.subrange(0, a as int) + r =~= s);
        }
    } else {
        assert(read_rest(s, a) =~= Seq::<SampleBits>::empty());
        assert(s + Seq::<SampleBits>::empty() =~= s);
    }
}

/// Every frame has channels, so the timestamp of any of its samples can be
/// computed.
pub open spec fn frames_have_channels(fs: Seq<AudioFrame>) -> bool {
    forall|i: int| 0 <= i < fs.len() ==> #[trigger] fs[i].channels > 0
}

/// Statistics about the audio buffer state
#[derive(Debug, Clone, Copy)]
pub struct AudioBufferStats {
    pub frame_count: usize,
    pub total_samples: usize,
    /// Buffered audio in microseconds
    pub buffered_duration: i64,
    pub is_full: bool,
    pub is_empty: bool,
}

/// Buffer of audio frames read as one stream of samples.
///
/// Reads may stop in the middle of a frame; the read position within the
/// first frame tells where the next read starts.
pub struct AudioBuffer {
    frames: VecDeque<AudioFrame>,
    total_samples: usize,
    max_samples: usize,
    read_position: usize,
    config: AudioBufferConfig,
}

/// The timestamp of the sample at `read_position` in frame `f`.
pub open spec fn spec_position_pts(f: AudioFrame, read_position: nat) -> i64 {
    spec_add_micros(
        f.pts.0 as int,
        spec_offset_micros(read_position / (f.channels as nat), f.sample_rate as nat) as int,
    )
}

impl AudioBuffer {
    /// The frames held, the first one partly read.
    pub closed spec fn spec_frames(&self) -> Seq<AudioFrame> {
        self.frames@
    }

    pub closed spec fn spec_read_position(&self) -> nat {
        self.read_position as nat
    }

    /// The samples still to be read.
    pub open spec fn spec_stream(&self) -> Seq<SampleBits> {
        stream_of(self.spec_frames(), self.spec_read_position())
    }

    pub closed spec fn spec_max_samples(&self) -> nat {
        self.max_samples as nat
    }

    pub closed spec fn spec_config(&self) -> AudioBufferConfig {
        self.config
    }

    /// The count of buffered samples is the stream's length, within the
    /// maximum; the read position lies in the first frame.
    pub open spec fn wf(&self) -> bool {
        &&& self.spec_read_position() <= flatten(self.spec_frames()).len()
        &&& self.spec_frames().len() > 0 ==> self.spec_read_position()
            <= self.spec_frames()[0].samples@.len()
        &&& self.spec_frames().len() == 0 ==> self.spec_read_position() == 0
        &&& self.spec_stream().len() <= self.spec_max_samples()
        &&& self.spec_total() == self.spec_stream().len()
    }

    /// The timestamp of the next sample to be read, from the first frame;
    /// none when no frame is buffered.
    pub open spec fn spec_current_pts(&self) -> Option<Microseconds> {
        if self.spec_frames().len() == 0 {
            None
        } else {
            Some(
                Microseconds(spec_position_pts(self.spec_frames()[0], self.spec_read_position())),
            )
        }
    }

    /// The first frame, if there is one, has channels: the timestamp of its
    /// next sample can be computed.
    pub open spec fn front_has_channels(&self) -> bool {
        self.spec_frames().len() > 0 ==> self.spec_frames()[0].channels > 0
    }

    pub closed spec fn spec_total(&self) -> nat {
        self.total_samples as nat
    }

    pub fn new(config: AudioBufferConfig) -> (r: Self)
        ensures
            r.wf(),
            r.spec_frames().len() == 0,
            r.spec_stream().len() == 0,
            r.spec_total() == 0,
            r.spec_config() == config,
            r.spec_max_samples() == spec_max_samples(
                config.max_duration_micros as nat,
                config.sample_rate as nat,
                config.channels as nat,
            ),
    {
        let max_samples = config.max_samples();
        AudioBuffer {
            frames: VecDeque::new(),
            total_samples: 0,
            max_samples,
            read_position: 0,
            config,
        }
    }

    /// Push a frame; there must be room for it (a producer waits until the
    /// output has read enough).
    pub fn push(&mut self, frame: AudioFrame)
        requires
            old(self).wf(),
            old(self).spec_stream().len() + frame.samples@.len() <= old(self).spec_max_samples(),
        ensures
            final(self).wf(),
            final(self).spec_config() == old(self).spec_config(),
            final(self).spec_max_samples() == old(self).spec_max_samples(),
            final(self).spec_frames() == old(self).spec_frames().push(frame),
            final(self).spec_stream() == old(self).spec_stream() + frame.samples@,
    {
        let r = self.try_push(frame);
        assert(r == AudioBufferResult::Accepted);
    }

    /// Push a frame unless it would take the buffer past its maximum.
    pub fn try_push(&mut self, frame: AudioFrame) -> (r: AudioBufferResult)
        requires
            old(self).wf(),
        ensures
            final(self).wf(),
            final(self).spec_config() == old(self).spec_config(),
            final(self).spec_max_samples() == old(self).spec_max_samples(),
            old(self).spec_stream().len() + frame.samples@.len() > old(self).spec_max_samples()
                ==> r == AudioBufferResult::Full && final(self).spec_frames() == old(
                self,
            ).spec_frames() && final(self).spec_stream() == old(self).spec_stream(),
            old(self).spec_stream().len() + frame.samples@.len() <= old(self).spec_max_samples()
                ==> r == AudioBufferResult::Accepted && final(self).spec_frames() == old(
                self,
            ).spec_frames().push(frame) && final(self).spec_stream() == old(self).spec_stream()
                + frame.samples@,
    {
        let n = frame.samples.len();
        if n > self.max_samples - self.total_samples {
            return AudioBufferResult::Full;
        }
        let ghost fs = self.frames@;
        let ghost f = frame;
        self.total_samples = self.total_samples + n;
        self.frames.push_back(frame);
        proof {
            lemma_flatten_push(fs, f);
            let rp = self.read_position as int;
            assert(flatten(fs.push(f)).subrange(rp, flatten(fs.push(f)).len() as int) == flatten(
                fs,
            ).subrange(rp, flatten(fs).len() as int) + f.samples@);
            if fs.len() > 0 {
                assert(self.frames@[0] == fs[0]);
            }
        }
        AudioBufferResult::Accepted
    }

    /// Read up to `num_samples` samples per channel (of the configured
    /// channel count) and return them with the timestamp of the first one:
    /// the one `current_pts` gives just before the read.
    ///
    /// `None` when no frame is buffered.
    pub fn pull_samples_with_pts(&mut self, num_samples: usize) -> (r: Option<
        (Vec<SampleBits>, Microseconds),
    >)
        requires
            old(self).wf(),
            old(self).front_has_channels(),
            num_samples * old(self).spec_config().channels <= usize::MAX,
        ensures
            final(self).wf(),
            final(self).spec_config() == old(self).spec_config(),
            final(self).spec_max_samples() == old(self).spec_max_samples(),
            frames_have_channels(old(self).spec_frames()) ==> frames_have_channels(
                final(self).spec_frames(),
            ),
            old(self).spec_frames().len() == 0 ==> r.is_none() && final(self).spec_frames() == old(
                self,
            ).spec_frames() && final(self).spec_read_position() == old(self).spec_read_position(),
            old(self).spec_frames().len() > 0 ==> {
                let want = (num_samples * old(self).spec_config().channels) as nat;
                let k = read_prefix(old(self).spec_stream(), want).len();
                &&& r.is_some()
                &&& Some(r.unwrap().1) == old(self).spec_current_pts()
                &&& r.unwrap().0@ == read_prefix(old(self).spec_stream(), want)
                &&& r.unwrap().1.0 == spec_position_pts(
                    old(self).spec_frames()[0],
                    old(self).spec_read_position(),
                )
                &&& final(self).spec_stream() == read_rest(old(self).spec_stream(), want)
                &&& final(self).spec_frames().len() <= old(self).spec_frames().len()
                &&& (k == 0 && want > 0 ==> final(self).spec_frames().len() < old(
                    self,
                ).spec_frames().len())
                &&& (final(self).spec_frames(), final(self).spec_read_position()) == spec_advance(
                    old(self).spec_frames(),
                    old(self).spec_read_position(),
                    want as nat,
                )
            },
    {
        if self.frames.len() == 0 {
            return None;
        }
        let pts = self.position_pts();
        let want = num_samples * self.config.channels as usize;
        let mut output: Vec<SampleBits> = Vec::new();
        let mut remaining = want;
        let ghost stream0 = self.spec_stream();
        let ghost n0 = self.frames@.len();
        let ghost fs0 = self.frames@;
        let ghost rp0 = self.read_position as nat;
        while remaining > 0 && self.frames.len() > 0
            invariant
                self.wf(),
                self.total_samples == self.spec_stream().len(),
                self.config == old(self).config,
                self.max_samples == old(self).max_samples,
                remaining <= want,
                output@.len() == want - remaining,
                stream0 == output@ + self.spec_stream(),
                self.frames@.len() <= n0,
                frames_have_channels(fs0) ==> frames_have_channels(self.frames@),
                spec_advance(self.frames@, self.read_position as nat, remaining as nat)
                    == spec_advance(fs0, rp0, want as nat),
            decreases remaining + self.frames@.len(),
        {
            let read_pos = self.read_position;
            let flen = self.frames[0].samples.len();
            let available = flen - read_pos;
            let to_copy = if remaining < available {
                remaining
            } else {
                available
            };
            let ghost fs = self.frames@;
            let ghost s_before = self.spec_stream();
            let ghost adv = spec_advance(fs, read_pos as nat, remaining as nat);
            proof {
                assert(flatten(fs) == fs[0].samples@ + flatten(fs.drop_first()));
                assert(s_before == fs[0].samples@.subrange(read_pos as int, flen as int) + flatten(
                    fs.drop_first(),
                ));
            }
            let mut i: usize = 0;
            let ghost out_before = output@;
            while i < to_copy
                invariant
                    self.frames@ == fs,
                    i <= to_copy,
                    read_pos + to_copy <= flen,
                    flen == fs[0].samples@.len(),
                    fs.len() > 0,
                    output@ == out_before + fs[0].samples@.subrange(read_pos as int, read_pos + i),
                decreases to_copy - i,
            {
                output.push(self.frames[0].samples[read_pos + i]);
                assert(fs[0].samples@.subrange(read_pos as int, read_pos + i + 1) == fs[0].samples@.subrange(
                    read_pos as int,
                    read_pos + i,
                ).push(fs[0].samples@[read_pos + i]));
                i = i + 1;
            }
            self.read_position = read_pos + to_copy;
            self.total_samples = self.total_samples - to_copy;
            remaining = remaining - to_copy;
            proof {
                assert(self.spec_stream() == fs[0].samples@.subrange(
                    (read_pos + to_copy) as int,
                    flen as int,
                ) + flatten(fs.drop_first()));
                assert(s_before == fs[0].samples@.subrange(read_pos as int, read_pos + to_copy)
                    + self.spec_stream());
            }
            // If the whole frame has been read, drop it
            if self.read_position >= flen {
                self.frames.pop_front();
                self.read_position = 0;
                proof {
                    assert(self.frames@ == fs.drop_first());
                    assert(self.spec_stream() == flatten(fs.drop_first()));
                    if frames_have_channels(fs0) {
                        assert forall|i: int| 0 <= i < self.frames@.len() implies #[trigger]
                            self.frames@[i].channels > 0 by {
                            assert(self.frames@[i] == fs[i + 1]);
                        }
                    }
                    if self.frames@.len() == 0 {
                        assert(flatten(self.frames@) == Seq::<SampleBits>::empty());
                    }
                }
            }
            proof {
                assert(spec_advance(self.frames@, self.read_position as nat, remaining as nat)
                    == adv);
            }
        }
        proof {
            let k = want - remaining;
            if self.frames@.len() == 0 {
                assert(flatten(self.frames@) =~= Seq::<SampleBits>::empty());
                assert(self.spec_stream().len() == 0);
            }
            assert(output@ == stream0.subrange(0, k as int));
            assert(self.spec_stream() == stream0.subrange(k as int, stream0.len() as int));
        }
        Some((output, pts))
    }

    /// The timestamp of the next sample to read, from the first frame.
    fn position_pts(&self) -> (r: Microseconds)
        requires
            self.spec_frames().len() > 0,
            self.spec_frames()[0].channels > 0,
        ensures
            r.0 == spec_position_pts(self.spec_frames()[0], self.spec_read_position()),
    {
        let frame = &self.frames[0];
        let per_channel = self.read_position / frame.channels as usize;
        let offset = offset_micros(per_channel, frame.sample_rate);
        Microseconds(add_micros(frame.pts.0, offset))
    }

    /// The playback timestamp: that of the next sample to be read.
    /// `None` when the buffer is empty.
    pub fn current_pts(&self) -> (r: Option<Microseconds>)
        requires
            self.front_has_channels(),
        ensures
            r == self.spec_current_pts(),
    {
        if self.frames.len() == 0 {
            None
        } else {
            Some(self.position_pts())
        }
    }

    /// The timestamp of the next sample to be read.
    pub fn next_pts(&self) -> (r: Option<Microseconds>)
        requires
            self.front_has_channels(),
        ensures
            r == self.spec_current_pts(),
    {
        self.current_pts()
    }

    /// Buffered audio in microseconds, by the configured channels and rate.
    pub fn buffered_duration(&self) -> (r: i64)
        requires
            self.spec_config().channels > 0,
        ensures
            r == spec_offset_micros(
                self.spec_total() / (self.spec_config().channels as nat),
                self.spec_config().sample_rate as nat,
            ),
    {
        offset_micros(self.total_samples / self.config.channels as usize, self.config.sample_rate)
    }

    /// The number of frames currently buffered
    pub fn frame_count(&self) -> (r: usize)
        ensures
            r == self.spec_frames().len(),
    {
        self.frames.len()
    }

    /// Check if the buffer is empty
    pub fn is_empty(&self) -> (r: bool)
        ensures
            r == (self.spec_frames().len() == 0),
    {
        self.frames.len() == 0
    }

    /// Check if the buffer is full
    pub fn is_full(&self) -> (r: bool)
        ensures
            r == (self.spec_total() >= self.spec_max_samples()),
    {
        self.total_samples >= self.max_samples
    }

    /// Clear all frames from the buffer
    pub fn clear(&mut self)
        requires
            old(self).wf(),
        ensures
            final(self).wf(),
            final(self).spec_frames().len() == 0,
            final(self).spec_total() == 0,
            final(self).spec_stream().len() == 0,
            final(self).spec_config() == old(self).spec_config(),
            final(self).spec_max_samples() == old(self).spec_max_samples(),
    {
        self.frames.clear();
        self.total_samples = 0;
        self.read_position = 0;
    }

    /// Buffer statistics for monitoring
    pub fn stats(&self) -> (r: AudioBufferStats)
        requires
            self.spec_config().channels > 0,
        ensures
            r.frame_count == self.spec_frames().len(),
            r.total_samples == self.spec_total(),
            r.buffered_duration == spec_offset_micros(
                self.spec_total() / (self.spec_config().channels as nat),
                self.spec_config().sample_rate as nat,
            ),
            r.is_full == (self.spec_total() >= self.spec_max_samples()),
            r.is_empty == (self.spec_frames().len() == 0),
    {
        AudioBufferStats {
            frame_count: self.frames.len(),
            total_samples: self.total_samples,
            buffered_duration: self.buffered_duration(),
            is_full: self.total_samples >= self.max_samples,
            is_empty: self.frames.len() == 0,
        }
    }
}

} // verus!
