//! The audio device's turn on the microsecond timeline: each callback reads
//! one block from the audio buffer, drops what the clock has already passed,
//! and moves the audio clock to what it plays.

use vstd::prelude::*;

use crate::timeline::audio::{
    spec_advance, spec_position_pts, stream_of, AudioBuffer, frames_have_channels, AudioFrame,
};
use crate::timeline::clock::{AudioClock, Clock};
use crate::timeline::frame::Microseconds;
use crate::timing::{add_micros, spec_add_micros};
use crate::buffer::take_padded;
use crate::playout::{silence, silent};
use crate::types::{SampleBits, SILENCE};

verus! {

/// What the output does with a block read from the buffer.
#[derive(Debug, Clone, Copy, PartialEq, Eq, Structural)]
pub enum BlockUse {
    /// The block ends before the clock: read the next one.
    Skip,
    /// The block straddles the clock: drop this many samples from its start
    /// and play the rest from the clock's time.
    Trim(usize),
    /// The block starts at or after the clock: play it whole.
    Use,
}

/// Microseconds that `len` interleaved samples last with `channels` channels
/// at `rate` Hz, rounded down and saturated at `i64::MAX`.
pub open spec fn spec_block_duration(len: nat, channels: nat, rate: nat) -> int {
    if len * 1_000_000 / (channels * rate) <= i64::MAX {
        (len * 1_000_000 / (channels * rate)) as int
    } else {
        i64::MAX as int
    }
}

/// Interleaved samples in the time from `pts` to `current`, rounded down and
/// at most `len`.
pub open spec fn spec_skip_count(pts: i64, current: i64, len: nat, channels: nat, rate: nat) -> nat {
    let n = ((current - pts) * rate * channels / 1_000_000) as nat;
    if n < len {
        n
    } else {
        len
    }
}

/// The use of a block of `len` samples that starts at `pts` when the clock
/// reads `current`.
pub open spec fn spec_classify(pts: i64, len: nat, current: i64, channels: nat, rate: nat) -> BlockUse {
    let end = spec_add_micros(pts as int, spec_block_duration(len, channels, rate));
    if end < current {
        BlockUse::Skip
    } else if pts < current {
        BlockUse::Trim(spec_skip_count(pts, current, len, channels, rate) as usize)
    } else {
        BlockUse::Use
    }
}

/// Decides what to do with a block of `len` interleaved samples that starts
/// at `pts`, when the audio clock reads `current`.
pub fn classify_block(
    pts: Microseconds,
    len: usize,
    current: Microseconds,
    channels: u16,
    sample_rate: u32,
) -> (r: BlockUse)
    requires
        channels > 0,
        sample_rate > 0,
    ensures
        r == spec_classify(pts.0, len as nat, current.0, channels as nat, sample_rate as nat),
        r matches BlockUse::Trim(n) ==> n <= len,
{
    let c: u128 = channels as u128;
    let hz: u128 = sample_rate as u128;
    assert(0 < c * hz <= 0xffffu128 * 0xffff_ffffu128) by (nonlinear_arith)
        requires
            0 < c <= 0xffffu128,
            0 < hz <= 0xffff_ffffu128,
    ;
    let per_second: u128 = c * hz;
    let l: u128 = len as u128;
    assert(l * 1_000_000u128 <= 0xffff_ffff_ffff_ffffu128 * 1_000_000u128) by (nonlinear_arith)
        requires
            l <= 0xffff_ffff_ffff_ffffu128,
    ;
    let q: u128 = l * 1_000_000 / per_second;
    let duration: i64 = if q <= i64::MAX as u128 {
        q as i64
    } else {
        i64::MAX
    };
    let end = add_micros(pts.0, duration);
    if end < current.0 {
        BlockUse::Skip
    } else if pts.0 < current.0 {
        let gap: u128 = (current.0 as i128 - pts.0 as i128) as u128;
        assert(gap * per_second <= 0xffff_ffff_ffff_ffffu128 * (0xffffu128 * 0xffff_ffffu128))
            by (nonlinear_arith)
            requires
                gap <= 0xffff_ffff_ffff_ffffu128,
                per_second <= 0xffffu128 * 0xffff_ffffu128,
        ;
        let n: u128 = gap * per_second / 1_000_000;
        proof {
            assert(gap * per_second == (current.0 - pts.0) * sample_rate * channels)
                by (nonlinear_arith)
                requires
                    gap == current.0 - pts.0,
                    per_second == c * hz,
                    c == channels,
                    hz == sample_rate,
            ;
        }
        let skip = if n < len as u128 {
            n as usize
        } else {
            len
        };
        BlockUse::Trim(skip)
    } else {
        BlockUse::Use
    }
}

/// Interleaved samples a callback of `data_len` samples for `channels`
/// channels asks of a buffer with `buffer_channels` channels.
pub open spec fn spec_want(data_len: nat, channels: nat, buffer_channels: nat) -> nat {
    (data_len / channels) * buffer_channels
}

/// Frames plus samples left: every read that makes progress lowers it.
pub open spec fn spec_measure(frames: Seq<AudioFrame>, rp: nat) -> nat {
    frames.len() + stream_of(frames, rp).len()
}

/// The samples a read of `want` samples gives from `frames` at `rp`.
pub open spec fn spec_read(frames: Seq<AudioFrame>, rp: nat, want: nat) -> Seq<SampleBits> {
    let s = stream_of(frames, rp);
    if want < s.len() {
        s.subrange(0, want as int)
    } else {
        s
    }
}

/// Reads blocks of `want` samples from `frames` at `rp` until one is not
/// skipped, at most `fuel` times: the block to play with its timestamp
/// (`None` when the frames run out), and the frames and read position left.
pub open spec fn spec_next_block(
    frames: Seq<AudioFrame>,
    rp: nat,
    want: nat,
    current: i64,
    channels: nat,
    rate: nat,
    fuel: nat,
) -> (Option<(Seq<SampleBits>, i64)>, Seq<AudioFrame>, nat)
    decreases fuel,
{
    if fuel == 0 || frames.len() == 0 {
        (None, frames, rp)
    } else {
        let out = spec_read(frames, rp, want);
        let pts = spec_position_pts(frames[0], rp);
        let next = spec_advance(frames, rp, want);
        match spec_classify(pts, out.len(), current, channels, rate) {
            BlockUse::Skip => spec_next_block(
                next.0,
                next.1,
                want,
                current,
                channels,
                rate,
                (fuel - 1) as nat,
            ),
            BlockUse::Trim(n) => (
                Some((out.subrange(n as int, out.len() as int), current)),
                next.0,
                next.1,
            ),
            BlockUse::Use => (Some((out, pts)), next.0, next.1),
        }
    }
}

/// The block a callback plays from `buffer` when the clock reads `current`.
pub open spec fn spec_callback_block(
    buffer: &AudioBuffer,
    want: nat,
    current: i64,
    channels: nat,
    rate: nat,
) -> (Option<(Seq<SampleBits>, i64)>, Seq<AudioFrame>, nat) {
    spec_next_block(
        buffer.spec_frames(),
        buffer.spec_read_position(),
        want,
        current,
        channels,
        rate,
        spec_measure(buffer.spec_frames(), buffer.spec_read_position()) + 1,
    )
}

/// `s` from index `start` on.
fn tail_from(s: &Vec<SampleBits>, start: usize) -> (r: Vec<SampleBits>)
    requires
        start <= s@.len(),
    ensures
        r@ == s@.subrange(start as int, s@.len() as int),
{
    let mut out: Vec<SampleBits> = Vec::new();
    let mut i = start;
    while i < s.len()
        invariant
            start <= i <= s@.len(),
            out@ == s@.subrange(start as int, i as int),
        decreases s@.len() - i,
    {
        out.push(s[i]);
        assert(s@.subrange(start as int, i + 1) == s@.subrange(start as int, i as int).push(s@[i as int]));
        i = i + 1;
    }
    out
}

/// `s` cut or padded with silence to `count` samples.
fn fit(s: &Vec<SampleBits>, count: usize) -> (r: Vec<SampleBits>)
    ensures
        r@ == take_padded(s@, count as nat),
{
    let mut out: Vec<SampleBits> = Vec::new();
    let mut i: usize = 0;
    while i < count
        invariant
            i <= count,
            out@.len() == i,
            forall|j: int|
                0 <= j < i ==> #[trigger] out@[j] == if j < s@.len() {
                    s@[j]
                } else {
                    SILENCE
                },
        decreases count - i,
    {
        if i < s.len() {
            out.push(s[i]);
        } else {
            out.push(SILENCE);
        }
        i = i + 1;
    }
    assert(out@ == take_padded(s@, count as nat));
    out
}

/// Fills one callback of `data_len` interleaved samples for a device with
/// `channels` channels at `sample_rate` Hz.
///
/// While the clock is paused this is silence and nothing changes. Otherwise
/// blocks of `data_len / channels` samples per channel are read from the
/// buffer: blocks that end before the clock are dropped, a block that
/// straddles it loses its start and is played from the clock's time. The
/// block played (cut or padded with silence to `data_len`) moves the clock
/// to its timestamp; when the buffer runs out the callback is silence and
/// the clock stays.
pub fn fill_from_buffer(
    buffer: &mut AudioBuffer,
    clock: &mut AudioClock,
    data_len: usize,
    channels: u16,
    sample_rate: u32,
) -> (r: Vec<SampleBits>)
    requires
        old(buffer).wf(),
        old(buffer).spec_config().channels > 0,
        frames_have_channels(old(buffer).spec_frames()),
        channels > 0,
        sample_rate > 0,
        spec_want(data_len as nat, channels as nat, old(buffer).spec_config().channels as nat)
            <= usize::MAX,
        old(clock).spec_is_paused() || data_len as nat / channels as nat > 0,
    ensures
        final(buffer).wf(),
        frames_have_channels(final(buffer).spec_frames()),
        final(buffer).spec_config() == old(buffer).spec_config(),
        final(buffer).spec_max_samples() == old(buffer).spec_max_samples(),
        final(clock).spec_is_paused() == old(clock).spec_is_paused(),
        old(clock).spec_is_paused() ==> {
            &&& r@ == silence(data_len as nat)
            &&& final(buffer).spec_frames() == old(buffer).spec_frames()
            &&& final(buffer).spec_read_position() == old(buffer).spec_read_position()
            &&& final(clock).spec_pts() == old(clock).spec_pts()
        },
        !old(clock).spec_is_paused() ==> {
            let want = spec_want(
                data_len as nat,
                channels as nat,
                old(buffer).spec_config().channels as nat,
            );
            let outcome = spec_callback_block(
                &*old(buffer),
                want,
                old(clock).spec_pts(),
                channels as nat,
                sample_rate as nat,
            );
            &&& final(buffer).spec_frames() == outcome.1
            &&& final(buffer).spec_read_position() == outcome.2
            &&& outcome.0 is None ==> r@ == silence(data_len as nat) && final(clock).spec_pts()
                == old(clock).spec_pts()
            &&& outcome.0 matches Some(b) ==> r@ == take_padded(b.0, data_len as nat)
                && final(clock).spec_pts() == b.1
        },
{
    if clock.is_paused() {
        return silent(data_len);
    }
    let samples_needed = data_len / channels as usize;
    let current = clock.time();
    let ghost want: nat = spec_want(
        data_len as nat,
        channels as nat,
        buffer.spec_config().channels as nat,
    );
    let ghost goal = spec_callback_block(
        &*buffer,
        want,
        current.0,
        channels as nat,
        sample_rate as nat,
    );
    let ghost mut fuel: nat = spec_measure(buffer.spec_frames(), buffer.spec_read_position()) + 1;
    let mut chosen: Option<(Vec<SampleBits>, Microseconds)> = None;
    loop
        invariant_except_break
            buffer.wf(),
            buffer.spec_config().channels > 0,
            frames_have_channels(buffer.spec_frames()),
            buffer.spec_config() == old(buffer).spec_config(),
            buffer.spec_max_samples() == old(buffer).spec_max_samples(),
            channels > 0,
            sample_rate > 0,
            samples_needed > 0,
            samples_needed * buffer.spec_config().channels <= usize::MAX,
            want == (samples_needed as nat) * (buffer.spec_config().channels as nat),
            fuel > spec_measure(buffer.spec_frames(), buffer.spec_read_position()),
            spec_next_block(
                buffer.spec_frames(),
                buffer.spec_read_position(),
                want,
                current.0,
                channels as nat,
                sample_rate as nat,
                fuel,
            ) == goal,
            chosen is None,
        ensures
            buffer.wf(),
            frames_have_channels(buffer.spec_frames()),
            buffer.spec_config() == old(buffer).spec_config(),
            buffer.spec_max_samples() == old(buffer).spec_max_samples(),
            goal.1 == buffer.spec_frames(),
            goal.2 == buffer.spec_read_position(),
            goal.0 is None ==> chosen is None,
            goal.0 matches Some(b) ==> chosen matches Some(c) && c.0@ == b.0 && c.1.0 == b.1,
        decreases fuel,
    {
        let ghost frames = buffer.spec_frames();
        let ghost rp = buffer.spec_read_position();
        proof {
            assert(want > 0) by (nonlinear_arith)
                requires
                    want == (samples_needed as nat) * (buffer.spec_config().channels as nat),
                    samples_needed > 0,
                    buffer.spec_config().channels > 0,
            ;
        }
        proof {
            if buffer.spec_frames().len() > 0 {
                assert(buffer.spec_frames()[0].channels > 0);
            }
        }
        match buffer.pull_samples_with_pts(samples_needed) {
            None => {
                break;
            },
            Some((samples, pts)) => {
                let decision = classify_block(pts, samples.len(), current, channels, sample_rate);
                match decision {
                    BlockUse::Skip => {
                        proof {
                            fuel = (fuel - 1) as nat;
                        }
                    },
                    BlockUse::Trim(n) => {
                        let rest = tail_from(&samples, n);
                        chosen = Some((rest, current));
                        break;
                    },
                    BlockUse::Use => {
                        chosen = Some((samples, pts));
                        break;
                    },
                }
            },
        }
    }
    match chosen {
        Some((samples, pts)) => {
            clock.update_pts(pts);
            fit(&samples, data_len)
        },
        None => silent(data_len),
    }
}

} // verus!
