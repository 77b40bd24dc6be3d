//! Decisions of the decode workers and the demuxer: when to ask for more
//! frames and audio, which decoded frames to keep, where packets go.
//!
//! The worker threads themselves run around these decisions.

use vstd::prelude::*;

use crate::buffer::{stereo_duration, FrameBuffer};
use crate::cache::{
    AudioCache, FrameCache, RequestOutcome, spec_request, CRITICAL_BELOW_MICROS, REFILL_BELOW_MICROS,
};
use crate::frame_order::sorted_by_pts;
use crate::types::{Pts, VideoFrame};

verus! {

/// Commands for the decode workers
#[derive(Debug, Clone, Copy, PartialEq, Eq, Structural)]
pub enum DecoderCommand {
    /// Flush Decoder
    Flush,
    /// Request immediate buffer refill
    FrameRequested,
    /// Stop the worker
    Stop,
}

/// Commands for the pull coordinator
#[derive(Debug, Clone, Copy, PartialEq, Eq, Structural)]
pub enum CoordinatorCommand {
    /// Seek to a specific timestamp
    Seek(Pts),
    /// Request immediate buffer refill
    Refill,
    /// Stop the coordinator
    Stop,
}

/// Commands for the demuxer
#[derive(Debug, Clone, Copy, PartialEq, Eq, Structural)]
pub enum DemuxCommand {
    Seek(Pts),
    Stop,
}

/// Fewest decode requests sent when a cache needs refilling.
pub const MIN_REQUESTS: usize = 5;

/// Most audio packet requests sent at once.
pub const MAX_AUDIO_REQUESTS: usize = 50;

/// Audio the cache is refilled up to, in microseconds.
pub const AUDIO_FILL_TARGET_MICROS: i64 = 2_000_000;

/// Audio in one packet, roughly, in microseconds.
pub const AUDIO_PACKET_MICROS: i64 = 21_000;

/// Frames older than this behind the playback position are dropped.
pub const FRAME_DROP_THRESHOLD_MICROS: i64 = 100_000;

/// Decoded video should reach this far past the playback position.
pub const LOOKAHEAD_MICROS: i64 = 500_000;

/// Packet queue capacity per stream in the demuxer.
pub const PACKET_QUEUE_CAPACITY: usize = 100;

/// Packets kept per stream in the decode service's read-ahead.
pub const MAX_PACKET_QUEUE_SIZE: usize = 50;

/// How many decode requests to send to each worker.
#[derive(Debug, Clone, Copy, PartialEq, Eq, Structural)]
pub struct RefillPlan {
    pub video_requests: usize,
    pub audio_requests: usize,
}

/// Video requests: the frames missing from the ahead cache, at least five,
/// when it has drained to half its capacity.
pub open spec fn spec_video_requests(ahead_len: nat, ahead_cap: nat) -> nat {
    if ahead_len <= ahead_cap / 2 {
        let needed = if ahead_len <= ahead_cap {
            (ahead_cap - ahead_len) as nat
        } else {
            0
        };
        if needed > MIN_REQUESTS {
            needed
        } else {
            MIN_REQUESTS as nat
        }
    } else {
        0
    }
}

/// Audio requests: enough ~21 ms packets to fill back up to two seconds,
/// between five and fifty, when less than a second is left.
pub open spec fn spec_audio_requests(ahead_micros: int) -> nat {
    if ahead_micros < REFILL_BELOW_MICROS {
        let missing = AUDIO_FILL_TARGET_MICROS - ahead_micros;
        let packets = (missing + AUDIO_PACKET_MICROS - 1) / (AUDIO_PACKET_MICROS as int);
        if packets < MIN_REQUESTS {
            MIN_REQUESTS as nat
        } else if packets > MAX_AUDIO_REQUESTS {
            MAX_AUDIO_REQUESTS as nat
        } else {
            packets as nat
        }
    } else {
        0
    }
}

/// Works out how many decode requests each worker gets.
pub fn refill_plan(frame_cache: &FrameCache, audio_cache: &AudioCache) -> (r: RefillPlan)
    requires
        audio_cache.wf(),
    ensures
        r.video_requests == spec_video_requests(
            frame_cache.spec_ahead().len(),
            frame_cache.spec_ahead_capacity(),
        ),
        r.audio_requests == spec_audio_requests(
            stereo_duration(audio_cache.spec_ahead().len(), audio_cache.spec_sample_rate()),
        ),
{
    let video_requests = if frame_cache.needs_refill() {
        let needed = frame_cache.frames_needed();
        if needed > MIN_REQUESTS {
            needed
        } else {
            MIN_REQUESTS
        }
    } else {
        0
    };
    let audio_requests = if audio_cache.needs_refill() {
        let ahead = audio_cache.ahead_duration();
        // ahead < 1s here, so the difference and the rounding up cannot overflow
        let missing = AUDIO_FILL_TARGET_MICROS - ahead;
        let packets = (missing + AUDIO_PACKET_MICROS - 1) / AUDIO_PACKET_MICROS;
        if packets < MIN_REQUESTS as i64 {
            MIN_REQUESTS
        } else if packets > MAX_AUDIO_REQUESTS as i64 {
            MAX_AUDIO_REQUESTS
        } else {
            packets as usize
        }
    } else {
        0
    };
    RefillPlan { video_requests, audio_requests }
}

/// Requests the frame for the playback position and works out the refill
/// requests, as the frame scheduler does on every displayed frame.
pub fn schedule_frame(frame_cache: &mut FrameCache, audio_cache: &AudioCache, current_time: Pts) -> (r:
    (Option<VideoFrame>, RefillPlan))
    requires
        old(frame_cache).wf(),
        audio_cache.wf(),
    ensures
        final(frame_cache).wf(),
        final(frame_cache).spec_ahead_capacity() == old(frame_cache).spec_ahead_capacity(),
        final(frame_cache).spec_behind_capacity() == old(frame_cache).spec_behind_capacity(),
        ({
            let o = spec_request(
                old(frame_cache).spec_ahead(),
                old(frame_cache).spec_behind(),
                old(frame_cache).spec_behind_capacity(),
                current_time,
            );
            &&& final(frame_cache).spec_ahead() == o.ahead
            &&& final(frame_cache).spec_behind() == o.behind
            &&& match r.0 {
                Some(f) => o.frame == Some(f@),
                None => o.frame.is_none(),
            }
        }),
        r.1.video_requests == spec_video_requests(
            final(frame_cache).spec_ahead().len(),
            final(frame_cache).spec_ahead_capacity(),
        ),
        r.1.audio_requests == spec_audio_requests(
            stereo_duration(audio_cache.spec_ahead().len(), audio_cache.spec_sample_rate()),
        ),
{
    let frame = frame_cache.request_frame(current_time);
    let plan = refill_plan(frame_cache, audio_cache);
    (frame, plan)
}

/// During playback, decoded video must reach `LOOKAHEAD_MICROS` past the
/// playback position (an empty buffer never does).
pub open spec fn spec_needs_frames_for_time(
    is_playing: bool,
    range: Option<(Pts, Pts)>,
    current_time: Pts,
) -> bool {
    if is_playing {
        match range {
            Some((_, max_pts)) => max_pts < current_time + LOOKAHEAD_MICROS,
            None => true,
        }
    } else {
        false
    }
}

pub fn needs_frames_for_time(is_playing: bool, range: Option<(Pts, Pts)>, current_time: Pts) -> (r:
    bool)
    ensures
        r == spec_needs_frames_for_time(is_playing, range, current_time),
{
    if is_playing {
        match range {
            Some((_, max_pts)) => (max_pts as i128) < (current_time as i128) + (
            LOOKAHEAD_MICROS as i128),
            None => true,
        }
    } else {
        false
    }
}

/// A decoded frame is kept unless playback has already passed it by more
/// than `FRAME_DROP_THRESHOLD_MICROS`.
pub open spec fn spec_keep_decoded_frame(is_playing: bool, pts: Pts, current_time: Pts) -> bool {
    !(is_playing && pts < current_time - FRAME_DROP_THRESHOLD_MICROS)
}

pub fn keep_decoded_frame(is_playing: bool, pts: Pts, current_time: Pts) -> (r: bool)
    ensures
        r == spec_keep_decoded_frame(is_playing, pts, current_time),
{
    !(is_playing && (pts as i128) < (current_time as i128) - (FRAME_DROP_THRESHOLD_MICROS as i128))
}

/// What the video worker does next.
#[derive(Debug, Clone, Copy, PartialEq, Eq, Structural)]
pub enum VideoWorkerAction {
    /// The buffer is healthy: wait to be woken.
    Wait,
    /// Decode another packet; first drop old frames if `remove_old`, and
    /// report buffering if `buffering`.
    Decode { remove_old: bool, buffering: bool },
}

/// The video worker's decision for one turn of its loop.
pub open spec fn spec_video_worker_action(
    len: nat,
    capacity: nat,
    range: Option<(Pts, Pts)>,
    is_playing: bool,
    current_time: Pts,
    iteration: u64,
) -> VideoWorkerAction {
    let needs_refill = len <= capacity / 2;
    let critically_low = len < 3;
    let for_time = spec_needs_frames_for_time(is_playing, range, current_time);
    if !needs_refill && !critically_low && !for_time {
        VideoWorkerAction::Wait
    } else {
        VideoWorkerAction::Decode {
            remove_old: is_playing && iteration % 50 == 0,
            buffering: critically_low && is_playing,
        }
    }
}

/// When the video worker decodes: a buffer at most half full, or holding
/// fewer than three frames, always makes it decode, and so does playback
/// whose decoded frames do not reach `LOOKAHEAD_MICROS` past the playback
/// time (or that has none); only a buffer that is more than half full, has
/// three frames or more and reaches far enough lets it wait. When it
/// decodes, it reports buffering exactly when it plays with fewer than
/// three frames, and drops old frames only while playing, on every
/// fiftieth turn.
pub proof fn lemma_video_worker_decides(
    len: nat,
    capacity: nat,
    range: Option<(Pts, Pts)>,
    is_playing: bool,
    current_time: Pts,
    iteration: u64,
)
    ensures
        ({
            let a = spec_video_worker_action(len, capacity, range, is_playing, current_time, iteration);
            let behind = is_playing && match range {
                Some((_, max_pts)) => max_pts < current_time + LOOKAHEAD_MICROS,
                None => true,
            };
            &&& 2 * len <= capacity ==> a is Decode
            &&& len < 3 ==> a is Decode
            &&& behind ==> a is Decode
            &&& (2 * len > capacity && len >= 3 && !behind) ==> a is Wait
            &&& a matches VideoWorkerAction::Decode { remove_old, buffering } ==> {
                &&& buffering == (is_playing && len < 3)
                &&& remove_old == (is_playing && iteration % 50 == 0)
            }
        }),
{
    assert(2 * len <= capacity <==> len <= capacity / 2);
}

pub fn video_worker_action(
    frame_buffer: &FrameBuffer,
    is_playing: bool,
    current_time: Pts,
    iteration: u64,
) -> (r: VideoWorkerAction)
    ensures
        r == spec_video_worker_action(
            frame_buffer@.len(),
            frame_buffer.spec_capacity(),
            if frame_buffer@.len() == 0 {
                None
            } else {
                Some((frame_buffer@[0].pts, frame_buffer@.last().pts))
            },
            is_playing,
            current_time,
            iteration,
        ),
{
    let needs_refill = frame_buffer.needs_refill();
    let critically_low = frame_buffer.is_critically_low();
    let range = frame_buffer.pts_range();
    let for_time = needs_frames_for_time(is_playing, range, current_time);
    if !needs_refill && !critically_low && !for_time {
        VideoWorkerAction::Wait
    } else {
        VideoWorkerAction::Decode {
            remove_old: is_playing && iteration % 50 == 0,
            buffering: critically_low && is_playing,
        }
    }
}

/// Where the demuxer sends a packet.
/// What the audio decode worker does next.
#[derive(Debug, Clone, Copy, PartialEq, Eq, Structural)]
pub enum AudioWorkerAction {
    /// The cache is healthy: wait to be woken.
    Wait,
    /// Decode another packet; `buffering` when playback is about to starve.
    Decode { buffering: bool },
}

/// The audio worker decodes while less than a second of audio is ahead,
/// and reports buffering while playing with less than 300 ms left.
pub open spec fn spec_audio_worker_action(ahead_micros: int, is_playing: bool) -> AudioWorkerAction {
    if ahead_micros >= REFILL_BELOW_MICROS && ahead_micros >= CRITICAL_BELOW_MICROS {
        AudioWorkerAction::Wait
    } else {
        AudioWorkerAction::Decode {
            buffering: ahead_micros < CRITICAL_BELOW_MICROS && is_playing,
        }
    }
}

/// The audio worker's next step, from how much audio is decoded ahead.
pub fn audio_worker_action(audio_cache: &AudioCache, is_playing: bool) -> (r: AudioWorkerAction)
    requires
        audio_cache.wf(),
    ensures
        r == spec_audio_worker_action(
            stereo_duration(audio_cache.spec_ahead().len(), audio_cache.spec_sample_rate()),
            is_playing,
        ),
{
    let needs_refill = audio_cache.needs_refill();
    let critically_low = audio_cache.is_critically_low();
    if !needs_refill && !critically_low {
        AudioWorkerAction::Wait
    } else {
        AudioWorkerAction::Decode { buffering: critically_low && is_playing }
    }
}

#[derive(Debug, Clone, Copy, PartialEq, Eq, Structural)]
pub enum PacketRoute {
    Video,
    Audio,
    Drop,
}

pub open spec fn spec_route_packet(stream: usize, video: usize, audio: usize) -> PacketRoute {
    if stream == video {
        PacketRoute::Video
    } else if stream == audio {
        PacketRoute::Audio
    } else {
        PacketRoute::Drop
    }
}

/// Routes a packet by its stream index; the video stream wins a tie.
pub fn route_packet(stream: usize, video: usize, audio: usize) -> (r: PacketRoute)
    ensures
        r == spec_route_packet(stream, video, audio),
{
    if stream == video {
        PacketRoute::Video
    } else if stream == audio {
        PacketRoute::Audio
    } else {
        PacketRoute::Drop
    }
}

/// The demuxer waits before pushing onto a full packet queue.
pub fn packet_queue_full(len: usize) -> (r: bool)
    ensures
        r == (len >= PACKET_QUEUE_CAPACITY),
{
    len >= PACKET_QUEUE_CAPACITY
}

/// The decode service reads more packets when either queue has fallen
/// below half its size, until the end of the input.
pub fn needs_packet_refill(video_len: usize, audio_len: usize, eof_reached: bool) -> (r: bool)
    ensures
        r == (!eof_reached && (video_len < MAX_PACKET_QUEUE_SIZE / 2 || audio_len
            < MAX_PACKET_QUEUE_SIZE / 2)),
{
    let video_low = video_len < MAX_PACKET_QUEUE_SIZE / 2;
    let audio_low = audio_len < MAX_PACKET_QUEUE_SIZE / 2;
    if !video_low && !audio_low {
        return false;
    }
    !eof_reached
}

/// The decode service keeps a read packet only while its queue has room.
pub fn accept_packet(queue_len: usize) -> (r: bool)
    ensures
        r == (queue_len < MAX_PACKET_QUEUE_SIZE),
{
    queue_len < MAX_PACKET_QUEUE_SIZE
}

} // verus!
