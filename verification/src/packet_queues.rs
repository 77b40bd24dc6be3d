//! The read-ahead of demuxed packets for on-demand decoding: one bounded
//! queue per stream, refilled in short runs of reads until the input ends.

use std::collections::VecDeque;
use vstd::prelude::*;

use crate::scheduler::{
    accept_packet, needs_packet_refill, route_packet, PacketRoute, MAX_PACKET_QUEUE_SIZE,
};

verus! {

/// Most packets one refill reads.
pub const PACKETS_PER_REFILL: usize = 20;

/// Demuxed packets waiting to be decoded, per stream, and whether the input
/// has ended.
pub struct PacketQueues<P> {
    video: VecDeque<P>,
    audio: VecDeque<P>,
    video_stream_index: usize,
    audio_stream_index: usize,
    eof_reached: bool,
}

/// What reading a packet during a refill asks next.
#[derive(Debug, Clone, Copy, PartialEq, Eq, Structural)]
pub enum RefillStep {
    /// Read another packet.
    ReadMore,
    /// The refill is done.
    Done,
}

impl<P> PacketQueues<P> {
    pub closed spec fn spec_video(&self) -> Seq<P> {
        self.video@
    }

    pub closed spec fn spec_audio(&self) -> Seq<P> {
        self.audio@
    }

    pub closed spec fn spec_eof(&self) -> bool {
        self.eof_reached
    }

    pub closed spec fn spec_video_index(&self) -> usize {
        self.video_stream_index
    }

    pub closed spec fn spec_audio_index(&self) -> usize {
        self.audio_stream_index
    }

    /// Neither queue is over its bound.
    pub open spec fn wf(&self) -> bool {
        &&& self.spec_video().len() <= MAX_PACKET_QUEUE_SIZE
        &&& self.spec_audio().len() <= MAX_PACKET_QUEUE_SIZE
    }

    /// The streams and their indices stay; only the packets and the end
    /// flag change.
    pub open spec fn same_streams(&self, other: &Self) -> bool {
        &&& self.spec_video_index() == other.spec_video_index()
        &&& self.spec_audio_index() == other.spec_audio_index()
    }

    /// Empty queues for the given video and audio streams.
    pub fn new(video_stream_index: usize, audio_stream_index: usize) -> (r: Self)
        ensures
            r.wf(),
            r.spec_video().len() == 0,
            r.spec_audio().len() == 0,
            !r.spec_eof(),
            r.spec_video_index() == video_stream_index,
            r.spec_audio_index() == audio_stream_index,
    {
        PacketQueues {
            video: VecDeque::new(),
            audio: VecDeque::new(),
            video_stream_index,
            audio_stream_index,
            eof_reached: false,
        }
    }

    /// A refill is due while either queue is below half its bound and the
    /// input has not ended.
    pub fn needs_refill(&self) -> (r: bool)
        ensures
            r == (!self.spec_eof() && (self.spec_video().len() < MAX_PACKET_QUEUE_SIZE / 2
                || self.spec_audio().len() < MAX_PACKET_QUEUE_SIZE / 2)),
    {
        needs_packet_refill(self.video.len(), self.audio.len(), self.eof_reached)
    }

    /// Takes the `count`-th packet read by a refill (counting from one), or
    /// the end of the input (`None`): the packet joins its stream's queue
    /// unless that queue is full or the packet belongs to neither stream.
    /// The refill stops at the end of the input or after
    /// `PACKETS_PER_REFILL` packets.
    pub fn take_read(&mut self, read: Option<(usize, P)>, count: usize) -> (r: RefillStep)
        requires
            old(self).wf(),
        ensures
            final(self).wf(),
            final(self).same_streams(old(self)),
            match read {
                None => {
                    &&& r == RefillStep::Done
                    &&& final(self).spec_eof()
                    &&& final(self).spec_video() == old(self).spec_video()
                    &&& final(self).spec_audio() == old(self).spec_audio()
                },
                Some((stream, packet)) => {
                    &&& r == if count >= PACKETS_PER_REFILL {
                        RefillStep::Done
                    } else {
                        RefillStep::ReadMore
                    }
                    &&& final(self).spec_eof() == old(self).spec_eof()
                    &&& final(self).spec_video() == if stream == old(self).spec_video_index()
                        && old(self).spec_video().len() < MAX_PACKET_QUEUE_SIZE {
                        old(self).spec_video().push(packet)
                    } else {
                        old(self).spec_video()
                    }
                    &&& final(self).spec_audio() == if stream != old(self).spec_video_index()
                        && stream == old(self).spec_audio_index() && old(self).spec_audio().len()
                        < MAX_PACKET_QUEUE_SIZE {
                        old(self).spec_audio().push(packet)
                    } else {
                        old(self).spec_audio()
                    }
                },
            },
    {
        match read {
            None => {
                self.eof_reached = true;
                RefillStep::Done
            },
            Some((stream, packet)) => {
                match route_packet(stream, self.video_stream_index, self.audio_stream_index) {
                    PacketRoute::Video => {
                        if accept_packet(self.video.len()) {
                            self.video.push_back(packet);
                        }
                    },
                    PacketRoute::Audio => {
                        if accept_packet(self.audio.len()) {
                            self.audio.push_back(packet);
                        }
                    },
                    PacketRoute::Drop => {},
                }
                if count >= PACKETS_PER_REFILL {
                    RefillStep::Done
                } else {
                    RefillStep::ReadMore
                }
            },
        }
    }

    /// The next video packet to decode.
    pub fn pop_video(&mut self) -> (r: Option<P>)
        requires
            old(self).wf(),
        ensures
            final(self).wf(),
            final(self).same_streams(old(self)),
            final(self).spec_eof() == old(self).spec_eof(),
            final(self).spec_audio() == old(self).spec_audio(),
            old(self).spec_video().len() == 0 ==> r.is_none() && final(self).spec_video()
                == old(self).spec_video(),
            old(self).spec_video().len() > 0 ==> r == Some(old(self).spec_video()[0])
                && final(self).spec_video() == old(self).spec_video().drop_first(),
    {
        self.video.pop_front()
    }

    /// The next audio packet to decode.
    pub fn pop_audio(&mut self) -> (r: Option<P>)
        requires
            old(self).wf(),
        ensures
            final(self).wf(),
            final(self).same_streams(old(self)),
            final(self).spec_eof() == old(self).spec_eof(),
            final(self).spec_video() == old(self).spec_video(),
            old(self).spec_audio().len() == 0 ==> r.is_none() && final(self).spec_audio()
                == old(self).spec_audio(),
            old(self).spec_audio().len() > 0 ==> r == Some(old(self).spec_audio()[0])
                && final(self).spec_audio() == old(self).spec_audio().drop_first(),
    {
        self.audio.pop_front()
    }

    /// The queues ran dry after a refill: the first time, the decoder is to
    /// be flushed for its last frames (`true`) and the input counts as
    /// ended; afterwards nothing more is to be done.
    pub fn finish_input(&mut self) -> (r: bool)
        ensures
            final(self).same_streams(old(self)),
            final(self).spec_video() == old(self).spec_video(),
            final(self).spec_audio() == old(self).spec_audio(),
            r == !old(self).spec_eof(),
            final(self).spec_eof(),
    {
        let first = !self.eof_reached;
        self.eof_reached = true;
        first
    }

    /// More can come: the input has not ended or packets are still queued.
    pub fn has_more(&self) -> (r: bool)
        ensures
            r == (!self.spec_eof() || self.spec_video().len() > 0 || self.spec_audio().len() > 0),
    {
        !self.eof_reached || self.video.len() > 0 || self.audio.len() > 0
    }

    /// Forget queued packets and the end of the input, as after a seek.
    pub fn clear_for_seek(&mut self)
        ensures
            final(self).wf(),
            final(self).same_streams(old(self)),
            final(self).spec_video().len() == 0,
            final(self).spec_audio().len() == 0,
            !final(self).spec_eof(),
    {
        self.video.clear();
        self.audio.clear();
        self.eof_reached = false;
    }

    pub fn video_len(&self) -> (r: usize)
        ensures
            r == self.spec_video().len(),
    {
        self.video.len()
    }

    pub fn audio_len(&self) -> (r: usize)
        ensures
            r == self.spec_audio().len(),
    {
        self.audio.len()
    }
}

} // verus!
