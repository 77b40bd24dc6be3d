//! Two frame buffers: decoders fill the write side while the timeline reads
//! the read side, and the two change places when the read side runs dry.

use std::collections::VecDeque;
use vstd::multiset::Multiset;
use vstd::prelude::*;

use crate::timeline::frame::{Microseconds, VideoFrame};
use crate::timeline::history::{ascending, insert_in_order, is_slot};

verus! {

/// What taking the next frame gives from a read side and a write side: the
/// frame and the two sides after. Each side is in timestamp order, so the
/// earliest frame of the read side comes first; an empty read side changes
/// places with the write side first.
pub open spec fn spec_take(read: Seq<VideoFrame>, write: Seq<VideoFrame>) -> (
    Option<VideoFrame>,
    Seq<VideoFrame>,
    Seq<VideoFrame>,
) {
    if read.len() > 0 {
        (Some(read.first()), read.drop_first(), write)
    } else if write.len() > 0 {
        (Some(write.first()), write.drop_first(), read)
    } else {
        (None, write, read)
    }
}

/// The side the next frame comes from: the read side, or the write side
/// when the read side is empty.
pub open spec fn next_side(read: Seq<VideoFrame>, write: Seq<VideoFrame>) -> Seq<VideoFrame> {
    if read.len() > 0 {
        read
    } else {
        write
    }
}

/// Every frame held on either side, counted with repetition.
pub open spec fn held(read: Seq<VideoFrame>, write: Seq<VideoFrame>) -> Multiset<VideoFrame> {
    read.to_multiset().add(write.to_multiset())
}

/// Taking a frame loses nothing and makes nothing up: the frames held
/// before are those held after together with the frame taken, and nothing
/// is taken only when nothing is held.
pub proof fn lemma_take_conserves(read: Seq<VideoFrame>, write: Seq<VideoFrame>)
    ensures
        ({
            let t = spec_take(read, write);
            &&& t.0 matches Some(f) ==> held(read, write) == held(t.1, t.2).insert(f)
            &&& t.0 is None ==> held(read, write).len() == 0 && held(t.1, t.2).len() == 0
        }),
{
    broadcast use vstd::seq_lib::to_multiset_insert, vstd::seq_lib::to_multiset_len;
    broadcast use vstd::multiset::group_multiset_axioms;

    if read.len() > 0 {
        assert(read == read.drop_first().insert(0, read.first()));
        assert(held(read, write) =~= held(read.drop_first(), write).insert(read.first()));
    } else if write.len() > 0 {
        assert(write == write.drop_first().insert(0, write.first()));
        assert(held(read, write) =~= held(write.drop_first(), read).insert(write.first()));
    } else {
        assert(held(read, write).len() == 0);
        assert(held(write, read).len() == 0);
    }
}

/// Pushing a frame adds exactly that frame to what is held.
pub proof fn lemma_push_conserves(read: Seq<VideoFrame>, write: Seq<VideoFrame>, pos: int, frame: VideoFrame)
    requires
        0 <= pos <= write.len(),
    ensures
        held(read, write.insert(pos, frame)) == held(read, write).insert(frame),
{
    broadcast use vstd::seq_lib::to_multiset_insert;
    broadcast use vstd::multiset::group_multiset_axioms;

    assert(held(read, write.insert(pos, frame)) =~= held(read, write).insert(frame));
}

/// Read and write buffers of video frames with one capacity for both.
///
/// Each side is kept in timestamp order and gives up its earliest frame first.
pub struct DoubleFrameBuffer {
    read_buffer: VecDeque<VideoFrame>,
    write_buffer: VecDeque<VideoFrame>,
    max_capacity: usize,
}

impl DoubleFrameBuffer {
    /// The frames of the read side, in timestamp order.
    pub closed spec fn spec_read(&self) -> Seq<VideoFrame> {
        self.read_buffer@
    }

    /// The frames of the write side, in timestamp order.
    pub closed spec fn spec_write(&self) -> Seq<VideoFrame> {
        self.write_buffer@
    }

    /// Most frames the two sides hold together.
    pub closed spec fn spec_capacity(&self) -> nat {
        self.max_capacity as nat
    }

    /// Both sides are in timestamp order and together within the capacity.
    pub open spec fn wf(&self) -> bool {
        &&& ascending(self.spec_read())
        &&& ascending(self.spec_write())
        &&& self.spec_read().len() + self.spec_write().len() <= self.spec_capacity()
    }

    /// A buffer for 120 frames.
    pub fn new() -> (r: Self)
        ensures
            r.wf(),
            r.spec_read().len() == 0,
            r.spec_write().len() == 0,
            r.spec_capacity() == 120,
    {
        Self::with_capacity(120)
    }

    pub fn with_capacity(max_capacity: usize) -> (r: Self)
        ensures
            r.wf(),
            r.spec_read().len() == 0,
            r.spec_write().len() == 0,
            r.spec_capacity() == max_capacity,
    {
        DoubleFrameBuffer {
            read_buffer: VecDeque::new(),
            write_buffer: VecDeque::new(),
            max_capacity,
        }
    }

    /// Push a frame from a decoder into the write side, in timestamp order.
    ///
    /// There must be room: a decoder waits while the buffer is full.
    pub fn push_frame(&mut self, frame: VideoFrame)
        requires
            old(self).wf(),
            old(self).spec_read().len() + old(self).spec_write().len() < old(self).spec_capacity(),
        ensures
            final(self).wf(),
            final(self).spec_capacity() == old(self).spec_capacity(),
            final(self).spec_read() == old(self).spec_read(),
            exists|pos: int|
                is_slot(old(self).spec_write(), frame.pts.0, pos) && final(self).spec_write()
                    == old(self).spec_write().insert(pos, frame),
    {
        insert_in_order(&mut self.write_buffer, frame);
    }

    /// Take the next frame for rendering: the earliest of the read side; when
    /// that side is empty the two sides change places first.
    pub fn get_next_frame(&mut self) -> (r: Option<VideoFrame>)
        requires
            old(self).wf(),
        ensures
            final(self).wf(),
            final(self).spec_capacity() == old(self).spec_capacity(),
            ({
                let t = spec_take(old(self).spec_read(), old(self).spec_write());
                &&& r == t.0
                &&& final(self).spec_read() == t.1
                &&& final(self).spec_write() == t.2
            }),
            r matches Some(f) ==> forall|j: int|
                0 <= j < next_side(old(self).spec_read(), old(self).spec_write()).len()
                    ==> f.pts.0 <= #[trigger] next_side(
                    old(self).spec_read(),
                    old(self).spec_write(),
                )[j].pts.0,
    {
        let frame = self.read_buffer.pop_front();
        if frame.is_some() {
            return frame;
        }
        self.swap_buffers();
        self.read_buffer.pop_front()
    }

    /// Take the next frame only when its timestamp is at or before
    /// `current_time`; otherwise nothing changes.
    pub fn get_next_frame_if_ready(&mut self, current_time: Microseconds) -> (r: Option<
        VideoFrame,
    >)
        requires
            old(self).wf(),
        ensures
            final(self).wf(),
            final(self).spec_capacity() == old(self).spec_capacity(),
            ({
                let next = next_side(old(self).spec_read(), old(self).spec_write());
                if next.len() > 0 && next.first().pts.0 <= current_time.0 {
                    r == Some(next.first()) && final(self).spec_read() == next.drop_first() && (
                    old(self).spec_read().len() > 0 ==> final(self).spec_write() == old(
                        self,
                    ).spec_write()) && (old(self).spec_read().len() == 0
                        ==> final(self).spec_write().len() == 0)
                } else {
                    r.is_none() && final(self).spec_read() == old(self).spec_read()
                        && final(self).spec_write() == old(self).spec_write()
                }
            }),
    {
        match self.peek_next_pts() {
            Some(next_pts) => {
                if next_pts.0 <= current_time.0 {
                    return self.get_next_frame();
                }
                None
            },
            None => None,
        }
    }

    /// The timestamp of the frame `get_next_frame` would give.
    pub fn peek_next_pts(&self) -> (r: Option<Microseconds>)
        ensures
            self.spec_read().len() > 0 ==> r == Some(self.spec_read().first().pts),
            self.spec_read().len() == 0 && self.spec_write().len() > 0 ==> r == Some(
                self.spec_write().first().pts,
            ),
            self.spec_read().len() == 0 && self.spec_write().len() == 0 ==> r.is_none(),
    {
        if self.read_buffer.len() > 0 {
            return Some(self.read_buffer[0].pts);
        }
        if self.write_buffer.len() > 0 {
            Some(self.write_buffer[0].pts)
        } else {
            None
        }
    }

    /// The two sides change places.
    fn swap_buffers(&mut self)
        requires
            old(self).wf(),
        ensures
            final(self).wf(),
            final(self).spec_capacity() == old(self).spec_capacity(),
            final(self).spec_read() == old(self).spec_write(),
            final(self).spec_write() == old(self).spec_read(),
    {
        std::mem::swap(&mut self.read_buffer, &mut self.write_buffer);
    }

    /// Frames waiting on the write side.
    pub fn pending_frame_count(&self) -> (r: usize)
        ensures
            r == self.spec_write().len(),
    {
        self.write_buffer.len()
    }

    /// Frames on both sides.
    pub fn total_frame_count(&self) -> (r: usize)
        requires
            self.wf(),
        ensures
            r == self.spec_read().len() + self.spec_write().len(),
    {
        self.write_buffer.len() + self.read_buffer.len()
    }

    pub fn is_full(&self) -> (r: bool)
        requires
            self.wf(),
        ensures
            r == (self.spec_read().len() + self.spec_write().len() >= self.spec_capacity()),
    {
        self.total_frame_count() >= self.max_capacity
    }

    pub fn is_read_buffer_empty(&self) -> (r: bool)
        ensures
            r == (self.spec_read().len() == 0),
    {
        self.read_buffer.len() == 0
    }

    /// Drop every frame on both sides.
    pub fn clear(&mut self)
        ensures
            final(self).wf(),
            final(self).spec_capacity() == old(self).spec_capacity(),
            final(self).spec_read().len() == 0,
            final(self).spec_write().len() == 0,
    {
        self.write_buffer.clear();
        self.read_buffer.clear();
    }
}

} // verus!
