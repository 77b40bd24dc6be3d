use std::collections::VecDeque;
use vstd::prelude::*;

use crate::frame_order::{
    insert_sorted, is_insertion_index, keep_last, is_last_at_or_before, last_at_or_before,
    lemma_insert_keeps_sorted, lemma_subrange_sorted, none_at_or_before, sorted_by_pts,
};
use crate::types::{Pts, VideoFrame};

verus! {

/// How far behind the playback position old frames are kept, in microseconds.
pub const KEEP_BEHIND_MICROS: i64 = 2_000_000;

/// Frame buffer that handles out-of-order B-frames
///
/// Frames are inserted in PTS order, which handles B-frames that arrive
/// out of decode order. When the buffer grows past its capacity the
/// earliest frames are dropped.
pub struct FrameBuffer {
    frames: VecDeque<VideoFrame>,
    capacity: usize,
}

/// Frame `j` may be evicted as old: it is before the cutoff and the next frame
/// is still at or before the playback position.
pub open spec fn evictable(s: Seq<VideoFrame>, j: int, current: Pts) -> bool {
    &&& j + 1 < s.len()
    &&& s[j].pts < current - KEEP_BEHIND_MICROS
    &&& s[j + 1].pts <= current
}

/// `k` frames are removed from the front by `remove_old_frames`: all of the
/// first `k` are evictable in turn, and the `k`-th is not (or only one is left).
pub open spec fn old_frames_prefix(s: Seq<VideoFrame>, current: Pts, k: int) -> bool {
    &&& 0 <= k
    &&& (s.len() <= 1 ==> k == 0)
    &&& (s.len() > 1 ==> k <= s.len() - 1)
    &&& forall|j: int| 0 <= j < k ==> evictable(s, j, current)
    &&& (k < s.len() - 1 ==> !evictable(s, k, current))
}

impl View for FrameBuffer {
    type V = Seq<VideoFrame>;

    closed spec fn view(&self) -> Seq<VideoFrame> {
        self.frames@
    }
}

impl FrameBuffer {
    /// The capacity the buffer was made with.
    pub closed spec fn spec_capacity(&self) -> nat {
        self.capacity as nat
    }

    /// Frames are in presentation order and within capacity.
    pub open spec fn wf(&self) -> bool {
        &&& sorted_by_pts(self@)
        &&& self@.len() <= self.spec_capacity()
    }

    pub fn new(capacity: usize) -> (r: Self)
        ensures
            r.wf(),
            r@ == Seq::<VideoFrame>::empty(),
            r.spec_capacity() == capacity,
    {
        FrameBuffer { frames: VecDeque::with_capacity(capacity), capacity }
    }

    /// Push a frame into the buffer, maintaining PTS order
    ///
    /// The frame goes after every frame at or before its PTS; when the buffer
    /// then exceeds its capacity, the earliest frame is dropped.
    pub fn push(&mut self, frame: VideoFrame)
        requires
            old(self).wf(),
        ensures
            final(self).wf(),
            final(self).spec_capacity() == old(self).spec_capacity(),
            exists|pos: int|
                is_insertion_index(old(self)@, frame.pts, pos) && final(self)@ == keep_last(
                    old(self)@.insert(pos, frame),
                    old(self).spec_capacity(),
                ),
    {
        let ghost f = frame;
        insert_sorted(&mut self.frames, frame);
        let ghost pos = choose|pos: int|
            is_insertion_index(old(self)@, f.pts, pos) && self.frames@ == old(self)@.insert(pos, f);
        proof {
            lemma_insert_keeps_sorted(old(self)@, f, pos);
        }
        let ghost inserted = self.frames@;
        // Enforce capacity by removing oldest frames
        while self.frames.len() > self.capacity
            invariant
                self.capacity == old(self).capacity,
                inserted.len() <= self.capacity + 1,
                inserted.len() > 0,
                self.frames@.len() < inserted.len() ==> inserted.len() == self.capacity + 1,
                sorted_by_pts(inserted),
                self.frames@ == (if self.frames@.len() == inserted.len() {
                    inserted
                } else {
                    inserted.subrange(1, inserted.len() as int)
                }),
                self.frames@.len() + 1 >= inserted.len(),
            decreases self.frames@.len(),
        {
            self.frames.pop_front();
        }
        proof {
            assert(self.frames@ == keep_last(inserted, self.capacity as nat));
            if inserted.len() > self.capacity {
                lemma_subrange_sorted(inserted, 1, inserted.len() as int);
            }
        }
    }

    /// Get the frame to display at the given PTS
    ///
    /// Returns the most recent frame with PTS <= target_pts
    pub fn get_frame_at(&self, target_pts: Pts) -> (r: Option<VideoFrame>)
        ensures
            match r {
                Some(f) => exists|i: int|
                    is_last_at_or_before(self@, target_pts, i) && f@ == self@[i]@,
                None => none_at_or_before(self@, target_pts),
            },
    {
        match last_at_or_before(&self.frames, target_pts) {
            Some(i) => {
                let f = self.frames[i].clone();
                assert(is_last_at_or_before(self@, target_pts, i as int) && f@ == self@[i as int]@);
                Some(f)
            },
            None => None,
        }
    }

    /// Get the latest frame in the buffer
    pub fn get_latest(&self) -> (r: Option<VideoFrame>)
        ensures
            match r {
                Some(f) => self@.len() > 0 && f@ == self@.last()@,
                None => self@.len() == 0,
            },
    {
        let n = self.frames.len();
        if n == 0 {
            None
        } else {
            Some(self.frames[n - 1].clone())
        }
    }

    /// Get the first frame in the buffer (lowest PTS)
    pub fn get_first(&self) -> (r: Option<VideoFrame>)
        ensures
            match r {
                Some(f) => self@.len() > 0 && f@ == self@[0]@,
                None => self@.len() == 0,
            },
    {
        if self.frames.len() == 0 {
            None
        } else {
            Some(self.frames[0].clone())
        }
    }

    /// Clear all frames from the buffer
    pub fn clear(&mut self)
        ensures
            final(self)@ == Seq::<VideoFrame>::empty(),
            final(self).spec_capacity() == old(self).spec_capacity(),
    {
        self.frames.clear();
    }

    /// Get the number of frames currently in the buffer
    pub fn len(&self) -> (r: usize)
        ensures
            r == self@.len(),
    {
        self.frames.len()
    }

    /// Check if the buffer is empty
    pub fn is_empty(&self) -> (r: bool)
        ensures
            r == (self@.len() == 0),
    {
        self.len() == 0
    }

    /// Check if the buffer is full
    pub fn is_full(&self) -> (r: bool)
        ensures
            r == (self@.len() >= self.spec_capacity()),
    {
        self.frames.len() >= self.capacity
    }

    /// Get the PTS range of frames in the buffer
    pub fn pts_range(&self) -> (r: Option<(Pts, Pts)>)
        ensures
            match r {
                Some((lo, hi)) => self@.len() > 0 && lo == self@[0].pts && hi == self@.last().pts,
                None => self@.len() == 0,
            },
    {
        let n = self.frames.len();
        if n == 0 {
            None
        } else {
            Some((self.frames[0].pts, self.frames[n - 1].pts))
        }
    }

    /// Get the frame closest to the target PTS
    ///
    /// Prefers frames with PTS <= target, but will return the earliest frame
    /// if target is before all frames in the buffer.
    pub fn get_frame_closest(&self, target_pts: Pts) -> (r: Option<VideoFrame>)
        ensures
            match r {
                Some(f) => (exists|i: int|
                    is_last_at_or_before(self@, target_pts, i) && f@ == self@[i]@) || (
                none_at_or_before(self@, target_pts) && self@.len() > 0 && f@ == self@[0]@),
                None => self@.len() == 0,
            },
    {
        if self.frames.len() == 0 {
            return None;
        }
        match last_at_or_before(&self.frames, target_pts) {
            Some(i) => {
                let f = self.frames[i].clone();
                assert(is_last_at_or_before(self@, target_pts, i as int) && f@ == self@[i as int]@);
                Some(f)
            },
            None => Some(self.frames[0].clone()),
        }
    }

    /// Check if buffer needs refilling (50% threshold)
    pub fn needs_refill(&self) -> (r: bool)
        ensures
            r == (self@.len() <= self.spec_capacity() / 2),
    {
        self.frames.len() <= self.capacity / 2
    }

    /// Get the number of frames needed to fill the buffer
    pub fn frames_needed(&self) -> (r: usize)
        ensures
            r == (if self@.len() <= self.spec_capacity() {
                self.spec_capacity() - self@.len()
            } else {
                0
            }),
    {
        self.capacity.saturating_sub(self.frames.len())
    }

    /// Check if buffer is critically low (< 3 frames)
    pub fn is_critically_low(&self) -> (r: bool)
        ensures
            r == (self@.len() < 3),
    {
        self.len() < 3
    }

    /// Get the buffer capacity
    pub fn capacity(&self) -> (r: usize)
        ensures
            r == self.spec_capacity(),
    {
        self.capacity
    }

    /// Remove old frames that are far behind the current playback position
    ///
    /// Frames more than two seconds behind `current_pts` are dropped from the
    /// front, as long as the frame after them is still at or before
    /// `current_pts`, so at least one frame at or before it stays.
    pub fn remove_old_frames(&mut self, current_pts: Pts)
        requires
            old(self).wf(),
        ensures
            final(self).wf(),
            final(self).spec_capacity() == old(self).spec_capacity(),
            exists|k: int|
                old_frames_prefix(old(self)@, current_pts, k) && final(self)@ == old(self)@.subrange(
                    k,
                    old(self)@.len() as int,
                ),
    {
        let ghost s = self.frames@;
        let ghost mut k: int = 0;
        while self.frames.len() > 1
            invariant_except_break
                self.capacity == old(self).capacity,
                s == old(self)@,
                0 <= k <= s.len(),
                s.len() > 0 ==> k < s.len(),
                self.frames@ == s.subrange(k, s.len() as int),
                forall|j: int| 0 <= j < k ==> evictable(s, j, current_pts),
            ensures
                self.capacity == old(self).capacity,
                s == old(self)@,
                old_frames_prefix(s, current_pts, k),
                self.frames@ == s.subrange(k, s.len() as int),
            decreases self.frames@.len(),
        {
            let oldest = self.frames[0].pts;
            let next = self.frames[1].pts;
            assert(s[k] == self.frames@[0] && s[k + 1] == self.frames@[1]);
            // Keep at least one frame at or before current_pts
            if (oldest as i128) < (current_pts as i128) - (KEEP_BEHIND_MICROS as i128) && next
                <= current_pts {
                self.frames.pop_front();
                proof {
                    k = k + 1;
                }
            } else {
                break;
            }
        }
        proof {
            lemma_subrange_sorted(s, k, s.len() as int);
        }
    }
}

impl super::Buffer for FrameBuffer {
    closed spec fn spec_len(&self) -> nat {
        self.frames@.len()
    }

    fn clear(&mut self)
        ensures
            final(self)@ == Seq::<VideoFrame>::empty(),
            final(self).spec_capacity() == old(self).spec_capacity(),
    {
        FrameBuffer::clear(self)
    }

    fn len(&self) -> (r: usize)
        ensures
            r == self@.len(),
    {
        FrameBuffer::len(self)
    }
}

} // verus!
