use std::collections::VecDeque;
use vstd::prelude::*;

use crate::frame_order::{
    insert_sorted, is_insertion_index, keep_last, is_last_at_or_before, last_at_or_before,
    lemma_insert_keeps_sorted, lemma_last_at_or_before_exists, lemma_last_at_or_before_unique, lemma_subrange_sorted,
    none_at_or_before, sorted_by_pts,
};
use crate::types::{FrameView, Pts, VideoFrame};

verus! {

/// Default capacity of both halves of the cache, in frames.
pub const FRAME_BUFFER_CAPACITY: usize = 15;

/// How far behind the playback position history frames are kept, in microseconds.
pub const KEEP_BEHIND_MICROS: i64 = 2_000_000;

/// Split frame cache.
///
/// Behind cache (hard bounded): frames already displayed, the playback history.
///
/// Ahead cache (soft bounded): future frames, sorted by PTS, ready for playback.
/// It may overflow its soft capacity during burst decode.
///
/// Frame lifecycle: decode -> ahead -> requested/displayed -> behind -> evicted
pub struct FrameCache {
    /// Future frames waiting to be displayed
    ahead: VecDeque<VideoFrame>,
    /// Previously displayed frames
    behind: VecDeque<VideoFrame>,
    /// Soft limit for ahead cache
    ahead_soft_capacity: usize,
    /// Hard limit for behind cache
    behind_hard_capacity: usize,
}

/// What one call of `request_frame` gives back and leaves behind.
pub ghost struct RequestOutcome {
    pub frame: Option<FrameView>,
    pub ahead: Seq<VideoFrame>,
    pub behind: Seq<VideoFrame>,
}

/// The effect of `request_frame(target)` on a cache with the given halves.
///
/// - The last displayed frame is returned again, with nothing moved, while it
///   is at or before `target` and the next ahead frame is still later than
///   `target` (or there is none).
/// - Otherwise the last ahead frame at or before `target` is found; it and
///   every frame before it move to the behind cache (whose oldest frames are
///   then dropped down to its capacity), and it is returned.
/// - If there is no such frame, nothing changes and nothing is returned.
pub open spec fn spec_request(
    ahead: Seq<VideoFrame>,
    behind: Seq<VideoFrame>,
    behind_cap: nat,
    target: Pts,
) -> RequestOutcome {
    if behind.len() > 0 && behind.last().pts <= target && (ahead.len() == 0 || ahead[0].pts
        > target) {
        RequestOutcome { frame: Some(behind.last()@), ahead, behind }
    } else if none_at_or_before(ahead, target) {
        RequestOutcome { frame: None, ahead, behind }
    } else {
        let i = choose|i: int| is_last_at_or_before(ahead, target, i);
        RequestOutcome {
            frame: Some(ahead[i]@),
            ahead: ahead.subrange(i + 1, ahead.len() as int),
            behind: keep_last(behind + ahead.subrange(0, i + 1), behind_cap),
        }
    }
}

/// `k` history frames are pruned: each of the first `k` is before the cutoff,
/// and the next one is not (or only one is left).
pub open spec fn pruned_prefix(s: Seq<VideoFrame>, current: Pts, k: int) -> bool {
    &&& 0 <= k
    &&& (s.len() <= 1 ==> k == 0)
    &&& (s.len() > 1 ==> k <= s.len() - 1)
    &&& forall|j: int| 0 <= j < k ==> s[j].pts < current - KEEP_BEHIND_MICROS
    &&& (k < s.len() - 1 ==> !(s[k].pts < current - KEEP_BEHIND_MICROS))
}

impl FrameCache {
    /// Frames waiting for playback.
    pub closed spec fn spec_ahead(&self) -> Seq<VideoFrame> {
        self.ahead@
    }

    /// Frames already displayed.
    pub closed spec fn spec_behind(&self) -> Seq<VideoFrame> {
        self.behind@
    }

    pub closed spec fn spec_ahead_capacity(&self) -> nat {
        self.ahead_soft_capacity as nat
    }

    pub closed spec fn spec_behind_capacity(&self) -> nat {
        self.behind_hard_capacity as nat
    }

    /// The ahead cache is in presentation order and the behind cache within its bound.
    pub open spec fn wf(&self) -> bool {
        &&& sorted_by_pts(self.spec_ahead())
        &&& self.spec_behind().len() <= self.spec_behind_capacity()
    }

    pub fn new(ahead_soft_capacity: usize, behind_hard_capacity: usize) -> (r: Self)
        ensures
            r.wf(),
            r.spec_ahead() == Seq::<VideoFrame>::empty(),
            r.spec_behind() == Seq::<VideoFrame>::empty(),
            r.spec_ahead_capacity() == ahead_soft_capacity,
            r.spec_behind_capacity() == behind_hard_capacity,
    {
        FrameCache {
            ahead: VecDeque::with_capacity(ahead_soft_capacity),
            behind: VecDeque::with_capacity(behind_hard_capacity),
            ahead_soft_capacity,
            behind_hard_capacity,
        }
    }

    /// Push a decoded frame into the ahead cache, after every frame at or
    /// before its PTS (handles B-frames).
    pub fn push(&mut self, frame: VideoFrame)
        requires
            old(self).wf(),
        ensures
            final(self).wf(),
            final(self).spec_behind() == old(self).spec_behind(),
            final(self).spec_ahead_capacity() == old(self).spec_ahead_capacity(),
            final(self).spec_behind_capacity() == old(self).spec_behind_capacity(),
            exists|pos: int|
                is_insertion_index(old(self).spec_ahead(), frame.pts, pos)
                    && final(self).spec_ahead() == old(self).spec_ahead().insert(pos, frame),
    {
        let ghost f = frame;
        insert_sorted(&mut self.ahead, frame);
        proof {
            let pos = choose|pos: int|
                is_insertion_index(old(self).ahead@, f.pts, pos) && self.ahead@ == old(self).ahead@.insert(pos, f);
            lemma_insert_keeps_sorted(old(self).ahead@, f, pos);
        }
    }

    /// Request the frame for playback.
    ///
    /// Calling it again at the same playback position returns the same frame
    /// without draining the ahead cache (see `lemma_request_frame_idempotent`).
    pub fn request_frame(&mut self, target_pts: Pts) -> (r: Option<VideoFrame>)
        requires
            old(self).wf(),
        ensures
            final(self).wf(),
            final(self).spec_ahead_capacity() == old(self).spec_ahead_capacity(),
            final(self).spec_behind_capacity() == old(self).spec_behind_capacity(),
            ({
                let o = spec_request(
                    old(self).spec_ahead(),
                    old(self).spec_behind(),
                    old(self).spec_behind_capacity(),
                    target_pts,
                );
                &&& final(self).spec_ahead() == o.ahead
                &&& final(self).spec_behind() == o.behind
                &&& match r {
                    Some(f) => o.frame == Some(f@),
                    None => o.frame.is_none(),
                }
            }),
            r matches Some(f) ==> f.pts <= target_pts,
    {
        let ghost a = self.ahead@;
        let ghost b = self.behind@;
        let nb = self.behind.len();
        if nb > 0 && self.behind[nb - 1].pts <= target_pts {
            let current_is_best = self.ahead.len() == 0 || self.ahead[0].pts > target_pts;
            if current_is_best {
                // The last displayed frame is still the best match
                let f = self.behind[nb - 1].clone();
                assert(f@ == b.last()@);
                return Some(f);
            }
        }
        // Need to pull a new frame from ahead cache
        let index = match last_at_or_before(&self.ahead, target_pts) {
            Some(i) => i,
            None => {
                assert(!(b.len() > 0 && b.last().pts <= target_pts && (a.len() == 0 || a[0].pts
                    > target_pts)));
                return None;
            },
        };
        let na = self.ahead.len();
        proof {
            assert(is_last_at_or_before(a, target_pts, index as int));
            let c = choose|i: int| is_last_at_or_before(a, target_pts, i);
            lemma_last_at_or_before_unique(a, target_pts, c, index as int);
        }
        let ghost moved = a.subrange(0, index + 1);
        // Move all frames up to and including the target index from ahead to behind
        let mut n: usize = 0;
        while n <= index
            invariant
                index < na,
                na == a.len(),
                0 <= n <= index + 1,
                self.ahead@ == a.subrange(n as int, a.len() as int),
                self.behind@ == b + a.subrange(0, n as int),
                self.behind_hard_capacity == old(self).behind_hard_capacity,
                self.ahead_soft_capacity == old(self).ahead_soft_capacity,
            decreases index + 1 - n,
        {
            let f = self.ahead.pop_front();
            match f {
                Some(frame) => {
                    self.behind.push_back(frame);
                },
                None => {},
            }
            assert(a.subrange(0, n + 1) == a.subrange(0, n as int).push(a[n as int]));
            n = n + 1;
        }
        // Get the frame we just moved (last in behind)
        let last = self.behind.len() - 1;
        let frame = self.behind[last].clone();
        assert(self.behind@[last as int] == a[index as int]);
        let ghost joined = self.behind@;
        // Hard-cap behind cache
        while self.behind.len() > self.behind_hard_capacity
            invariant
                self.ahead@ == a.subrange(index + 1, a.len() as int),
                joined.len() >= 1,
                self.behind@.len() >= 0,
                self.behind@.len() <= joined.len(),
                self.behind@ == joined.subrange(
                    joined.len() - self.behind@.len(),
                    joined.len() as int,
                ),
                self.behind@.len() < joined.len() ==> self.behind@.len()
                    >= self.behind_hard_capacity,
                self.behind_hard_capacity == old(self).behind_hard_capacity,
                self.ahead_soft_capacity == old(self).ahead_soft_capacity,
            decreases self.behind@.len(),
        {
            self.behind.pop_front();
        }
        proof {
            assert(joined.subrange(0, joined.len() as int) == joined);
            assert(self.behind@ == keep_last(joined, self.behind_hard_capacity as nat));
            lemma_subrange_sorted(a, index + 1, a.len() as int);
            assert(!(b.len() > 0 && b.last().pts <= target_pts && (a.len() == 0 || a[0].pts
                > target_pts)));
            assert(!none_at_or_before(a, target_pts));
            assert(frame@ == a[index as int]@);
        }
        Some(frame)
    }

    /// Get latest displayed frame.
    pub fn latest_behind(&self) -> (r: Option<VideoFrame>)
        ensures
            match r {
                Some(f) => self.spec_behind().len() > 0 && f@ == self.spec_behind().last()@,
                None => self.spec_behind().len() == 0,
            },
    {
        let n = self.behind.len();
        if n == 0 {
            None
        } else {
            Some(self.behind[n - 1].clone())
        }
    }

    /// Get next frame waiting for playback.
    pub fn next_ahead(&self) -> (r: Option<VideoFrame>)
        ensures
            match r {
                Some(f) => self.spec_ahead().len() > 0 && f@ == self.spec_ahead()[0]@,
                None => self.spec_ahead().len() == 0,
            },
    {
        if self.ahead.len() == 0 {
            None
        } else {
            Some(self.ahead[0].clone())
        }
    }

    /// Find the latest history frame at or before `target_pts`.
    ///
    /// Useful for reverse scrubbing or frame stepping backward.
    pub fn get_behind_frame(&self, target_pts: Pts) -> (r: Option<VideoFrame>)
        ensures
            match r {
                Some(f) => exists|i: int|
                    is_last_at_or_before(self.spec_behind(), target_pts, i) && f@
                        == self.spec_behind()[i]@,
                None => none_at_or_before(self.spec_behind(), target_pts),
            },
    {
        match last_at_or_before(&self.behind, target_pts) {
            Some(i) => {
                let f = self.behind[i].clone();
                assert(is_last_at_or_before(self.spec_behind(), target_pts, i as int) && f@
                    == self.spec_behind()[i as int]@);
                Some(f)
            },
            None => None,
        }
    }

    /// Ahead cache reached/exceeded soft capacity.
    pub fn ahead_is_full(&self) -> (r: bool)
        ensures
            r == (self.spec_ahead().len() >= self.spec_ahead_capacity()),
    {
        self.ahead.len() >= self.ahead_soft_capacity
    }

    /// Frames over ahead soft capacity.
    pub fn ahead_overflow_amount(&self) -> (r: usize)
        ensures
            r == (if self.spec_ahead().len() >= self.spec_ahead_capacity() {
                self.spec_ahead().len() - self.spec_ahead_capacity()
            } else {
                0
            }),
    {
        self.ahead.len().saturating_sub(self.ahead_soft_capacity)
    }

    /// Decoder should refill when ahead cache drops to half its soft capacity.
    pub fn needs_refill(&self) -> (r: bool)
        ensures
            r == (self.spec_ahead().len() <= self.spec_ahead_capacity() / 2),
    {
        self.ahead.len() <= self.ahead_soft_capacity / 2
    }

    /// Critical playback starvation (fewer than 3 frames ahead).
    pub fn is_critically_low(&self) -> (r: bool)
        ensures
            r == (self.spec_ahead().len() < 3),
    {
        self.ahead.len() < 3
    }

    /// Frames missing from the ahead cache's soft capacity.
    pub fn frames_needed(&self) -> (r: usize)
        ensures
            r == (if self.spec_ahead().len() <= self.spec_ahead_capacity() {
                self.spec_ahead_capacity() - self.spec_ahead().len()
            } else {
                0
            }),
    {
        self.ahead_soft_capacity.saturating_sub(self.ahead.len())
    }

    /// Remove stale frames from the behind cache: frames more than two seconds
    /// before `current_pts` are dropped from the front, keeping at least one.
    pub fn prune_behind(&mut self, current_pts: Pts)
        requires
            old(self).wf(),
        ensures
            final(self).wf(),
            final(self).spec_ahead() == old(self).spec_ahead(),
            final(self).spec_ahead_capacity() == old(self).spec_ahead_capacity(),
            final(self).spec_behind_capacity() == old(self).spec_behind_capacity(),
            exists|k: int|
                pruned_prefix(old(self).spec_behind(), current_pts, k)
                    && final(self).spec_behind() == old(self).spec_behind().subrange(
                    k,
                    old(self).spec_behind().len() as int,
                ),
    {
        let ghost s = self.behind@;
        let ghost mut k: int = 0;
        while self.behind.len() > 1
            invariant_except_break
                self.ahead@ == old(self).ahead@,
                self.behind_hard_capacity == old(self).behind_hard_capacity,
                self.ahead_soft_capacity == old(self).ahead_soft_capacity,
                s == old(self).behind@,
                0 <= k <= s.len(),
                s.len() > 0 ==> k < s.len(),
                self.behind@ == s.subrange(k, s.len() as int),
                forall|j: int| 0 <= j < k ==> s[j].pts < current_pts - KEEP_BEHIND_MICROS,
            ensures
                self.ahead@ == old(self).ahead@,
                self.behind_hard_capacity == old(self).behind_hard_capacity,
                self.ahead_soft_capacity == old(self).ahead_soft_capacity,
                pruned_prefix(s, current_pts, k),
                self.behind@ == s.subrange(k, s.len() as int),
            decreases self.behind@.len(),
        {
            let front = self.behind[0].pts;
            assert(s[k] == self.behind@[0]);
            if (front as i128) < (current_pts as i128) - (KEEP_BEHIND_MICROS as i128) {
                self.behind.pop_front();
                proof {
                    k = k + 1;
                }
            } else {
                break;
            }
        }
    }

    pub fn ahead_len(&self) -> (r: usize)
        ensures
            r == self.spec_ahead().len(),
    {
        self.ahead.len()
    }

    pub fn behind_len(&self) -> (r: usize)
        ensures
            r == self.spec_behind().len(),
    {
        self.behind.len()
    }

    /// Total number of frames held (saturating at `usize::MAX`).
    pub fn len(&self) -> (r: usize)
        ensures
            r == (if self.spec_ahead().len() + self.spec_behind().len() <= usize::MAX {
                self.spec_ahead().len() + self.spec_behind().len()
            } else {
                usize::MAX as nat
            }),
    {
        self.ahead.len().saturating_add(self.behind.len())
    }

    pub fn is_empty(&self) -> (r: bool)
        ensures
            r == (self.spec_ahead().len() == 0 && self.spec_behind().len() == 0),
    {
        self.len() == 0
    }

    pub fn clear(&mut self)
        ensures
            final(self).spec_ahead() == Seq::<VideoFrame>::empty(),
            final(self).spec_behind() == Seq::<VideoFrame>::empty(),
            final(self).spec_ahead_capacity() == old(self).spec_ahead_capacity(),
            final(self).spec_behind_capacity() == old(self).spec_behind_capacity(),
    {
        self.ahead.clear();
        self.behind.clear();
    }

    pub fn ahead_pts_range(&self) -> (r: Option<(Pts, Pts)>)
        ensures
            match r {
                Some((lo, hi)) => self.spec_ahead().len() > 0 && lo == self.spec_ahead()[0].pts
                    && hi == self.spec_ahead().last().pts,
                None => self.spec_ahead().len() == 0,
            },
    {
        let n = self.ahead.len();
        if n == 0 {
            return None;
        }
        Some((self.ahead[0].pts, self.ahead[n - 1].pts))
    }

    pub fn behind_pts_range(&self) -> (r: Option<(Pts, Pts)>)
        ensures
            match r {
                Some((lo, hi)) => self.spec_behind().len() > 0 && lo == self.spec_behind()[0].pts
                    && hi == self.spec_behind().last().pts,
                None => self.spec_behind().len() == 0,
            },
    {
        let n = self.behind.len();
        if n == 0 {
            return None;
        }
        Some((self.behind[0].pts, self.behind[n - 1].pts))
    }
}

impl Default for FrameCache {
    fn default() -> (r: Self)
        ensures
            r.wf(),
            r.spec_ahead() == Seq::<VideoFrame>::empty(),
            r.spec_behind() == Seq::<VideoFrame>::empty(),
            r.spec_ahead_capacity() == FRAME_BUFFER_CAPACITY,
            r.spec_behind_capacity() == FRAME_BUFFER_CAPACITY,
    {
        FrameCache::new(FRAME_BUFFER_CAPACITY, FRAME_BUFFER_CAPACITY)
    }
}

impl super::Cache for FrameCache {
    closed spec fn spec_len(&self) -> nat {
        self.ahead@.len() + self.behind@.len()
    }

    fn clear(&mut self)
        ensures
            final(self).spec_ahead() == Seq::<VideoFrame>::empty(),
            final(self).spec_behind() == Seq::<VideoFrame>::empty(),
    {
        FrameCache::clear(self)
    }

    fn len(&self) -> (r: usize) {
        FrameCache::len(self)
    }
}

/// Requesting a frame twice at the same playback position gives the same
/// frame and leaves the cache as the first request left it, when the ahead
/// cache is in presentation order and the history can hold a frame.
pub proof fn lemma_request_frame_idempotent(
    ahead: Seq<VideoFrame>,
    behind: Seq<VideoFrame>,
    behind_cap: nat,
    target: Pts,
)
    requires
        sorted_by_pts(ahead),
        behind.len() <= behind_cap,
        behind_cap >= 1,
    ensures
        ({
            let first = spec_request(ahead, behind, behind_cap, target);
            spec_request(first.ahead, first.behind, behind_cap, target) == first
        }),
{
    let first = spec_request(ahead, behind, behind_cap, target);
    if behind.len() > 0 && behind.last().pts <= target && (ahead.len() == 0 || ahead[0].pts
        > target) {
    } else if none_at_or_before(ahead, target) {
    } else {
        lemma_last_at_or_before_exists(ahead, target);
        let i = choose|i: int| is_last_at_or_before(ahead, target, i);
        let joined = behind + ahead.subrange(0, i + 1);
        let nb = keep_last(joined, behind_cap);
        assert(nb.len() > 0);
        assert(nb.last() == ahead[i]);
        let na = ahead.subrange(i + 1, ahead.len() as int);
        if na.len() > 0 {
            assert(na[0] == ahead[i + 1]);
        }
    }
}

} // verus!
