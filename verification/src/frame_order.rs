//! Searching and inserting in sequences of frames kept in presentation order.

use std::collections::VecDeque;
use vstd::prelude::*;

use crate::types::{Pts, VideoFrame};

verus! {

/// Frames are in non-decreasing presentation order.
pub open spec fn sorted_by_pts(s: Seq<VideoFrame>) -> bool {
    forall|i: int, j: int| 0 <= i <= j < s.len() ==> s[i].pts <= s[j].pts
}

/// The earliest frames are dropped until at most `cap` remain.
pub open spec fn keep_last(s: Seq<VideoFrame>, cap: nat) -> Seq<VideoFrame> {
    if s.len() > cap {
        s.subrange(s.len() - cap, s.len() as int)
    } else {
        s
    }
}

/// `pos` is the first index whose frame is later than `pts` (or the length,
/// when there is none): where a frame at `pts` goes, after its equals.
pub open spec fn is_insertion_index(s: Seq<VideoFrame>, pts: Pts, pos: int) -> bool {
    &&& 0 <= pos <= s.len()
    &&& forall|j: int| 0 <= j < pos ==> s[j].pts <= pts
    &&& pos < s.len() ==> s[pos].pts > pts
}

/// `i` is the last index whose frame is at or before `target`.
pub open spec fn is_last_at_or_before(s: Seq<VideoFrame>, target: Pts, i: int) -> bool {
    &&& 0 <= i < s.len()
    &&& s[i].pts <= target
    &&& forall|j: int| i < j < s.len() ==> s[j].pts > target
}

/// No frame is at or before `target`.
pub open spec fn none_at_or_before(s: Seq<VideoFrame>, target: Pts) -> bool {
    forall|j: int| 0 <= j < s.len() ==> s[j].pts > target
}

/// The insertion index of a timestamp is unique.
pub proof fn lemma_insertion_index_unique(s: Seq<VideoFrame>, pts: Pts, p1: int, p2: int)
    requires
        is_insertion_index(s, pts, p1),
        is_insertion_index(s, pts, p2),
    ensures
        p1 == p2,
{
    if p1 < p2 {
        assert(s[p1].pts <= pts);
    } else if p2 < p1 {
        assert(s[p2].pts <= pts);
    }
}

/// The last frame at or before a target is unique.
pub proof fn lemma_last_at_or_before_unique(s: Seq<VideoFrame>, t: Pts, i1: int, i2: int)
    requires
        is_last_at_or_before(s, t, i1),
        is_last_at_or_before(s, t, i2),
    ensures
        i1 == i2,
{
}

/// When some frame is at or before `target`, a last such frame exists.
pub proof fn lemma_last_at_or_before_exists(s: Seq<VideoFrame>, t: Pts)
    requires
        !none_at_or_before(s, t),
    ensures
        exists|i: int| is_last_at_or_before(s, t, i),
    decreases s.len(),
{
    let n = s.len() as int;
    if s[n - 1].pts <= t {
        assert(is_last_at_or_before(s, t, n - 1));
    } else {
        let p = s.drop_last();
        assert(!none_at_or_before(p, t)) by {
            let w = choose|j: int| 0 <= j < s.len() && !(s[j].pts > t);
            assert(p[w] == s[w]);
        }
        lemma_last_at_or_before_exists(p, t);
        let i = choose|i: int| is_last_at_or_before(p, t, i);
        assert(p[i] == s[i]);
        assert forall|j: int| i < j < s.len() implies s[j].pts > t by {
            if j < n - 1 {
                assert(p[j] == s[j]);
            }
        }
        assert(is_last_at_or_before(s, t, i));
    }
}

/// Inserting at the insertion index keeps a sorted sequence sorted.
pub proof fn lemma_insert_keeps_sorted(s: Seq<VideoFrame>, f: VideoFrame, pos: int)
    requires
        sorted_by_pts(s),
        is_insertion_index(s, f.pts, pos),
    ensures
        sorted_by_pts(s.insert(pos, f)),
{
    s.insert_ensures(pos, f);
    let t = s.insert(pos, f);
    assert forall|i: int, j: int| 0 <= i <= j < t.len() implies t[i].pts <= t[j].pts by {
        if j < pos {
        } else if j == pos {
            if i < pos {
            }
        } else {
            assert(t[j] == s[j - 1]);
            if i < pos {
                assert(t[i] == s[i]);
            } else if i == pos {
                assert(s[pos].pts > f.pts);
                assert(s[pos].pts <= s[j - 1].pts);
            } else {
                assert(t[i] == s[i - 1]);
            }
        }
    }
}

/// Any contiguous part of a sorted sequence is sorted.
pub proof fn lemma_subrange_sorted(s: Seq<VideoFrame>, a: int, b: int)
    requires
        sorted_by_pts(s),
        0 <= a <= b <= s.len(),
    ensures
        sorted_by_pts(s.subrange(a, b)),
{
    let t = s.subrange(a, b);
    assert forall|i: int, j: int| 0 <= i <= j < t.len() implies t[i].pts <= t[j].pts by {
        assert(t[i] == s[a + i]);
        assert(t[j] == s[a + j]);
    }
}

/// Finds where a frame at `pts` is inserted: after every frame at or before it.
pub fn insertion_index(frames: &VecDeque<VideoFrame>, pts: Pts) -> (pos: usize)
    ensures
        is_insertion_index(frames@, pts, pos as int),
{
    let n = frames.len();
    let mut i: usize = 0;
    while i < n
        invariant
            n == frames@.len(),
            0 <= i <= n,
            forall|j: int| 0 <= j < i ==> frames@[j].pts <= pts,
        decreases n - i,
    {
        if frames[i].pts > pts {
            return i;
        }
        i = i + 1;
    }
    n
}

/// Finds the last frame at or before `target`, searching from the back.
pub fn last_at_or_before(frames: &VecDeque<VideoFrame>, target: Pts) -> (r: Option<usize>)
    ensures
        match r {
            Some(i) => is_last_at_or_before(frames@, target, i as int),
            None => none_at_or_before(frames@, target),
        },
{
    let n = frames.len();
    let mut k: usize = n;
    while k > 0
        invariant
            n == frames@.len(),
            k <= n,
            forall|j: int| k <= j < n ==> frames@[j].pts > target,
        decreases k,
    {
        if frames[k - 1].pts <= target {
            return Some(k - 1);
        }
        k = k - 1;
    }
    None
}

/// Inserts `frame` at its insertion index.
pub fn insert_sorted(frames: &mut VecDeque<VideoFrame>, frame: VideoFrame)
    ensures
        exists|pos: int|
            is_insertion_index(old(frames)@, frame.pts, pos) && final(frames)@ == old(frames)@.insert(
                pos,
                frame,
            ),
{
    let pos = insertion_index(frames, frame.pts);
    let ghost p = pos as int;
    let ghost f = frame;
    frames.insert(pos, frame);
    assert(is_insertion_index(old(frames)@, f.pts, p) && frames@ == old(frames)@.insert(p, f));
}

} // verus!
