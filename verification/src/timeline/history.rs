//! Frame buffer with a playhead: frames ahead of it wait in presentation
//! order, frames behind it are kept for stepping backward.

use std::collections::VecDeque;
use vstd::prelude::*;

use crate::timeline::frame::{Microseconds, VideoFrame};

verus! {

/// Frame buffer errors
#[derive(Debug, Clone, Copy, PartialEq, Eq, Structural)]
pub enum BufferError {
    /// Buffer is full
    Full,
}

/// Outcome of a push that does not wait.
#[derive(Debug, Clone, Copy, PartialEq, Eq, Structural)]
pub enum BufferResult {
    /// The item was taken
    Accepted,
    Full,
}

/// Configuration for frame buffer behavior
#[derive(Debug, Clone, Copy)]
pub struct BufferConfig {
    /// Number of frames to store before playhead (safety limit)
    pub frames_capacity: usize,
}

impl Default for BufferConfig {
    fn default() -> (r: Self)
        ensures
            r.frames_capacity == 120,
    {
        BufferConfig { frames_capacity: 120 }
    }
}

/// Frames history kept behind the playhead.
pub const BEHIND_CAPACITY: usize = 20;

/// Frames are in non-decreasing timestamp order.
pub open spec fn ascending(s: Seq<VideoFrame>) -> bool {
    forall|i: int, j: int| 0 <= i <= j < s.len() ==> s[i].pts.0 <= s[j].pts.0
}

/// `pos` is where a frame at `t` goes: after every frame at or before it.
pub open spec fn is_slot(s: Seq<VideoFrame>, t: i64, pos: int) -> bool {
    &&& 0 <= pos <= s.len()
    &&& forall|j: int| 0 <= j < pos ==> s[j].pts.0 <= t
    &&& pos < s.len() ==> s[pos].pts.0 > t
}

/// There is one slot for a timestamp: a push's result is determined.
pub proof fn lemma_slot_unique(s: Seq<VideoFrame>, t: i64, p1: int, p2: int)
    requires
        is_slot(s, t, p1),
        is_slot(s, t, p2),
    ensures
        p1 == p2,
{
    if p1 < p2 {
        assert(s[p1].pts.0 <= t);
    } else if p2 < p1 {
        assert(s[p2].pts.0 <= t);
    }
}

/// `s` with `f` appended, after dropping the oldest frame if `s` is at capacity.
pub open spec fn push_bounded(s: Seq<VideoFrame>, f: VideoFrame, cap: nat) -> Seq<VideoFrame> {
    if s.len() >= cap && s.len() > 0 {
        s.drop_first().push(f)
    } else {
        s.push(f)
    }
}

/// Inserts `frame` after every frame at or before its timestamp.
pub(crate) fn insert_in_order(frames: &mut VecDeque<VideoFrame>, frame: VideoFrame)
    requires
        ascending(old(frames)@),
    ensures
        ascending(final(frames)@),
        exists|pos: int|
            is_slot(old(frames)@, frame.pts.0, pos) && final(frames)@ == old(frames)@.insert(
                pos,
                frame,
            ),
{
    let ghost s = frames@;
    let ghost f = frame;
    let n = frames.len();
    let mut pos: usize = 0;
    while pos < n && frames[pos].pts.0 <= frame.pts.0
        invariant
            n == frames@.len(),
            0 <= pos <= n,
            forall|j: int| 0 <= j < pos ==> frames@[j].pts.0 <= frame.pts.0,
        decreases n - pos,
    {
        pos = pos + 1;
    }
    frames.insert(pos, frame);
    proof {
        assert(is_slot(s, f.pts.0, pos as int));
        lemma_insert_at_slot(s, f, pos as int);
    }
}

/// Inserting a frame at its slot keeps a sequence in timestamp order.
pub proof fn lemma_insert_at_slot(s: Seq<VideoFrame>, f: VideoFrame, pos: int)
    requires
        ascending(s),
        is_slot(s, f.pts.0, pos),
    ensures
        ascending(s.insert(pos, f)),
{
    let t = s.insert(pos, f);
    s.insert_ensures(pos, f);
    assert forall|i: int, j: int| 0 <= i <= j < t.len() implies t[i].pts.0 <= t[j].pts.0 by {
        if j > pos {
            assert(t[j] == s[j - 1]);
            if i < pos {
                assert(t[i] == s[i]);
            } else if i > pos {
                assert(t[i] == s[i - 1]);
            } else {
                assert(s[pos].pts.0 <= s[j - 1].pts.0);
            }
        } else if j == pos && i < pos {
            assert(t[i] == s[i]);
        } else if j < pos {
            assert(t[i] == s[i] && t[j] == s[j]);
        }
    }
}

/// The slot of a frame at `t`: the number of leading frames at or before `t`.
pub open spec fn slot_of(s: Seq<VideoFrame>, t: i64) -> nat
    decreases s.len(),
{
    if s.len() > 0 && s[0].pts.0 <= t {
        1 + slot_of(s.drop_first(), t)
    } else {
        0
    }
}

pub proof fn lemma_slot_of(s: Seq<VideoFrame>, t: i64)
    ensures
        is_slot(s, t, slot_of(s, t) as int),
    decreases s.len(),
{
    if s.len() > 0 && s[0].pts.0 <= t {
        let r = s.drop_first();
        lemma_slot_of(r, t);
        let k = slot_of(s, t) as int;
        assert forall|j: int| 0 <= j < k implies s[j].pts.0 <= t by {
            if j > 0 {
                assert(s[j] == r[j - 1]);
            }
        }
        if k < s.len() {
            assert(s[k] == r[k - 1]);
        }
    }
}

/// `s` with `f` pushed at its slot.
pub open spec fn push_in_order(s: Seq<VideoFrame>, f: VideoFrame) -> Seq<VideoFrame> {
    s.insert(slot_of(s, f.pts.0) as int, f)
}

/// The frames ahead after the frames of `fs` were pushed onto `s`, first to last.
pub open spec fn pushes(s: Seq<VideoFrame>, fs: Seq<VideoFrame>) -> Seq<VideoFrame>
    decreases fs.len(),
{
    if fs.len() == 0 {
        s
    } else {
        pushes(push_in_order(s, fs[0]), fs.drop_first())
    }
}

/// `k` displays with nothing stepped back over, from the frames `ahead` and
/// the displayed frames `trailing` (kept up to `cap`): the frames shown, in
/// the order shown, and the frames ahead and displayed after.
pub open spec fn displays(ahead: Seq<VideoFrame>, trailing: Seq<VideoFrame>, cap: nat, k: nat) -> (
    Seq<VideoFrame>,
    Seq<VideoFrame>,
    Seq<VideoFrame>,
)
    decreases k,
{
    if k == 0 {
        (Seq::empty(), ahead, trailing)
    } else {
        let p = displays(ahead, trailing, cap, (k - 1) as nat);
        if p.1.len() > 0 {
            (p.0.push(p.1[0]), p.1.drop_first(), push_bounded(p.2, p.1[0], cap))
        } else {
            p
        }
    }
}

proof fn lemma_pushes(s: Seq<VideoFrame>, fs: Seq<VideoFrame>)
    requires
        ascending(s),
    ensures
        ascending(pushes(s, fs)),
        pushes(s, fs).to_multiset() == s.to_multiset().add(fs.to_multiset()),
    decreases fs.len(),
{
    broadcast use vstd::seq_lib::to_multiset_insert, vstd::seq_lib::to_multiset_len;
    broadcast use vstd::multiset::group_multiset_axioms, vstd::multiset::lemma_multiset_empty_len;

    if fs.len() > 0 {
        let f = fs[0];
        let s1 = push_in_order(s, f);
        lemma_slot_of(s, f.pts.0);
        lemma_insert_at_slot(s, f, slot_of(s, f.pts.0) as int);
        lemma_pushes(s1, fs.drop_first());
        assert(fs == fs.drop_first().insert(0, f));
        assert(s1.to_multiset().add(fs.drop_first().to_multiset()) =~= s.to_multiset().add(
            fs.to_multiset(),
        ));
    } else {
        assert(fs.to_multiset().len() == 0);
        assert(fs.to_multiset() =~= vstd::multiset::Multiset::empty());
        assert(s.to_multiset().add(fs.to_multiset()) =~= s.to_multiset());
    }
}

proof fn lemma_displays(a: Seq<VideoFrame>, cap: nat, k: nat)
    requires
        k <= a.len(),
    ensures
        displays(a, Seq::empty(), cap, k).0 == a.subrange(0, k as int),
        displays(a, Seq::empty(), cap, k).1 == a.subrange(k as int, a.len() as int),
        k <= cap ==> displays(a, Seq::empty(), cap, k).2 == a.subrange(0, k as int),
    decreases k,
{
    if k > 0 {
        lemma_displays(a, cap, (k - 1) as nat);
        let rest = a.subrange(k - 1, a.len() as int);
        assert(rest[0] == a[k - 1]);
        assert(a.subrange(0, k - 1).push(a[k - 1]) =~= a.subrange(0, k as int));
        assert(rest.drop_first() =~= a.subrange(k as int, a.len() as int));
    } else {
        assert(a.subrange(0, 0) =~= Seq::<VideoFrame>::empty());
        assert(a.subrange(0, a.len() as int) =~= a);
    }
}

/// Frames come out in presentation order: after the frames of `pushed` are
/// pushed onto an empty buffer (each accepted), displaying as many times
/// with nothing stepped back over shows every pushed frame once, in
/// timestamp order, and leaves nothing ahead; while the frames shown fit in
/// the history (`cap` frames), they are the displayed history, oldest first.
pub proof fn lemma_display_order(pushed: Seq<VideoFrame>, cap: nat)
    ensures
        ({
            let a = pushes(Seq::empty(), pushed);
            let d = displays(a, Seq::empty(), cap, pushed.len());
            &&& ascending(d.0)
            &&& d.0.to_multiset() == pushed.to_multiset()
            &&& d.1.len() == 0
            &&& pushed.len() <= cap ==> d.2 == d.0
        }),
{
    broadcast use vstd::seq_lib::to_multiset_len;
    broadcast use vstd::multiset::group_multiset_axioms, vstd::multiset::lemma_multiset_empty_len;

    let e = Seq::<VideoFrame>::empty();
    lemma_pushes(e, pushed);
    let a = pushes(e, pushed);
    assert(e.to_multiset().len() == 0);
    assert(e.to_multiset() =~= vstd::multiset::Multiset::empty());
    assert(a.to_multiset() =~= pushed.to_multiset());
    assert(a.len() == a.to_multiset().len());
    lemma_displays(a, cap, pushed.len());
    assert(a.subrange(0, a.len() as int) =~= a);
}

/// Stepping back is undone by displaying twice: after a step back over the
/// displayed frames `trailing` (with `leading` frames stepped back over
/// before), the first display gives the previous frame, the second gives
/// the current one, and the displayed and stepped-back frames are as they
/// were.
pub proof fn lemma_step_back_then_forward(trailing: Seq<VideoFrame>, leading: Seq<VideoFrame>)
    requires
        trailing.len() >= 2,
    ensures
        ({
            let n = trailing.len() as int;
            let leading1 = leading.push(trailing[n - 1]).push(trailing[n - 2]);
            let trailing1 = trailing.subrange(0, n - 2);
            let leading2 = leading1.drop_last();
            let trailing2 = trailing1.push(leading1.last());
            let leading3 = leading2.drop_last();
            let trailing3 = trailing2.push(leading2.last());
            &&& leading1.last() == trailing[n - 2]
            &&& leading2.last() == trailing[n - 1]
            &&& trailing3 == trailing
            &&& leading3 == leading
        }),
{
    let n = trailing.len() as int;
    let leading1 = leading.push(trailing[n - 1]).push(trailing[n - 2]);
    assert(leading1.drop_last() == leading.push(trailing[n - 1]));
    assert(leading1.drop_last().drop_last() == leading);
    assert(trailing.subrange(0, n - 2).push(trailing[n - 2]).push(trailing[n - 1]) =~= trailing);
}

/// Frames behind the playhead.
///
/// `trailing` holds displayed frames, oldest first. Stepping backward moves
/// frames from the end of `trailing` to `leading`; displaying again moves
/// them back, before anything new from ahead of the playhead.
struct BoundedFrameBuffer {
    leading: VecDeque<VideoFrame>,
    trailing: VecDeque<VideoFrame>,
    capacity: usize,
}

impl BoundedFrameBuffer {
    fn new(capacity: usize) -> (r: Self)
        ensures
            r.leading@.len() == 0,
            r.trailing@.len() == 0,
            r.capacity == capacity,
    {
        BoundedFrameBuffer {
            capacity,
            leading: VecDeque::with_capacity(capacity),
            trailing: VecDeque::with_capacity(capacity),
        }
    }

    /// Pushes a displayed frame, dropping the oldest at capacity.
    fn push(&mut self, frame: VideoFrame)
        ensures
            final(self).trailing@ == push_bounded(old(self).trailing@, frame, old(self).capacity as nat),
            final(self).leading@ == old(self).leading@,
            final(self).capacity == old(self).capacity,
    {
        if self.trailing.len() >= self.capacity {
            self.trailing.pop_front();
        }
        self.trailing.push_back(frame);
    }

    /// Moves the most recent displayed frame to the leading side; returns its timestamp.
    fn rewind_pop(&mut self) -> (r: Option<Microseconds>)
        ensures
            final(self).capacity == old(self).capacity,
            old(self).trailing@.len() == 0 ==> r.is_none() && final(self).trailing@ == old(self).trailing@ && final(self).leading@ == old(self).leading@,
            old(self).trailing@.len() > 0 ==> r == Some(old(self).trailing@.last().pts)
                && final(self).trailing@ == old(self).trailing@.drop_last() && final(self).leading@ == old(self).leading@.push(old(self).trailing@.last()),
    {
        match self.trailing.pop_back() {
            Some(frame) => {
                let pts = frame.pts;
                self.leading.push_back(frame);
                Some(pts)
            },
            None => None,
        }
    }

    /// Moves the next leading frame back to the displayed side; returns a copy.
    fn forward_pop(&mut self) -> (r: Option<VideoFrame>)
        ensures
            final(self).capacity == old(self).capacity,
            old(self).leading@.len() == 0 ==> r.is_none() && final(self).trailing@ == old(self).trailing@ && final(self).leading@ == old(self).leading@,
            old(self).leading@.len() > 0 ==> r.is_some() && r.unwrap()@ == old(self).leading@.last()@ && final(self).leading@ == old(self).leading@.drop_last() && final(self).trailing@ == old(self).trailing@.push(old(self).leading@.last()),
    {
        match self.leading.pop_back() {
            Some(frame) => {
                let copy = frame.clone();
                self.trailing.push_back(frame);
                Some(copy)
            },
            None => None,
        }
    }

    /// The timestamp of the next leading frame, if any.
    fn leading_frame(&self) -> (r: Option<Microseconds>)
        ensures
            self.leading@.len() == 0 ==> r.is_none(),
            self.leading@.len() > 0 ==> r == Some(self.leading@.last().pts),
    {
        let n = self.leading.len();
        if n == 0 {
            None
        } else {
            Some(self.leading[n - 1].pts)
        }
    }
}

/// Frames ahead of the playhead, earliest first, at most `capacity` of them.
struct BoundedMinHeapBuffer {
    inner: VecDeque<VideoFrame>,
    capacity: usize,
}

/// Buffer for video frames around a playhead.
///
/// Frames ahead of the playhead wait in presentation order (B-frames from a
/// decoder arrive out of order); displayed frames move behind it, where a
/// bounded history allows stepping backward.
pub struct FrameBuffer {
    ahead: BoundedMinHeapBuffer,
    behind: BoundedFrameBuffer,
    config: BufferConfig,
}

impl FrameBuffer {
    /// Frames waiting ahead of the playhead.
    pub closed spec fn spec_ahead(&self) -> Seq<VideoFrame> {
        self.ahead.inner@
    }

    /// Displayed frames, oldest first.
    pub closed spec fn spec_trailing(&self) -> Seq<VideoFrame> {
        self.behind.trailing@
    }

    /// Frames stepped back over, the next to display again last.
    pub closed spec fn spec_leading(&self) -> Seq<VideoFrame> {
        self.behind.leading@
    }

    pub closed spec fn spec_capacity(&self) -> nat {
        self.ahead.capacity as nat
    }

    pub closed spec fn spec_behind_capacity(&self) -> nat {
        self.behind.capacity as nat
    }

    /// Frames ahead are in order and within capacity.
    pub open spec fn wf(&self) -> bool {
        &&& ascending(self.spec_ahead())
        &&& self.spec_ahead().len() <= self.spec_capacity()
    }

    /// Everything but the frames is as in `other`.
    pub open spec fn same_limits(&self, other: &Self) -> bool {
        &&& self.spec_capacity() == other.spec_capacity()
        &&& self.spec_behind_capacity() == other.spec_behind_capacity()
    }

    /// Create a new frame buffer with the given configuration
    pub fn new(config: BufferConfig) -> (r: Self)
        ensures
            r.wf(),
            r.spec_ahead().len() == 0,
            r.spec_trailing().len() == 0,
            r.spec_leading().len() == 0,
            r.spec_capacity() == config.frames_capacity,
            r.spec_behind_capacity() == BEHIND_CAPACITY,
    {
        let ahead = BoundedMinHeapBuffer {
            inner: VecDeque::with_capacity(config.frames_capacity),
            capacity: config.frames_capacity,
        };
        let behind = BoundedFrameBuffer::new(BEHIND_CAPACITY);
        FrameBuffer { ahead, behind, config }
    }

    /// Push a new frame ahead of the playhead, in presentation order.
    ///
    /// When the frames ahead are at capacity nothing is pushed and
    /// `BufferError::Full` comes back: the decoder waits for the playhead to
    /// move on and pushes again.
    pub fn push(&mut self, frame: VideoFrame) -> (r: Result<(), BufferError>)
        requires
            old(self).wf(),
        ensures
            final(self).wf(),
            final(self).same_limits(old(self)),
            final(self).spec_trailing() == old(self).spec_trailing(),
            final(self).spec_leading() == old(self).spec_leading(),
            old(self).spec_ahead().len() >= old(self).spec_capacity() ==> r == Err::<(), BufferError>(
                BufferError::Full,
            ) && final(self).spec_ahead() == old(self).spec_ahead(),
            old(self).spec_ahead().len() < old(self).spec_capacity() ==> r == Ok::<(), BufferError>(
                (),
            ) && final(self).spec_ahead() == push_in_order(old(self).spec_ahead(), frame),
    {
        if self.ahead.inner.len() >= self.ahead.capacity {
            return Err(BufferError::Full);
        }
        let ghost s = self.ahead.inner@;
        let ghost f = frame;
        insert_in_order(&mut self.ahead.inner, frame);
        proof {
            let pos = choose|pos: int| is_slot(s, f.pts.0, pos) && self.ahead.inner@ == s.insert(pos, f);
            lemma_slot_of(s, f.pts.0);
            lemma_slot_unique(s, f.pts.0, pos, slot_of(s, f.pts.0) as int);
        }
        Ok(())
    }

    /// Grab the next frame to display.
    ///
    /// A frame stepped back over comes first; otherwise the earliest frame
    /// ahead of the playhead moves behind it. A copy is returned.
    ///
    /// With nothing stepped back over, one call is one step of `displays`;
    /// over a run of pushes and displays, frames come out in timestamp order
    /// (`lemma_display_order`).
    pub fn display(&mut self) -> (r: Option<VideoFrame>)
        requires
            old(self).wf(),
        ensures
            final(self).wf(),
            final(self).same_limits(old(self)),
            old(self).spec_leading().len() > 0 ==> {
                &&& r.is_some() && r.unwrap()@ == old(self).spec_leading().last()@
                &&& final(self).spec_leading() == old(self).spec_leading().drop_last()
                &&& final(self).spec_trailing() == old(self).spec_trailing().push(
                    old(self).spec_leading().last(),
                )
                &&& final(self).spec_ahead() == old(self).spec_ahead()
            },
            old(self).spec_leading().len() == 0 && old(self).spec_ahead().len() > 0 ==> {
                &&& r.is_some() && r.unwrap()@ == old(self).spec_ahead()[0]@
                &&& final(self).spec_ahead() == old(self).spec_ahead().drop_first()
                &&& final(self).spec_trailing() == push_bounded(
                    old(self).spec_trailing(),
                    old(self).spec_ahead()[0],
                    old(self).spec_behind_capacity(),
                )
                &&& final(self).spec_leading() == old(self).spec_leading()
            },
            old(self).spec_leading().len() == 0 && old(self).spec_ahead().len() == 0 ==> {
                &&& r.is_none()
                &&& final(self).spec_ahead() == old(self).spec_ahead()
                &&& final(self).spec_trailing() == old(self).spec_trailing()
                &&& final(self).spec_leading() == old(self).spec_leading()
            },
    {
        if self.behind.leading.len() > 0 {
            return self.behind.forward_pop();
        }
        match self.ahead.inner.pop_front() {
            Some(frame) => {
                let copy = frame.clone();
                self.behind.push(frame);
                proof {
                    let s = old(self).ahead.inner@;
                    assert forall|i: int, j: int|
                        0 <= i <= j < self.ahead.inner@.len() implies self.ahead.inner@[i].pts.0
                        <= self.ahead.inner@[j].pts.0 by {
                        assert(self.ahead.inner@[i] == s[i + 1]);
                        assert(self.ahead.inner@[j] == s[j + 1]);
                    }
                }
                Some(copy)
            },
            None => None,
        }
    }

    /// The timestamp of the next frame `display` would give.
    pub fn peek_next_pts(&self) -> (r: Option<Microseconds>)
        ensures
            self.spec_leading().len() > 0 ==> r == Some(self.spec_leading().last().pts),
            self.spec_leading().len() == 0 && self.spec_ahead().len() > 0 ==> r == Some(
                self.spec_ahead()[0].pts,
            ),
            self.spec_leading().len() == 0 && self.spec_ahead().len() == 0 ==> r.is_none(),
    {
        let leading = self.behind.leading_frame();
        if leading.is_some() {
            return leading;
        }
        if self.ahead.inner.len() == 0 {
            None
        } else {
            Some(self.ahead.inner[0].pts)
        }
    }

    /// Clear all frames from the buffer
    pub fn clear(&mut self)
        ensures
            final(self).wf(),
            final(self).same_limits(old(self)),
            final(self).spec_ahead().len() == 0,
            final(self).spec_trailing().len() == 0,
            final(self).spec_leading().len() == 0,
    {
        self.behind.leading.clear();
        self.behind.trailing.clear();
        self.ahead.inner.clear();
    }

    /// The number of frames in the buffer, on both sides (saturating).
    pub fn len(&self) -> (r: usize)
        ensures
            r == if self.spec_leading().len() + self.spec_trailing().len()
                + self.spec_ahead().len() <= usize::MAX {
                self.spec_leading().len() + self.spec_trailing().len() + self.spec_ahead().len()
            } else {
                usize::MAX as nat
            },
    {
        self.behind.leading.len().saturating_add(self.behind.trailing.len()).saturating_add(
            self.ahead.inner.len(),
        )
    }

    /// Check if the buffer is empty
    pub fn is_empty(&self) -> (r: bool)
        ensures
            r == (self.spec_leading().len() == 0 && self.spec_trailing().len() == 0
                && self.spec_ahead().len() == 0),
    {
        self.behind.leading.len() == 0 && self.behind.trailing.len() == 0 && self.ahead.inner.len()
            == 0
    }

    /// The frames ahead of the playhead are at capacity.
    pub fn is_full(&self) -> (r: bool)
        ensures
            r == (self.spec_ahead().len() >= self.spec_capacity()),
    {
        self.ahead.inner.len() >= self.ahead.capacity
    }

    /// The timestamp of the oldest displayed frame still kept.
    pub fn oldest_pts(&self) -> (r: Option<Microseconds>)
        ensures
            self.spec_trailing().len() == 0 ==> r.is_none(),
            self.spec_trailing().len() > 0 ==> r == Some(self.spec_trailing()[0].pts),
    {
        if self.behind.trailing.len() == 0 {
            None
        } else {
            Some(self.behind.trailing[0].pts)
        }
    }

    /// Step back one frame.
    ///
    /// The current and the previous frame move from the displayed side to
    /// the leading side, so that the previous one is displayed next (then
    /// the current one); returns the previous frame's timestamp. With fewer
    /// than two displayed frames nothing changes and `None` comes back.
    pub fn restore_previous_frame(&mut self) -> (r: Option<Microseconds>)
        requires
            old(self).wf(),
        ensures
            final(self).wf(),
            final(self).same_limits(old(self)),
            final(self).spec_ahead() == old(self).spec_ahead(),
            ({
                let t = old(self).spec_trailing();
                let n = t.len() as int;
                if n >= 2 {
                    &&& r == Some(t[n - 2].pts)
                    &&& final(self).spec_trailing() == t.subrange(0, n - 2)
                    &&& final(self).spec_leading() == old(self).spec_leading().push(t[n - 1]).push(
                        t[n - 2],
                    )
                } else {
                    &&& r.is_none()
                    &&& final(self).spec_trailing() == t
                    &&& final(self).spec_leading() == old(self).spec_leading()
                }
            }),
    {
        let ghost t = self.behind.trailing@;
        // Pop current frame
        if self.behind.rewind_pop().is_none() {
            return None;
        }
        // Pop previous frame
        match self.behind.rewind_pop() {
            Some(prev) => {
                assert(t.drop_last().drop_last() == t.subrange(0, t.len() - 2));
                assert(t.drop_last().last() == t[t.len() - 2]);
                Some(prev)
            },
            None => {
                // Only one frame in buffer, put current back
                let _ = self.behind.forward_pop();
                assert(t.drop_last().push(t.last()) == t);
                None
            },
        }
    }
}

} // verus!
