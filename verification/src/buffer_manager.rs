//! Vim-style buffers: several open videos, one of them active.
//!
//! The buffers are held in a `Vec` in increasing id order rather than in a
//! map keyed by id. Every operation that walks them wants that order:
//! cycling to the next or previous buffer and listing them go by id, and a
//! map would have its keys collected and sorted on each such call. New ids
//! only grow, so opening a buffer appends it and the order holds by itself
//! (`ids_increasing` is part of the manager's invariant); lookups by id
//! search the vector.

use vstd::prelude::*;
use vstd::string::StringExecFns;

use crate::command::text::{decimal, decimal_chars, string_from_chars};
use crate::types::PlaybackState;

verus! {

pub type BufferId = usize;

/// A single video buffer (like a vim buffer)
pub struct VideoBuffer<P> {
    pub id: BufferId,
    pub file_path: String,
    pub player: P,
    /// Whether this buffer was playing before being switched away
    pub was_playing: bool,
}

/// The name of the last component of a path, as `std::path::Path::file_name`
/// gives it: none for an empty path, a root, or a path ending in `..`.
pub uninterp spec fn path_file_name(path: Seq<char>) -> Option<Seq<char>>;

/// `Path::file_name` of a path given as a string, converted back to a string
/// (the name of a path made from a string is always valid UTF-8).
#[verifier::external_body]
fn file_name_of(path: &str) -> (r: Option<String>)
    ensures
        match r {
            Some(n) => path_file_name(path@) == Some(n@),
            None => path_file_name(path@).is_none(),
        },
{
    std::path::Path::new(path).file_name().and_then(|n| n.to_str()).map(|n| n.to_string())
}

/// The name a buffer is listed under: the file name of its path, or
/// "untitled" when the path has none.
pub open spec fn spec_file_name(path: Seq<char>) -> Seq<char> {
    match path_file_name(path) {
        Some(n) => n,
        None => "untitled"@,
    }
}

impl<P> VideoBuffer<P> {
    pub open spec fn spec_was_playing(&self) -> bool {
        self.was_playing
    }

    /// Get the display name for this buffer
    pub fn file_name(&self) -> (r: String)
        ensures
            r@ == spec_file_name(self.file_path@),
    {
        match file_name_of(self.file_path.as_str()) {
            Some(n) => n,
            None => String::from_str("untitled"),
        }
    }

    pub fn new(id: BufferId, file_path: String, player: P) -> (r: Self)
        ensures
            r.id == id,
            r.file_path@ == file_path@,
            r.player == player,
            !r.spec_was_playing(),
    {
        VideoBuffer { id, file_path, player, was_playing: false }
    }
}

/// What the caller does to the players after a switch: pause the buffer
/// that was active, then play the new one.
#[derive(Debug, Clone, Copy, PartialEq, Eq, Structural)]
pub struct SwitchPlan {
    pub pause: Option<BufferId>,
    pub play: Option<BufferId>,
}

/// Manages multiple video buffers (vim-style)
pub struct VideoBufferManager<P> {
    /// Buffers in increasing id order
    buffers: Vec<VideoBuffer<P>>,
    active_buffer_id: Option<BufferId>,
    next_buffer_id: BufferId,
}

/// Some buffer has this id.
pub open spec fn has_id<P>(bs: Seq<VideoBuffer<P>>, id: BufferId) -> bool {
    exists|i: int| 0 <= i < bs.len() && bs[i].id == id
}

/// The position of the buffer with this id.
pub open spec fn pos_of<P>(bs: Seq<VideoBuffer<P>>, id: BufferId) -> int {
    choose|i: int| 0 <= i < bs.len() && bs[i].id == id
}

/// Ids strictly increase along the sequence.
pub open spec fn ids_increasing<P>(bs: Seq<VideoBuffer<P>>) -> bool {
    forall|i: int, j: int| 0 <= i < j < bs.len() ==> bs[i].id < bs[j].id
}

/// The ids of the buffers, in order.
pub open spec fn ids_of<P>(bs: Seq<VideoBuffer<P>>) -> Seq<BufferId> {
    bs.map_values(|b: VideoBuffer<P>| b.id)
}

/// With increasing ids, the buffer found at `i` is the one `pos_of` names.
pub proof fn lemma_pos_of_unique<P>(bs: Seq<VideoBuffer<P>>, id: BufferId, i: int)
    requires
        ids_increasing(bs),
        0 <= i < bs.len(),
        bs[i].id == id,
    ensures
        has_id(bs, id),
        pos_of(bs, id) == i,
{
    assert(has_id(bs, id));
    let p = pos_of(bs, id);
    if p < i {
        assert(bs[p].id < bs[i].id);
    } else if i < p {
        assert(bs[i].id < bs[p].id);
    }
}

/// Switching to the next buffer and then to the previous one comes back to
/// the buffer started from, and so does the reverse: the two cycles undo
/// each other while the set of buffers stays the same.
pub proof fn lemma_next_prev_inverse<P>(bs: Seq<VideoBuffer<P>>, after: Seq<VideoBuffer<P>>, a: BufferId)
    requires
        ids_increasing(bs),
        ids_of(after) == ids_of(bs),
        has_id(bs, a),
    ensures
        spec_cycle_target(after, Some(spec_cycle_target(bs, Some(a), true)), false) == a,
        spec_cycle_target(after, Some(spec_cycle_target(bs, Some(a), false)), true) == a,
{
    let n = bs.len() as int;
    assert(ids_of(after).len() == after.len());
    assert(ids_of(bs).len() == bs.len());
    assert(after.len() == bs.len());
    assert forall|k: int| 0 <= k < n implies #[trigger] after[k].id == bs[k].id by {
        assert(ids_of(after)[k] == after[k].id);
        assert(ids_of(bs)[k] == bs[k].id);
    }
    assert(ids_increasing(after));
    let i = pos_of(bs, a);
    lemma_pos_of_unique(bs, a, i);
    let j = (i + 1) % n;
    let h = if i == 0 {
        n - 1
    } else {
        i - 1
    };
    lemma_pos_of_unique(after, bs[j].id, j);
    lemma_pos_of_unique(after, bs[h].id, h);
    if i == n - 1 {
        assert(j == 0) by {
            vstd::arithmetic::div_mod::lemma_mod_self_0(n);
        }
    } else {
        assert(j == i + 1) by {
            vstd::arithmetic::div_mod::lemma_small_mod((i + 1) as nat, n as nat);
        }
    }
    if i == 0 {
        assert((h + 1) % n == 0) by {
            vstd::arithmetic::div_mod::lemma_mod_self_0(n);
        }
    } else {
        assert((h + 1) % n == i) by {
            vstd::arithmetic::div_mod::lemma_small_mod(i as nat, n as nat);
        }
    }
}

/// The id a buffer switch moves the focus to: the next (or previous) id in
/// increasing order, wrapping around, counted from the active buffer (or
/// from the first buffer when the active one is unknown).
pub open spec fn spec_cycle_target<P>(
    bs: Seq<VideoBuffer<P>>,
    active: Option<BufferId>,
    forward: bool,
) -> BufferId
    recommends
        bs.len() > 0,
{
    let cur = match active {
        Some(a) => a,
        None => 0,
    };
    let idx = if has_id(bs, cur) {
        pos_of(bs, cur)
    } else {
        0
    };
    let n = bs.len() as int;
    if forward {
        bs[(idx + 1) % n].id
    } else {
        bs[if idx == 0 {
            n - 1
        } else {
            idx - 1
        }].id
    }
}

/// The buffer a deletion of the active buffer moves the focus to: the first
/// other buffer, if there is one.
pub open spec fn spec_other_buffer<P>(bs: Seq<VideoBuffer<P>>, id: BufferId) -> Option<BufferId> {
    if bs.len() > 0 && bs[0].id != id {
        Some(bs[0].id)
    } else if bs.len() > 1 && bs[1].id != id {
        Some(bs[1].id)
    } else {
        None
    }
}

/// The plan of a switch from the active buffer `active` to the buffer
/// `target`: nothing when it is already active; otherwise pause the active
/// one and play the target if it was playing when it was switched away from.
pub open spec fn spec_switch_plan<P>(
    bs: Seq<VideoBuffer<P>>,
    active: Option<BufferId>,
    target: BufferId,
) -> SwitchPlan {
    if active == Some(target) {
        SwitchPlan { pause: None, play: None }
    } else {
        SwitchPlan {
            pause: active,
            play: if bs[pos_of(bs, target)].spec_was_playing() {
                Some(target)
            } else {
                None
            },
        }
    }
}

/// The buffers `after` a switch from `active` to `target`: the same buffers
/// in the same order, where the buffer switched away from remembers
/// `active_is_playing` and every other one keeps what it remembered.
pub open spec fn switched_buffers<P>(
    before: Seq<VideoBuffer<P>>,
    after: Seq<VideoBuffer<P>>,
    active: Option<BufferId>,
    target: BufferId,
    active_is_playing: bool,
) -> bool {
    &&& after.len() == before.len()
    &&& forall|i: int|
        0 <= i < before.len() ==> {
            let b = #[trigger] after[i];
            let o = before[i];
            &&& b.id == o.id
            &&& b.file_path == o.file_path
            &&& b.player == o.player
            &&& b.spec_was_playing() == if active != Some(target) && active == Some(o.id) {
                active_is_playing
            } else {
                o.spec_was_playing()
            }
        }
}

/// The message for an id that no buffer has.
pub open spec fn missing_message(id: BufferId) -> Seq<char> {
    "Buffer "@ + decimal(id as nat) + " does not exist"@
}

impl<P> VideoBufferManager<P> {
    pub closed spec fn spec_buffers(&self) -> Seq<VideoBuffer<P>> {
        self.buffers@
    }

    pub closed spec fn spec_active(&self) -> Option<BufferId> {
        self.active_buffer_id
    }

    pub closed spec fn spec_next_id(&self) -> BufferId {
        self.next_buffer_id
    }

    /// Ids increase and stay below the next id; the active id is a buffer's.
    pub open spec fn wf(&self) -> bool {
        &&& ids_increasing(self.spec_buffers())
        &&& forall|i: int|
            0 <= i < self.spec_buffers().len() ==> #[trigger] self.spec_buffers()[i].id
                < self.spec_next_id()
        &&& match self.spec_active() {
            Some(a) => has_id(self.spec_buffers(), a),
            None => true,
        }
    }

    pub fn new() -> (r: Self)
        ensures
            r.wf(),
            r.spec_buffers().len() == 0,
            r.spec_active().is_none(),
            r.spec_next_id() == 1,
    {
        VideoBufferManager { buffers: Vec::new(), active_buffer_id: None, next_buffer_id: 1 }
    }

    fn find(&self, id: BufferId) -> (r: Option<usize>)
        requires
            ids_increasing(self.buffers@),
        ensures
            match r {
                Some(i) => i < self.buffers@.len() && self.buffers@[i as int].id == id && pos_of(
                    self.buffers@,
                    id,
                ) == i,
                None => !has_id(self.buffers@, id),
            },
    {
        let n = self.buffers.len();
        let mut i: usize = 0;
        while i < n
            invariant
                n == self.buffers@.len(),
                0 <= i <= n,
                ids_increasing(self.buffers@),
                forall|j: int| 0 <= j < i ==> self.buffers@[j].id != id,
            decreases n - i,
        {
            if self.buffers[i].id == id {
                proof {
                    lemma_pos_of_unique(self.buffers@, id, i as int);
                }
                return Some(i);
            }
            i = i + 1;
        }
        None
    }

    fn set_was_playing(&mut self, i: usize, value: bool)
        requires
            i < old(self).buffers@.len(),
        ensures
            final(self).buffers@.len() == old(self).buffers@.len(),
            forall|j: int|
                0 <= j < final(self).buffers@.len() && j != i ==> final(self).buffers@[j] == old(self).buffers@[j],
            final(self).buffers@[i as int].id == old(self).buffers@[i as int].id,
            final(self).buffers@[i as int].file_path == old(self).buffers@[i as int].file_path,
            final(self).buffers@[i as int].player == old(self).buffers@[i as int].player,
            final(self).buffers@[i as int].was_playing == value,
            final(self).active_buffer_id == old(self).active_buffer_id,
            final(self).next_buffer_id == old(self).next_buffer_id,
    {
        let mut b = self.buffers.remove(i);
        b.was_playing = value;
        self.buffers.insert(i, b);
    }

    /// Adds a newly opened video as a buffer and makes it active.
    ///
    /// The buffer active before (whose player the caller paused before
    /// opening) will not resume when switched back to. When the player could
    /// not be created, the error is reported and no buffer is added.
    pub fn open(&mut self, file_path: String, created: Result<P, String>) -> (r: Result<
        BufferId,
        String,
    >)
        requires
            old(self).wf(),
            old(self).spec_next_id() < usize::MAX,
        ensures
            final(self).wf(),
            match old(self).spec_active() {
                Some(a) => {
                    let p = pos_of(old(self).spec_buffers(), a);
                    &&& !final(self).spec_buffers()[p].spec_was_playing()
                    &&& final(self).spec_buffers()[p].id == a
                },
                None => true,
            },
            match created {
                Ok(player) => {
                    let n = old(self).spec_buffers().len();
                    &&& r == Ok::<BufferId, String>(old(self).spec_next_id())
                    &&& final(self).spec_buffers().len() == n + 1
                    &&& final(self).spec_buffers()[n as int].id == old(self).spec_next_id()
                    &&& final(self).spec_buffers()[n as int].file_path@ == file_path@
                    &&& final(self).spec_buffers()[n as int].player == player
                    &&& !final(self).spec_buffers()[n as int].spec_was_playing()
                    &&& final(self).spec_active() == Some(old(self).spec_next_id())
                    &&& final(self).spec_next_id() == old(self).spec_next_id() + 1
                },
                Err(e) => {
                    &&& r matches Err(m) && m@ == "Failed to open video: "@ + e@
                    &&& final(self).spec_buffers().len() == old(self).spec_buffers().len()
                    &&& final(self).spec_active() == old(self).spec_active()
                    &&& final(self).spec_next_id() == old(self).spec_next_id()
                },
            },
            forall|i: int|
                0 <= i < old(self).spec_buffers().len() ==> {
                    let b = #[trigger] final(self).spec_buffers()[i];
                    let o = old(self).spec_buffers()[i];
                    &&& b.id == o.id
                    &&& b.file_path == o.file_path
                    &&& b.player == o.player
                    &&& (old(self).spec_active() != Some(o.id) ==> b.spec_was_playing()
                        == o.spec_was_playing())
                },
    {
        // When opening a new file, the old buffer does not resume later
        match self.active_buffer_id {
            Some(current_id) => {
                match self.find(current_id) {
                    Some(i) => {
                        self.set_was_playing(i, false);
                    },
                    None => {},
                }
            },
            None => {},
        }
        let player = match created {
            Ok(p) => p,
            Err(e) => {
                let mut m = String::from_str("Failed to open video: ");
                m.append(e.as_str());
                return Err(m);
            },
        };
        let buffer_id = self.next_buffer_id;
        self.next_buffer_id = self.next_buffer_id + 1;
        let buffer = VideoBuffer::new(buffer_id, file_path, player);
        self.buffers.push(buffer);
        self.active_buffer_id = Some(buffer_id);
        proof {
            let n = self.buffers@.len() - 1;
            assert(self.buffers@[n as int].id == buffer_id);
        }
        Ok(buffer_id)
    }

    fn missing(id: BufferId) -> (r: String)
        ensures
            r@ == missing_message(id),
    {
        let mut m = String::from_str("Buffer ");
        let digits = decimal_chars(id);
        let d = string_from_chars(&digits);
        m.append(d.as_str());
        m.append(" does not exist");
        m
    }

    /// Switch to a specific buffer by ID
    ///
    /// The active buffer remembers whether it was playing (`active_is_playing`)
    /// and is to be paused; the new one is to be played if it was playing
    /// when it was switched away from.
    pub fn switch_to(&mut self, buffer_id: BufferId, active_is_playing: bool) -> (r: Result<
        SwitchPlan,
        String,
    >)
        requires
            old(self).wf(),
        ensures
            final(self).wf(),
            final(self).spec_next_id() == old(self).spec_next_id(),
            final(self).spec_buffers().len() == old(self).spec_buffers().len(),
            ids_of(final(self).spec_buffers()) == ids_of(old(self).spec_buffers()),
            has_id(old(self).spec_buffers(), buffer_id) ==> {
                &&& r == Ok::<SwitchPlan, String>(
                    spec_switch_plan(old(self).spec_buffers(), old(self).spec_active(), buffer_id),
                )
                &&& final(self).spec_active() == Some(buffer_id)
                &&& switched_buffers(
                    old(self).spec_buffers(),
                    final(self).spec_buffers(),
                    old(self).spec_active(),
                    buffer_id,
                    active_is_playing,
                )
            },
            !has_id(old(self).spec_buffers(), buffer_id) ==> {
                &&& r matches Err(m) && m@ == missing_message(buffer_id)
                &&& final(self).spec_buffers() == old(self).spec_buffers()
                &&& final(self).spec_active() == old(self).spec_active()
            },
            has_id(old(self).spec_buffers(), buffer_id) && old(self).spec_active() == Some(
                buffer_id,
            ) ==> {
                &&& r == Ok::<SwitchPlan, String>(SwitchPlan { pause: None, play: None })
                &&& final(self).spec_buffers() == old(self).spec_buffers()
                &&& final(self).spec_active() == old(self).spec_active()
            },
            has_id(old(self).spec_buffers(), buffer_id) && old(self).spec_active() != Some(
                buffer_id,
            ) ==> {
                let t = pos_of(old(self).spec_buffers(), buffer_id);
                &&& r == Ok::<SwitchPlan, String>(
                    SwitchPlan {
                        pause: old(self).spec_active(),
                        play: if old(self).spec_buffers()[t].spec_was_playing() {
                            Some(buffer_id)
                        } else {
                            None
                        },
                    },
                )
                &&& final(self).spec_active() == Some(buffer_id)
                &&& forall|i: int|
                    0 <= i < old(self).spec_buffers().len() ==> {
                        let b = #[trigger] final(self).spec_buffers()[i];
                        let o = old(self).spec_buffers()[i];
                        &&& b.id == o.id
                        &&& b.file_path == o.file_path
                        &&& b.player == o.player
                        &&& b.spec_was_playing() == if old(self).spec_active() == Some(o.id) {
                            active_is_playing
                        } else {
                            o.spec_was_playing()
                        }
                    }
            },
    {
        let target = match self.find(buffer_id) {
            Some(t) => t,
            None => {
                return Err(Self::missing(buffer_id));
            },
        };
        if self.active_buffer_id == Some(buffer_id) {
            return Ok(SwitchPlan { pause: None, play: None });
        }
        let ghost old_buffers = self.buffers@;
        // Remember whether the current buffer was playing
        let pause = self.active_buffer_id;
        match self.active_buffer_id {
            Some(current_id) => {
                match self.find(current_id) {
                    Some(i) => {
                        self.set_was_playing(i, active_is_playing);
                    },
                    None => {},
                }
            },
            None => {},
        }
        // Activate new buffer
        self.active_buffer_id = Some(buffer_id);
        let play = if self.buffers[target].was_playing {
            Some(buffer_id)
        } else {
            None
        };
        proof {
            assert(self.buffers@[target as int].id == buffer_id);
        }
        Ok(SwitchPlan { pause, play })
    }

    /// The id `next_buffer` (`forward`) or `prev_buffer` moves to.
    fn cycle_target(&self, forward: bool) -> (r: BufferId)
        requires
            self.wf(),
            self.spec_buffers().len() > 0,
        ensures
            r == spec_cycle_target(self.spec_buffers(), self.spec_active(), forward),
            has_id(self.spec_buffers(), r),
    {
        let current_id = match self.active_buffer_id {
            Some(a) => a,
            None => 0,
        };
        let current_index = match self.find(current_id) {
            Some(i) => i,
            None => 0,
        };
        let n = self.buffers.len();
        let index = if forward {
            (current_index + 1) % n
        } else if current_index == 0 {
            n - 1
        } else {
            current_index - 1
        };
        let r = self.buffers[index].id;
        assert(0 <= index < self.buffers@.len() && self.buffers@[index as int].id == r);
        r
    }

    /// Switch to the next buffer in id order (wrapping around)
    pub fn next_buffer(&mut self, active_is_playing: bool) -> (r: Result<SwitchPlan, String>)
        requires
            old(self).wf(),
        ensures
            final(self).wf(),
            ids_of(final(self).spec_buffers()) == ids_of(old(self).spec_buffers()),
            final(self).spec_next_id() == old(self).spec_next_id(),
            old(self).spec_buffers().len() == 0 ==> (r matches Err(m) && m@ == "No buffers open"@
                && final(self).spec_active() == old(self).spec_active()
                && final(self).spec_buffers() == old(self).spec_buffers()),
            old(self).spec_buffers().len() > 0 ==> {
                let target = spec_cycle_target(
                    old(self).spec_buffers(),
                    old(self).spec_active(),
                    true,
                );
                &&& r == Ok::<SwitchPlan, String>(
                    spec_switch_plan(old(self).spec_buffers(), old(self).spec_active(), target),
                )
                &&& final(self).spec_active() == Some(target)
                &&& switched_buffers(
                    old(self).spec_buffers(),
                    final(self).spec_buffers(),
                    old(self).spec_active(),
                    target,
                    active_is_playing,
                )
            },
    {
        if self.buffers.len() == 0 {
            return Err(String::from_str("No buffers open"));
        }
        let next_id = self.cycle_target(true);
        self.switch_to(next_id, active_is_playing)
    }

    /// Switch to the previous buffer in id order (wrapping around)
    pub fn prev_buffer(&mut self, active_is_playing: bool) -> (r: Result<SwitchPlan, String>)
        requires
            old(self).wf(),
        ensures
            final(self).wf(),
            ids_of(final(self).spec_buffers()) == ids_of(old(self).spec_buffers()),
            final(self).spec_next_id() == old(self).spec_next_id(),
            old(self).spec_buffers().len() == 0 ==> (r matches Err(m) && m@ == "No buffers open"@
                && final(self).spec_active() == old(self).spec_active()
                && final(self).spec_buffers() == old(self).spec_buffers()),
            old(self).spec_buffers().len() > 0 ==> {
                let target = spec_cycle_target(
                    old(self).spec_buffers(),
                    old(self).spec_active(),
                    false,
                );
                &&& r == Ok::<SwitchPlan, String>(
                    spec_switch_plan(old(self).spec_buffers(), old(self).spec_active(), target),
                )
                &&& final(self).spec_active() == Some(target)
                &&& switched_buffers(
                    old(self).spec_buffers(),
                    final(self).spec_buffers(),
                    old(self).spec_active(),
                    target,
                    active_is_playing,
                )
            },
    {
        if self.buffers.len() == 0 {
            return Err(String::from_str("No buffers open"));
        }
        let prev_id = self.cycle_target(false);
        self.switch_to(prev_id, active_is_playing)
    }

    /// Delete a buffer by ID
    ///
    /// Deleting the active buffer first switches to another buffer (which
    /// the plan says how to resume), or leaves none active. The removed
    /// buffer is handed back.
    #[verifier::rlimit(40)]
    pub fn delete(&mut self, buffer_id: BufferId, active_is_playing: bool) -> (r: Result<
        (SwitchPlan, VideoBuffer<P>),
        String,
    >)
        requires
            old(self).wf(),
        ensures
            final(self).wf(),
            final(self).spec_next_id() == old(self).spec_next_id(),
            !has_id(old(self).spec_buffers(), buffer_id) ==> {
                &&& r matches Err(m) && m@ == missing_message(buffer_id)
                &&& final(self).spec_buffers() == old(self).spec_buffers()
                &&& final(self).spec_active() == old(self).spec_active()
            },
            has_id(old(self).spec_buffers(), buffer_id) ==> {
                &&& r is Ok
                &&& final(self).spec_buffers().len() + 1 == old(self).spec_buffers().len()
                &&& !has_id(final(self).spec_buffers(), buffer_id)
                &&& (forall|id: BufferId|
                    id != buffer_id ==> (has_id(final(self).spec_buffers(), id) <==> has_id(
                        old(self).spec_buffers(),
                        id,
                    )))
                &&& final(self).spec_buffers() == old(self).spec_buffers().remove(
                    pos_of(old(self).spec_buffers(), buffer_id),
                )
                &&& r.unwrap().0 == if old(self).spec_active() == Some(buffer_id) {
                    match spec_other_buffer(old(self).spec_buffers(), buffer_id) {
                        Some(other) => spec_switch_plan(
                            old(self).spec_buffers(),
                            Some(buffer_id),
                            other,
                        ),
                        None => SwitchPlan { pause: None, play: None },
                    }
                } else {
                    SwitchPlan { pause: None, play: None }
                }
                &&& r.unwrap().1.id == buffer_id
                &&& r.unwrap().1.file_path == old(self).spec_buffers()[pos_of(
                    old(self).spec_buffers(),
                    buffer_id,
                )].file_path
                &&& r.unwrap().1.player == old(self).spec_buffers()[pos_of(
                    old(self).spec_buffers(),
                    buffer_id,
                )].player
                &&& final(self).spec_active() == if old(self).spec_active() == Some(buffer_id) {
                    spec_other_buffer(old(self).spec_buffers(), buffer_id)
                } else {
                    old(self).spec_active()
                }
            },
    {
        let first = match self.find(buffer_id) {
            Some(i) => i,
            None => {
                return Err(Self::missing(buffer_id));
            },
        };
        let ghost start = self.buffers@;
        let mut plan = SwitchPlan { pause: None, play: None };
        // If deleting the active buffer, switch to another one first
        if self.active_buffer_id == Some(buffer_id) {
            let other = if self.buffers[0].id != buffer_id {
                Some(self.buffers[0].id)
            } else if self.buffers.len() > 1 && self.buffers[1].id != buffer_id {
                Some(self.buffers[1].id)
            } else {
                None
            };
            assert(other == spec_other_buffer(start, buffer_id));
            match other {
                Some(other_id) => {
                    proof {
                        if self.buffers@[0].id == other_id {
                            lemma_pos_of_unique(self.buffers@, other_id, 0);
                        } else {
                            lemma_pos_of_unique(self.buffers@, other_id, 1);
                        }
                    }
                    match self.switch_to(other_id, active_is_playing) {
                        Ok(p) => {
                            plan = p;
                        },
                        Err(_) => {},
                    }
                },
                None => {
                    // This was the last buffer
                    self.active_buffer_id = None;
                },
            }
        }
        let ghost before = self.buffers@;
        proof {
            assert(before.len() == start.len());
            assert forall|k: int| 0 <= k < before.len() implies #[trigger] before[k].id == start[k].id
                && before[k].player == start[k].player by {
                assert(self.spec_buffers()[k] == before[k]);
            }
            lemma_pos_of_unique(start, buffer_id, first as int);
            lemma_pos_of_unique(before, buffer_id, first as int);
        }
        let i = match self.find(buffer_id) {
            Some(i) => i,
            None => {
                return Err(Self::missing(buffer_id));
            },
        };
        let removed = self.buffers.remove(i);
        proof {
            assert forall|a: int, b: int|
                0 <= a < b < self.buffers@.len() implies self.buffers@[a].id
                < self.buffers@[b].id by {
                let oa = if a < i { a } else { a + 1 };
                let ob = if b < i { b } else { b + 1 };
                assert(self.buffers@[a] == before[oa]);
                assert(self.buffers@[b] == before[ob]);
            }
            assert forall|k: int| 0 <= k < self.buffers@.len() implies #[trigger] self.buffers@[k].id
                < self.next_buffer_id by {
                let ok = if k < i { k } else { k + 1 };
                assert(self.buffers@[k] == before[ok]);
            }
            assert forall|id: BufferId| id != buffer_id implies (has_id(self.buffers@, id)
                <==> has_id(before, id)) by {
                if has_id(before, id) {
                    let p = choose|p: int| 0 <= p < before.len() && before[p].id == id;
                    let q = if p < i { p } else { p - 1 };
                    assert(self.buffers@[q] == before[p]);
                }
                if has_id(self.buffers@, id) {
                    let q = choose|q: int| 0 <= q < self.buffers@.len() && self.buffers@[q].id == id;
                    let p = if q < i { q } else { q + 1 };
                    assert(self.buffers@[q] == before[p]);
                }
            }
            if has_id(self.buffers@, buffer_id) {
                let q = choose|q: int|
                    0 <= q < self.buffers@.len() && self.buffers@[q].id == buffer_id;
                let p = if q < i { q } else { q + 1 };
                assert(self.buffers@[q] == before[p]);
                assert(before[i as int].id == buffer_id);
            }
            match self.active_buffer_id {
                Some(a) => {
                    assert(a != buffer_id);
                    assert(has_id(before, a));
                },
                None => {},
            }
            assert(removed.player == start[pos_of(start, buffer_id)].player);
            assert forall|id: BufferId| id != buffer_id implies (has_id(self.buffers@, id)
                <==> has_id(start, id)) by {
                if has_id(before, id) {
                    let p = choose|p: int| 0 <= p < before.len() && before[p].id == id;
                    assert(start[p].id == id);
                }
                if has_id(start, id) {
                    let p = choose|p: int| 0 <= p < start.len() && start[p].id == id;
                    assert(before[p].id == id);
                }
            }
            assert(self.buffers@.len() + 1 == start.len());
            assert(!has_id(self.buffers@, buffer_id));
            assert forall|k: int| 0 <= k < self.buffers@.len() implies #[trigger] self.buffers@[k]
                == start.remove(first as int)[k] by {
                let ok = if k < i { k } else { k + 1 };
                assert(self.buffers@[k] == before[ok]);
                assert(ok != first);
                assert(start[ok].id != buffer_id);
            }
            assert(self.buffers@ =~= start.remove(first as int));
        }
        Ok((plan, removed))
    }

    /// The active buffer
    pub fn active_buffer(&self) -> (r: Option<&VideoBuffer<P>>)
        requires
            self.wf(),
        ensures
            match self.spec_active() {
                Some(a) => r == Some(&self.spec_buffers()[pos_of(self.spec_buffers(), a)]),
                None => r.is_none(),
            },
    {
        match self.active_buffer_id {
            Some(id) => {
                match self.find(id) {
                    Some(i) => Some(&self.buffers[i]),
                    None => None,
                }
            },
            None => None,
        }
    }

    /// The buffer with this id, if one has it.
    pub fn buffer(&self, id: BufferId) -> (r: Option<&VideoBuffer<P>>)
        requires
            self.wf(),
        ensures
            has_id(self.spec_buffers(), id) ==> r == Some(
                &self.spec_buffers()[pos_of(self.spec_buffers(), id)],
            ),
            !has_id(self.spec_buffers(), id) ==> r.is_none(),
    {
        match self.find(id) {
            Some(i) => Some(&self.buffers[i]),
            None => None,
        }
    }

    /// The id the next opened buffer gets.
    pub fn next_buffer_id(&self) -> (r: BufferId)
        ensures
            r == self.spec_next_id(),
    {
        self.next_buffer_id
    }

    /// Every buffer in increasing id order, with its name, the state its
    /// player reports through `state_of`, and whether it is active.
    pub fn list_buffers<F: Fn(&P) -> PlaybackState>(&self, state_of: F) -> (r: Vec<
        (BufferId, String, String, bool),
    >)
        requires
            forall|i: int|
                0 <= i < self.spec_buffers().len() ==> call_requires(
                    state_of,
                    (&#[trigger] self.spec_buffers()[i].player,),
                ),
        ensures
            r@.len() == self.spec_buffers().len(),
            forall|i: int|
                0 <= i < r@.len() ==> {
                    let b = #[trigger] self.spec_buffers()[i];
                    &&& r@[i].0 == b.id
                    &&& r@[i].1@ == spec_file_name(b.file_path@)
                    &&& exists|st: PlaybackState|
                        call_ensures(state_of, (&b.player,), st) && r@[i].2@ == st.spec_name()
                    &&& r@[i].3 == (self.spec_active() == Some(b.id))
                },
    {
        let mut out: Vec<(BufferId, String, String, bool)> = Vec::new();
        let n = self.buffers.len();
        let mut i: usize = 0;
        while i < n
            invariant
                n == self.buffers@.len(),
                0 <= i <= n,
                out@.len() == i,
                forall|k: int|
                    0 <= k < n ==> call_requires(
                        state_of,
                        (&#[trigger] self.spec_buffers()[k].player,),
                    ),
                forall|k: int|
                    0 <= k < i ==> {
                        let b = #[trigger] self.buffers@[k];
                        &&& out@[k].0 == b.id
                        &&& out@[k].1@ == spec_file_name(b.file_path@)
                        &&& exists|st: PlaybackState|
                            call_ensures(state_of, (&b.player,), st) && out@[k].2@
                                == st.spec_name()
                        &&& out@[k].3 == (self.active_buffer_id == Some(b.id))
                    },
            decreases n - i,
        {
            let b = &self.buffers[i];
            assert(call_requires(state_of, (&self.spec_buffers()[i as int].player,)));
            let st = state_of(&b.player);
            let name = String::from_str(st.name());
            let active = self.active_buffer_id == Some(b.id);
            out.push((b.id, b.file_name(), name, active));
            i = i + 1;
        }
        out
    }

    /// Check if any buffer is open
    pub fn has_buffers(&self) -> (r: bool)
        ensures
            r == (self.spec_buffers().len() > 0),
    {
        self.buffers.len() > 0
    }

    /// Get the active buffer ID
    pub fn active_buffer_id(&self) -> (r: Option<BufferId>)
        ensures
            r == self.spec_active(),
    {
        self.active_buffer_id
    }
}

} // verus!
