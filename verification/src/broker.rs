//! The transport broker's protocol state: the request-tag allocator, the
//! pending-request table, the bounded outbound frame queue, and the dispatch
//! of inbound frames to reply slots or the event path.
//!
//! The broker decides; the surrounding runtime performs. A reader task hands
//! every inbound frame to [`Broker::on_frame`] and completes the slot the
//! returned dispatch names; a writer task drains [`Broker::dequeue_frame`]
//! onto the socket. On any fatal error either task calls
//! [`Broker::shutdown`] and completes every drained slot with
//! `ConnectionClosed`.

use vstd::prelude::*;
use vstd::seq_lib::*;

use crate::command::CommandKind;
use crate::error::{CloseCause, Error, ErrorKind};
use crate::frame::{Frame, COMMAND_CHANNEL};
use crate::tag_struct::{norm_values, values_bytes, values_wf, TagStruct, ValueModel};
use crate::INVALID_INDEX;

verus! {

/// How many outbound frames a broker queues before refusing more.
pub const DEFAULT_QUEUE_CAPACITY: usize = 1024;

/// What the broker decided about one inbound frame.
pub enum Dispatch {
    /// A non-command frame: stream data, dropped in this version.
    Data,
    /// A reply for a pending request: complete its slot with the payload.
    Reply { tag: u32, payload: TagStruct },
    /// A server error for a pending request: fail its slot with the kind.
    ServerError { tag: u32, kind: ErrorKind },
    /// A server-sent request or event: log and drop in this version.
    Event { kind: CommandKind, tag: u32, payload: TagStruct },
    /// A reply whose request was cancelled: log and drop.
    LateReply { tag: u32 },
}

/// The payload of a command frame: the header values, then the body.
pub open spec fn command_payload(kind: CommandKind, tag: u32, body: Seq<ValueModel>) -> Seq<u8> {
    values_bytes(norm_values(seq![ValueModel::U32(kind.code()), ValueModel::U32(tag)] + body))
}

/// A command frame carrying the given header and body values.
pub open spec fn spec_command_frame(
    fm: crate::frame::FrameModel,
    kind: CommandKind,
    tag: u32,
    rest: Seq<ValueModel>,
) -> bool {
    &&& fm.channel == COMMAND_CHANNEL
    &&& values_wf(rest)
    &&& norm_values(rest) == rest
    &&& fm.data == values_bytes(seq![ValueModel::U32(kind.code()), ValueModel::U32(tag)] + rest)
}

/// The candidate the tag allocator probes `j` steps after `seed`: tags walk
/// the space below the reserved value and wrap.
pub open spec fn tag_candidate(seed: u32, j: int) -> u32 {
    (((seed as int) + j) % (INVALID_INDEX as int)) as u32
}

proof fn lemma_tag_candidate_distinct(seed: u32, a: int, b: int)
    requires
        0 <= a < b,
        b - a < INVALID_INDEX as int,
    ensures
        tag_candidate(seed, a) != tag_candidate(seed, b),
{
    let m = INVALID_INDEX as int;
    let x = seed as int + a;
    let y = seed as int + b;
    vstd::arithmetic::div_mod::lemma_fundamental_div_mod(x, m);
    vstd::arithmetic::div_mod::lemma_fundamental_div_mod(y, m);
    assert(0 <= x % m < m && 0 <= y % m < m) by (nonlinear_arith)
        requires
            m > 0,
    ;
    if tag_candidate(seed, a) == tag_candidate(seed, b) {
        assert(x % m == y % m);
        let qx = x / m;
        let qy = y / m;
        assert(y - x == m * qy - m * qx);
        assert(m * qy - m * qx == m * (qy - qx)) by (nonlinear_arith);
        assert(qy - qx >= 1 ==> m * (qy - qx) >= m) by (nonlinear_arith)
            requires
                m > 0,
        ;
        assert(qy - qx <= -1 ==> m * (qy - qx) <= -m) by (nonlinear_arith)
            requires
                m > 0,
        ;
        assert(false);
    }
}

/// Finds `tag` in a duplicate-free vector and removes it; reports whether it
/// was there.
fn take_tag(v: &mut Vec<u32>, tag: u32) -> (found: bool)
    requires
        old(v)@.no_duplicates(),
    ensures
        found == old(v)@.contains(tag),
        final(v)@ == old(v)@.remove_value(tag),
        !found ==> final(v)@ == old(v)@,
        final(v)@.no_duplicates(),
        !final(v)@.contains(tag),
        forall|t: u32| #[trigger] final(v)@.contains(t) ==> old(v)@.contains(t),
        forall|t: u32| t != tag && old(v)@.contains(t) ==> #[trigger] final(v)@.contains(t),
{
    let n = v.len();
    let mut i: usize = 0;
    while i < n
        invariant
            i <= n,
            n == v@.len(),
            v@ == old(v)@,
            v@.no_duplicates(),
            forall|j: int| 0 <= j < i ==> v@[j] != tag,
        decreases n - i,
    {
        if v[i] == tag {
            let ghost orig = v@;
            v.remove(i);
            proof {
                assert(orig[i as int] == tag);
                assert(orig.contains(tag));
                orig.index_of_first_ensures(tag);
                assert(orig.index_of_first(tag) is Some);
                let idx = orig.index_of_first(tag)->Some_0;
                assert(orig[idx] == tag);
                assert(idx == i as int);
                assert(v@ =~= orig.remove_value(tag));
                assert forall|a: int, b: int|
                    0 <= a < v@.len() && 0 <= b < v@.len() && a != b implies v@[a] != v@[b] by {
                    let a0 = if a < i as int {
                        a
                    } else {
                        a + 1
                    };
                    let b0 = if b < i as int {
                        b
                    } else {
                        b + 1
                    };
                    assert(v@[a] == orig[a0] && v@[b] == orig[b0]);
                };
                assert(!v@.contains(tag)) by {
                    if v@.contains(tag) {
                        let j = choose|j: int| 0 <= j < v@.len() && v@[j] == tag;
                        let j0 = if j < i as int {
                            j
                        } else {
                            j + 1
                        };
                        assert(orig[j0] == tag);
                    }
                }
                assert forall|t: u32| #[trigger] v@.contains(t) implies orig.contains(t) by {
                    let j = choose|j: int| 0 <= j < v@.len() && v@[j] == t;
                    let j0 = if j < i as int {
                        j
                    } else {
                        j + 1
                    };
                    assert(orig[j0] == t);
                };
                assert forall|t: u32| t != tag && orig.contains(t) implies #[trigger] v@.contains(
                    t,
                ) by {
                    let j = choose|j: int| 0 <= j < orig.len() && orig[j] == t;
                    if j < i as int {
                        assert(v@[j] == t);
                    } else {
                        assert(v@[j - 1] == t);
                    }
                };
            }
            return true;
        }
        i += 1;
    }
    proof {
        if v@.contains(tag) {
            let j = choose|j: int| 0 <= j < v@.len() && v@[j] == tag;
        }
        old(v)@.index_of_first_ensures(tag);
        assert(v@ =~= old(v)@.remove_value(tag));
    }
    false
}

/// Whether a duplicate-free vector holds `tag`.
fn has_tag(v: &Vec<u32>, tag: u32) -> (found: bool)
    ensures
        found == v@.contains(tag),
{
    let n = v.len();
    let mut i: usize = 0;
    while i < n
        invariant
            i <= n,
            n == v@.len(),
            forall|j: int| 0 <= j < i ==> v@[j] != tag,
        decreases n - i,
    {
        if v[i] == tag {
            return true;
        }
        i += 1;
    }
    proof {
        if v@.contains(tag) {
            let j = choose|j: int| 0 <= j < v@.len() && v@[j] == tag;
        }
    }
    false
}

/// Removing a pending tag and recording it as cancelled keeps the broker
/// well-formed.
proof fn lemma_cancel_wf(pre: Broker, post: Broker, tag: u32)
    requires
        pre.wf(),
        tag < INVALID_INDEX,
        !pre.cancelled@.contains(tag),
        post.pending@.no_duplicates(),
        !post.pending@.contains(tag),
        forall|t: u32| #[trigger] post.pending@.contains(t) ==> pre.pending@.contains(t),
        post.cancelled@ == pre.cancelled@.push(tag),
        post.next_tag == pre.next_tag,
        post.queue@ == pre.queue@,
        post.capacity == pre.capacity,
    ensures
        post.wf(),
{
    assert forall|i: int| 0 <= i < post.pending@.len() implies #[trigger] post.pending@[i]
        < INVALID_INDEX by {
        assert(post.pending@.contains(post.pending@[i]));
        let j = choose|j: int| 0 <= j < pre.pending@.len() && pre.pending@[j] == post.pending@[i];
        assert(pre.pending@[j] < INVALID_INDEX);
    };
    assert forall|i: int| 0 <= i < post.cancelled@.len() implies #[trigger] post.cancelled@[i]
        < INVALID_INDEX by {
        if i < pre.cancelled@.len() {
            assert(pre.cancelled@[i] < INVALID_INDEX);
        }
    };
    assert forall|a: int, b: int|
        0 <= a < post.cancelled@.len() && 0 <= b < post.cancelled@.len() && a
        != b implies post.cancelled@[a] != post.cancelled@[b] by {
        if a < pre.cancelled@.len() && b < pre.cancelled@.len() {
            assert(pre.cancelled@[a] != pre.cancelled@[b]);
        } else if a < pre.cancelled@.len() {
            assert(pre.cancelled@.contains(pre.cancelled@[a]));
        } else if b < pre.cancelled@.len() {
            assert(pre.cancelled@.contains(pre.cancelled@[b]));
        }
    };
    assert forall|i: int, j: int|
        0 <= i < post.pending@.len() && 0 <= j < post.cancelled@.len() implies
        #[trigger] post.pending@[i] != #[trigger] post.cancelled@[j] by {
        assert(post.pending@.contains(post.pending@[i]));
        let i0 = choose|i0: int|
            0 <= i0 < pre.pending@.len() && pre.pending@[i0] == post.pending@[i];
        if j < pre.cancelled@.len() {
            assert(pre.pending@[i0] != pre.cancelled@[j]);
        }
    };
}

/// Cancelling an unknown tag leaves a well-formed broker well-formed.
proof fn lemma_cancel_wf_unfound(pre: Broker, post: Broker, tag: u32)
    requires
        pre.wf(),
        post.pending@.no_duplicates(),
        forall|t: u32| #[trigger] post.pending@.contains(t) ==> pre.pending@.contains(t),
        post.pending@ == pre.pending@.remove_value(tag),
        post.cancelled@ == pre.cancelled@,
        post.next_tag == pre.next_tag,
        post.queue@ == pre.queue@,
        post.capacity == pre.capacity,
    ensures
        post.wf(),
{
    assert forall|i: int| 0 <= i < post.pending@.len() implies #[trigger] post.pending@[i]
        < INVALID_INDEX by {
        assert(post.pending@.contains(post.pending@[i]));
        let j = choose|j: int| 0 <= j < pre.pending@.len() && pre.pending@[j] == post.pending@[i];
        assert(pre.pending@[j] < INVALID_INDEX);
    };
    assert forall|i: int, j: int|
        0 <= i < post.pending@.len() && 0 <= j < post.cancelled@.len() implies
        #[trigger] post.pending@[i] != #[trigger] post.cancelled@[j] by {
        assert(post.pending@.contains(post.pending@[i]));
        let i0 = choose|i0: int|
            0 <= i0 < pre.pending@.len() && pre.pending@[i0] == post.pending@[i];
        assert(pre.pending@[i0] != pre.cancelled@[j]);
    };
}

/// The broker's protocol state. `pending` holds the tag of every in-flight
/// request; `cancelled` the tag of every request whose caller gave up before
/// the reply came; `queue` the outbound frames not yet written, front first.
pub struct Broker {
    /// Why the broker shut down; `None` while it is ready.
    pub closed: Option<CloseCause>,
    /// Where the tag allocator probes next.
    pub next_tag: u32,
    /// The tags of the in-flight requests, in registration order.
    pub pending: Vec<u32>,
    /// The tags whose request was cancelled before its reply arrived.
    pub cancelled: Vec<u32>,
    /// The outbound frames not yet written, front first.
    pub queue: Vec<Frame>,
    /// How many frames the queue accepts before refusing more.
    pub capacity: usize,
}

impl Broker {
    /// The broker's invariant: the allocator stays below the reserved tag,
    /// no tag is tracked twice, and the queue respects its bound.
    pub open spec fn wf(self) -> bool {
        &&& self.next_tag < INVALID_INDEX
        &&& self.pending@.no_duplicates()
        &&& self.cancelled@.no_duplicates()
        &&& forall|i: int| 0 <= i < self.pending@.len() ==> #[trigger] self.pending@[i]
            < INVALID_INDEX
        &&& forall|i: int| 0 <= i < self.cancelled@.len() ==> #[trigger] self.cancelled@[i]
            < INVALID_INDEX
        &&& forall|i: int, j: int|
            0 <= i < self.pending@.len() && 0 <= j < self.cancelled@.len()
                ==> #[trigger] self.pending@[i] != #[trigger] self.cancelled@[j]
        &&& self.queue@.len() <= self.capacity
    }

    /// A fresh, ready broker with an empty table and queue.
    pub fn new(capacity: usize) -> (b: Broker)
        ensures
            b.wf(),
            b.closed is None,
            b.next_tag == 0,
            b.pending@ == Seq::<u32>::empty(),
            b.cancelled@ == Seq::<u32>::empty(),
            b.queue@ == Seq::<Frame>::empty(),
            b.capacity == capacity,
    {
        Broker {
            closed: None,
            next_tag: 0,
            pending: Vec::new(),
            cancelled: Vec::new(),
            queue: Vec::new(),
            capacity,
        }
    }

    /// Draws a fresh request tag: never the reserved value, never a tag with
    /// a pending request, and never a cancelled tag whose late reply may
    /// still arrive. Fails only when those tags exhaust the space.
    pub fn allocate_tag(&mut self) -> (r: Result<u32, Error>)
        requires
            old(self).wf(),
        ensures
            final(self).wf(),
            final(self).closed == old(self).closed,
            final(self).pending@ == old(self).pending@,
            final(self).cancelled@ == old(self).cancelled@,
            final(self).queue@ == old(self).queue@,
            final(self).capacity == old(self).capacity,
            r matches Ok(t) ==> t < INVALID_INDEX && !old(self).pending@.contains(t) && !old(self).cancelled@.contains(t),
            r is Err <==> old(self).pending@.len() + old(self).cancelled@.len()
                >= INVALID_INDEX as int,
            r matches Err(e) ==> e == Error::TagSpaceExhausted && final(self).next_tag == old(self).next_tag,
    {
        broadcast use vstd::seq_lib::seq_to_set_is_finite;

        let np = self.pending.len();
        let nc = self.cancelled.len();
        if np >= INVALID_INDEX as usize {
            return Err(Error::TagSpaceExhausted);
        }
        if nc >= (INVALID_INDEX as usize) - np {
            return Err(Error::TagSpaceExhausted);
        }
        let n = np + nc;
        let seed = self.next_tag;
        let mut i: usize = 0;
        while i <= n
            invariant
                *self == *old(self),
                i <= n + 1,
                np == self.pending@.len(),
                nc == self.cancelled@.len(),
                n == np + nc,
                n < INVALID_INDEX as int,
                seed == self.next_tag,
                self.wf(),
                forall|j: int|
                    0 <= j < i ==> self.pending@.contains(#[trigger] tag_candidate(seed, j))
                        || self.cancelled@.contains(tag_candidate(seed, j)),
            decreases n + 1 - i,
        {
            let t = (((seed as u64) + (i as u64)) % (INVALID_INDEX as u64)) as u32;
            proof {
                assert(t == tag_candidate(seed, i as int));
            }
            if !has_tag(&self.pending, t) && !has_tag(&self.cancelled, t) {
                self.next_tag = if t >= INVALID_INDEX - 1 {
                    0
                } else {
                    t + 1
                };
                proof {
                    assert(0 <= (seed as int + i as int) % (INVALID_INDEX as int)
                        < INVALID_INDEX as int) by (nonlinear_arith);
                }
                return Ok(t);
            }
            i += 1;
        }
        proof {
            let cands = Seq::new((n + 1) as nat, |j: int| tag_candidate(seed, j));
            assert(cands.no_duplicates()) by {
                assert forall|a: int, b: int|
                    0 <= a < cands.len() && 0 <= b < cands.len() && a != b implies cands[a]
                    != cands[b] by {
                    if a < b {
                        lemma_tag_candidate_distinct(seed, a, b);
                    } else {
                        lemma_tag_candidate_distinct(seed, b, a);
                    }
                };
            }
            cands.unique_seq_to_set();
            self.pending@.unique_seq_to_set();
            self.cancelled@.unique_seq_to_set();
            let taken = self.pending@.to_set().union(self.cancelled@.to_set());
            assert(cands.to_set().subset_of(taken)) by {
                assert forall|t: u32| #[trigger] cands.to_set().contains(t) implies taken.contains(
                    t,
                ) by {
                    let j = choose|j: int| 0 <= j < cands.len() && cands[j] == t;
                    assert(self.pending@.contains(tag_candidate(seed, j))
                        || self.cancelled@.contains(tag_candidate(seed, j)));
                };
            }
            vstd::set_lib::lemma_len_union(self.pending@.to_set(), self.cancelled@.to_set());
            vstd::set_lib::lemma_len_subset(cands.to_set(), taken);
            assert(false);
        }
        Err(Error::TagSpaceExhausted)
    }

    /// Hands a pre-built frame to the writer: it is appended to the outbound
    /// queue. Refused with `QueueFull` when the queue is at capacity and
    /// with `ConnectionClosed` after shutdown; then nothing changes.
    pub fn send_frame(&mut self, frame: Frame) -> (r: Result<(), Error>)
        requires
            old(self).wf(),
        ensures
            final(self).wf(),
            old(self).closed matches Some(c) ==> r == Err::<(), Error>(Error::ConnectionClosed(c))
                && *final(self) == *old(self),
            old(self).closed is None && old(self).queue@.len() < old(self).capacity ==> (r
                matches Ok(()) && final(self).queue@ == old(self).queue@.push(frame)),
            old(self).closed is None && old(self).queue@.len() >= old(self).capacity ==> r
                == Err::<(), Error>(Error::QueueFull) && final(self).queue@ == old(self).queue@,
            final(self).closed == old(self).closed,
            final(self).next_tag == old(self).next_tag,
            final(self).pending@ == old(self).pending@,
            final(self).cancelled@ == old(self).cancelled@,
            final(self).capacity == old(self).capacity,
    {
        match self.closed {
            Some(c) => Err(Error::ConnectionClosed(c)),
            None => {
                if self.queue.len() >= self.capacity {
                    return Err(Error::QueueFull);
                }
                self.queue.push(frame);
                Ok(())
            },
        }
    }

    /// The writer's step: the frame at the front of the outbound queue, in
    /// enqueue order, or nothing when the queue is idle.
    pub fn dequeue_frame(&mut self) -> (r: Option<Frame>)
        requires
            old(self).wf(),
        ensures
            final(self).wf(),
            old(self).queue@.len() == 0 ==> r is None && *final(self) == *old(self),
            old(self).queue@.len() > 0 ==> (r matches Some(f) && f == old(self).queue@[0]
                && final(self).queue@ == old(self).queue@.drop_first()),
            final(self).closed == old(self).closed,
            final(self).next_tag == old(self).next_tag,
            final(self).pending@ == old(self).pending@,
            final(self).cancelled@ == old(self).cancelled@,
            final(self).capacity == old(self).capacity,
    {
        if self.queue.len() == 0 {
            return None;
        }
        let f = self.queue.remove(0);
        proof {
            assert(self.queue@ =~= old(self).queue@.drop_first());
        }
        Some(f)
    }

    /// Forgets a pending request whose caller gave up: the reply slot is
    /// gone, and a reply that still arrives for the tag will be dropped
    /// rather than treated as a protocol error.
    pub fn cancel(&mut self, tag: u32)
        requires
            old(self).wf(),
        ensures
            final(self).wf(),
            final(self).pending@ == old(self).pending@.remove_value(tag),
            !final(self).pending@.contains(tag),
            old(self).pending@.contains(tag) ==> final(self).cancelled@ == old(self).cancelled@.push(tag),
            !old(self).pending@.contains(tag) ==> final(self).cancelled@ == old(self).cancelled@,
            final(self).closed == old(self).closed,
            final(self).next_tag == old(self).next_tag,
            final(self).queue@ == old(self).queue@,
            final(self).capacity == old(self).capacity,
    {
        let ghost pre = *self;
        if take_tag(&mut self.pending, tag) {
            proof {
                assert(tag < INVALID_INDEX) by {
                    let j = choose|j: int|
                        0 <= j < pre.pending@.len() && pre.pending@[j] == tag;
                    assert(pre.pending@[j] < INVALID_INDEX);
                }
                assert(!pre.cancelled@.contains(tag)) by {
                    if pre.cancelled@.contains(tag) {
                        let j = choose|j: int|
                            0 <= j < pre.cancelled@.len() && pre.cancelled@[j] == tag;
                        let i = choose|i: int|
                            0 <= i < pre.pending@.len() && pre.pending@[i] == tag;
                        assert(pre.pending@[i] != pre.cancelled@[j]);
                    }
                }
            }
            self.cancelled.push(tag);
            proof {
                lemma_cancel_wf(pre, *self, tag);
            }
        } else {
            proof {
                lemma_cancel_wf_unfound(pre, *self, tag);
            }
        }
    }

    /// Shuts the broker down: the pending table is drained and returned so
    /// that the runtime completes every slot, exactly once each, with
    /// `ConnectionClosed { cause }`; later calls fail with the same cause.
    /// A broker already closed keeps its original cause; it is single-use.
    pub fn shutdown(&mut self, cause: CloseCause) -> (drained: Vec<u32>)
        requires
            old(self).wf(),
        ensures
            final(self).wf(),
            drained@ == old(self).pending@,
            drained@.no_duplicates(),
            final(self).pending@ == Seq::<u32>::empty(),
            final(self).cancelled@ == Seq::<u32>::empty(),
            final(self).queue@ == Seq::<Frame>::empty(),
            old(self).closed is None ==> final(self).closed == Some(cause),
            old(self).closed matches Some(c) ==> final(self).closed == Some(c),
            final(self).next_tag == old(self).next_tag,
            final(self).capacity == old(self).capacity,
    {
        if self.closed.is_none() {
            self.closed = Some(cause);
        }
        let mut drained: Vec<u32> = Vec::new();
        core::mem::swap(&mut drained, &mut self.pending);
        self.cancelled.clear();
        self.queue.clear();
        drained
    }
}

/// Splitting a command payload's values into header and body.
proof fn lemma_header_split(kc: u32, tag: u32, rest: Seq<ValueModel>)
    ensures
        values_wf(seq![ValueModel::U32(kc), ValueModel::U32(tag)] + rest) == values_wf(rest),
        norm_values(seq![ValueModel::U32(kc), ValueModel::U32(tag)] + rest) == seq![
            ValueModel::U32(kc),
            ValueModel::U32(tag),
        ] + norm_values(rest),
        (seq![ValueModel::U32(kc), ValueModel::U32(tag)] + rest).skip(2) == rest,
        (seq![ValueModel::U32(kc), ValueModel::U32(tag)] + rest).len() == 2 + rest.len(),
{
    let hdr = seq![ValueModel::U32(kc), ValueModel::U32(tag)];
    assert((hdr + rest).skip(2) =~= rest);
    assert(norm_values(hdr + rest) =~= hdr + norm_values(rest)) by {
        assert forall|i: int| 0 <= i < (hdr + rest).len() implies #[trigger] norm_values(
            hdr + rest,
        )[i] == (hdr + norm_values(rest))[i] by {
            if i >= 2 {
                assert((hdr + rest)[i] == rest[i - 2]);
                assert(norm_values(rest)[i - 2] == crate::tag_struct::value_norm(rest[i - 2]));
            }
        };
    }
    if values_wf(rest) {
        assert forall|i: int| 0 <= i < (hdr + rest).len() implies crate::tag_struct::value_wf(
            #[trigger] (hdr + rest)[i],
        ) by {
            if i >= 2 {
                assert((hdr + rest)[i] == rest[i - 2]);
            }
        };
    }
    if values_wf(hdr + rest) {
        assert forall|i: int| 0 <= i < rest.len() implies crate::tag_struct::value_wf(
            #[trigger] rest[i],
        ) by {
            assert((hdr + rest)[i + 2] == rest[i]);
        };
    }
}

/// Registering a fresh tag keeps the broker well-formed.
proof fn lemma_register_wf(pre: Broker, post: Broker, tag: u32)
    requires
        pre.wf(),
        tag < INVALID_INDEX,
        !pre.pending@.contains(tag),
        !pre.cancelled@.contains(tag),
        post.pending@ == pre.pending@.push(tag),
        post.cancelled@ == pre.cancelled@,
        post.next_tag < INVALID_INDEX,
        post.queue@.len() <= post.capacity,
    ensures
        post.wf(),
{
    assert forall|a: int, b: int|
        0 <= a < post.pending@.len() && 0 <= b < post.pending@.len() && a
        != b implies post.pending@[a] != post.pending@[b] by {
        if a < pre.pending@.len() && b < pre.pending@.len() {
            assert(pre.pending@[a] != pre.pending@[b]);
        } else if a < pre.pending@.len() {
            assert(pre.pending@.contains(pre.pending@[a]));
        } else if b < pre.pending@.len() {
            assert(pre.pending@.contains(pre.pending@[b]));
        }
    };
    assert forall|i: int| 0 <= i < post.pending@.len() implies #[trigger] post.pending@[i]
        < INVALID_INDEX by {
        if i < pre.pending@.len() {
            assert(pre.pending@[i] < INVALID_INDEX);
        }
    };
    assert forall|i: int, j: int|
        0 <= i < post.pending@.len() && 0 <= j < post.cancelled@.len() implies
        #[trigger] post.pending@[i] != #[trigger] post.cancelled@[j] by {
        if i < pre.pending@.len() {
            assert(pre.pending@[i] != pre.cancelled@[j]);
        } else {
            assert(pre.cancelled@.contains(pre.cancelled@[j]));
        }
    };
}

/// Removing a cancelled tag keeps the broker well-formed.
proof fn lemma_remove_cancelled_wf(pre: Broker, post: Broker, tag: u32)
    requires
        pre.wf(),
        post.cancelled@.no_duplicates(),
        forall|t: u32| #[trigger] post.cancelled@.contains(t) ==> pre.cancelled@.contains(t),
        post.pending@ == pre.pending@,
        post.next_tag == pre.next_tag,
        post.queue@ == pre.queue@,
        post.capacity == pre.capacity,
    ensures
        post.wf(),
{
    assert forall|i: int| 0 <= i < post.cancelled@.len() implies #[trigger] post.cancelled@[i]
        < INVALID_INDEX by {
        assert(post.cancelled@.contains(post.cancelled@[i]));
        let j = choose|j: int|
            0 <= j < pre.cancelled@.len() && pre.cancelled@[j] == post.cancelled@[i];
        assert(pre.cancelled@[j] < INVALID_INDEX);
    };
    assert forall|i: int, j: int|
        0 <= i < post.pending@.len() && 0 <= j < post.cancelled@.len() implies
        #[trigger] post.pending@[i] != #[trigger] post.cancelled@[j] by {
        assert(post.cancelled@.contains(post.cancelled@[j]));
        let j0 = choose|j0: int|
            0 <= j0 < pre.cancelled@.len() && pre.cancelled@[j0] == post.cancelled@[j];
        assert(pre.pending@[i] != pre.cancelled@[j0]);
    };
}

/// What `on_frame` must decide for a command frame carrying the given
/// header and body, given the broker's state when the frame arrived.
pub open spec fn dispatch_spec(
    pre: Broker,
    kind: CommandKind,
    tag: u32,
    rest: Seq<ValueModel>,
    r: Result<Dispatch, Error>,
) -> bool {
    if kind == CommandKind::Reply {
        if pre.pending@.contains(tag) {
            r matches Ok(d) && d matches Dispatch::Reply { tag: t, payload } && t == tag
                && payload@ == rest
        } else if pre.cancelled@.contains(tag) {
            r matches Ok(d) && d matches Dispatch::LateReply { tag: t } && t == tag
        } else {
            r == Err::<Dispatch, Error>(Error::UnknownTag)
        }
    } else if kind == CommandKind::Error {
        if rest.len() >= 1 && rest[0] is U32 && ErrorKind::from_code(rest[0]->U32_0) is Some {
            if pre.pending@.contains(tag) {
                r matches Ok(d) && d matches Dispatch::ServerError { tag: t, kind: k } && t == tag
                    && k == ErrorKind::from_code(rest[0]->U32_0)->Some_0
            } else if pre.cancelled@.contains(tag) {
                r matches Ok(d) && d matches Dispatch::LateReply { tag: t } && t == tag
            } else {
                r == Err::<Dispatch, Error>(Error::UnknownTag)
            }
        } else {
            r == Err::<Dispatch, Error>(Error::Decode)
        }
    } else if kind.is_server_event_spec() {
        r matches Ok(d) && d matches Dispatch::Event { kind: k, tag: t, payload } && k == kind && t
            == tag && payload@ == rest
    } else {
        r == Err::<Dispatch, Error>(Error::UnknownCommand)
    }
}

impl Broker {
    /// Submits a typed command: allocates a fresh tag, registers its reply
    /// slot, builds a command frame around the header and body, and
    /// enqueues it; when the queue is full the registration is rolled back
    /// whole. Returns the tag whose reply the caller awaits.
    #[verifier::rlimit(50)]
    pub fn send_command(&mut self, kind: CommandKind, body: TagStruct) -> (r: Result<u32, Error>)
        requires
            old(self).wf(),
        ensures
            final(self).wf(),
            final(self).closed == old(self).closed,
            final(self).capacity == old(self).capacity,
            final(self).cancelled@ == old(self).cancelled@,
            old(self).closed matches Some(c) ==> r == Err::<u32, Error>(Error::ConnectionClosed(c))
                && *final(self) == *old(self),
            r == Err::<u32, Error>(Error::TagSpaceExhausted) <==> old(self).closed is None && old(self).pending@.len() + old(self).cancelled@.len() >= INVALID_INDEX as int,
            r == Err::<u32, Error>(Error::TagSpaceExhausted) ==> final(self).pending@ == old(
                self).pending@ && final(self).queue@ == old(self).queue@ && final(self).next_tag
                == old(self).next_tag,
            r == Err::<u32, Error>(Error::PayloadTooLarge) <==> old(self).closed is None && old(self).pending@.len() + old(self).cancelled@.len() < INVALID_INDEX as int && !(forall|
                i: int,
            |
                0 <= i < body@.len() ==> crate::tag_struct::value_encodable(#[trigger] body@[i])),
            r == Err::<u32, Error>(Error::PayloadTooLarge) ==> final(self).pending@ == old(self).pending@ && final(self).queue@ == old(self).queue@,
            r == Err::<u32, Error>(Error::QueueFull) ==> final(self).pending@ == old(self).pending@
                && final(self).queue@ == old(self).queue@ && old(self).queue@.len() >= old(self).capacity,
            r matches Ok(t) ==> {
                &&& t < INVALID_INDEX
                &&& !old(self).pending@.contains(t)
                &&& final(self).pending@ == old(self).pending@.push(t)
                &&& old(self).queue@.len() < old(self).capacity
                &&& final(self).queue@.len() == old(self).queue@.len() + 1
                &&& final(self).queue@.subrange(0, old(self).queue@.len() as int) == old(self).queue@
                &&& final(self).queue@.last()@ == (crate::frame::FrameModel {
                    channel: COMMAND_CHANNEL,
                    offset_hi: 0,
                    offset_low: 0,
                    flags: 0,
                    data: command_payload(kind, t, body@),
                })
            },
            old(self).closed is None && old(self).pending@.len() + old(self).cancelled@.len()
                < INVALID_INDEX as int && (forall|i: int|
                0 <= i < body@.len() ==> crate::tag_struct::value_encodable(#[trigger] body@[i]))
                && old(self).queue@.len() < old(self).capacity ==> r is Ok,
            r matches Err(e) ==> (e matches Error::ConnectionClosed(_) || e
                == Error::TagSpaceExhausted || e == Error::PayloadTooLarge || e
                == Error::QueueFull),
    {
        match self.closed {
            Some(c) => {
                return Err(Error::ConnectionClosed(c));
            },
            None => {},
        }
        let tag = match self.allocate_tag() {
            Ok(t) => t,
            Err(e) => {
                return Err(e);
            },
        };
        let ghost body_model = body@;
        let mut packet = TagStruct::new();
        packet.put_u32(kind.to_u32());
        packet.put_u32(tag);
        packet.append(body);
        proof {
            assert(packet@ =~= seq![
                ValueModel::U32(kind.code()),
                ValueModel::U32(tag),
            ] + body_model);
        }
        let frame = match crate::frame::Frame::command(&packet) {
            Ok(f) => f,
            Err(e) => {
                proof {
                    lemma_header_split(kind.code(), tag, body_model);
                    assert(!(forall|i: int|
                        0 <= i < body_model.len() ==> crate::tag_struct::value_encodable(
                            #[trigger] body_model[i],
                        ))) by {
                        let j = choose|j: int|
                            0 <= j < packet@.len() && !crate::tag_struct::value_encodable(
                                #[trigger] packet@[j],
                            );
                        assert(packet@[j] == body_model[j - 2]);
                    }
                }
                return Err(e);
            },
        };
        proof {
            assert(forall|i: int|
                0 <= i < body_model.len() ==> crate::tag_struct::value_encodable(
                    #[trigger] body_model[i],
                )) by {
                assert forall|i: int| 0 <= i < body_model.len() implies
                    crate::tag_struct::value_encodable(#[trigger] body_model[i]) by {
                    assert(packet@[i + 2] == body_model[i]);
                };
            }
        }
        let ghost pre_register = *self;
        self.pending.push(tag);
        if self.queue.len() >= self.capacity {
            let _ = self.pending.pop();
            proof {
                assert(self.pending@ =~= pre_register.pending@);
            }
            return Err(Error::QueueFull);
        }
        self.queue.push(frame);
        proof {
            lemma_register_wf(pre_register, *self, tag);
            assert(final(self).queue@.subrange(0, pre_register.queue@.len() as int) =~= pre_register
                .queue@);
        }
        Ok(tag)
    }

    /// Dispatches one inbound frame. A non-command frame is stream data. A
    /// command frame is decoded; a `Reply` or `Error` kind resolves the
    /// pending request its tag names, removing it from the table, while a
    /// server-sent event kind is handed to the event path. A tag the client
    /// never issued, an unknown command kind, and an undecodable payload are
    /// fatal: the broker is left untouched and the caller shuts it down.
    #[verifier::rlimit(50)]
    pub fn on_frame(&mut self, frame: Frame) -> (r: Result<Dispatch, Error>)
        requires
            old(self).wf(),
        ensures
            final(self).wf(),
            final(self).closed == old(self).closed,
            final(self).next_tag == old(self).next_tag,
            final(self).queue@ == old(self).queue@,
            final(self).capacity == old(self).capacity,
            r matches Ok(d) ==> ((d is Data) <==> frame@.channel != COMMAND_CHANNEL),
            r matches Ok(d) ==> (d is Data ==> *final(self) == *old(self)),
            r matches Ok(d) ==> (d matches Dispatch::Reply { tag, payload } ==> spec_command_frame(
                frame@,
                CommandKind::Reply,
                tag,
                payload@,
            ) && old(self).pending@.contains(tag) && final(self).pending@ == old(self).pending@.remove_value(tag) && !final(self).pending@.contains(tag) && final(self).cancelled@ == old(self).cancelled@),
            r matches Ok(d) ==> (d matches Dispatch::ServerError { tag, kind } ==> old(self).pending@.contains(tag) && final(self).pending@ == old(self).pending@.remove_value(
                tag,
            ) && !final(self).pending@.contains(tag) && final(self).cancelled@ == old(self).cancelled@),
            r matches Ok(d) ==> (d matches Dispatch::Event { kind, tag, payload }
                ==> spec_command_frame(frame@, kind, tag, payload@) && kind.is_server_event_spec()
                && final(self).pending@ == old(self).pending@ && final(self).cancelled@ == old(self).cancelled@),
            r matches Ok(d) ==> (d matches Dispatch::LateReply { tag } ==> old(self).cancelled@.contains(tag) && final(self).cancelled@ == old(self).cancelled@.remove_value(tag) && final(self).pending@ == old(self).pending@),
            r is Err ==> final(self).pending@ == old(self).pending@ && final(self).cancelled@
                == old(self).cancelled@,
            r matches Err(e) ==> (e == Error::UnknownTag || e == Error::UnknownCommand || e
                matches Error::UnknownValueTag(_) || e == Error::Decode),
            frame@.channel == COMMAND_CHANNEL ==> (forall|
                kind: CommandKind,
                tag: u32,
                rest: Seq<ValueModel>,
            |
                #[trigger] spec_command_frame(frame@, kind, tag, rest) ==> dispatch_spec(
                    *old(self),
                    kind,
                    tag,
                    rest,
                    r,
                )),
    {
        if !frame.is_command_frame() {
            return Ok(Dispatch::Data);
        }
        let ghost data = frame@.data;
        proof {
            assert forall|kind: CommandKind, tag: u32, rest: Seq<ValueModel>|
                #[trigger] spec_command_frame(frame@, kind, tag, rest) implies values_wf(
                seq![ValueModel::U32(kind.code()), ValueModel::U32(tag)] + rest,
            ) && norm_values(seq![ValueModel::U32(kind.code()), ValueModel::U32(tag)] + rest)
                == seq![ValueModel::U32(kind.code()), ValueModel::U32(tag)] + rest by {
                lemma_header_split(kind.code(), tag, rest);
            };
        }
        let mut ts = match crate::tag_struct::TagStruct::parse(crate::buf::buf_as_slice(
            &frame.data,
        )) {
            Ok(t) => t,
            Err(e) => {
                proof {
                    assert forall|kind: CommandKind, tag: u32, rest: Seq<ValueModel>|
                        #[trigger] spec_command_frame(frame@, kind, tag, rest) implies false by {
                        lemma_header_split(kind.code(), tag, rest);
                    };
                }
                return Err(e);
            },
        };
        let ghost ts0 = ts@;
        let kc = match ts.pop_u32() {
            Ok(c) => c,
            Err(_) => {
                proof {
                    assert forall|kind: CommandKind, tag: u32, rest: Seq<ValueModel>|
                        #[trigger] spec_command_frame(frame@, kind, tag, rest) implies false by {
                        lemma_header_split(kind.code(), tag, rest);
                    };
                }
                return Err(Error::Decode);
            },
        };
        let kind0 = match crate::command::CommandKind::from_u32(kc) {
            Some(k) => k,
            None => {
                proof {
                    assert forall|kind: CommandKind, tag: u32, rest: Seq<ValueModel>|
                        #[trigger] spec_command_frame(frame@, kind, tag, rest) implies false by {
                        lemma_header_split(kind.code(), tag, rest);
                        kind.lemma_code_round_trip();
                    };
                }
                return Err(Error::UnknownCommand);
            },
        };
        let tag0 = match ts.pop_u32() {
            Ok(t) => t,
            Err(_) => {
                proof {
                    assert forall|kind: CommandKind, tag: u32, rest: Seq<ValueModel>|
                        #[trigger] spec_command_frame(frame@, kind, tag, rest) implies false by {
                        lemma_header_split(kind.code(), tag, rest);
                    };
                }
                return Err(Error::Decode);
            },
        };
        proof {
            assert(ts0[0] == ValueModel::U32(kc) && ts0[1] == ValueModel::U32(tag0) && ts@
                == ts0.skip(2)) by {
                assert(ts0.drop_first().drop_first() =~= ts0.skip(2));
            }
            crate::command::CommandKind::lemma_from_code_round_trip(kc);
            lemma_header_split(kc, tag0, ts@);
            assert(ts0 =~= seq![ValueModel::U32(kc), ValueModel::U32(tag0)] + ts@);
            assert(norm_values(ts@) =~= ts@) by {
                let hdr = seq![ValueModel::U32(kc), ValueModel::U32(tag0)];
                assert forall|i: int| 0 <= i < ts@.len() implies #[trigger] norm_values(ts@)[i]
                    == ts@[i] by {
                    assert((hdr + norm_values(ts@))[i + 2] == norm_values(ts@)[i]);
                    assert(norm_values(ts0)[i + 2] == ts0[i + 2]);
                };
            }
            assert(spec_command_frame(frame@, kind0, tag0, ts@));
            assert forall|kind: CommandKind, tag: u32, rest: Seq<ValueModel>|
                #[trigger] spec_command_frame(frame@, kind, tag, rest) implies kind == kind0 && tag
                == tag0 && rest == ts@ by {
                lemma_header_split(kind.code(), tag, rest);
                let hdr = seq![ValueModel::U32(kind.code()), ValueModel::U32(tag)];
                assert(ts0 == hdr + rest);
                assert(ts0[0] == ValueModel::U32(kind.code()));
                assert(ts0[1] == ValueModel::U32(tag));
                kind.lemma_code_round_trip();
                assert((hdr + rest).skip(2) == rest);
            };
        }
        let ghost pre = *old(self);
        if kind0.is_reply() {
            if take_tag(&mut self.pending, tag0) {
                proof {
                    lemma_cancel_wf_unfound(pre, *self, tag0);
                }
                Ok(Dispatch::Reply { tag: tag0, payload: ts })
            } else if take_tag(&mut self.cancelled, tag0) {
                proof {
                    lemma_remove_cancelled_wf(pre, *self, tag0);
                }
                Ok(Dispatch::LateReply { tag: tag0 })
            } else {
                Err(Error::UnknownTag)
            }
        } else if kind0.is_error() {
            let code = match ts.pop_u32() {
                Ok(c) => c,
                Err(_) => {
                    return Err(Error::Decode);
                },
            };
            let err_kind = match crate::error::ErrorKind::from_u32(code) {
                Some(k) => k,
                None => {
                    return Err(Error::Decode);
                },
            };
            proof {
                crate::error::ErrorKind::lemma_from_code_round_trip(code);
            }
            if take_tag(&mut self.pending, tag0) {
                proof {
                    lemma_cancel_wf_unfound(pre, *self, tag0);
                }
                Ok(Dispatch::ServerError { tag: tag0, kind: err_kind })
            } else if take_tag(&mut self.cancelled, tag0) {
                proof {
                    lemma_remove_cancelled_wf(pre, *self, tag0);
                }
                Ok(Dispatch::LateReply { tag: tag0 })
            } else {
                Err(Error::UnknownTag)
            }
        } else if kind0.is_server_event() {
            proof {
                assert forall|kind: CommandKind, tag: u32, rest: Seq<ValueModel>|
                    #[trigger] spec_command_frame(frame@, kind, tag, rest) implies spec_command_frame(
                    frame@,
                    kind0,
                    tag0,
                    ts@,
                ) by {};
            }
            Ok(Dispatch::Event { kind: kind0, tag: tag0, payload: ts })
        } else {
            Err(Error::UnknownCommand)
        }
    }
}

/// How long the outbound queue is after a number of send attempts against
/// an initially empty queue: each attempt below capacity is accepted.
pub open spec fn queue_len_after(capacity: nat, attempts: nat) -> nat
    decreases attempts,
{
    if attempts == 0 {
        0
    } else {
        let l = queue_len_after(capacity, (attempts - 1) as nat);
        if l < capacity {
            l + 1
        } else {
            l
        }
    }
}

/// Law: however many frames are offered to an empty queue of capacity `n`,
/// the first `n` attempts are accepted and every later attempt is refused.
/// In particular, offering `n + 1` frames yields `n` accepted frames and
/// exactly one refusal, the last.
pub proof fn lemma_queue_fill(capacity: nat, attempts: nat)
    ensures
        queue_len_after(capacity, attempts) == if attempts <= capacity {
            attempts
        } else {
            capacity
        },
    decreases attempts,
{
    if attempts > 0 {
        lemma_queue_fill(capacity, (attempts - 1) as nat);
    }
}

} // verus!
