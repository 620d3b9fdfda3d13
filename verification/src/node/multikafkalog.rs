use crate::node::kafkalog::{distinct_offset_keys, offset_key_present};
use crate::numfmt::{dec_str, fmt_usize};
use crate::payloads::{KafkaLogOrKvPayload, KafkaLogPayload, KvErrorCode, KvPayload};
use crate::table::{AList, TableKey};
use crate::{Body, Message, NodeError};
use vstd::prelude::*;

verus! {

/// The correlation of a request: the node that sent it and its message id
/// there.
#[derive(Debug)]
pub struct NodeMsgId {
    pub node_id: String,
    pub msg_id: usize,
}

impl NodeMsgId {
    pub fn new(node_id: String, msg_id: usize) -> (r: Self)
        ensures
            r.node_id == node_id,
            r.msg_id == msg_id,
    {
        NodeMsgId { node_id, msg_id }
    }

    /// A copy standing for the same correlation.
    pub fn duplicate(&self) -> (r: Self)
        ensures
            r.node_id@ == self.node_id@,
            r.msg_id == self.msg_id,
    {
        NodeMsgId { node_id: self.node_id.clone(), msg_id: self.msg_id }
    }
}

impl TableKey for NodeMsgId {
    type Abs = (Seq<char>, int);

    open spec fn abs(&self) -> (Seq<char>, int) {
        (self.node_id@, self.msg_id as int)
    }

    fn key_eq(&self, other: &Self) -> (r: bool) {
        self.msg_id == other.msg_id && self.node_id == other.node_id
    }
}

/// The process-wide message id allocator, with its side table from an
/// outgoing KV message id to the log key it serves.
#[derive(Debug)]
pub struct MsgGenerator {
    pub free_msg_id: usize,
    pub log_key_by_msg_id: AList<usize, String>,
}

impl MsgGenerator {
    /// The side table is duplicate-free and only routes ids already handed
    /// out, so a fresh id never collides with a pending route.
    pub open spec fn wf(&self) -> bool {
        &&& self.log_key_by_msg_id.dup_free()
        &&& forall|a: int|
            #[trigger] self.log_key_by_msg_id.has_key(a) ==> 0 <= a < self.free_msg_id
    }

    pub fn new() -> (r: Self)
        ensures
            r.wf(),
            r.free_msg_id == 0,
            r.log_key_by_msg_id@.len() == 0,
    {
        MsgGenerator { free_msg_id: 0, log_key_by_msg_id: AList::new() }
    }

    /// Hand out a fresh outgoing message id.
    pub fn generate_msg_id(&mut self) -> (r: usize)
        requires
            old(self).wf(),
            old(self).free_msg_id < usize::MAX,
        ensures
            final(self).wf(),
            r == old(self).free_msg_id,
            final(self).free_msg_id == old(self).free_msg_id + 1,
            final(self).log_key_by_msg_id == old(self).log_key_by_msg_id,
    {
        let r = self.free_msg_id;
        self.free_msg_id = self.free_msg_id + 1;
        r
    }

    /// Hand out a fresh outgoing message id and route it to `log_key`, so
    /// that the reply can find its log.
    pub fn generate_log_msg_id(&mut self, log_key: String) -> (r: usize)
        requires
            old(self).wf(),
            old(self).free_msg_id < usize::MAX,
        ensures
            final(self).wf(),
            r == old(self).free_msg_id,
            final(self).free_msg_id == old(self).free_msg_id + 1,
            final(self).log_key_by_msg_id.has_key(r as int),
            final(self).log_key_by_msg_id.val_of(r as int) == log_key,
            !old(self).log_key_by_msg_id.has_key(r as int),
            forall|a: int|
                a != r ==> (#[trigger] final(self).log_key_by_msg_id.has_key(a)) == old(self).log_key_by_msg_id.has_key(a),
            forall|a: int|
                a != r && old(self).log_key_by_msg_id.has_key(a) ==> (#[trigger] final(self).log_key_by_msg_id.val_of(a)) == old(self).log_key_by_msg_id.val_of(a),
    {
        let r = self.free_msg_id;
        self.free_msg_id = self.free_msg_id + 1;
        self.log_key_by_msg_id.insert(r, log_key);
        r
    }

    /// Take the log key routed for `msg_id`, if any.
    pub fn consume_log_key(&mut self, msg_id: usize) -> (r: Option<String>)
        requires
            old(self).wf(),
        ensures
            final(self).wf(),
            final(self).free_msg_id == old(self).free_msg_id,
            old(self).log_key_by_msg_id.has_key(msg_id as int) ==> (r matches Some(k) && k == old(self).log_key_by_msg_id.val_of(msg_id as int)),
            !old(self).log_key_by_msg_id.has_key(msg_id as int) ==> r is None,
            !final(self).log_key_by_msg_id.has_key(msg_id as int),
            forall|a: int|
                a != msg_id ==> (#[trigger] final(self).log_key_by_msg_id.has_key(a)) == old(self).log_key_by_msg_id.has_key(a),
            forall|a: int|
                a != msg_id && old(self).log_key_by_msg_id.has_key(a) ==> (#[trigger] final(self).log_key_by_msg_id.val_of(a)) == old(self).log_key_by_msg_id.val_of(a),
    {
        self.log_key_by_msg_id.remove(&msg_id)
    }
}

/// A counter plus accumulator combining per-log completions into one reply.
#[derive(Debug)]
pub struct Progress<T> {
    pub tot_log_keys: usize,
    pub progress: Vec<T>,
}

impl<T> Progress<T> {
    pub fn new(tot_log_keys: usize) -> (r: Self)
        ensures
            r.tot_log_keys == tot_log_keys,
            r.progress@.len() == 0,
    {
        Progress { tot_log_keys, progress: Vec::with_capacity(tot_log_keys) }
    }

    /// All awaited logs have reported.
    pub fn is_completed(&self) -> (r: bool)
        ensures
            r == (self.progress@.len() == self.tot_log_keys),
    {
        self.progress.len() == self.tot_log_keys
    }

    /// Record one log's completion.
    pub fn push(&mut self, t: T)
        ensures
            final(self).tot_log_keys == old(self).tot_log_keys,
            final(self).progress@ == old(self).progress@.push(t),
    {
        self.progress.push(t);
    }

    /// Hand the accumulated completions out.
    pub fn into_items(self) -> (r: Vec<T>)
        ensures
            r == self.progress,
    {
        self.progress
    }
}

/// What one outgoing KV request was for, so that its reply can be acted on.
#[derive(Debug)]
pub enum LogMsgSemantics {
    CasSend { send_id: NodeMsgId, msg: usize, offset: usize },
    CasCommitOffset { commit_id: NodeMsgId, offset: usize },
    ReadUpdatedOffset { send_id: NodeMsgId, msg: usize },
    ReadPollMessage { poll_id: NodeMsgId, offset: usize },
    ReadUpdatedCommittedOffset { commit_id: NodeMsgId, offset: Option<usize> },
}

/// What a completed CAS acknowledges.
#[derive(Debug)]
pub enum CasSemantics {
    SendCas { send_id: NodeMsgId, offset: usize },
    CommitCas { commit_id: NodeMsgId, offset: usize },
}

/// What a log engine reports back to the dispatcher after a KV reply.
#[derive(Debug)]
pub enum OperationStatus {
    PollCompleted { poll_id: NodeMsgId, msgs: Vec<(usize, usize)> },
    CommitOffsetCompleted { commit_id: NodeMsgId },
    ListCommitOffsetCompleted { list_committed_offset_id: NodeMsgId, offset: usize },
    InProgress,
}

/// One position of a poll buffer: not answered yet, a stored value, or a
/// position past the end of the log.
#[derive(Debug, Clone, Copy, PartialEq, Eq, Structural)]
pub enum PollSlot {
    Pending,
    Hit(usize, usize),
    Miss,
}

/// The indexed buffer of one outstanding poll.
#[derive(Debug)]
pub struct PollBuf {
    pub start: usize,
    pub slots: Vec<PollSlot>,
}

/// No slot is still awaiting its read reply.
pub open spec fn all_settled(slots: Seq<PollSlot>) -> bool {
    forall|i: int| 0 <= i < slots.len() ==> !((#[trigger] slots[i]) is Pending)
}

/// The entries a settled poll buffer yields: the answered positions from the
/// front of the window, stopping at the first missing one — a missing
/// position marks the end of the log for this poll, so nothing after the gap
/// is reported.
pub open spec fn slot_hits(slots: Seq<PollSlot>) -> Seq<(usize, usize)>
    decreases slots.len(),
{
    if slots.len() == 0 {
        Seq::empty()
    } else {
        match slots.first() {
            PollSlot::Hit(off, v) => seq![(off, v)] + slot_hits(slots.drop_first()),
            _ => Seq::empty(),
        }
    }
}


/// The pair a settled slot yields.
pub open spec fn hit_pair(s: PollSlot) -> (usize, usize) {
    match s {
        PollSlot::Hit(o, v) => (o, v),
        _ => (0usize, 0usize),
    }
}

/// A poll window yields its entries in strictly increasing, consecutive
/// offset order starting at the window's base, and when the window's first
/// position was answered with a value, that entry comes first.  The
/// hypothesis is what `poll` and the slot filling establish: the slot at
/// index `i` only ever records the offset `start + i`.
pub proof fn lemma_poll_window_ordered(slots: Seq<PollSlot>, start: int)
    requires
        forall|i: int|
            0 <= i < slots.len() ==> ((#[trigger] slots[i]) matches PollSlot::Hit(o, _) ==> o
                == start + i),
    ensures
        forall|p: int|
            0 <= p < slot_hits(slots).len() ==> (#[trigger] slot_hits(slots)[p]).0 == start + p,
        forall|p: int, q: int|
            0 <= p < q < slot_hits(slots).len() ==> (#[trigger] slot_hits(slots)[p]).0 < (
            #[trigger] slot_hits(slots)[q]).0,
        (slots.len() > 0 && slots[0] is Hit) ==> (slot_hits(slots).len() > 0 && slot_hits(
            slots,
        )[0] == hit_pair(slots[0])),
{
    lemma_slot_hits_shape(slots);
    assert forall|p: int| 0 <= p < slot_hits(slots).len() implies (
    #[trigger] slot_hits(slots)[p]).0 == start + p by {
        assert(slots[p] is Hit && slot_hits(slots)[p] == hit_pair(slots[p]));
    }
}

/// The key under which a log's next-offset counter lives in `lin-kv`.
pub open spec fn offset_key(key: Seq<char>) -> Seq<char> {
    "offset-"@ + key
}

/// The key under which a log's committed offset lives in `lin-kv`.
pub open spec fn committed_key(key: Seq<char>) -> Seq<char> {
    "committed-offset-"@ + key
}

/// The key under which a log's entry at `off` lives in `seq-kv`.
pub open spec fn entry_key(key: Seq<char>, off: int) -> Seq<char> {
    key + "-"@ + dec_str(off)
}

/// `m` is a `cas` request from `src` to `dst` with the given fields.
pub open spec fn is_kv_cas(
    m: Message<KafkaLogOrKvPayload>,
    src: Seq<char>,
    dst: Seq<char>,
    mid: int,
    key: Seq<char>,
    from: int,
    to: int,
) -> bool {
    &&& m.src@ == src
    &&& m.dst@ == dst
    &&& m.body.msg_id matches Some(x) && x == mid
    &&& m.body.in_reply_to is None
    &&& m.body.payload matches KafkaLogOrKvPayload::Kv(KvPayload::Cas {
        key: k,
        from: f,
        to: t,
        create_if_not_exists: c,
    }) && k@ == key && f == from && t == to && c == true
}

/// `m` is a `read` request from `src` to `dst` for `key`.
pub open spec fn is_kv_read(
    m: Message<KafkaLogOrKvPayload>,
    src: Seq<char>,
    dst: Seq<char>,
    mid: int,
    key: Seq<char>,
) -> bool {
    &&& m.src@ == src
    &&& m.dst@ == dst
    &&& m.body.msg_id matches Some(x) && x == mid
    &&& m.body.in_reply_to is None
    &&& m.body.payload matches KafkaLogOrKvPayload::Kv(KvPayload::Read { key: k }) && k@ == key
}

/// `post` extends `pre` by exactly one envelope.
pub open spec fn appends_one(
    pre: Seq<Message<KafkaLogOrKvPayload>>,
    post: Seq<Message<KafkaLogOrKvPayload>>,
) -> bool {
    post.len() == pre.len() + 1 && forall|i: int| 0 <= i < pre.len() ==> post[i] == pre[i]
}

/// The two pending tables hold the same routes.
pub open spec fn same_sem_table(
    a: AList<usize, LogMsgSemantics>,
    b: AList<usize, LogMsgSemantics>,
) -> bool {
    &&& forall|x: int| (#[trigger] a.has_key(x)) == b.has_key(x)
    &&& forall|x: int| #[trigger] b.has_key(x) ==> a.val_of(x) == b.val_of(x)
}

/// `m` is a `write` request from `src` to `dst` storing `value` at `key`.
pub open spec fn is_kv_write(
    m: Message<KafkaLogOrKvPayload>,
    src: Seq<char>,
    dst: Seq<char>,
    mid: int,
    key: Seq<char>,
    value: int,
) -> bool {
    &&& m.src@ == src
    &&& m.dst@ == dst
    &&& m.body.msg_id matches Some(x) && x == mid
    &&& m.body.in_reply_to is None
    &&& m.body.payload matches KafkaLogOrKvPayload::Kv(KvPayload::Write { key: k, value: v })
        && k@ == key && v == value
}



/// The slots of `buf` after recording `slot` for position `offset`: the
/// matching slot is set if it was still pending, and nothing else moves.
pub open spec fn filled_slots(buf: PollBuf, offset: int, slot: PollSlot) -> Seq<PollSlot> {
    let idx = offset - buf.start;
    if buf.start <= offset < buf.start + buf.slots@.len() && buf.slots@[idx] is Pending {
        buf.slots@.update(idx, slot)
    } else {
        buf.slots@
    }
}

/// Whether every slot of `slots` has been answered.
fn poll_buf_settled(slots: &Vec<PollSlot>) -> (r: bool)
    ensures
        r == all_settled(slots@),
{
    let mut i: usize = 0;
    while i < slots.len()
        invariant
            0 <= i <= slots@.len(),
            forall|j: int| 0 <= j < i ==> !((#[trigger] slots@[j]) is Pending),
        decreases slots@.len() - i,
    {
        match slots[i] {
            PollSlot::Pending => {
                return false;
            },
            _ => {},
        }
        i = i + 1;
    }
    true
}

/// How far the leading run of answered positions reaches.
pub open spec fn hit_prefix_len(slots: Seq<PollSlot>) -> int
    decreases slots.len(),
{
    if slots.len() == 0 {
        0
    } else {
        match slots.first() {
            PollSlot::Hit(..) => 1 + hit_prefix_len(slots.drop_first()),
            _ => 0,
        }
    }
}

/// The window is the leading run of answered positions, pair by pair.
pub proof fn lemma_slot_hits_shape(slots: Seq<PollSlot>)
    ensures
        0 <= hit_prefix_len(slots) <= slots.len(),
        slot_hits(slots).len() == hit_prefix_len(slots),
        forall|i: int|
            0 <= i < hit_prefix_len(slots) ==> (#[trigger] slots[i]) is Hit && slot_hits(slots)[i]
                == hit_pair(slots[i]),
        hit_prefix_len(slots) < slots.len() ==> !(slots[hit_prefix_len(slots)] is Hit),
    decreases slots.len(),
{
    if slots.len() > 0 {
        lemma_slot_hits_shape(slots.drop_first());
        match slots.first() {
            PollSlot::Hit(off, v) => {
                assert(slot_hits(slots) =~= seq![(off, v)] + slot_hits(slots.drop_first()));
                assert forall|i: int| 0 <= i < hit_prefix_len(slots) implies (
                #[trigger] slots[i]) is Hit && slot_hits(slots)[i] == hit_pair(slots[i]) by {
                    if i > 0 {
                        assert(slots.drop_first()[i - 1] == slots[i]);
                        assert(slot_hits(slots)[i] == slot_hits(slots.drop_first())[i - 1]);
                    }
                }
                if hit_prefix_len(slots) < slots.len() {
                    assert(slots[hit_prefix_len(slots)] == slots.drop_first()[hit_prefix_len(
                        slots,
                    ) - 1]);
                }
            },
            _ => {},
        }
    }
}

/// Collect the leading answered entries of `slots`, stopping at the first
/// missing position.
fn collect_hits(slots: &Vec<PollSlot>) -> (r: Vec<(usize, usize)>)
    ensures
        r@ == slot_hits(slots@),
{
    proof {
        lemma_slot_hits_shape(slots@);
    }
    let mut r: Vec<(usize, usize)> = Vec::new();
    let mut i: usize = 0;
    while i < slots.len()
        invariant
            0 <= i <= slots@.len(),
            i <= hit_prefix_len(slots@) <= slots@.len(),
            slot_hits(slots@).len() == hit_prefix_len(slots@),
            forall|q: int|
                0 <= q < hit_prefix_len(slots@) ==> (#[trigger] slots@[q]) is Hit && slot_hits(
                    slots@,
                )[q] == hit_pair(slots@[q]),
            hit_prefix_len(slots@) < slots@.len() ==> !(slots@[hit_prefix_len(slots@)] is Hit),
            r@ =~= slot_hits(slots@).take(i as int),
        decreases slots@.len() - i,
    {
        match slots[i] {
            PollSlot::Hit(off, v) => {
                proof {
                    assert(i < hit_prefix_len(slots@)) by {
                        if i >= hit_prefix_len(slots@) {
                            assert(i == hit_prefix_len(slots@));
                        }
                    }
                }
                r.push((off, v));
                proof {
                    assert(slot_hits(slots@)[i as int] == hit_pair(slots@[i as int]));
                    assert(r@ =~= slot_hits(slots@).take(i + 1));
                }
            },
            _ => {
                proof {
                    assert(i >= hit_prefix_len(slots@));
                    assert(i == hit_prefix_len(slots@));
                    assert(r@ =~= slot_hits(slots@));
                }
                return r;
            },
        }
        i = i + 1;
    }
    proof {
        assert(hit_prefix_len(slots@) == slots@.len());
        assert(r@ =~= slot_hits(slots@));
    }
    r
}


/// What recording one answered position for `poll_id` does: with no open
/// buffer the reply is dropped; otherwise the matching slot is set (only if
/// still pending), and the buffer either stays open or, once every slot is
/// answered, closes and yields its entries.
pub open spec fn poll_fill_post(
    pre: AsyncKafkaLog,
    post: AsyncKafkaLog,
    poll_id: NodeMsgId,
    offset: int,
    slot: PollSlot,
    r: Result<OperationStatus, NodeError>,
) -> bool {
    if !pre.completed_polls.has_key(poll_id.abs()) {
        &&& r matches Ok(OperationStatus::InProgress)
        &&& post.completed_polls == pre.completed_polls
    } else {
        let buf = pre.completed_polls.val_of(poll_id.abs());
        let newslots = filled_slots(buf, offset, slot);
        &&& forall|c: (Seq<char>, int)|
            c != poll_id.abs() && pre.completed_polls.has_key(c) ==> (
            #[trigger] post.completed_polls.val_of(c)) == pre.completed_polls.val_of(c)
        &&& if all_settled(newslots) {
            &&& r matches Ok(OperationStatus::PollCompleted { poll_id: p, msgs }) && p.abs()
                == poll_id.abs() && msgs@ == slot_hits(newslots)
            &&& !post.completed_polls.has_key(poll_id.abs())
            &&& forall|c: (Seq<char>, int)|
                c != poll_id.abs() ==> (#[trigger] post.completed_polls.has_key(c))
                    == pre.completed_polls.has_key(c)
        } else {
            &&& r matches Ok(OperationStatus::InProgress)
            &&& post.completed_polls.has_key(poll_id.abs())
            &&& post.completed_polls.val_of(poll_id.abs()).start == buf.start
            &&& post.completed_polls.val_of(poll_id.abs()).slots@ == newslots
            &&& forall|c: (Seq<char>, int)|
                c != poll_id.abs() ==> (#[trigger] post.completed_polls.has_key(c))
                    == pre.completed_polls.has_key(c)
        }
    }
}

/// One log's engine: its cached offsets and the bookkeeping of every KV
/// exchange in flight for it.
#[derive(Debug)]
pub struct AsyncKafkaLog {
    pub key: String,
    pub node_id: String,
    pub max_poll: usize,
    pub semantics_by_msg_id: AList<usize, LogMsgSemantics>,
    pub local_committed_offset: usize,
    pub local_offset: usize,
    pub completed_polls: AList<NodeMsgId, PollBuf>,
}

impl AsyncKafkaLog {
    /// The tables are duplicate-free, every poll buffer spans one full poll
    /// window, and each answered slot records the offset of its own
    /// position — so a settled window always reads out in offset order.
    pub open spec fn wf(&self) -> bool {
        &&& self.max_poll > 0
        &&& self.semantics_by_msg_id.dup_free()
        &&& self.completed_polls.dup_free()
        &&& forall|c: (Seq<char>, int)| #[trigger]
            self.completed_polls.has_key(c) ==> self.completed_polls.val_of(c).slots@.len()
                == self.max_poll
        &&& forall|c: (Seq<char>, int)| #[trigger]
            self.completed_polls.has_key(c) ==> {
                let buf = self.completed_polls.val_of(c);
                forall|i: int|
                    0 <= i < buf.slots@.len() ==> ((#[trigger] buf.slots@[i])
                        matches PollSlot::Hit(o, _) ==> o == buf.start + i)
            }
    }

    /// `post` keeps `pre`'s identity and tuning.
    pub open spec fn same_statics(pre: Self, post: Self) -> bool {
        &&& post.key@ == pre.key@
        &&& post.node_id@ == pre.node_id@
        &&& post.max_poll == pre.max_poll
    }

    pub fn new(key: String, node_id: String, max_poll: usize) -> (r: Self)
        requires
            max_poll > 0,
        ensures
            r.wf(),
            r.key == key,
            r.node_id == node_id,
            r.max_poll == max_poll,
            r.local_offset == 0,
            r.local_committed_offset == 0,
            r.semantics_by_msg_id@.len() == 0,
            r.completed_polls@.len() == 0,
    {
        AsyncKafkaLog {
            key,
            node_id,
            max_poll,
            semantics_by_msg_id: AList::new(),
            local_committed_offset: 0,
            local_offset: 0,
            completed_polls: AList::new(),
        }
    }

    /// The `lin-kv` key of this log's next-offset counter.
    pub fn log_offset_key(&self) -> (r: String)
        ensures
            r@ == offset_key(self.key@),
    {
        let mut s = String::from_str("offset-");
        s.append(self.key.as_str());
        s
    }

    /// The `lin-kv` key of this log's committed offset.
    pub fn committed_offset_key(&self) -> (r: String)
        ensures
            r@ == committed_key(self.key@),
    {
        let mut s = String::from_str("committed-offset-");
        s.append(self.key.as_str());
        s
    }

    /// The `seq-kv` key of this log's entry at `offset`.
    pub fn msg_offset_key(&self, offset: usize) -> (r: String)
        ensures
            r@ == entry_key(self.key@, offset as int),
    {
        let mut s = self.key.clone();
        s.append("-");
        let digits = fmt_usize(offset);
        s.append(digits.as_str());
        s
    }

    /// Start a `send`: reserve the next offset with a CAS on the offset
    /// counter, and remember why the CAS was issued.
    pub fn send(
        &mut self,
        gen: &mut MsgGenerator,
        send_id: NodeMsgId,
        msg: usize,
        out: &mut Vec<Message<KafkaLogOrKvPayload>>,
    )
        requires
            old(self).wf(),
            old(gen).wf(),
            old(gen).free_msg_id < usize::MAX,
            old(self).local_offset < usize::MAX,
        ensures
            final(self).wf(),
            final(gen).wf(),
            Self::same_statics(*old(self), *final(self)),
            final(self).local_offset == old(self).local_offset,
            final(self).local_committed_offset == old(self).local_committed_offset,
            final(self).completed_polls == old(self).completed_polls,
            final(gen).free_msg_id == old(gen).free_msg_id + 1,
            final(gen).log_key_by_msg_id.has_key(old(gen).free_msg_id as int),
            final(gen).log_key_by_msg_id.val_of(old(gen).free_msg_id as int)@ == old(self).key@,
            forall|a: int|
                a != old(gen).free_msg_id ==> (#[trigger] final(gen).log_key_by_msg_id.has_key(a))
                    == old(gen).log_key_by_msg_id.has_key(a),
            forall|a: int|
                a != old(gen).free_msg_id && old(gen).log_key_by_msg_id.has_key(a) ==> (
                #[trigger] final(gen).log_key_by_msg_id.val_of(a)) == old(gen).log_key_by_msg_id.val_of(a),
            final(self).semantics_by_msg_id.has_key(old(gen).free_msg_id as int),
            final(self).semantics_by_msg_id.val_of(old(gen).free_msg_id as int)
                matches LogMsgSemantics::CasSend { send_id: s, msg: m, offset: o } && s == send_id
                && m == msg && o == old(self).local_offset + 1,
            forall|a: int|
                a != old(gen).free_msg_id ==> (#[trigger] final(self).semantics_by_msg_id.has_key(
                    a,
                )) == old(self).semantics_by_msg_id.has_key(a),
            forall|a: int|
                a != old(gen).free_msg_id && old(self).semantics_by_msg_id.has_key(a) ==> (
                #[trigger] final(self).semantics_by_msg_id.val_of(a)) == old(self).semantics_by_msg_id.val_of(a),
            appends_one(old(out)@, final(out)@),
            is_kv_cas(
                final(out)@.last(),
                old(self).node_id@,
                "lin-kv"@,
                old(gen).free_msg_id as int,
                offset_key(old(self).key@),
                old(self).local_offset as int,
                old(self).local_offset + 1,
            ),
    {
        let cas_msg_id = gen.generate_log_msg_id(self.key.clone());
        let local_offset = self.local_offset;
        self.semantics_by_msg_id.insert(
            cas_msg_id,
            LogMsgSemantics::CasSend { send_id, msg, offset: local_offset + 1 },
        );
        let m = Message {
            src: self.node_id.clone(),
            dst: String::from_str("lin-kv"),
            body: Body {
                msg_id: Some(cas_msg_id),
                in_reply_to: None,
                payload: KafkaLogOrKvPayload::Kv(KvPayload::Cas {
                    key: self.log_offset_key(),
                    from: local_offset,
                    to: local_offset + 1,
                    create_if_not_exists: true,
                }),
            },
        };
        out.push(m);
    }

    /// Act on a successful CAS: a send's CAS stores the value and raises the
    /// local offset; a commit's CAS raises the committed offset.  The cached
    /// offsets never decrease.
    pub fn cas_ok(
        &mut self,
        gen: &mut MsgGenerator,
        cas_msg_id: usize,
        out: &mut Vec<Message<KafkaLogOrKvPayload>>,
    ) -> (r: Result<CasSemantics, NodeError>)
        requires
            old(self).wf(),
            old(gen).wf(),
            old(gen).free_msg_id < usize::MAX,
        ensures
            final(self).wf(),
            final(gen).wf(),
            Self::same_statics(*old(self), *final(self)),
            final(self).completed_polls == old(self).completed_polls,
            final(self).local_offset >= old(self).local_offset,
            final(self).local_committed_offset >= old(self).local_committed_offset,
            !old(self).semantics_by_msg_id.has_key(cas_msg_id as int) ==> (r is Err && *final(self)
                == *old(self) && *final(gen) == *old(gen) && final(out)@ == old(out)@),
            old(self).semantics_by_msg_id.has_key(cas_msg_id as int) ==> match old(self).semantics_by_msg_id.val_of(cas_msg_id as int) {
                LogMsgSemantics::CasSend { send_id, msg, offset } => {
                    &&& r matches Ok(CasSemantics::SendCas { send_id: s, offset: o }) && s == send_id
                        && o == offset
                    &&& final(self).local_offset == if offset > old(self).local_offset {
                        offset as int
                    } else {
                        old(self).local_offset as int
                    }
                    &&& final(self).local_committed_offset == old(self).local_committed_offset
                    &&& !final(self).semantics_by_msg_id.has_key(cas_msg_id as int)
                    &&& forall|a: int|
                        a != cas_msg_id ==> (#[trigger] final(self).semantics_by_msg_id.has_key(a))
                            == old(self).semantics_by_msg_id.has_key(a)
                    &&& forall|a: int|
                        a != cas_msg_id && old(self).semantics_by_msg_id.has_key(a) ==> (
                        #[trigger] final(self).semantics_by_msg_id.val_of(a)) == old(self).semantics_by_msg_id.val_of(a)
                    &&& final(gen).free_msg_id == old(gen).free_msg_id + 1
                    &&& final(gen).log_key_by_msg_id.has_key(old(gen).free_msg_id as int)
                    &&& final(gen).log_key_by_msg_id.val_of(old(gen).free_msg_id as int)@ == old(self).key@
                    &&& forall|a: int|
                        a != old(gen).free_msg_id ==> (#[trigger] final(gen).log_key_by_msg_id.has_key(a))
                            == old(gen).log_key_by_msg_id.has_key(a)
                    &&& forall|a: int|
                        a != old(gen).free_msg_id && old(gen).log_key_by_msg_id.has_key(a) ==> (
                    #[trigger] final(gen).log_key_by_msg_id.val_of(a)) == old(gen).log_key_by_msg_id.val_of(a)
                    &&& appends_one(old(out)@, final(out)@)
                    &&& is_kv_write(
                        final(out)@.last(),
                        old(self).node_id@,
                        "seq-kv"@,
                        old(gen).free_msg_id as int,
                        entry_key(old(self).key@, offset as int),
                        msg as int,
                    )
                },
                LogMsgSemantics::CasCommitOffset { commit_id, offset } => {
                    &&& r matches Ok(CasSemantics::CommitCas { commit_id: c, offset: o }) && c
                        == commit_id && o == offset
                    &&& final(self).local_committed_offset == if offset > old(self).local_committed_offset {
                        offset as int
                    } else {
                        old(self).local_committed_offset as int
                    }
                    &&& final(self).local_offset == old(self).local_offset
                    &&& !final(self).semantics_by_msg_id.has_key(cas_msg_id as int)
                    &&& forall|a: int|
                        a != cas_msg_id ==> (#[trigger] final(self).semantics_by_msg_id.has_key(a))
                            == old(self).semantics_by_msg_id.has_key(a)
                    &&& forall|a: int|
                        a != cas_msg_id && old(self).semantics_by_msg_id.has_key(a) ==> (
                        #[trigger] final(self).semantics_by_msg_id.val_of(a)) == old(self).semantics_by_msg_id.val_of(a)
                    &&& *final(gen) == *old(gen)
                    &&& final(out)@ == old(out)@
                },
                _ => {
                    &&& r is Err
                    &&& same_sem_table(final(self).semantics_by_msg_id, old(self).semantics_by_msg_id)
                    &&& final(self).local_offset == old(self).local_offset
                    &&& final(self).local_committed_offset == old(self).local_committed_offset
                    &&& *final(gen) == *old(gen)
                    &&& final(out)@ == old(out)@
                },
            },
    {
        if !self.semantics_by_msg_id.contains_key(&cas_msg_id) {
            return Err(NodeError::UnexpectedMessage);
        }
        match self.semantics_by_msg_id.remove(&cas_msg_id) {
            None => Err(NodeError::UnexpectedMessage),
            Some(sem) => match sem {
                LogMsgSemantics::CasSend { send_id, msg, offset } => {
                    if offset > self.local_offset {
                        self.local_offset = offset;
                    }
                    let write_msg_id = gen.generate_log_msg_id(self.key.clone());
                    out.push(
                        Message {
                            src: self.node_id.clone(),
                            dst: String::from_str("seq-kv"),
                            body: Body {
                                msg_id: Some(write_msg_id),
                                in_reply_to: None,
                                payload: KafkaLogOrKvPayload::Kv(KvPayload::Write {
                                    key: self.msg_offset_key(offset),
                                    value: msg,
                                }),
                            },
                        },
                    );
                    Ok(CasSemantics::SendCas { send_id, offset })
                },
                LogMsgSemantics::CasCommitOffset { commit_id, offset } => {
                    if offset > self.local_committed_offset {
                        self.local_committed_offset = offset;
                    }
                    Ok(CasSemantics::CommitCas { commit_id, offset })
                },
                other => {
                    self.semantics_by_msg_id.insert(cas_msg_id, other);
                    Err(NodeError::UnexpectedMessage)
                },
            },
        }
    }

    /// Act on a failed CAS (contention): read the authoritative value back
    /// from `lin-kv` and remember that the read serves a retry.
    pub fn cas_error(
        &mut self,
        gen: &mut MsgGenerator,
        cas_msg_id: usize,
        out: &mut Vec<Message<KafkaLogOrKvPayload>>,
    ) -> (r: Result<(), NodeError>)
        requires
            old(self).wf(),
            old(gen).wf(),
            old(gen).free_msg_id < usize::MAX,
            cas_msg_id < old(gen).free_msg_id,
        ensures
            final(self).wf(),
            final(gen).wf(),
            Self::same_statics(*old(self), *final(self)),
            final(self).completed_polls == old(self).completed_polls,
            final(self).local_offset == old(self).local_offset,
            final(self).local_committed_offset == old(self).local_committed_offset,
            !old(self).semantics_by_msg_id.has_key(cas_msg_id as int) ==> (r is Err && *final(self)
                == *old(self) && *final(gen) == *old(gen) && final(out)@ == old(out)@),
            old(self).semantics_by_msg_id.has_key(cas_msg_id as int) ==> match old(self).semantics_by_msg_id.val_of(cas_msg_id as int) {
                LogMsgSemantics::CasSend { send_id, msg, offset } => {
                    &&& r is Ok
                    &&& final(gen).free_msg_id == old(gen).free_msg_id + 1
                    &&& final(gen).log_key_by_msg_id.has_key(old(gen).free_msg_id as int)
                    &&& final(gen).log_key_by_msg_id.val_of(old(gen).free_msg_id as int)@ == old(self).key@
                    &&& forall|a: int|
                        a != old(gen).free_msg_id ==> (#[trigger] final(gen).log_key_by_msg_id.has_key(a))
                            == old(gen).log_key_by_msg_id.has_key(a)
                    &&& forall|a: int|
                        a != old(gen).free_msg_id && old(gen).log_key_by_msg_id.has_key(a) ==> (
                    #[trigger] final(gen).log_key_by_msg_id.val_of(a)) == old(gen).log_key_by_msg_id.val_of(a)
                    &&& !final(self).semantics_by_msg_id.has_key(cas_msg_id as int)
                    &&& final(self).semantics_by_msg_id.has_key(old(gen).free_msg_id as int)
                    &&& final(self).semantics_by_msg_id.val_of(old(gen).free_msg_id as int)
                        matches LogMsgSemantics::ReadUpdatedOffset { send_id: s, msg: m } && s
                        == send_id && m == msg
                    &&& forall|a: int|
                        a != cas_msg_id && a != old(gen).free_msg_id ==> (#[trigger] final(self).semantics_by_msg_id.has_key(a)) == old(self).semantics_by_msg_id.has_key(
                            a,
                        )
                    &&& forall|a: int|
                        a != cas_msg_id && a != old(gen).free_msg_id && old(self).semantics_by_msg_id.has_key(a) ==> (#[trigger] final(self).semantics_by_msg_id.val_of(a)) == old(self).semantics_by_msg_id.val_of(a)
                    &&& appends_one(old(out)@, final(out)@)
                    &&& is_kv_read(
                        final(out)@.last(),
                        old(self).node_id@,
                        "lin-kv"@,
                        old(gen).free_msg_id as int,
                        offset_key(old(self).key@),
                    )
                },
                LogMsgSemantics::CasCommitOffset { commit_id, offset } => {
                    &&& r is Ok
                    &&& final(gen).free_msg_id == old(gen).free_msg_id + 1
                    &&& final(gen).log_key_by_msg_id.has_key(old(gen).free_msg_id as int)
                    &&& final(gen).log_key_by_msg_id.val_of(old(gen).free_msg_id as int)@ == old(self).key@
                    &&& forall|a: int|
                        a != old(gen).free_msg_id ==> (#[trigger] final(gen).log_key_by_msg_id.has_key(a))
                            == old(gen).log_key_by_msg_id.has_key(a)
                    &&& forall|a: int|
                        a != old(gen).free_msg_id && old(gen).log_key_by_msg_id.has_key(a) ==> (
                    #[trigger] final(gen).log_key_by_msg_id.val_of(a)) == old(gen).log_key_by_msg_id.val_of(a)
                    &&& !final(self).semantics_by_msg_id.has_key(cas_msg_id as int)
                    &&& final(self).semantics_by_msg_id.has_key(old(gen).free_msg_id as int)
                    &&& final(self).semantics_by_msg_id.val_of(old(gen).free_msg_id as int)
                        matches LogMsgSemantics::ReadUpdatedCommittedOffset { commit_id: c, offset: o }
                        && c == commit_id && o == Some(offset)
                    &&& forall|a: int|
                        a != cas_msg_id && a != old(gen).free_msg_id ==> (#[trigger] final(self).semantics_by_msg_id.has_key(a)) == old(self).semantics_by_msg_id.has_key(
                            a,
                        )
                    &&& forall|a: int|
                        a != cas_msg_id && a != old(gen).free_msg_id && old(self).semantics_by_msg_id.has_key(a) ==> (#[trigger] final(self).semantics_by_msg_id.val_of(a)) == old(self).semantics_by_msg_id.val_of(a)
                    &&& appends_one(old(out)@, final(out)@)
                    &&& is_kv_read(
                        final(out)@.last(),
                        old(self).node_id@,
                        "lin-kv"@,
                        old(gen).free_msg_id as int,
                        committed_key(old(self).key@),
                    )
                },
                _ => {
                    &&& r is Err
                    &&& same_sem_table(final(self).semantics_by_msg_id, old(self).semantics_by_msg_id)
                    &&& *final(gen) == *old(gen)
                    &&& final(out)@ == old(out)@
                },
            },
    {
        if !self.semantics_by_msg_id.contains_key(&cas_msg_id) {
            return Err(NodeError::UnexpectedMessage);
        }
        match self.semantics_by_msg_id.remove(&cas_msg_id) {
            None => Err(NodeError::UnexpectedMessage),
            Some(sem) => match sem {
                LogMsgSemantics::CasSend { send_id, msg, offset: _offset } => {
                    let read_msg_id = gen.generate_log_msg_id(self.key.clone());
                    out.push(
                        Message {
                            src: self.node_id.clone(),
                            dst: String::from_str("lin-kv"),
                            body: Body {
                                msg_id: Some(read_msg_id),
                                in_reply_to: None,
                                payload: KafkaLogOrKvPayload::Kv(KvPayload::Read {
                                    key: self.log_offset_key(),
                                }),
                            },
                        },
                    );
                    self.semantics_by_msg_id.insert(
                        read_msg_id,
                        LogMsgSemantics::ReadUpdatedOffset { send_id, msg },
                    );
                    Ok(())
                },
                LogMsgSemantics::CasCommitOffset { commit_id, offset } => {
                    let read_msg_id = gen.generate_log_msg_id(self.key.clone());
                    out.push(
                        Message {
                            src: self.node_id.clone(),
                            dst: String::from_str("lin-kv"),
                            body: Body {
                                msg_id: Some(read_msg_id),
                                in_reply_to: None,
                                payload: KafkaLogOrKvPayload::Kv(KvPayload::Read {
                                    key: self.committed_offset_key(),
                                }),
                            },
                        },
                    );
                    self.semantics_by_msg_id.insert(
                        read_msg_id,
                        LogMsgSemantics::ReadUpdatedCommittedOffset {
                            commit_id,
                            offset: Some(offset),
                        },
                    );
                    Ok(())
                },
                other => {
                    self.semantics_by_msg_id.insert(cas_msg_id, other);
                    Err(NodeError::UnexpectedMessage)
                },
            },
        }
    }

    /// Ask `lin-kv` to raise this log's committed offset to `offset`.  A
    /// commit the cache already covers is complete at once, with no CAS.
    pub fn commit_offset(
        &mut self,
        gen: &mut MsgGenerator,
        commit_id: NodeMsgId,
        offset: usize,
        out: &mut Vec<Message<KafkaLogOrKvPayload>>,
    ) -> (r: OperationStatus)
        requires
            old(self).wf(),
            old(gen).wf(),
            old(gen).free_msg_id < usize::MAX,
        ensures
            final(self).wf(),
            final(gen).wf(),
            Self::same_statics(*old(self), *final(self)),
            final(self).completed_polls == old(self).completed_polls,
            final(self).local_offset == old(self).local_offset,
            final(self).local_committed_offset == old(self).local_committed_offset,
            old(self).local_committed_offset >= offset ==> {
                &&& r matches OperationStatus::CommitOffsetCompleted { commit_id: c } && c
                    == commit_id
                &&& *final(self) == *old(self)
                &&& *final(gen) == *old(gen)
                &&& final(out)@ == old(out)@
            },
            old(self).local_committed_offset < offset ==> {
                &&& r is InProgress
                &&& final(gen).free_msg_id == old(gen).free_msg_id + 1
                &&& final(gen).log_key_by_msg_id.has_key(old(gen).free_msg_id as int)
                &&& final(gen).log_key_by_msg_id.val_of(old(gen).free_msg_id as int)@ == old(self).key@
                &&& forall|a: int|
                    a != old(gen).free_msg_id ==> (#[trigger] final(gen).log_key_by_msg_id.has_key(a))
                        == old(gen).log_key_by_msg_id.has_key(a)
                &&& forall|a: int|
                    a != old(gen).free_msg_id && old(gen).log_key_by_msg_id.has_key(a) ==> (
                #[trigger] final(gen).log_key_by_msg_id.val_of(a)) == old(gen).log_key_by_msg_id.val_of(a)
                &&& final(self).semantics_by_msg_id.has_key(old(gen).free_msg_id as int)
                &&& final(self).semantics_by_msg_id.val_of(old(gen).free_msg_id as int)
                    matches LogMsgSemantics::CasCommitOffset { commit_id: c, offset: o } && c
                    == commit_id && o == offset
                &&& forall|a: int|
                    a != old(gen).free_msg_id ==> (#[trigger] final(self).semantics_by_msg_id.has_key(a)) == old(self).semantics_by_msg_id.has_key(a)
                &&& forall|a: int|
                    a != old(gen).free_msg_id && old(self).semantics_by_msg_id.has_key(a) ==> (
                    #[trigger] final(self).semantics_by_msg_id.val_of(a)) == old(self).semantics_by_msg_id.val_of(a)
                &&& appends_one(old(out)@, final(out)@)
                &&& is_kv_cas(
                    final(out)@.last(),
                    old(self).node_id@,
                    "lin-kv"@,
                    old(gen).free_msg_id as int,
                    committed_key(old(self).key@),
                    old(self).local_committed_offset as int,
                    offset as int,
                )
            },
    {
        if self.local_committed_offset >= offset {
            return OperationStatus::CommitOffsetCompleted { commit_id };
        }
        let cas_msg_id = gen.generate_log_msg_id(self.key.clone());
        self.semantics_by_msg_id.insert(
            cas_msg_id,
            LogMsgSemantics::CasCommitOffset { commit_id, offset },
        );
        out.push(
            Message {
                src: self.node_id.clone(),
                dst: String::from_str("lin-kv"),
                body: Body {
                    msg_id: Some(cas_msg_id),
                    in_reply_to: None,
                    payload: KafkaLogOrKvPayload::Kv(KvPayload::Cas {
                        key: self.committed_offset_key(),
                        from: self.local_committed_offset,
                        to: offset,
                        create_if_not_exists: true,
                    }),
                },
            },
        );
        OperationStatus::InProgress
    }


    /// Start a `poll`: open an indexed buffer for the window and issue one
    /// `seq-kv` read per position.
    pub fn poll(
        &mut self,
        gen: &mut MsgGenerator,
        poll_id: NodeMsgId,
        offset: usize,
        out: &mut Vec<Message<KafkaLogOrKvPayload>>,
    )
        requires
            old(self).wf(),
            old(gen).wf(),
            old(gen).free_msg_id + old(self).max_poll <= usize::MAX,
            offset + old(self).max_poll <= usize::MAX,
        ensures
            final(self).wf(),
            final(gen).wf(),
            Self::same_statics(*old(self), *final(self)),
            final(self).local_offset == old(self).local_offset,
            final(self).local_committed_offset == old(self).local_committed_offset,
            final(self).completed_polls.has_key(poll_id.abs()),
            final(self).completed_polls.val_of(poll_id.abs()).start == offset,
            final(self).completed_polls.val_of(poll_id.abs()).slots@.len() == old(self).max_poll,
            forall|i: int|
                0 <= i < old(self).max_poll ==> (#[trigger] final(self).completed_polls.val_of(
                    poll_id.abs(),
                ).slots@[i]) is Pending,
            forall|c: (Seq<char>, int)|
                c != poll_id.abs() ==> (#[trigger] final(self).completed_polls.has_key(c)) == old(self).completed_polls.has_key(c),
            forall|c: (Seq<char>, int)|
                c != poll_id.abs() && old(self).completed_polls.has_key(c) ==> (#[trigger] final(self).completed_polls.val_of(c)) == old(self).completed_polls.val_of(c),
            final(gen).free_msg_id == old(gen).free_msg_id + old(self).max_poll,
            forall|i: int|
                0 <= i < old(self).max_poll ==> #[trigger] final(self).semantics_by_msg_id.has_key(
                    old(gen).free_msg_id + i,
                ),
            forall|i: int|
                0 <= i < old(self).max_poll ==> (final(self).semantics_by_msg_id.val_of(
                    #[trigger] (old(gen).free_msg_id + i),
                ) matches LogMsgSemantics::ReadPollMessage { poll_id: p, offset: o } && p.abs()
                    == poll_id.abs() && o == offset + i),
            forall|a: int|
                !(old(gen).free_msg_id <= a < old(gen).free_msg_id + old(self).max_poll) ==> (
                #[trigger] final(self).semantics_by_msg_id.has_key(a)) == old(self).semantics_by_msg_id.has_key(a),
            forall|a: int|
                !(old(gen).free_msg_id <= a < old(gen).free_msg_id + old(self).max_poll) && old(self).semantics_by_msg_id.has_key(a) ==> (#[trigger] final(self).semantics_by_msg_id.val_of(a)) == old(self).semantics_by_msg_id.val_of(a),
            final(out)@.len() == old(out)@.len() + old(self).max_poll,
            forall|i: int| 0 <= i < old(out)@.len() ==> final(out)@[i] == old(out)@[i],
            forall|i: int|
                0 <= i < old(self).max_poll ==> is_kv_read(
                    #[trigger] final(out)@[old(out)@.len() + i],
                    old(self).node_id@,
                    "seq-kv"@,
                    old(gen).free_msg_id + i,
                    entry_key(old(self).key@, offset + i),
                ),
    {
        let slots: Vec<PollSlot> = vec![PollSlot::Pending; self.max_poll];
        let pid = poll_id.duplicate();
        proof {
            assert(pid.abs() == poll_id.abs());
        }
        self.completed_polls.insert(pid, PollBuf { start: offset, slots });
        proof {
            assert forall|k: int| 0 <= k < self.max_poll implies (
            #[trigger] self.completed_polls.val_of(poll_id.abs()).slots@[k]) is Pending by {
                assert(self.completed_polls.val_of(poll_id.abs()).slots@[k] == PollSlot::Pending);
            }
        }
        let max_poll = self.max_poll;
        let mut i: usize = 0;
        while i < max_poll
            invariant
                self.wf(),
                gen.wf(),
                max_poll == old(self).max_poll,
                Self::same_statics(*old(self), *self),
                self.local_offset == old(self).local_offset,
                self.local_committed_offset == old(self).local_committed_offset,
                self.completed_polls.has_key(poll_id.abs()),
                self.completed_polls.val_of(poll_id.abs()).start == offset,
                self.completed_polls.val_of(poll_id.abs()).slots@.len() == max_poll,
                forall|k: int|
                    0 <= k < max_poll ==> (#[trigger] self.completed_polls.val_of(
                        poll_id.abs(),
                    ).slots@[k]) is Pending,
                forall|c: (Seq<char>, int)|
                    c != poll_id.abs() ==> (#[trigger] self.completed_polls.has_key(c)) == old(self).completed_polls.has_key(c),
                forall|c: (Seq<char>, int)|
                    c != poll_id.abs() && old(self).completed_polls.has_key(c) ==> (
                    #[trigger] self.completed_polls.val_of(c)) == old(self).completed_polls.val_of(
                        c,
                    ),
                0 <= i <= max_poll,
                old(gen).free_msg_id + max_poll <= usize::MAX,
                offset + max_poll <= usize::MAX,
                gen.free_msg_id == old(gen).free_msg_id + i,
                forall|k: int|
                    0 <= k < i ==> #[trigger] self.semantics_by_msg_id.has_key(
                        old(gen).free_msg_id + k,
                    ),
                forall|k: int|
                    0 <= k < i ==> (self.semantics_by_msg_id.val_of(
                        #[trigger] (old(gen).free_msg_id + k),
                    ) matches LogMsgSemantics::ReadPollMessage { poll_id: p, offset: o } && p.abs()
                        == poll_id.abs() && o == offset + k),
                forall|a: int|
                    !(old(gen).free_msg_id <= a < old(gen).free_msg_id + i) ==> (
                    #[trigger] self.semantics_by_msg_id.has_key(a)) == old(self).semantics_by_msg_id.has_key(a),
                forall|a: int|
                    !(old(gen).free_msg_id <= a < old(gen).free_msg_id + i) && old(self).semantics_by_msg_id.has_key(a) ==> (#[trigger] self.semantics_by_msg_id.val_of(
                        a,
                    )) == old(self).semantics_by_msg_id.val_of(a),
                out@.len() == old(out)@.len() + i,
                forall|k: int| 0 <= k < old(out)@.len() ==> out@[k] == old(out)@[k],
                forall|k: int|
                    0 <= k < i ==> is_kv_read(
                        #[trigger] out@[old(out)@.len() + k],
                        old(self).node_id@,
                        "seq-kv"@,
                        old(gen).free_msg_id + k,
                        entry_key(old(self).key@, offset + k),
                    ),
            decreases max_poll - i,
        {
            let read_msg_id = gen.generate_log_msg_id(self.key.clone());
            let msg_offset = offset + i;
            self.semantics_by_msg_id.insert(
                read_msg_id,
                LogMsgSemantics::ReadPollMessage { poll_id: poll_id.duplicate(), offset: msg_offset },
            );
            out.push(
                Message {
                    src: self.node_id.clone(),
                    dst: String::from_str("seq-kv"),
                    body: Body {
                        msg_id: Some(read_msg_id),
                        in_reply_to: None,
                        payload: KafkaLogOrKvPayload::Kv(KvPayload::Read {
                            key: self.msg_offset_key(msg_offset),
                        }),
                    },
                },
            );
            i = i + 1;
        }
    }

    /// Act on a `read_ok` reply, according to what the read served: refresh
    /// the offset cache and retry a send, refresh the committed cache and
    /// retry a commit, complete a committed-offset listing, or fill one poll
    /// slot.
    pub fn read_ok(
        &mut self,
        gen: &mut MsgGenerator,
        read_msg_id: usize,
        value: usize,
        out: &mut Vec<Message<KafkaLogOrKvPayload>>,
    ) -> (r: Result<OperationStatus, NodeError>)
        requires
            old(self).wf(),
            old(gen).wf(),
            old(gen).free_msg_id < usize::MAX,
            read_msg_id < old(gen).free_msg_id,
        ensures
            final(self).wf(),
            final(gen).wf(),
            Self::same_statics(*old(self), *final(self)),
            final(self).local_offset >= old(self).local_offset,
            final(self).local_committed_offset >= old(self).local_committed_offset,
            !old(self).semantics_by_msg_id.has_key(read_msg_id as int) ==> (r is Err && *final(self)
                == *old(self) && *final(gen) == *old(gen) && final(out)@ == old(out)@),
            old(self).semantics_by_msg_id.has_key(read_msg_id as int) ==> match old(self).semantics_by_msg_id.val_of(read_msg_id as int) {
                LogMsgSemantics::ReadUpdatedOffset { send_id, msg } => {
                    let refreshed = if value > old(self).local_offset {
                        value as int
                    } else {
                        old(self).local_offset as int
                    };
                    &&& final(self).completed_polls == old(self).completed_polls
                    &&& final(self).local_committed_offset == old(self).local_committed_offset
                    &&& refreshed == usize::MAX ==> (r is Err && final(self).local_offset
                        == refreshed && final(out)@ == old(out)@ && *final(gen) == *old(gen)
                        && !final(self).semantics_by_msg_id.has_key(read_msg_id as int))
                    &&& refreshed < usize::MAX ==> {
                        &&& r matches Ok(OperationStatus::InProgress)
                        &&& final(self).local_offset == refreshed
                        &&& final(gen).free_msg_id == old(gen).free_msg_id + 1
                        &&& !final(self).semantics_by_msg_id.has_key(read_msg_id as int)
                        &&& final(self).semantics_by_msg_id.has_key(old(gen).free_msg_id as int)
                        &&& final(self).semantics_by_msg_id.val_of(old(gen).free_msg_id as int)
                            matches LogMsgSemantics::CasSend { send_id: s, msg: m, offset: o } && s
                            == send_id && m == msg && o == refreshed + 1
                        &&& final(gen).log_key_by_msg_id.has_key(old(gen).free_msg_id as int)
                        &&& final(gen).log_key_by_msg_id.val_of(old(gen).free_msg_id as int)@ == old(self).key@
                        &&& forall|a: int|
                            a != old(gen).free_msg_id ==> (#[trigger] final(gen).log_key_by_msg_id.has_key(a))
                                == old(gen).log_key_by_msg_id.has_key(a)
                        &&& forall|a: int|
                            a != old(gen).free_msg_id && old(gen).log_key_by_msg_id.has_key(a) ==> (
                        #[trigger] final(gen).log_key_by_msg_id.val_of(a)) == old(gen).log_key_by_msg_id.val_of(a)
                        &&& appends_one(old(out)@, final(out)@)
                        &&& is_kv_cas(
                            final(out)@.last(),
                            old(self).node_id@,
                            "lin-kv"@,
                            old(gen).free_msg_id as int,
                            offset_key(old(self).key@),
                            refreshed,
                            refreshed + 1,
                        )
                    }
                },
                LogMsgSemantics::ReadUpdatedCommittedOffset { commit_id, offset: Some(offset) } => {
                    let refreshed = if value > old(self).local_committed_offset {
                        value as int
                    } else {
                        old(self).local_committed_offset as int
                    };
                    &&& final(self).completed_polls == old(self).completed_polls
                    &&& final(self).local_offset == old(self).local_offset
                    &&& final(self).local_committed_offset == refreshed
                    &&& !final(self).semantics_by_msg_id.has_key(read_msg_id as int)
                    &&& refreshed >= offset ==> {
                        &&& r matches Ok(OperationStatus::CommitOffsetCompleted { commit_id: c })
                            && c == commit_id
                        &&& final(out)@ == old(out)@
                        &&& *final(gen) == *old(gen)
                    }
                    &&& refreshed < offset ==> {
                        &&& r matches Ok(OperationStatus::InProgress)
                        &&& final(gen).free_msg_id == old(gen).free_msg_id + 1
                        &&& final(self).semantics_by_msg_id.has_key(old(gen).free_msg_id as int)
                        &&& final(self).semantics_by_msg_id.val_of(old(gen).free_msg_id as int)
                            matches LogMsgSemantics::CasCommitOffset { commit_id: c, offset: o }
                            && c == commit_id && o == offset
                        &&& final(gen).log_key_by_msg_id.has_key(old(gen).free_msg_id as int)
                        &&& final(gen).log_key_by_msg_id.val_of(old(gen).free_msg_id as int)@ == old(self).key@
                        &&& forall|a: int|
                            a != old(gen).free_msg_id ==> (#[trigger] final(gen).log_key_by_msg_id.has_key(a))
                                == old(gen).log_key_by_msg_id.has_key(a)
                        &&& forall|a: int|
                            a != old(gen).free_msg_id && old(gen).log_key_by_msg_id.has_key(a) ==> (
                        #[trigger] final(gen).log_key_by_msg_id.val_of(a)) == old(gen).log_key_by_msg_id.val_of(a)
                        &&& appends_one(old(out)@, final(out)@)
                        &&& is_kv_cas(
                            final(out)@.last(),
                            old(self).node_id@,
                            "lin-kv"@,
                            old(gen).free_msg_id as int,
                            committed_key(old(self).key@),
                            refreshed,
                            offset as int,
                        )
                    }
                },
                LogMsgSemantics::ReadUpdatedCommittedOffset { commit_id, offset: None } => {
                    let refreshed = if value > old(self).local_committed_offset {
                        value as int
                    } else {
                        old(self).local_committed_offset as int
                    };
                    &&& r matches Ok(OperationStatus::ListCommitOffsetCompleted {
                        list_committed_offset_id: c,
                        offset: o,
                    }) && c == commit_id && o == value
                    &&& final(self).completed_polls == old(self).completed_polls
                    &&& final(self).local_offset == old(self).local_offset
                    &&& final(self).local_committed_offset == refreshed
                    &&& !final(self).semantics_by_msg_id.has_key(read_msg_id as int)
                    &&& *final(gen) == *old(gen)
                    &&& final(out)@ == old(out)@
                },
                LogMsgSemantics::ReadPollMessage { poll_id, offset } => {
                    &&& final(self).local_offset == old(self).local_offset
                    &&& final(self).local_committed_offset == old(self).local_committed_offset
                    &&& !final(self).semantics_by_msg_id.has_key(read_msg_id as int)
                    &&& *final(gen) == *old(gen)
                    &&& final(out)@ == old(out)@
                    &&& poll_fill_post(
                        *old(self),
                        *final(self),
                        poll_id,
                        offset as int,
                        PollSlot::Hit(offset, value),
                        r,
                    )
                },
                _ => {
                    &&& r is Err
                    &&& same_sem_table(final(self).semantics_by_msg_id, old(self).semantics_by_msg_id)
                    &&& final(self).completed_polls == old(self).completed_polls
                    &&& final(self).local_offset == old(self).local_offset
                    &&& final(self).local_committed_offset == old(self).local_committed_offset
                    &&& *final(gen) == *old(gen)
                    &&& final(out)@ == old(out)@
                },
            },
    {
        if !self.semantics_by_msg_id.contains_key(&read_msg_id) {
            return Err(NodeError::UnexpectedMessage);
        }
        match self.semantics_by_msg_id.remove(&read_msg_id) {
            None => Err(NodeError::UnexpectedMessage),
            Some(sem) => match sem {
                LogMsgSemantics::ReadUpdatedOffset { send_id, msg } => {
                    if value > self.local_offset {
                        self.local_offset = value;
                    }
                    if self.local_offset == usize::MAX {
                        return Err(NodeError::UnexpectedMessage);
                    }
                    self.send(gen, send_id, msg, out);
                    Ok(OperationStatus::InProgress)
                },
                LogMsgSemantics::ReadUpdatedCommittedOffset { commit_id, offset: Some(offset) } => {
                    if value > self.local_committed_offset {
                        self.local_committed_offset = value;
                    }
                    Ok(self.commit_offset(gen, commit_id, offset, out))
                },
                LogMsgSemantics::ReadUpdatedCommittedOffset { commit_id, offset: None } => {
                    if value > self.local_committed_offset {
                        self.local_committed_offset = value;
                    }
                    Ok(OperationStatus::ListCommitOffsetCompleted {
                        list_committed_offset_id: commit_id,
                        offset: value,
                    })
                },
                LogMsgSemantics::ReadPollMessage { poll_id, offset } => self.fill_poll_slot(
                    poll_id,
                    offset,
                    PollSlot::Hit(offset, value),
                ),
                other => {
                    self.semantics_by_msg_id.insert(read_msg_id, other);
                    Err(NodeError::UnexpectedMessage)
                },
            },
        }
    }

    /// Act on a `key_not_found` KV error: a missing poll position marks the
    /// end of the log for that window, and a missing committed offset lists
    /// as zero.
    pub fn missing_key_error(&mut self, read_msg_id: usize) -> (r: Result<
        OperationStatus,
        NodeError,
    >)
        requires
            old(self).wf(),
        ensures
            final(self).wf(),
            Self::same_statics(*old(self), *final(self)),
            final(self).local_offset == old(self).local_offset,
            final(self).local_committed_offset == old(self).local_committed_offset,
            !old(self).semantics_by_msg_id.has_key(read_msg_id as int) ==> (r is Err && *final(self)
                == *old(self)),
            old(self).semantics_by_msg_id.has_key(read_msg_id as int) ==> match old(self).semantics_by_msg_id.val_of(read_msg_id as int) {
                LogMsgSemantics::ReadPollMessage { poll_id, offset } => {
                    &&& !final(self).semantics_by_msg_id.has_key(read_msg_id as int)
                    &&& poll_fill_post(
                        *old(self),
                        *final(self),
                        poll_id,
                        offset as int,
                        PollSlot::Miss,
                        r,
                    )
                },
                LogMsgSemantics::ReadUpdatedCommittedOffset { commit_id, offset: None } => {
                    &&& r matches Ok(OperationStatus::ListCommitOffsetCompleted {
                        list_committed_offset_id: c,
                        offset: o,
                    }) && c == commit_id && o == 0
                    &&& !final(self).semantics_by_msg_id.has_key(read_msg_id as int)
                    &&& final(self).completed_polls == old(self).completed_polls
                },
                _ => {
                    &&& r is Err
                    &&& same_sem_table(final(self).semantics_by_msg_id, old(self).semantics_by_msg_id)
                    &&& final(self).completed_polls == old(self).completed_polls
                },
            },
    {
        if !self.semantics_by_msg_id.contains_key(&read_msg_id) {
            return Err(NodeError::UnexpectedMessage);
        }
        match self.semantics_by_msg_id.remove(&read_msg_id) {
            None => Err(NodeError::UnexpectedMessage),
            Some(sem) => match sem {
                LogMsgSemantics::ReadPollMessage { poll_id, offset } => self.fill_poll_slot(
                    poll_id,
                    offset,
                    PollSlot::Miss,
                ),
                LogMsgSemantics::ReadUpdatedCommittedOffset { commit_id, offset: None } => Ok(
                    OperationStatus::ListCommitOffsetCompleted {
                        list_committed_offset_id: commit_id,
                        offset: 0,
                    },
                ),
                other => {
                    self.semantics_by_msg_id.insert(read_msg_id, other);
                    Err(NodeError::UnexpectedMessage)
                },
            },
        }
    }

    /// Record one answered poll position; when the whole window has been
    /// answered, close the buffer and yield its entries in offset order.
    fn fill_poll_slot(&mut self, poll_id: NodeMsgId, offset: usize, slot: PollSlot) -> (r: Result<
        OperationStatus,
        NodeError,
    >)
        requires
            old(self).wf(),
            !(slot is Pending),
            slot matches PollSlot::Hit(o, _) ==> o == offset,
        ensures
            final(self).wf(),
            Self::same_statics(*old(self), *final(self)),
            final(self).local_offset == old(self).local_offset,
            final(self).local_committed_offset == old(self).local_committed_offset,
            final(self).semantics_by_msg_id == old(self).semantics_by_msg_id,
            poll_fill_post(*old(self), *final(self), poll_id, offset as int, slot, r),
    {
        if !self.completed_polls.contains_key(&poll_id) {
            return Ok(OperationStatus::InProgress);
        }
        match self.completed_polls.remove(&poll_id) {
            None => Ok(OperationStatus::InProgress),
            Some(mut buf) => {
                if offset >= buf.start && offset - buf.start < buf.slots.len() {
                    let idx = offset - buf.start;
                    match buf.slots[idx] {
                        PollSlot::Pending => {
                            buf.slots[idx] = slot;
                        },
                        _ => {},
                    }
                }
                proof {
                    assert(buf.slots@ =~= filled_slots(
                        old(self).completed_polls.val_of(poll_id.abs()),
                        offset as int,
                        slot,
                    ));
                }
                if poll_buf_settled(&buf.slots) {
                    let msgs = collect_hits(&buf.slots);
                    Ok(OperationStatus::PollCompleted { poll_id, msgs })
                } else {
                    self.completed_polls.insert(poll_id, buf);
                    Ok(OperationStatus::InProgress)
                }
            },
        }
    }

    /// Ask `lin-kv` for this log's committed offset on behalf of a
    /// `list_committed_offsets` request.
    pub fn read_committed_offset(
        &mut self,
        gen: &mut MsgGenerator,
        list_commit_offset_id: NodeMsgId,
        out: &mut Vec<Message<KafkaLogOrKvPayload>>,
    )
        requires
            old(self).wf(),
            old(gen).wf(),
            old(gen).free_msg_id < usize::MAX,
        ensures
            final(self).wf(),
            final(gen).wf(),
            Self::same_statics(*old(self), *final(self)),
            final(self).completed_polls == old(self).completed_polls,
            final(self).local_offset == old(self).local_offset,
            final(self).local_committed_offset == old(self).local_committed_offset,
            final(gen).free_msg_id == old(gen).free_msg_id + 1,
            final(gen).log_key_by_msg_id.has_key(old(gen).free_msg_id as int),
            final(gen).log_key_by_msg_id.val_of(old(gen).free_msg_id as int)@ == old(self).key@,
            forall|a: int|
                a != old(gen).free_msg_id ==> (#[trigger] final(gen).log_key_by_msg_id.has_key(a))
                    == old(gen).log_key_by_msg_id.has_key(a),
            forall|a: int|
                a != old(gen).free_msg_id && old(gen).log_key_by_msg_id.has_key(a) ==> (
            #[trigger] final(gen).log_key_by_msg_id.val_of(a)) == old(gen).log_key_by_msg_id.val_of(
                a,
            ),
            final(self).semantics_by_msg_id.has_key(old(gen).free_msg_id as int),
            final(self).semantics_by_msg_id.val_of(old(gen).free_msg_id as int)
                matches LogMsgSemantics::ReadUpdatedCommittedOffset { commit_id: c, offset: o } && c
                == list_commit_offset_id && o is None,
            forall|a: int|
                a != old(gen).free_msg_id ==> (#[trigger] final(self).semantics_by_msg_id.has_key(
                    a,
                )) == old(self).semantics_by_msg_id.has_key(a),
            forall|a: int|
                a != old(gen).free_msg_id && old(self).semantics_by_msg_id.has_key(a) ==> (
                #[trigger] final(self).semantics_by_msg_id.val_of(a)) == old(self).semantics_by_msg_id.val_of(a),
            appends_one(old(out)@, final(out)@),
            is_kv_read(
                final(out)@.last(),
                old(self).node_id@,
                "lin-kv"@,
                old(gen).free_msg_id as int,
                committed_key(old(self).key@),
            ),
    {
        let read_msg_id = gen.generate_log_msg_id(self.key.clone());
        self.semantics_by_msg_id.insert(
            read_msg_id,
            LogMsgSemantics::ReadUpdatedCommittedOffset {
                commit_id: list_commit_offset_id,
                offset: None,
            },
        );
        out.push(
            Message {
                src: self.node_id.clone(),
                dst: String::from_str("lin-kv"),
                body: Body {
                    msg_id: Some(read_msg_id),
                    in_reply_to: None,
                    payload: KafkaLogOrKvPayload::Kv(KvPayload::Read {
                        key: self.committed_offset_key(),
                    }),
                },
            },
        );
    }
}


/// Every envelope of `s` from position `from` on is a `seq-kv` read issued
/// by `node`.
pub open spec fn all_seq_kv_reads(
    node: Seq<char>,
    s: Seq<Message<KafkaLogOrKvPayload>>,
    from: int,
) -> bool {
    forall|i: int|
        from <= i < s.len() ==> {
            let m = #[trigger] s[i];
            &&& m.src@ == node
            &&& m.dst@ == "seq-kv"@
            &&& m.body.payload matches KafkaLogOrKvPayload::Kv(KvPayload::Read { .. })
        }
}


/// Every envelope of `s` from position `from` on is a `lin-kv` CAS issued by
/// `node`.
pub open spec fn all_lin_kv_cas(
    node: Seq<char>,
    s: Seq<Message<KafkaLogOrKvPayload>>,
    from: int,
) -> bool {
    forall|i: int|
        from <= i < s.len() ==> {
            let m = #[trigger] s[i];
            &&& m.src@ == node
            &&& m.dst@ == "lin-kv"@
            &&& m.body.payload matches KafkaLogOrKvPayload::Kv(KvPayload::Cas { .. })
        }
}

/// The request pairs whose log key the node already knows, in request order.
pub open spec fn spec_filter_known(
    logs: AList<String, AsyncKafkaLog>,
    offsets: Seq<(String, usize)>,
) -> Seq<(String, usize)>
    decreases offsets.len(),
{
    if offsets.len() == 0 {
        Seq::empty()
    } else {
        let rest = spec_filter_known(logs, offsets.drop_last());
        if logs.has_key(offsets.last().0@) {
            rest.push(offsets.last())
        } else {
            rest
        }
    }
}

/// The requested keys the node already knows, in request order.
pub open spec fn spec_filter_known_keys(
    logs: AList<String, AsyncKafkaLog>,
    keys: Seq<String>,
) -> Seq<String>
    decreases keys.len(),
{
    if keys.len() == 0 {
        Seq::empty()
    } else {
        let rest = spec_filter_known_keys(logs, keys.drop_last());
        if logs.has_key(keys.last()@) {
            rest.push(keys.last())
        } else {
            rest
        }
    }
}

/// A filtered request never grows, and every kept pair names a known log.
pub proof fn lemma_filter_known_props(
    logs: AList<String, AsyncKafkaLog>,
    offsets: Seq<(String, usize)>,
)
    ensures
        spec_filter_known(logs, offsets).len() <= offsets.len(),
        forall|j: int|
            0 <= j < spec_filter_known(logs, offsets).len() ==> logs.has_key(
                (#[trigger] spec_filter_known(logs, offsets)[j]).0@,
            ),
    decreases offsets.len(),
{
    if offsets.len() > 0 {
        lemma_filter_known_props(logs, offsets.drop_last());
    }
}

/// A filtered key listing never grows, and every kept key names a known log.
pub proof fn lemma_filter_known_keys_props(logs: AList<String, AsyncKafkaLog>, keys: Seq<String>)
    ensures
        spec_filter_known_keys(logs, keys).len() <= keys.len(),
        forall|j: int|
            0 <= j < spec_filter_known_keys(logs, keys).len() ==> logs.has_key(
                (#[trigger] spec_filter_known_keys(logs, keys)[j])@,
            ),
    decreases keys.len(),
{
    if keys.len() > 0 {
        lemma_filter_known_keys_props(logs, keys.drop_last());
    }
}

/// How many of the first `upto` filtered commits the local cache already
/// covers (those complete without a CAS).
pub open spec fn sync_commit_count(
    logs: AList<String, AsyncKafkaLog>,
    filtered: Seq<(String, usize)>,
    upto: int,
) -> int
    decreases upto,
{
    if upto <= 0 {
        0
    } else {
        sync_commit_count(logs, filtered, upto - 1) + if logs.val_of(
            filtered[upto - 1].0@,
        ).local_committed_offset >= filtered[upto - 1].1 {
            1int
        } else {
            0int
        }
    }
}

/// At most one commit per step is already covered, so the count never
/// exceeds `upto`.
pub proof fn lemma_sync_commit_count_bound(
    logs: AList<String, AsyncKafkaLog>,
    filtered: Seq<(String, usize)>,
    upto: int,
)
    ensures
        0 <= sync_commit_count(logs, filtered, upto) <= (if upto < 0 {
            0int
        } else {
            upto
        }),
    decreases upto,
{
    if upto > 0 {
        lemma_sync_commit_count_bound(logs, filtered, upto - 1);
    }
}


/// No key occurs twice in a key listing.
pub open spec fn distinct_key_strings(s: Seq<String>) -> bool {
    forall|i: int, j: int| 0 <= i < j < s.len() ==> (#[trigger] s[i]@) != (#[trigger] s[j]@)
}

/// Check that no key occurs twice in a key listing.
pub fn distinct_key_strings_check(s: &Vec<String>) -> (r: bool)
    ensures
        r == distinct_key_strings(s@),
{
    let n = s.len();
    let mut i: usize = 0;
    while i < n
        invariant
            n == s@.len(),
            0 <= i <= n,
            forall|p: int, q: int|
                0 <= p < q < s@.len() && p < i ==> (#[trigger] s@[p]@) != (#[trigger] s@[q]@),
        decreases n - i,
    {
        let mut j: usize = i + 1;
        while j < n
            invariant
                n == s@.len(),
                0 <= i < j <= n,
                forall|q: int| i < q < j ==> (#[trigger] s@[q]@) != s@[i as int]@,
            decreases n - j,
        {
            if s[i].eq(&s[j]) {
                return false;
            }
            j = j + 1;
        }
        i = i + 1;
    }
    true
}


/// How many outgoing message ids one inbound envelope may consume.
pub open spec fn ids_needed(p: KafkaLogOrKvPayload, max_poll: int) -> int {
    match p {
        KafkaLogOrKvPayload::KafkaLog(kp) => match kp {
            KafkaLogPayload::Send { .. } => 1,
            KafkaLogPayload::Poll { offsets } => offsets@.len() * max_poll + 1,
            KafkaLogPayload::CommitOffsets { offsets } => offsets@.len() as int,
            KafkaLogPayload::ListCommittedOffsets { keys } => keys@.len() as int,
            _ => 0,
        },
        KafkaLogOrKvPayload::Kv(_) => 2,
    }
}

/// Acknowledged offsets of consecutive sends on one log strictly increase:
/// after a CAS acknowledges `off1` the cached offset is at least `off1`, the
/// cache never decreases across operations, and a send always reserves the
/// successor of the cache it read, so the next acknowledged offset exceeds
/// `off1`.
pub proof fn lemma_send_offsets_strictly_increase(
    off1: int,
    local_after_ack: int,
    local_at_next_send: int,
    off2: int,
)
    requires
        local_after_ack >= off1,
        local_at_next_send >= local_after_ack,
        off2 == local_at_next_send + 1,
    ensures
        off2 > off1,
{
}


/// Listed committed offsets for one log never go backwards: a listing
/// reports the value `lin-kv` returned, `read_ok` raises the cache to at
/// least that value, the cache never decreases across operations, and
/// `lin-kv` (linearisable, written only by offset-raising CAS) never returns
/// less than what the cache already reached.
pub proof fn lemma_listed_offsets_monotone(
    listed1: int,
    cache_after_first: int,
    cache_at_second: int,
    value2: int,
)
    requires
        cache_after_first >= listed1,
        cache_at_second >= cache_after_first,
        value2 >= cache_at_second,
    ensures
        value2 >= listed1,
{
}

/// The commit cache already covers `offset`, so `commit_offset` completes at
/// once, emits no CAS, and leaves every cache and table unchanged.
pub open spec fn commit_is_no_op(log: AsyncKafkaLog, offset: int) -> bool {
    log.local_committed_offset >= offset
}

/// Committing one offset twice performs a CAS only the first time: once a
/// commit of `offset` has been acknowledged the cache is at least `offset`,
/// the cache never decreases across operations, and `commit_offset` promises
/// the no-CAS branch whenever the cache covers the requested offset.
pub proof fn lemma_commit_replay_is_no_op(
    log_after_ack: AsyncKafkaLog,
    log_later: AsyncKafkaLog,
    offset: int,
)
    requires
        log_after_ack.local_committed_offset >= offset,
        log_later.local_committed_offset >= log_after_ack.local_committed_offset,
    ensures
        commit_is_no_op(log_later, offset),
{
}


/// A tracked request is answered at most once: the reply leaves with the
/// tracker, and a later completion for the same correlation finds no tracker
/// and reports an error instead of replying again.
pub proof fn lemma_single_reply_per_tracker(
    pre: MultiKafkaLogNode,
    post: MultiKafkaLogNode,
    pid: NodeMsgId,
    key: Seq<char>,
    window: Seq<(usize, usize)>,
    preout: Seq<Message<KafkaLogOrKvPayload>>,
    postout: Seq<Message<KafkaLogOrKvPayload>>,
    r: Result<(), NodeError>,
    prefree: int,
    postfree: int,
)
    requires
        !pre.completed_polls.has_key(pid.abs()),
        MultiKafkaLogNode::poll_tracker_step(
            pre,
            post,
            pid,
            key,
            window,
            preout,
            postout,
            r,
            prefree,
            postfree,
        ),
    ensures
        r is Err,
{
}

/// The replicated-log node: it owns one engine per log key, routes KV
/// replies back to them, and combines per-log completions into client
/// replies.
#[derive(Debug)]
pub struct MultiKafkaLogNode {
    pub id: String,
    pub max_poll: usize,
    pub msg_generator: MsgGenerator,
    pub log_by_key: AList<String, AsyncKafkaLog>,
    pub completed_polls: AList<NodeMsgId, Progress<(String, Vec<(usize, usize)>)>>,
    pub completed_commits: AList<NodeMsgId, Progress<String>>,
    pub completed_offset_reads: AList<NodeMsgId, Progress<(String, usize)>>,
}

impl MultiKafkaLogNode {
    /// Every engine is well-formed, carries its own key and this node's
    /// identity, and all tables are duplicate-free.
    pub open spec fn wf(&self) -> bool {
        &&& self.max_poll > 0
        &&& self.msg_generator.wf()
        &&& self.log_by_key.dup_free()
        &&& self.completed_polls.dup_free()
        &&& self.completed_commits.dup_free()
        &&& self.completed_offset_reads.dup_free()
        &&& forall|b: Seq<char>|
            #[trigger] self.log_by_key.has_key(b) ==> {
                let log = self.log_by_key.val_of(b);
                &&& log.wf()
                &&& log.key@ == b
                &&& log.node_id@ == self.id@
                &&& log.max_poll == self.max_poll
            }
    }

    pub fn new(node_id: String, max_poll: usize) -> (r: Self)
        requires
            max_poll > 0,
        ensures
            r.wf(),
            r.id == node_id,
            r.max_poll == max_poll,
            r.msg_generator.free_msg_id == 0,
            r.log_by_key@.len() == 0,
            r.completed_polls@.len() == 0,
            r.completed_commits@.len() == 0,
            r.completed_offset_reads@.len() == 0,
    {
        MultiKafkaLogNode {
            id: node_id,
            max_poll,
            msg_generator: MsgGenerator::new(),
            log_by_key: AList::new(),
            completed_polls: AList::new(),
            completed_commits: AList::new(),
            completed_offset_reads: AList::new(),
        }
    }

    /// Frame a `poll_ok` reply carrying `msgs`.
    pub fn build_poll_ok_msg(
        &self,
        poll_id: &NodeMsgId,
        msgs: Vec<(String, Vec<(usize, usize)>)>,
        reply_mid: usize,
    ) -> (r: Message<KafkaLogOrKvPayload>)
        ensures
            r.src@ == self.id@,
            r.dst@ == poll_id.node_id@,
            r.body.msg_id == Some(reply_mid),
            r.body.in_reply_to == Some(poll_id.msg_id),
            r.body.payload matches KafkaLogOrKvPayload::KafkaLog(KafkaLogPayload::PollOk {
                msgs: m,
            }) && m == msgs,
    {
        Message {
            src: self.id.clone(),
            dst: poll_id.node_id.clone(),
            body: Body {
                msg_id: Some(reply_mid),
                in_reply_to: Some(poll_id.msg_id),
                payload: KafkaLogOrKvPayload::KafkaLog(KafkaLogPayload::PollOk { msgs }),
            },
        }
    }

    /// Frame an empty `poll_ok` reply.
    pub fn build_empty_poll_ok_msg(&self, poll_id: &NodeMsgId, reply_mid: usize) -> (r: Message<
        KafkaLogOrKvPayload,
    >)
        ensures
            r.src@ == self.id@,
            r.dst@ == poll_id.node_id@,
            r.body.msg_id == Some(reply_mid),
            r.body.in_reply_to == Some(poll_id.msg_id),
            r.body.payload matches KafkaLogOrKvPayload::KafkaLog(KafkaLogPayload::PollOk {
                msgs: m,
            }) && m@.len() == 0,
    {
        self.build_poll_ok_msg(poll_id, Vec::new(), reply_mid)
    }

    /// Allocate a reply id and emit a `poll_ok` reply carrying `msgs`.
    pub fn build_and_send_poll_ok_msg(
        &mut self,
        poll_id: &NodeMsgId,
        msgs: Vec<(String, Vec<(usize, usize)>)>,
        out: &mut Vec<Message<KafkaLogOrKvPayload>>,
    )
        requires
            old(self).wf(),
            old(self).msg_generator.free_msg_id < usize::MAX,
        ensures
            final(self).wf(),
            final(self).id == old(self).id,
            final(self).max_poll == old(self).max_poll,
            final(self).log_by_key == old(self).log_by_key,
            final(self).completed_polls == old(self).completed_polls,
            final(self).completed_commits == old(self).completed_commits,
            final(self).completed_offset_reads == old(self).completed_offset_reads,
            final(self).msg_generator.free_msg_id == old(self).msg_generator.free_msg_id + 1,
            final(self).msg_generator.log_key_by_msg_id == old(self).msg_generator.log_key_by_msg_id,
            appends_one(old(out)@, final(out)@),
            ({
                let m = final(out)@.last();
                &&& m.src@ == old(self).id@
                &&& m.dst@ == poll_id.node_id@
                &&& m.body.in_reply_to == Some(poll_id.msg_id)
                &&& m.body.payload matches KafkaLogOrKvPayload::KafkaLog(KafkaLogPayload::PollOk {
                    msgs: mm,
                }) && mm == msgs
            }),
    {
        let reply_mid = self.msg_generator.generate_msg_id();
        let m = self.build_poll_ok_msg(poll_id, msgs, reply_mid);
        out.push(m);
    }

    /// Allocate a reply id and emit an empty `poll_ok` reply.
    pub fn build_and_send_empty_poll_ok_msg(
        &mut self,
        poll_id: &NodeMsgId,
        out: &mut Vec<Message<KafkaLogOrKvPayload>>,
    )
        requires
            old(self).wf(),
            old(self).msg_generator.free_msg_id < usize::MAX,
        ensures
            final(self).wf(),
            final(self).id == old(self).id,
            final(self).max_poll == old(self).max_poll,
            final(self).log_by_key == old(self).log_by_key,
            final(self).completed_polls == old(self).completed_polls,
            final(self).completed_commits == old(self).completed_commits,
            final(self).completed_offset_reads == old(self).completed_offset_reads,
            final(self).msg_generator.free_msg_id == old(self).msg_generator.free_msg_id + 1,
            final(self).msg_generator.log_key_by_msg_id == old(self).msg_generator.log_key_by_msg_id,
            appends_one(old(out)@, final(out)@),
            ({
                let m = final(out)@.last();
                &&& m.src@ == old(self).id@
                &&& m.dst@ == poll_id.node_id@
                &&& m.body.in_reply_to == Some(poll_id.msg_id)
                &&& m.body.payload matches KafkaLogOrKvPayload::KafkaLog(KafkaLogPayload::PollOk {
                    msgs: mm,
                }) && mm@.len() == 0
            }),
    {
        self.build_and_send_poll_ok_msg(poll_id, Vec::new(), out)
    }

    /// Frame a `commit_offsets_ok` reply; it carries no message id.
    pub fn build_commit_offset_ok_msg(&self, commit_id: &NodeMsgId) -> (r: Message<
        KafkaLogOrKvPayload,
    >)
        ensures
            r.src@ == self.id@,
            r.dst@ == commit_id.node_id@,
            r.body.msg_id is None,
            r.body.in_reply_to == Some(commit_id.msg_id),
            r.body.payload matches KafkaLogOrKvPayload::KafkaLog(
                KafkaLogPayload::CommitOffsetsOk,
            ),
    {
        Message {
            src: self.id.clone(),
            dst: commit_id.node_id.clone(),
            body: Body {
                msg_id: None,
                in_reply_to: Some(commit_id.msg_id),
                payload: KafkaLogOrKvPayload::KafkaLog(KafkaLogPayload::CommitOffsetsOk),
            },
        }
    }

    /// Emit a `commit_offsets_ok` reply.
    pub fn build_and_send_commit_offset_ok_msg(
        &self,
        commit_id: &NodeMsgId,
        out: &mut Vec<Message<KafkaLogOrKvPayload>>,
    )
        ensures
            appends_one(old(out)@, final(out)@),
            ({
                let m = final(out)@.last();
                &&& m.src@ == self.id@
                &&& m.dst@ == commit_id.node_id@
                &&& m.body.in_reply_to == Some(commit_id.msg_id)
                &&& m.body.payload matches KafkaLogOrKvPayload::KafkaLog(
                    KafkaLogPayload::CommitOffsetsOk,
                )
            }),
    {
        let m = self.build_commit_offset_ok_msg(commit_id);
        out.push(m);
    }

    /// Frame a `list_committed_offsets_ok` reply; it carries no message id.
    pub fn build_list_committed_offsets_ok_msg(
        &self,
        list_committed_offsets_id: &NodeMsgId,
        offsets: Vec<(String, usize)>,
    ) -> (r: Message<KafkaLogOrKvPayload>)
        ensures
            r.src@ == self.id@,
            r.dst@ == list_committed_offsets_id.node_id@,
            r.body.msg_id is None,
            r.body.in_reply_to == Some(list_committed_offsets_id.msg_id),
            r.body.payload matches KafkaLogOrKvPayload::KafkaLog(
                KafkaLogPayload::ListCommittedOffsetsOk { offsets: o },
            ) && o == offsets,
    {
        Message {
            src: self.id.clone(),
            dst: list_committed_offsets_id.node_id.clone(),
            body: Body {
                msg_id: None,
                in_reply_to: Some(list_committed_offsets_id.msg_id),
                payload: KafkaLogOrKvPayload::KafkaLog(KafkaLogPayload::ListCommittedOffsetsOk {
                    offsets,
                }),
            },
        }
    }

    /// Frame an empty `list_committed_offsets_ok` reply.
    pub fn build_empty_list_committed_offsets_ok_msg(
        &self,
        list_committed_offsets_id: &NodeMsgId,
    ) -> (r: Message<KafkaLogOrKvPayload>)
        ensures
            r.src@ == self.id@,
            r.dst@ == list_committed_offsets_id.node_id@,
            r.body.msg_id is None,
            r.body.in_reply_to == Some(list_committed_offsets_id.msg_id),
            r.body.payload matches KafkaLogOrKvPayload::KafkaLog(
                KafkaLogPayload::ListCommittedOffsetsOk { offsets: o },
            ) && o@.len() == 0,
    {
        self.build_list_committed_offsets_ok_msg(list_committed_offsets_id, Vec::new())
    }

    /// Emit a `list_committed_offsets_ok` reply carrying `offsets`.
    pub fn build_and_send_list_committed_offsets_ok_msg(
        &self,
        list_committed_offsets_id: &NodeMsgId,
        offsets: Vec<(String, usize)>,
        out: &mut Vec<Message<KafkaLogOrKvPayload>>,
    )
        ensures
            appends_one(old(out)@, final(out)@),
            ({
                let m = final(out)@.last();
                &&& m.src@ == self.id@
                &&& m.dst@ == list_committed_offsets_id.node_id@
                &&& m.body.in_reply_to == Some(list_committed_offsets_id.msg_id)
                &&& m.body.payload matches KafkaLogOrKvPayload::KafkaLog(
                    KafkaLogPayload::ListCommittedOffsetsOk { offsets: o },
                ) && o == offsets
            }),
    {
        let m = self.build_list_committed_offsets_ok_msg(list_committed_offsets_id, offsets);
        out.push(m);
    }

    /// Emit an empty `list_committed_offsets_ok` reply.
    pub fn build_and_send_empty_list_committed_offsets_ok_msg(
        &self,
        list_committed_offsets_id: &NodeMsgId,
        out: &mut Vec<Message<KafkaLogOrKvPayload>>,
    )
        ensures
            appends_one(old(out)@, final(out)@),
            ({
                let m = final(out)@.last();
                &&& m.src@ == self.id@
                &&& m.dst@ == list_committed_offsets_id.node_id@
                &&& m.body.in_reply_to == Some(list_committed_offsets_id.msg_id)
                &&& m.body.payload matches KafkaLogOrKvPayload::KafkaLog(
                    KafkaLogPayload::ListCommittedOffsetsOk { offsets: o },
                ) && o@.len() == 0
            }),
    {
        self.build_and_send_list_committed_offsets_ok_msg(
            list_committed_offsets_id,
            Vec::new(),
            out,
        )
    }

    /// Frame a `send_ok` reply carrying the acknowledged offset.
    pub fn build_send_ok_msg(&self, send_id: &NodeMsgId, offset: usize, reply_mid: usize) -> (r:
        Message<KafkaLogOrKvPayload>)
        ensures
            r.src@ == self.id@,
            r.dst@ == send_id.node_id@,
            r.body.msg_id == Some(reply_mid),
            r.body.in_reply_to == Some(send_id.msg_id),
            r.body.payload matches KafkaLogOrKvPayload::KafkaLog(KafkaLogPayload::SendOk {
                offset: o,
            }) && o == offset,
    {
        Message {
            src: self.id.clone(),
            dst: send_id.node_id.clone(),
            body: Body {
                msg_id: Some(reply_mid),
                in_reply_to: Some(send_id.msg_id),
                payload: KafkaLogOrKvPayload::KafkaLog(KafkaLogPayload::SendOk { offset }),
            },
        }
    }




    /// Keep only the request pairs whose log this node knows.
    pub fn filter_offsets(&self, offsets: Vec<(String, usize)>) -> (r: Vec<(String, usize)>)
        ensures
            r@ == spec_filter_known(self.log_by_key, offsets@),
    {
        let mut r: Vec<(String, usize)> = Vec::new();
        let mut i: usize = 0;
        while i < offsets.len()
            invariant
                0 <= i <= offsets@.len(),
                r@ =~= spec_filter_known(self.log_by_key, offsets@.take(i as int)),
            decreases offsets@.len() - i,
        {
            proof {
                assert(offsets@.take(i + 1).drop_last() =~= offsets@.take(i as int));
                assert(offsets@.take(i + 1).last() == offsets@[i as int]);
            }
            let e = &offsets[i];
            if self.log_by_key.contains_key(&e.0) {
                r.push((e.0.clone(), e.1));
                proof {
                    assert(r@.last() == offsets@[i as int]);
                    assert(r@ =~= spec_filter_known(self.log_by_key, offsets@.take(i + 1)));
                }
            } else {
                proof {
                    assert(r@ =~= spec_filter_known(self.log_by_key, offsets@.take(i + 1)));
                }
            }
            i = i + 1;
        }
        proof {
            assert(offsets@.take(offsets@.len() as int) =~= offsets@);
        }
        r
    }

    /// Keep only the requested keys whose log this node knows.
    fn filter_keys(&self, keys: Vec<String>) -> (r: Vec<String>)
        ensures
            r@ == spec_filter_known_keys(self.log_by_key, keys@),
    {
        let mut r: Vec<String> = Vec::new();
        let mut i: usize = 0;
        while i < keys.len()
            invariant
                0 <= i <= keys@.len(),
                r@ =~= spec_filter_known_keys(self.log_by_key, keys@.take(i as int)),
            decreases keys@.len() - i,
        {
            proof {
                assert(keys@.take(i + 1).drop_last() =~= keys@.take(i as int));
                assert(keys@.take(i + 1).last() == keys@[i as int]);
            }
            let k = &keys[i];
            if self.log_by_key.contains_key(k) {
                r.push(k.clone());
                proof {
                    assert(r@.last() == keys@[i as int]);
                    assert(r@ =~= spec_filter_known_keys(self.log_by_key, keys@.take(i + 1)));
                }
            } else {
                proof {
                    assert(r@ =~= spec_filter_known_keys(self.log_by_key, keys@.take(i + 1)));
                }
            }
            i = i + 1;
        }
        proof {
            assert(keys@.take(keys@.len() as int) =~= keys@);
        }
        r
    }


    /// Fan a `poll` request out: ignore unknown keys, answer at once when
    /// nothing is left, and otherwise open one tracker plus, per log, a poll
    /// window of `seq-kv` reads.  A request naming one key twice, or an
    /// offset too large for a window, is rejected.
    pub fn poll(
        &mut self,
        src: String,
        msg_id: usize,
        offsets: Vec<(String, usize)>,
        out: &mut Vec<Message<KafkaLogOrKvPayload>>,
    ) -> (r: Result<(), NodeError>)
        requires
            old(self).wf(),
            old(self).msg_generator.free_msg_id + offsets@.len() * old(self).max_poll + 1
                <= usize::MAX,
        ensures
            final(self).wf(),
            final(self).id == old(self).id,
            final(self).max_poll == old(self).max_poll,
            final(self).completed_commits == old(self).completed_commits,
            final(self).completed_offset_reads == old(self).completed_offset_reads,
            ({
                let filtered = spec_filter_known(old(self).log_by_key, offsets@);
                let n = filtered.len() as int;
                let pid = (src@, msg_id as int);
                &&& r is Err ==> (*final(self) == *old(self) && final(out)@ == old(out)@)
                &&& !distinct_offset_keys(filtered) ==> r is Err
                &&& (distinct_offset_keys(filtered) && (forall|j: int|
                    0 <= j < n ==> (#[trigger] filtered[j]).1 + old(self).max_poll
                        <= usize::MAX)) ==> r is Ok
                &&& (exists|j: int|
                    0 <= j < n && (#[trigger] filtered[j]).1 + old(self).max_poll > usize::MAX)
                    ==> r is Err
                &&& (r is Ok && n == 0) ==> {
                    &&& final(self).log_by_key == old(self).log_by_key
                    &&& final(self).completed_polls == old(self).completed_polls
                    &&& appends_one(old(out)@, final(out)@)
                    &&& ({
                        let m = final(out)@.last();
                        &&& m.src@ == old(self).id@
                        &&& m.dst@ == src@
                        &&& m.body.in_reply_to == Some(msg_id)
                        &&& (m.body.payload matches KafkaLogOrKvPayload::KafkaLog(
                            KafkaLogPayload::PollOk { msgs: mm },
                        ) && mm@.len() == 0)
                    })
                }
                &&& (r is Ok && n > 0) ==> {
                    &&& final(self).completed_polls.has_key(pid)
                    &&& final(self).completed_polls.val_of(pid).tot_log_keys == n
                    &&& final(self).completed_polls.val_of(pid).progress@.len() == 0
                    &&& forall|c: (Seq<char>, int)|
                        c != pid ==> (#[trigger] final(self).completed_polls.has_key(c)) == old(self).completed_polls.has_key(c)
                    &&& forall|c: (Seq<char>, int)|
                        c != pid && old(self).completed_polls.has_key(c) ==> (#[trigger] final(self).completed_polls.val_of(c)) == old(self).completed_polls.val_of(c)
                    &&& forall|b: Seq<char>|
                        (#[trigger] final(self).log_by_key.has_key(b)) == old(self).log_by_key.has_key(b)
                    &&& forall|j: int|
                        0 <= j < n ==> {
                            let log1 = final(self).log_by_key.val_of(
                                (#[trigger] filtered[j]).0@,
                            );
                            &&& log1.completed_polls.has_key(pid)
                            &&& log1.completed_polls.val_of(pid).start == filtered[j].1
                            &&& log1.local_offset == old(self).log_by_key.val_of(
                                filtered[j].0@,
                            ).local_offset
                            &&& log1.local_committed_offset == old(self).log_by_key.val_of(
                                filtered[j].0@,
                            ).local_committed_offset
                        }
                    &&& forall|b: Seq<char>|
                        old(self).log_by_key.has_key(b) && !offset_key_present(filtered, b)
                            ==> (#[trigger] final(self).log_by_key.val_of(b)) == old(self).log_by_key.val_of(b)
                    &&& final(out)@.len() == old(out)@.len() + n * old(self).max_poll
                    &&& (forall|i: int|
                        0 <= i < old(out)@.len() ==> #[trigger] final(out)@[i] == old(out)@[i])
                    &&& all_seq_kv_reads(old(self).id@, final(out)@, old(out)@.len() as int)
                    &&& final(self).msg_generator.free_msg_id == old(self).msg_generator.free_msg_id + n * old(self).max_poll
                }
            }),
    {
        let filtered = self.filter_offsets(offsets);
        proof {
            lemma_filter_known_props(self.log_by_key, offsets@);
        }
        if !crate::node::distinct_keys_check(&filtered) {
            return Err(NodeError::UnexpectedMessage);
        }
        let n = filtered.len();
        let mut v: usize = 0;
        while v < n
            invariant
                0 <= v <= n,
                n == filtered@.len(),
                filtered@ == spec_filter_known(old(self).log_by_key, offsets@),
                forall|j: int|
                    0 <= j < v ==> (#[trigger] filtered@[j]).1 + self.max_poll <= usize::MAX,
                self.max_poll == old(self).max_poll,
                self.wf(),
                *self == *old(self),
            decreases n - v,
        {
            if filtered[v].1 > usize::MAX - self.max_poll {
                proof {
                    assert(filtered@[v as int].1 + old(self).max_poll > usize::MAX);
                }
                return Err(NodeError::UnexpectedMessage);
            }
            v = v + 1;
        }
        let poll_id = NodeMsgId::new(src, msg_id);
        if n == 0 {
            self.build_and_send_empty_poll_ok_msg(&poll_id, out);
            return Ok(());
        }
        proof {
            assert(poll_id.abs() == (src@, msg_id as int));
            let nn: int = n as int;
            let ll: int = offsets@.len() as int;
            let mp: int = old(self).max_poll as int;
            assert(nn * mp <= ll * mp) by (nonlinear_arith)
                requires
                    0 <= nn <= ll,
                    mp >= 0,
            ;
        }
        self.completed_polls.insert(poll_id.duplicate(), Progress::new(n));
        let mut i: usize = 0;
        while i < n
            invariant
                0 <= i <= n,
                n == filtered@.len(),
                filtered@ == spec_filter_known(old(self).log_by_key, offsets@),
                distinct_offset_keys(filtered@),
                forall|j: int|
                    0 <= j < n ==> old(self).log_by_key.has_key(
                        (#[trigger] filtered@[j]).0@,
                    ),
                poll_id.abs() == (src@, msg_id as int),
                self.wf(),
                self.id == old(self).id,
                self.max_poll == old(self).max_poll,
                self.completed_commits == old(self).completed_commits,
                self.completed_offset_reads == old(self).completed_offset_reads,
                self.completed_polls.has_key(poll_id.abs()),
                self.completed_polls.val_of(poll_id.abs()).tot_log_keys == n,
                self.completed_polls.val_of(poll_id.abs()).progress@.len() == 0,
                forall|c: (Seq<char>, int)|
                    c != poll_id.abs() ==> (#[trigger] self.completed_polls.has_key(c)) == old(self).completed_polls.has_key(c),
                forall|c: (Seq<char>, int)|
                    c != poll_id.abs() && old(self).completed_polls.has_key(c) ==> (
                    #[trigger] self.completed_polls.val_of(c)) == old(self).completed_polls.val_of(
                        c,
                    ),
                forall|b: Seq<char>|
                    (#[trigger] self.log_by_key.has_key(b)) == old(self).log_by_key.has_key(b),
                forall|j: int|
                    0 <= j < i ==> {
                        let log1 = self.log_by_key.val_of((#[trigger] filtered@[j]).0@);
                        &&& log1.completed_polls.has_key(poll_id.abs())
                        &&& log1.completed_polls.val_of(poll_id.abs()).start == filtered@[j].1
                        &&& log1.local_offset == old(self).log_by_key.val_of(
                            filtered@[j].0@,
                        ).local_offset
                        &&& log1.local_committed_offset == old(self).log_by_key.val_of(
                            filtered@[j].0@,
                        ).local_committed_offset
                    },
                forall|b: Seq<char>|
                    old(self).log_by_key.has_key(b) && !offset_key_present(
                        filtered@.take(i as int),
                        b,
                    ) ==> (#[trigger] self.log_by_key.val_of(b)) == old(self).log_by_key.val_of(b),
                out@.len() == old(out)@.len() + i * old(self).max_poll as int,
                forall|q: int| 0 <= q < old(out)@.len() ==> #[trigger] out@[q] == old(out)@[q],
                all_seq_kv_reads(old(self).id@, out@, old(out)@.len() as int),
                self.msg_generator.free_msg_id == old(self).msg_generator.free_msg_id + i * old(self).max_poll as int,
                old(self).msg_generator.free_msg_id + n * old(self).max_poll as int + 1
                    <= usize::MAX,
                n <= offsets@.len(),
                forall|j: int|
                    0 <= j < n ==> (#[trigger] filtered@[j]).1 + old(self).max_poll <= usize::MAX,
            decreases n - i,
        {
            let ghost mp: int = old(self).max_poll as int;
            let ghost ii: int = i as int;
            let ghost nn: int = n as int;
            proof {
                assert((ii + 1) * mp == ii * mp + mp) by (nonlinear_arith);
                assert((ii + 1) * mp <= nn * mp) by (nonlinear_arith)
                    requires
                        0 <= ii + 1 <= nn,
                        mp >= 0,
                ;
            }
            let e = &filtered[i];
            let key = e.0.clone();
            let offset = e.1;
            proof {
                if old(self).log_by_key.has_key(key@) {
                    assert(!offset_key_present(filtered@.take(i as int), key@));
                }
            }
            let mut log = match self.log_by_key.remove(&key) {
                None => {
                    return Err(NodeError::UnexpectedMessage);
                },
                Some(log) => log,
            };
            let ghost out_pre = out@;
            log.poll(&mut self.msg_generator, poll_id.duplicate(), offset, out);
            self.log_by_key.insert(key, log);
            proof {
                assert forall|q: int| old(out)@.len() <= q < out@.len() implies {
                    let m = #[trigger] out@[q];
                    &&& m.src@ == old(self).id@
                    &&& m.dst@ == "seq-kv"@
                    &&& m.body.payload matches KafkaLogOrKvPayload::Kv(KvPayload::Read { .. })
                } by {
                    if q < out_pre.len() {
                        assert(out@[q] == out_pre[q]);
                    } else {
                        let w = q - out_pre.len();
                        assert(is_kv_read(
                            out@[out_pre.len() + w],
                            old(self).id@,
                            "seq-kv"@,
                            self.msg_generator.free_msg_id - old(self).max_poll + w,
                            entry_key(filtered@[i as int].0@, filtered@[i as int].1 + w),
                        ));
                    }
                }
                assert forall|b: Seq<char>| #[trigger] self.log_by_key.has_key(b) implies {
                    let l = self.log_by_key.val_of(b);
                    &&& l.wf()
                    &&& l.key@ == b
                    &&& l.node_id@ == self.id@
                    &&& l.max_poll == self.max_poll
                } by {}
                assert forall|b: Seq<char>|
                    old(self).log_by_key.has_key(b) && !offset_key_present(
                        filtered@.take(i + 1),
                        b,
                    ) implies (#[trigger] self.log_by_key.val_of(b)) == old(self).log_by_key.val_of(b) by {
                    assert(filtered@.take(i + 1)[i as int] == filtered@[i as int]);
                    assert(b != filtered@[i as int].0@);
                    assert(!offset_key_present(filtered@.take(i as int), b));
                }
                assert forall|j: int| 0 <= j < i + 1 implies {
                    let log1 = self.log_by_key.val_of((#[trigger] filtered@[j]).0@);
                    &&& log1.completed_polls.has_key(poll_id.abs())
                    &&& log1.completed_polls.val_of(poll_id.abs()).start == filtered@[j].1
                    &&& log1.local_offset == old(self).log_by_key.val_of(
                        filtered@[j].0@,
                    ).local_offset
                    &&& log1.local_committed_offset == old(self).log_by_key.val_of(
                        filtered@[j].0@,
                    ).local_committed_offset
                } by {
                    if j < i {
                        assert(filtered@[j].0@ != filtered@[i as int].0@);
                    }
                }
            }
            i = i + 1;
        }
        proof {
            assert(filtered@.take(n as int) =~= filtered@);
        }
        Ok(())
    }


    /// Fan a `commit_offsets` request out: ignore unknown keys, answer at
    /// once when nothing is left, and otherwise open one tracker and raise
    /// each log's committed offset — commits the local cache already covers
    /// complete with no CAS.  A request naming one key twice is rejected.
    pub fn commit_offsets(
        &mut self,
        src: String,
        msg_id: usize,
        offsets: Vec<(String, usize)>,
        out: &mut Vec<Message<KafkaLogOrKvPayload>>,
    ) -> (r: Result<(), NodeError>)
        requires
            old(self).wf(),
            old(self).msg_generator.free_msg_id + offsets@.len() <= usize::MAX,
        ensures
            final(self).wf(),
            final(self).id == old(self).id,
            final(self).max_poll == old(self).max_poll,
            final(self).completed_polls == old(self).completed_polls,
            final(self).completed_offset_reads == old(self).completed_offset_reads,
            ({
                let filtered = spec_filter_known(old(self).log_by_key, offsets@);
                let n = filtered.len() as int;
                let cid = (src@, msg_id as int);
                let c = sync_commit_count(old(self).log_by_key, filtered, n);
                &&& r is Err ==> (*final(self) == *old(self) && final(out)@ == old(out)@)
                &&& !distinct_offset_keys(filtered) ==> r is Err
                &&& distinct_offset_keys(filtered) ==> r is Ok
                &&& (r is Ok && n == 0) ==> {
                    &&& final(self).log_by_key == old(self).log_by_key
                    &&& final(self).completed_commits == old(self).completed_commits
                    &&& appends_one(old(out)@, final(out)@)
                    &&& ({
                        let m = final(out)@.last();
                        &&& m.src@ == old(self).id@
                        &&& m.dst@ == src@
                        &&& m.body.in_reply_to == Some(msg_id)
                        &&& m.body.payload matches KafkaLogOrKvPayload::KafkaLog(
                            KafkaLogPayload::CommitOffsetsOk,
                        )
                    })
                }
                &&& (r is Ok && n > 0) ==> {
                    &&& forall|b: Seq<char>|
                        (#[trigger] final(self).log_by_key.has_key(b)) == old(self).log_by_key.has_key(b)
                    &&& forall|j: int|
                        0 <= j < n ==> {
                            let log0 = old(self).log_by_key.val_of((#[trigger] filtered[j]).0@);
                            let log1 = final(self).log_by_key.val_of(filtered[j].0@);
                            &&& log1.local_offset == log0.local_offset
                            &&& log1.local_committed_offset == log0.local_committed_offset
                            &&& log1.completed_polls == log0.completed_polls
                        }
                    &&& forall|b: Seq<char>|
                        old(self).log_by_key.has_key(b) && !offset_key_present(filtered, b)
                            ==> (#[trigger] final(self).log_by_key.val_of(b)) == old(self).log_by_key.val_of(b)
                    &&& final(self).msg_generator.free_msg_id == old(self).msg_generator.free_msg_id + (n - c)
                    &&& (forall|q: int|
                        0 <= q < old(out)@.len() ==> #[trigger] final(out)@[q] == old(out)@[q])
                    &&& c == n ==> {
                        &&& final(out)@.len() == old(out)@.len() + 1
                        &&& !final(self).completed_commits.has_key(cid)
                        &&& forall|c2: (Seq<char>, int)|
                            c2 != cid ==> (#[trigger] final(self).completed_commits.has_key(c2))
                                == old(self).completed_commits.has_key(c2)
                        &&& ({
                            let m = final(out)@.last();
                            &&& m.src@ == old(self).id@
                            &&& m.dst@ == src@
                            &&& m.body.in_reply_to == Some(msg_id)
                            &&& m.body.payload matches KafkaLogOrKvPayload::KafkaLog(
                                KafkaLogPayload::CommitOffsetsOk,
                            )
                        })
                    }
                    &&& c < n ==> {
                        &&& final(out)@.len() == old(out)@.len() + (n - c)
                        &&& all_lin_kv_cas(old(self).id@, final(out)@, old(out)@.len() as int)
                        &&& final(self).completed_commits.has_key(cid)
                        &&& final(self).completed_commits.val_of(cid).tot_log_keys == n
                        &&& final(self).completed_commits.val_of(cid).progress@.len() == c
                        &&& forall|c2: (Seq<char>, int)|
                            c2 != cid ==> (#[trigger] final(self).completed_commits.has_key(c2))
                                == old(self).completed_commits.has_key(c2)
                        &&& forall|c2: (Seq<char>, int)|
                            c2 != cid && old(self).completed_commits.has_key(c2) ==> (
                            #[trigger] final(self).completed_commits.val_of(c2)) == old(self).completed_commits.val_of(c2)
                    }
                }
            }),
    {
        let filtered = self.filter_offsets(offsets);
        proof {
            lemma_filter_known_props(self.log_by_key, offsets@);
        }
        if !crate::node::distinct_keys_check(&filtered) {
            return Err(NodeError::UnexpectedMessage);
        }
        let n = filtered.len();
        let commit_id = NodeMsgId::new(src, msg_id);
        if n == 0 {
            self.build_and_send_commit_offset_ok_msg(&commit_id, out);
            return Ok(());
        }
        proof {
            assert(commit_id.abs() == (src@, msg_id as int));
        }
        self.completed_commits.insert(commit_id.duplicate(), Progress::new(n));
        let ghost logs0 = old(self).log_by_key;
        let mut i: usize = 0;
        while i < n
            invariant
                0 <= i <= n,
                n == filtered@.len(),
                filtered@ == spec_filter_known(logs0, offsets@),
                distinct_offset_keys(filtered@),
                forall|j: int| 0 <= j < n ==> logs0.has_key((#[trigger] filtered@[j]).0@),
                commit_id.abs() == (src@, msg_id as int),
                logs0 == old(self).log_by_key,
                self.wf(),
                self.id == old(self).id,
                self.max_poll == old(self).max_poll,
                self.completed_polls == old(self).completed_polls,
                self.completed_offset_reads == old(self).completed_offset_reads,
                forall|b: Seq<char>|
                    (#[trigger] self.log_by_key.has_key(b)) == logs0.has_key(b),
                forall|j: int|
                    0 <= j < i ==> {
                        let log0 = logs0.val_of((#[trigger] filtered@[j]).0@);
                        let log1 = self.log_by_key.val_of(filtered@[j].0@);
                        &&& log1.local_offset == log0.local_offset
                        &&& log1.local_committed_offset == log0.local_committed_offset
                        &&& log1.completed_polls == log0.completed_polls
                    },
                forall|b: Seq<char>|
                    logs0.has_key(b) && !offset_key_present(filtered@.take(i as int), b) ==> (
                    #[trigger] self.log_by_key.val_of(b)) == logs0.val_of(b),
                self.msg_generator.free_msg_id == old(self).msg_generator.free_msg_id + (
                i as int - sync_commit_count(logs0, filtered@, i as int)),
                old(self).msg_generator.free_msg_id + offsets@.len() <= usize::MAX,
                n <= offsets@.len(),
                0 <= sync_commit_count(logs0, filtered@, i as int) <= i,
                forall|q: int| 0 <= q < old(out)@.len() ==> #[trigger] out@[q] == old(out)@[q],
                ({
                    let ci = sync_commit_count(logs0, filtered@, i as int);
                    if ci < n {
                        &&& out@.len() == old(out)@.len() + (i as int - ci)
                        &&& all_lin_kv_cas(old(self).id@, out@, old(out)@.len() as int)
                        &&& self.completed_commits.has_key(commit_id.abs())
                        &&& self.completed_commits.val_of(commit_id.abs()).tot_log_keys == n
                        &&& self.completed_commits.val_of(commit_id.abs()).progress@.len() == ci
                        &&& forall|c2: (Seq<char>, int)|
                            c2 != commit_id.abs() ==> (#[trigger] self.completed_commits.has_key(
                                c2,
                            )) == old(self).completed_commits.has_key(c2)
                        &&& forall|c2: (Seq<char>, int)|
                            c2 != commit_id.abs() && old(self).completed_commits.has_key(c2)
                                ==> (#[trigger] self.completed_commits.val_of(c2)) == old(self).completed_commits.val_of(c2)
                    } else {
                        &&& out@.len() == old(out)@.len() + 1
                        &&& !self.completed_commits.has_key(commit_id.abs())
                        &&& forall|c2: (Seq<char>, int)|
                            c2 != commit_id.abs() ==> (#[trigger] self.completed_commits.has_key(
                                c2,
                            )) == old(self).completed_commits.has_key(c2)
                        &&& ({
                            let m = out@.last();
                            &&& m.src@ == old(self).id@
                            &&& m.dst@ == src@
                            &&& m.body.in_reply_to == Some(msg_id)
                            &&& m.body.payload matches KafkaLogOrKvPayload::KafkaLog(
                                KafkaLogPayload::CommitOffsetsOk,
                            )
                        })
                    }
                }),
            decreases n - i,
        {
            proof {
                lemma_sync_commit_count_bound(logs0, filtered@, i as int);
            }
            let e = &filtered[i];
            let key = e.0.clone();
            let offset = e.1;
            proof {
                if logs0.has_key(key@) {
                    assert(!offset_key_present(filtered@.take(i as int), key@));
                }
            }
            let mut log = match self.log_by_key.remove(&key) {
                None => {
                    return Err(NodeError::UnexpectedMessage);
                },
                Some(log) => log,
            };
            let st = log.commit_offset(&mut self.msg_generator, commit_id.duplicate(), offset, out);
            self.log_by_key.insert(key.clone(), log);
            proof {
                assert forall|b: Seq<char>| #[trigger] self.log_by_key.has_key(b) implies {
                    let l = self.log_by_key.val_of(b);
                    &&& l.wf()
                    &&& l.key@ == b
                    &&& l.node_id@ == self.id@
                    &&& l.max_poll == self.max_poll
                } by {}
            }
            match st {
                OperationStatus::CommitOffsetCompleted { commit_id: done_id } => {
                    let rr = self.commit_offset_completed(key, &done_id, out);
                    match rr {
                        Ok(()) => {},
                        Err(e2) => {
                            return Err(e2);
                        },
                    }
                },
                _ => {},
            }
            proof {
                assert(sync_commit_count(logs0, filtered@, i + 1) == sync_commit_count(
                    logs0,
                    filtered@,
                    i as int,
                ) + (if logs0.val_of(filtered@[i as int].0@).local_committed_offset
                    >= filtered@[i as int].1 {
                    1int
                } else {
                    0int
                }));
                assert forall|b: Seq<char>|
                    logs0.has_key(b) && !offset_key_present(filtered@.take(i + 1), b) implies (
                #[trigger] self.log_by_key.val_of(b)) == logs0.val_of(b) by {
                    assert(filtered@.take(i + 1)[i as int] == filtered@[i as int]);
                    assert(b != filtered@[i as int].0@);
                    assert(!offset_key_present(filtered@.take(i as int), b));
                }
                assert forall|j: int| 0 <= j < i + 1 implies {
                    let log0 = logs0.val_of((#[trigger] filtered@[j]).0@);
                    let log1 = self.log_by_key.val_of(filtered@[j].0@);
                    &&& log1.local_offset == log0.local_offset
                    &&& log1.local_committed_offset == log0.local_committed_offset
                    &&& log1.completed_polls == log0.completed_polls
                } by {
                    if j < i {
                        assert(filtered@[j].0@ != filtered@[i as int].0@);
                    }
                }
            }
            i = i + 1;
        }
        proof {
            assert(filtered@.take(n as int) =~= filtered@);
        }
        Ok(())
    }

    /// Fan a `list_committed_offsets` request out: ignore unknown keys,
    /// answer at once when nothing is left, and otherwise open one tracker
    /// and read each log's committed offset from `lin-kv`.  A request naming
    /// one key twice is rejected.
    pub fn list_committed_offsets(
        &mut self,
        src: String,
        msg_id: usize,
        log_keys: Vec<String>,
        out: &mut Vec<Message<KafkaLogOrKvPayload>>,
    ) -> (r: Result<(), NodeError>)
        requires
            old(self).wf(),
            old(self).msg_generator.free_msg_id + log_keys@.len() <= usize::MAX,
        ensures
            final(self).wf(),
            final(self).id == old(self).id,
            final(self).max_poll == old(self).max_poll,
            final(self).completed_polls == old(self).completed_polls,
            final(self).completed_commits == old(self).completed_commits,
            ({
                let filtered = spec_filter_known_keys(old(self).log_by_key, log_keys@);
                let n = filtered.len() as int;
                let lid = (src@, msg_id as int);
                &&& r is Err ==> (*final(self) == *old(self) && final(out)@ == old(out)@)
                &&& !distinct_key_strings(filtered) ==> r is Err
                &&& distinct_key_strings(filtered) ==> r is Ok
                &&& (r is Ok && n == 0) ==> {
                    &&& final(self).log_by_key == old(self).log_by_key
                    &&& final(self).completed_offset_reads == old(self).completed_offset_reads
                    &&& appends_one(old(out)@, final(out)@)
                    &&& ({
                        let m = final(out)@.last();
                        &&& m.src@ == old(self).id@
                        &&& m.dst@ == src@
                        &&& m.body.in_reply_to == Some(msg_id)
                        &&& (m.body.payload matches KafkaLogOrKvPayload::KafkaLog(
                            KafkaLogPayload::ListCommittedOffsetsOk { offsets: oo },
                        ) && oo@.len() == 0)
                    })
                }
                &&& (r is Ok && n > 0) ==> {
                    &&& final(self).completed_offset_reads.has_key(lid)
                    &&& final(self).completed_offset_reads.val_of(lid).tot_log_keys == n
                    &&& final(self).completed_offset_reads.val_of(lid).progress@.len() == 0
                    &&& forall|c: (Seq<char>, int)|
                        c != lid ==> (#[trigger] final(self).completed_offset_reads.has_key(c))
                            == old(self).completed_offset_reads.has_key(c)
                    &&& forall|c: (Seq<char>, int)|
                        c != lid && old(self).completed_offset_reads.has_key(c) ==> (
                        #[trigger] final(self).completed_offset_reads.val_of(c)) == old(self).completed_offset_reads.val_of(c)
                    &&& forall|b: Seq<char>|
                        (#[trigger] final(self).log_by_key.has_key(b)) == old(self).log_by_key.has_key(b)
                    &&& forall|j: int|
                        0 <= j < n ==> {
                            let log0 = old(self).log_by_key.val_of((#[trigger] filtered[j])@);
                            let log1 = final(self).log_by_key.val_of(filtered[j]@);
                            &&& log1.local_offset == log0.local_offset
                            &&& log1.local_committed_offset == log0.local_committed_offset
                            &&& log1.completed_polls == log0.completed_polls
                            &&& log1.semantics_by_msg_id.has_key(
                                old(self).msg_generator.free_msg_id + j,
                            )
                            &&& (log1.semantics_by_msg_id.val_of(
                                old(self).msg_generator.free_msg_id + j,
                            ) matches LogMsgSemantics::ReadUpdatedCommittedOffset {
                                commit_id: cc,
                                offset: oo,
                            } && cc.abs() == lid && oo is None)
                        }
                    &&& forall|b: Seq<char>|
                        old(self).log_by_key.has_key(b) && (forall|j: int|
                            0 <= j < n ==> (#[trigger] filtered[j])@ != b) ==> (#[trigger] final(self).log_by_key.val_of(b)) == old(self).log_by_key.val_of(b)
                    &&& final(out)@.len() == old(out)@.len() + n
                    &&& (forall|q: int|
                        0 <= q < old(out)@.len() ==> #[trigger] final(out)@[q] == old(out)@[q])
                    &&& forall|j: int|
                        0 <= j < n ==> is_kv_read(
                            #[trigger] final(out)@[old(out)@.len() + j],
                            old(self).id@,
                            "lin-kv"@,
                            old(self).msg_generator.free_msg_id + j,
                            committed_key(filtered[j]@),
                        )
                    &&& final(self).msg_generator.free_msg_id == old(self).msg_generator.free_msg_id + n
                }
            }),
    {
        let filtered = self.filter_keys(log_keys);
        proof {
            lemma_filter_known_keys_props(self.log_by_key, log_keys@);
        }
        if !distinct_key_strings_check(&filtered) {
            return Err(NodeError::UnexpectedMessage);
        }
        let n = filtered.len();
        let list_id = NodeMsgId::new(src, msg_id);
        if n == 0 {
            self.build_and_send_empty_list_committed_offsets_ok_msg(&list_id, out);
            return Ok(());
        }
        proof {
            assert(list_id.abs() == (src@, msg_id as int));
        }
        self.completed_offset_reads.insert(list_id.duplicate(), Progress::new(n));
        let mut i: usize = 0;
        while i < n
            invariant
                0 <= i <= n,
                n == filtered@.len(),
                filtered@ == spec_filter_known_keys(old(self).log_by_key, log_keys@),
                distinct_key_strings(filtered@),
                forall|j: int| 0 <= j < n ==> old(self).log_by_key.has_key((#[trigger] filtered@[j])@),
                list_id.abs() == (src@, msg_id as int),
                self.wf(),
                self.id == old(self).id,
                self.max_poll == old(self).max_poll,
                self.completed_polls == old(self).completed_polls,
                self.completed_commits == old(self).completed_commits,
                self.completed_offset_reads.has_key(list_id.abs()),
                self.completed_offset_reads.val_of(list_id.abs()).tot_log_keys == n,
                self.completed_offset_reads.val_of(list_id.abs()).progress@.len() == 0,
                forall|c: (Seq<char>, int)|
                    c != list_id.abs() ==> (#[trigger] self.completed_offset_reads.has_key(c))
                        == old(self).completed_offset_reads.has_key(c),
                forall|c: (Seq<char>, int)|
                    c != list_id.abs() && old(self).completed_offset_reads.has_key(c) ==> (
                    #[trigger] self.completed_offset_reads.val_of(c)) == old(self).completed_offset_reads.val_of(c),
                forall|b: Seq<char>|
                    (#[trigger] self.log_by_key.has_key(b)) == old(self).log_by_key.has_key(b),
                forall|j: int|
                    0 <= j < i ==> {
                        let log0 = old(self).log_by_key.val_of((#[trigger] filtered@[j])@);
                        let log1 = self.log_by_key.val_of(filtered@[j]@);
                        &&& log1.local_offset == log0.local_offset
                        &&& log1.local_committed_offset == log0.local_committed_offset
                        &&& log1.completed_polls == log0.completed_polls
                        &&& log1.semantics_by_msg_id.has_key(
                            old(self).msg_generator.free_msg_id + j,
                        )
                        &&& (log1.semantics_by_msg_id.val_of(
                            old(self).msg_generator.free_msg_id + j,
                        ) matches LogMsgSemantics::ReadUpdatedCommittedOffset {
                            commit_id: cc,
                            offset: oo,
                        } && cc.abs() == list_id.abs() && oo is None)
                    },
                forall|b: Seq<char>|
                    old(self).log_by_key.has_key(b) && (forall|j: int|
                        0 <= j < i ==> (#[trigger] filtered@[j])@ != b) ==> (
                    #[trigger] self.log_by_key.val_of(b)) == old(self).log_by_key.val_of(b),
                out@.len() == old(out)@.len() + i,
                forall|q: int| 0 <= q < old(out)@.len() ==> #[trigger] out@[q] == old(out)@[q],
                forall|j: int|
                    0 <= j < i ==> is_kv_read(
                        #[trigger] out@[old(out)@.len() + j],
                        old(self).id@,
                        "lin-kv"@,
                        old(self).msg_generator.free_msg_id + j,
                        committed_key(filtered@[j]@),
                    ),
                self.msg_generator.free_msg_id == old(self).msg_generator.free_msg_id + i,
                old(self).msg_generator.free_msg_id + log_keys@.len() <= usize::MAX,
                n <= log_keys@.len(),
            decreases n - i,
        {
            let key = filtered[i].clone();
            let mut log = match self.log_by_key.remove(&key) {
                None => {
                    return Err(NodeError::UnexpectedMessage);
                },
                Some(log) => log,
            };
            log.read_committed_offset(&mut self.msg_generator, list_id.duplicate(), out);
            self.log_by_key.insert(key.clone(), log);
            proof {
                assert forall|b: Seq<char>| #[trigger] self.log_by_key.has_key(b) implies {
                    let l = self.log_by_key.val_of(b);
                    &&& l.wf()
                    &&& l.key@ == b
                    &&& l.node_id@ == self.id@
                    &&& l.max_poll == self.max_poll
                } by {}
                assert forall|b: Seq<char>|
                    old(self).log_by_key.has_key(b) && (forall|j: int|
                        0 <= j < i + 1 ==> (#[trigger] filtered@[j])@ != b) implies (
                #[trigger] self.log_by_key.val_of(b)) == old(self).log_by_key.val_of(b) by {
                    assert(filtered@[i as int]@ != b);
                }
                assert forall|j: int| 0 <= j < i + 1 implies {
                    let log0 = old(self).log_by_key.val_of((#[trigger] filtered@[j])@);
                    let log1 = self.log_by_key.val_of(filtered@[j]@);
                    &&& log1.local_offset == log0.local_offset
                    &&& log1.local_committed_offset == log0.local_committed_offset
                    &&& log1.completed_polls == log0.completed_polls
                    &&& log1.semantics_by_msg_id.has_key(
                        old(self).msg_generator.free_msg_id + j,
                    )
                    &&& (log1.semantics_by_msg_id.val_of(
                        old(self).msg_generator.free_msg_id + j,
                    ) matches LogMsgSemantics::ReadUpdatedCommittedOffset {
                        commit_id: cc,
                        offset: oo,
                    } && cc.abs() == list_id.abs() && oo is None)
                } by {
                    if j < i {
                        assert(filtered@[j]@ != filtered@[i as int]@);
                    }
                }
            }
            i = i + 1;
        }
        Ok(())
    }


    /// Whether the node still has enough outgoing message ids for this
    /// envelope; the event loop checks it before each step.
    pub fn can_step(&self, input_msg: &Message<KafkaLogOrKvPayload>) -> (r: bool)
        ensures
            r == (self.msg_generator.free_msg_id + ids_needed(
                input_msg.body.payload,
                self.max_poll as int,
            ) + 2 <= usize::MAX),
    {
        let needed: u128 = match &input_msg.body.payload {
            KafkaLogOrKvPayload::KafkaLog(kp) => match kp {
                KafkaLogPayload::Send { .. } => 1u128,
                KafkaLogPayload::Poll { offsets } => {
                    let olen = offsets.len();
                    proof {
                        let a: int = olen as int;
                        let b: int = self.max_poll as int;
                        assert(a * b <= 0xfffffffffffffffe0000000000000001int) by (nonlinear_arith)
                            requires
                                0 <= a <= 0xffffffffffffffffint,
                                0 <= b <= 0xffffffffffffffffint,
                        ;
                    }
                    let prod: u128 = (olen as u128) * (self.max_poll as u128);
                    prod + 1
                },
                KafkaLogPayload::CommitOffsets { offsets } => offsets.len() as u128,
                KafkaLogPayload::ListCommittedOffsets { keys } => keys.len() as u128,
                _ => 0u128,
            },
            KafkaLogOrKvPayload::Kv(_) => 2u128,
        };
        (self.msg_generator.free_msg_id as u128) + needed + 2 <= (usize::MAX as u128)
    }

    /// Handle one inbound envelope, client request or KV reply, and return
    /// the envelopes to write out.  Client requests fan out per `send`,
    /// `poll`, `commit_offsets` and `list_committed_offsets`, whose contracts
    /// give the exact effect; KV replies route per `cas_ok`, `cas_error`,
    /// `read_ok` and `key_not_found`.  A request without its message id is a
    /// fatal protocol error; a reply that matches no pending exchange is
    /// dropped; KV error codes other than contention and missing key are
    /// dropped.
    pub fn step(&mut self, input_msg: Message<KafkaLogOrKvPayload>) -> (r: Result<
        Vec<Message<KafkaLogOrKvPayload>>,
        NodeError,
    >)
        requires
            old(self).wf(),
            old(self).msg_generator.free_msg_id + ids_needed(
                input_msg.body.payload,
                old(self).max_poll as int,
            ) + 2 <= usize::MAX,
        ensures
            final(self).wf(),
            final(self).id == old(self).id,
            final(self).max_poll == old(self).max_poll,
            match input_msg.body.payload {
                KafkaLogOrKvPayload::KafkaLog(kp) => match kp {
                    KafkaLogPayload::Send { .. } => input_msg.body.msg_id is None ==> (r
                        == Result::<Vec<Message<KafkaLogOrKvPayload>>, NodeError>::Err(
                        NodeError::MissingMsgId,
                    ) && *final(self) == *old(self)),
                    KafkaLogPayload::Poll { .. } => input_msg.body.msg_id is None ==> (r
                        == Result::<Vec<Message<KafkaLogOrKvPayload>>, NodeError>::Err(
                        NodeError::MissingMsgId,
                    ) && *final(self) == *old(self)),
                    KafkaLogPayload::CommitOffsets { .. } => input_msg.body.msg_id is None ==> (r
                        == Result::<Vec<Message<KafkaLogOrKvPayload>>, NodeError>::Err(
                        NodeError::MissingMsgId,
                    ) && *final(self) == *old(self)),
                    KafkaLogPayload::ListCommittedOffsets { .. } => input_msg.body.msg_id is None
                        ==> (r == Result::<Vec<Message<KafkaLogOrKvPayload>>, NodeError>::Err(
                        NodeError::MissingMsgId,
                    ) && *final(self) == *old(self)),
                    _ => r matches Ok(v) && v@.len() == 0 && *final(self) == *old(self),
                },
                KafkaLogOrKvPayload::Kv(kv) => {
                    &&& input_msg.body.in_reply_to is None ==> (r matches Ok(v) && v@.len() == 0
                        && *final(self) == *old(self))
                    &&& (input_msg.body.in_reply_to matches Some(irt) && irt as int
                        >= old(self).msg_generator.free_msg_id) ==> (r matches Ok(v) && v@.len()
                        == 0 && *final(self) == *old(self))
                    &&& match kv {
                        KvPayload::CasOk | KvPayload::ReadOk { .. } => true,
                        KvPayload::Error { code, .. } => (code != 20 && code != 22) ==> (
                        r matches Ok(v) && v@.len() == 0 && *final(self) == *old(self)),
                        _ => r matches Ok(v) && v@.len() == 0 && *final(self) == *old(self),
                    }
                },
            },
            match input_msg.body.payload {
                KafkaLogOrKvPayload::KafkaLog(kp) => match kp {
                    KafkaLogPayload::Send { key, msg } => input_msg.body.msg_id matches Some(mid)
                        ==> ({
                        let oldlocal = if old(self).log_by_key.has_key(key@) {
                            old(self).log_by_key.val_of(key@).local_offset as int
                        } else {
                            0int
                        };
                        &&& Self::trackers_unchanged(*old(self), *final(self))
                        &&& final(self).log_by_key.has_key(key@)
                        &&& oldlocal < usize::MAX ==> {
                            &&& r is Ok
                            &&& r->Ok_0@.len() == 1
                            &&& is_kv_cas(
                                r->Ok_0@.last(),
                                old(self).id@,
                                "lin-kv"@,
                                old(self).msg_generator.free_msg_id as int,
                                offset_key(key@),
                                oldlocal,
                                oldlocal + 1,
                            )
                            &&& final(self).log_by_key.val_of(key@).semantics_by_msg_id.has_key(
                                old(self).msg_generator.free_msg_id as int,
                            )
                        }
                    }),
                    KafkaLogPayload::Poll { offsets } => input_msg.body.msg_id matches Some(mid)
                        ==> ({
                        let filtered = spec_filter_known(old(self).log_by_key, offsets@);
                        let n = filtered.len() as int;
                        &&& (distinct_offset_keys(filtered) && (forall|j: int|
                            0 <= j < n ==> (#[trigger] filtered[j]).1 + old(self).max_poll
                                <= usize::MAX)) ==> r is Ok
                        &&& (r is Ok && n == 0) ==> (r->Ok_0@.len() == 1
                            && r->Ok_0@.last().dst@ == input_msg.src@
                            && r->Ok_0@.last().body.in_reply_to == Some(mid))
                        &&& (r is Ok && n > 0) ==> {
                            &&& final(self).completed_polls.has_key((input_msg.src@, mid as int))
                            &&& final(self).completed_polls.val_of(
                                (input_msg.src@, mid as int),
                            ).tot_log_keys == n
                            &&& r->Ok_0@.len() == n * old(self).max_poll
                            &&& all_seq_kv_reads(old(self).id@, r->Ok_0@, 0)
                        }
                    }),
                    KafkaLogPayload::CommitOffsets { offsets } => input_msg.body.msg_id
                        matches Some(mid) ==> ({
                        let filtered = spec_filter_known(old(self).log_by_key, offsets@);
                        let n = filtered.len() as int;
                        let c = sync_commit_count(old(self).log_by_key, filtered, n);
                        &&& distinct_offset_keys(filtered) ==> r is Ok
                        &&& (r is Ok && n == 0) ==> (r->Ok_0@.len() == 1
                            && r->Ok_0@.last().dst@ == input_msg.src@
                            && r->Ok_0@.last().body.in_reply_to == Some(mid))
                        &&& (r is Ok && n > 0 && c < n) ==> {
                            &&& final(self).completed_commits.has_key((input_msg.src@, mid as int))
                            &&& r->Ok_0@.len() == n - c
                            &&& all_lin_kv_cas(old(self).id@, r->Ok_0@, 0)
                        }
                        &&& (r is Ok && n > 0 && c == n) ==> (r->Ok_0@.len() == 1
                            && r->Ok_0@.last().dst@ == input_msg.src@
                            && r->Ok_0@.last().body.in_reply_to == Some(mid))
                    }),
                    KafkaLogPayload::ListCommittedOffsets { keys } => input_msg.body.msg_id
                        matches Some(mid) ==> ({
                        let filtered = spec_filter_known_keys(old(self).log_by_key, keys@);
                        let n = filtered.len() as int;
                        &&& distinct_key_strings(filtered) ==> r is Ok
                        &&& (r is Ok && n == 0) ==> (r->Ok_0@.len() == 1
                            && r->Ok_0@.last().dst@ == input_msg.src@
                            && r->Ok_0@.last().body.in_reply_to == Some(mid))
                        &&& (r is Ok && n > 0) ==> {
                            &&& final(self).completed_offset_reads.has_key(
                                (input_msg.src@, mid as int),
                            )
                            &&& final(self).completed_offset_reads.val_of(
                                (input_msg.src@, mid as int),
                            ).tot_log_keys == n
                            &&& r->Ok_0@.len() == n
                        }
                    }),
                    _ => true,
                },
                KafkaLogOrKvPayload::Kv(kv) => match input_msg.body.in_reply_to {
                    None => true,
                    Some(irt) => {
                        let k = old(self).msg_generator.log_key_by_msg_id.val_of(irt as int)@;
                        let routed = irt < old(self).msg_generator.free_msg_id && old(self).msg_generator.log_key_by_msg_id.has_key(irt as int) && old(self).log_by_key.has_key(k);
                        let entry_known = routed && old(self).log_by_key.val_of(
                            k,
                        ).semantics_by_msg_id.has_key(irt as int);
                        match kv {
                            KvPayload::CasOk => {
                            &&& (entry_known && (old(self).log_by_key.val_of(
                                k,
                            ).semantics_by_msg_id.val_of(irt as int)
                                matches LogMsgSemantics::CasCommitOffset { .. })) ==> ({
                                let commit_id = old(self).log_by_key.val_of(
                                    k,
                                ).semantics_by_msg_id.val_of(irt as int)->CasCommitOffset_commit_id;
                                &&& r is Ok ==> Self::commit_tracker_step(
                                    *old(self),
                                    *final(self),
                                    commit_id,
                                    k,
                                    Seq::<Message<KafkaLogOrKvPayload>>::empty(),
                                    r->Ok_0@,
                                    Ok(()),
                                )
                                &&& r is Err ==> !old(self).completed_commits.has_key(
                                    commit_id.abs(),
                                )
                            })
                            &&& entry_known && (old(self).log_by_key.val_of(
                                k,
                            ).semantics_by_msg_id.val_of(irt as int) matches LogMsgSemantics::CasSend {
                                send_id,
                                offset,
                                ..
                            }) ==> ({
                                let send_id = old(self).log_by_key.val_of(
                                    k,
                                ).semantics_by_msg_id.val_of(irt as int)->CasSend_send_id;
                                let offset = old(self).log_by_key.val_of(
                                    k,
                                ).semantics_by_msg_id.val_of(irt as int)->CasSend_offset;
                                &&& r is Ok
                                &&& r->Ok_0@.len() == 2
                                &&& is_kv_write(
                                    r->Ok_0@[0],
                                    old(self).id@,
                                    "seq-kv"@,
                                    old(self).msg_generator.free_msg_id as int,
                                    entry_key(k, offset as int),
                                    old(self).log_by_key.val_of(k).semantics_by_msg_id.val_of(
                                        irt as int,
                                    )->CasSend_msg as int,
                                )
                                &&& r->Ok_0@[1].dst@ == send_id.node_id@
                                &&& r->Ok_0@[1].body.in_reply_to == Some(send_id.msg_id)
                                &&& (r->Ok_0@[1].body.payload
                                    matches KafkaLogOrKvPayload::KafkaLog(
                                    KafkaLogPayload::SendOk { offset: o },
                                ) && o == offset)
                            })
                            },
                            KvPayload::Error { code, .. } => (code == 22 && entry_known && (old(self).log_by_key.val_of(k).semantics_by_msg_id.val_of(irt as int)
                                matches LogMsgSemantics::CasSend { .. })) ==> ({
                                &&& r is Ok
                                &&& r->Ok_0@.len() == 1
                                &&& is_kv_read(
                                    r->Ok_0@[0],
                                    old(self).id@,
                                    "lin-kv"@,
                                    old(self).msg_generator.free_msg_id as int,
                                    offset_key(k),
                                )
                            }),
                            KvPayload::ReadOk { value } => {
                            &&& (entry_known && (old(self).log_by_key.val_of(
                                k,
                            ).semantics_by_msg_id.val_of(irt as int)
                                matches LogMsgSemantics::ReadUpdatedCommittedOffset {
                                offset: None,
                                ..
                            })) ==> ({
                                let list_id = old(self).log_by_key.val_of(
                                    k,
                                ).semantics_by_msg_id.val_of(
                                    irt as int,
                                )->ReadUpdatedCommittedOffset_commit_id;
                                &&& r is Ok ==> Self::list_tracker_step(
                                    *old(self),
                                    *final(self),
                                    list_id,
                                    k,
                                    value as int,
                                    Seq::<Message<KafkaLogOrKvPayload>>::empty(),
                                    r->Ok_0@,
                                    Ok(()),
                                )
                                &&& r is Err ==> !old(self).completed_offset_reads.has_key(
                                    list_id.abs(),
                                )
                            })
                            &&& (entry_known && (old(self).log_by_key.val_of(
                                k,
                            ).semantics_by_msg_id.val_of(irt as int)
                                matches LogMsgSemantics::ReadPollMessage { .. })) ==> ({
                                let poll_id = old(self).log_by_key.val_of(
                                    k,
                                ).semantics_by_msg_id.val_of(irt as int)->ReadPollMessage_poll_id;
                                let offset = old(self).log_by_key.val_of(
                                    k,
                                ).semantics_by_msg_id.val_of(irt as int)->ReadPollMessage_offset;
                                let log0 = old(self).log_by_key.val_of(k);
                                (log0.completed_polls.has_key(poll_id.abs()) && all_settled(
                                    filled_slots(
                                        log0.completed_polls.val_of(poll_id.abs()),
                                        offset as int,
                                        PollSlot::Hit(offset, value),
                                    ),
                                )) ==> {
                                    let window = slot_hits(
                                        filled_slots(
                                            log0.completed_polls.val_of(poll_id.abs()),
                                            offset as int,
                                            PollSlot::Hit(offset, value),
                                        ),
                                    );
                                    &&& r is Ok ==> Self::poll_tracker_step(
                                        *old(self),
                                        *final(self),
                                        poll_id,
                                        k,
                                        window,
                                        Seq::<Message<KafkaLogOrKvPayload>>::empty(),
                                        r->Ok_0@,
                                        Ok(()),
                                        old(self).msg_generator.free_msg_id as int,
                                        final(self).msg_generator.free_msg_id as int,
                                    )
                                    &&& r is Err ==> !old(self).completed_polls.has_key(
                                        poll_id.abs(),
                                    )
                                }
                            })
                            &&& (entry_known && (old(self).log_by_key.val_of(k).semantics_by_msg_id.val_of(irt as int)
                                matches LogMsgSemantics::ReadUpdatedOffset { .. }) && ({
                                let log0 = old(self).log_by_key.val_of(k);
                                let refreshed = if value > log0.local_offset {
                                    value as int
                                } else {
                                    log0.local_offset as int
                                };
                                refreshed < usize::MAX
                            })) ==> ({
                                let log0 = old(self).log_by_key.val_of(k);
                                let refreshed = if value > log0.local_offset {
                                    value as int
                                } else {
                                    log0.local_offset as int
                                };
                                &&& r is Ok
                                &&& r->Ok_0@.len() == 1
                                &&& is_kv_cas(
                                    r->Ok_0@[0],
                                    old(self).id@,
                                    "lin-kv"@,
                                    old(self).msg_generator.free_msg_id as int,
                                    offset_key(k),
                                    refreshed,
                                    refreshed + 1,
                                )
                                &&& final(self).log_by_key.val_of(k).local_offset == refreshed
                            })
                            },
                            _ => true,
                        }
                    },
                },
            },
    {
        let mut out: Vec<Message<KafkaLogOrKvPayload>> = Vec::new();
        let Message { src, dst: _dst, body } = input_msg;
        match body.payload {
            KafkaLogOrKvPayload::KafkaLog(kp) => match kp {
                KafkaLogPayload::Send { key, msg } => {
                    let mid = match body.msg_id {
                        None => {
                            return Err(NodeError::MissingMsgId);
                        },
                        Some(mid) => mid,
                    };
                    match self.send(src, mid, key, msg, &mut out) {
                        Ok(()) => Ok(out),
                        Err(e) => Err(e),
                    }
                },
                KafkaLogPayload::Poll { offsets } => {
                    let mid = match body.msg_id {
                        None => {
                            return Err(NodeError::MissingMsgId);
                        },
                        Some(mid) => mid,
                    };
                    match self.poll(src, mid, offsets, &mut out) {
                        Ok(()) => Ok(out),
                        Err(e) => Err(e),
                    }
                },
                KafkaLogPayload::CommitOffsets { offsets } => {
                    let mid = match body.msg_id {
                        None => {
                            return Err(NodeError::MissingMsgId);
                        },
                        Some(mid) => mid,
                    };
                    match self.commit_offsets(src, mid, offsets, &mut out) {
                        Ok(()) => Ok(out),
                        Err(e) => Err(e),
                    }
                },
                KafkaLogPayload::ListCommittedOffsets { keys } => {
                    let mid = match body.msg_id {
                        None => {
                            return Err(NodeError::MissingMsgId);
                        },
                        Some(mid) => mid,
                    };
                    match self.list_committed_offsets(src, mid, keys, &mut out) {
                        Ok(()) => Ok(out),
                        Err(e) => Err(e),
                    }
                },
                _ => Ok(out),
            },
            KafkaLogOrKvPayload::Kv(kv) => {
                let irt = match body.in_reply_to {
                    None => {
                        return Ok(out);
                    },
                    Some(irt) => irt,
                };
                if irt >= self.msg_generator.free_msg_id {
                    return Ok(out);
                }
                match kv {
                    KvPayload::CasOk => match self.cas_ok(irt, &mut out) {
                        Ok(()) => Ok(out),
                        Err(e) => Err(e),
                    },
                    KvPayload::Error { code, text: _text } => {
                        if code == KvErrorCode::CAS_ERROR {
                            match self.cas_error(irt, &mut out) {
                                Ok(()) => Ok(out),
                                Err(e) => Err(e),
                            }
                        } else if code == KvErrorCode::KEY_NOT_FOUND {
                            match self.key_not_found(irt, &mut out) {
                                Ok(()) => Ok(out),
                                Err(e) => Err(e),
                            }
                        } else {
                            Ok(out)
                        }
                    },
                    KvPayload::ReadOk { value } => match self.read_ok(irt, value, &mut out) {
                        Ok(()) => Ok(out),
                        Err(e) => Err(e),
                    },
                    _ => Ok(out),
                }
            },
        }
    }

    /// Act on a `cas_ok` reply: acknowledge the send with `send_ok`, or
    /// advance the commit tracker.  Unknown replies are ignored.
    pub fn cas_ok(
        &mut self,
        in_reply_to: usize,
        out: &mut Vec<Message<KafkaLogOrKvPayload>>,
    ) -> (r: Result<(), NodeError>)
        requires
            old(self).wf(),
            old(self).msg_generator.free_msg_id + 2 <= usize::MAX,
        ensures
            final(self).wf(),
            final(self).id == old(self).id,
            final(self).max_poll == old(self).max_poll,
            !final(self).msg_generator.log_key_by_msg_id.has_key(in_reply_to as int),
            forall|a: int|
                a != in_reply_to && a != old(self).msg_generator.free_msg_id ==> (#[trigger] final(self).msg_generator.log_key_by_msg_id.has_key(a)) == old(self).msg_generator.log_key_by_msg_id.has_key(a),
            forall|a: int|
                a != in_reply_to && a != old(self).msg_generator.free_msg_id && old(self).msg_generator.log_key_by_msg_id.has_key(a) ==> (#[trigger] final(self).msg_generator.log_key_by_msg_id.val_of(a)) == old(self).msg_generator.log_key_by_msg_id.val_of(a),
            ({
                let k = old(self).msg_generator.log_key_by_msg_id.val_of(in_reply_to as int)@;
                let routed = old(self).msg_generator.log_key_by_msg_id.has_key(in_reply_to as int)
                    && old(self).log_by_key.has_key(k);
                &&& !routed ==> (r is Ok && final(out)@ == old(out)@ && final(self).log_by_key
                    == old(self).log_by_key && Self::trackers_unchanged(*old(self), *final(self))
                    && final(self).msg_generator.free_msg_id == old(self).msg_generator.free_msg_id)
                &&& routed ==> {
                    let log0 = old(self).log_by_key.val_of(k);
                    &&& Self::logs_unchanged_except(*old(self), *final(self), k)
                    &&& final(self).log_by_key.has_key(k)
                    &&& if !log0.semantics_by_msg_id.has_key(in_reply_to as int) {
                        &&& r is Err
                        &&& final(out)@ == old(out)@
                        &&& Self::trackers_unchanged(*old(self), *final(self))
                    } else {
                        match log0.semantics_by_msg_id.val_of(in_reply_to as int) {
                            LogMsgSemantics::CasSend { send_id, msg, offset } => {
                                let log1 = final(self).log_by_key.val_of(k);
                                &&& r is Ok
                                &&& Self::trackers_unchanged(*old(self), *final(self))
                                &&& log1.local_offset == if offset > log0.local_offset {
                                    offset as int
                                } else {
                                    log0.local_offset as int
                                }
                                &&& log1.local_committed_offset == log0.local_committed_offset
                                &&& !log1.semantics_by_msg_id.has_key(in_reply_to as int)
                                &&& final(self).msg_generator.free_msg_id == old(self).msg_generator.free_msg_id + 2
                                &&& final(out)@.len() == old(out)@.len() + 2
                                &&& (forall|i: int|
                                    0 <= i < old(out)@.len() ==> #[trigger] final(out)@[i] == old(out)@[i])
                                &&& is_kv_write(
                                    final(out)@[old(out)@.len() as int],
                                    old(self).id@,
                                    "seq-kv"@,
                                    old(self).msg_generator.free_msg_id as int,
                                    entry_key(k, offset as int),
                                    msg as int,
                                )
                                &&& ({
                                    let m = final(out)@.last();
                                    &&& m.src@ == old(self).id@
                                    &&& m.dst@ == send_id.node_id@
                                    &&& m.body.in_reply_to == Some(send_id.msg_id)
                                    &&& (m.body.payload matches KafkaLogOrKvPayload::KafkaLog(
                                        KafkaLogPayload::SendOk { offset: o },
                                    ) && o == offset)
                                })
                            },
                            LogMsgSemantics::CasCommitOffset { commit_id, offset } => {
                                let log1 = final(self).log_by_key.val_of(k);
                                &&& log1.local_committed_offset == if offset
                                    > log0.local_committed_offset {
                                    offset as int
                                } else {
                                    log0.local_committed_offset as int
                                }
                                &&& log1.local_offset == log0.local_offset
                                &&& !log1.semantics_by_msg_id.has_key(in_reply_to as int)
                                &&& final(self).completed_polls == old(self).completed_polls
                                &&& final(self).completed_offset_reads == old(self).completed_offset_reads
                                &&& final(self).msg_generator.free_msg_id == old(self).msg_generator.free_msg_id
                                &&& Self::commit_tracker_step(
                                    *old(self),
                                    *final(self),
                                    commit_id,
                                    k,
                                    old(out)@,
                                    final(out)@,
                                    r,
                                )
                            },
                            _ => {
                                &&& r is Err
                                &&& final(out)@ == old(out)@
                                &&& Self::trackers_unchanged(*old(self), *final(self))
                            },
                        }
                    }
                }
            }),
    {
        let log_key = match self.consume_log_key(in_reply_to) {
            None => {
                return Ok(());
            },
            Some(k) => k,
        };
        let mut log = match self.log_by_key.remove(&log_key) {
            None => {
                return Ok(());
            },
            Some(log) => log,
        };
        let cas_result = log.cas_ok(&mut self.msg_generator, in_reply_to, out);
        self.log_by_key.insert(log_key.clone(), log);
        proof {
            assert forall|b: Seq<char>| #[trigger] self.log_by_key.has_key(b) implies {
                let l = self.log_by_key.val_of(b);
                &&& l.wf()
                &&& l.key@ == b
                &&& l.node_id@ == self.id@
                &&& l.max_poll == self.max_poll
            } by {}
        }
        match cas_result {
            Err(e) => Err(e),
            Ok(CasSemantics::SendCas { send_id, offset }) => {
                self.build_and_send_send_ok_msg(&send_id, offset, out);
                Ok(())
            },
            Ok(CasSemantics::CommitCas { commit_id, offset: _offset }) => {
                self.commit_offset_step_completed(log_key, &commit_id, out)
            },
        }
    }

    /// Act on a CAS contention error: the owning log refreshes the
    /// authoritative value and retries.  Unknown replies are ignored.
    pub fn cas_error(
        &mut self,
        msg_id: usize,
        out: &mut Vec<Message<KafkaLogOrKvPayload>>,
    ) -> (r: Result<(), NodeError>)
        requires
            old(self).wf(),
            old(self).msg_generator.free_msg_id < usize::MAX,
            msg_id < old(self).msg_generator.free_msg_id,
        ensures
            final(self).wf(),
            final(self).id == old(self).id,
            final(self).max_poll == old(self).max_poll,
            Self::trackers_unchanged(*old(self), *final(self)),
            !final(self).msg_generator.log_key_by_msg_id.has_key(msg_id as int),
            forall|a: int|
                a != msg_id && a != old(self).msg_generator.free_msg_id ==> (#[trigger] final(self).msg_generator.log_key_by_msg_id.has_key(a)) == old(self).msg_generator.log_key_by_msg_id.has_key(a),
            forall|a: int|
                a != msg_id && a != old(self).msg_generator.free_msg_id && old(self).msg_generator.log_key_by_msg_id.has_key(a) ==> (#[trigger] final(self).msg_generator.log_key_by_msg_id.val_of(a)) == old(self).msg_generator.log_key_by_msg_id.val_of(a),
            ({
                let k = old(self).msg_generator.log_key_by_msg_id.val_of(msg_id as int)@;
                let routed = old(self).msg_generator.log_key_by_msg_id.has_key(msg_id as int)
                    && old(self).log_by_key.has_key(k);
                &&& !routed ==> (r is Ok && final(out)@ == old(out)@ && final(self).log_by_key
                    == old(self).log_by_key && final(self).msg_generator.free_msg_id == old(self).msg_generator.free_msg_id)
                &&& routed ==> {
                    let log0 = old(self).log_by_key.val_of(k);
                    &&& Self::logs_unchanged_except(*old(self), *final(self), k)
                    &&& final(self).log_by_key.has_key(k)
                    &&& if !log0.semantics_by_msg_id.has_key(msg_id as int) {
                        r is Err && final(out)@ == old(out)@
                    } else {
                        match log0.semantics_by_msg_id.val_of(msg_id as int) {
                            LogMsgSemantics::CasSend { send_id, msg, offset: _o } => {
                                let log1 = final(self).log_by_key.val_of(k);
                                &&& r is Ok
                                &&& log1.local_offset == log0.local_offset
                                &&& log1.local_committed_offset == log0.local_committed_offset
                                &&& !log1.semantics_by_msg_id.has_key(msg_id as int)
                                &&& log1.semantics_by_msg_id.has_key(
                                    old(self).msg_generator.free_msg_id as int,
                                )
                                &&& (log1.semantics_by_msg_id.val_of(
                                    old(self).msg_generator.free_msg_id as int,
                                ) matches LogMsgSemantics::ReadUpdatedOffset { send_id: s, msg: m }
                                    && s == send_id && m == msg)
                                &&& final(self).msg_generator.free_msg_id == old(self).msg_generator.free_msg_id + 1
                                &&& appends_one(old(out)@, final(out)@)
                                &&& is_kv_read(
                                    final(out)@.last(),
                                    old(self).id@,
                                    "lin-kv"@,
                                    old(self).msg_generator.free_msg_id as int,
                                    offset_key(k),
                                )
                            },
                            LogMsgSemantics::CasCommitOffset { commit_id, offset } => {
                                let log1 = final(self).log_by_key.val_of(k);
                                &&& r is Ok
                                &&& log1.local_offset == log0.local_offset
                                &&& log1.local_committed_offset == log0.local_committed_offset
                                &&& !log1.semantics_by_msg_id.has_key(msg_id as int)
                                &&& log1.semantics_by_msg_id.has_key(
                                    old(self).msg_generator.free_msg_id as int,
                                )
                                &&& (log1.semantics_by_msg_id.val_of(
                                    old(self).msg_generator.free_msg_id as int,
                                ) matches LogMsgSemantics::ReadUpdatedCommittedOffset {
                                    commit_id: c,
                                    offset: o,
                                } && c == commit_id && o == Some(offset))
                                &&& final(self).msg_generator.free_msg_id == old(self).msg_generator.free_msg_id + 1
                                &&& appends_one(old(out)@, final(out)@)
                                &&& is_kv_read(
                                    final(out)@.last(),
                                    old(self).id@,
                                    "lin-kv"@,
                                    old(self).msg_generator.free_msg_id as int,
                                    committed_key(k),
                                )
                            },
                            _ => r is Err && final(out)@ == old(out)@,
                        }
                    }
                }
            }),
    {
        let log_key = match self.consume_log_key(msg_id) {
            None => {
                return Ok(());
            },
            Some(k) => k,
        };
        let mut log = match self.log_by_key.remove(&log_key) {
            None => {
                return Ok(());
            },
            Some(log) => log,
        };
        let result = log.cas_error(&mut self.msg_generator, msg_id, out);
        self.log_by_key.insert(log_key, log);
        proof {
            assert forall|b: Seq<char>| #[trigger] self.log_by_key.has_key(b) implies {
                let l = self.log_by_key.val_of(b);
                &&& l.wf()
                &&& l.key@ == b
                &&& l.node_id@ == self.id@
                &&& l.max_poll == self.max_poll
            } by {}
        }
        result
    }


    /// Act on a `read_ok` reply: refresh the owning log's caches and either
    /// retry the suspended operation or advance the waiting tracker.
    /// Unknown replies are ignored.
    pub fn read_ok(
        &mut self,
        msg_id: usize,
        value: usize,
        out: &mut Vec<Message<KafkaLogOrKvPayload>>,
    ) -> (r: Result<(), NodeError>)
        requires
            old(self).wf(),
            old(self).msg_generator.free_msg_id + 2 <= usize::MAX,
            msg_id < old(self).msg_generator.free_msg_id,
        ensures
            final(self).wf(),
            final(self).id == old(self).id,
            final(self).max_poll == old(self).max_poll,
            !final(self).msg_generator.log_key_by_msg_id.has_key(msg_id as int),
            forall|a: int|
                a != msg_id && a != old(self).msg_generator.free_msg_id ==> (#[trigger] final(self).msg_generator.log_key_by_msg_id.has_key(a)) == old(self).msg_generator.log_key_by_msg_id.has_key(a),
            forall|a: int|
                a != msg_id && a != old(self).msg_generator.free_msg_id && old(self).msg_generator.log_key_by_msg_id.has_key(a) ==> (#[trigger] final(self).msg_generator.log_key_by_msg_id.val_of(a)) == old(self).msg_generator.log_key_by_msg_id.val_of(a),
            ({
                let k = old(self).msg_generator.log_key_by_msg_id.val_of(msg_id as int)@;
                let routed = old(self).msg_generator.log_key_by_msg_id.has_key(msg_id as int)
                    && old(self).log_by_key.has_key(k);
                &&& !routed ==> (r is Ok && final(out)@ == old(out)@ && final(self).log_by_key
                    == old(self).log_by_key && Self::trackers_unchanged(*old(self), *final(self))
                    && final(self).msg_generator.free_msg_id == old(self).msg_generator.free_msg_id)
                &&& routed ==> {
                    let log0 = old(self).log_by_key.val_of(k);
                    &&& Self::logs_unchanged_except(*old(self), *final(self), k)
                    &&& final(self).log_by_key.has_key(k)
                    &&& if !log0.semantics_by_msg_id.has_key(msg_id as int) {
                        &&& r is Err
                        &&& final(out)@ == old(out)@
                        &&& Self::trackers_unchanged(*old(self), *final(self))
                    } else {
                        let log1 = final(self).log_by_key.val_of(k);
                        match log0.semantics_by_msg_id.val_of(msg_id as int) {
                            LogMsgSemantics::ReadUpdatedOffset { send_id, msg } => {
                                let refreshed = if value > log0.local_offset {
                                    value as int
                                } else {
                                    log0.local_offset as int
                                };
                                &&& Self::trackers_unchanged(*old(self), *final(self))
                                &&& log1.local_offset == refreshed
                                &&& log1.local_committed_offset == log0.local_committed_offset
                                &&& refreshed == usize::MAX ==> (r is Err && final(out)@ == old(out)@)
                                &&& refreshed < usize::MAX ==> {
                                    &&& r is Ok
                                    &&& !log1.semantics_by_msg_id.has_key(msg_id as int)
                                    &&& log1.semantics_by_msg_id.has_key(
                                        old(self).msg_generator.free_msg_id as int,
                                    )
                                    &&& (log1.semantics_by_msg_id.val_of(
                                        old(self).msg_generator.free_msg_id as int,
                                    ) matches LogMsgSemantics::CasSend {
                                        send_id: sid,
                                        msg: m,
                                        offset: o,
                                    } && sid == send_id && m == msg && o == refreshed + 1)
                                    &&& final(self).msg_generator.free_msg_id == old(self).msg_generator.free_msg_id + 1
                                    &&& appends_one(old(out)@, final(out)@)
                                    &&& is_kv_cas(
                                        final(out)@.last(),
                                        old(self).id@,
                                        "lin-kv"@,
                                        old(self).msg_generator.free_msg_id as int,
                                        offset_key(k),
                                        refreshed,
                                        refreshed + 1,
                                    )
                                }
                            },
                            LogMsgSemantics::ReadUpdatedCommittedOffset {
                                commit_id,
                                offset: Some(offset),
                            } => {
                                let refreshed = if value > log0.local_committed_offset {
                                    value as int
                                } else {
                                    log0.local_committed_offset as int
                                };
                                &&& log1.local_offset == log0.local_offset
                                &&& log1.local_committed_offset == refreshed
                                &&& !log1.semantics_by_msg_id.has_key(msg_id as int)
                                &&& final(self).completed_polls == old(self).completed_polls
                                &&& final(self).completed_offset_reads == old(self).completed_offset_reads
                                &&& refreshed >= offset ==> {
                                    &&& final(self).msg_generator.free_msg_id == old(self).msg_generator.free_msg_id
                                    &&& Self::commit_tracker_step(
                                        *old(self),
                                        *final(self),
                                        commit_id,
                                        k,
                                        old(out)@,
                                        final(out)@,
                                        r,
                                    )
                                }
                                &&& refreshed < offset ==> {
                                    &&& r is Ok
                                    &&& final(self).completed_commits == old(self).completed_commits
                                    &&& log1.semantics_by_msg_id.has_key(
                                        old(self).msg_generator.free_msg_id as int,
                                    )
                                    &&& (log1.semantics_by_msg_id.val_of(
                                        old(self).msg_generator.free_msg_id as int,
                                    ) matches LogMsgSemantics::CasCommitOffset {
                                        commit_id: c,
                                        offset: o,
                                    } && c == commit_id && o == offset)
                                    &&& final(self).msg_generator.free_msg_id == old(self).msg_generator.free_msg_id + 1
                                    &&& appends_one(old(out)@, final(out)@)
                                    &&& is_kv_cas(
                                        final(out)@.last(),
                                        old(self).id@,
                                        "lin-kv"@,
                                        old(self).msg_generator.free_msg_id as int,
                                        committed_key(k),
                                        refreshed,
                                        offset as int,
                                    )
                                }
                            },
                            LogMsgSemantics::ReadUpdatedCommittedOffset {
                                commit_id,
                                offset: None,
                            } => {
                                let refreshed = if value > log0.local_committed_offset {
                                    value as int
                                } else {
                                    log0.local_committed_offset as int
                                };
                                &&& log1.local_offset == log0.local_offset
                                &&& log1.local_committed_offset == refreshed
                                &&& !log1.semantics_by_msg_id.has_key(msg_id as int)
                                &&& final(self).completed_polls == old(self).completed_polls
                                &&& final(self).completed_commits == old(self).completed_commits
                                &&& final(self).msg_generator.free_msg_id == old(self).msg_generator.free_msg_id
                                &&& Self::list_tracker_step(
                                    *old(self),
                                    *final(self),
                                    commit_id,
                                    k,
                                    value as int,
                                    old(out)@,
                                    final(out)@,
                                    r,
                                )
                            },
                            LogMsgSemantics::ReadPollMessage { poll_id, offset } => {
                                &&& log1.local_offset == log0.local_offset
                                &&& log1.local_committed_offset == log0.local_committed_offset
                                &&& !log1.semantics_by_msg_id.has_key(msg_id as int)
                                &&& final(self).completed_commits == old(self).completed_commits
                                &&& final(self).completed_offset_reads == old(self).completed_offset_reads
                                &&& if !log0.completed_polls.has_key(poll_id.abs()) {
                                    &&& r is Ok
                                    &&& final(out)@ == old(out)@
                                    &&& final(self).completed_polls == old(self).completed_polls
                                    &&& final(self).msg_generator.free_msg_id == old(self).msg_generator.free_msg_id
                                } else {
                                    let buf = log0.completed_polls.val_of(poll_id.abs());
                                    let newslots = filled_slots(
                                        buf,
                                        offset as int,
                                        PollSlot::Hit(offset, value),
                                    );
                                    if all_settled(newslots) {
                                        &&& !log1.completed_polls.has_key(poll_id.abs())
                                        &&& Self::poll_tracker_step(
                                            *old(self),
                                            *final(self),
                                            poll_id,
                                            k,
                                            slot_hits(newslots),
                                            old(out)@,
                                            final(out)@,
                                            r,
                                            old(self).msg_generator.free_msg_id as int,
                                            final(self).msg_generator.free_msg_id as int,
                                        )
                                    } else {
                                        &&& r is Ok
                                        &&& final(out)@ == old(out)@
                                        &&& final(self).completed_polls == old(self).completed_polls
                                        &&& log1.completed_polls.has_key(poll_id.abs())
                                        &&& log1.completed_polls.val_of(poll_id.abs()).slots@
                                            == newslots
                                        &&& final(self).msg_generator.free_msg_id == old(self).msg_generator.free_msg_id
                                    }
                                }
                            },
                            _ => {
                                &&& r is Err
                                &&& final(out)@ == old(out)@
                                &&& Self::trackers_unchanged(*old(self), *final(self))
                            },
                        }
                    }
                }
            }),
    {
        let log_key = match self.consume_log_key(msg_id) {
            None => {
                return Ok(());
            },
            Some(k) => k,
        };
        let mut log = match self.log_by_key.remove(&log_key) {
            None => {
                return Ok(());
            },
            Some(log) => log,
        };
        let st = log.read_ok(&mut self.msg_generator, msg_id, value, out);
        self.log_by_key.insert(log_key.clone(), log);
        proof {
            assert forall|b: Seq<char>| #[trigger] self.log_by_key.has_key(b) implies {
                let l = self.log_by_key.val_of(b);
                &&& l.wf()
                &&& l.key@ == b
                &&& l.node_id@ == self.id@
                &&& l.max_poll == self.max_poll
            } by {}
        }
        match st {
            Err(e) => Err(e),
            Ok(OperationStatus::InProgress) => Ok(()),
            Ok(OperationStatus::PollCompleted { poll_id, msgs }) => self.poll_step_completed(
                log_key,
                msgs,
                &poll_id,
                out,
            ),
            Ok(OperationStatus::CommitOffsetCompleted { commit_id }) => self
                .commit_offset_step_completed(log_key, &commit_id, out),
            Ok(
                OperationStatus::ListCommitOffsetCompleted { list_committed_offset_id, offset },
            ) => self.list_committed_offsets_step_completed(
                log_key,
                &list_committed_offset_id,
                offset,
                out,
            ),
        }
    }

    /// Act on a `key_not_found` KV error: a missing poll position marks the
    /// end of that window, a missing committed offset lists as zero.
    /// Unknown replies are ignored.
    pub fn key_not_found(
        &mut self,
        msg_id: usize,
        out: &mut Vec<Message<KafkaLogOrKvPayload>>,
    ) -> (r: Result<(), NodeError>)
        requires
            old(self).wf(),
            old(self).msg_generator.free_msg_id < usize::MAX,
        ensures
            final(self).wf(),
            final(self).id == old(self).id,
            final(self).max_poll == old(self).max_poll,
            !final(self).msg_generator.log_key_by_msg_id.has_key(msg_id as int),
            forall|a: int|
                a != msg_id && a != old(self).msg_generator.free_msg_id ==> (#[trigger] final(self).msg_generator.log_key_by_msg_id.has_key(a)) == old(self).msg_generator.log_key_by_msg_id.has_key(a),
            forall|a: int|
                a != msg_id && a != old(self).msg_generator.free_msg_id && old(self).msg_generator.log_key_by_msg_id.has_key(a) ==> (#[trigger] final(self).msg_generator.log_key_by_msg_id.val_of(a)) == old(self).msg_generator.log_key_by_msg_id.val_of(a),
            ({
                let k = old(self).msg_generator.log_key_by_msg_id.val_of(msg_id as int)@;
                let routed = old(self).msg_generator.log_key_by_msg_id.has_key(msg_id as int)
                    && old(self).log_by_key.has_key(k);
                &&& !routed ==> (r is Ok && final(out)@ == old(out)@ && final(self).log_by_key
                    == old(self).log_by_key && Self::trackers_unchanged(*old(self), *final(self))
                    && final(self).msg_generator.free_msg_id == old(self).msg_generator.free_msg_id)
                &&& routed ==> {
                    let log0 = old(self).log_by_key.val_of(k);
                    &&& Self::logs_unchanged_except(*old(self), *final(self), k)
                    &&& final(self).log_by_key.has_key(k)
                    &&& if !log0.semantics_by_msg_id.has_key(msg_id as int) {
                        &&& r is Err
                        &&& final(out)@ == old(out)@
                        &&& Self::trackers_unchanged(*old(self), *final(self))
                    } else {
                        let log1 = final(self).log_by_key.val_of(k);
                        match log0.semantics_by_msg_id.val_of(msg_id as int) {
                            LogMsgSemantics::ReadPollMessage { poll_id, offset } => {
                                &&& log1.local_offset == log0.local_offset
                                &&& log1.local_committed_offset == log0.local_committed_offset
                                &&& !log1.semantics_by_msg_id.has_key(msg_id as int)
                                &&& final(self).completed_commits == old(self).completed_commits
                                &&& final(self).completed_offset_reads == old(self).completed_offset_reads
                                &&& if !log0.completed_polls.has_key(poll_id.abs()) {
                                    &&& r is Ok
                                    &&& final(out)@ == old(out)@
                                    &&& final(self).completed_polls == old(self).completed_polls
                                    &&& final(self).msg_generator.free_msg_id == old(self).msg_generator.free_msg_id
                                } else {
                                    let buf = log0.completed_polls.val_of(poll_id.abs());
                                    let newslots = filled_slots(buf, offset as int, PollSlot::Miss);
                                    if all_settled(newslots) {
                                        &&& !log1.completed_polls.has_key(poll_id.abs())
                                        &&& Self::poll_tracker_step(
                                            *old(self),
                                            *final(self),
                                            poll_id,
                                            k,
                                            slot_hits(newslots),
                                            old(out)@,
                                            final(out)@,
                                            r,
                                            old(self).msg_generator.free_msg_id as int,
                                            final(self).msg_generator.free_msg_id as int,
                                        )
                                    } else {
                                        &&& r is Ok
                                        &&& final(out)@ == old(out)@
                                        &&& final(self).completed_polls == old(self).completed_polls
                                        &&& log1.completed_polls.has_key(poll_id.abs())
                                        &&& log1.completed_polls.val_of(poll_id.abs()).slots@
                                            == newslots
                                        &&& final(self).msg_generator.free_msg_id == old(self).msg_generator.free_msg_id
                                    }
                                }
                            },
                            LogMsgSemantics::ReadUpdatedCommittedOffset {
                                commit_id,
                                offset: None,
                            } => {
                                &&& log1.local_offset == log0.local_offset
                                &&& log1.local_committed_offset == log0.local_committed_offset
                                &&& !log1.semantics_by_msg_id.has_key(msg_id as int)
                                &&& final(self).completed_polls == old(self).completed_polls
                                &&& final(self).completed_commits == old(self).completed_commits
                                &&& final(self).msg_generator.free_msg_id == old(self).msg_generator.free_msg_id
                                &&& Self::list_tracker_step(
                                    *old(self),
                                    *final(self),
                                    commit_id,
                                    k,
                                    0,
                                    old(out)@,
                                    final(out)@,
                                    r,
                                )
                            },
                            _ => {
                                &&& r is Err
                                &&& final(out)@ == old(out)@
                                &&& Self::trackers_unchanged(*old(self), *final(self))
                            },
                        }
                    }
                }
            }),
    {
        let log_key = match self.consume_log_key(msg_id) {
            None => {
                return Ok(());
            },
            Some(k) => k,
        };
        let mut log = match self.log_by_key.remove(&log_key) {
            None => {
                return Ok(());
            },
            Some(log) => log,
        };
        let st = log.missing_key_error(msg_id);
        self.log_by_key.insert(log_key.clone(), log);
        proof {
            assert forall|b: Seq<char>| #[trigger] self.log_by_key.has_key(b) implies {
                let l = self.log_by_key.val_of(b);
                &&& l.wf()
                &&& l.key@ == b
                &&& l.node_id@ == self.id@
                &&& l.max_poll == self.max_poll
            } by {}
        }
        match st {
            Err(e) => Err(e),
            Ok(OperationStatus::InProgress) => Ok(()),
            Ok(OperationStatus::PollCompleted { poll_id, msgs }) => self.poll_step_completed(
                log_key,
                msgs,
                &poll_id,
                out,
            ),
            Ok(OperationStatus::CommitOffsetCompleted { commit_id }) => self
                .commit_offset_step_completed(log_key, &commit_id, out),
            Ok(
                OperationStatus::ListCommitOffsetCompleted { list_committed_offset_id, offset },
            ) => self.list_committed_offsets_step_completed(
                log_key,
                &list_committed_offset_id,
                offset,
                out,
            ),
        }
    }

    /// All logs but `b0` are as before.
    pub open spec fn logs_unchanged_except(pre: Self, post: Self, b0: Seq<char>) -> bool {
        &&& forall|b: Seq<char>|
            b != b0 ==> (#[trigger] post.log_by_key.has_key(b)) == pre.log_by_key.has_key(b)
        &&& forall|b: Seq<char>|
            b != b0 && pre.log_by_key.has_key(b) ==> (#[trigger] post.log_by_key.val_of(b))
                == pre.log_by_key.val_of(b)
    }

    /// The three progress tables are as before.
    pub open spec fn trackers_unchanged(pre: Self, post: Self) -> bool {
        &&& post.completed_polls == pre.completed_polls
        &&& post.completed_commits == pre.completed_commits
        &&& post.completed_offset_reads == pre.completed_offset_reads
    }

    /// Start a `send` for one client request: the named log (created at
    /// first use) reserves its next offset with a CAS on `lin-kv`.
    pub fn send(
        &mut self,
        src: String,
        msg_id: usize,
        key: String,
        msg: usize,
        out: &mut Vec<Message<KafkaLogOrKvPayload>>,
    ) -> (r: Result<(), NodeError>)
        requires
            old(self).wf(),
            old(self).msg_generator.free_msg_id < usize::MAX,
        ensures
            final(self).wf(),
            final(self).id == old(self).id,
            final(self).max_poll == old(self).max_poll,
            Self::trackers_unchanged(*old(self), *final(self)),
            Self::logs_unchanged_except(*old(self), *final(self), key@),
            final(self).log_by_key.has_key(key@),
            ({
                let oldlocal = if old(self).log_by_key.has_key(key@) {
                    old(self).log_by_key.val_of(key@).local_offset as int
                } else {
                    0int
                };
                &&& oldlocal == usize::MAX ==> (r is Err && final(out)@ == old(out)@ && final(self).msg_generator == old(self).msg_generator)
                &&& oldlocal < usize::MAX ==> {
                    &&& r is Ok
                    &&& final(self).log_by_key.val_of(key@).local_offset == oldlocal
                    &&& final(self).log_by_key.val_of(key@).local_committed_offset == (if old(self).log_by_key.has_key(key@) {
                        old(self).log_by_key.val_of(key@).local_committed_offset as int
                    } else {
                        0int
                    })
                    &&& final(self).log_by_key.val_of(key@).semantics_by_msg_id.has_key(
                        old(self).msg_generator.free_msg_id as int,
                    )
                    &&& (final(self).log_by_key.val_of(key@).semantics_by_msg_id.val_of(
                        old(self).msg_generator.free_msg_id as int,
                    ) matches LogMsgSemantics::CasSend { send_id: s, msg: m, offset: o } && s.abs()
                        == (src@, msg_id as int) && m == msg && o == oldlocal + 1)
                    &&& final(self).msg_generator.free_msg_id == old(self).msg_generator.free_msg_id + 1
                    &&& appends_one(old(out)@, final(out)@)
                    &&& is_kv_cas(
                        final(out)@.last(),
                        old(self).id@,
                        "lin-kv"@,
                        old(self).msg_generator.free_msg_id as int,
                        offset_key(key@),
                        oldlocal,
                        oldlocal + 1,
                    )
                }
            }),
    {
        let mut log = match self.log_by_key.remove(&key) {
            Some(log) => log,
            None => AsyncKafkaLog::new(key.clone(), self.id.clone(), self.max_poll),
        };
        if log.local_offset == usize::MAX {
            self.log_by_key.insert(key, log);
            proof {
                assert forall|b: Seq<char>| #[trigger] self.log_by_key.has_key(b) implies {
                    let l = self.log_by_key.val_of(b);
                    &&& l.wf()
                    &&& l.key@ == b
                    &&& l.node_id@ == self.id@
                    &&& l.max_poll == self.max_poll
                } by {}
            }
            return Err(NodeError::UnexpectedMessage);
        }
        let send_id = NodeMsgId::new(src, msg_id);
        log.send(&mut self.msg_generator, send_id, msg, out);
        self.log_by_key.insert(key, log);
        proof {
            assert forall|b: Seq<char>| #[trigger] self.log_by_key.has_key(b) implies {
                let l = self.log_by_key.val_of(b);
                &&& l.wf()
                &&& l.key@ == b
                &&& l.node_id@ == self.id@
                &&& l.max_poll == self.max_poll
            } by {}
        }
        Ok(())
    }

    /// Find which log an inbound KV reply belongs to, consuming the route.
    /// The route is dropped when it names a log the node no longer knows.
    pub fn consume_log_key(&mut self, msg_id: usize) -> (r: Option<String>)
        requires
            old(self).wf(),
        ensures
            final(self).wf(),
            final(self).id == old(self).id,
            final(self).max_poll == old(self).max_poll,
            final(self).log_by_key == old(self).log_by_key,
            Self::trackers_unchanged(*old(self), *final(self)),
            final(self).msg_generator.free_msg_id == old(self).msg_generator.free_msg_id,
            !final(self).msg_generator.log_key_by_msg_id.has_key(msg_id as int),
            forall|a: int|
                a != msg_id ==> (#[trigger] final(self).msg_generator.log_key_by_msg_id.has_key(a))
                    == old(self).msg_generator.log_key_by_msg_id.has_key(a),
            forall|a: int|
                a != msg_id && old(self).msg_generator.log_key_by_msg_id.has_key(a) ==> (
                #[trigger] final(self).msg_generator.log_key_by_msg_id.val_of(a)) == old(self).msg_generator.log_key_by_msg_id.val_of(a),
            match r {
                Some(k) => old(self).msg_generator.log_key_by_msg_id.has_key(msg_id as int) && k@
                    == old(self).msg_generator.log_key_by_msg_id.val_of(msg_id as int)@ && old(self).log_by_key.has_key(k@),
                None => !old(self).msg_generator.log_key_by_msg_id.has_key(msg_id as int) || !old(self).log_by_key.has_key(
                    old(self).msg_generator.log_key_by_msg_id.val_of(msg_id as int)@,
                ),
            },
    {
        match self.msg_generator.consume_log_key(msg_id) {
            None => None,
            Some(k) => {
                if self.log_by_key.contains_key(&k) {
                    Some(k)
                } else {
                    None
                }
            },
        }
    }

    /// Take a completed poll tracker's accumulated windows.
    pub fn poll_completed(&mut self, poll_id: &NodeMsgId) -> (r: Option<
        Vec<(String, Vec<(usize, usize)>)>,
    >)
        requires
            old(self).wf(),
        ensures
            final(self).wf(),
            final(self).id == old(self).id,
            final(self).max_poll == old(self).max_poll,
            final(self).log_by_key == old(self).log_by_key,
            final(self).msg_generator == old(self).msg_generator,
            final(self).completed_commits == old(self).completed_commits,
            final(self).completed_offset_reads == old(self).completed_offset_reads,
            !final(self).completed_polls.has_key(poll_id.abs()),
            forall|c: (Seq<char>, int)|
                c != poll_id.abs() ==> (#[trigger] final(self).completed_polls.has_key(c)) == old(self).completed_polls.has_key(c),
            forall|c: (Seq<char>, int)|
                c != poll_id.abs() && old(self).completed_polls.has_key(c) ==> (#[trigger] final(self).completed_polls.val_of(c)) == old(self).completed_polls.val_of(c),
            old(self).completed_polls.has_key(poll_id.abs()) ==> (r matches Some(v) && v == old(self).completed_polls.val_of(poll_id.abs()).progress),
            !old(self).completed_polls.has_key(poll_id.abs()) ==> r is None,
    {
        match self.completed_polls.remove(poll_id) {
            Some(p) => Some(p.into_items()),
            None => None,
        }
    }

    /// Record one log's completed poll window; once every awaited log has
    /// reported, answer the client with all windows.
    pub fn poll_step_completed(
        &mut self,
        log_key: String,
        msgs: Vec<(usize, usize)>,
        poll_id: &NodeMsgId,
        out: &mut Vec<Message<KafkaLogOrKvPayload>>,
    ) -> (r: Result<(), NodeError>)
        requires
            old(self).wf(),
            old(self).msg_generator.free_msg_id < usize::MAX,
        ensures
            final(self).wf(),
            final(self).id == old(self).id,
            final(self).max_poll == old(self).max_poll,
            final(self).log_by_key == old(self).log_by_key,
            final(self).completed_commits == old(self).completed_commits,
            final(self).completed_offset_reads == old(self).completed_offset_reads,
            final(self).msg_generator.log_key_by_msg_id == old(self).msg_generator.log_key_by_msg_id,
            !old(self).completed_polls.has_key(poll_id.abs()) ==> (r is Err && final(out)@ == old(out)@ && *final(self) == *old(self)),
            old(self).completed_polls.has_key(poll_id.abs()) ==> ({
                let t = old(self).completed_polls.val_of(poll_id.abs());
                let newprog = t.progress@.push((log_key, msgs));
                &&& r is Ok
                &&& forall|c: (Seq<char>, int)|
                    c != poll_id.abs() ==> (#[trigger] final(self).completed_polls.has_key(c))
                        == old(self).completed_polls.has_key(c)
                &&& forall|c: (Seq<char>, int)|
                    c != poll_id.abs() && old(self).completed_polls.has_key(c) ==> (
                    #[trigger] final(self).completed_polls.val_of(c)) == old(self).completed_polls.val_of(c)
                &&& newprog.len() != t.tot_log_keys ==> {
                    &&& final(self).completed_polls.has_key(poll_id.abs())
                    &&& final(self).completed_polls.val_of(poll_id.abs()).tot_log_keys
                        == t.tot_log_keys
                    &&& final(self).completed_polls.val_of(poll_id.abs()).progress@ == newprog
                    &&& final(out)@ == old(out)@
                    &&& final(self).msg_generator == old(self).msg_generator
                }
                &&& newprog.len() == t.tot_log_keys ==> {
                    &&& !final(self).completed_polls.has_key(poll_id.abs())
                    &&& final(self).msg_generator.free_msg_id == old(self).msg_generator.free_msg_id + 1
                    &&& appends_one(old(out)@, final(out)@)
                    &&& ({
                        let m = final(out)@.last();
                        &&& m.src@ == old(self).id@
                        &&& m.dst@ == poll_id.node_id@
                        &&& m.body.in_reply_to == Some(poll_id.msg_id)
                        &&& (m.body.payload matches KafkaLogOrKvPayload::KafkaLog(
                            KafkaLogPayload::PollOk { msgs: mm },
                        ) && mm@ == newprog)
                    })
                }
            }),
    {
        if !self.completed_polls.contains_key(poll_id) {
            return Err(NodeError::UnexpectedMessage);
        }
        match self.completed_polls.remove(poll_id) {
            None => Err(NodeError::UnexpectedMessage),
            Some(mut t) => {
                t.push((log_key, msgs));
                if t.is_completed() {
                    let items = t.into_items();
                    self.build_and_send_poll_ok_msg(poll_id, items, out);
                    Ok(())
                } else {
                    self.completed_polls.insert(poll_id.duplicate(), t);
                    Ok(())
                }
            },
        }
    }

    /// Record one log's completed commit; once every awaited log has
    /// reported, answer the client with one `commit_offsets_ok`.
    pub fn commit_offset_step_completed(
        &mut self,
        log_key: String,
        commit_id: &NodeMsgId,
        out: &mut Vec<Message<KafkaLogOrKvPayload>>,
    ) -> (r: Result<(), NodeError>)
        requires
            old(self).wf(),
        ensures
            final(self).wf(),
            final(self).id == old(self).id,
            final(self).max_poll == old(self).max_poll,
            final(self).log_by_key == old(self).log_by_key,
            final(self).msg_generator == old(self).msg_generator,
            final(self).completed_polls == old(self).completed_polls,
            final(self).completed_offset_reads == old(self).completed_offset_reads,
            !old(self).completed_commits.has_key(commit_id.abs()) ==> (r is Err && final(out)@
                == old(out)@ && *final(self) == *old(self)),
            old(self).completed_commits.has_key(commit_id.abs()) ==> ({
                let t = old(self).completed_commits.val_of(commit_id.abs());
                let newprog = t.progress@.push(log_key);
                &&& r is Ok
                &&& forall|c: (Seq<char>, int)|
                    c != commit_id.abs() ==> (#[trigger] final(self).completed_commits.has_key(c))
                        == old(self).completed_commits.has_key(c)
                &&& forall|c: (Seq<char>, int)|
                    c != commit_id.abs() && old(self).completed_commits.has_key(c) ==> (
                    #[trigger] final(self).completed_commits.val_of(c)) == old(self).completed_commits.val_of(c)
                &&& newprog.len() != t.tot_log_keys ==> {
                    &&& final(self).completed_commits.has_key(commit_id.abs())
                    &&& final(self).completed_commits.val_of(commit_id.abs()).tot_log_keys
                        == t.tot_log_keys
                    &&& final(self).completed_commits.val_of(commit_id.abs()).progress@ == newprog
                    &&& final(out)@ == old(out)@
                }
                &&& newprog.len() == t.tot_log_keys ==> {
                    &&& !final(self).completed_commits.has_key(commit_id.abs())
                    &&& appends_one(old(out)@, final(out)@)
                    &&& ({
                        let m = final(out)@.last();
                        &&& m.src@ == old(self).id@
                        &&& m.dst@ == commit_id.node_id@
                        &&& m.body.in_reply_to == Some(commit_id.msg_id)
                        &&& m.body.payload matches KafkaLogOrKvPayload::KafkaLog(
                            KafkaLogPayload::CommitOffsetsOk,
                        )
                    })
                }
            }),
    {
        if !self.completed_commits.contains_key(commit_id) {
            return Err(NodeError::UnexpectedMessage);
        }
        match self.completed_commits.remove(commit_id) {
            None => Err(NodeError::UnexpectedMessage),
            Some(mut t) => {
                t.push(log_key);
                if t.is_completed() {
                    self.build_and_send_commit_offset_ok_msg(commit_id, out);
                    Ok(())
                } else {
                    self.completed_commits.insert(commit_id.duplicate(), t);
                    Ok(())
                }
            },
        }
    }

    /// A commit that completed synchronously advances its tracker at once.
    pub fn commit_offset_completed(
        &mut self,
        log_key: String,
        commit_id: &NodeMsgId,
        out: &mut Vec<Message<KafkaLogOrKvPayload>>,
    ) -> (r: Result<(), NodeError>)
        requires
            old(self).wf(),
        ensures
            final(self).wf(),
            final(self).id == old(self).id,
            final(self).max_poll == old(self).max_poll,
            final(self).log_by_key == old(self).log_by_key,
            final(self).msg_generator == old(self).msg_generator,
            final(self).completed_polls == old(self).completed_polls,
            final(self).completed_offset_reads == old(self).completed_offset_reads,
            !old(self).completed_commits.has_key(commit_id.abs()) ==> (r is Err && final(out)@
                == old(out)@ && *final(self) == *old(self)),
            old(self).completed_commits.has_key(commit_id.abs()) ==> ({
                let t = old(self).completed_commits.val_of(commit_id.abs());
                let newprog = t.progress@.push(log_key);
                &&& r is Ok
                &&& forall|c: (Seq<char>, int)|
                    c != commit_id.abs() ==> (#[trigger] final(self).completed_commits.has_key(c))
                        == old(self).completed_commits.has_key(c)
                &&& forall|c: (Seq<char>, int)|
                    c != commit_id.abs() && old(self).completed_commits.has_key(c) ==> (
                    #[trigger] final(self).completed_commits.val_of(c)) == old(self).completed_commits.val_of(c)
                &&& newprog.len() != t.tot_log_keys ==> {
                    &&& final(self).completed_commits.has_key(commit_id.abs())
                    &&& final(self).completed_commits.val_of(commit_id.abs()).tot_log_keys
                        == t.tot_log_keys
                    &&& final(self).completed_commits.val_of(commit_id.abs()).progress@ == newprog
                    &&& final(out)@ == old(out)@
                }
                &&& newprog.len() == t.tot_log_keys ==> {
                    &&& !final(self).completed_commits.has_key(commit_id.abs())
                    &&& appends_one(old(out)@, final(out)@)
                    &&& ({
                        let m = final(out)@.last();
                        &&& m.src@ == old(self).id@
                        &&& m.dst@ == commit_id.node_id@
                        &&& m.body.in_reply_to == Some(commit_id.msg_id)
                        &&& m.body.payload matches KafkaLogOrKvPayload::KafkaLog(
                            KafkaLogPayload::CommitOffsetsOk,
                        )
                    })
                }
            }),
    {
        self.commit_offset_step_completed(log_key, commit_id, out)
    }

    /// Record one log's committed offset; once every awaited log has
    /// reported, answer the client with the full listing.
    pub fn list_committed_offsets_step_completed(
        &mut self,
        log_key: String,
        list_committed_offset_id: &NodeMsgId,
        offset: usize,
        out: &mut Vec<Message<KafkaLogOrKvPayload>>,
    ) -> (r: Result<(), NodeError>)
        requires
            old(self).wf(),
        ensures
            final(self).wf(),
            final(self).id == old(self).id,
            final(self).max_poll == old(self).max_poll,
            final(self).log_by_key == old(self).log_by_key,
            final(self).msg_generator == old(self).msg_generator,
            final(self).completed_polls == old(self).completed_polls,
            final(self).completed_commits == old(self).completed_commits,
            !old(self).completed_offset_reads.has_key(list_committed_offset_id.abs()) ==> (r is Err
                && final(out)@ == old(out)@ && *final(self) == *old(self)),
            old(self).completed_offset_reads.has_key(list_committed_offset_id.abs()) ==> ({
                let t = old(self).completed_offset_reads.val_of(list_committed_offset_id.abs());
                let newprog = t.progress@.push((log_key, offset));
                &&& r is Ok
                &&& forall|c: (Seq<char>, int)|
                    c != list_committed_offset_id.abs() ==> (#[trigger] final(self).completed_offset_reads.has_key(c)) == old(self).completed_offset_reads.has_key(c)
                &&& forall|c: (Seq<char>, int)|
                    c != list_committed_offset_id.abs() && old(self).completed_offset_reads.has_key(c) ==> (#[trigger] final(self).completed_offset_reads.val_of(c)) == old(self).completed_offset_reads.val_of(c)
                &&& newprog.len() != t.tot_log_keys ==> {
                    &&& final(self).completed_offset_reads.has_key(list_committed_offset_id.abs())
                    &&& final(self).completed_offset_reads.val_of(
                        list_committed_offset_id.abs(),
                    ).tot_log_keys == t.tot_log_keys
                    &&& final(self).completed_offset_reads.val_of(
                        list_committed_offset_id.abs(),
                    ).progress@ == newprog
                    &&& final(out)@ == old(out)@
                }
                &&& newprog.len() == t.tot_log_keys ==> {
                    &&& !final(self).completed_offset_reads.has_key(list_committed_offset_id.abs())
                    &&& appends_one(old(out)@, final(out)@)
                    &&& ({
                        let m = final(out)@.last();
                        &&& m.src@ == old(self).id@
                        &&& m.dst@ == list_committed_offset_id.node_id@
                        &&& m.body.in_reply_to == Some(list_committed_offset_id.msg_id)
                        &&& (m.body.payload matches KafkaLogOrKvPayload::KafkaLog(
                            KafkaLogPayload::ListCommittedOffsetsOk { offsets: o },
                        ) && o@ == newprog)
                    })
                }
            }),
    {
        if !self.completed_offset_reads.contains_key(list_committed_offset_id) {
            return Err(NodeError::UnexpectedMessage);
        }
        match self.completed_offset_reads.remove(list_committed_offset_id) {
            None => Err(NodeError::UnexpectedMessage),
            Some(mut t) => {
                t.push((log_key, offset));
                if t.is_completed() {
                    let items = t.into_items();
                    self.build_and_send_list_committed_offsets_ok_msg(
                        list_committed_offset_id,
                        items,
                        out,
                    );
                    Ok(())
                } else {
                    self.completed_offset_reads.insert(list_committed_offset_id.duplicate(), t);
                    Ok(())
                }
            },
        }
    }


    /// The poll tracker for `pid` absorbed one window: it grew by the entry
    /// `(key, window)`, and when that filled the tracker, the tracker left
    /// the table and a `poll_ok` reply was appended (allocating one reply
    /// id).
    pub open spec fn poll_tracker_step(
        pre: Self,
        post: Self,
        pid: NodeMsgId,
        key: Seq<char>,
        window: Seq<(usize, usize)>,
        preout: Seq<Message<KafkaLogOrKvPayload>>,
        postout: Seq<Message<KafkaLogOrKvPayload>>,
        r: Result<(), NodeError>,
        prefree: int,
        postfree: int,
    ) -> bool {
        if !pre.completed_polls.has_key(pid.abs()) {
            r is Err
        } else {
            let t = pre.completed_polls.val_of(pid.abs());
            let n = t.progress@.len() + 1;
            &&& r is Ok
            &&& forall|c: (Seq<char>, int)|
                c != pid.abs() ==> (#[trigger] post.completed_polls.has_key(c))
                    == pre.completed_polls.has_key(c)
            &&& forall|c: (Seq<char>, int)|
                c != pid.abs() && pre.completed_polls.has_key(c) ==> (
                #[trigger] post.completed_polls.val_of(c)) == pre.completed_polls.val_of(c)
            &&& n != t.tot_log_keys ==> {
                let p = post.completed_polls.val_of(pid.abs());
                &&& post.completed_polls.has_key(pid.abs())
                &&& p.tot_log_keys == t.tot_log_keys
                &&& p.progress@.len() == n
                &&& (forall|j: int| 0 <= j < n - 1 ==> #[trigger] p.progress@[j] == t.progress@[j])
                &&& p.progress@[n - 1].0@ == key
                &&& p.progress@[n - 1].1@ == window
                &&& postout == preout
                &&& postfree == prefree
            }
            &&& n == t.tot_log_keys ==> {
                &&& !post.completed_polls.has_key(pid.abs())
                &&& postfree == prefree + 1
                &&& appends_one(preout, postout)
                &&& ({
                    let m = postout.last();
                    &&& m.src@ == pre.id@
                    &&& m.dst@ == pid.node_id@
                    &&& m.body.in_reply_to == Some(pid.msg_id)
                    &&& (m.body.payload matches KafkaLogOrKvPayload::KafkaLog(
                        KafkaLogPayload::PollOk { msgs: mm },
                    ) && mm@.len() == n && (forall|j: int|
                        0 <= j < n - 1 ==> #[trigger] mm@[j] == t.progress@[j]) && mm@[n - 1].0@
                        == key && mm@[n - 1].1@ == window)
                })
            }
        }
    }

    /// The commit tracker for `cid` absorbed one log's completion, replying
    /// `commit_offsets_ok` once full.
    pub open spec fn commit_tracker_step(
        pre: Self,
        post: Self,
        cid: NodeMsgId,
        key: Seq<char>,
        preout: Seq<Message<KafkaLogOrKvPayload>>,
        postout: Seq<Message<KafkaLogOrKvPayload>>,
        r: Result<(), NodeError>,
    ) -> bool {
        if !pre.completed_commits.has_key(cid.abs()) {
            r is Err
        } else {
            let t = pre.completed_commits.val_of(cid.abs());
            let n = t.progress@.len() + 1;
            &&& r is Ok
            &&& forall|c: (Seq<char>, int)|
                c != cid.abs() ==> (#[trigger] post.completed_commits.has_key(c))
                    == pre.completed_commits.has_key(c)
            &&& forall|c: (Seq<char>, int)|
                c != cid.abs() && pre.completed_commits.has_key(c) ==> (
                #[trigger] post.completed_commits.val_of(c)) == pre.completed_commits.val_of(c)
            &&& n != t.tot_log_keys ==> {
                let p = post.completed_commits.val_of(cid.abs());
                &&& post.completed_commits.has_key(cid.abs())
                &&& p.tot_log_keys == t.tot_log_keys
                &&& p.progress@.len() == n
                &&& (forall|j: int| 0 <= j < n - 1 ==> #[trigger] p.progress@[j] == t.progress@[j])
                &&& p.progress@[n - 1]@ == key
                &&& postout == preout
            }
            &&& n == t.tot_log_keys ==> {
                &&& !post.completed_commits.has_key(cid.abs())
                &&& appends_one(preout, postout)
                &&& ({
                    let m = postout.last();
                    &&& m.src@ == pre.id@
                    &&& m.dst@ == cid.node_id@
                    &&& m.body.in_reply_to == Some(cid.msg_id)
                    &&& m.body.payload matches KafkaLogOrKvPayload::KafkaLog(
                        KafkaLogPayload::CommitOffsetsOk,
                    )
                })
            }
        }
    }

    /// The listing tracker for `lid` absorbed one log's committed offset,
    /// replying `list_committed_offsets_ok` once full.
    pub open spec fn list_tracker_step(
        pre: Self,
        post: Self,
        lid: NodeMsgId,
        key: Seq<char>,
        offset: int,
        preout: Seq<Message<KafkaLogOrKvPayload>>,
        postout: Seq<Message<KafkaLogOrKvPayload>>,
        r: Result<(), NodeError>,
    ) -> bool {
        if !pre.completed_offset_reads.has_key(lid.abs()) {
            r is Err
        } else {
            let t = pre.completed_offset_reads.val_of(lid.abs());
            let n = t.progress@.len() + 1;
            &&& r is Ok
            &&& forall|c: (Seq<char>, int)|
                c != lid.abs() ==> (#[trigger] post.completed_offset_reads.has_key(c))
                    == pre.completed_offset_reads.has_key(c)
            &&& forall|c: (Seq<char>, int)|
                c != lid.abs() && pre.completed_offset_reads.has_key(c) ==> (
                #[trigger] post.completed_offset_reads.val_of(c)) == pre.completed_offset_reads.val_of(
                    c,
                )
            &&& n != t.tot_log_keys ==> {
                let p = post.completed_offset_reads.val_of(lid.abs());
                &&& post.completed_offset_reads.has_key(lid.abs())
                &&& p.tot_log_keys == t.tot_log_keys
                &&& p.progress@.len() == n
                &&& (forall|j: int| 0 <= j < n - 1 ==> #[trigger] p.progress@[j] == t.progress@[j])
                &&& p.progress@[n - 1].0@ == key
                &&& p.progress@[n - 1].1 == offset
                &&& postout == preout
            }
            &&& n == t.tot_log_keys ==> {
                &&& !post.completed_offset_reads.has_key(lid.abs())
                &&& appends_one(preout, postout)
                &&& ({
                    let m = postout.last();
                    &&& m.src@ == pre.id@
                    &&& m.dst@ == lid.node_id@
                    &&& m.body.in_reply_to == Some(lid.msg_id)
                    &&& (m.body.payload matches KafkaLogOrKvPayload::KafkaLog(
                        KafkaLogPayload::ListCommittedOffsetsOk { offsets: oo },
                    ) && oo@.len() == n && (forall|j: int|
                        0 <= j < n - 1 ==> #[trigger] oo@[j] == t.progress@[j]) && oo@[n - 1].0@
                        == key && oo@[n - 1].1 == offset)
                })
            }
        }
    }

    /// Allocate a reply id and emit a `send_ok` reply.
    pub fn build_and_send_send_ok_msg(
        &mut self,
        send_id: &NodeMsgId,
        offset: usize,
        out: &mut Vec<Message<KafkaLogOrKvPayload>>,
    )
        requires
            old(self).wf(),
            old(self).msg_generator.free_msg_id < usize::MAX,
        ensures
            final(self).wf(),
            final(self).id == old(self).id,
            final(self).max_poll == old(self).max_poll,
            final(self).log_by_key == old(self).log_by_key,
            final(self).completed_polls == old(self).completed_polls,
            final(self).completed_commits == old(self).completed_commits,
            final(self).completed_offset_reads == old(self).completed_offset_reads,
            final(self).msg_generator.free_msg_id == old(self).msg_generator.free_msg_id + 1,
            final(self).msg_generator.log_key_by_msg_id == old(self).msg_generator.log_key_by_msg_id,
            appends_one(old(out)@, final(out)@),
            ({
                let m = final(out)@.last();
                &&& m.src@ == old(self).id@
                &&& m.dst@ == send_id.node_id@
                &&& m.body.in_reply_to == Some(send_id.msg_id)
                &&& m.body.payload matches KafkaLogOrKvPayload::KafkaLog(KafkaLogPayload::SendOk {
                    offset: o,
                }) && o == offset
            }),
    {
        let reply_mid = self.msg_generator.generate_msg_id();
        let m = self.build_send_ok_msg(send_id, offset, reply_mid);
        out.push(m);
    }
}

} // verus!
