use crate::node::{common_init_node, Node};
use crate::payloads::{Event, InitOkPayload, InitPayload, KafkaLogPayload};
use crate::table::AList;
use crate::{is_reply_frame, Body, Message, NodeError};
use vstd::prelude::*;

verus! {

/// The window a poll yields: the entries of `msgs` from `start` on, at most
/// `maxp` many, each paired with its offset.
pub open spec fn spec_poll(msgs: Seq<usize>, start: int, maxp: int) -> Seq<(usize, usize)> {
    if start >= msgs.len() || start < 0 || maxp <= 0 {
        Seq::empty()
    } else {
        let end = if msgs.len() <= start + maxp {
            msgs.len() as int
        } else {
            start + maxp
        };
        Seq::new((end - start) as nat, |i: int| ((start + i) as usize, msgs[start + i]))
    }
}

/// A poll never invents entries: each yielded pair carries consecutive
/// offsets starting at `start`, and its value is the history entry at that
/// offset.
pub proof fn lemma_poll_matches_history(msgs: Seq<usize>, start: int, maxp: int)
    requires
        msgs.len() <= usize::MAX,
    ensures
        forall|i: int|
            0 <= i < spec_poll(msgs, start, maxp).len() ==> {
                let p = #[trigger] spec_poll(msgs, start, maxp)[i];
                &&& p.0 == start + i
                &&& 0 <= start + i < msgs.len()
                &&& p.1 == msgs[start + i]
            },
{
    assert forall|i: int| 0 <= i < spec_poll(msgs, start, maxp).len() implies {
        let p = #[trigger] spec_poll(msgs, start, maxp)[i];
        &&& p.0 == start + i
        &&& 0 <= start + i < msgs.len()
        &&& p.1 == msgs[start + i]
    } by {
        assert(0 <= start < msgs.len());
        assert(spec_poll(msgs, start, maxp)[i] == (((start + i) as usize, msgs[start + i])));
    }
}

/// Once an append has returned offset `k`, a poll from `k` (with no append in
/// between) yields that entry first.
pub proof fn lemma_poll_after_append(msgs: Seq<usize>, msg: usize, maxp: int)
    requires
        maxp > 0,
        msgs.len() < usize::MAX,
    ensures
        spec_poll(msgs.push(msg), msgs.len() as int, maxp).len() >= 1,
        spec_poll(msgs.push(msg), msgs.len() as int, maxp)[0] == ((msgs.len() as usize, msg)),
{
}

/// One named append-only log with a committed offset, as kept by the
/// standalone (KV-free) log node.
pub struct KafkaLog {
    max_poll: usize,
    committed_up_to: usize,
    messages: Vec<usize>,
}

impl KafkaLog {
    /// The largest number of entries one poll may yield.
    pub closed spec fn max_poll_sp(&self) -> int {
        self.max_poll as int
    }

    /// The committed offset.
    pub closed spec fn committed_sp(&self) -> int {
        self.committed_up_to as int
    }

    /// The append history: the value at offset `k` is entry `k`.
    pub closed spec fn messages_sp(&self) -> Seq<usize> {
        self.messages@
    }

    /// A log always polls at least one entry at a time.
    pub open spec fn wf(&self) -> bool {
        self.max_poll_sp() > 0
    }

    /// An empty log.
    pub fn new(max_poll: usize, start_capacity: usize) -> (r: Self)
        requires
            max_poll > 0,
        ensures
            r.wf(),
            r.max_poll_sp() == max_poll,
            r.committed_sp() == 0,
            r.messages_sp() =~= Seq::<usize>::empty(),
    {
        KafkaLog { max_poll, committed_up_to: 0, messages: Vec::with_capacity(start_capacity) }
    }

    /// Append one value; its offset is the history length before the append.
    pub fn append(&mut self, msg: usize) -> (offset: usize)
        ensures
            offset == old(self).messages_sp().len(),
            final(self).messages_sp() == old(self).messages_sp().push(msg),
            final(self).committed_sp() == old(self).committed_sp(),
            final(self).max_poll_sp() == old(self).max_poll_sp(),
    {
        let offset = self.messages.len();
        self.messages.push(msg);
        offset
    }

    /// Read the poll window starting at `start_offset`.
    pub fn poll(&self, start_offset: usize) -> (r: Vec<(usize, usize)>)
        ensures
            r@ == spec_poll(self.messages_sp(), start_offset as int, self.max_poll_sp()),
    {
        let mut r: Vec<(usize, usize)> = Vec::new();
        let len = self.messages.len();
        if start_offset >= len {
            assert(r@ =~= spec_poll(self.messages_sp(), start_offset as int, self.max_poll_sp()));
            return r;
        }
        let remaining = len - start_offset;
        let take = if self.max_poll < remaining {
            self.max_poll
        } else {
            remaining
        };
        let ghost window = spec_poll(self.messages_sp(), start_offset as int, self.max_poll_sp());
        assert(window.len() == take);
        let mut i: usize = 0;
        while i < take
            invariant
                0 <= i <= take,
                take <= remaining,
                remaining == self.messages_sp().len() - start_offset,
                start_offset + remaining <= usize::MAX,
                window == spec_poll(self.messages_sp(), start_offset as int, self.max_poll_sp()),
                window.len() == take,
                r@ =~= window.take(i as int),
            decreases take - i,
        {
            r.push((start_offset + i, self.messages[start_offset + i]));
            assert(r@ =~= window.take(i + 1));
            i = i + 1;
        }
        assert(r@ =~= window);
        r
    }

    /// Raise the committed offset to `offset`; an offset past the history is
    /// ignored, and the committed offset never decreases.
    pub fn commit_offset(&mut self, offset: usize)
        ensures
            final(self).messages_sp() == old(self).messages_sp(),
            final(self).max_poll_sp() == old(self).max_poll_sp(),
            final(self).committed_sp() == if (offset as int) < old(self).messages_sp().len()
                && offset > old(self).committed_sp() {
                offset as int
            } else {
                old(self).committed_sp()
            },
            final(self).committed_sp() >= old(self).committed_sp(),
    {
        if offset < self.messages.len() && offset > self.committed_up_to {
            self.committed_up_to = offset;
        }
    }

    /// Read the committed offset.
    pub fn get_committed_offset(&self) -> (r: usize)
        ensures
            r == self.committed_sp(),
    {
        self.committed_up_to
    }
}

/// The abstraction of a `poll_ok` body: each log key with its poll window.
pub open spec fn abs_poll_entries(s: Seq<(String, Vec<(usize, usize)>)>) -> Seq<
    (Seq<char>, Seq<(usize, usize)>),
> {
    s.map_values(|e: (String, Vec<(usize, usize)>)| (e.0@, e.1@))
}

/// The abstraction of an offsets listing: each log key with one offset.
pub open spec fn abs_offset_entries(s: Seq<(String, usize)>) -> Seq<(Seq<char>, usize)> {
    s.map_values(|e: (String, usize)| (e.0@, e.1))
}

/// No log key occurs twice among the request's entries (the wire shape is a
/// JSON object, whose keys are unique).
pub open spec fn distinct_offset_keys(s: Seq<(String, usize)>) -> bool {
    forall|i: int, j: int| 0 <= i < j < s.len() ==> (#[trigger] s[i].0@) != (#[trigger] s[j].0@)
}

/// What a `poll` request yields: for each requested key the node knows, in
/// request order, that log's poll window from the requested offset.
pub open spec fn spec_poll_ok(
    logs: AList<String, KafkaLog>,
    offsets: Seq<(String, usize)>,
) -> Seq<(Seq<char>, Seq<(usize, usize)>)>
    decreases offsets.len(),
{
    if offsets.len() == 0 {
        Seq::empty()
    } else {
        let rest = spec_poll_ok(logs, offsets.drop_last());
        let last = offsets.last();
        if logs.has_key(last.0@) {
            let log = logs.val_of(last.0@);
            rest.push((last.0@, spec_poll(log.messages_sp(), last.1 as int, log.max_poll_sp())))
        } else {
            rest
        }
    }
}

/// What a `list_committed_offsets` request yields: for each requested key the
/// node knows, in request order, that log's committed offset.
pub open spec fn spec_list_offsets(logs: AList<String, KafkaLog>, keys: Seq<String>) -> Seq<
    (Seq<char>, usize),
>
    decreases keys.len(),
{
    if keys.len() == 0 {
        Seq::empty()
    } else {
        let rest = spec_list_offsets(logs, keys.drop_last());
        let last = keys.last();
        if logs.has_key(last@) {
            rest.push((last@, logs.val_of(last@).committed_sp() as usize))
        } else {
            rest
        }
    }
}

/// The key abstraction `b` occurs among the request's entries.
pub open spec fn offset_key_present(s: Seq<(String, usize)>, b: Seq<char>) -> bool {
    exists|j: int| 0 <= j < s.len() && (#[trigger] s[j].0@) == b
}

/// The standalone log node: it owns every log itself and answers each request
/// in one step, without the external KV services.
pub struct KafkaLogNode {
    pub _id: String,
    pub msg_id: usize,
    pub logs: AList<String, KafkaLog>,
}

impl KafkaLogNode {
    /// The log table has one well-formed log per key.
    pub open spec fn wf(&self) -> bool {
        &&& self.logs.dup_free()
        &&& forall|b: Seq<char>| #[trigger] self.logs.has_key(b) ==> self.logs.val_of(b).wf()
    }

    /// Build the node from the `init` request, together with the `init_ok`
    /// reply.
    pub fn init(init_msg: Message<InitPayload>) -> (r: (Self, Vec<Message<InitOkPayload>>))
        ensures
            r.0.wf(),
            r.0.msg_id == 0,
            r.0.logs@.len() == 0,
            r.1@.len() == 1,
            r.1@[0].src@ == init_msg.body.payload.node_id@,
            r.1@[0].dst == init_msg.src,
            r.1@[0].body.in_reply_to == init_msg.body.msg_id,
            r.1@[0].body.payload.ty@ == "init_ok"@,
    {
        let ((node_id, _node_ids), init_ok) = common_init_node(init_msg);
        (KafkaLogNode { _id: node_id, msg_id: 0, logs: AList::new() }, vec![init_ok])
    }

    /// Handle one event.  A `send` appends to its log (created at first use)
    /// and is answered with the new offset; `poll`, `commit_offsets` and
    /// `list_committed_offsets` are answered from the named logs, ignoring
    /// keys the node has never seen.
    pub fn step(&mut self, event: Event<KafkaLogPayload, ()>) -> (r: Result<
        Vec<Message<KafkaLogPayload>>,
        NodeError,
    >)
        requires
            old(self).wf(),
            old(self).msg_id < usize::MAX,
        ensures
            final(self).wf(),
            final(self)._id == old(self)._id,
            match event {
                Event::InjectedPayload(_) => r is Ok && *final(self) == *old(self)
                    && r->Ok_0@.len() == 0,
                Event::Message(msg) => {
                    &&& final(self).msg_id == old(self).msg_id + 1
                    &&& match msg.body.payload {
                        KafkaLogPayload::Send { key, msg: m } => {
                            let oldmsgs = if old(self).logs.has_key(key@) {
                                old(self).logs.val_of(key@).messages_sp()
                            } else {
                                Seq::<usize>::empty()
                            };
                            &&& r is Ok
                            &&& r->Ok_0@.len() == 1
                            &&& is_reply_frame(r->Ok_0@[0], msg, old(self).msg_id)
                            &&& r->Ok_0@[0].body.payload matches KafkaLogPayload::SendOk { offset }
                                && offset == oldmsgs.len()
                            &&& final(self).logs.has_key(key@)
                            &&& final(self).logs.val_of(key@).messages_sp() == oldmsgs.push(m)
                            &&& forall|b: Seq<char>|
                                b != key@ ==> (#[trigger] final(self).logs.has_key(b)) == old(self).logs.has_key(b)
                            &&& forall|b: Seq<char>|
                                b != key@ && old(self).logs.has_key(b) ==> (#[trigger] final(self).logs.val_of(b)) == old(self).logs.val_of(b)
                        },
                        KafkaLogPayload::Poll { offsets } => {
                            &&& r is Ok
                            &&& final(self).logs == old(self).logs
                            &&& r->Ok_0@.len() == 1
                            &&& is_reply_frame(r->Ok_0@[0], msg, old(self).msg_id)
                            &&& r->Ok_0@[0].body.payload matches KafkaLogPayload::PollOk { msgs }
                                && abs_poll_entries(msgs@) == spec_poll_ok(
                                old(self).logs,
                                offsets@,
                            )
                        },
                        KafkaLogPayload::CommitOffsets { offsets } => {
                            &&& !distinct_offset_keys(offsets@) ==> (r == Result::<
                                Vec<Message<KafkaLogPayload>>,
                                NodeError,
                            >::Err(NodeError::UnexpectedMessage) && final(self).logs == old(
                                self,
                            ).logs)
                            &&& distinct_offset_keys(offsets@) ==> r is Ok
                            &&& distinct_offset_keys(offsets@) ==> r->Ok_0@.len() == 1
                            &&& distinct_offset_keys(offsets@) ==> is_reply_frame(r->Ok_0@[0], msg, old(self).msg_id)
                            &&& distinct_offset_keys(offsets@) ==> r->Ok_0@[0].body.payload is CommitOffsetsOk
                            &&& distinct_offset_keys(offsets@) ==> forall|b: Seq<char>|
                                (#[trigger] final(self).logs.has_key(b)) == old(self).logs.has_key(
                                    b,
                                )
                            &&& distinct_offset_keys(offsets@) ==> forall|j: int|
                                0 <= j < offsets@.len() && old(self).logs.has_key(
                                    #[trigger] offsets@[j].0@,
                                ) ==> {
                                    let ol = old(self).logs.val_of(offsets@[j].0@);
                                    let nl = final(self).logs.val_of(offsets@[j].0@);
                                    &&& nl.messages_sp() == ol.messages_sp()
                                    &&& nl.max_poll_sp() == ol.max_poll_sp()
                                    &&& nl.committed_sp() == if (offsets@[j].1 as int)
                                        < ol.messages_sp().len() && offsets@[j].1
                                        > ol.committed_sp() {
                                        offsets@[j].1 as int
                                    } else {
                                        ol.committed_sp()
                                    }
                                }
                            &&& distinct_offset_keys(offsets@) ==> forall|b: Seq<char>|
                                old(self).logs.has_key(b) && !offset_key_present(offsets@, b)
                                    ==> (#[trigger] final(self).logs.val_of(b)) == old(self).logs.val_of(b)
                        },
                        KafkaLogPayload::ListCommittedOffsets { keys } => {
                            &&& r is Ok
                            &&& final(self).logs == old(self).logs
                            &&& r->Ok_0@.len() == 1
                            &&& is_reply_frame(r->Ok_0@[0], msg, old(self).msg_id)
                            &&& r->Ok_0@[0].body.payload matches KafkaLogPayload::ListCommittedOffsetsOk {
                                offsets,
                            } && abs_offset_entries(offsets@) == spec_list_offsets(
                                old(self).logs,
                                keys@,
                            )
                        },
                        _ => r is Ok && r->Ok_0@.len() == 0 && final(self).logs == old(
                            self,
                        ).logs,
                    }
                },
            },
    {
        match event {
            Event::InjectedPayload(_) => Ok(Vec::new()),
            Event::Message(msg) => {
                let reply_mid = self.msg_id;
                self.msg_id = self.msg_id + 1;
                let Message { src, dst, body } = msg;
                let req_mid = body.msg_id;
                match body.payload {
                    KafkaLogPayload::Send { key, msg: m } => {
                        let mut log = match self.logs.remove(&key) {
                            Some(log) => log,
                            None => KafkaLog::new(5, 100),
                        };
                        let offset = log.append(m);
                        self.logs.insert(key, log);
                        proof {
                            assert forall|b: Seq<char>| #[trigger] self.logs.has_key(b) implies
                                self.logs.val_of(b).wf() by {}
                        }
                        let reply = Message {
                            src: dst,
                            dst: src,
                            body: Body {
                                msg_id: Some(reply_mid),
                                in_reply_to: req_mid,
                                payload: KafkaLogPayload::SendOk { offset },
                            },
                        };
                        Ok(vec![reply])
                    },
                    KafkaLogPayload::Poll { offsets } => {
                        let mut msgs: Vec<(String, Vec<(usize, usize)>)> = Vec::new();
                        let mut i: usize = 0;
                        while i < offsets.len()
                            invariant
                                self.logs == old(self).logs,
                                old(self).wf(),
                                0 <= i <= offsets@.len(),
                                abs_poll_entries(msgs@) =~= spec_poll_ok(
                                    self.logs,
                                    offsets@.take(i as int),
                                ),
                            decreases offsets@.len() - i,
                        {
                            proof {
                                assert(offsets@.take(i + 1).drop_last() =~= offsets@.take(i as int));
                                assert(offsets@.take(i + 1).last() == offsets@[i as int]);
                            }
                            let e = &offsets[i];
                            match self.logs.get(&e.0) {
                                Some(log) => {
                                    let polled = log.poll(e.1);
                                    msgs.push((e.0.clone(), polled));
                                    proof {
                                        assert(abs_poll_entries(msgs@) =~= spec_poll_ok(
                                            self.logs,
                                            offsets@.take(i + 1),
                                        ));
                                    }
                                },
                                None => {
                                    proof {
                                        assert(abs_poll_entries(msgs@) =~= spec_poll_ok(
                                            self.logs,
                                            offsets@.take(i + 1),
                                        ));
                                    }
                                },
                            }
                            i = i + 1;
                        }
                        proof {
                            assert(offsets@.take(offsets@.len() as int) =~= offsets@);
                        }
                        let reply = Message {
                            src: dst,
                            dst: src,
                            body: Body {
                                msg_id: Some(reply_mid),
                                in_reply_to: req_mid,
                                payload: KafkaLogPayload::PollOk { msgs },
                            },
                        };
                        Ok(vec![reply])
                    },
                    KafkaLogPayload::CommitOffsets { offsets } => {
                        if !crate::node::distinct_keys_check(&offsets) {
                            return Err(NodeError::UnexpectedMessage);
                        }
                        let ghost logs0 = self.logs;
                        let mut i: usize = 0;
                        while i < offsets.len()
                            invariant
                                distinct_offset_keys(offsets@),
                                logs0 == old(self).logs,
                                self._id == old(self)._id,
                                self.msg_id == old(self).msg_id + 1,
                                old(self).msg_id < usize::MAX,
                                old(self).wf(),
                                self.logs.dup_free(),
                                forall|b: Seq<char>| #[trigger]
                                    self.logs.has_key(b) ==> self.logs.val_of(b).wf(),
                                0 <= i <= offsets@.len(),
                                forall|b: Seq<char>|
                                    (#[trigger] self.logs.has_key(b)) == logs0.has_key(b),
                                forall|j: int|
                                    0 <= j < i && logs0.has_key(#[trigger] offsets@[j].0@) ==> {
                                        let ol = logs0.val_of(offsets@[j].0@);
                                        let nl = self.logs.val_of(offsets@[j].0@);
                                        &&& nl.messages_sp() == ol.messages_sp()
                                        &&& nl.max_poll_sp() == ol.max_poll_sp()
                                        &&& nl.committed_sp() == if (offsets@[j].1 as int)
                                            < ol.messages_sp().len() && offsets@[j].1
                                            > ol.committed_sp() {
                                            offsets@[j].1 as int
                                        } else {
                                            ol.committed_sp()
                                        }
                                    },
                                forall|b: Seq<char>|
                                    logs0.has_key(b) && !offset_key_present(
                                        offsets@.take(i as int),
                                        b,
                                    ) ==> (#[trigger] self.logs.val_of(b)) == logs0.val_of(b),
                            decreases offsets@.len() - i,
                        {
                            let e = &offsets[i];
                            let k = e.0.clone();
                            let off = e.1;
                            proof {
                                if logs0.has_key(k@) {
                                    assert(!offset_key_present(offsets@.take(i as int), k@));
                                }
                            }
                            match self.logs.remove(&k) {
                                Some(mut log) => {
                                    log.commit_offset(off);
                                    self.logs.insert(k, log);
                                },
                                None => {},
                            }
                            proof {
                                assert forall|b: Seq<char>|
                                    logs0.has_key(b) && !offset_key_present(
                                        offsets@.take(i + 1),
                                        b,
                                    ) implies (#[trigger] self.logs.val_of(b)) == logs0.val_of(
                                    b,
                                ) by {
                                    assert(!offset_key_present(offsets@.take(i as int), b));
                                    assert(offsets@.take(i + 1)[i as int] == offsets@[i as int]);
                                    assert(b != offsets@[i as int].0@);
                                }
                                assert forall|j: int|
                                    0 <= j < i + 1 && logs0.has_key(
                                        #[trigger] offsets@[j].0@,
                                    ) implies {
                                    let ol = logs0.val_of(offsets@[j].0@);
                                    let nl = self.logs.val_of(offsets@[j].0@);
                                    &&& nl.messages_sp() == ol.messages_sp()
                                    &&& nl.max_poll_sp() == ol.max_poll_sp()
                                    &&& nl.committed_sp() == if (offsets@[j].1 as int)
                                        < ol.messages_sp().len() && offsets@[j].1
                                        > ol.committed_sp() {
                                        offsets@[j].1 as int
                                    } else {
                                        ol.committed_sp()
                                    }
                                } by {
                                    if j < i {
                                        assert(offsets@[j].0@ != offsets@[i as int].0@);
                                    }
                                }
                            }
                            i = i + 1;
                        }
                        proof {
                            assert forall|b: Seq<char>|
                                logs0.has_key(b) && !offset_key_present(offsets@, b) implies (
                            #[trigger] self.logs.val_of(b)) == logs0.val_of(b) by {
                                assert(offsets@.take(offsets@.len() as int) =~= offsets@);
                            }
                        }
                        let reply = Message {
                            src: dst,
                            dst: src,
                            body: Body {
                                msg_id: Some(reply_mid),
                                in_reply_to: req_mid,
                                payload: KafkaLogPayload::CommitOffsetsOk,
                            },
                        };
                        Ok(vec![reply])
                    },
                    KafkaLogPayload::ListCommittedOffsets { keys } => {
                        let mut listed: Vec<(String, usize)> = Vec::new();
                        let mut i: usize = 0;
                        while i < keys.len()
                            invariant
                                self.logs == old(self).logs,
                                old(self).wf(),
                                0 <= i <= keys@.len(),
                                abs_offset_entries(listed@) =~= spec_list_offsets(
                                    self.logs,
                                    keys@.take(i as int),
                                ),
                            decreases keys@.len() - i,
                        {
                            proof {
                                assert(keys@.take(i + 1).drop_last() =~= keys@.take(i as int));
                                assert(keys@.take(i + 1).last() == keys@[i as int]);
                            }
                            let k = &keys[i];
                            match self.logs.get(k) {
                                Some(log) => {
                                    let committed = log.get_committed_offset();
                                    listed.push((k.clone(), committed));
                                    proof {
                                        assert(abs_offset_entries(listed@) =~= spec_list_offsets(
                                            self.logs,
                                            keys@.take(i + 1),
                                        ));
                                    }
                                },
                                None => {
                                    proof {
                                        assert(abs_offset_entries(listed@) =~= spec_list_offsets(
                                            self.logs,
                                            keys@.take(i + 1),
                                        ));
                                    }
                                },
                            }
                            i = i + 1;
                        }
                        proof {
                            assert(keys@.take(keys@.len() as int) =~= keys@);
                        }
                        let reply = Message {
                            src: dst,
                            dst: src,
                            body: Body {
                                msg_id: Some(reply_mid),
                                in_reply_to: req_mid,
                                payload: KafkaLogPayload::ListCommittedOffsetsOk {
                                    offsets: listed,
                                },
                            },
                        };
                        Ok(vec![reply])
                    },
                    _ => Ok(Vec::new()),
                }
            },
        }
    }
}

impl Node<KafkaLogPayload, ()> for KafkaLogNode {
    open spec fn node_wf(&self) -> bool {
        self.wf()
    }

    open spec fn room_for_msg_id(&self) -> bool {
        self.msg_id < usize::MAX
    }

    fn init(init_msg: Message<InitPayload>) -> (r: (Self, Vec<Message<InitOkPayload>>)) {
        KafkaLogNode::init(init_msg)
    }

    fn step(&mut self, event: Event<KafkaLogPayload, ()>) -> (r: Result<
        Vec<Message<KafkaLogPayload>>,
        NodeError,
    >) {
        self.step(event)
    }
}

} // verus!

