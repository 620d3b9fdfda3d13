use crate::node::multitxn::spec_other_nodes;
use crate::node::{common_init_node, Node};
use crate::payloads::{Event, GoCounterOrSeqKvPayload, GoCounterPayload, InitOkPayload,
    InitPayload, KvPayload, SyncCounter};
use crate::table::AList;
use crate::{Body, Message, NodeError};
use vstd::prelude::*;

verus! {

/// The sum of all cached peer counters.
pub open spec fn spec_sum(s: Seq<(String, usize)>) -> int
    decreases s.len(),
{
    if s.len() == 0 {
        0
    } else {
        spec_sum(s.drop_last()) + s.last().1
    }
}

/// A prefix never sums to more than the whole (the values are counters, so
/// never negative).
pub proof fn lemma_sum_take_le(s: Seq<(String, usize)>, i: int)
    requires
        0 <= i <= s.len(),
    ensures
        spec_sum(s.take(i)) <= spec_sum(s),
    decreases s.len(),
{
    if i < s.len() {
        assert(s.drop_last().take(i) =~= s.take(i));
        lemma_sum_take_le(s.drop_last(), i);
    } else {
        assert(s.take(i) =~= s);
    }
}

/// The grow-only counter workload: a local counter, a cached copy of each
/// peer's counter read back from `seq-kv`, and a read value that sums them.
#[derive(Debug)]
pub struct GrowOnlyCounterNode {
    pub id: String,
    pub msg_id: usize,
    pub counter: usize,
    pub node_ids: Vec<String>,
    pub value_by_node_id: AList<String, usize>,
    pub node_id_by_msg_id: AList<usize, String>,
}

impl GrowOnlyCounterNode {
    /// Both side tables are duplicate-free.
    pub open spec fn wf(&self) -> bool {
        &&& self.value_by_node_id.dup_free()
        &&& self.node_id_by_msg_id.dup_free()
    }

    /// Build the node from the `init` request, together with the `init_ok`
    /// reply.  The peer list drops this node itself, and each peer's cached
    /// counter starts at zero.
    pub fn init(init_msg: Message<InitPayload>) -> (r: (Self, Vec<Message<InitOkPayload>>))
        ensures
            r.0.wf(),
            r.0.id@ == init_msg.body.payload.node_id@,
            r.0.msg_id == 0,
            r.0.counter == 0,
            r.0.node_ids@ == spec_other_nodes(
                init_msg.body.payload.node_ids@,
                init_msg.body.payload.node_id@,
            ),
            forall|j: int|
                0 <= j < r.0.node_ids@.len() ==> r.0.value_by_node_id.has_key(
                    (#[trigger] r.0.node_ids@[j])@,
                ) && r.0.value_by_node_id.val_of(r.0.node_ids@[j]@) == 0,
            r.0.node_id_by_msg_id@.len() == 0,
            r.1@.len() == 1,
            r.1@[0].src@ == init_msg.body.payload.node_id@,
            r.1@[0].dst == init_msg.src,
            r.1@[0].body.in_reply_to == init_msg.body.msg_id,
            r.1@[0].body.payload.ty@ == "init_ok"@,
    {
        let ((node_id, all_ids), init_ok) = common_init_node(init_msg);
        let mut node_ids: Vec<String> = Vec::new();
        let mut i: usize = 0;
        while i < all_ids.len()
            invariant
                0 <= i <= all_ids@.len(),
                node_ids@ =~= spec_other_nodes(all_ids@.take(i as int), node_id@),
            decreases all_ids@.len() - i,
        {
            proof {
                assert(all_ids@.take(i + 1).drop_last() =~= all_ids@.take(i as int));
                assert(all_ids@.take(i + 1).last() == all_ids@[i as int]);
            }
            let cand = &all_ids[i];
            if !cand.eq(&node_id) {
                node_ids.push(cand.clone());
                proof {
                    assert(node_ids@.last() == all_ids@[i as int]);
                    assert(node_ids@ =~= spec_other_nodes(all_ids@.take(i + 1), node_id@));
                }
            } else {
                proof {
                    assert(node_ids@ =~= spec_other_nodes(all_ids@.take(i + 1), node_id@));
                }
            }
            i = i + 1;
        }
        proof {
            assert(all_ids@.take(all_ids@.len() as int) =~= all_ids@);
        }
        let mut value_by_node_id: AList<String, usize> = AList::new();
        let mut j: usize = 0;
        while j < node_ids.len()
            invariant
                0 <= j <= node_ids@.len(),
                value_by_node_id.dup_free(),
                forall|q: int|
                    0 <= q < j ==> value_by_node_id.has_key((#[trigger] node_ids@[q])@)
                        && value_by_node_id.val_of(node_ids@[q]@) == 0,
            decreases node_ids@.len() - j,
        {
            value_by_node_id.insert(node_ids[j].clone(), 0);
            j = j + 1;
        }
        (
            GrowOnlyCounterNode {
                id: node_id,
                msg_id: 0,
                counter: 0,
                node_ids,
                value_by_node_id,
                node_id_by_msg_id: AList::new(),
            },
            vec![init_ok],
        )
    }

    /// The value a `read` reports: the local counter plus every cached peer
    /// counter, or nothing when that total cannot be represented.
    pub fn try_global_value(&self) -> (r: Option<usize>)
        ensures
            match r {
                Some(v) => v as int == self.counter + spec_sum(self.value_by_node_id@),
                None => self.counter + spec_sum(self.value_by_node_id@) > usize::MAX,
            },
    {
        let mut acc: usize = self.counter;
        let n = self.value_by_node_id.len();
        let mut i: usize = 0;
        while i < n
            invariant
                0 <= i <= n,
                n == self.value_by_node_id@.len(),
                acc as int == self.counter + spec_sum(self.value_by_node_id@.take(i as int)),
            decreases n - i,
        {
            proof {
                assert(self.value_by_node_id@.take(i + 1).drop_last()
                    =~= self.value_by_node_id@.take(i as int));
                assert(self.value_by_node_id@.take(i + 1).last() == self.value_by_node_id@[
                    i as int
                ]);
            }
            let v = self.value_by_node_id.entry_at(i).1;
            if acc > usize::MAX - v {
                proof {
                    lemma_sum_take_le(self.value_by_node_id@, i + 1);
                }
                return None;
            }
            acc = acc + v;
            i = i + 1;
        }
        proof {
            assert(self.value_by_node_id@.take(n as int) =~= self.value_by_node_id@);
        }
        Some(acc)
    }

    /// One timer tick: ask `seq-kv` for every peer's published counter,
    /// remembering which peer each outgoing read serves.
    pub fn sync_reads(&mut self) -> (r: Vec<Message<GoCounterOrSeqKvPayload>>)
        requires
            old(self).wf(),
            old(self).msg_id + old(self).node_ids@.len() + 2 <= usize::MAX,
        ensures
            final(self).wf(),
            final(self).id == old(self).id,
            final(self).node_ids == old(self).node_ids,
            final(self).counter == old(self).counter,
            final(self).value_by_node_id == old(self).value_by_node_id,
            final(self).msg_id == old(self).msg_id + old(self).node_ids@.len(),
            r@.len() == old(self).node_ids@.len(),
            forall|j: int|
                0 <= j < old(self).node_ids@.len() ==> {
                    let m = #[trigger] r@[j];
                    &&& m.src@ == old(self).id@
                    &&& m.dst@ == "seq-kv"@
                    &&& m.body.msg_id == Some((old(self).msg_id + j) as usize)
                    &&& (m.body.payload matches GoCounterOrSeqKvPayload::SeqKv(KvPayload::Read {
                        key,
                    }) && key@ == old(self).node_ids@[j]@)
                },
            forall|j: int|
                0 <= j < old(self).node_ids@.len() ==> #[trigger] final(self).node_id_by_msg_id.has_key(old(self).msg_id + j) && final(self).node_id_by_msg_id.val_of(old(self).msg_id + j)@ == old(self).node_ids@[j]@,
    {
        let mut out: Vec<Message<GoCounterOrSeqKvPayload>> = Vec::new();
        let n = self.node_ids.len();
        let mut i: usize = 0;
        while i < n
            invariant
                0 <= i <= n,
                n == self.node_ids@.len(),
                self.wf(),
                self.id == old(self).id,
                self.counter == old(self).counter,
                self.node_ids == old(self).node_ids,
                self.value_by_node_id == old(self).value_by_node_id,
                old(self).msg_id + n + 2 <= usize::MAX,
                self.msg_id == old(self).msg_id + i,
                out@.len() == i,
                forall|j: int|
                    0 <= j < i ==> {
                        let m = #[trigger] out@[j];
                        &&& m.src@ == old(self).id@
                        &&& m.dst@ == "seq-kv"@
                        &&& m.body.msg_id == Some((old(self).msg_id + j) as usize)
                        &&& (m.body.payload matches GoCounterOrSeqKvPayload::SeqKv(
                            KvPayload::Read { key },
                        ) && key@ == old(self).node_ids@[j]@)
                    },
                forall|j: int|
                    0 <= j < i ==> #[trigger] self.node_id_by_msg_id.has_key(
                        old(self).msg_id + j,
                    ) && self.node_id_by_msg_id.val_of(old(self).msg_id + j)@ == old(self).node_ids@[j]@,
                forall|a: int|
                    !(old(self).msg_id <= a < old(self).msg_id + i) ==> (
                    #[trigger] self.node_id_by_msg_id.has_key(a)) == old(self).node_id_by_msg_id.has_key(a),
            decreases n - i,
        {
            let mid = self.msg_id;
            self.msg_id = self.msg_id + 1;
            let peer = self.node_ids[i].clone();
            self.node_id_by_msg_id.insert(mid, peer.clone());
            out.push(
                Message {
                    src: self.id.clone(),
                    dst: String::from_str("seq-kv"),
                    body: Body {
                        msg_id: Some(mid),
                        in_reply_to: None,
                        payload: GoCounterOrSeqKvPayload::SeqKv(KvPayload::Read { key: peer }),
                    },
                },
            );
            i = i + 1;
        }
        out
    }

    /// Handle one event.  `add` grows the local counter and publishes it to
    /// `seq-kv`; `read` answers with the summed total; a timer tick reads
    /// every peer's published counter; a peer read coming back raises that
    /// peer's cache (it never shrinks it).
    #[verifier::rlimit(100)]
    #[verifier::spinoff_prover]
    pub fn step(&mut self, event: Event<GoCounterOrSeqKvPayload, SyncCounter>) -> (r: Result<
        Vec<Message<GoCounterOrSeqKvPayload>>,
        NodeError,
    >)
        requires
            old(self).wf(),
            old(self).msg_id + old(self).node_ids@.len() + 2 <= usize::MAX,
        ensures
            final(self).wf(),
            final(self).id == old(self).id,
            final(self).node_ids == old(self).node_ids,
            match event {
                Event::Message(msg) => match msg.body.payload {
                    GoCounterOrSeqKvPayload::GoCounter(gc) => match gc {
                        GoCounterPayload::Read => {
                            let total = old(self).counter + spec_sum(old(self).value_by_node_id@);
                            &&& final(self).counter == old(self).counter
                            &&& final(self).value_by_node_id == old(self).value_by_node_id
                            &&& final(self).node_id_by_msg_id == old(self).node_id_by_msg_id
                            &&& total > usize::MAX ==> r is Err
                            &&& total <= usize::MAX ==> {
                                &&& r is Ok
                                &&& final(self).msg_id == old(self).msg_id + 1
                                &&& r->Ok_0@.len() == 1
                                &&& r->Ok_0@[0].src == msg.dst
                                &&& r->Ok_0@[0].dst == msg.src
                                &&& r->Ok_0@[0].body.msg_id == Some(old(self).msg_id)
                                &&& r->Ok_0@[0].body.in_reply_to == msg.body.msg_id
                                &&& (r->Ok_0@[0].body.payload
                                    matches GoCounterOrSeqKvPayload::GoCounter(
                                    GoCounterPayload::ReadOk { value },
                                ) && value == total)
                            }
                        },
                        GoCounterPayload::Add { delta } => {
                            &&& final(self).value_by_node_id == old(self).value_by_node_id
                            &&& final(self).node_id_by_msg_id == old(self).node_id_by_msg_id
                            &&& old(self).counter + delta > usize::MAX ==> r is Err
                            &&& old(self).counter + delta <= usize::MAX ==> {
                                &&& r is Ok
                                &&& final(self).counter == old(self).counter + delta
                                &&& final(self).msg_id == old(self).msg_id + 2
                                &&& r->Ok_0@.len() == 2
                                &&& r->Ok_0@[0].src == msg.dst
                                &&& r->Ok_0@[0].dst == msg.src
                                &&& r->Ok_0@[0].body.msg_id == Some(old(self).msg_id)
                                &&& r->Ok_0@[0].body.in_reply_to == msg.body.msg_id
                                &&& (r->Ok_0@[0].body.payload
                                    matches GoCounterOrSeqKvPayload::GoCounter(
                                    GoCounterPayload::AddOk,
                                ))
                                &&& r->Ok_0@[1].src@ == old(self).id@
                                &&& r->Ok_0@[1].dst@ == "seq-kv"@
                                &&& r->Ok_0@[1].body.msg_id == Some((old(self).msg_id + 1) as usize)
                                &&& (r->Ok_0@[1].body.payload
                                    matches GoCounterOrSeqKvPayload::SeqKv(KvPayload::Write {
                                    key,
                                    value,
                                }) && key@ == old(self).id@ && value == old(self).counter + delta)
                            }
                        },
                        _ => r matches Ok(v) && v@.len() == 0 && final(self).msg_id == old(self).msg_id + 1 && final(self).counter == old(self).counter && final(self).value_by_node_id == old(self).value_by_node_id && final(self).node_id_by_msg_id == old(self).node_id_by_msg_id,
                    },
                    GoCounterOrSeqKvPayload::SeqKv(kv) => match kv {
                        KvPayload::ReadOk { value } => {
                            &&& r is Ok
                            &&& r->Ok_0@.len() == 0
                            &&& final(self).counter == old(self).counter
                            &&& final(self).msg_id == old(self).msg_id + 1
                            &&& match msg.body.in_reply_to {
                                None => final(self).value_by_node_id == old(self).value_by_node_id && final(self).node_id_by_msg_id == old(self).node_id_by_msg_id,
                                Some(irt) => {
                                    let routed = old(self).node_id_by_msg_id.has_key(irt as int);
                                    &&& !routed ==> final(self).value_by_node_id == old(self).value_by_node_id
                                    &&& routed ==> {
                                        let peer = old(self).node_id_by_msg_id.val_of(
                                            irt as int,
                                        )@;
                                        let oldval = if old(self).value_by_node_id.has_key(peer) {
                                            old(self).value_by_node_id.val_of(peer) as int
                                        } else {
                                            0int
                                        };
                                        &&& !final(self).node_id_by_msg_id.has_key(irt as int)
                                        &&& final(self).value_by_node_id.has_key(peer)
                                        &&& final(self).value_by_node_id.val_of(peer) == (
                                        if value > oldval {
                                            value as int
                                        } else {
                                            oldval
                                        })
                                        &&& forall|b: Seq<char>|
                                            b != peer ==> (#[trigger] final(self).value_by_node_id.has_key(b)) == old(self).value_by_node_id.has_key(b)
                                        &&& forall|b: Seq<char>|
                                            b != peer && old(self).value_by_node_id.has_key(b)
                                                ==> (#[trigger] final(self).value_by_node_id.val_of(b)) == old(self).value_by_node_id.val_of(b)

                                    }
                                },
                            }
                        },
                        _ => r matches Ok(v) && v@.len() == 0 && final(self).msg_id == old(self).msg_id + 1 && final(self).counter == old(self).counter && final(self).value_by_node_id == old(self).value_by_node_id && final(self).node_id_by_msg_id == old(self).node_id_by_msg_id,
                    },
                },
                Event::InjectedPayload(_) => {
                    let n = old(self).node_ids@.len() as int;
                    &&& r is Ok
                    &&& final(self).counter == old(self).counter
                    &&& final(self).value_by_node_id == old(self).value_by_node_id
                    &&& final(self).msg_id == old(self).msg_id + n
                    &&& r->Ok_0@.len() == n
                    &&& forall|j: int|
                        0 <= j < n ==> {
                            let m = #[trigger] r->Ok_0@[j];
                            &&& m.src@ == old(self).id@
                            &&& m.dst@ == "seq-kv"@
                            &&& m.body.msg_id == Some((old(self).msg_id + j) as usize)
                            &&& (m.body.payload matches GoCounterOrSeqKvPayload::SeqKv(
                                KvPayload::Read { key },
                            ) && key@ == old(self).node_ids@[j]@)
                        }
                    &&& forall|j: int|
                        0 <= j < n ==> #[trigger] final(self).node_id_by_msg_id.has_key(
                            old(self).msg_id + j,
                        ) && final(self).node_id_by_msg_id.val_of(old(self).msg_id + j)@ == old(self).node_ids@[j]@
                },
            },
    {
        match event {
            Event::Message(msg) => {
                let reply_mid = self.msg_id;
                self.msg_id = self.msg_id + 1;
                let Message { src, dst, body } = msg;
                match body.payload {
                    GoCounterOrSeqKvPayload::GoCounter(gc) => match gc {
                        GoCounterPayload::Read => {
                            let total = match self.try_global_value() {
                                None => {
                                    return Err(NodeError::UnexpectedMessage);
                                },
                                Some(v) => v,
                            };
                            let reply = Message {
                                src: dst,
                                dst: src,
                                body: Body {
                                    msg_id: Some(reply_mid),
                                    in_reply_to: body.msg_id,
                                    payload: GoCounterOrSeqKvPayload::GoCounter(
                                        GoCounterPayload::ReadOk { value: total },
                                    ),
                                },
                            };
                            Ok(vec![reply])
                        },
                        GoCounterPayload::Add { delta } => {
                            if delta > usize::MAX - self.counter {
                                return Err(NodeError::UnexpectedMessage);
                            }
                            self.counter = self.counter + delta;
                            let write_mid = self.msg_id;
                            self.msg_id = self.msg_id + 1;
                            let reply = Message {
                                src: dst,
                                dst: src,
                                body: Body {
                                    msg_id: Some(reply_mid),
                                    in_reply_to: body.msg_id,
                                    payload: GoCounterOrSeqKvPayload::GoCounter(
                                        GoCounterPayload::AddOk,
                                    ),
                                },
                            };
                            let write = Message {
                                src: self.id.clone(),
                                dst: String::from_str("seq-kv"),
                                body: Body {
                                    msg_id: Some(write_mid),
                                    in_reply_to: None,
                                    payload: GoCounterOrSeqKvPayload::SeqKv(KvPayload::Write {
                                        key: self.id.clone(),
                                        value: self.counter,
                                    }),
                                },
                            };
                            Ok(vec![reply, write])
                        },
                        _ => Ok(Vec::new()),
                    },
                    GoCounterOrSeqKvPayload::SeqKv(kv) => match kv {
                        KvPayload::ReadOk { value } => {
                            let irt = match body.in_reply_to {
                                None => {
                                    return Ok(Vec::new());
                                },
                                Some(irt) => irt,
                            };
                            let peer = match self.node_id_by_msg_id.remove(&irt) {
                                None => {
                                    return Ok(Vec::new());
                                },
                                Some(peer) => peer,
                            };
                            let newval = match self.value_by_node_id.get(&peer) {
                                Some(existing) => {
                                    if value > *existing {
                                        value
                                    } else {
                                        *existing
                                    }
                                },
                                None => value,
                            };
                            self.value_by_node_id.insert(peer, newval);
                            Ok(Vec::new())
                        },
                        _ => Ok(Vec::new()),
                    },
                }
            },
            Event::InjectedPayload(_sync) => {
                let out = self.sync_reads();
                Ok(out)
            },
        }
    }
}

impl Node<GoCounterOrSeqKvPayload, SyncCounter> for GrowOnlyCounterNode {
    open spec fn node_wf(&self) -> bool {
        self.wf()
    }

    open spec fn room_for_msg_id(&self) -> bool {
        self.msg_id + self.node_ids@.len() + 2 <= usize::MAX
    }

    fn init(init_msg: Message<InitPayload>) -> (r: (Self, Vec<Message<InitOkPayload>>)) {
        GrowOnlyCounterNode::init(init_msg)
    }

    fn step(&mut self, event: Event<GoCounterOrSeqKvPayload, SyncCounter>) -> (r: Result<
        Vec<Message<GoCounterOrSeqKvPayload>>,
        NodeError,
    >) {
        self.step(event)
    }
}

} // verus!
