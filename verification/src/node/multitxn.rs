use crate::node::singletxn::{abs_store, txn_reply, txn_store, SingleTxnNode};
use crate::node::{common_init_node, Node};
use crate::payloads::{Event, InitOkPayload, InitPayload, TxnOperation, TxnPayload};
use crate::table::AList;
use crate::{Body, Message, NodeError};
use vstd::prelude::*;

verus! {

/// The operations of a transaction that only read.
pub open spec fn spec_read_ops(s: Seq<TxnOperation>) -> Seq<TxnOperation>
    decreases s.len(),
{
    if s.len() == 0 {
        Seq::empty()
    } else {
        let rest = spec_read_ops(s.drop_last());
        match s.last() {
            TxnOperation::Write { .. } => rest,
            op => rest.push(op),
        }
    }
}

/// The cluster members other than `me`, in announcement order.
pub open spec fn spec_other_nodes(ids: Seq<String>, me: Seq<char>) -> Seq<String>
    decreases ids.len(),
{
    if ids.len() == 0 {
        Seq::empty()
    } else {
        let rest = spec_other_nodes(ids.drop_last(), me);
        if ids.last()@ == me {
            rest
        } else {
            rest.push(ids.last())
        }
    }
}

/// The multi-partition transaction workload: a private store, serial
/// execution, and a best-effort broadcast of the read results to the peers.
pub struct MultiTxnNode {
    pub id: String,
    pub msg_id: usize,
    pub node_ids: Vec<String>,
    pub map: AList<usize, usize>,
}

impl MultiTxnNode {
    /// Build the node from the `init` request, together with the `init_ok`
    /// reply.
    pub fn init(init_msg: Message<InitPayload>) -> (r: (Self, Vec<Message<InitOkPayload>>))
        ensures
            r.0.id@ == init_msg.body.payload.node_id@,
            r.0.msg_id == 0,
            r.0.node_ids == init_msg.body.payload.node_ids,
            r.0.map.dup_free(),
            r.0.map@.len() == 0,
            r.1@.len() == 1,
            r.1@[0].src@ == init_msg.body.payload.node_id@,
            r.1@[0].dst == init_msg.src,
            r.1@[0].body.in_reply_to == init_msg.body.msg_id,
            r.1@[0].body.payload.ty@ == "init_ok"@,
    {
        let ((node_id, node_ids), init_ok) = common_init_node(init_msg);
        (MultiTxnNode { id: node_id, msg_id: 0, node_ids, map: AList::new() }, vec![init_ok])
    }

    /// Run one transaction against the store and build its reply.
    pub fn process_txn(&mut self, txn: Vec<TxnOperation>) -> (r: Vec<TxnOperation>)
        requires
            old(self).map.dup_free(),
        ensures
            final(self).map.dup_free(),
            final(self).id == old(self).id,
            final(self).msg_id == old(self).msg_id,
            final(self).node_ids == old(self).node_ids,
            abs_store(final(self).map) == txn_store(abs_store(old(self).map), txn@),
            r@ == txn_reply(abs_store(old(self).map), txn@),
    {
        SingleTxnNode::run_txn(&mut self.map, &txn)
    }

    /// Forward the read results of a transaction to every peer, best-effort
    /// and without awaiting any answer.
    pub fn communicate_txn(&mut self, txn: &Vec<TxnOperation>) -> (r: Vec<Message<TxnPayload>>)
        requires
            old(self).msg_id + old(self).node_ids@.len() <= usize::MAX,
        ensures
            final(self).id == old(self).id,
            final(self).node_ids == old(self).node_ids,
            final(self).map == old(self).map,
            ({
                let peers = spec_other_nodes(old(self).node_ids@, old(self).id@);
                &&& final(self).msg_id == old(self).msg_id + peers.len()
                &&& r@.len() == peers.len()
                &&& forall|i: int|
                    0 <= i < peers.len() ==> {
                        let m = #[trigger] r@[i];
                        &&& m.src@ == old(self).id@
                        &&& m.dst@ == peers[i]@
                        &&& m.body.msg_id == Some((old(self).msg_id + i) as usize)
                        &&& m.body.in_reply_to is None
                        &&& (m.body.payload matches TxnPayload::Txn { txn: t } && t@
                            == spec_read_ops(txn@))
                    }
            }),
    {
        let reads = filter_read_ops(txn);
        let mut r: Vec<Message<TxnPayload>> = Vec::new();
        let n = self.node_ids.len();
        let ghost peers_all = spec_other_nodes(old(self).node_ids@, old(self).id@);
        let mut i: usize = 0;
        while i < n
            invariant
                0 <= i <= n,
                n == self.node_ids@.len(),
                reads@ == spec_read_ops(txn@),
                self.id == old(self).id,
                self.node_ids == old(self).node_ids,
                self.map == old(self).map,
                old(self).msg_id + old(self).node_ids@.len() <= usize::MAX,
                ({
                    let peers = spec_other_nodes(old(self).node_ids@.take(i as int), old(self).id@);
                    &&& self.msg_id == old(self).msg_id + peers.len()
                    &&& r@.len() == peers.len()
                    &&& forall|q: int|
                        0 <= q < peers.len() ==> {
                            let m = #[trigger] r@[q];
                            &&& m.src@ == old(self).id@
                            &&& m.dst@ == peers[q]@
                            &&& m.body.msg_id == Some((old(self).msg_id + q) as usize)
                            &&& m.body.in_reply_to is None
                            &&& (m.body.payload matches TxnPayload::Txn { txn: t } && t@
                                == spec_read_ops(txn@))
                        }
                }),
            decreases n - i,
        {
            proof {
                assert(old(self).node_ids@.take(i + 1).drop_last() =~= old(self).node_ids@.take(
                    i as int,
                ));
                assert(old(self).node_ids@.take(i + 1).last() == old(self).node_ids@[i as int]);
                assert(spec_other_nodes(old(self).node_ids@.take(i as int), old(self).id@).len()
                    <= old(self).node_ids@.take(i as int).len()) by {
                    lemma_other_nodes_len(old(self).node_ids@.take(i as int), old(self).id@);
                }
            }
            let node_id = &self.node_ids[i];
            if !node_id.eq(&self.id) {
                let txn_msg = Message {
                    src: self.id.clone(),
                    dst: node_id.clone(),
                    body: Body {
                        msg_id: Some(self.msg_id),
                        in_reply_to: None,
                        payload: TxnPayload::Txn { txn: clone_ops(&reads) },
                    },
                };
                r.push(txn_msg);
                self.msg_id = self.msg_id + 1;
            }
            i = i + 1;
        }
        proof {
            assert(old(self).node_ids@.take(n as int) =~= old(self).node_ids@);
        }
        r
    }

    /// Execute a `txn` request, forward its reads to the peers, and answer
    /// `txn_ok`; a `txn_ok` arriving as a request is ignored.
    pub fn step(&mut self, event: Event<TxnPayload, ()>) -> (r: Result<
        Vec<Message<TxnPayload>>,
        NodeError,
    >)
        requires
            old(self).map.dup_free(),
            old(self).msg_id + old(self).node_ids@.len() < usize::MAX,
        ensures
            r is Ok,
            final(self).map.dup_free(),
            final(self).id == old(self).id,
            final(self).node_ids == old(self).node_ids,
            match event {
                Event::InjectedPayload(_) => r->Ok_0@.len() == 0 && *final(self) == *old(self),
                Event::Message(msg) => match msg.body.payload {
                    TxnPayload::Txn { txn } => {
                        let peers = spec_other_nodes(old(self).node_ids@, old(self).id@);
                        &&& final(self).msg_id == old(self).msg_id + 1 + peers.len()
                        &&& abs_store(final(self).map) == txn_store(
                            abs_store(old(self).map),
                            txn@,
                        )
                        &&& r->Ok_0@.len() == peers.len() + 1
                        &&& forall|i: int|
                            0 <= i < peers.len() ==> {
                                let m = #[trigger] r->Ok_0@[i];
                                &&& m.dst@ == peers[i]@
                                &&& (m.body.payload matches TxnPayload::Txn { txn: t } && t@
                                    == spec_read_ops(txn_reply(abs_store(old(self).map), txn@)))
                            }
                        &&& ({
                            let m = r->Ok_0@.last();
                            &&& m.src == msg.dst
                            &&& m.dst == msg.src
                            &&& m.body.msg_id == Some(old(self).msg_id)
                            &&& m.body.in_reply_to == msg.body.msg_id
                            &&& (m.body.payload matches TxnPayload::TxnOk { txn: t } && t@
                                == txn_reply(abs_store(old(self).map), txn@))
                        })
                    },
                    TxnPayload::TxnOk { .. } => r->Ok_0@.len() == 0 && *final(self) == *old(
                        self,
                    ),
                },
            },
    {
        match event {
            Event::InjectedPayload(_) => Ok(Vec::new()),
            Event::Message(msg) => {
                match msg.body.payload {
                    TxnPayload::Txn { txn } => {
                        let reply_mid = self.msg_id;
                        self.msg_id = self.msg_id + 1;
                        let txn_out = self.process_txn(txn);
                        let mut out = self.communicate_txn(&txn_out);
                        let reply = Message {
                            src: msg.dst,
                            dst: msg.src,
                            body: Body {
                                msg_id: Some(reply_mid),
                                in_reply_to: msg.body.msg_id,
                                payload: TxnPayload::TxnOk { txn: txn_out },
                            },
                        };
                        out.push(reply);
                        Ok(out)
                    },
                    TxnPayload::TxnOk { .. } => Ok(Vec::new()),
                }
            },
        }
    }
}

/// A filtered forward never grows beyond the peer listing it came from.
pub proof fn lemma_other_nodes_len(ids: Seq<String>, me: Seq<char>)
    ensures
        spec_other_nodes(ids, me).len() <= ids.len(),
    decreases ids.len(),
{
    if ids.len() > 0 {
        lemma_other_nodes_len(ids.drop_last(), me);
    }
}

/// Keep only the read operations of a transaction, in order.
pub fn filter_read_ops(txn: &Vec<TxnOperation>) -> (r: Vec<TxnOperation>)
    ensures
        r@ == spec_read_ops(txn@),
{
    let mut r: Vec<TxnOperation> = Vec::new();
    let mut i: usize = 0;
    while i < txn.len()
        invariant
            0 <= i <= txn@.len(),
            r@ =~= spec_read_ops(txn@.take(i as int)),
        decreases txn@.len() - i,
    {
        proof {
            assert(txn@.take(i + 1).drop_last() =~= txn@.take(i as int));
            assert(txn@.take(i + 1).last() == txn@[i as int]);
        }
        match txn[i] {
            TxnOperation::Write { .. } => {},
            op => {
                r.push(op);
            },
        }
        proof {
            assert(r@ =~= spec_read_ops(txn@.take(i + 1)));
        }
        i = i + 1;
    }
    proof {
        assert(txn@.take(txn@.len() as int) =~= txn@);
    }
    r
}

/// Copy a vector of operations.
pub fn clone_ops(s: &Vec<TxnOperation>) -> (r: Vec<TxnOperation>)
    ensures
        r@ == s@,
{
    let mut r: Vec<TxnOperation> = Vec::new();
    let mut i: usize = 0;
    while i < s.len()
        invariant
            0 <= i <= s@.len(),
            r@ =~= s@.take(i as int),
        decreases s@.len() - i,
    {
        r.push(s[i]);
        proof {
            assert(r@ =~= s@.take(i + 1));
        }
        i = i + 1;
    }
    proof {
        assert(s@.take(s@.len() as int) =~= s@);
    }
    r
}

impl Node<TxnPayload, ()> for MultiTxnNode {
    open spec fn node_wf(&self) -> bool {
        self.map.dup_free()
    }

    open spec fn room_for_msg_id(&self) -> bool {
        self.msg_id + self.node_ids@.len() < usize::MAX
    }

    fn init(init_msg: Message<InitPayload>) -> (r: (Self, Vec<Message<InitOkPayload>>)) {
        MultiTxnNode::init(init_msg)
    }

    fn step(&mut self, event: Event<TxnPayload, ()>) -> (r: Result<
        Vec<Message<TxnPayload>>,
        NodeError,
    >) {
        self.step(event)
    }
}

} // verus!
