use crate::node::{common_init_node, Node};
use crate::payloads::{Event, InitOkPayload, InitPayload, TxnOperation, TxnPayload};
use crate::table::AList;
use crate::{Body, Message, NodeError};
use vstd::prelude::*;

verus! {

/// The store a transaction node works on, as a mathematical map.
pub open spec fn abs_store(m: AList<usize, usize>) -> Map<int, usize> {
    Map::new(|k: int| m.has_key(k), |k: int| m.val_of(k))
}

/// The store after one operation: a write with a value stores it, everything
/// else leaves the store alone.
pub open spec fn txn_step_store(m: Map<int, usize>, op: TxnOperation) -> Map<int, usize> {
    match op {
        TxnOperation::Write { key, value: Some(v) } => m.insert(key as int, v),
        _ => m,
    }
}

/// The store after a whole transaction, applied left to right.
pub open spec fn txn_store(m: Map<int, usize>, ops: Seq<TxnOperation>) -> Map<int, usize>
    decreases ops.len(),
{
    if ops.len() == 0 {
        m
    } else {
        txn_step_store(txn_store(m, ops.drop_last()), ops.last())
    }
}

/// The reply a transaction earns: each write echoed, each read populated
/// with the value the store held at that point, a read of an absent key
/// populated with nothing.
pub open spec fn txn_reply(m: Map<int, usize>, ops: Seq<TxnOperation>) -> Seq<TxnOperation>
    decreases ops.len(),
{
    if ops.len() == 0 {
        Seq::empty()
    } else {
        let rest = txn_reply(m, ops.drop_last());
        let cur = txn_store(m, ops.drop_last());
        match ops.last() {
            TxnOperation::Read { key, value: _ } => {
                let read_value = if cur.contains_key(key as int) {
                    Some(cur[key as int])
                } else {
                    None
                };
                rest.push(TxnOperation::Read { key, value: read_value })
            },
            TxnOperation::Write { key, value } => rest.push(TxnOperation::Write { key, value }),
        }
    }
}

/// The single-partition transaction workload: a private key-value store and
/// serial execution of each transaction.
pub struct SingleTxnNode {
    pub _id: String,
    pub msg_id: usize,
    pub map: AList<usize, usize>,
}

impl SingleTxnNode {
    /// Build the node from the `init` request, together with the `init_ok`
    /// reply.
    pub fn init(init_msg: Message<InitPayload>) -> (r: (Self, Vec<Message<InitOkPayload>>))
        ensures
            r.0._id@ == init_msg.body.payload.node_id@,
            r.0.msg_id == 0,
            r.0.map.dup_free(),
            r.0.map@.len() == 0,
            r.1@.len() == 1,
            r.1@[0].src@ == init_msg.body.payload.node_id@,
            r.1@[0].dst == init_msg.src,
            r.1@[0].body.in_reply_to == init_msg.body.msg_id,
            r.1@[0].body.payload.ty@ == "init_ok"@,
    {
        let ((node_id, _node_ids), init_ok) = common_init_node(init_msg);
        (SingleTxnNode { _id: node_id, msg_id: 0, map: AList::new() }, vec![init_ok])
    }

    /// Run one transaction against the store and build its reply.
    pub fn run_txn(map: &mut AList<usize, usize>, txn: &Vec<TxnOperation>) -> (r: Vec<
        TxnOperation,
    >)
        requires
            old(map).dup_free(),
        ensures
            final(map).dup_free(),
            abs_store(*final(map)) == txn_store(abs_store(*old(map)), txn@),
            r@ == txn_reply(abs_store(*old(map)), txn@),
    {
        let ghost m0 = abs_store(*old(map));
        let mut r: Vec<TxnOperation> = Vec::new();
        let mut i: usize = 0;
        while i < txn.len()
            invariant
                0 <= i <= txn@.len(),
                map.dup_free(),
                abs_store(*map) =~= txn_store(m0, txn@.take(i as int)),
                r@ =~= txn_reply(m0, txn@.take(i as int)),
            decreases txn@.len() - i,
        {
            proof {
                assert(txn@.take(i + 1).drop_last() =~= txn@.take(i as int));
                assert(txn@.take(i + 1).last() == txn@[i as int]);
            }
            match txn[i] {
                TxnOperation::Read { key, value: _ } => {
                    let read_value = match map.get(&key) {
                        Some(v) => Some(*v),
                        None => None,
                    };
                    r.push(TxnOperation::Read { key, value: read_value });
                    proof {
                        assert(abs_store(*map) =~= txn_store(m0, txn@.take(i + 1)));
                        assert(r@ =~= txn_reply(m0, txn@.take(i + 1)));
                    }
                },
                TxnOperation::Write { key, value } => {
                    match value {
                        Some(v) => {
                            map.insert(key, v);
                        },
                        None => {},
                    }
                    r.push(TxnOperation::Write { key, value });
                    proof {
                        assert(abs_store(*map) =~= txn_store(m0, txn@.take(i + 1)));
                        assert(r@ =~= txn_reply(m0, txn@.take(i + 1)));
                    }
                },
            }
            i = i + 1;
        }
        proof {
            assert(txn@.take(txn@.len() as int) =~= txn@);
        }
        r
    }

    /// Execute a `txn` request serially against the store and answer
    /// `txn_ok` with the populated operations.  A reply payload arriving as
    /// a request is a protocol error.
    pub fn step(&mut self, event: Event<TxnPayload, ()>) -> (r: Result<
        Vec<Message<TxnPayload>>,
        NodeError,
    >)
        requires
            old(self).msg_id < usize::MAX,
            old(self).map.dup_free(),
        ensures
            final(self).map.dup_free(),
            final(self)._id == old(self)._id,
            match event {
                Event::InjectedPayload(_) => r matches Ok(v) && v@.len() == 0 && *final(self)
                    == *old(self),
                Event::Message(msg) => match msg.body.payload {
                    TxnPayload::Txn { txn } => {
                        &&& r is Ok
                        &&& final(self).msg_id == old(self).msg_id + 1
                        &&& abs_store(final(self).map) == txn_store(
                            abs_store(old(self).map),
                            txn@,
                        )
                        &&& r->Ok_0@.len() == 1
                        &&& r->Ok_0@[0].src == msg.dst
                        &&& r->Ok_0@[0].dst == msg.src
                        &&& r->Ok_0@[0].body.msg_id == Some(old(self).msg_id)
                        &&& r->Ok_0@[0].body.in_reply_to == msg.body.msg_id
                        &&& (r->Ok_0@[0].body.payload matches TxnPayload::TxnOk { txn: t } && t@
                            == txn_reply(abs_store(old(self).map), txn@))
                    },
                    TxnPayload::TxnOk { .. } => r == Result::<
                        Vec<Message<TxnPayload>>,
                        NodeError,
                    >::Err(NodeError::UnexpectedMessage) && *final(self) == *old(self),
                },
            },
    {
        match event {
            Event::InjectedPayload(_) => Ok(Vec::new()),
            Event::Message(msg) => {
                match msg.body.payload {
                    TxnPayload::Txn { txn } => {
                        let reply_mid = self.msg_id;
                        self.msg_id = self.msg_id + 1;
                        let txn_out = Self::run_txn(&mut self.map, &txn);
                        let reply = Message {
                            src: msg.dst,
                            dst: msg.src,
                            body: Body {
                                msg_id: Some(reply_mid),
                                in_reply_to: msg.body.msg_id,
                                payload: TxnPayload::TxnOk { txn: txn_out },
                            },
                        };
                        Ok(vec![reply])
                    },
                    TxnPayload::TxnOk { .. } => Err(NodeError::UnexpectedMessage),
                }
            },
        }
    }
}

impl Node<TxnPayload, ()> for SingleTxnNode {
    open spec fn node_wf(&self) -> bool {
        self.map.dup_free()
    }

    open spec fn room_for_msg_id(&self) -> bool {
        self.msg_id < usize::MAX
    }

    fn init(init_msg: Message<InitPayload>) -> (r: (Self, Vec<Message<InitOkPayload>>)) {
        SingleTxnNode::init(init_msg)
    }

    fn step(&mut self, event: Event<TxnPayload, ()>) -> (r: Result<
        Vec<Message<TxnPayload>>,
        NodeError,
    >) {
        self.step(event)
    }
}

} // verus!
