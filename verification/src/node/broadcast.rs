use crate::node::{common_init_node, Node};
use crate::payloads::{BroadcastPayload, Event, InitOkPayload, InitPayload};
use crate::{Body, Message, NodeError};
use vstd::prelude::*;

verus! {

/// The single-node broadcast workload: it accumulates broadcast values and
/// answers reads with everything seen so far.
#[derive(Debug, Clone)]
pub struct BroadcastNode {
    pub id: String,
    pub msg_id: usize,
    pub node_ids: Vec<String>,
    pub broadcast_messages: Vec<usize>,
}

impl BroadcastNode {
    /// Build the node from the `init` request, together with the `init_ok`
    /// reply.
    pub fn init(init_msg: Message<InitPayload>) -> (r: (Self, Vec<Message<InitOkPayload>>))
        ensures
            r.0.id@ == init_msg.body.payload.node_id@,
            r.0.msg_id == 0,
            r.0.node_ids == init_msg.body.payload.node_ids,
            r.0.broadcast_messages@.len() == 0,
            r.1@.len() == 1,
            r.1@[0].src@ == init_msg.body.payload.node_id@,
            r.1@[0].dst == init_msg.src,
            r.1@[0].body.in_reply_to == init_msg.body.msg_id,
            r.1@[0].body.payload.ty@ == "init_ok"@,
    {
        let ((node_id, node_ids), init_ok) = common_init_node(init_msg);
        (
            BroadcastNode { id: node_id, msg_id: 0, node_ids, broadcast_messages: Vec::new() },
            vec![init_ok],
        )
    }

    /// In this single-node variant a broadcast is not forwarded anywhere:
    /// gossip belongs to the multi-node broadcast node.
    pub fn broadcast_message(&self, _msg: usize) -> (r: Vec<Message<BroadcastPayload>>)
        ensures
            r@.len() == 0,
    {
        Vec::new()
    }

    /// Record broadcast values and answer `read` with all of them, in the
    /// order first seen.
    pub fn step(&mut self, event: Event<BroadcastPayload, ()>) -> (r: Result<
        Vec<Message<BroadcastPayload>>,
        NodeError,
    >)
        ensures
            r is Ok,
            final(self).id == old(self).id,
            final(self).msg_id == old(self).msg_id,
            final(self).node_ids == old(self).node_ids,
            match event {
                Event::InjectedPayload(_) => *final(self) == *old(self) && r->Ok_0@.len() == 0,
                Event::Message(msg) => match msg.body.payload {
                    BroadcastPayload::Broadcast { message } => {
                        &&& final(self).broadcast_messages@ == old(
                            self,
                        ).broadcast_messages@.push(message)
                        &&& r->Ok_0@.len() == 1
                        &&& r->Ok_0@[0].src@ == old(self).id@
                        &&& r->Ok_0@[0].dst@ == msg.src@
                        &&& r->Ok_0@[0].body.msg_id is None
                        &&& r->Ok_0@[0].body.in_reply_to == msg.body.msg_id
                        &&& r->Ok_0@[0].body.payload is BroadcastOk
                    },
                    BroadcastPayload::Read => {
                        &&& final(self).broadcast_messages == old(self).broadcast_messages
                        &&& r->Ok_0@.len() == 1
                        &&& r->Ok_0@[0].src@ == old(self).id@
                        &&& r->Ok_0@[0].dst@ == msg.src@
                        &&& r->Ok_0@[0].body.msg_id is None
                        &&& r->Ok_0@[0].body.in_reply_to == msg.body.msg_id
                        &&& (r->Ok_0@[0].body.payload matches BroadcastPayload::ReadOk {
                            messages,
                        } && messages@ == old(self).broadcast_messages@)
                    },
                    BroadcastPayload::Topology { .. } => {
                        &&& final(self).broadcast_messages == old(self).broadcast_messages
                        &&& r->Ok_0@.len() == 1
                        &&& r->Ok_0@[0].src@ == old(self).id@
                        &&& r->Ok_0@[0].dst@ == msg.src@
                        &&& r->Ok_0@[0].body.msg_id is None
                        &&& r->Ok_0@[0].body.in_reply_to == msg.body.msg_id
                        &&& r->Ok_0@[0].body.payload is TopologyOk
                    },
                    _ => *final(self) == *old(self) && r->Ok_0@.len() == 0,
                },
            },
    {
        match event {
            Event::InjectedPayload(_) => Ok(Vec::new()),
            Event::Message(msg) => match msg.body.payload {
                BroadcastPayload::Broadcast { message } => {
                    self.broadcast_messages.push(message);
                    let mut out = self.broadcast_message(message);
                    let broadcast_ok = Message {
                        src: self.id.clone(),
                        dst: msg.src,
                        body: Body {
                            msg_id: None,
                            in_reply_to: msg.body.msg_id,
                            payload: BroadcastPayload::BroadcastOk,
                        },
                    };
                    out.push(broadcast_ok);
                    Ok(out)
                },
                BroadcastPayload::Read => {
                    let messages = clone_usizes(&self.broadcast_messages);
                    let read_ok = Message {
                        src: self.id.clone(),
                        dst: msg.src,
                        body: Body {
                            msg_id: None,
                            in_reply_to: msg.body.msg_id,
                            payload: BroadcastPayload::ReadOk { messages },
                        },
                    };
                    Ok(vec![read_ok])
                },
                BroadcastPayload::Topology { topology: _ } => {
                    let topology_ok = Message {
                        src: self.id.clone(),
                        dst: msg.src,
                        body: Body {
                            msg_id: None,
                            in_reply_to: msg.body.msg_id,
                            payload: BroadcastPayload::TopologyOk,
                        },
                    };
                    Ok(vec![topology_ok])
                },
                _ => Ok(Vec::new()),
            },
        }
    }
}

/// Copy a vector of values.
pub fn clone_usizes(s: &Vec<usize>) -> (r: Vec<usize>)
    ensures
        r@ == s@,
{
    let mut r: Vec<usize> = Vec::new();
    let mut i: usize = 0;
    while i < s.len()
        invariant
            0 <= i <= s@.len(),
            r@ =~= s@.take(i as int),
        decreases s@.len() - i,
    {
        r.push(s[i]);
        proof {
            assert(r@ =~= s@.take(i + 1));
        }
        i = i + 1;
    }
    proof {
        assert(s@.take(s@.len() as int) =~= s@);
    }
    r
}

impl Node<BroadcastPayload, ()> for BroadcastNode {
    open spec fn node_wf(&self) -> bool {
        true
    }

    open spec fn room_for_msg_id(&self) -> bool {
        true
    }

    fn init(init_msg: Message<InitPayload>) -> (r: (Self, Vec<Message<InitOkPayload>>)) {
        BroadcastNode::init(init_msg)
    }

    fn step(&mut self, event: Event<BroadcastPayload, ()>) -> (r: Result<
        Vec<Message<BroadcastPayload>>,
        NodeError,
    >) {
        self.step(event)
    }
}

} // verus!
