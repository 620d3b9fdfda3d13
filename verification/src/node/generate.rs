use crate::node::{common_init_node, Node};
use crate::numfmt::{dec_str, fmt_usize};
use crate::payloads::{Event, GeneratePayload, InitOkPayload, InitPayload};
use crate::{Body, Message, NodeError};
use vstd::prelude::*;

verus! {

/// The unique-id workload: each `generate` request is answered with an id no
/// other node and no other request of this node can produce.
pub struct GenerateNode {
    pub id: String,
    pub msg_id: usize,
}

impl GenerateNode {
    /// Build the node from the `init` request, together with the `init_ok`
    /// reply.
    pub fn init(init_msg: Message<InitPayload>) -> (r: (Self, Vec<Message<InitOkPayload>>))
        ensures
            r.0.id@ == init_msg.body.payload.node_id@,
            r.0.msg_id == 1,
            r.1@.len() == 1,
            r.1@[0].src@ == init_msg.body.payload.node_id@,
            r.1@[0].dst == init_msg.src,
            r.1@[0].body.in_reply_to == init_msg.body.msg_id,
            r.1@[0].body.payload.ty@ == "init_ok"@,
    {
        let ((node_id, _node_ids), init_ok) = common_init_node(init_msg);
        (GenerateNode { id: node_id, msg_id: 1 }, vec![init_ok])
    }

    /// The id handed out next: this node's name, a dash, and the current
    /// message counter.  Node names are unique in the cluster and the counter
    /// never repeats, so no two calls anywhere yield the same id.
    pub fn generate_guid_using_node_id(&self) -> (r: String)
        ensures
            r@ == self.id@ + "-"@ + dec_str(self.msg_id as int),
    {
        let mut s = self.id.clone();
        s.append("-");
        let digits = fmt_usize(self.msg_id);
        s.append(digits.as_str());
        s
    }

    /// Answer `generate` with a fresh id; anything else is ignored.
    pub fn step(&mut self, event: Event<GeneratePayload, ()>) -> (r: Result<
        Vec<Message<GeneratePayload>>,
        NodeError,
    >)
        requires
            old(self).msg_id < usize::MAX,
        ensures
            r is Ok,
            final(self).id == old(self).id,
            match event {
                Event::InjectedPayload(_) => *final(self) == *old(self) && r->Ok_0@.len() == 0,
                Event::Message(msg) => match msg.body.payload {
                    GeneratePayload::Generate => {
                        &&& final(self).msg_id == old(self).msg_id + 1
                        &&& r->Ok_0@.len() == 1
                        &&& r->Ok_0@[0].src@ == old(self).id@
                        &&& r->Ok_0@[0].dst@ == msg.src@
                        &&& r->Ok_0@[0].body.msg_id == Some(old(self).msg_id)
                        &&& r->Ok_0@[0].body.in_reply_to == msg.body.msg_id
                        &&& (r->Ok_0@[0].body.payload matches GeneratePayload::GenerateOk {
                            guid,
                        } && guid@ == old(self).id@ + "-"@ + dec_str(old(self).msg_id as int))
                    },
                    GeneratePayload::GenerateOk { .. } => *final(self) == *old(self)
                        && r->Ok_0@.len() == 0,
                },
            },
    {
        match event {
            Event::InjectedPayload(_) => Ok(Vec::new()),
            Event::Message(msg) => match msg.body.payload {
                GeneratePayload::Generate => {
                    let guid = self.generate_guid_using_node_id();
                    let generate_ok = Message {
                        src: self.id.clone(),
                        dst: msg.src,
                        body: Body {
                            msg_id: Some(self.msg_id),
                            in_reply_to: msg.body.msg_id,
                            payload: GeneratePayload::GenerateOk { guid },
                        },
                    };
                    self.msg_id = self.msg_id + 1;
                    Ok(vec![generate_ok])
                },
                GeneratePayload::GenerateOk { .. } => Ok(Vec::new()),
            },
        }
    }
}

impl Node<GeneratePayload, ()> for GenerateNode {
    open spec fn node_wf(&self) -> bool {
        true
    }

    open spec fn room_for_msg_id(&self) -> bool {
        self.msg_id < usize::MAX
    }

    fn init(init_msg: Message<InitPayload>) -> (r: (Self, Vec<Message<InitOkPayload>>)) {
        GenerateNode::init(init_msg)
    }

    fn step(&mut self, event: Event<GeneratePayload, ()>) -> (r: Result<
        Vec<Message<GeneratePayload>>,
        NodeError,
    >) {
        self.step(event)
    }
}

} // verus!
