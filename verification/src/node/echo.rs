use crate::node::{common_init_node, Node};
use crate::payloads::{EchoPayload, Event, InitOkPayload, InitPayload};
use crate::{Body, Message, NodeError};
use vstd::prelude::*;

verus! {

/// The echo workload: every `echo` request is answered with `echo_ok`
/// carrying the same text.
pub struct EchoNode {
    pub id: String,
    pub msg_id: usize,
}

impl EchoNode {
    /// Build the node from the `init` request, together with the `init_ok`
    /// reply.
    pub fn init(init_msg: Message<InitPayload>) -> (r: (Self, Vec<Message<InitOkPayload>>))
        ensures
            r.0.id@ == init_msg.body.payload.node_id@,
            r.0.msg_id == 1,
            r.1@.len() == 1,
            r.1@[0].src@ == init_msg.body.payload.node_id@,
            r.1@[0].dst == init_msg.src,
            r.1@[0].body.in_reply_to == init_msg.body.msg_id,
            r.1@[0].body.payload.ty@ == "init_ok"@,
    {
        let ((node_id, _node_ids), init_ok) = common_init_node(init_msg);
        (EchoNode { id: node_id, msg_id: 1 }, vec![init_ok])
    }

    /// Answer `echo` with `echo_ok` carrying the same text; anything else is
    /// ignored.
    pub fn step(&mut self, event: Event<EchoPayload, ()>) -> (r: Result<
        Vec<Message<EchoPayload>>,
        NodeError,
    >)
        requires
            old(self).msg_id < usize::MAX,
        ensures
            r is Ok,
            final(self).id == old(self).id,
            match event {
                Event::InjectedPayload(_) => *final(self) == *old(self) && r->Ok_0@.len() == 0,
                Event::Message(msg) => match msg.body.payload {
                    EchoPayload::Echo { echo } => {
                        &&& final(self).msg_id == old(self).msg_id + 1
                        &&& r->Ok_0@.len() == 1
                        &&& r->Ok_0@[0].src@ == old(self).id@
                        &&& r->Ok_0@[0].dst@ == msg.src@
                        &&& r->Ok_0@[0].body.msg_id == Some(old(self).msg_id)
                        &&& r->Ok_0@[0].body.in_reply_to == msg.body.msg_id
                        &&& (r->Ok_0@[0].body.payload matches EchoPayload::EchoOk { echo: e } && e@
                            == echo@)
                    },
                    EchoPayload::EchoOk { .. } => *final(self) == *old(self) && r->Ok_0@.len()
                        == 0,
                },
            },
    {
        match event {
            Event::InjectedPayload(_) => Ok(Vec::new()),
            Event::Message(msg) => match msg.body.payload {
                EchoPayload::Echo { echo } => {
                    let reply = Message {
                        src: self.id.clone(),
                        dst: msg.src,
                        body: Body {
                            msg_id: Some(self.msg_id),
                            in_reply_to: msg.body.msg_id,
                            payload: EchoPayload::EchoOk { echo },
                        },
                    };
                    self.msg_id = self.msg_id + 1;
                    Ok(vec![reply])
                },
                EchoPayload::EchoOk { .. } => Ok(Vec::new()),
            },
        }
    }
}

impl Node<EchoPayload, ()> for EchoNode {
    open spec fn node_wf(&self) -> bool {
        true
    }

    open spec fn room_for_msg_id(&self) -> bool {
        self.msg_id < usize::MAX
    }

    fn init(init_msg: Message<InitPayload>) -> (r: (Self, Vec<Message<InitOkPayload>>)) {
        EchoNode::init(init_msg)
    }

    fn step(&mut self, event: Event<EchoPayload, ()>) -> (r: Result<
        Vec<Message<EchoPayload>>,
        NodeError,
    >) {
        self.step(event)
    }
}

} // verus!
