pub mod mloop;
pub mod node;
pub mod numfmt;
pub mod payloads;
pub mod table;

use vstd::prelude::*;

verus! {

/// One wire envelope: a source node, a destination node, and a body whose
/// payload variant is chosen by the workload.
#[derive(Debug, Clone)]
pub struct Message<P> {
    pub src: String,
    pub dst: String,
    pub body: Body<P>,
}

impl<P> Message<P> {
    /// Turn a request into the frame of its reply: source and destination are
    /// swapped, the reply correlates to the request's message id, and the
    /// payload is carried over unchanged until the caller rewrites it.
    pub fn into_reply(self, reply_msg_id: usize) -> (r: Message<P>)
        ensures
            r.src == self.dst,
            r.dst == self.src,
            r.body.msg_id == Some(reply_msg_id),
            r.body.in_reply_to == self.body.msg_id,
            r.body.payload == self.body.payload,
    {
        Message {
            src: self.dst,
            dst: self.src,
            body: Body {
                msg_id: Some(reply_msg_id),
                in_reply_to: self.body.msg_id,
                payload: self.body.payload,
            },
        }
    }
}

/// The envelope `r` is framed as the reply to `req` carrying message id
/// `mid`: source and destination are swapped and `r` correlates to `req`'s
/// message id.
pub open spec fn is_reply_frame<P>(r: Message<P>, req: Message<P>, mid: usize) -> bool {
    &&& r.src == req.dst
    &&& r.dst == req.src
    &&& r.body.msg_id == Some(mid)
    &&& r.body.in_reply_to == req.body.msg_id
}

/// The common body shape: an optional message id, an optional reply
/// correlation, and the workload payload.
#[derive(Debug, Clone)]
pub struct Body<P> {
    pub msg_id: Option<usize>,
    pub in_reply_to: Option<usize>,
    pub payload: P,
}

/// Payload variants understood by the standalone echo node.
#[derive(Debug, Clone)]
pub enum Payload {
    Init { node_id: String, node_ids: Vec<String> },
    InitOk,
    Echo { echo: String },
    EchoOk { echo: String },
    Generate,
    GenerateOk,
}

/// Errors a node step can report; the caller stops the process on any of them.
#[derive(Debug, Clone, PartialEq, Eq)]
pub enum NodeError {
    MissingNodeId,
    MissingMsgId,
    UnexpectedMessage,
}

/// A minimal node that answers `echo` requests and handles its own `init`.
pub struct EchoNode {
    pub id: Option<String>,
    pub msg_id: usize,
}

impl EchoNode {
    /// Handle one inbound envelope and return the envelopes to write out.
    pub fn step(&mut self, input_msg: Message<Payload>) -> (r: Result<
        Vec<Message<Payload>>,
        NodeError,
    >)
        requires
            old(self).msg_id < usize::MAX,
        ensures
            match input_msg.body.payload {
                Payload::Init { node_id, .. } => {
                    &&& r is Ok
                    &&& final(self).id == Some(node_id)
                    &&& final(self).msg_id == old(self).msg_id
                    &&& r->Ok_0@.len() == 1
                    &&& r->Ok_0@[0].src@ == node_id@
                    &&& r->Ok_0@[0].dst@ == input_msg.src@
                    &&& r->Ok_0@[0].body.msg_id == Some(old(self).msg_id)
                    &&& r->Ok_0@[0].body.in_reply_to == input_msg.body.msg_id
                    &&& r->Ok_0@[0].body.payload is InitOk
                },
                Payload::Echo { echo } => {
                    &&& old(self).id is None ==> r == Result::<
                        Vec<Message<Payload>>,
                        NodeError,
                    >::Err(NodeError::MissingNodeId)
                    &&& old(self).id matches Some(id) ==> {
                        &&& r is Ok
                        &&& final(self).msg_id == old(self).msg_id + 1
                        &&& final(self).id == old(self).id
                        &&& r->Ok_0@.len() == 1
                        &&& r->Ok_0@[0].src@ == id@
                        &&& r->Ok_0@[0].dst@ == input_msg.src@
                        &&& r->Ok_0@[0].body.msg_id == Some(old(self).msg_id)
                        &&& r->Ok_0@[0].body.in_reply_to == input_msg.body.msg_id
                        &&& r->Ok_0@[0].body.payload matches Payload::EchoOk { echo: e }
                            && e@ == echo@
                    }
                },
                Payload::EchoOk { .. } => r matches Ok(out) && out@.len() == 0 && *final(self)
                    == *old(self),
                _ => r == Result::<Vec<Message<Payload>>, NodeError>::Err(
                    NodeError::UnexpectedMessage,
                ) && *final(self) == *old(self),
            },
    {
        match input_msg.body.payload {
            Payload::Init { node_id, .. } => {
                let src = node_id.clone();
                self.id = Some(node_id);
                let init_reply = Message {
                    src,
                    dst: input_msg.src,
                    body: Body {
                        msg_id: Some(self.msg_id),
                        in_reply_to: input_msg.body.msg_id,
                        payload: Payload::InitOk,
                    },
                };
                Ok(vec![init_reply])
            },
            Payload::Echo { echo } => {
                let id = match &self.id {
                    Some(id) => id.clone(),
                    None => {
                        return Err(NodeError::MissingNodeId);
                    },
                };
                let reply = Message {
                    src: id,
                    dst: input_msg.src,
                    body: Body {
                        msg_id: Some(self.msg_id),
                        in_reply_to: input_msg.body.msg_id,
                        payload: Payload::EchoOk { echo },
                    },
                };
                self.msg_id = self.msg_id + 1;
                Ok(vec![reply])
            },
            Payload::EchoOk { .. } => Ok(Vec::new()),
            Payload::InitOk => Err(NodeError::UnexpectedMessage),
            Payload::Generate => Err(NodeError::UnexpectedMessage),
            Payload::GenerateOk => Err(NodeError::UnexpectedMessage),
        }
    }
}

} // verus!
