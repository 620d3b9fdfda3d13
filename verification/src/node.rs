pub mod broadcast;
pub mod echo;
pub mod generate;
pub mod gocounter;
pub mod kafkalog;
pub mod multibroadcast;
pub mod multikafkalog;
pub mod multitxn;
pub mod singletxn;

use crate::payloads::{Event, InitOkPayload, InitPayload};
use crate::{Body, Message, NodeError};
use vstd::prelude::*;

verus! {

/// A workload state machine: built from the `init` request, it turns each
/// event into the envelopes to write out.  Each implementation also offers
/// the same operations as inherent methods carrying its exact contract; the
/// caller re-establishes `node_wf` and `room_for_msg_id` before every step.
pub trait Node<P, IP>: Sized {
    /// The state invariant the node keeps across steps.
    spec fn node_wf(&self) -> bool;

    /// The node can still allocate an outgoing message id.
    spec fn room_for_msg_id(&self) -> bool;

    fn init(init_msg: Message<InitPayload>) -> (r: (Self, Vec<Message<InitOkPayload>>))
        ensures
            r.0.node_wf(),
    ;

    fn step(&mut self, event: Event<P, IP>) -> (r: Result<Vec<Message<P>>, NodeError>)
        requires
            old(self).node_wf(),
            old(self).room_for_msg_id(),
        ensures
            final(self).node_wf(),
    ;
}

/// Acknowledge `init`: hand back the node's identity and peers together with
/// the `init_ok` reply envelope.
pub fn common_init_node(init_msg: Message<InitPayload>) -> (r: (
    (String, Vec<String>),
    Message<InitOkPayload>,
))
    ensures
        r.0.0 == init_msg.body.payload.node_id,
        r.0.1 == init_msg.body.payload.node_ids,
        r.1.src@ == init_msg.body.payload.node_id@,
        r.1.dst == init_msg.src,
        r.1.body.msg_id is None,
        r.1.body.in_reply_to == init_msg.body.msg_id,
        r.1.body.payload.ty@ == "init_ok"@,
{
    let node_id = init_msg.body.payload.node_id;
    let init_ok = Message {
        src: node_id.clone(),
        dst: init_msg.src,
        body: Body {
            msg_id: None,
            in_reply_to: init_msg.body.msg_id,
            payload: InitOkPayload::new(),
        },
    };
    ((node_id, init_msg.body.payload.node_ids), init_ok)
}

/// Check that no log key occurs twice among a request's `(key, offset)`
/// entries.
pub fn distinct_keys_check(s: &Vec<(String, usize)>) -> (r: bool)
    ensures
        r == crate::node::kafkalog::distinct_offset_keys(s@),
{
    let n = s.len();
    let mut i: usize = 0;
    while i < n
        invariant
            n == s@.len(),
            0 <= i <= n,
            forall|p: int, q: int| 0 <= p < q < s@.len() && p < i ==> (#[trigger] s@[p].0@) != (#[trigger] s@[q].0@),
        decreases n - i,
    {
        let mut j: usize = i + 1;
        while j < n
            invariant
                n == s@.len(),
                0 <= i < j <= n,
                forall|q: int| i < q < j ==> (#[trigger] s@[q].0@) != s@[i as int].0@,
            decreases n - j,
        {
            if s[i].0.eq(&s[j].0) {
                return false;
            }
            j = j + 1;
        }
        i = i + 1;
    }
    true
}

} // verus!
