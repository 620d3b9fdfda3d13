use crate::node::common_init_node;
use crate::payloads::{InitOkPayload, InitPayload};
use crate::Message;
use vstd::prelude::*;

verus! {

/// Acknowledge the bootstrap `init` request: hand back this node's identity
/// together with the `init_ok` envelope to write out before anything else.
pub fn receive_init_then_send_init_ok(init_msg: Message<InitPayload>) -> (r: (
    String,
    Message<InitOkPayload>,
))
    ensures
        r.0@ == init_msg.body.payload.node_id@,
        r.1.src@ == init_msg.body.payload.node_id@,
        r.1.dst == init_msg.src,
        r.1.body.msg_id is None,
        r.1.body.in_reply_to == init_msg.body.msg_id,
        r.1.body.payload.ty@ == "init_ok"@,
{
    let ((node_id, _node_ids), init_ok) = common_init_node(init_msg);
    (node_id, init_ok)
}

} // verus!
