use rustorm::mloop::receive_init_then_send_init_ok;
use rustorm::payloads::InitPayload;
use rustorm::{Body, Message};

#[test]
fn init_is_acknowledged_before_anything_else() {
    let init = Message {
        src: String::from("c1"),
        dst: String::from("n1"),
        body: Body {
            msg_id: Some(1),
            in_reply_to: None,
            payload: InitPayload {
                node_id: String::from("n1"),
                node_ids: vec![String::from("n1")],
            },
        },
    };
    let (node_id, init_ok) = receive_init_then_send_init_ok(init);
    assert_eq!(node_id, "n1");
    assert_eq!(init_ok.src, "n1");
    assert_eq!(init_ok.dst, "c1");
    assert_eq!(init_ok.body.in_reply_to, Some(1));
    assert_eq!(init_ok.body.payload.ty, "init_ok");
}
