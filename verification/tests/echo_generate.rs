use rustorm::node::echo::EchoNode as WorkloadEchoNode;
use rustorm::node::generate::GenerateNode;
use rustorm::payloads::{EchoPayload, Event, GeneratePayload, InitPayload};
use rustorm::{Body, EchoNode, Message, NodeError, Payload};

#[test]
fn bootstrap_replies_init_ok() {
    let mut node = EchoNode { id: None, msg_id: 0 };
    let init = Message {
        src: String::from("c1"),
        dst: String::from("n1"),
        body: Body {
            msg_id: Some(1),
            in_reply_to: None,
            payload: Payload::Init {
                node_id: String::from("n1"),
                node_ids: vec![String::from("n1")],
            },
        },
    };
    let out = node.step(init).unwrap();
    assert_eq!(out.len(), 1);
    assert_eq!(out[0].src, "n1");
    assert_eq!(out[0].dst, "c1");
    assert_eq!(out[0].body.in_reply_to, Some(1));
    assert!(matches!(out[0].body.payload, Payload::InitOk));
}

#[test]
fn echo_is_answered_exactly_once() {
    let mut node = EchoNode { id: Some(String::from("n1")), msg_id: 3 };
    let msg = Message {
        src: String::from("c9"),
        dst: String::from("n1"),
        body: Body {
            msg_id: Some(41),
            in_reply_to: None,
            payload: Payload::Echo { echo: String::from("hello") },
        },
    };
    let out = node.step(msg).unwrap();
    assert_eq!(out.len(), 1);
    assert_eq!(out[0].body.in_reply_to, Some(41));
    match &out[0].body.payload {
        Payload::EchoOk { echo } => assert_eq!(echo, "hello"),
        other => panic!("expected echo_ok, got {:?}", other),
    }
    assert_eq!(node.msg_id, 4);
}

#[test]
fn echo_before_init_fails() {
    let mut node = EchoNode { id: None, msg_id: 0 };
    let msg = Message {
        src: String::from("c9"),
        dst: String::from("n1"),
        body: Body {
            msg_id: Some(41),
            in_reply_to: None,
            payload: Payload::Echo { echo: String::from("x") },
        },
    };
    assert!(matches!(node.step(msg), Err(NodeError::MissingNodeId)));
}

#[test]
fn unexpected_payload_is_an_error() {
    let mut node = EchoNode { id: Some(String::from("n1")), msg_id: 0 };
    let msg = Message {
        src: String::from("c9"),
        dst: String::from("n1"),
        body: Body { msg_id: Some(1), in_reply_to: None, payload: Payload::Generate },
    };
    assert!(matches!(node.step(msg), Err(NodeError::UnexpectedMessage)));
}

#[test]
fn workload_echo_node_round() {
    let init = Message {
        src: String::from("c1"),
        dst: String::from("n2"),
        body: Body {
            msg_id: Some(1),
            in_reply_to: None,
            payload: InitPayload {
                node_id: String::from("n2"),
                node_ids: vec![String::from("n2")],
            },
        },
    };
    let (mut node, replies) = WorkloadEchoNode::init(init);
    assert_eq!(replies[0].body.payload.ty, "init_ok");
    let msg = Message {
        src: String::from("c1"),
        dst: String::from("n2"),
        body: Body {
            msg_id: Some(2),
            in_reply_to: None,
            payload: EchoPayload::Echo { echo: String::from("ping") },
        },
    };
    let out = node.step(Event::Message(msg)).unwrap();
    assert_eq!(out.len(), 1);
    assert_eq!(out[0].src, "n2");
    assert_eq!(out[0].dst, "c1");
    match &out[0].body.payload {
        EchoPayload::EchoOk { echo } => assert_eq!(echo, "ping"),
        other => panic!("expected echo_ok, got {:?}", other),
    }
}

#[test]
fn generated_ids_are_distinct() {
    let init = Message {
        src: String::from("c1"),
        dst: String::from("n3"),
        body: Body {
            msg_id: Some(1),
            in_reply_to: None,
            payload: InitPayload {
                node_id: String::from("n3"),
                node_ids: vec![String::from("n3")],
            },
        },
    };
    let (mut node, _replies) = GenerateNode::init(init);
    let req = |mid: usize| Message {
        src: String::from("c1"),
        dst: String::from("n3"),
        body: Body { msg_id: Some(mid), in_reply_to: None, payload: GeneratePayload::Generate },
    };
    let out1 = node.step(Event::Message(req(2))).unwrap();
    let out2 = node.step(Event::Message(req(3))).unwrap();
    let g1 = match &out1[0].body.payload {
        GeneratePayload::GenerateOk { guid } => guid.clone(),
        other => panic!("expected generate_ok, got {:?}", other),
    };
    let g2 = match &out2[0].body.payload {
        GeneratePayload::GenerateOk { guid } => guid.clone(),
        other => panic!("expected generate_ok, got {:?}", other),
    };
    assert_eq!(g1, "n3-1");
    assert_eq!(g2, "n3-2");
    assert_ne!(g1, g2);
}
