use rustorm::node::broadcast::BroadcastNode;
use rustorm::node::multibroadcast::MultiNodeBroadcast;
use rustorm::payloads::{BroadcastPayload, Event, InitPayload, InjectedPayload};
use rustorm::{Body, Message};

fn init_msg(me: &str, all: &[&str]) -> Message<InitPayload> {
    Message {
        src: String::from("c0"),
        dst: String::from(me),
        body: Body {
            msg_id: Some(1),
            in_reply_to: None,
            payload: InitPayload {
                node_id: String::from(me),
                node_ids: all.iter().map(|s| String::from(*s)).collect(),
            },
        },
    }
}

fn message(src: &str, dst: &str, mid: usize, payload: BroadcastPayload) -> Message<BroadcastPayload> {
    Message {
        src: String::from(src),
        dst: String::from(dst),
        body: Body { msg_id: Some(mid), in_reply_to: None, payload },
    }
}

#[test]
fn broadcast_then_read_returns_the_values() {
    let (mut node, _) = BroadcastNode::init(init_msg("n1", &["n1"]));
    for (mid, v) in [(2, 10), (3, 20)] {
        let out = node
            .step(Event::Message(message("c1", "n1", mid, BroadcastPayload::Broadcast {
                message: v,
            })))
            .unwrap();
        assert_eq!(out.len(), 1);
        assert_eq!(out[0].body.in_reply_to, Some(mid));
        assert!(matches!(out[0].body.payload, BroadcastPayload::BroadcastOk));
    }
    let out = node
        .step(Event::Message(message("c1", "n1", 4, BroadcastPayload::Read)))
        .unwrap();
    match &out[0].body.payload {
        BroadcastPayload::ReadOk { messages } => assert_eq!(messages, &vec![10, 20]),
        other => panic!("expected read_ok, got {:?}", other),
    }
}

#[test]
fn gossip_reaches_lagging_neighbours_only() {
    let (mut node, _) = MultiNodeBroadcast::init(init_msg("n1", &["n1", "n2", "n3"]));
    let topology = vec![
        (String::from("n1"), vec![String::from("n2"), String::from("n3")]),
        (String::from("n2"), vec![String::from("n1")]),
    ];
    let out = node
        .step(Event::Message(message("c1", "n1", 2, BroadcastPayload::Topology { topology })))
        .unwrap();
    assert!(matches!(out[0].body.payload, BroadcastPayload::TopologyOk));

    let out = node
        .step(Event::Message(message("c1", "n1", 3, BroadcastPayload::Broadcast { message: 7 })))
        .unwrap();
    assert!(matches!(out[0].body.payload, BroadcastPayload::BroadcastOk));

    // duplicate value: the set does not grow
    node.step(Event::Message(message("c1", "n1", 4, BroadcastPayload::Broadcast { message: 7 })))
        .unwrap();
    let out = node
        .step(Event::Message(message("c1", "n1", 5, BroadcastPayload::Read)))
        .unwrap();
    match &out[0].body.payload {
        BroadcastPayload::ReadOk { messages } => assert_eq!(messages, &vec![7]),
        other => panic!("expected read_ok, got {:?}", other),
    }

    // the timer tick gossips 7 to both lagging neighbours
    let out = node.step(Event::InjectedPayload(InjectedPayload::Gossip)).unwrap();
    assert_eq!(out.len(), 2);
    let gossip_mid = out[0].body.msg_id.unwrap();
    for m in &out {
        match &m.body.payload {
            BroadcastPayload::Gossip { seen } => assert_eq!(seen, &vec![7]),
            other => panic!("expected gossip, got {:?}", other),
        }
    }
    assert_eq!(out[0].dst, "n2");
    assert_eq!(out[1].dst, "n3");

    // n2 acknowledges; afterwards only n3 still lags
    let ack = Message {
        src: String::from("n2"),
        dst: String::from("n1"),
        body: Body {
            msg_id: Some(1),
            in_reply_to: Some(gossip_mid),
            payload: BroadcastPayload::GossipOk,
        },
    };
    node.step(Event::Message(ack)).unwrap();
    let out = node.step(Event::InjectedPayload(InjectedPayload::Gossip)).unwrap();
    assert_eq!(out.len(), 1);
    assert_eq!(out[0].dst, "n3");
}

#[test]
fn inbound_gossip_merges_into_the_seen_set() {
    let (mut node, _) = MultiNodeBroadcast::init(init_msg("n1", &["n1", "n2"]));
    node.step(Event::Message(message("c1", "n1", 2, BroadcastPayload::Broadcast { message: 1 })))
        .unwrap();
    let out = node
        .step(Event::Message(message("n2", "n1", 3, BroadcastPayload::Gossip {
            seen: vec![1, 2, 3],
        })))
        .unwrap();
    assert!(matches!(out[0].body.payload, BroadcastPayload::GossipOk));
    let out = node
        .step(Event::Message(message("c1", "n1", 4, BroadcastPayload::Read)))
        .unwrap();
    match &out[0].body.payload {
        BroadcastPayload::ReadOk { messages } => {
            let mut got = messages.clone();
            got.sort();
            assert_eq!(got, vec![1, 2, 3]);
        }
        other => panic!("expected read_ok, got {:?}", other),
    }
}
