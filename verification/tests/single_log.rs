use rustorm::node::kafkalog::{KafkaLog, KafkaLogNode};
use rustorm::payloads::{Event, InitPayload, KafkaLogPayload};
use rustorm::{Body, Message};

#[test]
fn append_then_poll_yields_the_entry_first() {
    let mut log = KafkaLog::new(5, 100);
    let k = log.append(42);
    assert_eq!(k, 0);
    let polled = log.poll(k);
    assert_eq!(polled[0], (0, 42));
}

#[test]
fn poll_window_matches_history() {
    let mut log = KafkaLog::new(2, 10);
    for v in [10, 20, 30, 40] {
        log.append(v);
    }
    // window capped at max_poll entries, each pair is (offset, history[offset])
    assert_eq!(log.poll(1), vec![(1, 20), (2, 30)]);
    assert_eq!(log.poll(3), vec![(3, 40)]);
    assert_eq!(log.poll(4), vec![]);
}

#[test]
fn commit_ignores_offsets_past_the_history() {
    let mut log = KafkaLog::new(5, 10);
    log.append(1);
    log.append(2);
    log.commit_offset(1);
    assert_eq!(log.get_committed_offset(), 1);
    log.commit_offset(9);
    assert_eq!(log.get_committed_offset(), 1);
}

#[test]
fn commit_never_lowers_the_offset() {
    let mut log = KafkaLog::new(5, 10);
    log.append(1);
    log.append(2);
    log.commit_offset(1);
    assert_eq!(log.get_committed_offset(), 1);
    log.commit_offset(0);
    assert_eq!(log.get_committed_offset(), 1);
}

fn init_node() -> KafkaLogNode {
    let init = Message {
        src: String::from("c0"),
        dst: String::from("n5"),
        body: Body {
            msg_id: Some(1),
            in_reply_to: None,
            payload: InitPayload {
                node_id: String::from("n5"),
                node_ids: vec![String::from("n5")],
            },
        },
    };
    let (node, replies) = KafkaLogNode::init(init);
    assert_eq!(replies.len(), 1);
    assert_eq!(replies[0].body.in_reply_to, Some(1));
    node
}

#[test]
fn node_send_replies_with_the_offset() {
    let mut node = init_node();
    let msg = Message {
        src: String::from("c1"),
        dst: String::from("n5"),
        body: Body {
            msg_id: Some(2),
            in_reply_to: None,
            payload: KafkaLogPayload::Send { key: String::from("a"), msg: 7 },
        },
    };
    let out = node.step(Event::Message(msg)).unwrap();
    assert_eq!(out.len(), 1);
    assert_eq!(out[0].dst, "c1");
    assert_eq!(out[0].body.in_reply_to, Some(2));
    match &out[0].body.payload {
        KafkaLogPayload::SendOk { offset } => assert_eq!(*offset, 0),
        other => panic!("expected send_ok, got {:?}", other),
    }
}

#[test]
fn node_poll_filters_unknown_keys() {
    let mut node = init_node();
    for (mid, v) in [(2, 5), (3, 6)] {
        let msg = Message {
            src: String::from("c1"),
            dst: String::from("n5"),
            body: Body {
                msg_id: Some(mid),
                in_reply_to: None,
                payload: KafkaLogPayload::Send { key: String::from("a"), msg: v },
            },
        };
        node.step(Event::Message(msg)).unwrap();
    }
    let poll = Message {
        src: String::from("c1"),
        dst: String::from("n5"),
        body: Body {
            msg_id: Some(4),
            in_reply_to: None,
            payload: KafkaLogPayload::Poll {
                offsets: vec![(String::from("a"), 0), (String::from("zzz"), 0)],
            },
        },
    };
    let out = node.step(Event::Message(poll)).unwrap();
    match &out[0].body.payload {
        KafkaLogPayload::PollOk { msgs } => {
            assert_eq!(msgs.len(), 1);
            assert_eq!(msgs[0].0, "a");
            assert_eq!(msgs[0].1, vec![(0, 5), (1, 6)]);
        }
        other => panic!("expected poll_ok, got {:?}", other),
    }
}

#[test]
fn node_commit_then_list() {
    let mut node = init_node();
    for (mid, v) in [(2, 5), (3, 6)] {
        let msg = Message {
            src: String::from("c1"),
            dst: String::from("n5"),
            body: Body {
                msg_id: Some(mid),
                in_reply_to: None,
                payload: KafkaLogPayload::Send { key: String::from("a"), msg: v },
            },
        };
        node.step(Event::Message(msg)).unwrap();
    }
    let commit = Message {
        src: String::from("c1"),
        dst: String::from("n5"),
        body: Body {
            msg_id: Some(4),
            in_reply_to: None,
            payload: KafkaLogPayload::CommitOffsets { offsets: vec![(String::from("a"), 1)] },
        },
    };
    let out = node.step(Event::Message(commit)).unwrap();
    assert!(matches!(out[0].body.payload, KafkaLogPayload::CommitOffsetsOk));
    let list = Message {
        src: String::from("c1"),
        dst: String::from("n5"),
        body: Body {
            msg_id: Some(5),
            in_reply_to: None,
            payload: KafkaLogPayload::ListCommittedOffsets {
                keys: vec![String::from("a"), String::from("b")],
            },
        },
    };
    let out = node.step(Event::Message(list)).unwrap();
    match &out[0].body.payload {
        KafkaLogPayload::ListCommittedOffsetsOk { offsets } => {
            assert_eq!(offsets.len(), 1);
            assert_eq!(offsets[0].0, "a");
            assert_eq!(offsets[0].1, 1);
        }
        other => panic!("expected list_committed_offsets_ok, got {:?}", other),
    }
}
