use rustorm::node::gocounter::GrowOnlyCounterNode;
use rustorm::payloads::{Event, GoCounterOrSeqKvPayload, GoCounterPayload, InitPayload, KvPayload,
    SyncCounter};
use rustorm::{Body, Message};

fn init_msg(me: &str, all: &[&str]) -> Message<InitPayload> {
    Message {
        src: String::from("c0"),
        dst: String::from(me),
        body: Body {
            msg_id: Some(1),
            in_reply_to: None,
            payload: InitPayload {
                node_id: String::from(me),
                node_ids: all.iter().map(|s| String::from(*s)).collect(),
            },
        },
    }
}

fn client(mid: usize, payload: GoCounterPayload) -> Message<GoCounterOrSeqKvPayload> {
    Message {
        src: String::from("c1"),
        dst: String::from("n1"),
        body: Body {
            msg_id: Some(mid),
            in_reply_to: None,
            payload: GoCounterOrSeqKvPayload::GoCounter(payload),
        },
    }
}

#[test]
fn add_publishes_and_read_sums() {
    let (mut node, _) = GrowOnlyCounterNode::init(init_msg("n1", &["n1", "n2"]));
    let out = node.step(Event::Message(client(2, GoCounterPayload::Add { delta: 5 }))).unwrap();
    assert_eq!(out.len(), 2);
    assert!(matches!(
        out[0].body.payload,
        GoCounterOrSeqKvPayload::GoCounter(GoCounterPayload::AddOk)
    ));
    assert_eq!(out[1].dst, "seq-kv");
    match &out[1].body.payload {
        GoCounterOrSeqKvPayload::SeqKv(KvPayload::Write { key, value }) => {
            assert_eq!(key, "n1");
            assert_eq!(*value, 5);
        }
        other => panic!("expected write, got {:?}", other),
    }

    // a sync tick reads n2's published counter
    let out = node.step(Event::InjectedPayload(SyncCounter::Sync)).unwrap();
    assert_eq!(out.len(), 1);
    assert_eq!(out[0].dst, "seq-kv");
    let read_mid = out[0].body.msg_id.unwrap();
    match &out[0].body.payload {
        GoCounterOrSeqKvPayload::SeqKv(KvPayload::Read { key }) => assert_eq!(key, "n2"),
        other => panic!("expected read, got {:?}", other),
    }

    // n2 reports 11; the read value sums both counters
    let reply = Message {
        src: String::from("seq-kv"),
        dst: String::from("n1"),
        body: Body {
            msg_id: None,
            in_reply_to: Some(read_mid),
            payload: GoCounterOrSeqKvPayload::SeqKv(KvPayload::ReadOk { value: 11 }),
        },
    };
    node.step(Event::Message(reply)).unwrap();
    let out = node.step(Event::Message(client(3, GoCounterPayload::Read))).unwrap();
    match &out[0].body.payload {
        GoCounterOrSeqKvPayload::GoCounter(GoCounterPayload::ReadOk { value }) => {
            assert_eq!(*value, 16)
        }
        other => panic!("expected read_ok, got {:?}", other),
    }
}

#[test]
fn peer_cache_never_shrinks() {
    let (mut node, _) = GrowOnlyCounterNode::init(init_msg("n1", &["n1", "n2"]));
    for reported in [9usize, 4usize] {
        let out = node.step(Event::InjectedPayload(SyncCounter::Sync)).unwrap();
        let read_mid = out[0].body.msg_id.unwrap();
        let reply = Message {
            src: String::from("seq-kv"),
            dst: String::from("n1"),
            body: Body {
                msg_id: None,
                in_reply_to: Some(read_mid),
                payload: GoCounterOrSeqKvPayload::SeqKv(KvPayload::ReadOk { value: reported }),
            },
        };
        node.step(Event::Message(reply)).unwrap();
    }
    // a stale smaller report (4) must not lower the cached 9
    let out = node.step(Event::Message(client(5, GoCounterPayload::Read))).unwrap();
    match &out[0].body.payload {
        GoCounterOrSeqKvPayload::GoCounter(GoCounterPayload::ReadOk { value }) => {
            assert_eq!(*value, 9)
        }
        other => panic!("expected read_ok, got {:?}", other),
    }
}
