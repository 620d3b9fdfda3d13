use rustorm::node::multitxn::MultiTxnNode;
use rustorm::node::singletxn::SingleTxnNode;
use rustorm::payloads::{Event, InitPayload, TxnOperation, TxnPayload};
use rustorm::{Body, Message};

fn init_msg(me: &str, all: &[&str]) -> Message<InitPayload> {
    Message {
        src: String::from("c0"),
        dst: String::from(me),
        body: Body {
            msg_id: Some(1),
            in_reply_to: None,
            payload: InitPayload {
                node_id: String::from(me),
                node_ids: all.iter().map(|s| String::from(*s)).collect(),
            },
        },
    }
}

#[test]
fn writes_are_visible_to_later_reads() {
    let (mut node, _) = SingleTxnNode::init(init_msg("n1", &["n1"]));
    let txn = vec![
        TxnOperation::Read { key: 1, value: None },
        TxnOperation::Write { key: 1, value: Some(9) },
        TxnOperation::Read { key: 1, value: None },
    ];
    let msg = Message {
        src: String::from("c1"),
        dst: String::from("n1"),
        body: Body { msg_id: Some(2), in_reply_to: None, payload: TxnPayload::Txn { txn } },
    };
    let out = node.step(Event::Message(msg)).unwrap();
    match &out[0].body.payload {
        TxnPayload::TxnOk { txn } => {
            // the read of the absent key is populated with nothing; the
            // later read sees the write
            assert_eq!(
                txn,
                &vec![
                    TxnOperation::Read { key: 1, value: None },
                    TxnOperation::Write { key: 1, value: Some(9) },
                    TxnOperation::Read { key: 1, value: Some(9) },
                ]
            );
        }
        other => panic!("expected txn_ok, got {:?}", other),
    }
}

#[test]
fn multi_txn_forwards_reads_to_peers() {
    let (mut node, _) = MultiTxnNode::init(init_msg("n1", &["n1", "n2", "n3"]));
    let txn = vec![
        TxnOperation::Write { key: 4, value: Some(44) },
        TxnOperation::Read { key: 4, value: None },
    ];
    let msg = Message {
        src: String::from("c1"),
        dst: String::from("n1"),
        body: Body { msg_id: Some(2), in_reply_to: None, payload: TxnPayload::Txn { txn } },
    };
    let out = node.step(Event::Message(msg)).unwrap();
    // one forward per peer, then the client reply
    assert_eq!(out.len(), 3);
    assert_eq!(out[0].dst, "n2");
    assert_eq!(out[1].dst, "n3");
    for fwd in &out[0..2] {
        match &fwd.body.payload {
            TxnPayload::Txn { txn } => {
                assert_eq!(txn, &vec![TxnOperation::Read { key: 4, value: Some(44) }]);
            }
            other => panic!("expected forwarded txn, got {:?}", other),
        }
    }
    assert_eq!(out[2].dst, "c1");
    assert_eq!(out[2].body.in_reply_to, Some(2));
    match &out[2].body.payload {
        TxnPayload::TxnOk { txn } => {
            assert_eq!(
                txn,
                &vec![
                    TxnOperation::Write { key: 4, value: Some(44) },
                    TxnOperation::Read { key: 4, value: Some(44) },
                ]
            );
        }
        other => panic!("expected txn_ok, got {:?}", other),
    }
}
