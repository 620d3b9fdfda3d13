use rustorm::node::multikafkalog::MultiKafkaLogNode;
use rustorm::payloads::{KafkaLogOrKvPayload, KafkaLogPayload, KvPayload};
use rustorm::{Body, Message};

fn client_msg(src: &str, mid: usize, payload: KafkaLogPayload) -> Message<KafkaLogOrKvPayload> {
    Message {
        src: String::from(src),
        dst: String::from("n1"),
        body: Body {
            msg_id: Some(mid),
            in_reply_to: None,
            payload: KafkaLogOrKvPayload::KafkaLog(payload),
        },
    }
}

fn kv_reply(src: &str, irt: usize, payload: KvPayload) -> Message<KafkaLogOrKvPayload> {
    Message {
        src: String::from(src),
        dst: String::from("n1"),
        body: Body {
            msg_id: None,
            in_reply_to: Some(irt),
            payload: KafkaLogOrKvPayload::Kv(payload),
        },
    }
}

fn new_node() -> MultiKafkaLogNode {
    MultiKafkaLogNode::new(String::from("n1"), 5)
}

#[test]
fn send_emits_cas_then_ack() {
    let mut node = new_node();
    let out = node
        .step(client_msg("c1", 2, KafkaLogPayload::Send { key: String::from("k1"), msg: 100 }))
        .unwrap();
    assert_eq!(out.len(), 1);
    let cas = &out[0];
    assert_eq!(cas.src, "n1");
    assert_eq!(cas.dst, "lin-kv");
    let cas_id = cas.body.msg_id.unwrap();
    match &cas.body.payload {
        KafkaLogOrKvPayload::Kv(KvPayload::Cas { key, from, to, create_if_not_exists }) => {
            assert_eq!(key, "offset-k1");
            assert_eq!(*from, 0);
            assert_eq!(*to, 1);
            assert!(*create_if_not_exists);
        }
        other => panic!("expected cas, got {:?}", other),
    }

    let out = node.step(kv_reply("lin-kv", cas_id, KvPayload::CasOk)).unwrap();
    assert_eq!(out.len(), 2);
    match &out[0].body.payload {
        KafkaLogOrKvPayload::Kv(KvPayload::Write { key, value }) => {
            assert_eq!(key, "k1-1");
            assert_eq!(*value, 100);
        }
        other => panic!("expected write, got {:?}", other),
    }
    assert_eq!(out[0].dst, "seq-kv");
    let ack = &out[1];
    assert_eq!(ack.dst, "c1");
    assert_eq!(ack.body.in_reply_to, Some(2));
    match &ack.body.payload {
        KafkaLogOrKvPayload::KafkaLog(KafkaLogPayload::SendOk { offset }) => assert_eq!(*offset, 1),
        other => panic!("expected send_ok, got {:?}", other),
    }
}

#[test]
fn contended_sends_get_strictly_increasing_offsets() {
    let mut node = new_node();
    let out1 = node
        .step(client_msg("c1", 2, KafkaLogPayload::Send { key: String::from("k"), msg: 10 }))
        .unwrap();
    let cas1 = out1[0].body.msg_id.unwrap();
    let out2 = node
        .step(client_msg("c2", 7, KafkaLogPayload::Send { key: String::from("k"), msg: 20 }))
        .unwrap();
    let cas2 = out2[0].body.msg_id.unwrap();

    // the first CAS wins
    let out = node.step(kv_reply("lin-kv", cas1, KvPayload::CasOk)).unwrap();
    let offset1 = match &out[1].body.payload {
        KafkaLogOrKvPayload::KafkaLog(KafkaLogPayload::SendOk { offset }) => *offset,
        other => panic!("expected send_ok, got {:?}", other),
    };
    assert_eq!(offset1, 1);

    // the second CAS is refused, the node re-reads the counter and retries
    let out = node
        .step(kv_reply("lin-kv", cas2, KvPayload::Error { code: 22, text: None }))
        .unwrap();
    assert_eq!(out.len(), 1);
    let read_id = out[0].body.msg_id.unwrap();
    match &out[0].body.payload {
        KafkaLogOrKvPayload::Kv(KvPayload::Read { key }) => assert_eq!(key, "offset-k"),
        other => panic!("expected read, got {:?}", other),
    }
    let out = node.step(kv_reply("lin-kv", read_id, KvPayload::ReadOk { value: 1 })).unwrap();
    assert_eq!(out.len(), 1);
    let cas3 = out[0].body.msg_id.unwrap();
    match &out[0].body.payload {
        KafkaLogOrKvPayload::Kv(KvPayload::Cas { key, from, to, .. }) => {
            assert_eq!(key, "offset-k");
            assert_eq!(*from, 1);
            assert_eq!(*to, 2);
        }
        other => panic!("expected cas, got {:?}", other),
    }
    let out = node.step(kv_reply("lin-kv", cas3, KvPayload::CasOk)).unwrap();
    let offset2 = match &out[1].body.payload {
        KafkaLogOrKvPayload::KafkaLog(KafkaLogPayload::SendOk { offset }) => *offset,
        other => panic!("expected send_ok, got {:?}", other),
    };
    assert_eq!(out[1].dst, "c2");
    assert_eq!(out[1].body.in_reply_to, Some(7));
    assert!(offset2 > offset1);
    assert_eq!(offset2, 2);
}

#[test]
fn poll_of_unknown_key_answers_empty() {
    let mut node = new_node();
    let out = node
        .step(client_msg(
            "c1",
            3,
            KafkaLogPayload::Poll { offsets: vec![(String::from("k1"), 0)] },
        ))
        .unwrap();
    assert_eq!(out.len(), 1);
    assert_eq!(out[0].dst, "c1");
    assert_eq!(out[0].body.in_reply_to, Some(3));
    match &out[0].body.payload {
        KafkaLogOrKvPayload::KafkaLog(KafkaLogPayload::PollOk { msgs }) => {
            assert!(msgs.is_empty())
        }
        other => panic!("expected poll_ok, got {:?}", other),
    }
}

#[test]
fn poll_stops_at_the_end_of_the_log() {
    let mut node = new_node();
    // create the log and store one value at offset 1
    let out = node
        .step(client_msg("c1", 2, KafkaLogPayload::Send { key: String::from("k1"), msg: 100 }))
        .unwrap();
    let cas_id = out[0].body.msg_id.unwrap();
    node.step(kv_reply("lin-kv", cas_id, KvPayload::CasOk)).unwrap();

    let out = node
        .step(client_msg(
            "c1",
            4,
            KafkaLogPayload::Poll { offsets: vec![(String::from("k1"), 1)] },
        ))
        .unwrap();
    assert_eq!(out.len(), 5);
    let read_ids: Vec<usize> = out.iter().map(|m| m.body.msg_id.unwrap()).collect();
    for m in &out {
        assert_eq!(m.dst, "seq-kv");
    }
    // offset 1 holds 100; offsets 2..=5 are past the end
    let out = node
        .step(kv_reply("seq-kv", read_ids[0], KvPayload::ReadOk { value: 100 }))
        .unwrap();
    assert!(out.is_empty());
    for i in 1..4 {
        let out = node
            .step(kv_reply("seq-kv", read_ids[i], KvPayload::Error { code: 20, text: None }))
            .unwrap();
        assert!(out.is_empty());
    }
    let out = node
        .step(kv_reply("seq-kv", read_ids[4], KvPayload::Error { code: 20, text: None }))
        .unwrap();
    assert_eq!(out.len(), 1);
    assert_eq!(out[0].dst, "c1");
    assert_eq!(out[0].body.in_reply_to, Some(4));
    match &out[0].body.payload {
        KafkaLogOrKvPayload::KafkaLog(KafkaLogPayload::PollOk { msgs }) => {
            assert_eq!(msgs.len(), 1);
            assert_eq!(msgs[0].0, "k1");
            assert_eq!(msgs[0].1, vec![(1, 100)]);
        }
        other => panic!("expected poll_ok, got {:?}", other),
    }
}

#[test]
fn commit_then_list_roundtrip() {
    let mut node = new_node();
    let out = node
        .step(client_msg("c1", 2, KafkaLogPayload::Send { key: String::from("k1"), msg: 9 }))
        .unwrap();
    let cas_id = out[0].body.msg_id.unwrap();
    node.step(kv_reply("lin-kv", cas_id, KvPayload::CasOk)).unwrap();

    let out = node
        .step(client_msg(
            "c1",
            5,
            KafkaLogPayload::CommitOffsets { offsets: vec![(String::from("k1"), 5)] },
        ))
        .unwrap();
    assert_eq!(out.len(), 1);
    let commit_cas = out[0].body.msg_id.unwrap();
    match &out[0].body.payload {
        KafkaLogOrKvPayload::Kv(KvPayload::Cas { key, from, to, .. }) => {
            assert_eq!(key, "committed-offset-k1");
            assert_eq!(*from, 0);
            assert_eq!(*to, 5);
        }
        other => panic!("expected cas, got {:?}", other),
    }
    let out = node.step(kv_reply("lin-kv", commit_cas, KvPayload::CasOk)).unwrap();
    assert_eq!(out.len(), 1);
    assert_eq!(out[0].body.in_reply_to, Some(5));
    assert!(matches!(
        out[0].body.payload,
        KafkaLogOrKvPayload::KafkaLog(KafkaLogPayload::CommitOffsetsOk)
    ));

    let out = node
        .step(client_msg(
            "c1",
            6,
            KafkaLogPayload::ListCommittedOffsets { keys: vec![String::from("k1")] },
        ))
        .unwrap();
    assert_eq!(out.len(), 1);
    let read_id = out[0].body.msg_id.unwrap();
    match &out[0].body.payload {
        KafkaLogOrKvPayload::Kv(KvPayload::Read { key }) => {
            assert_eq!(key, "committed-offset-k1")
        }
        other => panic!("expected read, got {:?}", other),
    }
    let out = node.step(kv_reply("lin-kv", read_id, KvPayload::ReadOk { value: 5 })).unwrap();
    assert_eq!(out.len(), 1);
    assert_eq!(out[0].body.in_reply_to, Some(6));
    match &out[0].body.payload {
        KafkaLogOrKvPayload::KafkaLog(KafkaLogPayload::ListCommittedOffsetsOk { offsets }) => {
            assert_eq!(offsets.len(), 1);
            assert_eq!(offsets[0].0, "k1");
            assert_eq!(offsets[0].1, 5);
        }
        other => panic!("expected list_committed_offsets_ok, got {:?}", other),
    }
}

#[test]
fn second_commit_of_same_offset_skips_the_cas() {
    let mut node = new_node();
    let out = node
        .step(client_msg("c1", 2, KafkaLogPayload::Send { key: String::from("k1"), msg: 9 }))
        .unwrap();
    let cas_id = out[0].body.msg_id.unwrap();
    node.step(kv_reply("lin-kv", cas_id, KvPayload::CasOk)).unwrap();

    let out = node
        .step(client_msg(
            "c1",
            5,
            KafkaLogPayload::CommitOffsets { offsets: vec![(String::from("k1"), 5)] },
        ))
        .unwrap();
    let commit_cas = out[0].body.msg_id.unwrap();
    let out = node.step(kv_reply("lin-kv", commit_cas, KvPayload::CasOk)).unwrap();
    assert_eq!(out.len(), 1);
    assert!(matches!(
        out[0].body.payload,
        KafkaLogOrKvPayload::KafkaLog(KafkaLogPayload::CommitOffsetsOk)
    ));

    // the replay completes at once: one commit_offsets_ok, no CAS
    let out = node
        .step(client_msg(
            "c1",
            8,
            KafkaLogPayload::CommitOffsets { offsets: vec![(String::from("k1"), 5)] },
        ))
        .unwrap();
    assert_eq!(out.len(), 1);
    assert_eq!(out[0].body.in_reply_to, Some(8));
    assert!(matches!(
        out[0].body.payload,
        KafkaLogOrKvPayload::KafkaLog(KafkaLogPayload::CommitOffsetsOk)
    ));
}

#[test]
fn unknown_kv_replies_are_ignored() {
    let mut node = new_node();
    let out = node.step(kv_reply("lin-kv", 123, KvPayload::CasOk)).unwrap();
    assert!(out.is_empty());
    let out = node.step(kv_reply("seq-kv", 7, KvPayload::ReadOk { value: 1 })).unwrap();
    assert!(out.is_empty());
}

#[test]
fn request_without_msg_id_is_fatal() {
    let mut node = new_node();
    let msg = Message {
        src: String::from("c1"),
        dst: String::from("n1"),
        body: Body {
            msg_id: None,
            in_reply_to: None,
            payload: KafkaLogOrKvPayload::KafkaLog(KafkaLogPayload::Send {
                key: String::from("k"),
                msg: 1,
            }),
        },
    };
    assert!(node.step(msg).is_err());
}

#[test]
fn listed_offsets_never_go_backwards() {
    let mut node = new_node();
    let out = node
        .step(client_msg("c1", 2, KafkaLogPayload::Send { key: String::from("k1"), msg: 9 }))
        .unwrap();
    let cas_id = out[0].body.msg_id.unwrap();
    node.step(kv_reply("lin-kv", cas_id, KvPayload::CasOk)).unwrap();

    let mut listed = Vec::new();
    for (mid, committed) in [(5usize, 5usize), (8, 7)] {
        let out = node
            .step(client_msg(
                "c1",
                mid,
                KafkaLogPayload::CommitOffsets { offsets: vec![(String::from("k1"), committed)] },
            ))
            .unwrap();
        let commit_cas = out[0].body.msg_id.unwrap();
        node.step(kv_reply("lin-kv", commit_cas, KvPayload::CasOk)).unwrap();

        let out = node
            .step(client_msg(
                "c1",
                mid + 1,
                KafkaLogPayload::ListCommittedOffsets { keys: vec![String::from("k1")] },
            ))
            .unwrap();
        let read_id = out[0].body.msg_id.unwrap();
        let out = node
            .step(kv_reply("lin-kv", read_id, KvPayload::ReadOk { value: committed }))
            .unwrap();
        match &out[0].body.payload {
            KafkaLogOrKvPayload::KafkaLog(KafkaLogPayload::ListCommittedOffsetsOk { offsets }) => {
                listed.push(offsets[0].1);
            }
            other => panic!("expected list_committed_offsets_ok, got {:?}", other),
        }
    }
    assert_eq!(listed, vec![5, 7]);
    assert!(listed[1] >= listed[0]);
}

#[test]
fn mismatched_reply_kind_is_an_error() {
    let mut node = new_node();
    // create a log and a poll, leaving read entries pending
    let out = node
        .step(client_msg("c1", 2, KafkaLogPayload::Send { key: String::from("k1"), msg: 1 }))
        .unwrap();
    let cas_id = out[0].body.msg_id.unwrap();
    node.step(kv_reply("lin-kv", cas_id, KvPayload::CasOk)).unwrap();
    let out = node
        .step(client_msg(
            "c1",
            3,
            KafkaLogPayload::Poll { offsets: vec![(String::from("k1"), 1)] },
        ))
        .unwrap();
    let read_id = out[0].body.msg_id.unwrap();
    // a cas_ok arriving for a read entry is a protocol error
    assert!(node.step(kv_reply("lin-kv", read_id, KvPayload::CasOk)).is_err());
}

#[test]
fn duplicate_keys_in_one_request_are_rejected() {
    let mut node = new_node();
    let out = node
        .step(client_msg("c1", 2, KafkaLogPayload::Send { key: String::from("k1"), msg: 1 }))
        .unwrap();
    let cas_id = out[0].body.msg_id.unwrap();
    node.step(kv_reply("lin-kv", cas_id, KvPayload::CasOk)).unwrap();
    let dup = KafkaLogPayload::CommitOffsets {
        offsets: vec![(String::from("k1"), 1), (String::from("k1"), 2)],
    };
    assert!(node.step(client_msg("c1", 3, dup)).is_err());
}

#[test]
fn entries_after_a_gap_are_not_reported() {
    let mut node = new_node();
    let out = node
        .step(client_msg("c1", 2, KafkaLogPayload::Send { key: String::from("k1"), msg: 1 }))
        .unwrap();
    let cas_id = out[0].body.msg_id.unwrap();
    node.step(kv_reply("lin-kv", cas_id, KvPayload::CasOk)).unwrap();

    let out = node
        .step(client_msg(
            "c1",
            4,
            KafkaLogPayload::Poll { offsets: vec![(String::from("k1"), 1)] },
        ))
        .unwrap();
    let read_ids: Vec<usize> = out.iter().map(|m| m.body.msg_id.unwrap()).collect();
    // the first position is missing: the window ends there, and a stored
    // value at a later position is not reported
    node.step(kv_reply("seq-kv", read_ids[0], KvPayload::Error { code: 20, text: None }))
        .unwrap();
    node.step(kv_reply("seq-kv", read_ids[1], KvPayload::ReadOk { value: 9 })).unwrap();
    for i in 2..4 {
        node.step(kv_reply("seq-kv", read_ids[i], KvPayload::Error { code: 20, text: None }))
            .unwrap();
    }
    let out = node
        .step(kv_reply("seq-kv", read_ids[4], KvPayload::Error { code: 20, text: None }))
        .unwrap();
    assert_eq!(out.len(), 1);
    match &out[0].body.payload {
        KafkaLogOrKvPayload::KafkaLog(KafkaLogPayload::PollOk { msgs }) => {
            assert_eq!(msgs.len(), 1);
            assert_eq!(msgs[0].0, "k1");
            assert!(msgs[0].1.is_empty());
        }
        other => panic!("expected poll_ok, got {:?}", other),
    }
}
