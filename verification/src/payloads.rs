use vstd::prelude::*;
use crate::Message;

verus! {

/// Payloads of the echo workload.
#[derive(Debug, Clone)]
pub enum EchoPayload {
    Echo { echo: String },
    EchoOk { echo: String },
}

/// The bootstrap request every node receives first.
#[derive(Debug, Clone)]
pub struct InitPayload {
    pub node_id: String,
    pub node_ids: Vec<String>,
}

/// The reply to `init`; its type tag is carried as an explicit field.
#[derive(Debug, Clone)]
pub struct InitOkPayload {
    pub ty: String,
}

impl InitOkPayload {
    /// Build the reply payload with its fixed tag.
    pub fn new() -> (r: Self)
        ensures
            r.ty@ == "init_ok"@,
    {
        InitOkPayload { ty: String::from_str("init_ok") }
    }
}

/// Payloads of the unique-id workload.
#[derive(Debug, Clone)]
pub enum GeneratePayload {
    Generate,
    GenerateOk { guid: String },
}

/// Payloads of the broadcast workload, gossip included.
#[derive(Debug, Clone)]
pub enum BroadcastPayload {
    Broadcast { message: usize },
    BroadcastOk,
    Read,
    ReadOk { messages: Vec<usize> },
    Topology { topology: Vec<(String, Vec<String>)> },
    TopologyOk,
    Gossip { seen: Vec<usize> },
    GossipOk,
}

/// Timer-injected events for the gossiping broadcast node.
#[derive(Debug, Clone)]
pub enum InjectedPayload {
    Gossip,
}

/// One unit of work for a node: an inbound envelope or an injected event.
#[derive(Debug, Clone)]
pub enum Event<P, IP> {
    Message(Message<P>),
    InjectedPayload(IP),
}

/// Inbound traffic of the counter node: client requests or `seq-kv` replies.
#[derive(Debug, Clone)]
pub enum GoCounterOrSeqKvPayload {
    GoCounter(GoCounterPayload),
    SeqKv(KvPayload),
}

/// Payloads of the grow-only counter workload.
#[derive(Debug, Clone)]
pub enum GoCounterPayload {
    Read,
    ReadOk { value: usize },
    Add { delta: usize },
    AddOk,
}

/// The request/reply shapes shared by the `seq-kv` and `lin-kv` services.
#[derive(Debug, Clone)]
pub enum KvPayload {
    Read { key: String },
    ReadOk { value: usize },
    Write { key: String, value: usize },
    WriteOk,
    Cas { key: String, from: usize, to: usize, create_if_not_exists: bool },
    CasOk,
    Error { code: usize, text: Option<String> },
}

/// Timer-injected events for the counter node.
#[derive(Debug, Clone)]
pub enum SyncCounter {
    Sync,
    CheckWrites,
}

/// Payloads of the replicated-log workload.
#[derive(Debug, Clone)]
pub enum KafkaLogPayload {
    Send { key: String, msg: usize },
    SendOk { offset: usize },
    Poll { offsets: Vec<(String, usize)> },
    PollOk { msgs: Vec<(String, Vec<(usize, usize)>)> },
    CommitOffsets { offsets: Vec<(String, usize)> },
    CommitOffsetsOk,
    ListCommittedOffsets { keys: Vec<String> },
    ListCommittedOffsetsOk { offsets: Vec<(String, usize)> },
}

/// Inbound traffic of the log node: client requests or KV replies.
#[derive(Debug, Clone)]
pub enum KafkaLogOrKvPayload {
    KafkaLog(KafkaLogPayload),
    Kv(KvPayload),
}

/// The KV error codes the log node recovers from.
pub struct KvErrorCode;

impl KvErrorCode {
    pub const CAS_ERROR: usize = 22;

    pub const KEY_NOT_FOUND: usize = 20;
}

/// Payloads of the transaction workloads.
#[derive(Debug, Clone)]
pub enum TxnPayload {
    Txn { txn: Vec<TxnOperation> },
    TxnOk { txn: Vec<TxnOperation> },
}

/// One read or write of a transaction.
#[derive(Debug, Clone, Copy, PartialEq, Eq, Structural)]
pub enum TxnOperation {
    Read { key: usize, value: Option<usize> },
    Write { key: usize, value: Option<usize> },
}

} // verus!
