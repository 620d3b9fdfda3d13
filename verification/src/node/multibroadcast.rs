use crate::node::broadcast::clone_usizes;
use crate::node::multitxn::spec_other_nodes;
use crate::node::{common_init_node, Node};
use crate::payloads::{BroadcastPayload, Event, InitOkPayload, InitPayload, InjectedPayload};
use crate::table::AList;
use crate::{Body, Message, NodeError};
use vstd::prelude::*;

verus! {

/// The value `v` occurs in `s`.
pub open spec fn has_val(s: Seq<usize>, v: usize) -> bool {
    exists|i: int| 0 <= i < s.len() && (#[trigger] s[i]) == v
}

/// No value occurs twice, so a vector stands for a set.
pub open spec fn nodup(s: Seq<usize>) -> bool {
    forall|i: int, j: int| 0 <= i < j < s.len() ==> (#[trigger] s[i]) != (#[trigger] s[j])
}

/// Whether `v` occurs in `s`.
pub fn contains_val(s: &Vec<usize>, v: usize) -> (r: bool)
    ensures
        r == has_val(s@, v),
{
    let mut i: usize = 0;
    while i < s.len()
        invariant
            0 <= i <= s@.len(),
            forall|j: int| 0 <= j < i ==> (#[trigger] s@[j]) != v,
        decreases s@.len() - i,
    {
        if s[i] == v {
            return true;
        }
        i = i + 1;
    }
    false
}

/// Add every value of `src` that `dst` lacks, keeping `dst` duplicate-free
/// and its old entries in place.
pub fn add_missing(dst: &mut Vec<usize>, src: &Vec<usize>)
    requires
        nodup(old(dst)@),
    ensures
        nodup(final(dst)@),
        old(dst)@.is_prefix_of(final(dst)@),
        forall|v: usize|
            has_val(final(dst)@, v) == (has_val(old(dst)@, v) || has_val(src@, v)),
{
    let mut i: usize = 0;
    while i < src.len()
        invariant
            0 <= i <= src@.len(),
            nodup(dst@),
            old(dst)@.is_prefix_of(dst@),
            forall|v: usize|
                has_val(dst@, v) == (has_val(old(dst)@, v) || has_val(
                    src@.take(i as int),
                    v,
                )),
        decreases src@.len() - i,
    {
        let v = src[i];
        let ghost pre = dst@;
        if !contains_val(dst, v) {
            dst.push(v);
            proof {
                assert(dst@ =~= pre.push(v));
                assert(dst@[pre.len() as int] == v);
                assert forall|w: usize| has_val(dst@, w) == (has_val(old(dst)@, w) || has_val(
                    src@.take(i + 1),
                    w,
                )) by {
                    assert(src@.take(i + 1)[i as int] == src@[i as int]);
                    if has_val(dst@, w) {
                        let q = choose|q: int| 0 <= q < dst@.len() && (#[trigger] dst@[q]) == w;
                        if q < pre.len() {
                            assert(pre[q] == w);
                            assert(has_val(pre, w));
                        } else {
                            assert(w == v);
                            assert(has_val(src@.take(i + 1), w)) by {
                                assert(src@.take(i + 1)[i as int] == v);
                            }
                        }
                    }
                    if has_val(pre, w) {
                        let q = choose|q: int| 0 <= q < pre.len() && (#[trigger] pre[q]) == w;
                        assert(dst@[q] == w);
                    }
                    if has_val(src@.take(i as int), w) {
                        let q = choose|q: int|
                            0 <= q < i && (#[trigger] src@.take(i as int)[q]) == w;
                        assert(src@.take(i + 1)[q] == w);
                    }
                    if has_val(src@.take(i + 1), w) && w != v {
                        let q = choose|q: int|
                            0 <= q < i + 1 && (#[trigger] src@.take(i + 1)[q]) == w;
                        assert(q < i);
                        assert(src@.take(i as int)[q] == w);
                    }
                }
                assert(nodup(dst@)) by {
                    assert forall|p: int, q: int| 0 <= p < q < dst@.len() implies (
                    #[trigger] dst@[p]) != (#[trigger] dst@[q]) by {
                        if q == dst@.len() - 1 {
                            assert(pre[p] == dst@[p]);
                            assert(!has_val(pre, v));
                        }
                    }
                }
            }
        } else {
            proof {
                assert forall|w: usize| has_val(dst@, w) == (has_val(old(dst)@, w) || has_val(
                    src@.take(i + 1),
                    w,
                )) by {
                    assert(src@.take(i + 1)[i as int] == src@[i as int]);
                    if has_val(src@.take(i + 1), w) {
                        let q = choose|q: int|
                            0 <= q < i + 1 && (#[trigger] src@.take(i + 1)[q]) == w;
                        if q < i {
                            assert(src@.take(i as int)[q] == w);
                        } else {
                            assert(w == src@[i as int]);
                        }
                    }
                    if has_val(src@.take(i as int), w) {
                        let q = choose|q: int|
                            0 <= q < i && (#[trigger] src@.take(i as int)[q]) == w;
                        assert(src@.take(i + 1)[q] == w);
                    }
                }
            }
        }
        i = i + 1;
    }
    proof {
        assert(src@.take(src@.len() as int) =~= src@);
    }
}

/// The values of `all` that `seen` lacks, in order.
pub open spec fn spec_unseen(all: Seq<usize>, seen: Seq<usize>) -> Seq<usize>
    decreases all.len(),
{
    if all.len() == 0 {
        Seq::empty()
    } else {
        let rest = spec_unseen(all.drop_last(), seen);
        if has_val(seen, all.last()) {
            rest
        } else {
            rest.push(all.last())
        }
    }
}

/// What a gossip offers comes from the seen set itself.
pub proof fn lemma_unseen_within(all: Seq<usize>, seen: Seq<usize>)
    ensures
        forall|i: int|
            0 <= i < spec_unseen(all, seen).len() ==> has_val(
                all,
                #[trigger] spec_unseen(all, seen)[i],
            ),
    decreases all.len(),
{
    if all.len() > 0 {
        lemma_unseen_within(all.drop_last(), seen);
        assert forall|i: int| 0 <= i < spec_unseen(all, seen).len() implies has_val(
            all,
            #[trigger] spec_unseen(all, seen)[i],
        ) by {
            let v = spec_unseen(all, seen)[i];
            if i < spec_unseen(all.drop_last(), seen).len() {
                assert(has_val(all.drop_last(), v));
                let q = choose|q: int|
                    0 <= q < all.drop_last().len() && (#[trigger] all.drop_last()[q]) == v;
                assert(all[q] == v);
            } else {
                assert(v == all.last());
                assert(all[all.len() - 1] == v);
            }
        }
    }
}

/// The neighbours (in announcement order) that still lag behind the seen
/// set: those with a recorded acknowledged set smaller than it.
pub open spec fn spec_gossip_targets(
    known: AList<String, Vec<usize>>,
    msgs: Seq<usize>,
    adj: Seq<String>,
) -> Seq<String>
    decreases adj.len(),
{
    if adj.len() == 0 {
        Seq::empty()
    } else {
        let rest = spec_gossip_targets(known, msgs, adj.drop_last());
        let a = adj.last();
        if known.has_key(a@) && known.val_of(a@)@.len() != msgs.len() {
            rest.push(a)
        } else {
            rest
        }
    }
}

/// There are never more gossip targets than neighbours.
pub proof fn lemma_gossip_targets_len(
    known: AList<String, Vec<usize>>,
    msgs: Seq<usize>,
    adj: Seq<String>,
)
    ensures
        spec_gossip_targets(known, msgs, adj).len() <= adj.len(),
    decreases adj.len(),
{
    if adj.len() > 0 {
        lemma_gossip_targets_len(known, msgs, adj.drop_last());
    }
}

/// The gossiping broadcast workload: the set of values seen, the neighbours
/// to gossip with, what each peer is known to have seen, and what each
/// outstanding gossip message carried.
#[derive(Debug)]
pub struct MultiNodeBroadcast {
    pub id: String,
    pub msg_id: usize,
    pub broadcast_messages: Vec<usize>,
    pub adj: Vec<String>,
    pub known: AList<String, Vec<usize>>,
    pub msg_communicated: AList<usize, Vec<usize>>,
}

impl MultiNodeBroadcast {
    /// The seen set and each per-peer set are duplicate-free, the side
    /// tables are well-formed, and everything a peer is known to have — or
    /// was ever offered — is a value this node has itself seen.
    pub open spec fn wf(&self) -> bool {
        &&& nodup(self.broadcast_messages@)
        &&& self.known.dup_free()
        &&& self.msg_communicated.dup_free()
        &&& forall|b: Seq<char>|
            #[trigger] self.known.has_key(b) ==> nodup(self.known.val_of(b)@)
        &&& forall|b: Seq<char>|
            #[trigger] self.known.has_key(b) ==> (forall|i: int|
                0 <= i < self.known.val_of(b)@.len() ==> has_val(
                    self.broadcast_messages@,
                    #[trigger] self.known.val_of(b)@[i],
                ))
        &&& forall|a: int|
            #[trigger] self.msg_communicated.has_key(a) ==> (forall|i: int|
                0 <= i < self.msg_communicated.val_of(a)@.len() ==> has_val(
                    self.broadcast_messages@,
                    #[trigger] self.msg_communicated.val_of(a)@[i],
                ))
    }

    /// Build the node from the `init` request, together with the `init_ok`
    /// reply; every announced node starts with an empty known set.
    pub fn init(init_msg: Message<InitPayload>) -> (r: (Self, Vec<Message<InitOkPayload>>))
        ensures
            r.0.wf(),
            r.0.id@ == init_msg.body.payload.node_id@,
            r.0.msg_id == 0,
            r.0.broadcast_messages@.len() == 0,
            r.0.adj@.len() == 0,
            r.0.msg_communicated@.len() == 0,
            r.1@.len() == 1,
            r.1@[0].src@ == init_msg.body.payload.node_id@,
            r.1@[0].dst == init_msg.src,
            r.1@[0].body.in_reply_to == init_msg.body.msg_id,
            r.1@[0].body.payload.ty@ == "init_ok"@,
    {
        let ((node_id, node_ids), init_ok) = common_init_node(init_msg);
        let mut known: AList<String, Vec<usize>> = AList::new();
        let mut i: usize = 0;
        while i < node_ids.len()
            invariant
                0 <= i <= node_ids@.len(),
                known.dup_free(),
                forall|b: Seq<char>| #[trigger] known.has_key(b) ==> known.val_of(b)@.len() == 0,
            decreases node_ids@.len() - i,
        {
            known.insert(node_ids[i].clone(), Vec::new());
            i = i + 1;
        }
        (
            MultiNodeBroadcast {
                id: node_id,
                msg_id: 0,
                broadcast_messages: Vec::new(),
                adj: Vec::new(),
                known,
                msg_communicated: AList::new(),
            },
            vec![init_ok],
        )
    }

    /// This node's neighbours per the announced topology: the first entry
    /// under this node's name, with the node itself dropped.
    pub fn construct_topology(&self, topology: Vec<(String, Vec<String>)>) -> (r: Result<
        Vec<String>,
        NodeError,
    >)
        ensures
            match r {
                Ok(adj) => exists|i: int|
                    0 <= i < topology@.len() && (#[trigger] topology@[i].0@) == self.id@ && adj@
                        == spec_other_nodes(topology@[i].1@, self.id@),
                Err(_) => forall|i: int|
                    0 <= i < topology@.len() ==> (#[trigger] topology@[i].0@) != self.id@,
            },
    {
        let mut i: usize = 0;
        while i < topology.len()
            invariant
                0 <= i <= topology@.len(),
                forall|j: int| 0 <= j < i ==> (#[trigger] topology@[j].0@) != self.id@,
            decreases topology@.len() - i,
        {
            let e = &topology[i];
            if e.0.eq(&self.id) {
                let mut adj: Vec<String> = Vec::new();
                let mut j: usize = 0;
                while j < e.1.len()
                    invariant
                        0 <= j <= e.1@.len(),
                        e == &topology@[i as int],
                        adj@ =~= spec_other_nodes(e.1@.take(j as int), self.id@),
                    decreases e.1@.len() - j,
                {
                    proof {
                        assert(e.1@.take(j + 1).drop_last() =~= e.1@.take(j as int));
                        assert(e.1@.take(j + 1).last() == e.1@[j as int]);
                    }
                    let cand = &e.1[j];
                    if !cand.eq(&self.id) {
                        adj.push(cand.clone());
                        proof {
                            assert(adj@.last() == e.1@[j as int]);
                            assert(adj@ =~= spec_other_nodes(e.1@.take(j + 1), self.id@));
                        }
                    } else {
                        proof {
                            assert(adj@ =~= spec_other_nodes(e.1@.take(j + 1), self.id@));
                        }
                    }
                    j = j + 1;
                }
                proof {
                    assert(e.1@.take(e.1@.len() as int) =~= e.1@);
                }
                return Ok(adj);
            }
            i = i + 1;
        }
        Err(NodeError::UnexpectedMessage)
    }

    /// The peer has acknowledged everything this node has seen.
    pub fn is_fully_synced(&self, adj: &String) -> (r: bool)
        requires
            self.known.dup_free(),
            self.known.has_key(adj@),
        ensures
            r == (self.known.val_of(adj@)@.len() == self.broadcast_messages@.len()),
    {
        let seen_by_adj = match self.known.get(adj) {
            Some(v) => v,
            None => {
                return false;
            },
        };
        seen_by_adj.len() == self.broadcast_messages.len()
    }

    /// The values this node has seen that the peer is not yet known to
    /// have.
    pub fn get_unseen_messages(&self, adj: &String) -> (r: Vec<usize>)
        requires
            self.known.dup_free(),
            self.known.has_key(adj@),
        ensures
            r@ == spec_unseen(self.broadcast_messages@, self.known.val_of(adj@)@),
    {
        let seen_by_adj = match self.known.get(adj) {
            Some(v) => v,
            None => {
                return Vec::new();
            },
        };
        let mut r: Vec<usize> = Vec::new();
        let mut i: usize = 0;
        while i < self.broadcast_messages.len()
            invariant
                0 <= i <= self.broadcast_messages@.len(),
                seen_by_adj == &self.known.val_of(adj@),
                r@ =~= spec_unseen(
                    self.broadcast_messages@.take(i as int),
                    self.known.val_of(adj@)@,
                ),
            decreases self.broadcast_messages@.len() - i,
        {
            proof {
                assert(self.broadcast_messages@.take(i + 1).drop_last()
                    =~= self.broadcast_messages@.take(i as int));
                assert(self.broadcast_messages@.take(i + 1).last() == self.broadcast_messages@[
                    i as int
                ]);
            }
            let v = self.broadcast_messages[i];
            if !contains_val(seen_by_adj, v) {
                r.push(v);
                proof {
                    assert(r@ =~= spec_unseen(
                        self.broadcast_messages@.take(i + 1),
                        self.known.val_of(adj@)@,
                    ));
                }
            } else {
                proof {
                    assert(r@ =~= spec_unseen(
                        self.broadcast_messages@.take(i + 1),
                        self.known.val_of(adj@)@,
                    ));
                }
            }
            i = i + 1;
        }
        proof {
            assert(self.broadcast_messages@.take(self.broadcast_messages@.len() as int)
                =~= self.broadcast_messages@);
        }
        r
    }

    /// Handle one event: record and acknowledge broadcasts, answer reads
    /// with the seen set, learn the topology, absorb gossip, and on each
    /// timer tick gossip to every neighbour that lags behind.
    pub fn step(&mut self, event: Event<BroadcastPayload, InjectedPayload>) -> (r: Result<
        Vec<Message<BroadcastPayload>>,
        NodeError,
    >)
        requires
            old(self).wf(),
            old(self).msg_id + old(self).adj@.len() + 2 <= usize::MAX,
        ensures
            final(self).wf(),
            final(self).id == old(self).id,
            match event {
                Event::Message(msg) => {
                    &&& final(self).adj == old(self).adj || msg.body.payload is Topology
                    &&& match msg.body.payload {
                        BroadcastPayload::Broadcast { message } => {
                            &&& r is Ok
                            &&& final(self).msg_id == old(self).msg_id + 1
                            &&& nodup(final(self).broadcast_messages@)
                            &&& forall|v: usize|
                                has_val(final(self).broadcast_messages@, v) == (has_val(
                                    old(self).broadcast_messages@,
                                    v,
                                ) || v == message)
                            &&& r->Ok_0@.len() == 1
                            &&& r->Ok_0@[0].src == msg.dst
                            &&& r->Ok_0@[0].dst == msg.src
                            &&& r->Ok_0@[0].body.msg_id == Some(old(self).msg_id)
                            &&& r->Ok_0@[0].body.in_reply_to == msg.body.msg_id
                            &&& r->Ok_0@[0].body.payload is BroadcastOk
                        },
                        BroadcastPayload::Read => {
                            &&& r is Ok
                            &&& final(self).msg_id == old(self).msg_id + 1
                            &&& final(self).broadcast_messages == old(self).broadcast_messages
                            &&& r->Ok_0@.len() == 1
                            &&& r->Ok_0@[0].src == msg.dst
                            &&& r->Ok_0@[0].dst == msg.src
                            &&& r->Ok_0@[0].body.msg_id == Some(old(self).msg_id)
                            &&& r->Ok_0@[0].body.in_reply_to == msg.body.msg_id
                            &&& (r->Ok_0@[0].body.payload matches BroadcastPayload::ReadOk {
                                messages,
                            } && messages@ == old(self).broadcast_messages@)
                        },
                        BroadcastPayload::Topology { topology } => {
                            &&& (exists|i: int|
                                0 <= i < topology@.len() && (#[trigger] topology@[i].0@) == old(self).id@) ==> {
                                &&& r is Ok
                                &&& final(self).msg_id == old(self).msg_id + 1
                                &&& r->Ok_0@.len() == 1
                                &&& r->Ok_0@[0].body.in_reply_to == msg.body.msg_id
                                &&& r->Ok_0@[0].body.payload is TopologyOk
                            }
                            &&& (forall|i: int|
                                0 <= i < topology@.len() ==> (#[trigger] topology@[i].0@) != old(self).id@) ==> r is Err
                        },
                        BroadcastPayload::Gossip { seen } => {
                            &&& r is Ok
                            &&& final(self).msg_id == old(self).msg_id + 1
                            &&& nodup(final(self).broadcast_messages@)
                            &&& forall|v: usize|
                                has_val(final(self).broadcast_messages@, v) == (has_val(
                                    old(self).broadcast_messages@,
                                    v,
                                ) || has_val(seen@, v))
                            &&& final(self).msg_communicated == old(self).msg_communicated
                            &&& forall|b: Seq<char>|
                                (#[trigger] final(self).known.has_key(b)) == old(self).known.has_key(b)
                            &&& forall|b: Seq<char>|
                                b != msg.src@ && old(self).known.has_key(b) ==> (#[trigger] final(self).known.val_of(b)) == old(self).known.val_of(b)
                            &&& old(self).known.has_key(msg.src@) ==> (forall|v: usize|
                                has_val(final(self).known.val_of(msg.src@)@, v) == (has_val(
                                    old(self).known.val_of(msg.src@)@,
                                    v,
                                ) || has_val(seen@, v)))
                            &&& r->Ok_0@.len() == 1
                            &&& r->Ok_0@[0].body.in_reply_to == msg.body.msg_id
                            &&& r->Ok_0@[0].body.payload is GossipOk
                        },
                        BroadcastPayload::GossipOk => {
                            &&& final(self).broadcast_messages == old(self).broadcast_messages
                            &&& final(self).msg_communicated == old(self).msg_communicated
                            &&& final(self).msg_id == old(self).msg_id + 1
                            &&& msg.body.in_reply_to is None ==> (r is Err && final(self).known
                                == old(self).known)
                            &&& msg.body.in_reply_to matches Some(irt) ==> ({
                                &&& r is Ok
                                &&& r->Ok_0@.len() == 0
                                &&& forall|b: Seq<char>|
                                    (#[trigger] final(self).known.has_key(b)) == old(self).known.has_key(b)
                                &&& forall|b: Seq<char>|
                                    b != msg.src@ && old(self).known.has_key(b) ==> (
                                    #[trigger] final(self).known.val_of(b)) == old(self).known.val_of(b)
                                &&& (old(self).known.has_key(msg.src@) && old(self).msg_communicated.has_key(irt as int)) ==> (forall|v: usize|
                                    has_val(final(self).known.val_of(msg.src@)@, v) == (has_val(
                                        old(self).known.val_of(msg.src@)@,
                                        v,
                                    ) || has_val(
                                        old(self).msg_communicated.val_of(irt as int)@,
                                        v,
                                    )))
                                &&& (old(self).known.has_key(msg.src@) && !old(self).msg_communicated.has_key(irt as int)) ==> (forall|v: usize|
                                    has_val(final(self).known.val_of(msg.src@)@, v) == has_val(
                                        old(self).known.val_of(msg.src@)@,
                                        v,
                                    ))
                            })
                        },
                        _ => r matches Ok(v) && v@.len() == 0 && final(self).broadcast_messages
                            == old(self).broadcast_messages && final(self).msg_id == old(self).msg_id + 1,
                    }
                },
                Event::InjectedPayload(_) => {
                    let targets = spec_gossip_targets(
                        old(self).known,
                        old(self).broadcast_messages@,
                        old(self).adj@,
                    );
                    &&& r is Ok
                    &&& final(self).broadcast_messages == old(self).broadcast_messages
                    &&& final(self).known == old(self).known
                    &&& final(self).adj == old(self).adj
                    &&& r->Ok_0@.len() == targets.len()
                    &&& final(self).msg_id == old(self).msg_id + targets.len()
                    &&& forall|q: int|
                        0 <= q < targets.len() ==> {
                            let m = #[trigger] r->Ok_0@[q];
                            &&& m.src@ == old(self).id@
                            &&& m.dst@ == targets[q]@
                            &&& m.body.msg_id == Some((old(self).msg_id + q) as usize)
                            &&& m.body.in_reply_to is None
                            &&& (m.body.payload matches BroadcastPayload::Gossip { seen } && seen@
                                == spec_unseen(
                                old(self).broadcast_messages@,
                                old(self).known.val_of(targets[q]@)@,
                            ))
                            &&& final(self).msg_communicated.has_key(old(self).msg_id + q)
                            &&& final(self).msg_communicated.val_of(old(self).msg_id + q)@
                                == spec_unseen(
                                old(self).broadcast_messages@,
                                old(self).known.val_of(targets[q]@)@,
                            )
                        }
                },
            },
    {
        match event {
            Event::Message(msg) => {
                let reply_mid = self.msg_id;
                self.msg_id = self.msg_id + 1;
                let Message { src, dst, body } = msg;
                match body.payload {
                    BroadcastPayload::Broadcast { message } => {
                        let ghost pre = self.broadcast_messages@;
                        if !contains_val(&self.broadcast_messages, message) {
                            self.broadcast_messages.push(message);
                            proof {
                                assert(self.broadcast_messages@ =~= pre.push(message));
                                assert(self.broadcast_messages@[pre.len() as int] == message);
                                assert forall|v: usize|
                                    has_val(self.broadcast_messages@, v) == (has_val(pre, v) || v
                                        == message) by {
                                    if has_val(self.broadcast_messages@, v) {
                                        let q = choose|q: int|
                                            0 <= q < self.broadcast_messages@.len() && (
                                            #[trigger] self.broadcast_messages@[q]) == v;
                                        if q < pre.len() {
                                            assert(pre[q] == v);
                                            assert(has_val(pre, v));
                                        }
                                    }
                                    if has_val(pre, v) {
                                        let q = choose|q: int|
                                            0 <= q < pre.len() && (#[trigger] pre[q]) == v;
                                        assert(self.broadcast_messages@[q] == v);
                                    }
                                }
                                assert(nodup(self.broadcast_messages@)) by {
                                    assert forall|p: int, q: int|
                                        0 <= p < q < self.broadcast_messages@.len() implies (
                                    #[trigger] self.broadcast_messages@[p]) != (
                                    #[trigger] self.broadcast_messages@[q]) by {
                                        if q == self.broadcast_messages@.len() - 1 {
                                            assert(pre[p] == self.broadcast_messages@[p]);
                                            assert(!has_val(pre, message));
                                        }
                                    }
                                }
                                assert forall|b: Seq<char>| #[trigger]
                                    self.known.has_key(b) implies (forall|q: int|
                                    0 <= q < self.known.val_of(b)@.len() ==> has_val(
                                        self.broadcast_messages@,
                                        #[trigger] self.known.val_of(b)@[q],
                                    )) by {
                                    assert forall|q: int|
                                        0 <= q < self.known.val_of(b)@.len() implies has_val(
                                        self.broadcast_messages@,
                                        #[trigger] self.known.val_of(b)@[q],
                                    ) by {
                                        assert(has_val(pre, self.known.val_of(b)@[q]));
                                    }
                                }
                                assert forall|a: int| #[trigger]
                                    self.msg_communicated.has_key(a) implies (forall|q: int|
                                    0 <= q < self.msg_communicated.val_of(a)@.len() ==> has_val(
                                        self.broadcast_messages@,
                                        #[trigger] self.msg_communicated.val_of(a)@[q],
                                    )) by {
                                    assert forall|q: int|
                                        0 <= q < self.msg_communicated.val_of(a)@.len() implies
                                        has_val(
                                        self.broadcast_messages@,
                                        #[trigger] self.msg_communicated.val_of(a)@[q],
                                    ) by {
                                        assert(has_val(pre, self.msg_communicated.val_of(a)@[q]));
                                    }
                                }
                            }
                        }
                        let reply = Message {
                            src: dst,
                            dst: src,
                            body: Body {
                                msg_id: Some(reply_mid),
                                in_reply_to: body.msg_id,
                                payload: BroadcastPayload::BroadcastOk,
                            },
                        };
                        Ok(vec![reply])
                    },
                    BroadcastPayload::Read => {
                        let messages = clone_usizes(&self.broadcast_messages);
                        let reply = Message {
                            src: dst,
                            dst: src,
                            body: Body {
                                msg_id: Some(reply_mid),
                                in_reply_to: body.msg_id,
                                payload: BroadcastPayload::ReadOk { messages },
                            },
                        };
                        Ok(vec![reply])
                    },
                    BroadcastPayload::Topology { topology } => {
                        let adj = match self.construct_topology(topology) {
                            Ok(adj) => adj,
                            Err(e) => {
                                return Err(e);
                            },
                        };
                        self.adj = adj;
                        let reply = Message {
                            src: dst,
                            dst: src,
                            body: Body {
                                msg_id: Some(reply_mid),
                                in_reply_to: body.msg_id,
                                payload: BroadcastPayload::TopologyOk,
                            },
                        };
                        Ok(vec![reply])
                    },
                    BroadcastPayload::Gossip { seen } => {
                        let ghost msgs0 = self.broadcast_messages@;
                        add_missing(&mut self.broadcast_messages, &seen);
                        match self.known.remove(&src) {
                            Some(mut adj_seen) => {
                                add_missing(&mut adj_seen, &seen);
                                self.known.insert(src.clone(), adj_seen);
                            },
                            None => {},
                        }
                        proof {
                            assert forall|b: Seq<char>| #[trigger] self.known.has_key(b) implies
                                nodup(self.known.val_of(b)@) by {}
                            assert forall|b: Seq<char>| #[trigger]
                                self.known.has_key(b) implies (forall|q: int|
                                0 <= q < self.known.val_of(b)@.len() ==> has_val(
                                    self.broadcast_messages@,
                                    #[trigger] self.known.val_of(b)@[q],
                                )) by {
                                assert forall|q: int|
                                    0 <= q < self.known.val_of(b)@.len() implies has_val(
                                    self.broadcast_messages@,
                                    #[trigger] self.known.val_of(b)@[q],
                                ) by {
                                    let v = self.known.val_of(b)@[q];
                                    if b == src@ && old(self).known.has_key(src@) {
                                        assert(has_val(old(self).known.val_of(src@)@, v)
                                            || has_val(seen@, v));
                                        if has_val(old(self).known.val_of(src@)@, v) {
                                            assert(has_val(msgs0, v));
                                        }
                                    } else {
                                        assert(has_val(msgs0, v));
                                    }
                                }
                            }
                            assert forall|a: int| #[trigger]
                                self.msg_communicated.has_key(a) implies (forall|q: int|
                                0 <= q < self.msg_communicated.val_of(a)@.len() ==> has_val(
                                    self.broadcast_messages@,
                                    #[trigger] self.msg_communicated.val_of(a)@[q],
                                )) by {
                                assert forall|q: int|
                                    0 <= q < self.msg_communicated.val_of(a)@.len() implies
                                    has_val(
                                    self.broadcast_messages@,
                                    #[trigger] self.msg_communicated.val_of(a)@[q],
                                ) by {
                                    assert(has_val(msgs0, self.msg_communicated.val_of(a)@[q]));
                                }
                            }
                        }
                        let reply = Message {
                            src: dst,
                            dst: src,
                            body: Body {
                                msg_id: Some(reply_mid),
                                in_reply_to: body.msg_id,
                                payload: BroadcastPayload::GossipOk,
                            },
                        };
                        Ok(vec![reply])
                    },
                    BroadcastPayload::GossipOk => {
                        let irt = match body.in_reply_to {
                            None => {
                                return Err(NodeError::MissingMsgId);
                            },
                            Some(irt) => irt,
                        };
                        match self.known.remove(&src) {
                            Some(mut adj_seen) => {
                                match self.msg_communicated.get(&irt) {
                                    Some(communicated) => {
                                        let communicated = clone_usizes(communicated);
                                        add_missing(&mut adj_seen, &communicated);
                                    },
                                    None => {},
                                }
                                self.known.insert(src, adj_seen);
                            },
                            None => {},
                        }
                        proof {
                            assert forall|b: Seq<char>| #[trigger] self.known.has_key(b) implies
                                nodup(self.known.val_of(b)@) by {}
                            assert forall|b: Seq<char>| #[trigger]
                                self.known.has_key(b) implies (forall|q: int|
                                0 <= q < self.known.val_of(b)@.len() ==> has_val(
                                    self.broadcast_messages@,
                                    #[trigger] self.known.val_of(b)@[q],
                                )) by {
                                assert forall|q: int|
                                    0 <= q < self.known.val_of(b)@.len() implies has_val(
                                    self.broadcast_messages@,
                                    #[trigger] self.known.val_of(b)@[q],
                                ) by {
                                    let v = self.known.val_of(b)@[q];
                                    if old(self).known.has_key(b) && has_val(
                                        old(self).known.val_of(b)@,
                                        v,
                                    ) {
                                    } else {
                                        if old(self).msg_communicated.has_key(irt as int) {
                                            assert(has_val(
                                                old(self).msg_communicated.val_of(irt as int)@,
                                                v,
                                            ) ==> has_val(self.broadcast_messages@, v));
                                        }
                                    }
                                }
                            }
                        }
                        Ok(Vec::new())
                    },
                    _ => Ok(Vec::new()),
                }
            },
            Event::InjectedPayload(_gossip) => {
                let out = self.gossip_round();
                Ok(out)
            },
        }
    }

    /// One timer tick: send each lagging neighbour the values it has not
    /// acknowledged, remembering per message what was offered.
    pub fn gossip_round(&mut self) -> (r: Vec<Message<BroadcastPayload>>)
        requires
            old(self).wf(),
            old(self).msg_id + old(self).adj@.len() + 2 <= usize::MAX,
        ensures
            final(self).wf(),
            final(self).id == old(self).id,
            final(self).broadcast_messages == old(self).broadcast_messages,
            final(self).known == old(self).known,
            final(self).adj == old(self).adj,
            ({
                let targets = spec_gossip_targets(
                    old(self).known,
                    old(self).broadcast_messages@,
                    old(self).adj@,
                );
                &&& r@.len() == targets.len()
                &&& final(self).msg_id == old(self).msg_id + targets.len()
                &&& forall|q: int|
                    0 <= q < targets.len() ==> {
                        let m = #[trigger] r@[q];
                        &&& m.src@ == old(self).id@
                        &&& m.dst@ == targets[q]@
                        &&& m.body.msg_id == Some((old(self).msg_id + q) as usize)
                        &&& m.body.in_reply_to is None
                        &&& (m.body.payload matches BroadcastPayload::Gossip { seen } && seen@
                            == spec_unseen(
                            old(self).broadcast_messages@,
                            old(self).known.val_of(targets[q]@)@,
                        ))
                        &&& final(self).msg_communicated.has_key(old(self).msg_id + q)
                        &&& final(self).msg_communicated.val_of(old(self).msg_id + q)@
                            == spec_unseen(
                            old(self).broadcast_messages@,
                            old(self).known.val_of(targets[q]@)@,
                        )
                    }
                &&& forall|a: int|
                    !(old(self).msg_id <= a < old(self).msg_id + targets.len()) ==> (
                    #[trigger] final(self).msg_communicated.has_key(a)) == old(self).msg_communicated.has_key(a)
                &&& forall|a: int|
                    !(old(self).msg_id <= a < old(self).msg_id + targets.len()) && old(self).msg_communicated.has_key(a) ==> (#[trigger] final(self).msg_communicated.val_of(a)) == old(self).msg_communicated.val_of(a)
            }),
    {
        let mut out: Vec<Message<BroadcastPayload>> = Vec::new();
        let n = self.adj.len();
        let ghost known0 = old(self).known;
        let ghost msgs0 = old(self).broadcast_messages@;
        let mut i: usize = 0;
        while i < n
            invariant
                0 <= i <= n,
                n == self.adj@.len(),
                self.wf(),
                self.id == old(self).id,
                self.broadcast_messages == old(self).broadcast_messages,
                self.known == old(self).known,
                self.adj == old(self).adj,
                known0 == old(self).known,
                msgs0 == old(self).broadcast_messages@,
                old(self).msg_id + n + 2 <= usize::MAX,
                ({
                    let tq = spec_gossip_targets(known0, msgs0, old(self).adj@.take(i as int));
                    &&& out@.len() == tq.len()
                    &&& tq.len() <= i
                    &&& self.msg_id == old(self).msg_id + tq.len()
                    &&& forall|q: int|
                        0 <= q < tq.len() ==> {
                            let m = #[trigger] out@[q];
                            &&& m.src@ == old(self).id@
                            &&& m.dst@ == tq[q]@
                            &&& m.body.msg_id == Some((old(self).msg_id + q) as usize)
                            &&& m.body.in_reply_to is None
                            &&& (m.body.payload matches BroadcastPayload::Gossip { seen }
                                && seen@ == spec_unseen(msgs0, known0.val_of(tq[q]@)@))
                            &&& self.msg_communicated.has_key(old(self).msg_id + q)
                            &&& self.msg_communicated.val_of(old(self).msg_id + q)@
                                == spec_unseen(msgs0, known0.val_of(tq[q]@)@)
                        }
                    &&& forall|a: int|
                        !(old(self).msg_id <= a < old(self).msg_id + tq.len()) ==> (
                        #[trigger] self.msg_communicated.has_key(a)) == old(self).msg_communicated.has_key(a)
                    &&& forall|a: int|
                        !(old(self).msg_id <= a < old(self).msg_id + tq.len()) && old(self).msg_communicated.has_key(a) ==> (#[trigger] self.msg_communicated.val_of(
                            a,
                        )) == old(self).msg_communicated.val_of(a)
                }),
            decreases n - i,
        {
            proof {
                assert(old(self).adj@.take(i + 1).drop_last() =~= old(self).adj@.take(i as int));
                assert(old(self).adj@.take(i + 1).last() == old(self).adj@[i as int]);
            }
            let adj_node_id = self.adj[i].clone();
            if self.known.contains_key(&adj_node_id) {
                if !self.is_fully_synced(&adj_node_id) {
                    let ghost target = adj_node_id@;
                    let unseen_messages = self.get_unseen_messages(&adj_node_id);
                    let mid = self.msg_id;
                    self.msg_id = self.msg_id + 1;
                    let gossip_msg = Message {
                        src: self.id.clone(),
                        dst: adj_node_id,
                        body: Body {
                            msg_id: Some(mid),
                            in_reply_to: None,
                            payload: BroadcastPayload::Gossip {
                                seen: clone_usizes(&unseen_messages),
                            },
                        },
                    };
                    self.msg_communicated.insert(mid, unseen_messages);
                    out.push(gossip_msg);
                    proof {
                        assert(self.adj@[i as int]@ == out@.last().dst@);
                        lemma_unseen_within(
                            self.broadcast_messages@,
                            self.known.val_of(target)@,
                        );
                        assert forall|a: int| #[trigger]
                            self.msg_communicated.has_key(a) implies (forall|q: int|
                            0 <= q < self.msg_communicated.val_of(a)@.len() ==> has_val(
                                self.broadcast_messages@,
                                #[trigger] self.msg_communicated.val_of(a)@[q],
                            )) by {
                            assert forall|q: int|
                                0 <= q < self.msg_communicated.val_of(a)@.len() implies has_val(
                                self.broadcast_messages@,
                                #[trigger] self.msg_communicated.val_of(a)@[q],
                            ) by {
                                if a == mid {
                                    assert(self.msg_communicated.val_of(a)@ == spec_unseen(
                                        self.broadcast_messages@,
                                        self.known.val_of(target)@,
                                    ));
                                }
                            }
                        }
                    }
                }
            }
            i = i + 1;
        }
        proof {
            assert(old(self).adj@.take(n as int) =~= old(self).adj@);
        }
        out
    }
}

impl Node<BroadcastPayload, InjectedPayload> for MultiNodeBroadcast {
    open spec fn node_wf(&self) -> bool {
        self.wf()
    }

    open spec fn room_for_msg_id(&self) -> bool {
        self.msg_id + self.adj@.len() + 2 <= usize::MAX
    }

    fn init(init_msg: Message<InitPayload>) -> (r: (Self, Vec<Message<InitOkPayload>>)) {
        MultiNodeBroadcast::init(init_msg)
    }

    fn step(&mut self, event: Event<BroadcastPayload, InjectedPayload>) -> (r: Result<
        Vec<Message<BroadcastPayload>>,
        NodeError,
    >) {
        self.step(event)
    }
}

} // verus!
