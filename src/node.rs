//! The broadcast node: request handling and anti-entropy gossip rounds over
//! a single-owner state.
use vstd::prelude::*;
use crate::index::{SeenIndex, known_of, add_value};
use crate::protocol::{Body, ErrorCode, Message, Payload};

verus! {

/// The next message id after `c`, wrapping at the top of `usize`.
pub open spec fn bump(c: usize) -> usize {
    if c == usize::MAX {
        0
    } else {
        (c + 1) as usize
    }
}

/// The message id `k` steps after `c`.
pub open spec fn advance(c: usize, k: nat) -> usize
    decreases k,
{
    if k == 0 {
        c
    } else {
        bump(advance(c, (k - 1) as nat))
    }
}

/// A topology as node names and their neighbour names.
pub open spec fn topo_view(t: Seq<(String, Vec<String>)>) -> Seq<(Seq<char>, Seq<Seq<char>>)> {
    t.map_values(|e: (String, Vec<String>)| (e.0@, e.1@.map_values(|s: String| s@)))
}

/// Whether `i` is the first entry of `t` that names `id`.
pub open spec fn first_entry(t: Seq<(Seq<char>, Seq<Seq<char>>)>, id: Seq<char>, i: int) -> bool {
    0 <= i < t.len() && t[i].0 == id && forall|j: int| 0 <= j < i ==> t[j].0 != id
}

/// The neighbours that `t` gives `id`: those of its first entry, none if it
/// has no entry.
pub open spec fn neighbors_in(t: Seq<(Seq<char>, Seq<Seq<char>>)>, id: Seq<char>) -> Seq<
    Seq<char>,
> {
    if exists|i: int| first_entry(t, id, i) {
        t[choose|i: int| first_entry(t, id, i)].1
    } else {
        Seq::empty()
    }
}

/// The replicated part of a node's state: its id, its seen-by index and
/// its installed topology.
pub struct Replica {
    pub id: Seq<char>,
    pub seen: Map<Seq<char>, Set<usize>>,
    pub topology: Seq<(Seq<char>, Seq<Seq<char>>)>,
}

impl Replica {
    /// A node before any message: no id, nothing seen, no topology.
    pub open spec fn fresh() -> Replica {
        Replica { id: Seq::empty(), seen: Map::empty(), topology: Seq::empty() }
    }

    /// What a `read` returns, as a set.
    pub open spec fn read_set(self) -> Set<usize> {
        known_of(self.seen, self.id)
    }

    /// The gossip peers of this node.
    pub open spec fn neighbors(self) -> Seq<Seq<char>> {
        neighbors_in(self.topology, self.id)
    }

    /// What this node knows and does not believe `n` to know.
    pub open spec fn delta(self, n: Seq<char>) -> Set<usize> {
        self.read_set().difference(known_of(self.seen, n))
    }
}

/// The replica after handling `m`. A broadcast value is attributed to the
/// sender and to this node; `init` sets the id; `topology` replaces the
/// topology; nothing else changes the replica.
pub open spec fn absorb(r: Replica, m: Message) -> Replica {
    match m.body.payload {
        Payload::Init { node_id, node_ids: _ } => Replica { id: node_id@, ..r },
        Payload::Broadcast { message } => Replica {
            seen: add_value(add_value(r.seen, m.src@, message), r.id, message),
            ..r
        },
        Payload::Topology { topology } => Replica { topology: topo_view(topology@), ..r },
        _ => r,
    }
}

/// The replica after handling each of `ms` in turn.
pub open spec fn run(r: Replica, ms: Seq<Message>) -> Replica
    decreases ms.len(),
{
    if ms.len() == 0 {
        r
    } else {
        absorb(run(r, ms.drop_last()), ms.last())
    }
}

/// The text of the not-supported error.
pub open spec fn not_supported_text() -> Seq<char> {
    "Operation not supported"@
}

/// Whether `resp` is the payload owed to a request with payload `req`,
/// handled on replica `r`.
pub open spec fn answers(req: Payload, resp: Payload, r: Replica) -> bool {
    match req {
        Payload::Init { .. } => resp is InitOk,
        Payload::Broadcast { .. } => resp is BroadcastOk,
        Payload::Read { .. } => resp is ReadOk && resp->messages@.to_set() == r.read_set()
            && resp->messages@.no_duplicates(),
        Payload::Topology { .. } => resp is TopologyOk,
        _ => resp is Error && resp->code == ErrorCode::NotSupported && resp->text@
            == not_supported_text(),
    }
}

/// Whether `reply` is the reply owed to `req` on replica `r` under the
/// message id `id`.
pub open spec fn is_reply(req: Message, reply: Message, r: Replica, id: usize) -> bool {
    &&& reply.src@ == req.dst@
    &&& reply.dst@ == req.src@
    &&& reply.body.msg_id == Some(id)
    &&& reply.body.in_reply_to == req.body.msg_id
    &&& answers(req.body.payload, reply.body.payload, r)
}

/// Whether `out` is what a gossip round of replica `r` sends, its message
/// ids counted from `first`: one `broadcast` from this node to a neighbour
/// for each value of that neighbour's delta, and nothing else.
pub open spec fn is_gossip(r: Replica, first: usize, out: Seq<Message>) -> bool {
    &&& forall|i: int|
        #![trigger out[i]]
        0 <= i < out.len() ==> {
            &&& out[i].src@ == r.id
            &&& out[i].body.msg_id == Some(advance(first, i as nat))
            &&& out[i].body.in_reply_to is None
            &&& out[i].body.payload is Broadcast
            &&& r.neighbors().contains(out[i].dst@)
            &&& r.delta(out[i].dst@).contains(out[i].body.payload->message)
        }
    &&& forall|n: Seq<char>, v: usize|
        r.neighbors().contains(n) && #[trigger] r.delta(n).contains(v) ==> exists|i: int|
            0 <= i < out.len() && (#[trigger] out[i]).dst@ == n && out[i].body.payload->message
                == v
}

pub struct BroadcastNode {
    id: String,
    next_msg_id: usize,
    seen: SeenIndex,
    topology: Vec<(String, Vec<String>)>,
}

impl BroadcastNode {
    pub closed spec fn wf(&self) -> bool {
        self.seen.wf()
    }

    /// The replicated state.
    pub closed spec fn replica(&self) -> Replica {
        Replica { id: self.id@, seen: self.seen@, topology: topo_view(self.topology@) }
    }

    /// The id that the next message sent will carry.
    pub closed spec fn next_msg_id(&self) -> usize {
        self.next_msg_id
    }

    /// A node with nothing seen, no topology, whose first message carries
    /// id `first_msg_id`.
    pub fn new(first_msg_id: usize) -> (r: BroadcastNode)
        ensures
            r.wf(),
            r.replica() == Replica::fresh(),
            r.next_msg_id() == first_msg_id,
    {
        let r = BroadcastNode {
            id: String::new(),
            next_msg_id: first_msg_id,
            seen: SeenIndex::new(),
            topology: Vec::new(),
        };
        assert(topo_view(r.topology@) =~= Seq::empty());
        r
    }

    /// The id given to this node by `init`.
    pub fn id(&self) -> (r: &String)
        ensures
            r@ == self.replica().id,
    {
        &self.id
    }

    fn take_msg_id(&mut self) -> (r: usize)
        ensures
            r == old(self).next_msg_id,
            final(self).next_msg_id == bump(old(self).next_msg_id),
            final(self).id == old(self).id,
            final(self).seen == old(self).seen,
            final(self).topology == old(self).topology,
    {
        let r = self.next_msg_id;
        self.next_msg_id = self.next_msg_id.wrapping_add(1);
        r
    }

    /// Handles one request and returns its reply.
    pub fn handle_request(&mut self, msg: Message) -> (reply: Message)
        requires
            old(self).wf(),
        ensures
            final(self).wf(),
            final(self).replica() == absorb(old(self).replica(), msg),
            final(self).next_msg_id() == bump(old(self).next_msg_id()),
            is_reply(msg, reply, old(self).replica(), old(self).next_msg_id()),
    {
        let id = self.take_msg_id();
        let Message { src, dst, body } = msg;
        let payload = match body.payload {
            Payload::Init { node_id, node_ids: _ } => {
                self.id = node_id;
                Payload::InitOk {}
            },
            Payload::Broadcast { message } => {
                self.seen.record(&src, message);
                self.seen.record(&self.id, message);
                Payload::BroadcastOk {}
            },
            Payload::Read {} => Payload::ReadOk { messages: self.seen.values_of(&self.id) },
            Payload::Topology { topology } => {
                self.topology = topology;
                Payload::TopologyOk {}
            },
            _ => Payload::Error {
                code: ErrorCode::NotSupported,
                text: "Operation not supported".to_owned(),
            },
        };
        proof {
            reveal_strlit("Operation not supported");
        }
        Message { src: dst, dst: src, body: Body { msg_id: Some(id), in_reply_to: body.msg_id, payload } }
    }

    /// Where the topology entry of this node stands, if there is one.
    fn own_entry(&self) -> (r: Option<usize>)
        ensures
            r matches Some(i) ==> i < self.topology@.len() && first_entry(
                topo_view(self.topology@),
                self.id@,
                i as int,
            ),
            r is None ==> self.replica().neighbors() == Seq::<Seq<char>>::empty(),
    {
        let ghost t = topo_view(self.topology@);
        let mut i: usize = 0;
        while i < self.topology.len()
            invariant
                0 <= i <= self.topology.len(),
                t == topo_view(self.topology@),
                forall|j: int| 0 <= j < i ==> t[j].0 != self.id@,
            decreases self.topology.len() - i,
        {
            if self.topology[i].0 == self.id {
                return Some(i);
            }
            i = i + 1;
        }
        assert(!exists|k: int| first_entry(t, self.id@, k));
        None
    }

    /// One anti-entropy round: for each neighbour, one `broadcast` of each
    /// value that this node knows and does not believe the neighbour to
    /// know. The seen-by index is left as it is.
    pub fn gossip(&mut self) -> (out: Vec<Message>)
        requires
            old(self).wf(),
        ensures
            final(self).wf(),
            final(self).replica() == old(self).replica(),
            final(self).next_msg_id() == advance(old(self).next_msg_id(), out@.len()),
            is_gossip(old(self).replica(), old(self).next_msg_id(), out@),
    {
        let ghost r = self.replica();
        let ghost first = self.next_msg_id;
        let mut out: Vec<Message> = Vec::new();
        let t = match self.own_entry() {
            None => {
                return out;
            },
            Some(t) => t,
        };
        let ghost nb = self.topology@[t as int].1@.map_values(|s: String| s@);
        proof {
            let c = choose|i: int| first_entry(r.topology, r.id, i);
            assert(first_entry(r.topology, r.id, c));
            assert(c == t);
            assert(r.neighbors() == nb);
        }
        let mut j: usize = 0;
        while j < self.topology[t].1.len()
            invariant
                self.wf(),
                self.replica() == r,
                t < self.topology@.len(),
                nb == self.topology@[t as int].1@.map_values(|s: String| s@),
                r.neighbors() == nb,
                self.next_msg_id == advance(first, out@.len()),
                0 <= j <= nb.len(),
                forall|i: int|
                    #![trigger out@[i]]
                    0 <= i < out@.len() ==> {
                        &&& out@[i].src@ == r.id
                        &&& out@[i].body.msg_id == Some(advance(first, i as nat))
                        &&& out@[i].body.in_reply_to is None
                        &&& out@[i].body.payload is Broadcast
                        &&& r.neighbors().contains(out@[i].dst@)
                        &&& r.delta(out@[i].dst@).contains(out@[i].body.payload->message)
                    },
                forall|jj: int, v: usize|
                    0 <= jj < j && #[trigger] r.delta(nb[jj]).contains(v) ==> exists|i: int|
                        0 <= i < out@.len() && (#[trigger] out@[i]).dst@ == nb[jj]
                            && out@[i].body.payload->message == v,
            decreases nb.len() - j,
        {
            let d = self.seen.delta(&self.id, &self.topology[t].1[j]);
            let ghost n = nb[j as int];
            proof {
                assert(r.neighbors().contains(n));
                assert(d@.to_set() == r.delta(n));
            }
            let mut k: usize = 0;
            while k < d.len()
                invariant
                    self.wf(),
                    self.replica() == r,
                    t < self.topology@.len(),
                    nb == self.topology@[t as int].1@.map_values(|s: String| s@),
                    r.neighbors() == nb,
                    j < nb.len(),
                    n == nb[j as int],
                    d@.to_set() == r.delta(n),
                    self.next_msg_id == advance(first, out@.len()),
                    0 <= k <= d@.len(),
                    forall|i: int|
                        #![trigger out@[i]]
                        0 <= i < out@.len() ==> {
                            &&& out@[i].src@ == r.id
                            &&& out@[i].body.msg_id == Some(advance(first, i as nat))
                            &&& out@[i].body.in_reply_to is None
                            &&& out@[i].body.payload is Broadcast
                            &&& r.neighbors().contains(out@[i].dst@)
                            &&& r.delta(out@[i].dst@).contains(out@[i].body.payload->message)
                        },
                    forall|jj: int, v: usize|
                        0 <= jj < j && #[trigger] r.delta(nb[jj]).contains(v) ==> exists|i: int|
                            0 <= i < out@.len() && (#[trigger] out@[i]).dst@ == nb[jj]
                                && out@[i].body.payload->message == v,
                    forall|kk: int|
                        #![trigger d@[kk]]
                        0 <= kk < k ==> exists|i: int|
                            0 <= i < out@.len() && (#[trigger] out@[i]).dst@ == n
                                && out@[i].body.payload->message == d@[kk],
                decreases d@.len() - k,
            {
                let ghost out0 = out@;
                proof {
                    assert(d@.to_set().contains(d@[k as int]));
                }
                let mid = self.take_msg_id();
                let m = Message {
                    src: self.id.clone(),
                    dst: self.topology[t].1[j].clone(),
                    body: Body {
                        msg_id: Some(mid),
                        in_reply_to: None,
                        payload: Payload::Broadcast { message: d[k] },
                    },
                };
                out.push(m);
                proof {
                    assert(out@[out0.len() as int] == m);
                    assert(forall|i: int| 0 <= i < out0.len() ==> out@[i] == out0[i]);
                    assert forall|kk: int| #![trigger d@[kk]] 0 <= kk < k + 1 implies exists|i: int|
                        0 <= i < out@.len() && (#[trigger] out@[i]).dst@ == n
                            && out@[i].body.payload->message == d@[kk] by {
                        if kk == k {
                            assert(out@[out0.len() as int].dst@ == n);
                        } else {
                            let i = choose|i: int|
                                0 <= i < out0.len() && (#[trigger] out0[i]).dst@ == n
                                    && out0[i].body.payload->message == d@[kk];
                            assert(out@[i] == out0[i]);
                        }
                    }
                    assert forall|jj: int, v: usize|
                        0 <= jj < j && #[trigger] r.delta(nb[jj]).contains(v) implies exists|i: int|
                            0 <= i < out@.len() && (#[trigger] out@[i]).dst@ == nb[jj]
                                && out@[i].body.payload->message == v by {
                        let i = choose|i: int|
                            0 <= i < out0.len() && (#[trigger] out0[i]).dst@ == nb[jj]
                                && out0[i].body.payload->message == v;
                        assert(out@[i] == out0[i]);
                    }
                }
                k = k + 1;
            }
            proof {
                assert forall|jj: int, v: usize|
                    0 <= jj < j + 1 && #[trigger] r.delta(nb[jj]).contains(v) implies exists|i: int|
                        0 <= i < out@.len() && (#[trigger] out@[i]).dst@ == nb[jj]
                            && out@[i].body.payload->message == v by {
                    if jj == j {
                        assert(d@.to_set().contains(v));
                        let kk = choose|kk: int| 0 <= kk < d@.len() && d@[kk] == v;
                    }
                }
            }
            j = j + 1;
        }
        proof {
            assert forall|n: Seq<char>, v: usize|
                r.neighbors().contains(n) && #[trigger] r.delta(n).contains(v) implies exists|i: int|
                    0 <= i < out@.len() && (#[trigger] out@[i]).dst@ == n
                        && out@[i].body.payload->message == v by {
                let jj = choose|jj: int| 0 <= jj < nb.len() && nb[jj] == n;
                assert(r.delta(nb[jj]).contains(v));
            }
        }
        out
    }

    /// Handles one queued item: a gossip trigger runs a round, any other
    /// message is a request and gets its reply.
    pub fn step(&mut self, msg: Message) -> (out: Vec<Message>)
        requires
            old(self).wf(),
        ensures
            final(self).wf(),
            final(self).replica() == absorb(old(self).replica(), msg),
            msg.body.payload is Gossip ==> final(self).next_msg_id() == advance(
                old(self).next_msg_id(),
                out@.len(),
            ) && is_gossip(old(self).replica(), old(self).next_msg_id(), out@),
            !(msg.body.payload is Gossip) ==> out@.len() == 1 && final(self).next_msg_id() == bump(
                old(self).next_msg_id(),
            ) && is_reply(msg, out@[0], old(self).replica(), old(self).next_msg_id()),
    {
        if let Payload::Gossip {} = msg.body.payload {
            self.gossip()
        } else {
            let reply = self.handle_request(msg);
            let mut out: Vec<Message> = Vec::new();
            out.push(reply);
            out
        }
    }
}

} // verus!
