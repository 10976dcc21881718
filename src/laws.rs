//! What holds of the replicated state across calls: idempotent delivery,
//! no spontaneous values, and the coverage of each gossip delta.
use vstd::prelude::*;
use crate::index::{known_of, add_value};
use crate::node::{Replica, absorb, run, is_gossip};
use crate::protocol::Message;

verus! {

/// The values carried by the `broadcast` requests among `ms`.
pub open spec fn submitted(ms: Seq<Message>) -> Set<usize> {
    Set::new(
        |v: usize|
            exists|i: int|
                0 <= i < ms.len() && (#[trigger] ms[i]).body.payload is Broadcast
                    && ms[i].body.payload->message == v,
    )
}

/// The values attributed to any node in `seen`.
pub open spec fn held(seen: Map<Seq<char>, Set<usize>>) -> Set<usize> {
    Set::new(|v: usize| exists|n: Seq<char>| #[trigger] known_of(seen, n).contains(v))
}

/// Whether every message of `ms` is a `broadcast` request.
pub open spec fn all_broadcasts(ms: Seq<Message>) -> bool {
    forall|i: int| 0 <= i < ms.len() ==> (#[trigger] ms[i]).body.payload is Broadcast
}

proof fn lemma_submitted_last(ms: Seq<Message>)
    requires
        ms.len() > 0,
    ensures
        submitted(ms) == if ms.last().body.payload is Broadcast {
            submitted(ms.drop_last()).insert(ms.last().body.payload->message)
        } else {
            submitted(ms.drop_last())
        },
{
    let p = ms.drop_last();
    let last = ms.len() - 1;
    assert forall|v: usize| submitted(ms).contains(v) <==> (submitted(p).contains(v) || (
    ms.last().body.payload is Broadcast && ms.last().body.payload->message == v)) by {
        if submitted(ms).contains(v) {
            let i = choose|i: int|
                0 <= i < ms.len() && (#[trigger] ms[i]).body.payload is Broadcast
                    && ms[i].body.payload->message == v;
            if i < last {
                assert(p[i] == ms[i]);
            }
        }
        if submitted(p).contains(v) {
            let i = choose|i: int|
                0 <= i < p.len() && (#[trigger] p[i]).body.payload is Broadcast
                    && p[i].body.payload->message == v;
            assert(ms[i] == p[i]);
        }
        if ms.last().body.payload is Broadcast && ms.last().body.payload->message == v {
            assert(ms[last] == ms.last());
        }
    }
    if ms.last().body.payload is Broadcast {
        assert(submitted(ms) =~= submitted(p).insert(ms.last().body.payload->message));
    } else {
        assert(submitted(ms) =~= submitted(p));
    }
}

/// Handling a `broadcast(v)` adds `v` to what this node reads, and changes
/// neither its id nor its topology.
pub proof fn lemma_broadcast_adds(r: Replica, m: Message)
    requires
        m.body.payload is Broadcast,
    ensures
        absorb(r, m).id == r.id,
        absorb(r, m).topology == r.topology,
        absorb(r, m).read_set() == r.read_set().insert(m.body.payload->message),
{
    let v = m.body.payload->message;
    let s1 = add_value(r.seen, m.src@, v);
    if m.src@ == r.id {
        assert(known_of(s1, r.id) == r.read_set().insert(v));
        assert(known_of(s1, r.id).insert(v) =~= r.read_set().insert(v));
    } else {
        assert(known_of(s1, r.id) == r.read_set());
    }
}

/// A run of `broadcast` requests leaves the id and topology as they were,
/// and what the node reads grows by exactly the values they carry.
pub proof fn lemma_run_broadcasts(r: Replica, ms: Seq<Message>)
    requires
        all_broadcasts(ms),
    ensures
        run(r, ms).id == r.id,
        run(r, ms).topology == r.topology,
        run(r, ms).read_set() == r.read_set().union(submitted(ms)),
    decreases ms.len(),
{
    if ms.len() == 0 {
        assert(submitted(ms) =~= Set::<usize>::empty());
        assert(r.read_set().union(submitted(ms)) =~= r.read_set());
    } else {
        let p = ms.drop_last();
        assert forall|i: int| 0 <= i < p.len() implies (#[trigger] p[i]).body.payload is Broadcast by {
            assert(p[i] == ms[i]);
        }
        lemma_run_broadcasts(r, p);
        assert(ms[ms.len() - 1] == ms.last());
        lemma_broadcast_adds(run(r, p), ms.last());
        lemma_submitted_last(ms);
        assert(run(r, ms).read_set() =~= r.read_set().union(submitted(ms)));
    }
}

/// Delivering the same `broadcast(v)` one or more times, whoever sends it
/// and under whatever message ids, leaves what the node reads as a single
/// delivery does: its earlier values and `v`.
pub proof fn lemma_broadcast_idempotent(r: Replica, ms: Seq<Message>, v: usize)
    requires
        ms.len() >= 1,
        forall|i: int|
            0 <= i < ms.len() ==> (#[trigger] ms[i]).body.payload is Broadcast
                && ms[i].body.payload->message == v,
    ensures
        run(r, ms).read_set() == absorb(r, ms[0]).read_set(),
        run(r, ms).read_set() == r.read_set().insert(v),
{
    lemma_run_broadcasts(r, ms);
    lemma_broadcast_adds(r, ms[0]);
    assert(submitted(ms) =~= set![v]);
    assert(r.read_set().union(submitted(ms)) =~= r.read_set().insert(v));
}

/// Whatever messages a node handles, every value its index attributes to
/// any node was held by its index before or came in a `broadcast` among
/// them.
pub proof fn lemma_no_new_values(r: Replica, ms: Seq<Message>)
    ensures
        forall|n: Seq<char>, v: usize|
            #[trigger] known_of(run(r, ms).seen, n).contains(v) ==> held(r.seen).contains(v)
                || submitted(ms).contains(v),
    decreases ms.len(),
{
    if ms.len() > 0 {
        let p = ms.drop_last();
        lemma_no_new_values(r, p);
        lemma_submitted_last(ms);
        let q = run(r, p);
        let m = ms.last();
        assert forall|n: Seq<char>, v: usize|
            #[trigger] known_of(run(r, ms).seen, n).contains(v) implies held(r.seen).contains(v)
                || submitted(ms).contains(v) by {
            if m.body.payload is Broadcast {
                let w = m.body.payload->message;
                let s1 = add_value(q.seen, m.src@, w);
                if v != w {
                    assert(known_of(s1, n).contains(v) || known_of(q.seen, n).contains(v));
                    if known_of(s1, n).contains(v) {
                        assert(known_of(q.seen, n).contains(v));
                    }
                }
            }
        }
    }
}

/// A node that starts with nothing seen reads only values that some
/// `broadcast` it handled carried.
pub proof fn lemma_reads_were_broadcast(ms: Seq<Message>)
    ensures
        run(Replica::fresh(), ms).read_set().subset_of(submitted(ms)),
{
    lemma_no_new_values(Replica::fresh(), ms);
    assert forall|v: usize| !held(Map::<Seq<char>, Set<usize>>::empty()).contains(v) by {}
}

/// A gossip round of `s` that reaches its neighbour `b` (each of its
/// messages to `b` among the `broadcast`s `b` handles) leaves `b` reading
/// every value of the delta that `s` computed for it.
pub proof fn lemma_delta_delivered(
    s: Replica,
    first: usize,
    out: Seq<Message>,
    b: Replica,
    ms: Seq<Message>,
)
    requires
        is_gossip(s, first, out),
        s.neighbors().contains(b.id),
        all_broadcasts(ms),
        forall|i: int| 0 <= i < out.len() && (#[trigger] out[i]).dst@ == b.id ==> ms.contains(out[i]),
    ensures
        s.delta(b.id).subset_of(run(b, ms).read_set()),
{
    lemma_run_broadcasts(b, ms);
    assert forall|v: usize| s.delta(b.id).contains(v) implies run(b, ms).read_set().contains(v) by {
        let i = choose|i: int|
            0 <= i < out.len() && (#[trigger] out[i]).dst@ == b.id
                && out[i].body.payload->message == v;
        assert(ms.contains(out[i]));
        let j = choose|j: int| 0 <= j < ms.len() && ms[j] == out[i];
        assert(ms[j].body.payload is Broadcast);
        assert(submitted(ms).contains(v));
    }
}

/// Gossip messages carry only values the sender knows.
pub proof fn lemma_gossip_from_known(s: Replica, first: usize, out: Seq<Message>)
    requires
        is_gossip(s, first, out),
    ensures
        forall|i: int|
            0 <= i < out.len() ==> s.read_set().contains((#[trigger] out[i]).body.payload->message),
{
}

/// Once a node handles `broadcast(v)` from `n`, `v` leaves its delta for
/// `n`, and it is not sent to `n` again.
pub proof fn lemma_heard_leaves_delta(r: Replica, m: Message)
    requires
        m.body.payload is Broadcast,
    ensures
        !absorb(r, m).delta(m.src@).contains(m.body.payload->message),
{
    let v = m.body.payload->message;
    let s1 = add_value(r.seen, m.src@, v);
    assert(known_of(s1, m.src@).contains(v));
    if r.id != m.src@ {
        assert(known_of(add_value(s1, r.id, v), m.src@) == known_of(s1, m.src@));
    }
}

/// One gossip round along an edge: where `s`'s estimate of its neighbour
/// `b` is sound and the round reaches `b`, `b` ends up reading everything
/// `s` reads.
pub proof fn lemma_round_propagates(
    s: Replica,
    first: usize,
    out: Seq<Message>,
    b: Replica,
    ms: Seq<Message>,
)
    requires
        is_gossip(s, first, out),
        s.neighbors().contains(b.id),
        known_of(s.seen, b.id).subset_of(b.read_set()),
        all_broadcasts(ms),
        forall|i: int| 0 <= i < out.len() && (#[trigger] out[i]).dst@ == b.id ==> ms.contains(out[i]),
    ensures
        s.read_set().subset_of(run(b, ms).read_set()),
{
    lemma_delta_delivered(s, first, out, b, ms);
    lemma_run_broadcasts(b, ms);
}

/// Along a path of nodes `0..=k`, where in every round each node's reads
/// never shrink and each node reads after the round what its predecessor
/// read before it (what one round of gossip along an edge gives, see
/// `lemma_round_propagates`), whatever the first node read at the start is
/// read by the node `i` steps down the path from round `i` on.
/// `reads[t][i]` is what node `i` reads at round `t`.
pub proof fn lemma_path_propagates(reads: Seq<Seq<Set<usize>>>, k: nat, t: nat, i: nat)
    requires
        forall|u: int| 0 <= u < reads.len() ==> (#[trigger] reads[u]).len() == k + 1,
        forall|u: int, j: int|
            0 <= u < reads.len() - 1 && 0 <= j <= k ==> (#[trigger] reads[u][j]).subset_of(
                reads[u + 1][j],
            ),
        forall|u: int, j: int|
            0 <= u < reads.len() - 1 && 0 <= j < k ==> (#[trigger] reads[u][j]).subset_of(
                reads[u + 1][j + 1],
            ),
        i <= k,
        i <= t < reads.len(),
    ensures
        reads[0][0].subset_of(reads[t as int][i as int]),
    decreases t,
{
    if t > 0 {
        if i == t {
            lemma_path_propagates(reads, k, (t - 1) as nat, (i - 1) as nat);
            assert(reads[t - 1][i - 1].subset_of(reads[t - 1 + 1][i - 1 + 1]));
        } else {
            lemma_path_propagates(reads, k, (t - 1) as nat, i);
            assert(reads[t - 1][i as int].subset_of(reads[t - 1 + 1][i as int]));
        }
    }
}

} // verus!
