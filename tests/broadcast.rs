use dragsug::index::SeenIndex;
use dragsug::node::BroadcastNode;
use dragsug::protocol::{Body, ErrorCode, Message, Payload};
use dragsug::simple::{EchoNode, UniqueIdNode};
use dragsug::store::ValueSet;

fn msg(src: &str, dst: &str, msg_id: Option<usize>, payload: Payload) -> Message {
    Message {
        src: src.to_string(),
        dst: dst.to_string(),
        body: Body { msg_id, in_reply_to: None, payload },
    }
}

fn init(node: &mut BroadcastNode, id: &str) {
    let init = Payload::Init { node_id: id.to_string(), node_ids: vec![] };
    node.handle_request(msg("c0", id, Some(0), init));
}

fn line_topology() -> Vec<(String, Vec<String>)> {
    vec![
        ("A".to_string(), vec!["B".to_string()]),
        ("B".to_string(), vec!["A".to_string(), "C".to_string()]),
        ("C".to_string(), vec!["B".to_string()]),
    ]
}

fn install(node: &mut BroadcastNode, topology: Vec<(String, Vec<String>)>) {
    let id = node.id().clone();
    node.handle_request(msg("c0", &id, Some(1), Payload::Topology { topology }));
}

fn read(node: &mut BroadcastNode) -> Vec<usize> {
    let id = node.id().clone();
    let reply = node.handle_request(msg("c1", &id, Some(99), Payload::Read {}));
    match reply.body.payload {
        Payload::ReadOk { mut messages } => {
            messages.sort();
            messages
        }
        other => panic!("unexpected reply {:?}", other),
    }
}

fn broadcast_value(m: &Message) -> usize {
    match m.body.payload {
        Payload::Broadcast { message } => message,
        ref other => panic!("unexpected payload {:?}", other),
    }
}

fn line_cluster() -> Vec<BroadcastNode> {
    let mut nodes = Vec::new();
    for id in ["A", "B", "C"] {
        let mut n = BroadcastNode::new(0);
        init(&mut n, id);
        install(&mut n, line_topology());
        nodes.push(n);
    }
    nodes
}

fn index_of(id: &str) -> usize {
    match id {
        "A" => 0,
        "B" => 1,
        "C" => 2,
        _ => panic!("unknown node {}", id),
    }
}

/// Runs one gossip round on every node and delivers every message sent.
fn gossip_round(nodes: &mut Vec<BroadcastNode>) {
    let mut sent = Vec::new();
    for n in nodes.iter_mut() {
        sent.extend(n.gossip());
    }
    for m in sent {
        let to = index_of(&m.dst);
        nodes[to].handle_request(m);
    }
}

#[test]
fn line_topology_reaches_far_end() {
    let mut nodes = line_cluster();
    nodes[0].handle_request(msg("c1", "A", Some(5), Payload::Broadcast { message: 42 }));
    gossip_round(&mut nodes);
    gossip_round(&mut nodes);
    assert_eq!(read(&mut nodes[2]), vec![42]);
}

#[test]
fn read_before_broadcast_is_empty() {
    let mut nodes = line_cluster();
    for n in nodes.iter_mut() {
        assert_eq!(read(n), Vec::<usize>::new());
    }
}

#[test]
fn duplicate_delivery_reads_once() {
    let mut a = BroadcastNode::new(0);
    init(&mut a, "A");
    a.handle_request(msg("c1", "A", Some(1), Payload::Broadcast { message: 7 }));
    a.handle_request(msg("c1", "A", Some(2), Payload::Broadcast { message: 7 }));
    assert_eq!(read(&mut a), vec![7]);
}

#[test]
fn unsupported_tag_gets_error_code_ten() {
    let mut a = BroadcastNode::new(0);
    init(&mut a, "A");
    let reply = a.handle_request(msg("c1", "A", Some(17), Payload::Generate {}));
    assert_eq!(reply.body.in_reply_to, Some(17));
    assert_eq!(reply.src, "A");
    assert_eq!(reply.dst, "c1");
    match reply.body.payload {
        Payload::Error { code, text } => {
            assert_eq!(code.code(), 10);
            assert_eq!(code, ErrorCode::NotSupported);
            assert_eq!(text, "Operation not supported");
        }
        other => panic!("unexpected reply {:?}", other),
    }
}

#[test]
fn replies_swap_ends_and_count_ids() {
    let mut a = BroadcastNode::new(3);
    let r0 = a.handle_request(msg(
        "c0",
        "A",
        Some(11),
        Payload::Init { node_id: "A".to_string(), node_ids: vec!["A".to_string()] },
    ));
    assert!(matches!(r0.body.payload, Payload::InitOk {}));
    assert_eq!(r0.body.msg_id, Some(3));
    assert_eq!(r0.body.in_reply_to, Some(11));
    assert_eq!(a.id(), "A");
    let r1 = a.handle_request(msg("c0", "A", Some(12), Payload::Broadcast { message: 1 }));
    assert!(matches!(r1.body.payload, Payload::BroadcastOk {}));
    assert_eq!(r1.body.msg_id, Some(4));
    assert_eq!(r1.body.in_reply_to, Some(12));
    let r2 = a.handle_request(msg("c0", "A", None, Payload::Topology { topology: line_topology() }));
    assert!(matches!(r2.body.payload, Payload::TopologyOk {}));
    assert_eq!(r2.body.in_reply_to, None);
}

#[test]
fn message_ids_wrap_at_the_top() {
    let mut a = BroadcastNode::new(usize::MAX);
    let r0 = a.handle_request(msg("c0", "A", Some(1), Payload::Read {}));
    let r1 = a.handle_request(msg("c0", "A", Some(2), Payload::Read {}));
    assert_eq!(r0.body.msg_id, Some(usize::MAX));
    assert_eq!(r1.body.msg_id, Some(0));
}

#[test]
fn repeated_broadcasts_from_many_senders_read_once() {
    let mut a = BroadcastNode::new(0);
    init(&mut a, "A");
    for (i, src) in ["c1", "B", "A", "c1"].iter().enumerate() {
        a.handle_request(msg(src, "A", Some(i), Payload::Broadcast { message: 9 }));
    }
    assert_eq!(read(&mut a), vec![9]);
}

#[test]
fn reads_hold_only_broadcast_values() {
    let mut nodes = line_cluster();
    nodes[1].handle_request(msg("c1", "B", Some(1), Payload::Broadcast { message: 3 }));
    nodes[2].handle_request(msg("c1", "C", Some(2), Payload::Broadcast { message: 8 }));
    for _ in 0..4 {
        gossip_round(&mut nodes);
    }
    for n in nodes.iter_mut() {
        let got = read(n);
        assert!(got.iter().all(|v| *v == 3 || *v == 8));
    }
}

#[test]
fn cluster_converges_to_union() {
    let mut nodes = line_cluster();
    nodes[0].handle_request(msg("c1", "A", Some(1), Payload::Broadcast { message: 1 }));
    nodes[1].handle_request(msg("c1", "B", Some(2), Payload::Broadcast { message: 2 }));
    nodes[2].handle_request(msg("c1", "C", Some(3), Payload::Broadcast { message: 3 }));
    for _ in 0..3 {
        gossip_round(&mut nodes);
    }
    for n in nodes.iter_mut() {
        assert_eq!(read(n), vec![1, 2, 3]);
    }
}

#[test]
fn gossip_sends_delta_to_neighbours_only() {
    let mut b = BroadcastNode::new(100);
    init(&mut b, "B");
    install(&mut b, line_topology());
    b.handle_request(msg("A", "B", Some(1), Payload::Broadcast { message: 5 }));
    b.handle_request(msg("c1", "B", Some(2), Payload::Broadcast { message: 6 }));
    let out = b.gossip();
    let mut to_a: Vec<usize> =
        out.iter().filter(|m| m.dst == "A").map(broadcast_value).collect();
    let mut to_c: Vec<usize> =
        out.iter().filter(|m| m.dst == "C").map(broadcast_value).collect();
    to_a.sort();
    to_c.sort();
    assert_eq!(to_a, vec![6]);
    assert_eq!(to_c, vec![5, 6]);
    assert_eq!(out.len(), 3);
    for (i, m) in out.iter().enumerate() {
        assert_eq!(m.src, "B");
        assert_eq!(m.body.in_reply_to, None);
        assert_eq!(m.body.msg_id, Some(104 + i));
    }
}

#[test]
fn gossip_without_topology_sends_nothing() {
    let mut a = BroadcastNode::new(0);
    init(&mut a, "A");
    a.handle_request(msg("c1", "A", Some(1), Payload::Broadcast { message: 4 }));
    assert!(a.gossip().is_empty());
}

#[test]
fn gossip_targets_last_installed_topology() {
    let mut a = BroadcastNode::new(0);
    init(&mut a, "A");
    install(&mut a, line_topology());
    let other = vec![("A".to_string(), vec!["C".to_string()])];
    install(&mut a, other);
    a.handle_request(msg("c1", "A", Some(1), Payload::Broadcast { message: 4 }));
    let out = a.gossip();
    assert_eq!(out.len(), 1);
    assert_eq!(out[0].dst, "C");
}

#[test]
fn heard_value_is_not_resent() {
    let mut a = BroadcastNode::new(0);
    init(&mut a, "A");
    install(&mut a, line_topology());
    a.handle_request(msg("c1", "A", Some(1), Payload::Broadcast { message: 4 }));
    assert_eq!(a.gossip().len(), 1);
    assert_eq!(a.gossip().len(), 1);
    a.handle_request(msg("B", "A", Some(7), Payload::Broadcast { message: 4 }));
    assert!(a.gossip().is_empty());
}

#[test]
fn step_routes_gossip_and_requests() {
    let mut a = BroadcastNode::new(0);
    init(&mut a, "A");
    install(&mut a, line_topology());
    let out = a.step(msg("c1", "A", Some(1), Payload::Broadcast { message: 8 }));
    assert_eq!(out.len(), 1);
    assert!(matches!(out[0].body.payload, Payload::BroadcastOk {}));
    let out = a.step(msg("", "", None, Payload::Gossip {}));
    assert_eq!(out.len(), 1);
    assert_eq!(out[0].dst, "B");
    assert_eq!(broadcast_value(&out[0]), 8);
}

#[test]
fn value_set_insert_and_difference() {
    let mut s = ValueSet::new();
    s.insert(1);
    s.insert(2);
    s.insert(1);
    let mut snap = s.snapshot();
    snap.sort();
    assert_eq!(snap, vec![1, 2]);
    assert!(s.contains(2));
    assert!(!s.contains(3));
    let mut t = ValueSet::new();
    t.insert(2);
    t.insert(5);
    assert_eq!(s.difference(&t), vec![1]);
    assert_eq!(t.difference(&s), vec![5]);
}

#[test]
fn seen_index_tracks_each_node() {
    let mut idx = SeenIndex::new();
    let a = "A".to_string();
    let b = "B".to_string();
    idx.record(&a, 1);
    idx.record(&a, 2);
    idx.record(&b, 2);
    let mut va = idx.values_of(&a);
    va.sort();
    assert_eq!(va, vec![1, 2]);
    assert_eq!(idx.values_of(&"C".to_string()), Vec::<usize>::new());
    assert_eq!(idx.delta(&a, &b), vec![1]);
    assert_eq!(idx.delta(&b, &a), Vec::<usize>::new());
    let mut all = idx.delta(&a, &"C".to_string());
    all.sort();
    assert_eq!(all, vec![1, 2]);
}

#[test]
fn error_codes_on_the_wire() {
    assert_eq!(ErrorCode::Timeout.code(), 0);
    assert_eq!(ErrorCode::NodeNotFound.code(), 1);
    assert_eq!(ErrorCode::NotSupported.code(), 10);
    assert_eq!(ErrorCode::TemporarilyUnavailable.code(), 11);
    assert_eq!(ErrorCode::MalformedRequest.code(), 12);
    assert_eq!(ErrorCode::Crash.code(), 13);
    assert_eq!(ErrorCode::Abort.code(), 14);
    assert_eq!(ErrorCode::KeyDoesNotExist.code(), 20);
    assert_eq!(ErrorCode::KeyAlreadyExists.code(), 21);
    assert_eq!(ErrorCode::PreconditionFailed.code(), 22);
    assert_eq!(ErrorCode::TxnConflict.code(), 30);
    assert_eq!(ErrorCode::from_code(22), Some(ErrorCode::PreconditionFailed));
    assert_eq!(ErrorCode::from_code(10), Some(ErrorCode::NotSupported));
    assert_eq!(ErrorCode::from_code(2), None);
    assert_eq!(ErrorCode::from_code(31), None);
}

#[test]
fn echo_node_echoes() {
    let mut e = EchoNode::new(0);
    let r = e.handle_request(&msg("c1", "n1", Some(4), Payload::Echo { echo: "hi".to_string() }));
    assert_eq!(r.body.in_reply_to, Some(4));
    assert_eq!(r.body.msg_id, Some(0));
    assert_eq!(r.src, "n1");
    match r.body.payload {
        Payload::EchoOk { echo } => assert_eq!(echo, "hi"),
        other => panic!("unexpected reply {:?}", other),
    }
    let r = e.handle_request(&msg("c1", "n1", Some(5), Payload::Read {}));
    assert_eq!(r.body.msg_id, Some(1));
    assert!(matches!(r.body.payload, Payload::Error { code: ErrorCode::NotSupported, .. }));
}

#[test]
fn unique_id_node_hands_out_fresh_ids() {
    let mut u = UniqueIdNode::new(0);
    let r1 = u.handle_request(&msg("c1", "n1", Some(1), Payload::Generate {}));
    let r2 = u.handle_request(&msg("c1", "n1", Some(2), Payload::Generate {}));
    let id1 = match r1.body.payload {
        Payload::GenerateOk { id } => id,
        other => panic!("unexpected reply {:?}", other),
    };
    let id2 = match r2.body.payload {
        Payload::GenerateOk { id } => id,
        other => panic!("unexpected reply {:?}", other),
    };
    assert_ne!(id1, id2);
    assert!(!id1.is_nil());
    assert_eq!(r2.body.msg_id, Some(1));
    assert_eq!(r2.body.in_reply_to, Some(2));
}

#[test]
fn unique_id_node_uses_given_id() {
    let mut u = UniqueIdNode::new(7);
    let fixed = uuid::Uuid::from_u128(0x1234);
    let r = u.reply_with(&msg("c1", "n1", Some(1), Payload::Generate {}), fixed);
    assert_eq!(r.body.msg_id, Some(7));
    match r.body.payload {
        Payload::GenerateOk { id } => assert_eq!(id, fixed),
        other => panic!("unexpected reply {:?}", other),
    }
    let r = u.reply_with(&msg("c1", "n1", Some(2), Payload::Init { node_id: "n1".to_string(), node_ids: vec![] }), fixed);
    assert!(matches!(r.body.payload, Payload::InitOk {}));
}
