use dist_sys_challenges::broadcast::{
    BroadcastNode, InjectedPayload, Payload, StepError, TopologyMap,
};
use dist_sys_challenges::protocol::{Body, Event, Init, Message};

fn msg(src: &str, dest: &str, id: Option<usize>, payload: Payload) -> Message<Payload> {
    Message {
        src: src.to_string(),
        dest: dest.to_string(),
        body: Body { id, in_reply_to: None, payload },
    }
}

fn node(name: &str, peers: &[&str]) -> BroadcastNode {
    BroadcastNode::from_init(Init {
        node_id: name.to_string(),
        node_ids: peers.iter().map(|p| p.to_string()).collect(),
    })
}

fn sorted(mut v: Vec<usize>) -> Vec<usize> {
    v.sort();
    v
}

fn topology(entries: &[(&str, &[&str])]) -> TopologyMap {
    TopologyMap {
        entries: entries
            .iter()
            .map(|(k, vs)| (k.to_string(), vs.iter().map(|v| v.to_string()).collect()))
            .collect(),
    }
}

#[test]
fn broadcast_then_read() {
    let mut n = node("n1", &["n1"]);
    let outs = n
        .step(Event::Message(msg("c1", "n1", Some(2), Payload::Broadcast { message: 5 })))
        .unwrap();
    assert_eq!(outs.len(), 1);
    assert_eq!(outs[0].src, "n1");
    assert_eq!(outs[0].dest, "c1");
    assert_eq!(outs[0].body.id, Some(1));
    assert_eq!(outs[0].body.in_reply_to, Some(2));
    assert!(matches!(outs[0].body.payload, Payload::BroadcastOk));

    let outs = n.step(Event::Message(msg("c1", "n1", Some(3), Payload::Read))).unwrap();
    assert_eq!(outs.len(), 1);
    assert_eq!(outs[0].body.id, Some(2));
    assert_eq!(outs[0].body.in_reply_to, Some(3));
    match &outs[0].body.payload {
        Payload::ReadOk { messages } => assert_eq!(messages, &vec![5]),
        _ => panic!("expected ReadOk"),
    }
}

#[test]
fn broadcast_duplicate_value_is_kept_once() {
    let mut n = node("n1", &["n1"]);
    n.step(Event::Message(msg("c1", "n1", Some(1), Payload::Broadcast { message: 5 })))
        .unwrap();
    n.step(Event::Message(msg("c1", "n1", Some(2), Payload::Broadcast { message: 5 })))
        .unwrap();
    assert_eq!(n.messages, vec![5]);
}

#[test]
fn gossip_merge_is_idempotent() {
    let mut n = node("n1", &["n1"]);
    let outs = n
        .step(Event::Message(msg("n2", "n1", None, Payload::Gossip { seen: vec![1, 2] })))
        .unwrap();
    assert!(outs.is_empty());
    let after_once = n.messages.clone();
    let outs = n
        .step(Event::Message(msg("n2", "n1", None, Payload::Gossip { seen: vec![1, 2] })))
        .unwrap();
    assert!(outs.is_empty());
    assert_eq!(n.messages, after_once);
    assert_eq!(sorted(n.messages.clone()), vec![1, 2]);
}

#[test]
fn merge_order_does_not_matter() {
    let mut a = node("n1", &["n1"]);
    a.step(Event::Message(msg("c1", "n1", Some(1), Payload::Broadcast { message: 1 })))
        .unwrap();
    a.step(Event::Message(msg("n2", "n1", None, Payload::Gossip { seen: vec![3, 2] })))
        .unwrap();

    let mut b = node("n1", &["n1"]);
    b.step(Event::Message(msg("n2", "n1", None, Payload::Gossip { seen: vec![2, 3] })))
        .unwrap();
    b.step(Event::Message(msg("c1", "n1", Some(1), Payload::Broadcast { message: 1 })))
        .unwrap();

    assert_eq!(sorted(a.messages.clone()), sorted(b.messages.clone()));
}

#[test]
fn topology_sets_peers() {
    let mut n = node("n1", &["n1", "n2"]);
    let t = topology(&[("n1", &["n2"]), ("n2", &["n1"])]);
    let outs = n
        .step(Event::Message(msg("c1", "n1", Some(1), Payload::Topology { topology: t })))
        .unwrap();
    assert_eq!(outs.len(), 1);
    assert!(matches!(outs[0].body.payload, Payload::TopologyOk));
    assert_eq!(n.topology, vec!["n2".to_string()]);
}

#[test]
fn topology_without_self_entry_fails() {
    let mut n = node("n1", &["n1", "n2"]);
    let t = topology(&[("n2", &["n1"])]);
    let r = n.step(Event::Message(msg("c1", "n1", Some(1), Payload::Topology { topology: t })));
    assert!(matches!(r, Err(StepError::MissingTopologyEntry)));
    assert!(n.topology.is_empty());
}

#[test]
fn gossip_tick_sends_unknown_values_to_each_peer() {
    let mut n = node("n1", &["n1", "n2"]);
    let t = topology(&[("n1", &["n2"]), ("n2", &["n1"])]);
    n.step(Event::Message(msg("c1", "n1", Some(1), Payload::Topology { topology: t })))
        .unwrap();
    n.step(Event::Message(msg("c1", "n1", Some(2), Payload::Broadcast { message: 7 })))
        .unwrap();
    let id_before = n.id;
    let outs = n.step(Event::Inject(InjectedPayload::Gossip)).unwrap();
    assert_eq!(n.id, id_before, "a gossip send must not advance the id counter");
    assert_eq!(outs.len(), 1);
    assert_eq!(outs[0].src, "n1");
    assert_eq!(outs[0].dest, "n2");
    assert_eq!(outs[0].body.id, None);
    assert_eq!(outs[0].body.in_reply_to, None);
    match &outs[0].body.payload {
        Payload::Gossip { seen } => assert_eq!(seen, &vec![7]),
        _ => panic!("expected Gossip"),
    }
}

#[test]
fn gossip_tick_omits_values_the_peer_already_knows() {
    let n = BroadcastNode {
        id: 1,
        node: "n1".to_string(),
        messages: vec![7, 9],
        topology: vec!["n2".to_string()],
        known: vec![("n2".to_string(), vec![7])],
    };
    let mut n = n;
    let outs = n.step(Event::Inject(InjectedPayload::Gossip)).unwrap();
    assert_eq!(outs.len(), 1);
    match &outs[0].body.payload {
        Payload::Gossip { seen } => assert_eq!(seen, &vec![9]),
        _ => panic!("expected Gossip"),
    }
}

#[test]
fn gossip_tick_sends_one_batch_per_peer() {
    let mut n = node("n1", &["n1", "n2", "n3"]);
    let t = topology(&[("n1", &["n2", "n3"])]);
    n.step(Event::Message(msg("c1", "n1", Some(1), Payload::Topology { topology: t })))
        .unwrap();
    n.step(Event::Message(msg("c1", "n1", Some(2), Payload::Broadcast { message: 4 })))
        .unwrap();
    let outs = n.step(Event::Inject(InjectedPayload::Gossip)).unwrap();
    assert_eq!(outs.len(), 2);
    assert_eq!(outs[0].dest, "n2");
    assert_eq!(outs[1].dest, "n3");
    for m in &outs {
        match &m.body.payload {
            Payload::Gossip { seen } => assert_eq!(seen, &vec![4]),
            _ => panic!("expected Gossip"),
        }
    }
}

#[test]
fn two_node_gossip_delivers_broadcast() {
    let mut n1 = node("n1", &["n1", "n2"]);
    let mut n2 = node("n2", &["n1", "n2"]);
    let t1 = topology(&[("n1", &["n2"]), ("n2", &["n1"])]);
    let t2 = topology(&[("n1", &["n2"]), ("n2", &["n1"])]);
    n1.step(Event::Message(msg("c1", "n1", Some(1), Payload::Topology { topology: t1 })))
        .unwrap();
    n2.step(Event::Message(msg("c1", "n2", Some(1), Payload::Topology { topology: t2 })))
        .unwrap();

    n1.step(Event::Message(msg("c1", "n1", Some(2), Payload::Broadcast { message: 7 })))
        .unwrap();

    let gossip = n1.step(Event::Inject(InjectedPayload::Gossip)).unwrap();
    for m in gossip {
        if m.dest == "n2" {
            n2.step(Event::Message(m)).unwrap();
        }
    }

    let outs = n2.step(Event::Message(msg("c1", "n2", Some(3), Payload::Read))).unwrap();
    match &outs[0].body.payload {
        Payload::ReadOk { messages } => assert!(messages.contains(&7)),
        _ => panic!("expected ReadOk"),
    }
}

#[test]
fn acknowledgements_are_ignored() {
    let mut n = node("n1", &["n1"]);
    let outs = n.step(Event::Message(msg("n2", "n1", Some(9), Payload::BroadcastOk))).unwrap();
    assert!(outs.is_empty());
    assert_eq!(n.id, 1, "an ignored acknowledgement issues no reply, so the counter stays");
    assert!(n.messages.is_empty());
}

#[test]
fn end_of_input_changes_nothing() {
    let mut n = node("n1", &["n1"]);
    let outs = n.step(Event::EOF).unwrap();
    assert!(outs.is_empty());
    assert_eq!(n.id, 1);
    assert!(n.messages.is_empty());
}

#[test]
fn reply_ids_advance_once_per_acknowledged_reply() {
    let mut n = node("n1", &["n1"]);
    let outs = n
        .step(Event::Message(msg("c1", "n1", Some(10), Payload::Broadcast { message: 1 })))
        .unwrap();
    assert_eq!(outs[0].body.id, Some(1));
    assert_eq!(outs[0].body.in_reply_to, Some(10));
    let outs = n
        .step(Event::Message(msg("c1", "n1", Some(11), Payload::Broadcast { message: 2 })))
        .unwrap();
    assert_eq!(outs[0].body.id, Some(2));
    assert_eq!(outs[0].body.in_reply_to, Some(11));
    let outs = n.step(Event::Message(msg("c1", "n1", Some(12), Payload::Read))).unwrap();
    assert_eq!(outs[0].body.id, Some(3));
    assert_eq!(outs[0].body.in_reply_to, Some(12));
}
