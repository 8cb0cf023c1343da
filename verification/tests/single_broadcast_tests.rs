use dist_sys_challenges::protocol::{Body, Init, Message};
use dist_sys_challenges::single_broadcast::{Payload, SingleBroadcastNode};

fn msg(id: Option<usize>, payload: Payload) -> Message<Payload> {
    Message {
        src: "c1".to_string(),
        dest: "n1".to_string(),
        body: Body { id, in_reply_to: None, payload },
    }
}

#[test]
fn single_node_broadcast_then_read() {
    let mut n = SingleBroadcastNode::from_init(Init {
        node_id: "n1".to_string(),
        node_ids: vec!["n1".to_string()],
    });
    let outs = n.step(msg(Some(2), Payload::Broadcast { message: 5 }));
    assert_eq!(outs.len(), 1);
    assert_eq!(outs[0].body.id, Some(1));
    assert_eq!(outs[0].body.in_reply_to, Some(2));
    assert!(matches!(outs[0].body.payload, Payload::BroadcastOk));

    let outs = n.step(msg(Some(3), Payload::Read));
    assert_eq!(outs[0].body.id, Some(2));
    assert_eq!(outs[0].body.in_reply_to, Some(3));
    match &outs[0].body.payload {
        Payload::ReadOk { messages } => assert_eq!(messages, &vec![5]),
        _ => panic!("expected ReadOk"),
    }
}

#[test]
fn single_node_keeps_duplicates_in_order() {
    let mut n = SingleBroadcastNode::from_init(Init {
        node_id: "n1".to_string(),
        node_ids: vec!["n1".to_string()],
    });
    n.step(msg(Some(1), Payload::Broadcast { message: 5 }));
    n.step(msg(Some(2), Payload::Broadcast { message: 3 }));
    n.step(msg(Some(3), Payload::Broadcast { message: 5 }));
    assert_eq!(n.messages, vec![5, 3, 5]);
}

#[test]
fn single_node_acknowledges_any_topology() {
    let mut n = SingleBroadcastNode::from_init(Init {
        node_id: "n1".to_string(),
        node_ids: vec!["n1".to_string()],
    });
    let outs = n.step(msg(Some(1), Payload::Topology { topology: Vec::new() }));
    assert_eq!(outs.len(), 1);
    assert!(matches!(outs[0].body.payload, Payload::TopologyOk));

    let outs = n.step(msg(Some(2), Payload::BroadcastOk));
    assert!(outs.is_empty());
    assert_eq!(n.id, 3);
}
