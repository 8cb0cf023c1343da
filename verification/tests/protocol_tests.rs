use dist_sys_challenges::echo;
use dist_sys_challenges::echo_server;
use dist_sys_challenges::protocol::{Body, Event, Init, InitPayload, Message, init_handshake};
use dist_sys_challenges::unique;

#[test]
fn init_handshake_acknowledges_with_id_zero() {
    let m = Message {
        src: "c1".to_string(),
        dest: "n1".to_string(),
        body: Body {
            id: Some(1),
            in_reply_to: None,
            payload: InitPayload::Init(Init {
                node_id: "n1".to_string(),
                node_ids: vec!["n1".to_string()],
            }),
        },
    };
    let (init, reply) = init_handshake(m).unwrap();
    assert_eq!(init.node_id, "n1");
    assert_eq!(init.node_ids, vec!["n1".to_string()]);
    assert_eq!(reply.src, "n1");
    assert_eq!(reply.dest, "c1");
    assert_eq!(reply.body.id, Some(0));
    assert_eq!(reply.body.in_reply_to, Some(1));
    assert!(matches!(reply.body.payload, InitPayload::InitOk));
}

#[test]
fn init_handshake_rejects_a_first_record_that_is_not_init() {
    let m = Message {
        src: "c1".to_string(),
        dest: "n1".to_string(),
        body: Body { id: Some(1), in_reply_to: None, payload: InitPayload::InitOk },
    };
    assert!(init_handshake(m).is_err());
}

#[test]
fn into_reply_correlates_and_advances_the_counter() {
    let m = Message {
        src: "c1".to_string(),
        dest: "n1".to_string(),
        body: Body { id: Some(7), in_reply_to: None, payload: 42u8 },
    };
    let mut counter: usize = 3;
    let r = m.into_reply(&mut counter);
    assert_eq!(r.src, "n1");
    assert_eq!(r.dest, "c1");
    assert_eq!(r.body.id, Some(3));
    assert_eq!(r.body.in_reply_to, Some(7));
    assert_eq!(r.body.payload, 42u8);
    assert_eq!(counter, 4);
}

#[test]
fn into_reply_without_id_carries_none() {
    let m = Message {
        src: "c1".to_string(),
        dest: "n1".to_string(),
        body: Body { id: Some(7), in_reply_to: None, payload: 0u8 },
    };
    let r = m.into_reply_without_id();
    assert_eq!(r.body.id, None);
    assert_eq!(r.body.in_reply_to, Some(7));
}

#[test]
fn echo_replies_with_the_same_text() {
    let mut n = echo::EchoNode::from_init(Init {
        node_id: "n1".to_string(),
        node_ids: vec!["n1".to_string()],
    });
    let m = Message {
        src: "c1".to_string(),
        dest: "n1".to_string(),
        body: Body {
            id: Some(1),
            in_reply_to: None,
            payload: echo::Payload::Echo { echo: "hello".to_string() },
        },
    };
    let outs = n.step(Event::Message(m));
    assert_eq!(outs.len(), 1);
    assert_eq!(outs[0].src, "n1");
    assert_eq!(outs[0].dest, "c1");
    assert_eq!(outs[0].body.id, Some(1));
    assert_eq!(outs[0].body.in_reply_to, Some(1));
    match &outs[0].body.payload {
        echo::Payload::EchoOk { echo } => assert_eq!(echo, "hello"),
        _ => panic!("expected EchoOk"),
    }
    assert_eq!(n.id, 2);
}

#[test]
fn echo_server_answers_init_then_echo() {
    let mut n = echo_server::EchoNode { id: 0 };
    let m = Message {
        src: "c1".to_string(),
        dest: "n1".to_string(),
        body: Body {
            id: Some(1),
            in_reply_to: None,
            payload: echo_server::Payload::Init {
                node_id: "n1".to_string(),
                node_ids: vec!["n1".to_string()],
            },
        },
    };
    let outs = n.step(m).unwrap();
    assert_eq!(outs.len(), 1);
    assert_eq!(outs[0].body.id, Some(0));
    assert_eq!(outs[0].body.in_reply_to, Some(1));
    assert!(matches!(outs[0].body.payload, echo_server::Payload::InitOk));

    let m = Message {
        src: "c1".to_string(),
        dest: "n1".to_string(),
        body: Body {
            id: Some(2),
            in_reply_to: None,
            payload: echo_server::Payload::Echo { echo: "hi".to_string() },
        },
    };
    let outs = n.step(m).unwrap();
    assert_eq!(outs[0].body.id, Some(1));
    assert_eq!(outs[0].body.in_reply_to, Some(2));
    match &outs[0].body.payload {
        echo_server::Payload::EchoOk { echo } => assert_eq!(echo, "hi"),
        _ => panic!("expected EchoOk"),
    }
}

#[test]
fn echo_server_rejects_an_inbound_init_ok() {
    let mut n = echo_server::EchoNode { id: 0 };
    let m = Message {
        src: "c1".to_string(),
        dest: "n1".to_string(),
        body: Body { id: Some(1), in_reply_to: None, payload: echo_server::Payload::InitOk },
    };
    assert!(matches!(n.step(m), Err(echo_server::StepError::ReceivedInitOk)));
}

#[test]
fn unique_ids_carry_the_node_name_and_counter() {
    let mut n = unique::UniqueNode::from_init(Init {
        node_id: "n3".to_string(),
        node_ids: vec!["n3".to_string()],
    });
    let m = Message {
        src: "c1".to_string(),
        dest: "n3".to_string(),
        body: Body { id: Some(1), in_reply_to: None, payload: unique::Payload::Generate },
    };
    let outs = n.step(Event::Message(m));
    assert_eq!(outs.len(), 1);
    assert_eq!(outs[0].body.id, Some(1));
    assert_eq!(outs[0].body.in_reply_to, Some(1));
    match &outs[0].body.payload {
        unique::Payload::GenerateOk { guid } => assert_eq!(guid, "n3-2"),
        _ => panic!("expected GenerateOk"),
    }

    let m = Message {
        src: "c1".to_string(),
        dest: "n3".to_string(),
        body: Body { id: Some(2), in_reply_to: None, payload: unique::Payload::Generate },
    };
    let outs = n.step(Event::Message(m));
    match &outs[0].body.payload {
        unique::Payload::GenerateOk { guid } => assert_eq!(guid, "n3-3"),
        _ => panic!("expected GenerateOk"),
    }
}

#[test]
fn unique_ids_render_multi_digit_counters() {
    let mut n = unique::UniqueNode { id: 105, node: "n1".to_string() };
    let m = Message {
        src: "c1".to_string(),
        dest: "n1".to_string(),
        body: Body { id: Some(1), in_reply_to: None, payload: unique::Payload::Generate },
    };
    let outs = n.step(Event::Message(m));
    assert_eq!(outs[0].body.id, Some(105));
    match &outs[0].body.payload {
        unique::Payload::GenerateOk { guid } => assert_eq!(guid, "n1-106"),
        _ => panic!("expected GenerateOk"),
    }
    assert_eq!(n.id, 106);
}
