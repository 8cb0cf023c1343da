//! The echo responder: a stateless request/reply node that answers every
//! `Echo` request with an `EchoOk` carrying the same text.

use vstd::prelude::*;
use crate::protocol::{Event, Init, Message, is_reply_envelope};

verus! {

/// The application payload of the echo protocol.
pub enum Payload {
    Echo { echo: String },
    EchoOk { echo: String },
}

/// The echo node: nothing but the monotonic id counter.
pub struct EchoNode {
    pub id: usize,
}

impl EchoNode {
    /// Construct the node from the initialization handshake: counter at 1.
    pub fn from_init(_init: Init) -> (n: EchoNode)
        ensures
            n.id == 1,
    {
        EchoNode { id: 1 }
    }

    /// Consume one inbound message and return the envelopes to send: an
    /// `Echo` request is answered with `EchoOk` carrying the same text, an
    /// inbound `EchoOk` is ignored. The id counter advances once per inbound
    /// message. The echo node registers no injected events and the network
    /// source outlives it, so the event must be a message.
    pub fn step(&mut self, input: Event<Payload, ()>) -> (outs: Vec<Message<Payload>>)
        requires
            old(self).id < usize::MAX,
            input is Message,
        ensures
            final(self).id == old(self).id + 1,
            match input {
                Event::Message(m) => match m.body.payload {
                    Payload::Echo { echo } => outs@.len() == 1 && is_reply_envelope(
                        outs@[0],
                        m,
                        old(self).id,
                    ) && (outs@[0].body.payload matches Payload::EchoOk { echo: e } && e == echo),
                    Payload::EchoOk { .. } => outs@.len() == 0,
                },
                _ => false,
            },
    {
        match input {
            Event::Message(m) => {
                let reply = m.into_reply(&mut self.id);
                match reply.body.payload {
                    Payload::Echo { echo } => {
                        let ack = Message {
                            src: reply.src,
                            dest: reply.dest,
                            body: crate::protocol::Body {
                                id: reply.body.id,
                                in_reply_to: reply.body.in_reply_to,
                                payload: Payload::EchoOk { echo },
                            },
                        };
                        let mut outs: Vec<Message<Payload>> = Vec::new();
                        outs.push(ack);
                        outs
                    },
                    Payload::EchoOk { .. } => Vec::new(),
                }
            },
            _ => Vec::new(),
        }
    }
}

} // verus!
