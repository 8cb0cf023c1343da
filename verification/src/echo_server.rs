//! The standalone echo server: an echo responder that also answers its own
//! initialization handshake inline instead of leaving it to the runtime.

use vstd::prelude::*;
use crate::protocol::{Body, Message, is_reply_envelope};

verus! {

/// The payload union of the standalone echo server, initialization included.
pub enum Payload {
    Echo { echo: String },
    EchoOk { echo: String },
    Init { node_id: String, node_ids: Vec<String> },
    InitOk,
}

/// Receiving `InitOk` violates the harness contract: the server never sends
/// `Init`, so nothing may acknowledge one.
#[derive(Debug)]
pub enum StepError {
    ReceivedInitOk,
}

/// The standalone echo server: nothing but the monotonic id counter.
pub struct EchoNode {
    pub id: usize,
}

impl EchoNode {
    /// Consume one inbound message and return the envelopes to send: `Init`
    /// is acknowledged with `InitOk`, `Echo` with `EchoOk` carrying the same
    /// text, an inbound `EchoOk` is ignored, and an inbound `InitOk` is an
    /// error. The id counter advances once per reply issued.
    pub fn step(&mut self, input: Message<Payload>) -> (r: Result<
        Vec<Message<Payload>>,
        StepError,
    >)
        requires
            old(self).id < usize::MAX,
        ensures
            match input.body.payload {
                Payload::Init { .. } => {
                    &&& final(self).id == old(self).id + 1
                    &&& r matches Ok(outs) && outs@.len() == 1 && is_reply_envelope(
                        outs@[0],
                        input,
                        old(self).id,
                    ) && outs@[0].body.payload is InitOk
                },
                Payload::InitOk => final(self).id == old(self).id && (r matches Err(e) && e
                    is ReceivedInitOk),
                Payload::Echo { echo } => {
                    &&& final(self).id == old(self).id + 1
                    &&& r matches Ok(outs) && outs@.len() == 1 && is_reply_envelope(
                        outs@[0],
                        input,
                        old(self).id,
                    ) && (outs@[0].body.payload matches Payload::EchoOk { echo: e } && e == echo)
                },
                Payload::EchoOk { .. } => final(self).id == old(self).id && (r matches Ok(outs)
                    && outs@.len() == 0),
            },
    {
        match input.body.payload {
            Payload::Init { .. } => {
                let reply = Message {
                    src: input.dest,
                    dest: input.src,
                    body: Body {
                        id: Some(self.id),
                        in_reply_to: input.body.id,
                        payload: Payload::InitOk,
                    },
                };
                self.id = self.id + 1;
                let mut outs: Vec<Message<Payload>> = Vec::new();
                outs.push(reply);
                Ok(outs)
            },
            Payload::InitOk => Err(StepError::ReceivedInitOk),
            Payload::Echo { echo } => {
                let reply = Message {
                    src: input.dest,
                    dest: input.src,
                    body: Body {
                        id: Some(self.id),
                        in_reply_to: input.body.id,
                        payload: Payload::EchoOk { echo },
                    },
                };
                self.id = self.id + 1;
                let mut outs: Vec<Message<Payload>> = Vec::new();
                outs.push(reply);
                Ok(outs)
            },
            Payload::EchoOk { .. } => Ok(Vec::new()),
        }
    }
}

} // verus!
