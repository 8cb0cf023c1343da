//! The single-node broadcast responder: the broadcast wire protocol without
//! gossip. Values are stored in arrival order, duplicates and all, and the
//! topology assignment is acknowledged and otherwise ignored — with one node
//! there is nobody to gossip to.

use vstd::prelude::*;
use crate::protocol::{Body, Init, Message, is_reply_envelope};

verus! {

/// The application payload of the single-node broadcast protocol.
pub enum Payload {
    Broadcast { message: usize },
    BroadcastOk,
    Read,
    ReadOk { messages: Vec<usize> },
    Topology { topology: Vec<(String, Vec<String>)> },
    TopologyOk,
}

/// The single-node broadcast responder: the id counter, the values received
/// so far in order, and this node's own id.
pub struct SingleBroadcastNode {
    pub id: usize,
    pub messages: Vec<usize>,
    pub node: String,
}

impl SingleBroadcastNode {
    /// Construct the node from the initialization handshake: counter at 1,
    /// nothing received yet.
    pub fn from_init(init: Init) -> (n: SingleBroadcastNode)
        ensures
            n.id == 1,
            n.messages@ == Seq::<usize>::empty(),
            n.node == init.node_id,
    {
        SingleBroadcastNode { id: 1, messages: Vec::new(), node: init.node_id }
    }

    /// Consume one inbound message and return the envelopes to send: a
    /// `Broadcast` value is appended and acknowledged, a `Read` is answered
    /// with the values received so far, a `Topology` assignment is
    /// acknowledged and otherwise ignored, and acknowledgements are ignored.
    /// The id counter advances once per inbound message.
    pub fn step(&mut self, input: Message<Payload>) -> (outs: Vec<Message<Payload>>)
        requires
            old(self).id < usize::MAX,
        ensures
            final(self).id == old(self).id + 1,
            final(self).node == old(self).node,
            match input.body.payload {
                Payload::Broadcast { message } => {
                    &&& final(self).messages@ == old(self).messages@.push(message)
                    &&& outs@.len() == 1 && is_reply_envelope(outs@[0], input, old(self).id)
                        && outs@[0].body.payload is BroadcastOk
                },
                Payload::Read => {
                    &&& final(self).messages == old(self).messages
                    &&& outs@.len() == 1 && is_reply_envelope(outs@[0], input, old(self).id)
                        && (outs@[0].body.payload matches Payload::ReadOk { messages }
                        && messages@ == old(self).messages@)
                },
                Payload::Topology { .. } => {
                    &&& final(self).messages == old(self).messages
                    &&& outs@.len() == 1 && is_reply_envelope(outs@[0], input, old(self).id)
                        && outs@[0].body.payload is TopologyOk
                },
                _ => final(self).messages == old(self).messages && outs@.len() == 0,
            },
    {
        let mid: usize = self.id;
        self.id = self.id + 1;
        match input.body.payload {
            Payload::Broadcast { message } => {
                self.messages.push(message);
                let reply = Message {
                    src: input.dest,
                    dest: input.src,
                    body: Body {
                        id: Some(mid),
                        in_reply_to: input.body.id,
                        payload: Payload::BroadcastOk,
                    },
                };
                let mut outs: Vec<Message<Payload>> = Vec::new();
                outs.push(reply);
                outs
            },
            Payload::Read => {
                let snapshot = copy_values(&self.messages);
                let reply = Message {
                    src: input.dest,
                    dest: input.src,
                    body: Body {
                        id: Some(mid),
                        in_reply_to: input.body.id,
                        payload: Payload::ReadOk { messages: snapshot },
                    },
                };
                let mut outs: Vec<Message<Payload>> = Vec::new();
                outs.push(reply);
                outs
            },
            Payload::Topology { .. } => {
                let reply = Message {
                    src: input.dest,
                    dest: input.src,
                    body: Body {
                        id: Some(mid),
                        in_reply_to: input.body.id,
                        payload: Payload::TopologyOk,
                    },
                };
                let mut outs: Vec<Message<Payload>> = Vec::new();
                outs.push(reply);
                outs
            },
            _ => Vec::new(),
        }
    }
}

/// A copy of a vector of values.
fn copy_values(v: &Vec<usize>) -> (r: Vec<usize>)
    ensures
        r@ == v@,
{
    let mut r: Vec<usize> = Vec::new();
    let mut i: usize = 0;
    while i < v.len()
        invariant
            i <= v@.len(),
            r@ == v@.subrange(0, i as int),
        decreases v@.len() - i,
    {
        r.push(v[i]);
        i = i + 1;
    }
    proof {
        assert(v@.subrange(0, v@.len() as int) == v@);
    }
    r
}

} // verus!
