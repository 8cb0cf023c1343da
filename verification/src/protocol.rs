//! The envelope protocol: the wire-level message shape shared by every node,
//! and the initialization handshake that precedes all other traffic.

use vstd::prelude::*;

verus! {

/// The body of a message: an optional monotonic id (present on originated
/// messages), an optional reply correlation, and the application payload.
pub struct Body<P> {
    pub id: Option<usize>,
    pub in_reply_to: Option<usize>,
    pub payload: P,
}

/// One complete message unit: source node, destination node, and body.
pub struct Message<P> {
    pub src: String,
    pub dest: String,
    pub body: Body<P>,
}

/// Cluster membership as delivered by the harness exactly once, first.
pub struct Init {
    pub node_id: String,
    pub node_ids: Vec<String>,
}

/// The payload of the initialization handshake.
pub enum InitPayload {
    Init(Init),
    InitOk,
}

/// One event consumed by a node state machine: an inbound message, an
/// internally injected trigger, or exhaustion of the network source.
pub enum Event<P, I> {
    Message(Message<P>),
    Inject(I),
    EOF,
}

/// `r` is the reply envelope to request `m`, carrying originated id `mid`:
/// endpoints swapped, `in_reply_to` echoing the request's id.
pub open spec fn is_reply_envelope<P>(r: Message<P>, m: Message<P>, mid: usize) -> bool {
    &&& r.src == m.dest
    &&& r.dest == m.src
    &&& r.body.id == Some(mid)
    &&& r.body.in_reply_to == m.body.id
}

impl<P> Message<P> {
    /// Turn a request into its reply: source and destination swapped,
    /// `in_reply_to` set to the request's id, a fresh id drawn from the
    /// counter, and the counter advanced by one.
    pub fn into_reply(self, id: &mut usize) -> (r: Message<P>)
        requires
            *old(id) < usize::MAX,
        ensures
            is_reply_envelope(r, self, *old(id)),
            r.body.payload == self.body.payload,
            *final(id) == *old(id) + 1,
    {
        let mid: usize = *id;
        *id = *id + 1;
        Message {
            src: self.dest,
            dest: self.src,
            body: Body { id: Some(mid), in_reply_to: self.body.id, payload: self.body.payload },
        }
    }

    /// Turn a request into an unacknowledged reply: no id-assigning counter is
    /// supplied, so the reply carries no id of its own. Used for
    /// fire-and-forget sends where no answer is ever expected.
    pub fn into_reply_without_id(self) -> (r: Message<P>)
        ensures
            r.src == self.dest,
            r.dest == self.src,
            r.body.id is None,
            r.body.in_reply_to == self.body.id,
            r.body.payload == self.body.payload,
    {
        Message {
            src: self.dest,
            dest: self.src,
            body: Body { id: None, in_reply_to: self.body.id, payload: self.body.payload },
        }
    }
}

/// The first inbound record was not an `Init` request.
#[derive(Debug)]
pub enum HandshakeError {
    NotInit,
}

/// Process the initialization handshake: the first inbound record must carry
/// `Init`; the node acknowledges it with `InitOk`, `msg_id` 0, before any
/// other output. Returns the cluster configuration and the acknowledgement,
/// or an error if the first record is not `Init`.
pub fn init_handshake(msg: Message<InitPayload>) -> (r: Result<
    (Init, Message<InitPayload>),
    HandshakeError,
>)
    ensures
        match r {
            Ok(p) => {
                &&& msg.body.payload matches InitPayload::Init(init) && p.0 == init
                &&& is_reply_envelope(p.1, msg, 0usize)
                &&& p.1.body.payload is InitOk
            },
            Err(e) => msg.body.payload is InitOk && e is NotInit,
        },
{
    let Message { src, dest, body } = msg;
    match body.payload {
        InitPayload::Init(init) => {
            let reply = Message {
                src: dest,
                dest: src,
                body: Body { id: Some(0), in_reply_to: body.id, payload: InitPayload::InitOk },
            };
            Ok((init, reply))
        },
        InitPayload::InitOk => Err(HandshakeError::NotInit),
    }
}

} // verus!
