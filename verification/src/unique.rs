//! The unique-id generator: answers every `Generate` request with an id that
//! no node of the cluster ever hands out twice, formed from the node's own
//! name and its monotonic counter.

use vstd::prelude::*;
use crate::protocol::{Body, Event, Init, Message, is_reply_envelope};

verus! {

/// The application payload of the unique-id protocol.
pub enum Payload {
    Generate,
    GenerateOk { guid: String },
}

/// The unique-id node: its own name and the monotonic id counter.
pub struct UniqueNode {
    pub id: usize,
    pub node: String,
}

/// The decimal digit `d` as a character.
pub open spec fn spec_digit(d: int) -> char {
    if d == 0 {
        '0'
    } else if d == 1 {
        '1'
    } else if d == 2 {
        '2'
    } else if d == 3 {
        '3'
    } else if d == 4 {
        '4'
    } else if d == 5 {
        '5'
    } else if d == 6 {
        '6'
    } else if d == 7 {
        '7'
    } else if d == 8 {
        '8'
    } else {
        '9'
    }
}

/// The decimal rendering of `n`, most significant digit first, no leading
/// zero except for zero itself.
pub open spec fn spec_decimal(n: int) -> Seq<char>
    decreases n,
{
    if n < 10 {
        seq![spec_digit(n)]
    } else {
        spec_decimal(n / 10).push(spec_digit(n % 10))
    }
}

/// The unique id a node named `node` forms at counter value `id`: the name,
/// a dash, and the counter in decimal.
pub open spec fn spec_guid(node: Seq<char>, id: int) -> Seq<char> {
    node + seq!['-'] + spec_decimal(id)
}

/// The decimal digit `d` as a one-character string slice.
fn digit_str(d: usize) -> (r: &'static str)
    requires
        d < 10,
    ensures
        r@ == seq![spec_digit(d as int)],
{
    if d == 0 {
        proof {
            reveal_strlit("0");
        }
        "0"
    } else if d == 1 {
        proof {
            reveal_strlit("1");
        }
        "1"
    } else if d == 2 {
        proof {
            reveal_strlit("2");
        }
        "2"
    } else if d == 3 {
        proof {
            reveal_strlit("3");
        }
        "3"
    } else if d == 4 {
        proof {
            reveal_strlit("4");
        }
        "4"
    } else if d == 5 {
        proof {
            reveal_strlit("5");
        }
        "5"
    } else if d == 6 {
        proof {
            reveal_strlit("6");
        }
        "6"
    } else if d == 7 {
        proof {
            reveal_strlit("7");
        }
        "7"
    } else if d == 8 {
        proof {
            reveal_strlit("8");
        }
        "8"
    } else {
        proof {
            reveal_strlit("9");
        }
        "9"
    }
}

/// Append the decimal rendering of `n` to `s`.
fn push_decimal(s: &mut String, n: usize)
    ensures
        final(s)@ == old(s)@ + spec_decimal(n as int),
    decreases n,
{
    if n < 10 {
        s.append(digit_str(n));
    } else {
        push_decimal(s, n / 10);
        s.append(digit_str(n % 10));
        proof {
            assert(old(s)@ + spec_decimal(n as int) =~= old(s)@ + spec_decimal(n as int / 10)
                + seq![spec_digit(n as int % 10)]);
        }
    }
}

impl UniqueNode {
    /// Construct the node from the initialization handshake: counter at 1,
    /// named after this node's own id.
    pub fn from_init(init: Init) -> (n: UniqueNode)
        ensures
            n.id == 1,
            n.node == init.node_id,
    {
        UniqueNode { id: 1, node: init.node_id }
    }

    /// Consume one inbound message and return the envelopes to send: a
    /// `Generate` request is answered with `GenerateOk` carrying this node's
    /// name, a dash, and the counter value after the advance — unique
    /// cluster-wide because node names are unique and the counter never
    /// repeats. An inbound `GenerateOk` is ignored. The id counter advances
    /// once per inbound message. The node registers no injected events and
    /// the network source outlives it, so the event must be a message.
    pub fn step(&mut self, input: Event<Payload, ()>) -> (outs: Vec<Message<Payload>>)
        requires
            old(self).id < usize::MAX,
            input is Message,
        ensures
            final(self).id == old(self).id + 1,
            final(self).node == old(self).node,
            match input {
                Event::Message(m) => match m.body.payload {
                    Payload::Generate => outs@.len() == 1 && is_reply_envelope(
                        outs@[0],
                        m,
                        old(self).id,
                    ) && (outs@[0].body.payload matches Payload::GenerateOk { guid } && guid@
                        == spec_guid(old(self).node@, old(self).id + 1)),
                    Payload::GenerateOk { .. } => outs@.len() == 0,
                },
                _ => false,
            },
    {
        match input {
            Event::Message(m) => {
                let mid: usize = self.id;
                self.id = self.id + 1;
                match m.body.payload {
                    Payload::Generate => {
                        let mut guid = self.node.clone();
                        proof {
                            reveal_strlit("-");
                        }
                        guid.append("-");
                        push_decimal(&mut guid, self.id);
                        proof {
                            assert(guid@ =~= spec_guid(self.node@, mid + 1));
                        }
                        let reply = Message {
                            src: m.dest,
                            dest: m.src,
                            body: Body {
                                id: Some(mid),
                                in_reply_to: m.body.id,
                                payload: Payload::GenerateOk { guid },
                            },
                        };
                        let mut outs: Vec<Message<Payload>> = Vec::new();
                        outs.push(reply);
                        outs
                    },
                    Payload::GenerateOk { .. } => Vec::new(),
                }
            },
            _ => Vec::new(),
        }
    }
}

} // verus!
