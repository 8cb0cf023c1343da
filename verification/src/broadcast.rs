//! The gossip broadcast node: a set of learned values disseminated over a
//! statically assigned topology by periodic anti-entropy gossip.
//!
//! The node keeps every value it has ever learned in `messages` (append-only,
//! duplicate-free, so the vector models a set), its gossip peers in
//! `topology`, and a per-peer `known` set used only to shrink gossip batches.
//! Merges are idempotent unions, so duplicate or reordered delivery never
//! corrupts state; convergence comes purely from repeated re-sends.

use vstd::prelude::*;
use crate::protocol::{Body, Event, Init, Message, is_reply_envelope};

verus! {

/// The application payload of the broadcast protocol.
pub enum Payload {
    Broadcast { message: usize },
    BroadcastOk,
    Read,
    ReadOk { messages: Vec<usize> },
    Topology { topology: TopologyMap },
    TopologyOk,
    Gossip { seen: Vec<usize> },
}

/// The out-of-band trigger fed to the node by a periodic timer.
pub enum InjectedPayload {
    Gossip,
}

/// The topology assignment: for each node id, the list of its gossip peers.
/// An association list; a lookup takes the first entry for a key.
pub struct TopologyMap {
    pub entries: Vec<(String, Vec<String>)>,
}

/// The peer list of the first entry for `name`, if any.
pub open spec fn topology_entry_of(
    entries: Seq<(String, Vec<String>)>,
    name: Seq<char>,
) -> Option<Seq<String>>
    decreases entries.len(),
{
    if entries.len() == 0 {
        None
    } else if entries[0].0@ == name {
        Some(entries[0].1@)
    } else {
        topology_entry_of(entries.drop_first(), name)
    }
}

impl TopologyMap {
    /// The map has an entry for `name`.
    pub open spec fn spec_contains(self, name: Seq<char>) -> bool {
        topology_entry_of(self.entries@, name) is Some
    }

    /// The peer list assigned to `name`.
    pub open spec fn spec_get(self, name: Seq<char>) -> Option<Seq<String>> {
        topology_entry_of(self.entries@, name)
    }
}

/// The per-peer belief of what the first entry for `name` already holds;
/// a peer without an entry is believed to hold nothing.
pub open spec fn known_entry_of(entries: Seq<(String, Vec<usize>)>, name: Seq<char>) -> Seq<usize>
    decreases entries.len(),
{
    if entries.len() == 0 {
        Seq::empty()
    } else if entries[0].0@ == name {
        entries[0].1@
    } else {
        known_entry_of(entries.drop_first(), name)
    }
}

/// `msgs` after learning `v`: appended if new, unchanged if already present.
pub open spec fn learn(msgs: Seq<usize>, v: usize) -> Seq<usize> {
    if msgs.contains(v) {
        msgs
    } else {
        msgs.push(v)
    }
}

/// `msgs` after merging the batch `seen`, value by value, in order.
pub open spec fn merged(msgs: Seq<usize>, seen: Seq<usize>) -> Seq<usize>
    decreases seen.len(),
{
    if seen.len() == 0 {
        msgs
    } else {
        learn(merged(msgs, seen.drop_last()), seen.last())
    }
}

/// The gossip batch for a peer: the values of `msgs` the peer is not already
/// believed to hold, in order.
pub open spec fn delta(msgs: Seq<usize>, known: Seq<usize>) -> Seq<usize>
    decreases msgs.len(),
{
    if msgs.len() == 0 {
        Seq::empty()
    } else {
        let rest = delta(msgs.drop_last(), known);
        if known.contains(msgs.last()) {
            rest
        } else {
            rest.push(msgs.last())
        }
    }
}

/// A sequence with no repeated element, so that it models a set exactly.
pub open spec fn no_dups(s: Seq<usize>) -> bool {
    forall|i: int, j: int| 0 <= i < j < s.len() ==> s[i] != s[j]
}

/// Processing a `Topology` assignment fails when the graph has no entry for
/// the local node: the node cannot gossip without peers.
#[derive(Debug)]
pub enum StepError {
    MissingTopologyEntry,
}

/// The gossip broadcast node state machine.
pub struct BroadcastNode {
    /// Monotonic counter for originated message ids; advanced once per
    /// inbound message processed.
    pub id: usize,
    /// This node's own id.
    pub node: String,
    /// Every value this node has ever learned, duplicate-free.
    pub messages: Vec<usize>,
    /// This node's gossip peers, assigned once by a `Topology` message.
    pub topology: Vec<String>,
    /// Per-peer belief of what that peer already holds.
    pub known: Vec<(String, Vec<usize>)>,
}

impl BroadcastNode {
    /// The learned values never repeat: the vector models a set.
    pub open spec fn wf(self) -> bool {
        no_dups(self.messages@)
    }

    /// The set of values this node has learned.
    pub open spec fn messages_set(self) -> Set<usize> {
        self.messages@.to_set()
    }

    /// What the node believes peer `name` already holds.
    pub open spec fn known_of(self, name: Seq<char>) -> Seq<usize> {
        known_entry_of(self.known@, name)
    }

    /// The gossip message this node sends to `peer` on a tick.
    pub open spec fn gossip_message_to(self, peer: String, m: Message<Payload>) -> bool {
        &&& m.src == self.node
        &&& m.dest == peer
        &&& m.body.id is None
        &&& m.body.in_reply_to is None
        &&& m.body.payload matches Payload::Gossip { seen }
            && seen@ == delta(self.messages@, self.known_of(peer@))
    }

    /// Construct the node from the initialization handshake: counter at 1, no
    /// values learned, no peers assigned yet, and every cluster member
    /// believed to hold nothing.
    pub fn from_init(init: Init) -> (n: BroadcastNode)
        ensures
            n.id == 1,
            n.node == init.node_id,
            n.messages@ == Seq::<usize>::empty(),
            n.topology@ == Seq::<String>::empty(),
            n.known@.len() == init.node_ids@.len(),
            forall|i: int|
                0 <= i < n.known@.len() ==> n.known@[i].0 == init.node_ids@[i]
                    && n.known@[i].1@ == Seq::<usize>::empty(),
            n.wf(),
    {
        let mut known: Vec<(String, Vec<usize>)> = Vec::new();
        let mut i: usize = 0;
        while i < init.node_ids.len()
            invariant
                i <= init.node_ids@.len(),
                known@.len() == i,
                forall|j: int|
                    0 <= j < i ==> known@[j].0 == init.node_ids@[j]
                        && known@[j].1@ == Seq::<usize>::empty(),
            decreases init.node_ids@.len() - i,
        {
            let name = init.node_ids[i].clone();
            let nothing_yet: Vec<usize> = Vec::new();
            known.push((name, nothing_yet));
            i = i + 1;
        }
        BroadcastNode {
            id: 1,
            node: init.node_id,
            messages: Vec::new(),
            topology: Vec::new(),
            known,
        }
    }
}

/// Whether `v` holds `x`.
fn contains_usize(v: &Vec<usize>, x: usize) -> (r: bool)
    ensures
        r == v@.contains(x),
{
    let mut i: usize = 0;
    while i < v.len()
        invariant
            i <= v@.len(),
            forall|j: int| 0 <= j < i ==> v@[j] != x,
        decreases v@.len() - i,
    {
        if v[i] == x {
            return true;
        }
        i = i + 1;
    }
    false
}

/// A copy of a vector of values.
fn clone_usize_vec(v: &Vec<usize>) -> (r: Vec<usize>)
    ensures
        r@ == v@,
{
    let mut r: Vec<usize> = Vec::new();
    let mut i: usize = 0;
    while i < v.len()
        invariant
            i <= v@.len(),
            r@ == v@.subrange(0, i as int),
        decreases v@.len() - i,
    {
        r.push(v[i]);
        i = i + 1;
    }
    proof {
        assert(v@.subrange(0, v@.len() as int) == v@);
    }
    r
}

/// A copy of a vector of node ids.
fn clone_string_vec(v: &Vec<String>) -> (r: Vec<String>)
    ensures
        r@ == v@,
{
    let mut r: Vec<String> = Vec::new();
    let mut i: usize = 0;
    while i < v.len()
        invariant
            i <= v@.len(),
            r@ == v@.subrange(0, i as int),
        decreases v@.len() - i,
    {
        r.push(v[i].clone());
        i = i + 1;
    }
    proof {
        assert(v@.subrange(0, v@.len() as int) == v@);
    }
    r
}

/// The values of `msgs` that are not in `known`, in order.
fn compute_delta(msgs: &Vec<usize>, known: &Vec<usize>) -> (r: Vec<usize>)
    ensures
        r@ == delta(msgs@, known@),
{
    let mut r: Vec<usize> = Vec::new();
    let mut i: usize = 0;
    while i < msgs.len()
        invariant
            i <= msgs@.len(),
            r@ == delta(msgs@.subrange(0, i as int), known@),
        decreases msgs@.len() - i,
    {
        proof {
            assert(msgs@.subrange(0, i + 1).drop_last() == msgs@.subrange(0, i as int));
            assert(msgs@.subrange(0, i + 1).last() == msgs@[i as int]);
        }
        if !contains_usize(known, msgs[i]) {
            r.push(msgs[i]);
        }
        i = i + 1;
    }
    proof {
        assert(msgs@.subrange(0, msgs@.len() as int) == msgs@);
    }
    r
}

/// Merge the batch `seen` into `msgs`: append each value not already present.
fn merge_into(msgs: &mut Vec<usize>, seen: &Vec<usize>)
    ensures
        final(msgs)@ == merged(old(msgs)@, seen@),
{
    let mut i: usize = 0;
    while i < seen.len()
        invariant
            i <= seen@.len(),
            msgs@ == merged(old(msgs)@, seen@.subrange(0, i as int)),
        decreases seen@.len() - i,
    {
        proof {
            assert(seen@.subrange(0, i + 1).drop_last() == seen@.subrange(0, i as int));
            assert(seen@.subrange(0, i + 1).last() == seen@[i as int]);
        }
        if !contains_usize(msgs, seen[i]) {
            msgs.push(seen[i]);
        }
        i = i + 1;
    }
    proof {
        assert(seen@.subrange(0, seen@.len() as int) == seen@);
    }
}

impl BroadcastNode {
    /// The first `known` entry for `name`, believed empty when absent.
    fn find_known(&self, name: &String) -> (r: Vec<usize>)
        ensures
            r@ == self.known_of(name@),
    {
        let mut i: usize = 0;
        proof {
            assert(self.known@.skip(0) == self.known@);
        }
        while i < self.known.len()
            invariant
                i <= self.known@.len(),
                known_entry_of(self.known@, name@) == known_entry_of(
                    self.known@.skip(i as int),
                    name@,
                ),
            decreases self.known@.len() - i,
        {
            proof {
                assert(self.known@.skip(i as int).drop_first() == self.known@.skip(i + 1));
                assert(self.known@.skip(i as int)[0] == self.known@[i as int]);
            }
            if self.known[i].0.eq(name) {
                return clone_usize_vec(&self.known[i].1);
            }
            i = i + 1;
        }
        proof {
            assert(self.known@.skip(self.known@.len() as int).len() == 0);
        }
        Vec::new()
    }

    /// The gossip messages of one tick: for each peer, the values it is not
    /// believed to hold, sent unacknowledged. The node's state is not touched.
    fn gossip_tick(&self) -> (outs: Vec<Message<Payload>>)
        ensures
            outs@.len() == self.topology@.len(),
            forall|i: int|
                0 <= i < outs@.len() ==> self.gossip_message_to(self.topology@[i], outs@[i]),
    {
        let mut outs: Vec<Message<Payload>> = Vec::new();
        let mut i: usize = 0;
        while i < self.topology.len()
            invariant
                i <= self.topology@.len(),
                outs@.len() == i,
                forall|j: int|
                    0 <= j < i ==> self.gossip_message_to(self.topology@[j], outs@[j]),
            decreases self.topology@.len() - i,
        {
            let peer = self.topology[i].clone();
            let known_to_peer = self.find_known(&peer);
            let seen = compute_delta(&self.messages, &known_to_peer);
            let m = Message {
                src: self.node.clone(),
                dest: peer,
                body: Body { id: None, in_reply_to: None, payload: Payload::Gossip { seen } },
            };
            outs.push(m);
            i = i + 1;
        }
        outs
    }

    /// Consume one event and return the envelopes to send.
    ///
    /// A `Broadcast` value is learned and acknowledged; a `Read` is answered
    /// with a snapshot of the learned values; the first `Topology` assignment
    /// fixes the peer list, and fails when the graph omits this node; an
    /// inbound `Gossip` batch is merged silently; acknowledgements are
    /// ignored. A gossip tick emits one unacknowledged batch per peer and
    /// leaves the state untouched. The id counter advances exactly once per
    /// acknowledged reply issued, and never for a gossip send.
    pub fn step(&mut self, input: Event<Payload, InjectedPayload>) -> (r: Result<
        Vec<Message<Payload>>,
        StepError,
    >)
        requires
            old(self).wf(),
            old(self).id < usize::MAX,
        ensures
            final(self).wf(),
            final(self).node == old(self).node,
            final(self).known == old(self).known,
            match input {
                Event::EOF => r matches Ok(outs) && outs@.len() == 0 && *final(self) == *old(
                    self,
                ),
                Event::Inject(InjectedPayload::Gossip) => {
                    &&& *final(self) == *old(self)
                    &&& r matches Ok(outs) && outs@.len() == old(self).topology@.len()
                        && forall|i: int|
                        0 <= i < outs@.len() ==> old(self).gossip_message_to(
                            old(self).topology@[i],
                            outs@[i],
                        )
                },
                Event::Message(m) => {
                    &&& final(self).messages@ == apply_payload(old(self).messages@, m.body.payload)
                    &&& match m.body.payload {
                        Payload::Broadcast { message } => {
                            &&& final(self).id == old(self).id + 1
                            &&& final(self).messages@ == learn(old(self).messages@, message)
                            &&& final(self).topology == old(self).topology
                            &&& r matches Ok(outs) && outs@.len() == 1 && is_reply_envelope(
                                outs@[0],
                                m,
                                old(self).id,
                            ) && outs@[0].body.payload is BroadcastOk
                        },
                        Payload::Read => {
                            &&& final(self).id == old(self).id + 1
                            &&& final(self).messages == old(self).messages
                            &&& final(self).topology == old(self).topology
                            &&& r matches Ok(outs) && outs@.len() == 1 && is_reply_envelope(
                                outs@[0],
                                m,
                                old(self).id,
                            ) && (outs@[0].body.payload matches Payload::ReadOk { messages }
                                && messages@ == old(self).messages@)
                        },
                        Payload::Topology { topology } => {
                            &&& final(self).messages == old(self).messages
                            &&& match topology.spec_get(old(self).node@) {
                                Some(peers) => {
                                    &&& final(self).id == old(self).id + 1
                                    &&& final(self).topology@ == peers
                                    &&& r matches Ok(outs) && outs@.len() == 1
                                        && is_reply_envelope(outs@[0], m, old(self).id)
                                        && outs@[0].body.payload is TopologyOk
                                },
                                None => {
                                    &&& final(self).id == old(self).id
                                    &&& final(self).topology == old(self).topology
                                    &&& r matches Err(e) && e is MissingTopologyEntry
                                },
                            }
                        },
                        Payload::Gossip { seen } => {
                            &&& final(self).id == old(self).id
                            &&& final(self).messages@ == merged(old(self).messages@, seen@)
                            &&& final(self).topology == old(self).topology
                            &&& r matches Ok(outs) && outs@.len() == 0
                        },
                        _ => {
                            &&& final(self).id == old(self).id
                            &&& final(self).messages == old(self).messages
                            &&& final(self).topology == old(self).topology
                            &&& r matches Ok(outs) && outs@.len() == 0
                        },
                    }
                },
            },
    {
        match input {
            Event::EOF => Ok(Vec::new()),
            Event::Inject(InjectedPayload::Gossip) => Ok(self.gossip_tick()),
            Event::Message(m) => {
                match m.body.payload {
                    Payload::Broadcast { message } => {
                        let mid: usize = self.id;
                        self.id = self.id + 1;
                        if !contains_usize(&self.messages, message) {
                            self.messages.push(message);
                        }
                        let reply = Message {
                            src: m.dest,
                            dest: m.src,
                            body: Body {
                                id: Some(mid),
                                in_reply_to: m.body.id,
                                payload: Payload::BroadcastOk,
                            },
                        };
                        let mut outs: Vec<Message<Payload>> = Vec::new();
                        outs.push(reply);
                        Ok(outs)
                    },
                    Payload::Read => {
                        let mid: usize = self.id;
                        self.id = self.id + 1;
                        let snapshot = clone_usize_vec(&self.messages);
                        let reply = Message {
                            src: m.dest,
                            dest: m.src,
                            body: Body {
                                id: Some(mid),
                                in_reply_to: m.body.id,
                                payload: Payload::ReadOk { messages: snapshot },
                            },
                        };
                        let mut outs: Vec<Message<Payload>> = Vec::new();
                        outs.push(reply);
                        Ok(outs)
                    },
                    Payload::Topology { topology } => {
                        match topology_get(&topology, &self.node) {
                            Some(peers) => {
                                let mid: usize = self.id;
                                self.id = self.id + 1;
                                self.topology = peers;
                                let reply = Message {
                                    src: m.dest,
                                    dest: m.src,
                                    body: Body {
                                        id: Some(mid),
                                        in_reply_to: m.body.id,
                                        payload: Payload::TopologyOk,
                                    },
                                };
                                let mut outs: Vec<Message<Payload>> = Vec::new();
                                outs.push(reply);
                                Ok(outs)
                            },
                            None => Err(StepError::MissingTopologyEntry),
                        }
                    },
                    Payload::Gossip { seen } => {
                        merge_into(&mut self.messages, &seen);
                        proof {
                            lemma_merged_no_dups(old(self).messages@, seen@);
                        }
                        Ok(Vec::new())
                    },
                    _ => Ok(Vec::new()),
                }
            },
        }
    }
}

/// The peer list of the first topology entry for `name`, if any.
fn topology_get(map: &TopologyMap, name: &String) -> (r: Option<Vec<String>>)
    ensures
        match r {
            Some(peers) => map.spec_get(name@) matches Some(p) && peers@ == p,
            None => map.spec_get(name@) is None,
        },
{
    let mut i: usize = 0;
    proof {
        assert(map.entries@.skip(0) == map.entries@);
    }
    while i < map.entries.len()
        invariant
            i <= map.entries@.len(),
            topology_entry_of(map.entries@, name@) == topology_entry_of(
                map.entries@.skip(i as int),
                name@,
            ),
        decreases map.entries@.len() - i,
    {
        proof {
            assert(map.entries@.skip(i as int).drop_first() == map.entries@.skip(i + 1));
            assert(map.entries@.skip(i as int)[0] == map.entries@[i as int]);
        }
        if map.entries[i].0.eq(name) {
            return Some(clone_string_vec(&map.entries[i].1));
        }
        i = i + 1;
    }
    proof {
        assert(map.entries@.skip(map.entries@.len() as int).len() == 0);
    }
    None
}

/// When every `known` entry is empty — as the constructor leaves them, and
/// `step` never touches them — every peer is believed to hold nothing, so a
/// gossip tick sends each peer the node's whole message set.
pub proof fn lemma_known_all_empty(entries: Seq<(String, Vec<usize>)>, name: Seq<char>)
    requires
        forall|i: int| 0 <= i < entries.len() ==> (#[trigger] entries[i]).1@ == Seq::<usize>::empty(),
    ensures
        known_entry_of(entries, name) == Seq::<usize>::empty(),
    decreases entries.len(),
{
    if entries.len() > 0 && entries[0].0@ != name {
        lemma_known_all_empty(entries.drop_first(), name);
    }
}

/// Merging keeps the learned values duplicate-free.
pub proof fn lemma_merged_no_dups(msgs: Seq<usize>, seen: Seq<usize>)
    requires
        no_dups(msgs),
    ensures
        no_dups(merged(msgs, seen)),
    decreases seen.len(),
{
    if seen.len() > 0 {
        lemma_merged_no_dups(msgs, seen.drop_last());
    }
}

/// Merging a batch adds exactly the batch's values: the result holds the
/// union of what was held and what was received.
pub proof fn lemma_merged_set(msgs: Seq<usize>, seen: Seq<usize>)
    ensures
        merged(msgs, seen).to_set() == msgs.to_set().union(seen.to_set()),
    decreases seen.len(),
{
    broadcast use vstd::seq_lib::lemma_seq_contains_after_push;

    if seen.len() == 0 {
        assert(seen.to_set() =~= Set::<usize>::empty());
        assert(merged(msgs, seen).to_set() =~= msgs.to_set().union(seen.to_set()));
    } else {
        let dl = seen.drop_last();
        let prev = merged(msgs, dl);
        lemma_merged_set(msgs, dl);
        assert forall|v: usize| seen.contains(v) implies dl.contains(v) || v == seen.last() by {
            let i = choose|i: int| 0 <= i < seen.len() && seen[i] == v;
            if i < seen.len() - 1 {
                assert(dl[i] == v);
            }
        }
        assert forall|v: usize| dl.contains(v) implies seen.contains(v) by {
            let i = choose|i: int| 0 <= i < dl.len() && dl[i] == v;
            assert(seen[i] == v);
        }
        assert(seen.contains(seen.last()));
        assert forall|v: usize| prev.contains(v) <==> msgs.contains(v) || dl.contains(v) by {
            assert(prev.to_set().contains(v) == msgs.to_set().union(dl.to_set()).contains(v));
        }
        assert(merged(msgs, seen).to_set() =~= msgs.to_set().union(seen.to_set()));
    }
}

/// A batch whose values are all already held merges to no change at all.
pub proof fn lemma_merged_absorbed(msgs: Seq<usize>, seen: Seq<usize>)
    requires
        forall|v: usize| seen.contains(v) ==> msgs.contains(v),
    ensures
        merged(msgs, seen) == msgs,
    decreases seen.len(),
{
    if seen.len() > 0 {
        assert forall|v: usize| seen.drop_last().contains(v) implies msgs.contains(v) by {
            let i = choose|i: int| 0 <= i < seen.drop_last().len() && seen.drop_last()[i] == v;
            assert(seen[i] == v);
        }
        lemma_merged_absorbed(msgs, seen.drop_last());
        assert(seen.contains(seen.last()));
    }
}

/// Idempotence: merging the same gossip batch twice leaves exactly the
/// messages that merging it once leaves.
pub proof fn lemma_merge_idempotent(msgs: Seq<usize>, seen: Seq<usize>)
    ensures
        merged(merged(msgs, seen), seen) == merged(msgs, seen),
{
    lemma_merged_set(msgs, seen);
    assert forall|v: usize| seen.contains(v) implies merged(msgs, seen).contains(v) by {
        assert(merged(msgs, seen).to_set().contains(v));
    }
    lemma_merged_absorbed(merged(msgs, seen), seen);
}

/// What one inbound payload does to the learned values: a broadcast value is
/// learned, a gossip batch is merged, everything else leaves them unchanged.
pub open spec fn apply_payload(msgs: Seq<usize>, p: Payload) -> Seq<usize> {
    match p {
        Payload::Broadcast { message } => learn(msgs, message),
        Payload::Gossip { seen } => merged(msgs, seen@),
        _ => msgs,
    }
}

/// The learned values after a whole sequence of inbound payloads, in order.
pub open spec fn apply_payloads(msgs: Seq<usize>, ps: Seq<Payload>) -> Seq<usize>
    decreases ps.len(),
{
    if ps.len() == 0 {
        msgs
    } else {
        apply_payload(apply_payloads(msgs, ps.drop_last()), ps.last())
    }
}

/// The values one inbound payload carries.
pub open spec fn payload_values(p: Payload) -> Set<usize> {
    match p {
        Payload::Broadcast { message } => Set::empty().insert(message),
        Payload::Gossip { seen } => seen@.to_set(),
        _ => Set::empty(),
    }
}

/// All values carried by a sequence of inbound payloads.
pub open spec fn all_payload_values(ps: Seq<Payload>) -> Set<usize> {
    Set::new(|v: usize| exists|p: Payload| ps.contains(p) && payload_values(p).contains(v))
}

/// One payload adds exactly the values it carries.
pub proof fn lemma_apply_payload_set(msgs: Seq<usize>, p: Payload)
    ensures
        apply_payload(msgs, p).to_set() == msgs.to_set().union(payload_values(p)),
{
    broadcast use vstd::seq_lib::lemma_seq_contains_after_push;

    match p {
        Payload::Broadcast { message } => {
            assert(learn(msgs, message).to_set() =~= msgs.to_set().union(
                Set::empty().insert(message),
            ));
        },
        Payload::Gossip { seen } => {
            lemma_merged_set(msgs, seen@);
        },
        _ => {
            assert(apply_payload(msgs, p).to_set() =~= msgs.to_set().union(payload_values(p)));
        },
    }
}

/// A sequence of payloads adds exactly the values the sequence carries.
pub proof fn lemma_apply_payloads_set(msgs: Seq<usize>, ps: Seq<Payload>)
    ensures
        apply_payloads(msgs, ps).to_set() == msgs.to_set().union(all_payload_values(ps)),
    decreases ps.len(),
{
    if ps.len() == 0 {
        assert(all_payload_values(ps) =~= Set::<usize>::empty());
        assert(apply_payloads(msgs, ps).to_set() =~= msgs.to_set().union(all_payload_values(ps)));
    } else {
        let init = ps.drop_last();
        lemma_apply_payloads_set(msgs, init);
        lemma_apply_payload_set(apply_payloads(msgs, init), ps.last());
        assert forall|p: Payload| ps.contains(p) implies init.contains(p) || p == ps.last() by {
            let i = choose|i: int| 0 <= i < ps.len() && ps[i] == p;
            if i < ps.len() - 1 {
                assert(init[i] == p);
            }
        }
        assert forall|p: Payload| init.contains(p) implies ps.contains(p) by {
            let i = choose|i: int| 0 <= i < init.len() && init[i] == p;
            assert(ps[i] == p);
        }
        assert(ps.contains(ps.last()));
        assert(all_payload_values(ps) =~= all_payload_values(init).union(
            payload_values(ps.last()),
        ));
        assert(apply_payloads(msgs, ps).to_set() =~= msgs.to_set().union(all_payload_values(ps)));
    }
}

/// Order-independence: any two orderings of the same broadcast and gossip
/// inputs leave a node with the same set of learned values.
pub proof fn lemma_order_independent(msgs: Seq<usize>, ps1: Seq<Payload>, ps2: Seq<Payload>)
    requires
        ps1.to_multiset() == ps2.to_multiset(),
    ensures
        apply_payloads(msgs, ps1).to_set() == apply_payloads(msgs, ps2).to_set(),
{
    broadcast use vstd::seq_lib::group_to_multiset_ensures;

    lemma_apply_payloads_set(msgs, ps1);
    lemma_apply_payloads_set(msgs, ps2);
    assert forall|p: Payload| ps1.contains(p) <==> ps2.contains(p) by {
        assert(ps1.contains(p) <==> ps1.to_multiset().count(p) > 0);
        assert(ps2.contains(p) <==> ps2.to_multiset().count(p) > 0);
    }
    assert(all_payload_values(ps1) =~= all_payload_values(ps2));
}

} // verus!
