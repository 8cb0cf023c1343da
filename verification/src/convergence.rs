//! Convergence of the gossip protocol.
//!
//! The cluster is modelled by the sequence of the nodes' message sets. One
//! anti-entropy delivery — a gossip tick at one node whose batch a peer then
//! merges — replaces the peer's set by the union of the two sets; this is
//! exactly what a tick and a merge do at the node level when the sender
//! believes the peer holds nothing (see `lemma_gossip_delivery_is_union`).
//! Delivery never loses a value, never invents one, and carries values along
//! any gossip path; when every node has a path to a node `b`, a finite run of
//! deliveries leaves `b` holding exactly the union of every value held
//! anywhere. Repeated unbounded ticks over a connected topology produce such
//! runs over and over, so every node converges to the cluster-wide union.

use vstd::prelude::*;
use crate::broadcast::{BroadcastNode, Payload, delta, merged, lemma_merged_set};
use crate::protocol::Message;

verus! {

/// One anti-entropy delivery along the edge `e`: the node `e.1` merges
/// everything the node `e.0` holds.
pub open spec fn deliver(sets: Seq<Set<usize>>, e: (int, int)) -> Seq<Set<usize>> {
    sets.update(e.1, sets[e.1].union(sets[e.0]))
}

/// Both endpoints of `e` are nodes of a cluster of `n` members.
pub open spec fn valid_edge(n: int, e: (int, int)) -> bool {
    0 <= e.0 < n && 0 <= e.1 < n
}

/// Every edge of `route` stays inside a cluster of `n` members.
pub open spec fn valid_route(n: int, route: Seq<(int, int)>) -> bool {
    forall|t: int| 0 <= t < route.len() ==> valid_edge(n, #[trigger] route[t])
}

/// The cluster after delivering along every edge of `route`, in order.
pub open spec fn deliver_route(sets: Seq<Set<usize>>, route: Seq<(int, int)>) -> Seq<
    Set<usize>,
>
    decreases route.len(),
{
    if route.len() == 0 {
        sets
    } else {
        deliver_route(deliver(sets, route[0]), route.drop_first())
    }
}

/// Consecutive edges of `route` are chained: each starts where the one
/// before it ended.
pub open spec fn is_path(route: Seq<(int, int)>) -> bool {
    forall|t: int| 0 <= t < route.len() - 1 ==> (#[trigger] route[t]).1 == route[t + 1].0
}

/// Every value held anywhere in the cluster.
pub open spec fn union_all(sets: Seq<Set<usize>>) -> Set<usize> {
    Set::new(|v: usize| exists|k: int| 0 <= k < sets.len() && (#[trigger] sets[k]).contains(v))
}

/// Delivery does not change the cluster's size.
pub proof fn lemma_deliver_route_len(sets: Seq<Set<usize>>, route: Seq<(int, int)>)
    requires
        valid_route(sets.len() as int, route),
    ensures
        deliver_route(sets, route).len() == sets.len(),
    decreases route.len(),
{
    if route.len() > 0 {
        let s1 = deliver(sets, route[0]);
        assert(valid_edge(sets.len() as int, route[0]));
        assert(s1.len() == sets.len());
        assert(valid_route(s1.len() as int, route.drop_first()));
        lemma_deliver_route_len(s1, route.drop_first());
        assert(deliver_route(sets, route) == deliver_route(s1, route.drop_first()));
    }
}

/// Delivery never removes a value: every node's set only grows.
pub proof fn lemma_deliver_route_monotone(sets: Seq<Set<usize>>, route: Seq<(int, int)>, k: int)
    requires
        valid_route(sets.len() as int, route),
        0 <= k < sets.len(),
    ensures
        sets[k].subset_of(deliver_route(sets, route)[k]),
    decreases route.len(),
{
    if route.len() > 0 {
        let s1 = deliver(sets, route[0]);
        assert(valid_route(s1.len() as int, route.drop_first()));
        lemma_deliver_route_monotone(s1, route.drop_first(), k);
    }
}

/// Delivery never invents a value: a cluster whose sets all lie within `u`
/// keeps every set within `u`.
pub proof fn lemma_deliver_route_bounded(sets: Seq<Set<usize>>, route: Seq<(int, int)>, u: Set<usize>)
    requires
        valid_route(sets.len() as int, route),
        forall|k: int| 0 <= k < sets.len() ==> (#[trigger] sets[k]).subset_of(u),
    ensures
        forall|k: int|
            0 <= k < sets.len() ==> (#[trigger] deliver_route(sets, route)[k]).subset_of(u),
    decreases route.len(),
{
    if route.len() > 0 {
        let s1 = deliver(sets, route[0]);
        assert(valid_edge(sets.len() as int, route[0]));
        assert(s1.len() == sets.len());
        assert(valid_route(s1.len() as int, route.drop_first()));
        assert(forall|k: int| 0 <= k < s1.len() ==> (#[trigger] s1[k]).subset_of(u));
        lemma_deliver_route_bounded(s1, route.drop_first(), u);
        assert(deliver_route(sets, route) == deliver_route(s1, route.drop_first()));
    }
}

/// Delivering along a gossip path carries the start node's values to the end
/// node.
pub proof fn lemma_path_propagates(sets: Seq<Set<usize>>, route: Seq<(int, int)>)
    requires
        valid_route(sets.len() as int, route),
        is_path(route),
        route.len() > 0,
    ensures
        sets[route[0].0].subset_of(deliver_route(sets, route)[route[route.len() - 1].1]),
    decreases route.len(),
{
    let s1 = deliver(sets, route[0]);
    assert(valid_edge(sets.len() as int, route[0]));
    assert(s1.len() == sets.len());
    let rest = route.drop_first();
    assert(deliver_route(sets, route) == deliver_route(s1, rest));
    if route.len() == 1 {
        assert(deliver_route(s1, rest) == s1);
        assert(sets[route[0].0].subset_of(s1[route[0].1]));
    } else {
        assert(valid_route(s1.len() as int, rest));
        assert(is_path(rest));
        assert(rest[0].0 == route[0].1);
        lemma_path_propagates(s1, rest);
        assert(sets[route[0].0].subset_of(s1[route[0].1]));
        assert(s1[rest[0].0].subset_of(deliver_route(s1, rest)[rest[rest.len() - 1].1]));
        assert(rest[rest.len() - 1] == route[route.len() - 1]);
    }
}

/// Delivering along a concatenation of routes is delivering along the first,
/// then along the second.
pub proof fn lemma_deliver_route_concat(
    sets: Seq<Set<usize>>,
    r1: Seq<(int, int)>,
    r2: Seq<(int, int)>,
)
    ensures
        deliver_route(sets, r1 + r2) == deliver_route(deliver_route(sets, r1), r2),
    decreases r1.len(),
{
    if r1.len() == 0 {
        assert(r1 + r2 =~= r2);
    } else {
        assert((r1 + r2)[0] == r1[0]);
        assert((r1 + r2).drop_first() =~= r1.drop_first() + r2);
        lemma_deliver_route_concat(deliver(sets, r1[0]), r1.drop_first(), r2);
    }
}

/// The concatenation of a sequence of routes, in order.
pub open spec fn concat_routes(paths: Seq<Seq<(int, int)>>) -> Seq<(int, int)>
    decreases paths.len(),
{
    if paths.len() == 0 {
        Seq::empty()
    } else {
        paths[0] + concat_routes(paths.drop_first())
    }
}

/// A concatenation of valid routes is a valid route.
pub proof fn lemma_concat_routes_valid(n: int, paths: Seq<Seq<(int, int)>>)
    requires
        forall|t: int| 0 <= t < paths.len() ==> valid_route(n, #[trigger] paths[t]),
    ensures
        valid_route(n, concat_routes(paths)),
    decreases paths.len(),
{
    if paths.len() > 0 {
        lemma_concat_routes_valid(n, paths.drop_first());
    }
}

/// Running one gossip path per listed start node, in turn, leaves `b` holding
/// every value each start node held.
proof fn lemma_paths_cover(
    sets: Seq<Set<usize>>,
    b: int,
    paths: Seq<Seq<(int, int)>>,
    starts: Seq<int>,
)
    requires
        0 <= b < sets.len(),
        paths.len() == starts.len(),
        forall|t: int|
            0 <= t < paths.len() ==> {
                let p = #[trigger] paths[t];
                &&& valid_route(sets.len() as int, p)
                &&& is_path(p)
                &&& p.len() > 0
                &&& p[0].0 == starts[t]
                &&& p[p.len() - 1].1 == b
            },
    ensures
        forall|t: int|
            0 <= t < starts.len() ==> (#[trigger] sets[starts[t]]).subset_of(
                deliver_route(sets, concat_routes(paths))[b],
            ),
    decreases paths.len(),
{
    if paths.len() > 0 {
        let r0 = paths[0];
        let rest = paths.drop_first();
        let s1 = deliver_route(sets, r0);
        lemma_deliver_route_len(sets, r0);
        lemma_deliver_route_concat(sets, r0, concat_routes(rest));
        lemma_paths_cover(s1, b, rest, starts.drop_first());
        lemma_path_propagates(sets, r0);
        assert(forall|t: int| 0 <= t < rest.len() ==> valid_route(sets.len() as int, #[trigger] rest[t]));
        lemma_concat_routes_valid(sets.len() as int, rest);
        lemma_deliver_route_monotone(s1, concat_routes(rest), b);
        let fin = deliver_route(sets, concat_routes(paths));
        assert forall|t: int| 0 <= t < starts.len() implies (#[trigger] sets[starts[t]]).subset_of(
            fin[b],
        ) by {
            if t == 0 {
                assert(sets[starts[0]].subset_of(s1[b]));
                assert(s1[b].subset_of(fin[b]));
            } else {
                assert(paths[t][0].0 == starts[t]);
                assert(valid_edge(sets.len() as int, paths[t][0]));
                lemma_deliver_route_monotone(sets, r0, starts[t]);
                assert(sets[starts[t]].subset_of(s1[starts[t]]));
                assert(starts.drop_first()[t - 1] == starts[t]);
                assert(s1[starts.drop_first()[t - 1]].subset_of(fin[b]));
            }
        }
    }
}

/// Convergence: when every node of the cluster has a gossip path to `b`,
/// delivering along all those paths in turn leaves `b` holding exactly the
/// union of every value held anywhere. With a connected topology and
/// unbounded gossip ticks such a run of deliveries occurs for every node, so
/// every node's set converges to the cluster-wide union.
pub proof fn lemma_convergence(sets: Seq<Set<usize>>, b: int, paths: Seq<Seq<(int, int)>>)
    requires
        0 <= b < sets.len(),
        paths.len() == sets.len(),
        forall|k: int|
            0 <= k < paths.len() ==> {
                let p = #[trigger] paths[k];
                &&& valid_route(sets.len() as int, p)
                &&& is_path(p)
                &&& p.len() > 0
                &&& p[0].0 == k
                &&& p[p.len() - 1].1 == b
            },
    ensures
        deliver_route(sets, concat_routes(paths))[b] == union_all(sets),
{
    let starts = Seq::new(sets.len(), |k: int| k);
    lemma_paths_cover(sets, b, paths, starts);
    lemma_concat_routes_valid(sets.len() as int, paths);
    lemma_deliver_route_bounded(sets, concat_routes(paths), union_all(sets));
    lemma_deliver_route_len(sets, concat_routes(paths));
    let fin = deliver_route(sets, concat_routes(paths));
    assert forall|v: usize| union_all(sets).contains(v) implies fin[b].contains(v) by {
        let k = choose|k: int| 0 <= k < sets.len() && (#[trigger] sets[k]).contains(v);
        assert(starts[k] == k);
        assert(sets[starts[k]].subset_of(fin[b]));
    }
    assert(fin[b] =~= union_all(sets));
}

/// With nothing recorded in `known`, a gossip batch is the sender's whole
/// message set: the tick sends everything.
pub proof fn lemma_delta_of_empty(msgs: Seq<usize>)
    ensures
        delta(msgs, Seq::<usize>::empty()) == msgs,
    decreases msgs.len(),
{
    if msgs.len() > 0 {
        lemma_delta_of_empty(msgs.drop_last());
        assert(delta(msgs, Seq::<usize>::empty()) =~= msgs);
    }
}

/// One delivery at the node level: a node that believes a peer holds nothing
/// sends it its whole message set on a tick, and the peer's merge leaves the
/// peer with the union of the two nodes' sets — the `deliver` step of the
/// cluster model above.
pub proof fn lemma_gossip_delivery_is_union(
    a: BroadcastNode,
    peer: String,
    m: Message<Payload>,
    b_msgs: Seq<usize>,
)
    requires
        a.gossip_message_to(peer, m),
        a.known_of(peer@) == Seq::<usize>::empty(),
    ensures
        m.body.payload matches Payload::Gossip { seen } && merged(b_msgs, seen@).to_set()
            == b_msgs.to_set().union(a.messages_set()),
{
    lemma_delta_of_empty(a.messages@);
    let seen = m.body.payload->Gossip_seen;
    lemma_merged_set(b_msgs, seen@);
}

} // verus!
