//! How a value spreads through a cluster, gossip message by gossip message.
//!
//! A cluster is the sequence of its nodes. Its history is what happened to
//! it, event by event. A gossip message that gets lost changes no node, so a
//! loss is an event that changes nothing.

use vstd::prelude::*;
use crate::broadcast::{gossip_selects, BroadcastNode};

verus! {

/// One thing that happens to a cluster.
pub enum Event {
    /// The node at `node` records `value` for a client.
    Record { node: int, value: usize },
    /// The node at `to` merges `payload`, which the node at `from` gossiped
    /// to it at a redundancy of `percent`.
    Deliver { from: int, to: int, percent: usize, payload: Set<usize> },
    /// A gossip message is lost, or nothing happens at all.
    Nothing,
}

/// The nodes have ids of their own, and none believes another to know a
/// value that the other has not learned.
pub open spec fn sound(cluster: Seq<BroadcastNode>) -> bool {
    &&& forall|a: int, b: int|
        0 <= a < cluster.len() && 0 <= b < cluster.len() && a != b ==> (#[trigger] cluster[a]).node_id()
            != (#[trigger] cluster[b]).node_id()
    &&& forall|a: int, b: int|
        0 <= a < cluster.len() && 0 <= b < cluster.len() && a != b ==> (#[trigger] cluster[a]).knowledge(
            (#[trigger] cluster[b]).node_id(),
        ).subset_of(cluster[b].values())
}

/// Whether `event` turns the cluster `before` into the cluster `after`.
pub open spec fn happens(
    before: Seq<BroadcastNode>,
    event: Event,
    after: Seq<BroadcastNode>,
) -> bool {
    &&& after.len() == before.len()
    &&& match event {
        Event::Record { node, value } => {
            &&& 0 <= node < before.len()
            &&& before[node].recorded_into(value, after[node])
            &&& forall|i: int| 0 <= i < before.len() && i != node ==> after[i] == before[i]
        },
        Event::Deliver { from, to, percent, payload } => {
            &&& 0 <= from < before.len()
            &&& 0 <= to < before.len()
            &&& from != to
            &&& gossip_selects(
                before[from].values(),
                before[from].knowledge(before[to].node_id()),
                percent as nat,
                payload,
            )
            &&& before[to].merged_into(before[from].node_id(), payload, after[to])
            &&& forall|i: int| 0 <= i < before.len() && i != to ==> after[i] == before[i]
        },
        Event::Nothing => after == before,
    }
}

/// Whether `history` is what `events` make of a cluster, one after another.
pub open spec fn unfolds(history: Seq<Seq<BroadcastNode>>, events: Seq<Event>) -> bool {
    &&& history.len() == events.len() + 1
    &&& forall|t: int|
        0 <= t < events.len() ==> happens(#[trigger] history[t], events[t], history[t + 1])
}

/// No event lets a node forget a value or believe too much: a sound cluster
/// stays sound, every node keeps its id and its values, and a delivery
/// leaves the receiver with every value that the sender had.
pub proof fn law_event_keeps_cluster_sound(
    before: Seq<BroadcastNode>,
    event: Event,
    after: Seq<BroadcastNode>,
)
    requires
        sound(before),
        happens(before, event, after),
    ensures
        sound(after),
        forall|i: int|
            0 <= i < before.len() ==> (#[trigger] after[i]).node_id() == before[i].node_id()
                && before[i].values().subset_of(after[i].values()),
        event matches Event::Deliver { from, to, .. } ==> before[from].values().subset_of(
            after[to].values(),
        ),
{
    match event {
        Event::Record { node, value } => {
            assert forall|a: int, b: int|
                0 <= a < after.len() && 0 <= b < after.len() && a != b implies (
            #[trigger] after[a]).knowledge((#[trigger] after[b]).node_id()).subset_of(
                after[b].values(),
            ) by {
                assert(before[a].knowledge(before[b].node_id()).subset_of(before[b].values()));
            }
        },
        Event::Deliver { from, to, percent, payload } => {
            let sender = before[from].node_id();
            assert(before[from].knowledge(before[to].node_id()).subset_of(before[to].values()));
            assert forall|a: int, b: int|
                0 <= a < after.len() && 0 <= b < after.len() && a != b implies (
            #[trigger] after[a]).knowledge((#[trigger] after[b]).node_id()).subset_of(
                after[b].values(),
            ) by {
                assert(before[a].knowledge(before[b].node_id()).subset_of(before[b].values()));
                if a == to && b != from {
                    assert(before[b].node_id() != before[from].node_id());
                }
            }
            assert forall|value: usize| before[from].values().contains(value) implies after[to].values().contains(
                value,
            ) by {
                if !before[from].knowledge(before[to].node_id()).contains(value) {
                    assert(before[from].values().difference(
                        before[from].knowledge(before[to].node_id()),
                    ).contains(value));
                }
            }
        },
        Event::Nothing => {},
    }
}

/// Through a whole history a sound cluster stays sound, and what a node has
/// learned at one time it has at every later time.
pub proof fn law_history_keeps_values(
    history: Seq<Seq<BroadcastNode>>,
    events: Seq<Event>,
    earlier: int,
    later: int,
)
    requires
        unfolds(history, events),
        sound(history[0]),
        0 <= earlier <= later < history.len(),
    ensures
        sound(history[later]),
        history[later].len() == history[earlier].len(),
        forall|i: int|
            0 <= i < history[earlier].len() ==> (#[trigger] history[earlier][i]).values().subset_of(
                history[later][i].values(),
            ),
    decreases later,
{
    if later > 0 {
        law_history_keeps_values(history, events, 0, later - 1);
        assert(happens(history[later - 1], events[later - 1], history[later]));
        law_event_keeps_cluster_sound(history[later - 1], events[later - 1], history[later]);
        if earlier < later {
            law_history_keeps_values(history, events, earlier, later - 1);
            assert forall|i: int| 0 <= i < history[earlier].len() implies (
            #[trigger] history[earlier][i]).values().subset_of(history[later][i].values()) by {
                assert(history[later - 1][i].values().subset_of(history[later][i].values()));
            }
        }
    }
}

/// A value spreads along any path on which gossip arrives in turn.
///
/// Let a sound cluster go through any history of records, deliveries and
/// losses. If the first node of `path` has learned `value` at the start,
/// and the events at the growing times `hops` deliver gossip from each node
/// of the path to the next, then at the end the last node of the path has
/// learned the value, whatever else happened and whatever was lost.
pub proof fn law_value_travels_along_deliveries(
    history: Seq<Seq<BroadcastNode>>,
    events: Seq<Event>,
    path: Seq<int>,
    hops: Seq<int>,
    value: usize,
)
    requires
        unfolds(history, events),
        sound(history[0]),
        path.len() == hops.len() + 1,
        forall|k: int| 0 <= k < hops.len() ==> 0 <= #[trigger] hops[k] < events.len(),
        forall|k: int| 0 <= k < hops.len() - 1 ==> #[trigger] hops[k] < hops[k + 1],
        forall|k: int|
            0 <= k < hops.len() ==> (#[trigger] events[hops[k]] matches Event::Deliver {
                from,
                to,
                ..
            } && from == path[k] && to == path[k + 1]),
        0 <= path[0] < history[0].len(),
        history[0][path[0]].values().contains(value),
    ensures
        0 <= path.last() < history.last().len(),
        history.last()[path.last()].values().contains(value),
{
    let end = history.len() - 1;
    if hops.len() == 0 {
        law_history_keeps_values(history, events, 0, end);
        assert(history[0][path[0]].values().subset_of(history[end][path[0]].values()));
    } else {
        lemma_value_reaches_hop(history, events, path, hops, value, hops.len() - 1);
        let arrival = hops.last() + 1;
        law_history_keeps_values(history, events, arrival, end);
        assert(history[arrival][path.last()].values().subset_of(
            history[end][path.last()].values(),
        ));
    }
}

/// Once the delivery of hop `k` has happened, the node that it reached has
/// learned the value.
proof fn lemma_value_reaches_hop(
    history: Seq<Seq<BroadcastNode>>,
    events: Seq<Event>,
    path: Seq<int>,
    hops: Seq<int>,
    value: usize,
    k: int,
)
    requires
        unfolds(history, events),
        sound(history[0]),
        path.len() == hops.len() + 1,
        forall|k: int| 0 <= k < hops.len() ==> 0 <= #[trigger] hops[k] < events.len(),
        forall|k: int| 0 <= k < hops.len() - 1 ==> #[trigger] hops[k] < hops[k + 1],
        forall|k: int|
            0 <= k < hops.len() ==> (#[trigger] events[hops[k]] matches Event::Deliver {
                from,
                to,
                ..
            } && from == path[k] && to == path[k + 1]),
        0 <= path[0] < history[0].len(),
        history[0][path[0]].values().contains(value),
        0 <= k < hops.len(),
    ensures
        0 <= path[k + 1] < history[hops[k] + 1].len(),
        history[hops[k] + 1][path[k + 1]].values().contains(value),
    decreases k,
{
    let time = hops[k];
    let known_since = if k == 0 {
        0
    } else {
        hops[k - 1] + 1
    };
    if k > 0 {
        lemma_value_reaches_hop(history, events, path, hops, value, k - 1);
        assert(hops[k - 1] < hops[k - 1 + 1]);
    }
    assert(history[known_since][path[k]].values().contains(value));
    law_history_keeps_values(history, events, known_since, time);
    assert(history[known_since][path[k]].values().subset_of(history[time][path[k]].values()));
    assert(events[hops[k]] is Deliver);
    assert(happens(history[time], events[time], history[time + 1]));
    law_event_keeps_cluster_sound(history[time], events[time], history[time + 1]);
}

} // verus!
