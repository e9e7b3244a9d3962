//! What holds of the engine whatever the calls and whatever is drawn.

use vstd::prelude::*;
use vstd::set_lib::{lemma_len_subset, lemma_set_union_finite_iff};
use crate::broadcast::{gossip_selects, BroadcastNode};
use crate::resend::{resend_amount, resend_cap};

verus! {

/// Merging a payload a second time changes nothing: neither what the node
/// has learned nor what it believes of any peer.
pub proof fn law_merge_is_idempotent(
    start: BroadcastNode,
    once: BroadcastNode,
    twice: BroadcastNode,
    sender: Seq<char>,
    payload: Set<usize>,
)
    requires
        start.merged_into(sender, payload, once),
        once.merged_into(sender, payload, twice),
    ensures
        twice.values() == once.values(),
        forall|peer: Seq<char>| twice.knowledge(peer) == once.knowledge(peer),
{
    assert(once.values().union(payload) == once.values());
    assert forall|peer: Seq<char>| twice.knowledge(peer) == once.knowledge(peer) by {
        assert(once.knowledge(peer).union(payload) == start.knowledge(peer).union(payload).union(
            payload,
        ));
        assert(start.knowledge(peer).union(payload).union(payload) == start.knowledge(peer).union(
            payload,
        ));
    }
}

/// Two payloads merged in either order leave the node with the same values
/// and the same beliefs.
pub proof fn law_merge_commutes(
    start: BroadcastNode,
    first_only: BroadcastNode,
    first_then_second: BroadcastNode,
    second_only: BroadcastNode,
    second_then_first: BroadcastNode,
    first_sender: Seq<char>,
    first: Set<usize>,
    second_sender: Seq<char>,
    second: Set<usize>,
)
    requires
        start.merged_into(first_sender, first, first_only),
        first_only.merged_into(second_sender, second, first_then_second),
        start.merged_into(second_sender, second, second_only),
        second_only.merged_into(first_sender, first, second_then_first),
    ensures
        first_then_second.values() == second_then_first.values(),
        forall|peer: Seq<char>|
            first_then_second.knowledge(peer) == second_then_first.knowledge(peer),
{
    assert(start.values().union(first).union(second) == start.values().union(second).union(first));
    assert forall|peer: Seq<char>|
        first_then_second.knowledge(peer) == second_then_first.knowledge(peer) by {
        let believed = start.knowledge(peer);
        assert(believed.union(first).union(second) == believed.union(second).union(first));
        assert(first_only.knowledge(peer) == if peer == first_sender && start.peers().contains(
            peer,
        ) {
            believed.union(first)
        } else {
            believed
        });
        assert(second_only.knowledge(peer) == if peer == second_sender && start.peers().contains(
            peer,
        ) {
            believed.union(second)
        } else {
            believed
        });
    }
}

/// Whether `after` is `before` once one call has recorded a value or merged
/// a finite payload.
pub open spec fn one_call_later(before: BroadcastNode, after: BroadcastNode) -> bool {
    ||| exists|value: usize| before.recorded_into(value, after)
    ||| exists|sender: Seq<char>, payload: Set<usize>|
        payload.finite() && before.merged_into(sender, payload, after)
}

/// Across any sequence of calls that record or merge, a node forgets
/// nothing: what it had learned at one point it has at every later point,
/// and the number of its values never falls.
pub proof fn law_values_only_grow(history: Seq<BroadcastNode>, earlier: int, later: int)
    requires
        history.len() > 0,
        history[0].wf(),
        forall|i: int|
            0 <= i < history.len() - 1 ==> one_call_later(#[trigger] history[i], history[i + 1]),
        0 <= earlier <= later < history.len(),
    ensures
        history[later].values().finite(),
        history[earlier].values().subset_of(history[later].values()),
        history[earlier].values().len() <= history[later].values().len(),
    decreases later,
{
    if later == 0 {
        history[0].lemma_knowledge_within_values(Seq::empty());
    } else {
        law_values_only_grow(history, 0, later - 1);
        let before = history[later - 1];
        let after = history[later];
        assert(one_call_later(before, after));
        assert(after.values().finite() && before.values().subset_of(after.values())) by {
            if exists|value: usize| before.recorded_into(value, after) {
            } else {
                let (sender, payload) = choose|sender: Seq<char>, payload: Set<usize>|
                    payload.finite() && before.merged_into(sender, payload, after);
                lemma_set_union_finite_iff(before.values(), payload);
            }
        }
        if earlier < later {
            law_values_only_grow(history, earlier, later - 1);
        }
        lemma_len_subset(history[earlier].values(), after.values());
    }
}

/// A gossip payload repeats no more known values than the redundancy allows
/// of the number of new values, and no more than there are.
pub proof fn law_redundancy_is_bounded(
    values: Set<usize>,
    known: Set<usize>,
    percent: nat,
    payload: Set<usize>,
)
    requires
        gossip_selects(values, known, percent, payload),
    ensures
        payload.intersect(known).len() <= resend_cap(values.difference(known).len(), percent),
        payload.intersect(known).len() <= values.intersect(known).len(),
        payload.intersect(known).len() == resend_amount(
            values.difference(known).len(),
            values.intersect(known).len(),
            percent,
        ),
{
}

/// A gossip message that arrives leaves the receiver with every value that
/// the sender had, provided the sender believed the receiver to know only
/// what it does know.
pub proof fn law_delivery_closes_the_gap(
    sender_values: Set<usize>,
    believed: Set<usize>,
    receiver_values: Set<usize>,
    percent: nat,
    payload: Set<usize>,
)
    requires
        believed.subset_of(receiver_values),
        gossip_selects(sender_values, believed, percent, payload),
    ensures
        sender_values.subset_of(receiver_values.union(payload)),
{
    assert forall|value: usize| sender_values.contains(value) implies receiver_values.union(
        payload,
    ).contains(value) by {
        if !believed.contains(value) {
            assert(sender_values.difference(believed).contains(value));
        }
    }
}

} // verus!
