//! The anti-entropy engine: the values a node has learned, what it believes
//! each peer to know, and what it gossips.

use std::collections::{HashMap, HashSet};
use vstd::prelude::*;
use vstd::std_specs::hash::spec_hash_keys_iter;
use vstd::std_specs::iter::IteratorSpec;
use crate::message::{names, InitializationRequest, Message};
use crate::resend::{draw_for, lemma_resend_choice, resend_amount, resend_limit, select_resend};
use crate::service::Service;

verus! {

broadcast use vstd::std_specs::hash::group_hash_axioms;

/// The share of the values new to a peer, in a hundred, up to which values
/// that the peer already knows are repeated when a tick triggers a round.
pub const REDUNDANCY_PERCENT: usize = 50;

/// What a client may ask of a node.
#[derive(Debug, Clone, PartialEq, Eq)]
pub enum BroadcastRequest {
    /// Make `message` known to the whole cluster.
    Broadcast { message: usize },
    /// Report every value that this node has learned.
    Read,
    /// A suggested communication graph. It is acknowledged and not used.
    Topology { topology: HashMap<String, Vec<String>> },
}

/// What a node answers to a client.
#[derive(Debug, PartialEq, Eq)]
pub enum BroadcastResponse {
    /// The value is recorded.
    BroadcastOk,
    /// Every value that the node has learned.
    ReadOk { messages: HashSet<usize> },
    /// The topology was received.
    TopologyOk,
}

/// What nodes send to each other.
#[derive(Debug, PartialEq, Eq)]
pub enum PeerPayload {
    /// Values that the sender has learned.
    Gossip { messages: HashSet<usize> },
}

/// The values of a set, each once, in the order in which the set hands them
/// out.
pub fn set_items(source: &HashSet<usize>) -> (items: Vec<usize>)
    ensures
        items@.to_set() == source@,
        items@.no_duplicates(),
        items@.len() == source@.len(),
        source@.finite(),
{
    let ghost order: Seq<usize> = spec_hash_keys_iter(source).remaining().unref();
    let mut items: Vec<usize> = Vec::new();
    for value in iter: source.iter()
        invariant
            iter.seq().unref() == order,
            iter.seq().no_duplicates(),
            items@ == order.take(iter.index() as int),
    {
        items.push(*value);
    }
    assert(items@ == order);
    items
}

/// Adds every one of `items` to `target`.
pub fn insert_all(target: &mut HashSet<usize>, items: &Vec<usize>)
    ensures
        final(target)@ == old(target)@.union(items@.to_set()),
{
    let mut i: usize = 0;
    while i < items.len()
        invariant
            i <= items@.len(),
            target@ == old(target)@.union(items@.take(i as int).to_set()),
        decreases items@.len() - i,
    {
        target.insert(items[i]);
        proof {
            assert(items@.take(i + 1) == items@.take(i as int) + seq![items@[i as int]]);
            Seq::lemma_to_set_insert_commutes(items@.take(i as int), items@[i as int]);
        }
        i = i + 1;
    }
    assert(items@.take(items@.len() as int) == items@);
}

/// Whether a node id of the handshake names another node than `id`.
pub open spec fn is_other(id: Seq<char>) -> spec_fn(Seq<char>) -> bool {
    |name: Seq<char>| name != id
}

/// What a gossip payload must hold, when the sender has learned `values`
/// and believes the receiver to know `known`: every value that is new to the
/// receiver, and of those it knows as many as the redundancy allows.
pub open spec fn gossip_selects(
    values: Set<usize>,
    known: Set<usize>,
    percent: nat,
    payload: Set<usize>,
) -> bool {
    &&& payload.subset_of(values)
    &&& values.difference(known).subset_of(payload)
    &&& payload.intersect(known).len() == resend_amount(
        values.difference(known).len(),
        values.intersect(known).len(),
        percent,
    )
}

/// What a node has learned once it has served `request`.
pub open spec fn values_after(values: Set<usize>, request: BroadcastRequest) -> Set<usize> {
    match request {
        BroadcastRequest::Broadcast { message } => values.insert(message),
        _ => values,
    }
}

/// Whether `response` answers `request` on a node that has learned `values`
/// once the request is served.
pub open spec fn answers(
    request: BroadcastRequest,
    values: Set<usize>,
    response: BroadcastResponse,
) -> bool {
    match request {
        BroadcastRequest::Broadcast { .. } => response is BroadcastOk,
        BroadcastRequest::Read => response matches BroadcastResponse::ReadOk { messages }
            && messages@ == values,
        BroadcastRequest::Topology { .. } => response is TopologyOk,
    }
}

/// One node of the cluster: its identity, the values it has learned and
/// what it believes each peer to know already.
pub struct BroadcastNode {
    id: String,
    values: HashSet<usize>,
    network: Vec<String>,
    seen_values: Vec<HashSet<usize>>,
}

impl BroadcastNode {
    /// The id of this node.
    pub closed spec fn node_id(&self) -> Seq<char> {
        self.id@
    }

    /// The values that this node has learned.
    pub closed spec fn values(&self) -> Set<usize> {
        self.values@
    }

    /// The peers of this node, in the order of the handshake.
    pub closed spec fn peers(&self) -> Seq<Seq<char>> {
        names(self.network@)
    }

    /// The values that `peer` is believed to know already. Of a node that is
    /// no peer nothing is believed.
    pub closed spec fn knowledge(&self, peer: Seq<char>) -> Set<usize> {
        match self.peers().index_of_first(peer) {
            Some(position) => self.seen_values@[position]@,
            None => Set::empty(),
        }
    }

    /// The node keeps a belief for each peer, and believes no peer to know a
    /// value that it has not learned itself.
    pub closed spec fn wf(&self) -> bool {
        &&& self.seen_values@.len() == self.network@.len()
        &&& self.values@.finite()
        &&& forall|i: int|
            0 <= i < self.seen_values@.len() ==> (#[trigger] self.seen_values@[i])@.subset_of(
                self.values@,
            )
    }

    /// Whether `after` is this node once it has recorded `value`: it has
    /// learned the value, and nothing else has changed.
    pub open spec fn recorded_into(&self, value: usize, after: BroadcastNode) -> bool {
        &&& after.node_id() == self.node_id()
        &&& after.peers() == self.peers()
        &&& after.values() == self.values().insert(value)
        &&& forall|peer: Seq<char>| after.knowledge(peer) == self.knowledge(peer)
    }

    /// Whether `after` is this node once it has merged `payload`, received
    /// from `sender`: it has learned the payload, and where the sender is a
    /// peer it is believed to know the payload. What is believed of the
    /// other peers has not changed.
    pub open spec fn merged_into(
        &self,
        sender: Seq<char>,
        payload: Set<usize>,
        after: BroadcastNode,
    ) -> bool {
        &&& after.node_id() == self.node_id()
        &&& after.peers() == self.peers()
        &&& after.values() == self.values().union(payload)
        &&& forall|peer: Seq<char>|
            #![trigger after.knowledge(peer)]
            after.knowledge(peer) == if peer == sender && self.peers().contains(peer) {
                self.knowledge(peer).union(payload)
            } else {
                self.knowledge(peer)
            }
    }

    /// A well-formed node has learned finitely many values, and believes no
    /// peer to know a value that it has not learned itself.
    pub proof fn lemma_knowledge_within_values(&self, peer: Seq<char>)
        requires
            self.wf(),
        ensures
            self.values().finite(),
            self.knowledge(peer).subset_of(self.values()),
    {
        self.peers().index_of_first_ensures(peer);
    }

    /// Where `peer` stands among the peers, if it is one.
    fn position_of(&self, peer: &str) -> (found: Option<usize>)
        ensures
            match found {
                Some(position) => position < self.network@.len() && self.peers().index_of_first(
                    peer@,
                ) == Some(position as int),
                None => self.peers().index_of_first(peer@).is_none(),
            },
    {
        let wanted: String = peer.to_owned();
        let mut i: usize = 0;
        while i < self.network.len()
            invariant
                i <= self.network@.len(),
                wanted@ == peer@,
                forall|k: int| 0 <= k < i ==> (#[trigger] self.peers()[k]) != peer@,
            decreases self.network@.len() - i,
        {
            if self.network[i] == wanted {
                proof {
                    assert(self.peers()[i as int] == peer@);
                    self.peers().index_of_first_ensures(peer@);
                }
                return Some(i);
            }
            i = i + 1;
        }
        proof {
            self.peers().index_of_first_ensures(peer@);
        }
        None
    }

    /// The node that an initialization message describes: its peers are the
    /// nodes of the cluster but itself, it has learned nothing and believes
    /// no peer to know anything.
    pub fn new(init_message: &Message<InitializationRequest>) -> (node: Self)
        ensures
            node.wf(),
            init_message.body.payload matches InitializationRequest::Init { id, neighbors } && {
                &&& node.node_id() == id@
                &&& node.peers() == names(neighbors@).filter(is_other(id@))
            },
            node.values() == Set::<usize>::empty(),
            forall|peer: Seq<char>| node.knowledge(peer) == Set::<usize>::empty(),
    {
        match init_message.payload() {
            InitializationRequest::Init { id, neighbors } => {
                let mut network: Vec<String> = Vec::new();
                let mut seen_values: Vec<HashSet<usize>> = Vec::new();
                let mut i: usize = 0;
                while i < neighbors.len()
                    invariant
                        i <= neighbors@.len(),
                        names(network@) == names(neighbors@.take(i as int)).filter(is_other(id@)),
                        seen_values@.len() == network@.len(),
                        forall|k: int|
                            0 <= k < seen_values@.len() ==> (#[trigger] seen_values@[k])@
                                == Set::<usize>::empty(),
                    decreases neighbors@.len() - i,
                {
                    proof {
                        assert(neighbors@.take(i + 1) == neighbors@.take(i as int).push(
                            neighbors@[i as int],
                        ));
                        assert(names(neighbors@.take(i + 1)) == names(
                            neighbors@.take(i as int),
                        ).push(neighbors@[i as int]@));
                        names(neighbors@.take(i as int)).lemma_filter_push(
                            neighbors@[i as int]@,
                            is_other(id@),
                        );
                    }
                    if neighbors[i] != *id {
                        let ghost before = network@;
                        network.push(neighbors[i].clone());
                        seen_values.push(HashSet::new());
                        assert(names(network@) == names(before).push(neighbors@[i as int]@));
                    }
                    i = i + 1;
                }
                assert(neighbors@.take(neighbors@.len() as int) == neighbors@);
                let node = BroadcastNode { id: id.clone(), values: HashSet::new(), network, seen_values };
                assert forall|peer: Seq<char>| node.knowledge(peer) == Set::<usize>::empty() by {
                    node.peers().index_of_first_ensures(peer);
                }
                node
            },
        }
    }

    /// The id of this node.
    pub fn id(&self) -> (id: &str)
        ensures
            id@ == self.node_id(),
    {
        self.id.as_str()
    }

    /// The peers of this node, in the order of the handshake.
    pub fn peer_ids(&self) -> (peers: &Vec<String>)
        ensures
            names(peers@) == self.peers(),
    {
        &self.network
    }

    /// Whether `name` is one of the peers.
    pub fn is_peer(&self, name: &str) -> (listed: bool)
        ensures
            listed == self.peers().contains(name@),
    {
        proof {
            self.peers().index_of_first_ensures(name@);
        }
        self.position_of(name).is_some()
    }

    /// The values that `peer` is believed to know already.
    pub fn known_to(&self, peer: &str) -> (known: HashSet<usize>)
        requires
            self.wf(),
        ensures
            known@ == self.knowledge(peer@),
    {
        let mut known: HashSet<usize> = HashSet::new();
        match self.position_of(peer) {
            Some(position) => {
                let items: Vec<usize> = set_items(&self.seen_values[position]);
                insert_all(&mut known, &items);
            },
            None => {},
        }
        known
    }

    /// Records a value that a client asked to broadcast.
    pub fn record_value(&mut self, value: usize)
        requires
            old(self).wf(),
        ensures
            final(self).wf(),
            old(self).recorded_into(value, *final(self)),
    {
        self.values.insert(value);
    }

    /// Every value that this node has learned, from clients and from peers.
    pub fn snapshot(&self) -> (values: HashSet<usize>)
        ensures
            values@ == self.values(),
    {
        let items: Vec<usize> = set_items(&self.values);
        let mut values: HashSet<usize> = HashSet::new();
        insert_all(&mut values, &items);
        values
    }

    /// Merges the values of a gossip message from `from_peer`: the node
    /// learns them, and where the sender is a peer it is from now on
    /// believed to know them.
    pub fn merge_gossip(&mut self, from_peer: &str, received: &HashSet<usize>)
        requires
            old(self).wf(),
        ensures
            final(self).wf(),
            old(self).merged_into(from_peer@, received@, *final(self)),
    {
        let items: Vec<usize> = set_items(received);
        insert_all(&mut self.values, &items);
        match self.position_of(from_peer) {
            Some(position) => {
                insert_all(&mut self.seen_values[position], &items);
                assert forall|peer: Seq<char>|
                    #![trigger self.knowledge(peer)]
                    self.knowledge(peer) == if peer == from_peer@ && old(self).peers().contains(
                        peer,
                    ) {
                        old(self).knowledge(peer).union(received@)
                    } else {
                        old(self).knowledge(peer)
                    } by {
                    self.peers().index_of_first_ensures(peer);
                    self.peers().index_of_first_ensures(from_peer@);
                }
            },
            None => {
                proof {
                    self.peers().index_of_first_ensures(from_peer@);
                }
            },
        }
    }

    /// Whether `message` is the gossip that this node owes `peer`, stamped
    /// with `id`.
    pub open spec fn is_gossip(
        &self,
        message: Message<PeerPayload>,
        peer: Seq<char>,
        id: int,
        percent: usize,
    ) -> bool {
        &&& message.src@ == self.node_id()
        &&& message.dest@ == peer
        &&& message.body.message_id == Some(id as usize)
        &&& message.body.in_reply_to.is_none()
        &&& message.body.payload matches PeerPayload::Gossip { messages } && gossip_selects(
            self.values(),
            self.knowledge(peer),
            percent as nat,
            messages@,
        )
    }

    /// Whether `round` is one gossip round of this node: one message for
    /// each peer, in their order, stamped with the ids from `first_id` on.
    pub open spec fn is_round(
        &self,
        round: Seq<Message<PeerPayload>>,
        first_id: int,
        percent: usize,
    ) -> bool {
        &&& round.len() == self.peers().len()
        &&& forall|i: int|
            0 <= i < round.len() ==> self.is_gossip(
                #[trigger] round[i],
                self.peers()[i],
                first_id + i,
                percent,
            )
    }

    /// Builds the gossip for `peer`: every value that the peer is not
    /// believed to know, and a random choice among those it is believed to
    /// know, as many as `redundancy_percent` of the number of new values
    /// allows.
    pub fn gossip_to(&self, service: &mut Service, peer: &str, redundancy_percent: usize) -> (message:
        Message<PeerPayload>)
        requires
            self.wf(),
            old(service).next_id() < usize::MAX,
        ensures
            final(service).next_id() == old(service).next_id() + 1,
            self.is_gossip(message, peer@, old(service).next_id() as int, redundancy_percent),
    {
        let ghost known = self.knowledge(peer@);
        let items: Vec<usize> = set_items(&self.values);
        let position: Option<usize> = self.position_of(peer);
        let mut already_known: Vec<usize> = Vec::new();
        let mut must_notify: HashSet<usize> = HashSet::new();
        let mut i: usize = 0;
        while i < items.len()
            invariant
                i <= items@.len(),
                self.wf(),
                items@.no_duplicates(),
                known == self.knowledge(peer@),
                match position {
                    Some(at) => at < self.network@.len() && self.peers().index_of_first(peer@)
                        == Some(at as int),
                    None => self.peers().index_of_first(peer@).is_none(),
                },
                already_known@.no_duplicates(),
                already_known@.to_set() == items@.take(i as int).to_set().intersect(known),
                must_notify@ == items@.take(i as int).to_set().difference(known),
            decreases items@.len() - i,
        {
            let value: usize = items[i];
            let is_known: bool = match position {
                Some(at) => self.seen_values[at].contains(&value),
                None => false,
            };
            proof {
                assert(items@.take(i + 1) == items@.take(i as int) + seq![value]);
                Seq::lemma_to_set_insert_commutes(items@.take(i as int), value);
                assert(!items@.take(i as int).contains(value)) by {
                    if items@.take(i as int).contains(value) {
                        let k = choose|k: int|
                            0 <= k < items@.take(i as int).len() && items@.take(i as int)[k]
                                == value;
                        assert(items@[k] == items@[i as int]);
                    }
                }
                assert(is_known == known.contains(value));
            }
            if is_known {
                let ghost before = already_known@;
                already_known.push(value);
                proof {
                    assert(!before.contains(value)) by {
                        if before.contains(value) {
                            assert(before.to_set().contains(value));
                        }
                    }
                    assert(already_known@ == before + seq![value]);
                    Seq::lemma_to_set_insert_commutes(before, value);
                    assert(already_known@.no_duplicates()) by {
                        assert forall|a: int, b: int|
                            0 <= a < already_known@.len() && 0 <= b < already_known@.len() && a
                                != b implies already_known@[a] != already_known@[b] by {
                            if a == before.len() {
                                assert(before[b] == already_known@[b]);
                                assert(before.contains(before[b]));
                            } else if b == before.len() {
                                assert(before[a] == already_known@[a]);
                                assert(before.contains(before[a]));
                            } else {
                                assert(before[a] == already_known@[a]);
                                assert(before[b] == already_known@[b]);
                            }
                        }
                    }
                    assert(already_known@.to_set() == items@.take(i + 1).to_set().intersect(known));
                    assert(must_notify@ == items@.take(i + 1).to_set().difference(known));
                }
            } else {
                must_notify.insert(value);
                proof {
                    assert(already_known@.to_set() == items@.take(i + 1).to_set().intersect(known));
                    assert(must_notify@ == items@.take(i + 1).to_set().difference(known));
                }
            }
            i = i + 1;
        }
        let amount: usize = resend_limit(must_notify.len(), already_known.len(), redundancy_percent);
        let draws: Vec<usize> = draw_for(already_known.len());
        let chosen: Vec<usize> = select_resend(&already_known, amount, &draws);
        let ghost fresh = must_notify@;
        insert_all(&mut must_notify, &chosen);
        proof {
            assert(items@.take(items@.len() as int) == items@);
            lemma_resend_choice(already_known@, amount as nat, draws@);
            already_known@.unique_seq_to_set();
            chosen@.unique_seq_to_set();
            assert(fresh == self.values().difference(known));
            assert(already_known@.to_set() == self.values().intersect(known));
            assert(must_notify@.intersect(known) == chosen@.to_set());
        }
        service.peer_rpc(self.id.clone(), peer.to_owned(), PeerPayload::Gossip { messages: must_notify })
    }

    /// Builds one gossip round: the gossip for each peer, in their order.
    pub fn gossip_round(&self, service: &mut Service, redundancy_percent: usize) -> (round: Vec<
        Message<PeerPayload>,
    >)
        requires
            self.wf(),
            old(service).next_id() + self.peers().len() <= usize::MAX,
        ensures
            final(service).next_id() == old(service).next_id() + self.peers().len(),
            self.is_round(round@, old(service).next_id() as int, redundancy_percent),
    {
        let mut round: Vec<Message<PeerPayload>> = Vec::new();
        let mut i: usize = 0;
        while i < self.network.len()
            invariant
                i <= self.network@.len(),
                self.wf(),
                self.peers().len() == self.network@.len(),
                old(service).next_id() + self.peers().len() <= usize::MAX,
                service.next_id() == old(service).next_id() + i,
                round@.len() == i,
                forall|k: int|
                    0 <= k < i ==> self.is_gossip(
                        #[trigger] round@[k],
                        self.peers()[k],
                        old(service).next_id() + k,
                        redundancy_percent,
                    ),
            decreases self.network@.len() - i,
        {
            let message: Message<PeerPayload> = self.gossip_to(
                service,
                self.network[i].as_str(),
                redundancy_percent,
            );
            round.push(message);
            i = i + 1;
        }
        round
    }

    /// Serves a client request, and on a tick adds one gossip round at the
    /// default redundancy. The round is built after the request is served
    /// and before the answer is stamped.
    pub fn handle(&mut self, message: &Message<BroadcastRequest>, service: &mut Service, tick: bool) -> (handled:
        (Vec<Message<PeerPayload>>, Option<BroadcastResponse>))
        requires
            old(self).wf(),
            tick ==> old(service).next_id() + old(self).peers().len() <= usize::MAX,
        ensures
            final(self).wf(),
            final(self).node_id() == old(self).node_id(),
            final(self).peers() == old(self).peers(),
            forall|peer: Seq<char>| final(self).knowledge(peer) == old(self).knowledge(peer),
            final(self).values() == values_after(old(self).values(), message.body.payload),
            handled.1 matches Some(response) && answers(
                message.body.payload,
                final(self).values(),
                response,
            ),
            tick ==> final(self).is_round(
                handled.0@,
                old(service).next_id() as int,
                REDUNDANCY_PERCENT,
            ) && final(service).next_id() == old(service).next_id() + old(self).peers().len(),
            !tick ==> handled.0@.len() == 0 && final(service).next_id() == old(service).next_id(),
    {
        let response: BroadcastResponse = match message.payload() {
            BroadcastRequest::Broadcast { message: value } => {
                self.record_value(*value);
                BroadcastResponse::BroadcastOk
            },
            BroadcastRequest::Read => BroadcastResponse::ReadOk { messages: self.snapshot() },
            BroadcastRequest::Topology { .. } => BroadcastResponse::TopologyOk,
        };
        let round: Vec<Message<PeerPayload>> = if tick {
            self.gossip_round(service, REDUNDANCY_PERCENT)
        } else {
            Vec::new()
        };
        (round, Some(response))
    }

    /// Serves a message of a peer: merges what it gossips. Gossip is not
    /// answered.
    pub fn handle_peer(&mut self, message: &Message<PeerPayload>, service: &mut Service) -> (reply:
        Option<PeerPayload>)
        requires
            old(self).wf(),
        ensures
            final(self).wf(),
            reply.is_none(),
            final(service).next_id() == old(service).next_id(),
            message.body.payload matches PeerPayload::Gossip { messages } && old(
                self,
            ).merged_into(message.src@, messages@, *final(self)),
    {
        match message.payload() {
            PeerPayload::Gossip { messages } => {
                self.merge_gossip(message.src(), messages);
                None
            },
        }
    }
}

} // verus!
