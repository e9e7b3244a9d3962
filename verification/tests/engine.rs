use std::collections::{HashMap, HashSet};

use maelstrom::broadcast::{
    insert_all, set_items, BroadcastNode, BroadcastRequest, BroadcastResponse, PeerPayload,
    REDUNDANCY_PERCENT,
};
use maelstrom::message::{InitializationRequest, Message, MessageBody};
use maelstrom::resend::{draw_for, resend_limit, select_resend};
use maelstrom::service::Service;

fn init_message(id: &str, node_ids: &[&str]) -> Message<InitializationRequest> {
    Message {
        src: "c0".to_string(),
        dest: id.to_string(),
        body: MessageBody {
            message_id: Some(1),
            in_reply_to: None,
            payload: InitializationRequest::Init {
                id: id.to_string(),
                neighbors: node_ids.iter().map(|name| name.to_string()).collect(),
            },
        },
    }
}

fn request(message_id: usize, payload: BroadcastRequest) -> Message<BroadcastRequest> {
    Message {
        src: "c1".to_string(),
        dest: "n1".to_string(),
        body: MessageBody { message_id: Some(message_id), in_reply_to: None, payload },
    }
}

fn gossip(from: &str, values: &[usize]) -> Message<PeerPayload> {
    Message {
        src: from.to_string(),
        dest: "n1".to_string(),
        body: MessageBody {
            message_id: Some(8),
            in_reply_to: None,
            payload: PeerPayload::Gossip { messages: set_of(values) },
        },
    }
}

fn set_of(values: &[usize]) -> HashSet<usize> {
    values.iter().copied().collect()
}

fn payload_of(message: &Message<PeerPayload>) -> &HashSet<usize> {
    match message.payload() {
        PeerPayload::Gossip { messages } => messages,
    }
}

fn three_nodes() -> BroadcastNode {
    BroadcastNode::new(&init_message("n1", &["n1", "n2", "n3"]))
}

#[test]
fn new_node_excludes_itself_from_its_peers() {
    let node = BroadcastNode::new(&init_message("n2", &["n1", "n2", "n3"]));
    assert_eq!(node.id(), "n2");
    assert_eq!(node.peer_ids(), &vec!["n1".to_string(), "n3".to_string()]);
    assert!(node.snapshot().is_empty());
    assert!(node.known_to("n1").is_empty());
    assert!(node.known_to("n3").is_empty());
}

#[test]
fn new_node_alone_has_no_peers() {
    let node = BroadcastNode::new(&init_message("n1", &["n1"]));
    assert!(node.peer_ids().is_empty());
    assert!(!node.is_peer("n1"));
}

#[test]
fn is_peer_tells_peers_from_strangers() {
    let node = three_nodes();
    assert!(node.is_peer("n2"));
    assert!(node.is_peer("n3"));
    assert!(!node.is_peer("n1"));
    assert!(!node.is_peer("n9"));
}

#[test]
fn read_reflects_prior_broadcasts() {
    let mut node = three_nodes();
    node.record_value(5);
    node.record_value(9);
    assert_eq!(node.snapshot(), set_of(&[5, 9]));
}

#[test]
fn read_reflects_broadcasts_and_merges() {
    let mut node = three_nodes();
    node.merge_gossip("n2", &set_of(&[1, 2]));
    node.record_value(5);
    node.record_value(9);
    assert_eq!(node.snapshot(), set_of(&[1, 2, 5, 9]));
}

#[test]
fn recording_twice_is_recording_once() {
    let mut node = three_nodes();
    node.record_value(3);
    node.record_value(3);
    assert_eq!(node.snapshot(), set_of(&[3]));
}

#[test]
fn merge_is_idempotent() {
    let mut node = three_nodes();
    node.record_value(1);
    node.merge_gossip("n2", &set_of(&[2, 3]));
    let once = node.snapshot();
    let believed_once = node.known_to("n2");
    node.merge_gossip("n2", &set_of(&[2, 3]));
    assert_eq!(node.snapshot(), once);
    assert_eq!(node.snapshot(), set_of(&[1, 2, 3]));
    assert_eq!(node.known_to("n2"), believed_once);
}

#[test]
fn merge_commutes() {
    let mut one = three_nodes();
    one.merge_gossip("n2", &set_of(&[1, 2]));
    one.merge_gossip("n3", &set_of(&[2, 7]));
    let mut other = three_nodes();
    other.merge_gossip("n3", &set_of(&[2, 7]));
    other.merge_gossip("n2", &set_of(&[1, 2]));
    assert_eq!(one.snapshot(), other.snapshot());
    assert_eq!(one.snapshot(), set_of(&[1, 2, 7]));
    assert_eq!(one.known_to("n2"), other.known_to("n2"));
    assert_eq!(one.known_to("n3"), other.known_to("n3"));
}

#[test]
fn values_never_shrink() {
    let mut node = three_nodes();
    let mut size = node.snapshot().len();
    node.record_value(4);
    assert!(node.snapshot().len() >= size);
    size = node.snapshot().len();
    node.merge_gossip("n2", &set_of(&[4, 5, 6]));
    assert!(node.snapshot().len() >= size);
    size = node.snapshot().len();
    node.merge_gossip("n3", &set_of(&[]));
    assert!(node.snapshot().len() >= size);
    size = node.snapshot().len();
    node.record_value(4);
    assert_eq!(node.snapshot().len(), size);
    assert_eq!(size, 3);
}

#[test]
fn merge_marks_the_sender_as_knowing() {
    let mut node = three_nodes();
    node.merge_gossip("n2", &set_of(&[10, 11]));
    assert_eq!(node.known_to("n2"), set_of(&[10, 11]));
    assert!(node.known_to("n3").is_empty());
    node.merge_gossip("n2", &set_of(&[12]));
    assert_eq!(node.known_to("n2"), set_of(&[10, 11, 12]));
}

#[test]
fn merge_from_a_stranger_teaches_values_only() {
    let mut node = three_nodes();
    node.merge_gossip("n9", &set_of(&[10, 11]));
    assert_eq!(node.snapshot(), set_of(&[10, 11]));
    assert!(node.known_to("n9").is_empty());
    assert!(node.known_to("n2").is_empty());
    assert!(node.known_to("n3").is_empty());
}

#[test]
fn own_broadcasts_are_known_to_nobody() {
    let mut node = three_nodes();
    node.record_value(1);
    assert!(node.known_to("n2").is_empty());
}

#[test]
fn gossip_sends_every_unknown_value() {
    let mut node = BroadcastNode::new(&init_message("n1", &["n1", "n2"]));
    let mut service = Service::new();
    node.record_value(42);
    let message = node.gossip_to(&mut service, "n2", 50);
    assert_eq!(
        message,
        Message {
            src: "n1".to_string(),
            dest: "n2".to_string(),
            body: MessageBody {
                message_id: Some(1),
                in_reply_to: None,
                payload: PeerPayload::Gossip { messages: set_of(&[42]) },
            },
        }
    );
    assert_eq!(service.outbox_id(), 2);
}

#[test]
fn gossip_of_nothing_is_empty() {
    let node = three_nodes();
    let mut service = Service::new();
    let message = node.gossip_to(&mut service, "n2", 50);
    assert!(payload_of(&message).is_empty());
}

#[test]
fn gossip_repeats_half_as_many_known_values_as_new_ones() {
    let mut node = three_nodes();
    let known: Vec<usize> = (100..108).collect();
    node.merge_gossip("n2", &set_of(&known));
    let fresh: Vec<usize> = (0..10).collect();
    for value in &fresh {
        node.record_value(*value);
    }
    for _ in 0..50 {
        let mut service = Service::new();
        let message = node.gossip_to(&mut service, "n2", 50);
        let payload = payload_of(&message);
        assert_eq!(payload.len(), 15);
        assert!(fresh.iter().all(|value| payload.contains(value)));
        let repeated: Vec<&usize> = payload.iter().filter(|value| **value >= 100).collect();
        assert_eq!(repeated.len(), 5);
        assert!(repeated.iter().all(|value| known.contains(value)));
    }
}

#[test]
fn gossip_repeats_all_known_values_when_there_are_few() {
    let mut node = three_nodes();
    node.merge_gossip("n2", &set_of(&[100, 101, 102]));
    for value in 0..10 {
        node.record_value(value);
    }
    let mut service = Service::new();
    let message = node.gossip_to(&mut service, "n2", 50);
    let expected: Vec<usize> = (0..10).chain(100..103).collect();
    assert_eq!(payload_of(&message), &set_of(&expected));
}

#[test]
fn gossip_at_ten_percent_repeats_one_in_ten() {
    let mut node = three_nodes();
    let known: Vec<usize> = (100..120).collect();
    node.merge_gossip("n2", &set_of(&known));
    for value in 0..10 {
        node.record_value(value);
    }
    let mut service = Service::new();
    let message = node.gossip_to(&mut service, "n2", 10);
    assert_eq!(payload_of(&message).len(), 11);
}

#[test]
fn gossip_without_redundancy_repeats_nothing() {
    let mut node = three_nodes();
    node.merge_gossip("n2", &set_of(&[100, 101, 102]));
    node.record_value(1);
    node.record_value(2);
    let mut service = Service::new();
    let message = node.gossip_to(&mut service, "n2", 0);
    assert_eq!(payload_of(&message), &set_of(&[1, 2]));
}

#[test]
fn gossip_with_nothing_new_repeats_nothing() {
    let mut node = three_nodes();
    node.merge_gossip("n2", &set_of(&[100, 101, 102]));
    let mut service = Service::new();
    let message = node.gossip_to(&mut service, "n2", 50);
    assert!(payload_of(&message).is_empty());
    let other = node.gossip_to(&mut service, "n3", 50);
    assert_eq!(payload_of(&other), &set_of(&[100, 101, 102]));
}

#[test]
fn gossip_to_a_stranger_sends_everything() {
    let mut node = three_nodes();
    node.merge_gossip("n2", &set_of(&[100, 101]));
    node.record_value(1);
    let mut service = Service::new();
    let message = node.gossip_to(&mut service, "n9", 50);
    assert_eq!(message.dest(), "n9");
    assert_eq!(payload_of(&message), &set_of(&[1, 100, 101]));
}

#[test]
fn round_holds_one_message_for_each_peer() {
    let mut node = three_nodes();
    node.record_value(42);
    let mut service = Service::new();
    let round = node.gossip_round(&mut service, REDUNDANCY_PERCENT);
    assert_eq!(round.len(), 2);
    assert_eq!(round[0].dest(), "n2");
    assert_eq!(round[1].dest(), "n3");
    assert_eq!(round[0].message_id(), Some(1));
    assert_eq!(round[1].message_id(), Some(2));
    for message in &round {
        assert_eq!(message.src(), "n1");
        assert_eq!(message.in_reply_to(), None);
        assert_eq!(payload_of(message), &set_of(&[42]));
    }
    assert_eq!(service.outbox_id(), 3);
}

#[test]
fn round_of_a_lonely_node_is_empty() {
    let node = BroadcastNode::new(&init_message("n1", &["n1"]));
    let mut service = Service::new();
    assert!(node.gossip_round(&mut service, REDUNDANCY_PERCENT).is_empty());
    assert_eq!(service.outbox_id(), 1);
}

#[test]
fn default_redundancy_is_one_half() {
    assert_eq!(REDUNDANCY_PERCENT, 50);
}

#[test]
fn handle_broadcast_records_and_acknowledges() {
    let mut node = three_nodes();
    let mut service = Service::new();
    let (round, response) =
        node.handle(&request(2, BroadcastRequest::Broadcast { message: 42 }), &mut service, false);
    assert!(round.is_empty());
    assert_eq!(response, Some(BroadcastResponse::BroadcastOk));
    assert_eq!(node.snapshot(), set_of(&[42]));
    assert_eq!(service.outbox_id(), 1);
}

#[test]
fn handle_read_answers_with_the_snapshot() {
    let mut node = three_nodes();
    let mut service = Service::new();
    node.record_value(7);
    node.merge_gossip("n3", &set_of(&[8]));
    let (round, response) = node.handle(&request(3, BroadcastRequest::Read), &mut service, false);
    assert!(round.is_empty());
    assert_eq!(response, Some(BroadcastResponse::ReadOk { messages: set_of(&[7, 8]) }));
}

#[test]
fn handle_topology_is_acknowledged_and_inert() {
    let mut node = three_nodes();
    let mut service = Service::new();
    node.record_value(7);
    let mut topology: HashMap<String, Vec<String>> = HashMap::new();
    topology.insert("n1".to_string(), vec!["n9".to_string()]);
    topology.insert("n9".to_string(), vec!["n1".to_string(), "n2".to_string()]);
    let (round, response) =
        node.handle(&request(4, BroadcastRequest::Topology { topology }), &mut service, true);
    assert_eq!(response, Some(BroadcastResponse::TopologyOk));
    assert_eq!(node.peer_ids(), &vec!["n2".to_string(), "n3".to_string()]);
    assert_eq!(node.snapshot(), set_of(&[7]));
    assert_eq!(round.len(), 2);
    assert_eq!(round[0].dest(), "n2");
    assert_eq!(round[1].dest(), "n3");
}

#[test]
fn handle_on_a_tick_gossips_what_was_just_recorded() {
    let mut node = three_nodes();
    let mut service = Service::new();
    let (round, response) =
        node.handle(&request(2, BroadcastRequest::Broadcast { message: 42 }), &mut service, true);
    assert_eq!(response, Some(BroadcastResponse::BroadcastOk));
    assert_eq!(round.len(), 2);
    assert_eq!(payload_of(&round[0]), &set_of(&[42]));
    assert_eq!(payload_of(&round[1]), &set_of(&[42]));
    assert_eq!(service.outbox_id(), 3);
}

#[test]
fn handle_peer_merges_and_stays_silent() {
    let mut node = three_nodes();
    let mut service = Service::new();
    let reply = node.handle_peer(&gossip("n2", &[1, 2]), &mut service);
    assert_eq!(reply, None);
    assert_eq!(node.snapshot(), set_of(&[1, 2]));
    assert_eq!(node.known_to("n2"), set_of(&[1, 2]));
    assert_eq!(service.outbox_id(), 1);
}

#[test]
fn delivered_gossip_closes_the_gap() {
    let mut sender = BroadcastNode::new(&init_message("n1", &["n1", "n2"]));
    let mut receiver = BroadcastNode::new(&init_message("n2", &["n1", "n2"]));
    let mut service = Service::new();
    receiver.record_value(3);
    sender.merge_gossip("n2", &receiver.snapshot());
    for value in 10..20 {
        sender.record_value(value);
    }
    let message = sender.gossip_to(&mut service, "n2", 50);
    receiver.merge_gossip(message.src(), payload_of(&message));
    assert!(sender.snapshot().is_subset(&receiver.snapshot()));
    assert_eq!(receiver.known_to("n1"), payload_of(&message).clone());
}

#[test]
fn resend_limit_is_the_floor_of_the_share() {
    assert_eq!(resend_limit(10, 8, 50), 5);
    assert_eq!(resend_limit(10, 3, 50), 3);
    assert_eq!(resend_limit(7, 100, 10), 0);
    assert_eq!(resend_limit(25, 100, 10), 2);
    assert_eq!(resend_limit(9, 100, 50), 4);
    assert_eq!(resend_limit(0, 100, 50), 0);
    assert_eq!(resend_limit(10, 0, 50), 0);
    assert_eq!(resend_limit(3, 100, 200), 6);
}

#[test]
fn resend_limit_does_not_overflow() {
    assert_eq!(resend_limit(usize::MAX, usize::MAX, usize::MAX), usize::MAX);
    assert_eq!(resend_limit(usize::MAX, 7, 100), 7);
    assert_eq!(resend_limit(usize::MAX, usize::MAX, 100), usize::MAX);
}

#[test]
fn draws_lie_below_what_is_left() {
    for _ in 0..200 {
        let draws = draw_for(6);
        assert_eq!(draws.len(), 6);
        for (position, draw) in draws.iter().enumerate() {
            assert!(*draw < 6 - position);
        }
    }
    assert!(draw_for(0).is_empty());
}

#[test]
fn draws_vary() {
    let first = draw_for(64);
    assert!((0..20).any(|_| draw_for(64) != first));
}

#[test]
fn selection_follows_the_draws() {
    let known = vec![10, 20, 30, 40];
    assert_eq!(select_resend(&known, 2, &vec![0, 2, 1, 0]), vec![10, 40]);
    assert_eq!(select_resend(&known, 2, &vec![3, 2, 1, 0]), vec![30, 40]);
    assert_eq!(select_resend(&known, 2, &vec![0, 0, 0, 0]), vec![10, 20]);
    assert_eq!(select_resend(&known, 4, &vec![3, 2, 1, 0]), vec![10, 20, 30, 40]);
    assert_eq!(select_resend(&known, 0, &vec![0, 0, 0, 0]), Vec::<usize>::new());
    assert_eq!(select_resend(&known, 1, &vec![1, 1, 1, 0]), vec![40]);
}

#[test]
fn selection_stops_where_the_draws_end() {
    assert_eq!(select_resend(&vec![10, 20, 30], 3, &vec![0]), vec![10]);
    assert_eq!(select_resend(&vec![10], 1, &vec![0, 0, 0]), vec![10]);
    assert_eq!(select_resend(&Vec::new(), 5, &vec![0]), Vec::<usize>::new());
}

#[test]
fn set_items_lists_each_value_once() {
    let mut items = set_items(&set_of(&[3, 1, 2]));
    items.sort();
    assert_eq!(items, vec![1, 2, 3]);
    assert!(set_items(&HashSet::new()).is_empty());
}

#[test]
fn insert_all_adds_every_item() {
    let mut target = set_of(&[1]);
    insert_all(&mut target, &vec![2, 3, 2, 1]);
    assert_eq!(target, set_of(&[1, 2, 3]));
}

#[test]
fn agreeing_draws_select_the_marked_values() {
    let known = vec![10, 20, 30, 40];
    assert_eq!(select_resend(&known, 2, &vec![3, 0, 0, 0]), vec![20, 30]);
    assert_eq!(select_resend(&known, 2, &vec![0, 2, 0, 0]), vec![10, 30]);
    assert_eq!(select_resend(&known, 2, &vec![0, 0, 1, 0]), vec![10, 20]);
}

#[test]
fn every_choice_is_drawn_equally_often() {
    let known = vec![10, 20, 30, 40];
    let mut counts: HashMap<Vec<usize>, usize> = HashMap::new();
    for first in 0..4 {
        for second in 0..3 {
            for third in 0..2 {
                let chosen = select_resend(&known, 2, &vec![first, second, third, 0]);
                assert_eq!(chosen.len(), 2);
                *counts.entry(chosen).or_insert(0) += 1;
            }
        }
    }
    assert_eq!(counts.len(), 6);
    assert!(counts.values().all(|count| *count == 4));
}
