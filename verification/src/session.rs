//! The life of a node: the handshake, then the routing of every decoded
//! line to the client handler or to the peer handler.
//!
//! The transport reads a line, decodes it in each shape it may have, and
//! hands the outcome to [`Session::step`], which says what to write.

use vstd::prelude::*;
use crate::broadcast::{
    answers, is_other, values_after, BroadcastNode, BroadcastRequest, BroadcastResponse,
    PeerPayload, REDUNDANCY_PERCENT,
};
use crate::error::MaelstromError;
use crate::message::{names, InitializationRequest, InitializationResponse, Message};
use crate::service::{is_reply, Service};

verus! {

/// One input line, decoded in each shape that a line may have. A field is
/// `None` where the line does not decode in that shape.
#[derive(Debug, PartialEq, Eq)]
pub struct Line {
    /// The line as an initialization message.
    pub init: Option<Message<InitializationRequest>>,
    /// The line as a client request.
    pub request: Option<Message<BroadcastRequest>>,
    /// The line as a message of a peer.
    pub peer: Option<Message<PeerPayload>>,
}

/// One message for the transport to write.
#[derive(Debug, PartialEq, Eq)]
pub enum Outbound {
    /// Gossip for a peer.
    Gossip(Message<PeerPayload>),
    /// The acknowledgement of the handshake.
    Handshake(Message<InitializationResponse>),
    /// The answer to a client request.
    Reply(Message<BroadcastResponse>),
}

/// What a step leaves for the transport to write: first every message of
/// `gossip`, then `handshake`, then `reply`.
#[derive(Debug, PartialEq, Eq)]
pub struct Outbox {
    /// The gossip round, one message for each peer, if a tick was pending.
    pub gossip: Vec<Message<PeerPayload>>,
    /// The acknowledgement of the handshake.
    pub handshake: Option<Message<InitializationResponse>>,
    /// The answer to a client request.
    pub reply: Option<Message<BroadcastResponse>>,
}

/// Gossip as a message for the transport.
pub open spec fn as_outbound() -> spec_fn(Message<PeerPayload>) -> Outbound {
    |message: Message<PeerPayload>| Outbound::Gossip(message)
}

impl Outbox {
    /// The messages in the order in which they are to be written.
    pub open spec fn in_order(&self) -> Seq<Outbound> {
        self.gossip@.map_values(as_outbound()) + (
        match self.handshake {
            Some(ack) => seq![Outbound::Handshake(ack)],
            None => Seq::empty(),
        }) + (match self.reply {
            Some(reply) => seq![Outbound::Reply(reply)],
            None => Seq::empty(),
        })
    }

    /// The messages in the order in which they are to be written.
    pub fn into_messages(self) -> (messages: Vec<Outbound>)
        ensures
            messages@ == self.in_order(),
    {
        let ghost gossip = self.gossip@;
        let mut messages: Vec<Outbound> = Vec::new();
        for message in iter: self.gossip.into_iter()
            invariant
                iter.seq() == gossip,
                messages@ == gossip.take(iter.index() as int).map_values(as_outbound()),
        {
            let ghost before = messages@;
            messages.push(Outbound::Gossip(message));
            assert(messages@ == gossip.take(iter.index() + 1).map_values(as_outbound())) by {
                assert(gossip.take(iter.index() + 1) == gossip.take(iter.index() as int).push(
                    message,
                ));
                assert(before.push(as_outbound()(message)) == gossip.take(
                    iter.index() + 1,
                ).map_values(as_outbound()));
            }
        }
        assert(gossip.take(gossip.len() as int) == gossip);
        match self.handshake {
            Some(ack) => {
                messages.push(Outbound::Handshake(ack));
            },
            None => {},
        }
        match self.reply {
            Some(reply) => {
                messages.push(Outbound::Reply(reply));
            },
            None => {},
        }
        assert(messages@ == self.in_order());
        messages
    }
}

/// A node process: uninitialized until the handshake, ready ever after.
pub struct Session {
    service: Service,
    node: Option<BroadcastNode>,
}

impl Session {
    /// Whether the handshake is done.
    pub closed spec fn ready(&self) -> bool {
        self.node.is_some()
    }

    /// The node that the handshake created. It means something only on a
    /// ready session.
    pub closed spec fn node(&self) -> BroadcastNode {
        self.node.unwrap()
    }

    /// The id that the next outbound message will carry.
    pub closed spec fn next_id(&self) -> usize {
        self.service.next_id()
    }

    /// The number of ids that one step may use up: one for each peer and
    /// one for the answer.
    pub open spec fn demand(&self) -> nat {
        if self.ready() {
            self.node().peers().len() + 1
        } else {
            1
        }
    }

    /// The node, once there is one, is well formed.
    pub closed spec fn wf(&self) -> bool {
        self.ready() ==> self.node().wf()
    }

    /// A process that has read nothing yet.
    pub fn new() -> (session: Self)
        ensures
            session.wf(),
            !session.ready(),
            session.next_id() == 1,
    {
        Session { service: Service::new(), node: None }
    }

    /// Whether the handshake is done.
    pub fn is_ready(&self) -> (ready: bool)
        ensures
            ready == self.ready(),
    {
        self.node.is_some()
    }

    /// Whether the outbox has the ids left that one more step may use up.
    pub fn has_room(&self) -> (room: bool)
        ensures
            room == (self.next_id() + self.demand() <= usize::MAX),
    {
        let peers: usize = match &self.node {
            Some(node) => node.peer_ids().len(),
            None => 0,
        };
        let left: usize = usize::MAX - self.service.outbox_id();
        peers < left
    }

    /// Every value that the node has learned; nothing before the handshake.
    pub fn snapshot(&self) -> (values: Option<std::collections::HashSet<usize>>)
        ensures
            self.ready() ==> values.is_some() && values.unwrap()@ == self.node().values(),
            !self.ready() ==> values.is_none(),
    {
        match &self.node {
            Some(node) => Some(node.snapshot()),
            None => None,
        }
    }

    /// Takes one decoded line and says what to write.
    ///
    /// Before the handshake only an initialization message is accepted: it
    /// creates the node and is acknowledged. After it a line that is a
    /// client request is served and answered; else a line that is a message
    /// of a peer is merged; any other line is a parse error. After a
    /// client request or a message of a peer is handled, a pending `tick`
    /// adds one gossip round. An error changes nothing, and a ready session
    /// stays ready.
    pub fn step(&mut self, line: &Line, tick: bool) -> (outcome: Result<Outbox, MaelstromError>)
        requires
            old(self).wf(),
            old(self).next_id() + old(self).demand() <= usize::MAX,
        ensures
            final(self).wf(),
            old(self).ready() ==> final(self).ready(),
            !old(self).ready() ==> match line.init {
                Some(init) => {
                    &&& outcome matches Ok(outbox)
                    &&& outbox.gossip@.len() == 0
                    &&& outbox.reply.is_none()
                    &&& outbox.handshake matches Some(ack)
                    &&& is_reply(ack, init, old(self).next_id() as int)
                    &&& final(self).ready()
                    &&& final(self).next_id() == old(self).next_id() + 1
                    &&& final(self).node().values() == Set::<usize>::empty()
                    &&& forall|peer: Seq<char>|
                        final(self).node().knowledge(peer) == Set::<usize>::empty()
                    &&& init.body.payload matches InitializationRequest::Init { id, neighbors }
                    &&& final(self).node().node_id() == id@
                    &&& final(self).node().peers() == names(neighbors@).filter(is_other(id@))
                },
                None => {
                    &&& outcome == Err::<Outbox, MaelstromError>(
                        MaelstromError::InitializationMessageMissing,
                    )
                    &&& !final(self).ready()
                    &&& final(self).next_id() == old(self).next_id()
                },
            },
            old(self).ready() ==> {
                let before = old(self).node();
                let after = final(self).node();
                let round = if tick {
                    before.peers().len()
                } else {
                    0
                };
                &&& after.node_id() == before.node_id()
                &&& after.peers() == before.peers()
                &&& match (line.request, line.peer) {
                    (Some(request), _) => {
                        &&& outcome matches Ok(outbox)
                        &&& after.values() == values_after(before.values(), request.body.payload)
                        &&& forall|peer: Seq<char>| after.knowledge(peer) == before.knowledge(peer)
                        &&& outbox.handshake.is_none()
                        &&& outbox.reply matches Some(reply)
                        &&& is_reply(reply, request, old(self).next_id() + round)
                        &&& answers(request.body.payload, after.values(), reply.body.payload)
                        &&& final(self).next_id() == old(self).next_id() + round + 1
                    },
                    (None, Some(gossip)) => {
                        &&& outcome matches Ok(outbox)
                        &&& outbox.handshake.is_none()
                        &&& outbox.reply.is_none()
                        &&& final(self).next_id() == old(self).next_id() + round
                        &&& gossip.body.payload matches PeerPayload::Gossip { messages }
                        &&& before.merged_into(gossip.src@, messages@, after)
                    },
                    (None, None) => {
                        &&& outcome == Err::<Outbox, MaelstromError>(
                            MaelstromError::MessageParseError,
                        )
                        &&& after.values() == before.values()
                        &&& forall|peer: Seq<char>| after.knowledge(peer) == before.knowledge(peer)
                        &&& final(self).next_id() == old(self).next_id()
                    },
                }
                &&& outcome matches Ok(outbox) ==> if tick {
                    after.is_round(outbox.gossip@, old(self).next_id() as int, REDUNDANCY_PERCENT)
                } else {
                    outbox.gossip@.len() == 0
                }
            },
    {
        match &mut self.node {
            None => match &line.init {
                Some(init) => {
                    let node: BroadcastNode = BroadcastNode::new(init);
                    let ack: Message<InitializationResponse> = self.service.respond_to(
                        init,
                        InitializationResponse::InitOk,
                    );
                    self.node = Some(node);
                    Ok(Outbox { gossip: Vec::new(), handshake: Some(ack), reply: None })
                },
                None => Err(MaelstromError::InitializationMessageMissing),
            },
            Some(node) => match &line.request {
                Some(request) => {
                    let handled = node.handle(request, &mut self.service, tick);
                    match handled.1 {
                        Some(response) => {
                            let reply: Message<BroadcastResponse> = self.service.respond_to(
                                request,
                                response,
                            );
                            Ok(Outbox { gossip: handled.0, handshake: None, reply: Some(reply) })
                        },
                        None => Ok(Outbox { gossip: handled.0, handshake: None, reply: None }),
                    }
                },
                None => match &line.peer {
                    Some(gossip) => {
                        let answer: Option<PeerPayload> = node.handle_peer(gossip, &mut self.service);
                        let round: Vec<Message<PeerPayload>> = if tick {
                            node.gossip_round(&mut self.service, REDUNDANCY_PERCENT)
                        } else {
                            Vec::new()
                        };
                        Ok(Outbox { gossip: round, handshake: None, reply: None })
                    },
                    None => Err(MaelstromError::MessageParseError),
                },
            },
        }
    }
}

} // verus!
