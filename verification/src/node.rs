//! A node as the handshake leaves it: its identity and its own counter of
//! outbound ids, for code that builds its replies by hand.

use vstd::prelude::*;
use crate::error::MaelstromError;
use crate::message::{
    clone_names, names, InitializationMessage, InitializationPayload, Message, MessageBuilder,
};

verus! {

/// The identity of a node and the counter that stamps what it sends. The
/// counter starts at 0, only grows and is never reset.
#[derive(Debug)]
pub struct Node {
    id: String,
    neighbors: Vec<String>,
    message_id: usize,
}

impl Node {
    /// The id of this node.
    pub closed spec fn node_id(&self) -> Seq<char> {
        self.id@
    }

    /// The node ids that the handshake listed.
    pub closed spec fn neighbors(&self) -> Seq<Seq<char>> {
        names(self.neighbors@)
    }

    /// The id that the next reply will carry.
    pub closed spec fn next_id(&self) -> usize {
        self.message_id
    }

    /// The node that an initialization message describes. A handshake
    /// message that is no request to initialize is refused.
    pub fn new(init_message: &InitializationMessage) -> (created: Result<Self, MaelstromError>)
        ensures
            match init_message.body.payload {
                InitializationPayload::Init { id, neighbors } => {
                    &&& created matches Ok(node)
                    &&& node.node_id() == id@
                    &&& node.neighbors() == names(neighbors@)
                    &&& node.next_id() == 0
                },
                InitializationPayload::InitOk => created matches Err(error) && error
                    == MaelstromError::InitializationMessageMissing,
            },
    {
        match &init_message.body.payload {
            InitializationPayload::Init { id, neighbors } => Ok(
                Node { id: id.clone(), neighbors: clone_names(neighbors), message_id: 0 },
            ),
            InitializationPayload::InitOk => Err(MaelstromError::InitializationMessageMissing),
        }
    }

    /// The id of this node.
    pub fn id(&self) -> (id: &str)
        ensures
            id@ == self.node_id(),
    {
        self.id.as_str()
    }

    /// The node ids that the handshake listed.
    pub fn neighbor_ids(&self) -> (ids: &Vec<String>)
        ensures
            names(ids@) == self.neighbors(),
    {
        &self.neighbors
    }

    /// The id that the next reply will carry.
    pub fn message_id(&self) -> (id: usize)
        ensures
            id == self.next_id(),
    {
        self.message_id
    }

    /// Starts the reply to `message`: from this node to the sender of the
    /// message, stamped with a fresh id and correlated with the id of the
    /// message.
    pub fn respond_to<T>(&mut self, message: &Message<T>) -> (builder: MessageBuilder)
        requires
            old(self).next_id() < usize::MAX,
        ensures
            final(self).next_id() == old(self).next_id() + 1,
            final(self).node_id() == old(self).node_id(),
            final(self).neighbors() == old(self).neighbors(),
            builder.sender() == old(self).node_id(),
            builder.receiver() == message.src@,
            builder.stamp() == Some(old(self).next_id()),
            builder.correlation() == message.body.message_id,
    {
        let builder: MessageBuilder = MessageBuilder::new(
            self.id.clone(),
            message.src.clone(),
        ).message_id(Some(self.message_id)).in_reply_to(message.body.message_id);
        self.message_id = self.message_id + 1;
        builder
    }
}

/// Performs the handshake: creates the node that `init_message` describes
/// and builds the acknowledgement, which carries the first id of the node.
/// A handshake message that is no request to initialize is refused.
pub fn initialize_node(init_message: &InitializationMessage) -> (outcome: Result<
    (Node, InitializationMessage),
    MaelstromError,
>)
    ensures
        match init_message.body.payload {
            InitializationPayload::Init { id, neighbors } => {
                &&& outcome matches Ok((node, ack))
                &&& node.node_id() == id@
                &&& node.neighbors() == names(neighbors@)
                &&& node.next_id() == 1
                &&& ack.src@ == id@
                &&& ack.dest@ == init_message.src@
                &&& ack.body.message_id == Some(0usize)
                &&& ack.body.in_reply_to == init_message.body.message_id
                &&& ack.body.payload is InitOk
            },
            InitializationPayload::InitOk => outcome matches Err(error) && error
                == MaelstromError::InitializationMessageMissing,
        },
{
    match Node::new(init_message) {
        Ok(node) => {
            let mut node: Node = node;
            let ack: InitializationMessage = node.respond_to(init_message).with_payload(
                InitializationPayload::InitOk,
            ).build();
            Ok((node, ack))
        },
        Err(error) => Err(error),
    }
}

} // verus!
