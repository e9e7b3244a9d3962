//! The wire envelope and the handshake payloads.

use vstd::prelude::*;

verus! {

/// What travels inside an envelope: the correlation ids and the typed payload.
#[derive(Debug, Clone, PartialEq, Eq)]
pub struct MessageBody<P> {
    /// The id that the sender's outbox stamped on this message.
    pub message_id: Option<usize>,
    /// On a response, the `message_id` of the request that it answers.
    pub in_reply_to: Option<usize>,
    /// The payload, tagged on the wire by its `type` field.
    pub payload: P,
}

/// One message of the cluster: who sent it, whom it is for and its body.
#[derive(Debug, Clone, PartialEq, Eq)]
pub struct Message<P> {
    /// The id of the sending node or client.
    pub src: String,
    /// The id of the receiving node or client.
    pub dest: String,
    /// The correlation ids and the payload.
    pub body: MessageBody<P>,
}

impl<P> Message<P> {
    /// The payload that this message carries.
    pub fn payload(&self) -> (payload: &P)
        ensures
            *payload == self.body.payload,
    {
        &self.body.payload
    }

    /// The id of the sender.
    pub fn src(&self) -> (src: &str)
        ensures
            src@ == self.src@,
    {
        self.src.as_str()
    }

    /// The id of the receiver.
    pub fn dest(&self) -> (dest: &str)
        ensures
            dest@ == self.dest@,
    {
        self.dest.as_str()
    }

    /// The id that the sender stamped on this message, if any.
    pub fn message_id(&self) -> (id: Option<usize>)
        ensures
            id == self.body.message_id,
    {
        self.body.message_id
    }

    /// The id of the request that this message answers, if it is a response.
    pub fn in_reply_to(&self) -> (id: Option<usize>)
        ensures
            id == self.body.in_reply_to,
    {
        self.body.in_reply_to
    }
}

/// The first message that a node receives: its own id and the ids of all
/// nodes of the cluster.
#[derive(Debug, Clone, PartialEq, Eq)]
pub enum InitializationRequest {
    /// `id` names the node, `neighbors` every node of the cluster.
    Init { id: String, neighbors: Vec<String> },
}

/// The acknowledgement of the handshake.
#[derive(Debug, Clone, Copy, PartialEq, Eq, Structural)]
pub enum InitializationResponse {
    /// The node is ready.
    InitOk,
}

/// Either message of the handshake, for code that treats the two alike.
#[derive(Debug, Clone, PartialEq, Eq)]
pub enum InitializationPayload {
    /// `id` names the node, `neighbors` every node of the cluster.
    Init { id: String, neighbors: Vec<String> },
    /// The node is ready.
    InitOk,
}

/// A message of the handshake.
pub type InitializationMessage = Message<InitializationPayload>;

/// An envelope in the making: the addresses and the correlation ids, before
/// a payload is attached.
#[derive(Debug, Clone, PartialEq, Eq)]
pub struct MessageBuilder {
    src: String,
    dest: String,
    message_id: Option<usize>,
    in_reply_to: Option<usize>,
}

/// An envelope in the making that has its payload.
#[derive(Debug, Clone, PartialEq, Eq)]
pub struct PayloadBuilder<P> {
    header: MessageBuilder,
    payload: P,
}

impl MessageBuilder {
    /// The sender that the envelope will name.
    pub closed spec fn sender(&self) -> Seq<char> {
        self.src@
    }

    /// The receiver that the envelope will name.
    pub closed spec fn receiver(&self) -> Seq<char> {
        self.dest@
    }

    /// The id that the envelope will carry.
    pub closed spec fn stamp(&self) -> Option<usize> {
        self.message_id
    }

    /// The id of the request that the envelope will answer.
    pub closed spec fn correlation(&self) -> Option<usize> {
        self.in_reply_to
    }

    /// Starts an envelope from `src` to `dest`, with no ids yet.
    pub fn new(src: String, dest: String) -> (builder: Self)
        ensures
            builder.sender() == src@,
            builder.receiver() == dest@,
            builder.stamp().is_none(),
            builder.correlation().is_none(),
    {
        MessageBuilder { src, dest, message_id: None, in_reply_to: None }
    }

    /// Sets the id that the envelope will carry.
    pub fn message_id(self, id: Option<usize>) -> (builder: Self)
        ensures
            builder.sender() == self.sender(),
            builder.receiver() == self.receiver(),
            builder.stamp() == id,
            builder.correlation() == self.correlation(),
    {
        MessageBuilder { src: self.src, dest: self.dest, message_id: id, in_reply_to: self.in_reply_to }
    }

    /// Sets the id of the request that the envelope will answer.
    pub fn in_reply_to(self, id: Option<usize>) -> (builder: Self)
        ensures
            builder.sender() == self.sender(),
            builder.receiver() == self.receiver(),
            builder.stamp() == self.stamp(),
            builder.correlation() == id,
    {
        MessageBuilder { src: self.src, dest: self.dest, message_id: self.message_id, in_reply_to: id }
    }

    /// Attaches the payload.
    pub fn with_payload<P>(self, payload: P) -> (builder: PayloadBuilder<P>)
        ensures
            builder.header() == self,
            builder.content() == payload,
    {
        PayloadBuilder { header: self, payload }
    }
}

impl<P> PayloadBuilder<P> {
    /// The addresses and ids that the envelope will carry.
    pub closed spec fn header(&self) -> MessageBuilder {
        self.header
    }

    /// The payload that the envelope will carry.
    pub closed spec fn content(&self) -> P {
        self.payload
    }

    /// Finishes the envelope.
    pub fn build(self) -> (message: Message<P>)
        ensures
            message.src@ == self.header().sender(),
            message.dest@ == self.header().receiver(),
            message.body.message_id == self.header().stamp(),
            message.body.in_reply_to == self.header().correlation(),
            message.body.payload == self.content(),
    {
        Message {
            src: self.header.src,
            dest: self.header.dest,
            body: MessageBody {
                message_id: self.header.message_id,
                in_reply_to: self.header.in_reply_to,
                payload: self.payload,
            },
        }
    }
}

/// The node ids of a list, each as its sequence of characters.
pub open spec fn names(ids: Seq<String>) -> Seq<Seq<char>> {
    ids.map_values(|id: String| id@)
}

/// A copy of a list of node ids.
pub fn clone_names(ids: &Vec<String>) -> (copy: Vec<String>)
    ensures
        names(copy@) == names(ids@),
{
    let mut copy: Vec<String> = Vec::new();
    let mut i: usize = 0;
    while i < ids.len()
        invariant
            i <= ids@.len(),
            names(copy@) == names(ids@).take(i as int),
        decreases ids@.len() - i,
    {
        let ghost before = copy@;
        copy.push(ids[i].clone());
        assert(names(copy@) == names(before).push(ids@[i as int]@));
        assert(names(ids@).take(i + 1) == names(ids@).take(i as int).push(ids@[i as int]@));
        i = i + 1;
    }
    assert(names(ids@).take(ids@.len() as int) == names(ids@));
    copy
}

} // verus!
