//! The outbox: the only source of message ids in a node.

use vstd::prelude::*;
use crate::message::{Message, MessageBody};

verus! {

/// Whether `reply` is addressed back to the sender of `request`, stamped
/// with `id` and correlated with the id of the request.
pub open spec fn is_reply<T, U>(reply: Message<U>, request: Message<T>, id: int) -> bool {
    &&& reply.src@ == request.dest@
    &&& reply.dest@ == request.src@
    &&& reply.body.message_id == Some(id as usize)
    &&& reply.body.in_reply_to == request.body.message_id
}

/// The outbox of one node. It stamps every outbound message with the next
/// id of a counter that starts at 1, only grows and is never reset.
pub struct Service {
    outbox_id: usize,
}

impl Service {
    /// The id that the next outbound message will carry.
    pub closed spec fn next_id(&self) -> usize {
        self.outbox_id
    }

    /// An outbox that has sent nothing yet.
    pub fn new() -> (service: Self)
        ensures
            service.next_id() == 1,
    {
        Service { outbox_id: 1 }
    }

    /// The id that the next outbound message will carry.
    pub fn outbox_id(&self) -> (id: usize)
        ensures
            id == self.next_id(),
    {
        self.outbox_id
    }

    /// Builds the reply to `message`: addressed back to its sender, stamped
    /// with a fresh id and correlated with the request's id.
    pub fn respond_to<T, U>(&mut self, message: &Message<T>, payload: U) -> (reply: Message<U>)
        requires
            old(self).next_id() < usize::MAX,
        ensures
            final(self).next_id() == old(self).next_id() + 1,
            is_reply(reply, *message, old(self).next_id() as int),
            reply.body.payload == payload,
    {
        let reply = Message {
            src: message.dest.clone(),
            dest: message.src.clone(),
            body: MessageBody {
                message_id: Some(self.outbox_id),
                in_reply_to: message.body.message_id,
                payload,
            },
        };
        self.outbox_id = self.outbox_id + 1;
        reply
    }

    /// Builds a fire-and-forget message from `src` to `dest`, stamped with a
    /// fresh id and correlated with nothing.
    pub fn peer_rpc<T>(&mut self, src: String, dest: String, payload: T) -> (message: Message<T>)
        requires
            old(self).next_id() < usize::MAX,
        ensures
            final(self).next_id() == old(self).next_id() + 1,
            message.src == src,
            message.dest == dest,
            message.body.message_id == Some(old(self).next_id()),
            message.body.in_reply_to.is_none(),
            message.body.payload == payload,
    {
        let message = Message {
            src,
            dest,
            body: MessageBody { message_id: Some(self.outbox_id), in_reply_to: None, payload },
        };
        self.outbox_id = self.outbox_id + 1;
        message
    }
}

} // verus!
