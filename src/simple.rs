//! The two stateless nodes that share the envelope: one echoes, one hands
//! out unique ids. Each keeps only its message-id counter.
use vstd::prelude::*;
use crate::node::bump;
use crate::protocol::{ErrorCode, Message, Payload, reply_to};

verus! {

/// Relies on uuid::Uuid::new_v4: a fresh random id. Nothing is promised of
/// its value.
#[verifier::external_body]
fn new_uuid() -> (r: uuid::Uuid) {
    uuid::Uuid::new_v4()
}

/// The payload owed to a request of the echo node.
pub open spec fn echo_answers(req: Payload, resp: Payload) -> bool {
    match req {
        Payload::Init { .. } => resp is InitOk,
        Payload::Echo { echo } => resp is EchoOk && resp->EchoOk_echo@ == echo@,
        _ => resp is Error && resp->code == ErrorCode::NotSupported && resp->text@
            == crate::node::not_supported_text(),
    }
}

/// The payload owed to a request of the unique-id node, `id` being the
/// fresh id drawn for it.
pub open spec fn id_answers(req: Payload, resp: Payload, id: uuid::Uuid) -> bool {
    match req {
        Payload::Init { .. } => resp is InitOk,
        Payload::Generate { .. } => resp is GenerateOk && resp->id == id,
        _ => resp is Error && resp->code == ErrorCode::NotSupported && resp->text@
            == crate::node::not_supported_text(),
    }
}

/// Whether `reply` is addressed back to the sender of `req`, carries the
/// message id `id` and refers to `req`'s id.
pub open spec fn replies(req: Message, reply: Message, id: usize) -> bool {
    &&& reply.src@ == req.dst@
    &&& reply.dst@ == req.src@
    &&& reply.body.msg_id == Some(id)
    &&& reply.body.in_reply_to == req.body.msg_id
}

fn not_supported() -> (r: Payload)
    ensures
        r is Error && r->code == ErrorCode::NotSupported && r->text@
            == crate::node::not_supported_text(),
{
    proof {
        reveal_strlit("Operation not supported");
    }
    Payload::Error { code: ErrorCode::NotSupported, text: "Operation not supported".to_owned() }
}

/// A node that answers `echo` with the same text.
pub struct EchoNode {
    next_msg_id: usize,
}

impl EchoNode {
    pub closed spec fn next_msg_id(&self) -> usize {
        self.next_msg_id
    }

    pub fn new(first_msg_id: usize) -> (r: EchoNode)
        ensures
            r.next_msg_id() == first_msg_id,
    {
        EchoNode { next_msg_id: first_msg_id }
    }

    pub fn handle_request(&mut self, msg: &Message) -> (reply: Message)
        ensures
            final(self).next_msg_id() == bump(old(self).next_msg_id()),
            replies(*msg, reply, old(self).next_msg_id()),
            echo_answers(msg.body.payload, reply.body.payload),
    {
        let id = self.next_msg_id;
        self.next_msg_id = self.next_msg_id.wrapping_add(1);
        let payload = match &msg.body.payload {
            Payload::Init { .. } => Payload::InitOk {},
            Payload::Echo { echo } => Payload::EchoOk { echo: echo.clone() },
            _ => not_supported(),
        };
        reply_to(msg, id, payload)
    }
}

/// A node that answers `generate` with a fresh random id.
pub struct UniqueIdNode {
    next_msg_id: usize,
}

impl UniqueIdNode {
    pub closed spec fn next_msg_id(&self) -> usize {
        self.next_msg_id
    }

    pub fn new(first_msg_id: usize) -> (r: UniqueIdNode)
        ensures
            r.next_msg_id() == first_msg_id,
    {
        UniqueIdNode { next_msg_id: first_msg_id }
    }

    /// The reply to `msg`, with `fresh` as the id handed out if it is a
    /// `generate`.
    pub fn reply_with(&mut self, msg: &Message, fresh: uuid::Uuid) -> (reply: Message)
        ensures
            final(self).next_msg_id() == bump(old(self).next_msg_id()),
            replies(*msg, reply, old(self).next_msg_id()),
            id_answers(msg.body.payload, reply.body.payload, fresh),
    {
        let id = self.next_msg_id;
        self.next_msg_id = self.next_msg_id.wrapping_add(1);
        let payload = match &msg.body.payload {
            Payload::Init { .. } => Payload::InitOk {},
            Payload::Generate {} => Payload::GenerateOk { id: fresh },
            _ => not_supported(),
        };
        reply_to(msg, id, payload)
    }

    /// The reply to `msg`, drawing a fresh random id for a `generate`.
    pub fn handle_request(&mut self, msg: &Message) -> (reply: Message)
        ensures
            final(self).next_msg_id() == bump(old(self).next_msg_id()),
            replies(*msg, reply, old(self).next_msg_id()),
            exists|fresh: uuid::Uuid| id_answers(msg.body.payload, reply.body.payload, fresh),
    {
        let fresh = new_uuid();
        self.reply_with(msg, fresh)
    }
}

} // verus!
