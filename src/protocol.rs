//! The message envelope: source, destination and a body whose payload is a
//! closed sum over the supported operations.
use vstd::prelude::*;

verus! {

/// Carried through replies of the unique-id node without being inspected.
#[verifier::external_type_specification]
#[verifier::external_body]
pub struct ExUuid(uuid::Uuid);

/// Error codes of the protocol. This library only ever produces
/// `NotSupported`; the others are reserved for other primitives.
#[derive(Clone, Copy, Debug, PartialEq, Eq, Structural)]
pub enum ErrorCode {
    Timeout,
    NodeNotFound,
    NotSupported,
    TemporarilyUnavailable,
    MalformedRequest,
    Crash,
    Abort,
    KeyDoesNotExist,
    KeyAlreadyExists,
    PreconditionFailed,
    TxnConflict,
}

/// Whether some error code goes by the wire number `c`.
pub open spec fn is_code(c: u8) -> bool {
    c == 0 || c == 1 || (10 <= c <= 14) || (20 <= c <= 22) || c == 30
}

impl ErrorCode {
    /// The number that stands for this code on the wire.
    pub open spec fn spec_code(self) -> u8 {
        match self {
            ErrorCode::Timeout => 0,
            ErrorCode::NodeNotFound => 1,
            ErrorCode::NotSupported => 10,
            ErrorCode::TemporarilyUnavailable => 11,
            ErrorCode::MalformedRequest => 12,
            ErrorCode::Crash => 13,
            ErrorCode::Abort => 14,
            ErrorCode::KeyDoesNotExist => 20,
            ErrorCode::KeyAlreadyExists => 21,
            ErrorCode::PreconditionFailed => 22,
            ErrorCode::TxnConflict => 30,
        }
    }

    pub fn code(&self) -> (r: u8)
        ensures
            r == self.spec_code(),
    {
        match self {
            ErrorCode::Timeout => 0,
            ErrorCode::NodeNotFound => 1,
            ErrorCode::NotSupported => 10,
            ErrorCode::TemporarilyUnavailable => 11,
            ErrorCode::MalformedRequest => 12,
            ErrorCode::Crash => 13,
            ErrorCode::Abort => 14,
            ErrorCode::KeyDoesNotExist => 20,
            ErrorCode::KeyAlreadyExists => 21,
            ErrorCode::PreconditionFailed => 22,
            ErrorCode::TxnConflict => 30,
        }
    }

    /// The code that a wire number stands for; `None` for a number that no
    /// code uses.
    pub fn from_code(c: u8) -> (r: Option<ErrorCode>)
        ensures
            r matches Some(e) ==> e.spec_code() == c,
            r is None <==> !is_code(c),
    {
        let r = match c {
            0 => Some(ErrorCode::Timeout),
            1 => Some(ErrorCode::NodeNotFound),
            10 => Some(ErrorCode::NotSupported),
            11 => Some(ErrorCode::TemporarilyUnavailable),
            12 => Some(ErrorCode::MalformedRequest),
            13 => Some(ErrorCode::Crash),
            14 => Some(ErrorCode::Abort),
            20 => Some(ErrorCode::KeyDoesNotExist),
            21 => Some(ErrorCode::KeyAlreadyExists),
            22 => Some(ErrorCode::PreconditionFailed),
            30 => Some(ErrorCode::TxnConflict),
            _ => None,
        };
        r
    }
}

/// The operation a body carries, with its own fields. `Gossip` never
/// travels on the wire: it is the periodic trigger of an anti-entropy round.
#[derive(Debug)]
pub enum Payload {
    Error { code: ErrorCode, text: String },
    Init { node_id: String, node_ids: Vec<String> },
    InitOk {},
    Broadcast { message: usize },
    BroadcastOk {},
    Echo { echo: String },
    EchoOk { echo: String },
    Generate {},
    GenerateOk { id: uuid::Uuid },
    Read {},
    ReadOk { messages: Vec<usize> },
    /// Each entry names a node and its neighbours.
    Topology { topology: Vec<(String, Vec<String>)> },
    TopologyOk {},
    Gossip {},
}

/// The correlation fields shared by every body, and its payload.
#[derive(Debug)]
pub struct Body {
    pub msg_id: Option<usize>,
    pub in_reply_to: Option<usize>,
    pub payload: Payload,
}

/// The envelope: who sends, to whom, and what.
#[derive(Debug)]
pub struct Message {
    pub src: String,
    pub dst: String,
    pub body: Body,
}

/// A reply to `req` from its destination, carrying `payload` under the
/// fresh message id `id`.
pub fn reply_to(req: &Message, id: usize, payload: Payload) -> (r: Message)
    ensures
        r.src@ == req.dst@,
        r.dst@ == req.src@,
        r.body.msg_id == Some(id),
        r.body.in_reply_to == req.body.msg_id,
        r.body.payload == payload,
{
    Message {
        src: req.dst.clone(),
        dst: req.src.clone(),
        body: Body { msg_id: Some(id), in_reply_to: req.body.msg_id, payload },
    }
}

} // verus!
