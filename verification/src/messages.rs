//! Typed protocol messages: a tagged union of requests and responses.
//!
//! Every variant maps to exactly one reserved one-byte discriminant; the
//! mapping is a fixed registry, never inferred from content.

use vstd::prelude::*;

verus! {

use crate::u256::U256;

/// Reserved discriminant for [`Ping`].
pub const PING_ID: u8 = 1;

/// Reserved discriminant for [`Pong`].
pub const PONG_ID: u8 = 2;

/// Reserved discriminant for [`FindNodes`].
pub const FIND_NODES_ID: u8 = 3;

/// Reserved discriminant for [`Nodes`].
pub const NODES_ID: u8 = 4;

/// Reserved discriminant for [`FindContent`].
pub const FIND_CONTENT_ID: u8 = 5;

/// Reserved discriminant for [`FoundContent`].
pub const FOUND_CONTENT_ID: u8 = 6;

/// An opaque, self-describing peer identity record, held in its own
/// independent byte encoding. The record's internals (public key, address,
/// sequence number) belong to the discovery collaborator; this core only
/// carries the bytes.
#[derive(Debug, PartialEq, Eq)]
pub struct Enr {
    pub bytes: Vec<u8>,
}

impl View for Enr {
    type V = Seq<u8>;

    open spec fn view(&self) -> Seq<u8> {
        self.bytes@
    }
}

impl Clone for Enr {
    fn clone(&self) -> (r: Self)
        ensures
            r@ == self@,
    {
        Enr { bytes: vstd::slice::slice_to_vec(self.bytes.as_slice()) }
    }
}

/// The byte encodings of a sequence of peer records.
pub open spec fn spec_enrs_view(enrs: Seq<Enr>) -> Seq<Seq<u8>> {
    Seq::new(enrs.len(), |i: int| enrs[i]@)
}

/// Request to check liveness and exchange advertised state.
#[derive(Clone, Copy, Debug, PartialEq, Eq, Structural)]
pub struct Ping {
    pub enr_seq: u32,
    pub data_radius: U256,
}

/// Response to [`Ping`], carrying the responder's own advertised state.
#[derive(Clone, Copy, Debug, PartialEq, Eq, Structural)]
pub struct Pong {
    pub enr_seq: u32,
    pub data_radius: U256,
}

/// Request for the peers sitting at the given Kademlia distances.
#[derive(Clone, Debug, PartialEq, Eq)]
pub struct FindNodes {
    pub distances: Vec<u16>,
}

/// Response to [`FindNodes`]: a count and the matching peer records.
#[derive(Clone, Debug, PartialEq, Eq)]
pub struct Nodes {
    pub total: u8,
    pub enrs: Vec<Enr>,
}

/// Request for the content stored under an opaque content key.
#[derive(Clone, Debug, PartialEq, Eq)]
pub struct FindContent {
    pub content_key: Vec<u8>,
}

/// Response to [`FindContent`]: closer peers and/or the content payload.
#[derive(Clone, Debug, PartialEq, Eq)]
pub struct FoundContent {
    pub enrs: Vec<Enr>,
    pub payload: Vec<u8>,
}

/// The request variants of the protocol.
#[derive(Clone, Debug, PartialEq, Eq)]
pub enum Request {
    Ping(Ping),
    FindNodes(FindNodes),
    FindContent(FindContent),
}

/// The response variants of the protocol.
#[derive(Clone, Debug, PartialEq, Eq)]
pub enum Response {
    Pong(Pong),
    Nodes(Nodes),
    FoundContent(FoundContent),
}

/// A protocol message: either a request or a response.
#[derive(Clone, Debug, PartialEq, Eq)]
pub enum Message {
    Request(Request),
    Response(Response),
}

/// Mathematical model of a request, with sequences in place of vectors.
pub enum RequestV {
    Ping { enr_seq: u32, data_radius: U256 },
    FindNodes { distances: Seq<u16> },
    FindContent { content_key: Seq<u8> },
}

/// Mathematical model of a response, with sequences in place of vectors.
pub enum ResponseV {
    Pong { enr_seq: u32, data_radius: U256 },
    Nodes { total: u8, enrs: Seq<Seq<u8>> },
    FoundContent { enrs: Seq<Seq<u8>>, payload: Seq<u8> },
}

/// Mathematical model of a message.
pub enum MessageV {
    Request(RequestV),
    Response(ResponseV),
}

impl View for Request {
    type V = RequestV;

    open spec fn view(&self) -> RequestV {
        match self {
            Request::Ping(p) => RequestV::Ping { enr_seq: p.enr_seq, data_radius: p.data_radius },
            Request::FindNodes(f) => RequestV::FindNodes { distances: f.distances@ },
            Request::FindContent(f) => RequestV::FindContent { content_key: f.content_key@ },
        }
    }
}

impl View for Response {
    type V = ResponseV;

    open spec fn view(&self) -> ResponseV {
        match self {
            Response::Pong(p) => ResponseV::Pong { enr_seq: p.enr_seq, data_radius: p.data_radius },
            Response::Nodes(n) => ResponseV::Nodes { total: n.total, enrs: spec_enrs_view(n.enrs@) },
            Response::FoundContent(f) => ResponseV::FoundContent {
                enrs: spec_enrs_view(f.enrs@),
                payload: f.payload@,
            },
        }
    }
}

impl View for Message {
    type V = MessageV;

    open spec fn view(&self) -> MessageV {
        match self {
            Message::Request(r) => MessageV::Request(r@),
            Message::Response(r) => MessageV::Response(r@),
        }
    }
}

/// The reserved discriminant of a message's concrete variant.
pub open spec fn spec_message_id(m: MessageV) -> u8 {
    match m {
        MessageV::Request(RequestV::Ping { .. }) => PING_ID,
        MessageV::Request(RequestV::FindNodes { .. }) => FIND_NODES_ID,
        MessageV::Request(RequestV::FindContent { .. }) => FIND_CONTENT_ID,
        MessageV::Response(ResponseV::Pong { .. }) => PONG_ID,
        MessageV::Response(ResponseV::Nodes { .. }) => NODES_ID,
        MessageV::Response(ResponseV::FoundContent { .. }) => FOUND_CONTENT_ID,
    }
}

impl Message {
    /// The reserved discriminant of this message's concrete variant.
    pub fn message_id(&self) -> (id: u8)
        ensures
            id == spec_message_id(self@),
    {
        match self {
            Message::Request(Request::Ping(_)) => PING_ID,
            Message::Request(Request::FindNodes(_)) => FIND_NODES_ID,
            Message::Request(Request::FindContent(_)) => FIND_CONTENT_ID,
            Message::Response(Response::Pong(_)) => PONG_ID,
            Message::Response(Response::Nodes(_)) => NODES_ID,
            Message::Response(Response::FoundContent(_)) => FOUND_CONTENT_ID,
        }
    }
}

/// A message framed for the wire: the registry discriminant beside the
/// typed message it identifies.
#[derive(Clone, Debug, PartialEq, Eq)]
pub struct ProtocolMessage {
    pub message_id: u8,
    pub message: Message,
}

impl ProtocolMessage {
    /// The frame is well-formed when the discriminant matches the variant.
    pub open spec fn wf(self) -> bool {
        self.message_id == spec_message_id(self.message@)
    }

    /// Frame a message with its registry discriminant.
    pub fn new(message: Message) -> (r: ProtocolMessage)
        ensures
            r.wf(),
            r.message == message,
    {
        let message_id = message.message_id();
        ProtocolMessage { message_id, message }
    }
}

} // verus!
