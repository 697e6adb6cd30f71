//! The request dispatcher: turns an inbound protocol tag and opaque byte
//! buffer into a semantically valid response, using the node's advertised
//! radius, its current identity sequence number, and a read snapshot of the
//! peer set. No input, however malformed, makes it panic: every failure path
//! is a well-formed textual diagnostic returned as ordinary response bytes.

use vstd::prelude::*;

verus! {

use vstd::slice::{slice_index_get, slice_to_vec};
use vstd::string::StringSliceAdditionalSpecFns;
use vstd::utf8::{is_ascii_chars, is_ascii_chars_encode_utf8};

use crate::codec::{spec_decode, spec_encode};
use crate::errors::DecodeError;
use crate::messages::{
    FoundContent, Message, MessageV, Nodes, Pong, Request, RequestV, Response, ResponseV,
    spec_enrs_view,
};
use crate::peers::{spec_find_nodes, spec_truncated, PeerSet, MAX_NODES_RESPONSE};
use crate::u256::U256;

/// The well-known tag identifying this application protocol to the
/// underlying request/response transport, as UTF-8 bytes.
pub open spec fn spec_protocol_tag_bytes() -> Seq<u8> {
    "state-network".spec_bytes()
}

/// The well-known tag identifying this application protocol.
pub fn protocol_tag() -> (r: &'static str)
    ensures
        r@ == "state-network"@,
        r.spec_bytes() == spec_protocol_tag_bytes(),
{
    "state-network"
}

/// The response payload for a request carrying an unknown protocol tag.
pub open spec fn spec_invalid_protocol_bytes() -> Seq<u8> {
    "INVALID PROTOCOL".spec_bytes()
}

/// The response payload for a well-tagged buffer that decodes to a response
/// rather than a request.
pub open spec fn spec_invalid_message_bytes() -> Seq<u8> {
    "INVALID MESSAGE".spec_bytes()
}

/// The prefix of every response to a buffer that fails to decode.
pub open spec fn spec_invalid_request_prefix() -> Seq<u8> {
    "INVALID REQUEST: ".spec_bytes()
}

/// The response payload for a buffer that fails to decode: the diagnostic
/// prefix, then the error's description.
pub open spec fn spec_invalid_request_bytes(e: DecodeError) -> Seq<u8> {
    spec_invalid_request_prefix() + e.spec_describe_bytes()
}

/// What the dispatcher answers to a decoded request: a `Ping` is answered
/// with the local state, a `FindNodes` with the matching peers capped at what
/// one response can carry, and a `FindContent` with the structurally valid
/// placeholder (the content data path is intentionally unimplemented).
pub open spec fn spec_handle_request(
    req: RequestV,
    local_enr_seq: u64,
    data_radius: U256,
    peers: Seq<(u16, Seq<u8>)>,
) -> ResponseV {
    match req {
        RequestV::Ping { .. } => ResponseV::Pong {
            enr_seq: (local_enr_seq & 0xffff_ffff) as u32,
            data_radius,
        },
        RequestV::FindNodes { distances } => {
            let enrs = spec_truncated(spec_find_nodes(peers, distances));
            ResponseV::Nodes { total: enrs.len() as u8, enrs }
        },
        RequestV::FindContent { .. } => ResponseV::FoundContent {
            enrs: Seq::empty(),
            payload: Seq::empty(),
        },
    }
}

/// The full dispatch relation, from inbound tag and buffer to outbound
/// bytes: an unknown tag is rejected, an undecodable buffer is answered with
/// a diagnostic, a response in request position is rejected, and a request
/// is answered by [`spec_handle_request`], encoded.
pub open spec fn spec_talkreq_response(
    protocol: Seq<u8>,
    req: Seq<u8>,
    local_enr_seq: u64,
    data_radius: U256,
    peers: Seq<(u16, Seq<u8>)>,
) -> Seq<u8> {
    if protocol != spec_protocol_tag_bytes() {
        spec_invalid_protocol_bytes()
    } else {
        match spec_decode(req) {
            Err(e) => spec_invalid_request_bytes(e),
            Ok(MessageV::Response(_)) => spec_invalid_message_bytes(),
            Ok(MessageV::Request(r)) => spec_encode(
                MessageV::Response(spec_handle_request(r, local_enr_seq, data_radius, peers)),
            ),
        }
    }
}

/// Byte-for-byte comparison of two buffers.
fn bytes_eq(a: &[u8], b: &[u8]) -> (r: bool)
    ensures
        r == (a@ == b@),
{
    if a.len() != b.len() {
        return false;
    }
    let mut i: usize = 0;
    while i < a.len()
        invariant
            i <= a@.len(),
            a@.len() == b@.len(),
            forall|k: int| 0 <= k < i ==> a@[k] == b@[k],
        decreases a@.len() - i,
    {
        if *slice_index_get(a, i) != *slice_index_get(b, i) {
            return false;
        }
        i = i + 1;
    }
    proof {
        assert(a@ =~= b@);
    }
    true
}

/// Copy the bytes of `b` onto the end of `out`.
fn push_bytes(out: &mut Vec<u8>, b: &[u8])
    ensures
        final(out)@ == old(out)@ + b@,
{
    let mut i: usize = 0;
    while i < b.len()
        invariant
            i <= b@.len(),
            out@ == old(out)@ + b@.subrange(0, i as int),
        decreases b@.len() - i,
    {
        out.push(*slice_index_get(b, i));
        proof {
            assert(old(out)@ + b@.subrange(0, i as int) + seq![b@[i as int]] =~= old(out)@
                + b@.subrange(0, i + 1));
        }
        i = i + 1;
    }
    proof {
        assert(old(out)@ + b@.subrange(0, b@.len() as int) =~= old(out)@ + b@);
    }
}

/// The protocol endpoint: the node's advertised data radius beside the
/// dispatch and request-building logic. The identity sequence number and the
/// peer set are read through the discovery collaborator and handed in as
/// snapshot values.
pub struct AlexandriaProtocol {
    pub data_radius: U256,
}

impl AlexandriaProtocol {
    /// A protocol endpoint advertising the given data radius. The radius is
    /// immutable after construction.
    pub fn new(data_radius: U256) -> (r: AlexandriaProtocol)
        ensures
            r.data_radius == data_radius,
    {
        AlexandriaProtocol { data_radius }
    }

    /// Answer one decoded request from local state and the peer snapshot.
    pub fn handle_request(&self, request: Request, local_enr_seq: u64, peers: &PeerSet) -> (r:
        Response)
        ensures
            r@ == spec_handle_request(request@, local_enr_seq, self.data_radius, peers@),
    {
        match request {
            Request::Ping(_) => {
                proof {
                    assert(local_enr_seq & 0xffff_ffff <= 0xffff_ffffu64) by (bit_vector);
                }
                let enr_seq = (local_enr_seq & 0xffff_ffff) as u32;
                Response::Pong(Pong { enr_seq, data_radius: self.data_radius })
            },
            Request::FindNodes(f) => {
                let enrs = peers.find_nodes_response(&f.distances);
                let total = enrs.len() as u8;
                Response::Nodes(Nodes { total, enrs })
            },
            Request::FindContent(_) => {
                let r = Response::FoundContent(
                    FoundContent { enrs: Vec::new(), payload: Vec::new() },
                );
                proof {
                    assert(spec_enrs_view(Seq::<crate::messages::Enr>::empty()) =~= Seq::<
                        Seq<u8>,
                    >::empty());
                }
                r
            },
        }
    }

    /// Handle one inbound opaque call: validate the tag, decode the buffer,
    /// answer the request, and encode the response; every failure is a
    /// textual diagnostic, never a panic.
    pub fn talkreq_response(
        &self,
        protocol: &[u8],
        req: &[u8],
        local_enr_seq: u64,
        peers: &PeerSet,
    ) -> (r: Vec<u8>)
        ensures
            r@ == spec_talkreq_response(
                protocol@,
                req@,
                local_enr_seq,
                self.data_radius,
                peers@,
            ),
    {
        if !bytes_eq(protocol, protocol_tag().as_bytes()) {
            return slice_to_vec("INVALID PROTOCOL".as_bytes());
        }
        match Message::from_bytes(req) {
            Err(e) => {
                let mut out = slice_to_vec("INVALID REQUEST: ".as_bytes());
                push_bytes(&mut out, e.describe().as_bytes());
                out
            },
            Ok(Message::Response(_)) => slice_to_vec("INVALID MESSAGE".as_bytes()),
            Ok(Message::Request(r)) => {
                let resp = self.handle_request(r, local_enr_seq, peers);
                Message::Response(resp).to_bytes()
            },
        }
    }
}

/// A mismatched protocol tag is answered with exactly `"INVALID PROTOCOL"`,
/// whatever the request bytes hold.
pub proof fn lemma_mismatched_tag_response(
    protocol: Seq<u8>,
    req: Seq<u8>,
    local_enr_seq: u64,
    data_radius: U256,
    peers: Seq<(u16, Seq<u8>)>,
)
    requires
        protocol != spec_protocol_tag_bytes(),
    ensures
        spec_talkreq_response(protocol, req, local_enr_seq, data_radius, peers)
            == spec_invalid_protocol_bytes(),
{
}

/// A well-tagged buffer that fails to decode — empty, truncated, or
/// otherwise malformed — is answered with a diagnostic that begins with the
/// `"INVALID REQUEST: "` prefix.
pub proof fn lemma_malformed_request_response(
    protocol: Seq<u8>,
    req: Seq<u8>,
    local_enr_seq: u64,
    data_radius: U256,
    peers: Seq<(u16, Seq<u8>)>,
)
    requires
        protocol == spec_protocol_tag_bytes(),
        spec_decode(req) is Err,
    ensures
        spec_talkreq_response(protocol, req, local_enr_seq, data_radius, peers).len()
            >= spec_invalid_request_prefix().len(),
        spec_talkreq_response(protocol, req, local_enr_seq, data_radius, peers).take(
            spec_invalid_request_prefix().len() as int,
        ) == spec_invalid_request_prefix(),
{
    let e = spec_decode(req)->Err_0;
    assert(spec_invalid_request_bytes(e).take(spec_invalid_request_prefix().len() as int)
        =~= spec_invalid_request_prefix());
}

/// The diagnostic prefix itself begins with the text `"INVALID REQUEST"`.
pub proof fn lemma_invalid_request_prefix_text()
    ensures
        spec_invalid_request_prefix().len() == 17,
        spec_invalid_request_prefix().take(15) == "INVALID REQUEST".spec_bytes(),
{
    reveal_strlit("INVALID REQUEST: ");
    reveal_strlit("INVALID REQUEST");
    let s1 = "INVALID REQUEST: ";
    let s2 = "INVALID REQUEST";
    assert(is_ascii_chars(s1@));
    assert(is_ascii_chars(s2@));
    is_ascii_chars_encode_utf8(s1@);
    is_ascii_chars_encode_utf8(s2@);
    assert(s1.spec_bytes().take(15) =~= s2.spec_bytes());
}

/// A well-tagged, valid `Ping` request is answered by bytes that decode to a
/// `Pong` carrying the node's identity sequence number and its configured
/// data radius.
pub proof fn lemma_ping_response(
    protocol: Seq<u8>,
    req: Seq<u8>,
    local_enr_seq: u64,
    data_radius: U256,
    peers: Seq<(u16, Seq<u8>)>,
)
    requires
        protocol == spec_protocol_tag_bytes(),
        spec_decode(req) matches Ok(m) && m matches MessageV::Request(r) && r is Ping,
    ensures
        spec_decode(spec_talkreq_response(protocol, req, local_enr_seq, data_radius, peers))
            == Ok::<MessageV, DecodeError>(
            MessageV::Response(
                ResponseV::Pong { enr_seq: (local_enr_seq & 0xffff_ffff) as u32, data_radius },
            ),
        ),
{
    let r = spec_decode(req)->Ok_0->Request_0;
    let resp = MessageV::Response(spec_handle_request(r, local_enr_seq, data_radius, peers));
    crate::codec::lemma_round_trip(resp);
}

/// A well-tagged, valid `FindContent` request — whatever its content key —
/// is answered by bytes that decode to the structurally valid placeholder: a
/// `FoundContent` with no records and an empty payload.
pub proof fn lemma_find_content_response(
    protocol: Seq<u8>,
    req: Seq<u8>,
    local_enr_seq: u64,
    data_radius: U256,
    peers: Seq<(u16, Seq<u8>)>,
)
    requires
        protocol == spec_protocol_tag_bytes(),
        spec_decode(req) matches Ok(m) && m matches MessageV::Request(r) && r is FindContent,
    ensures
        spec_decode(spec_talkreq_response(protocol, req, local_enr_seq, data_radius, peers))
            == Ok::<MessageV, DecodeError>(
            MessageV::Response(
                (ResponseV::FoundContent {
                    enrs: Seq::<Seq<u8>>::empty(),
                    payload: Seq::<u8>::empty(),
                }),
            ),
        ),
{
    let r = spec_decode(req)->Ok_0->Request_0;
    let resp = MessageV::Response(spec_handle_request(r, local_enr_seq, data_radius, peers));
    crate::codec::lemma_round_trip(resp);
}

/// A `FindNodes` request is answered with a `Nodes` whose `total` equals the
/// number of records it carries, and that number never exceeds what the
/// one-byte `total` can express — the peer list is capped at dispatch time.
pub proof fn lemma_nodes_response_total(
    req: RequestV,
    local_enr_seq: u64,
    data_radius: U256,
    peers: Seq<(u16, Seq<u8>)>,
)
    requires
        req is FindNodes,
    ensures
        spec_handle_request(req, local_enr_seq, data_radius, peers) matches ResponseV::Nodes {
            total,
            enrs,
        } && total == enrs.len() && enrs.len() <= MAX_NODES_RESPONSE,
{
}

/// Build the encoded `Ping` request that announces the given state.
pub fn ping_request_bytes(enr_seq: u32, data_radius: U256) -> (r: Vec<u8>)
    ensures
        r@ == spec_encode(MessageV::Request(RequestV::Ping { enr_seq, data_radius })),
{
    Message::Request(Request::Ping(crate::messages::Ping { enr_seq, data_radius })).to_bytes()
}

/// Build the encoded `FindNodes` request for the given distances.
pub fn find_nodes_request_bytes(distances: Vec<u16>) -> (r: Vec<u8>)
    ensures
        r@ == spec_encode(MessageV::Request(RequestV::FindNodes { distances: distances@ })),
{
    Message::Request(Request::FindNodes(crate::messages::FindNodes { distances })).to_bytes()
}

/// Build the encoded `FindContent` request for the given content key.
pub fn find_content_request_bytes(content_key: Vec<u8>) -> (r: Vec<u8>)
    ensures
        r@ == spec_encode(
            MessageV::Request(RequestV::FindContent { content_key: content_key@ }),
        ),
{
    Message::Request(Request::FindContent(crate::messages::FindContent { content_key }))
        .to_bytes()
}

} // verus!
