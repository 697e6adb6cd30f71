//! Byte-exact codec for the tagged union of protocol messages.
//!
//! A framed buffer is the one-byte variant discriminant followed by the
//! variant's own field serialization in declared field order. Fixed-size
//! fields use fixed little-endian encodings; variable-size fields use a
//! length-delimited encoding: raw 16-bit element runs for distances, raw byte
//! runs for opaque keys and payloads, and a count-prefixed sequence of
//! length-prefixed byte runs for peer records. Encoding never fails;
//! decoding is the only fallible direction.

use vstd::prelude::*;

verus! {

use vstd::bytes::{
    lemma_auto_spec_u16_to_from_le_bytes, lemma_auto_spec_u32_to_from_le_bytes,
    lemma_auto_spec_u64_to_from_le_bytes, spec_u16_from_le_bytes, spec_u16_to_le_bytes,
    spec_u32_from_le_bytes, spec_u32_to_le_bytes, spec_u64_from_le_bytes, spec_u64_to_le_bytes,
    u16_from_le_bytes, u16_to_le_bytes, u32_from_le_bytes, u32_to_le_bytes, u64_from_le_bytes,
    u64_to_le_bytes,
};
use vstd::slice::{slice_index_get, slice_subrange, slice_to_vec};

use crate::errors::DecodeError;
use crate::messages::{
    Enr, FindContent, FindNodes, FoundContent, Message, MessageV, Nodes, Ping, Pong, Request,
    RequestV, Response, ResponseV, FIND_CONTENT_ID, FIND_NODES_ID, FOUND_CONTENT_ID, NODES_ID,
    PING_ID, PONG_ID, spec_enrs_view, spec_message_id,
};
use crate::u256::{spec_u256_from_le_bytes, spec_u256_to_le_bytes, U256};

/// Byte length of a Ping or Pong payload: a 4-byte sequence number and a
/// 32-byte radius.
pub const PING_PAYLOAD_LEN: usize = 36;

/// The raw run of 16-bit little-endian distance values.
pub open spec fn spec_distances_bytes(ds: Seq<u16>) -> Seq<u8>
    decreases ds.len(),
{
    if ds.len() == 0 {
        Seq::empty()
    } else {
        spec_u16_to_le_bytes(ds[0]) + spec_distances_bytes(ds.skip(1))
    }
}

/// One peer record framed for the wire: an 8-byte little-endian length
/// prefix, then the record's own bytes.
pub open spec fn spec_record_frame(r: Seq<u8>) -> Seq<u8> {
    spec_u64_to_le_bytes(r.len() as u64) + r
}

/// A sequence of independently framed peer records, concatenated.
pub open spec fn spec_records_bytes(rs: Seq<Seq<u8>>) -> Seq<u8>
    decreases rs.len(),
{
    if rs.len() == 0 {
        Seq::empty()
    } else {
        spec_record_frame(rs[0]) + spec_records_bytes(rs.skip(1))
    }
}

/// Record sequences whose counts and lengths fit the 8-byte wire prefixes.
/// Every sequence held in an executable vector satisfies this.
pub open spec fn spec_wf_records(rs: Seq<Seq<u8>>) -> bool {
    &&& rs.len() <= u64::MAX
    &&& forall|i: int| 0 <= i < rs.len() ==> #[trigger] rs[i].len() <= u64::MAX
}

/// Messages whose variable-size sections fit their wire framing.
pub open spec fn spec_wf_message(m: MessageV) -> bool {
    match m {
        MessageV::Response(ResponseV::Nodes { enrs, .. }) => spec_wf_records(enrs),
        MessageV::Response(ResponseV::FoundContent { enrs, .. }) => spec_wf_records(enrs),
        _ => true,
    }
}

/// The canonical byte encoding of a message: the variant's reserved
/// discriminant byte, then its field serialization.
pub open spec fn spec_encode(m: MessageV) -> Seq<u8> {
    match m {
        MessageV::Request(r) => match r {
            RequestV::Ping { enr_seq, data_radius } => seq![PING_ID]
                + spec_u32_to_le_bytes(enr_seq) + spec_u256_to_le_bytes(data_radius),
            RequestV::FindNodes { distances } => seq![FIND_NODES_ID]
                + spec_distances_bytes(distances),
            RequestV::FindContent { content_key } => seq![FIND_CONTENT_ID] + content_key,
        },
        MessageV::Response(r) => match r {
            ResponseV::Pong { enr_seq, data_radius } => seq![PONG_ID]
                + spec_u32_to_le_bytes(enr_seq) + spec_u256_to_le_bytes(data_radius),
            ResponseV::Nodes { total, enrs } => seq![NODES_ID, total]
                + spec_u64_to_le_bytes(enrs.len() as u64) + spec_records_bytes(enrs),
            ResponseV::FoundContent { enrs, payload } => seq![FOUND_CONTENT_ID]
                + spec_u64_to_le_bytes(enrs.len() as u64) + spec_records_bytes(enrs) + payload,
        },
    }
}

/// Parse a raw run of 16-bit little-endian values; `None` on a dangling byte.
pub open spec fn spec_parse_distances(b: Seq<u8>) -> Option<Seq<u16>>
    decreases b.len(),
{
    if b.len() == 0 {
        Some(Seq::empty())
    } else if b.len() < 2 {
        None
    } else {
        match spec_parse_distances(b.skip(2)) {
            Some(rest) => Some(seq![spec_u16_from_le_bytes(b.take(2))] + rest),
            None => None,
        }
    }
}

/// Parse exactly `n` framed records from the front of `b`; on success,
/// returns the records and the unconsumed remainder.
pub open spec fn spec_parse_records(b: Seq<u8>, n: nat) -> Option<(Seq<Seq<u8>>, Seq<u8>)>
    decreases n,
{
    if n == 0 {
        Some((Seq::empty(), b))
    } else if b.len() < 8 {
        None
    } else {
        let len = spec_u64_from_le_bytes(b.take(8)) as int;
        if b.len() - 8 < len {
            None
        } else {
            match spec_parse_records(b.skip(8 + len), (n - 1) as nat) {
                Some((rs, rest)) => Some((seq![b.subrange(8, 8 + len)] + rs, rest)),
                None => None,
            }
        }
    }
}

/// The decoding relation: which message, or which error, a byte buffer
/// yields. Decoding reads the leading discriminant byte, then the matching
/// variant's deserializer over the remainder.
pub open spec fn spec_decode(b: Seq<u8>) -> Result<MessageV, DecodeError> {
    if b.len() == 0 {
        Err(DecodeError::Truncated)
    } else {
        let id = b[0];
        let p = b.skip(1);
        if id == PING_ID || id == PONG_ID {
            if p.len() != PING_PAYLOAD_LEN {
                Err(DecodeError::LengthMismatch {
                    actual: p.len() as usize,
                    expected: PING_PAYLOAD_LEN,
                })
            } else {
                let enr_seq = spec_u32_from_le_bytes(p.take(4));
                let data_radius = spec_u256_from_le_bytes(p.skip(4));
                if id == PING_ID {
                    Ok(MessageV::Request(RequestV::Ping { enr_seq, data_radius }))
                } else {
                    Ok(MessageV::Response(ResponseV::Pong { enr_seq, data_radius }))
                }
            }
        } else if id == FIND_NODES_ID {
            match spec_parse_distances(p) {
                Some(distances) => Ok(MessageV::Request(RequestV::FindNodes { distances })),
                None => Err(DecodeError::Malformed),
            }
        } else if id == FIND_CONTENT_ID {
            Ok(MessageV::Request(RequestV::FindContent { content_key: p }))
        } else if id == NODES_ID {
            if p.len() == 0 {
                Err(DecodeError::Malformed)
            } else {
                let total = p[0];
                let q = p.skip(1);
                if q.len() < 8 {
                    Err(DecodeError::Truncated)
                } else {
                    let n = spec_u64_from_le_bytes(q.take(8));
                    match spec_parse_records(q.skip(8), n as nat) {
                        Some((enrs, rest)) => if rest.len() == 0 {
                            Ok(MessageV::Response(ResponseV::Nodes { total, enrs }))
                        } else {
                            Err(DecodeError::Malformed)
                        },
                        None => Err(DecodeError::Truncated),
                    }
                }
            }
        } else if id == FOUND_CONTENT_ID {
            if p.len() < 8 {
                Err(DecodeError::Truncated)
            } else {
                let n = spec_u64_from_le_bytes(p.take(8));
                match spec_parse_records(p.skip(8), n as nat) {
                    Some((enrs, payload)) => Ok(
                        MessageV::Response(ResponseV::FoundContent { enrs, payload }),
                    ),
                    None => Err(DecodeError::Truncated),
                }
            }
        } else {
            Err(DecodeError::UnknownDiscriminant { id })
        }
    }
}

/// Appending one value extends the distance run by that value's two bytes.
proof fn lemma_distances_bytes_snoc(ds: Seq<u16>, d: u16)
    ensures
        spec_distances_bytes(ds.push(d)) == spec_distances_bytes(ds) + spec_u16_to_le_bytes(d),
    decreases ds.len(),
{
    reveal_with_fuel(spec_distances_bytes, 3);
    if ds.len() == 0 {
        assert(ds.push(d).skip(1) =~= Seq::<u16>::empty());
        assert(ds.push(d)[0] == d);
        assert(spec_distances_bytes(ds.push(d)) =~= spec_distances_bytes(ds)
            + spec_u16_to_le_bytes(d));
    } else {
        lemma_distances_bytes_snoc(ds.skip(1), d);
        assert(ds.push(d).skip(1) =~= ds.skip(1).push(d));
        assert(ds.push(d)[0] == ds[0]);
        assert(spec_distances_bytes(ds.push(d)) == spec_u16_to_le_bytes(ds[0])
            + spec_distances_bytes(ds.skip(1).push(d)));
        assert(spec_u16_to_le_bytes(ds[0]) + (spec_distances_bytes(ds.skip(1))
            + spec_u16_to_le_bytes(d)) =~= (spec_u16_to_le_bytes(ds[0])
            + spec_distances_bytes(ds.skip(1))) + spec_u16_to_le_bytes(d));
    }
}

/// Appending one record extends the framed run by that record's frame.
proof fn lemma_records_bytes_snoc(rs: Seq<Seq<u8>>, r: Seq<u8>)
    ensures
        spec_records_bytes(rs.push(r)) == spec_records_bytes(rs) + spec_record_frame(r),
    decreases rs.len(),
{
    reveal_with_fuel(spec_records_bytes, 3);
    if rs.len() == 0 {
        assert(rs.push(r).skip(1) =~= Seq::<Seq<u8>>::empty());
        assert(rs.push(r)[0] == r);
        assert(spec_records_bytes(rs.push(r)) =~= spec_records_bytes(rs) + spec_record_frame(r));
    } else {
        lemma_records_bytes_snoc(rs.skip(1), r);
        assert(rs.push(r).skip(1) =~= rs.skip(1).push(r));
        assert(rs.push(r)[0] == rs[0]);
        assert(spec_records_bytes(rs.push(r)) == spec_record_frame(rs[0])
            + spec_records_bytes(rs.skip(1).push(r)));
        assert(spec_record_frame(rs[0]) + (spec_records_bytes(rs.skip(1))
            + spec_record_frame(r)) =~= (spec_record_frame(rs[0])
            + spec_records_bytes(rs.skip(1))) + spec_record_frame(r));
    }
}

/// Copy the bytes of `b` onto the end of `out`.
fn append_bytes(out: &mut Vec<u8>, b: &[u8])
    ensures
        final(out)@ == old(out)@ + b@,
{
    let mut i: usize = 0;
    while i < b.len()
        invariant
            i <= b@.len(),
            out@ == old(out)@ + b@.subrange(0, i as int),
        decreases b@.len() - i,
    {
        out.push(b[i]);
        proof {
            assert(old(out)@ + b@.subrange(0, i as int) + seq![b@[i as int]] =~= old(out)@
                + b@.subrange(0, i + 1));
        }
        i = i + 1;
    }
    proof {
        assert(old(out)@ + b@.subrange(0, b@.len() as int) =~= old(out)@ + b@);
    }
}

/// Append the framed form of each record of `enrs` onto `out`.
fn append_records(out: &mut Vec<u8>, enrs: &Vec<Enr>)
    ensures
        final(out)@ == old(out)@ + spec_records_bytes(spec_enrs_view(enrs@)),
{
    let ghost rs = spec_enrs_view(enrs@);
    let mut i: usize = 0;
    while i < enrs.len()
        invariant
            i <= enrs@.len(),
            rs == spec_enrs_view(enrs@),
            out@ == old(out)@ + spec_records_bytes(rs.take(i as int)),
        decreases enrs@.len() - i,
    {
        let rec = &enrs[i];
        let mut len_bytes = u64_to_le_bytes(rec.bytes.len() as u64);
        out.append(&mut len_bytes);
        append_bytes(out, rec.bytes.as_slice());
        proof {
            lemma_records_bytes_snoc(rs.take(i as int), rs[i as int]);
            assert(rs.take(i + 1) =~= rs.take(i as int).push(rs[i as int]));
            assert(out@ =~= old(out)@ + spec_records_bytes(rs.take(i + 1)));
        }
        i = i + 1;
    }
    proof {
        assert(rs.take(enrs@.len() as int) =~= rs);
    }
}

/// A run of distance values reads back as the same values.
proof fn lemma_distances_round_trip(ds: Seq<u16>)
    ensures
        spec_parse_distances(spec_distances_bytes(ds)) == Some(ds),
    decreases ds.len(),
{
    lemma_auto_spec_u16_to_from_le_bytes();
    if ds.len() == 0 {
        assert(ds =~= Seq::<u16>::empty());
    } else {
        lemma_distances_round_trip(ds.skip(1));
        let b = spec_distances_bytes(ds);
        let rest = spec_distances_bytes(ds.skip(1));
        assert(b == spec_u16_to_le_bytes(ds[0]) + rest);
        assert(b.take(2) =~= spec_u16_to_le_bytes(ds[0]));
        assert(b.skip(2) =~= rest);
        assert(seq![ds[0]] + ds.skip(1) =~= ds);
    }
}

/// A framed run of records, followed by any tail, reads back as the same
/// records with the tail untouched.
proof fn lemma_records_round_trip(rs: Seq<Seq<u8>>, tail: Seq<u8>)
    requires
        spec_wf_records(rs),
    ensures
        spec_parse_records(spec_records_bytes(rs) + tail, rs.len()) == Some((rs, tail)),
    decreases rs.len(),
{
    lemma_auto_spec_u64_to_from_le_bytes();
    if rs.len() == 0 {
        assert(spec_records_bytes(rs) + tail =~= tail);
        assert(rs =~= Seq::<Seq<u8>>::empty());
    } else {
        assert(spec_wf_records(rs.skip(1))) by {
            assert(forall|i: int| 0 <= i < rs.skip(1).len() ==> rs.skip(1)[i] == rs[i + 1]);
        }
        lemma_records_round_trip(rs.skip(1), tail);
        let b = spec_records_bytes(rs) + tail;
        let len0 = rs[0].len() as int;
        assert(rs[0].len() as u64 as int == len0);
        assert(b =~= spec_u64_to_le_bytes(rs[0].len() as u64) + rs[0] + (spec_records_bytes(
            rs.skip(1),
        ) + tail));
        assert(b.take(8) =~= spec_u64_to_le_bytes(rs[0].len() as u64));
        assert(spec_u64_from_le_bytes(b.take(8)) as int == len0);
        assert(b.len() - 8 >= len0);
        assert(b.subrange(8, 8 + len0) =~= rs[0]);
        assert(b.skip(8 + len0) =~= spec_records_bytes(rs.skip(1)) + tail);
        assert(seq![rs[0]] + rs.skip(1) =~= rs);
    }
}

/// Round trip: decoding the canonical encoding of any well-formed message
/// yields exactly that message, for every variant and all field values.
pub proof fn lemma_round_trip(m: MessageV)
    requires
        spec_wf_message(m),
    ensures
        spec_decode(spec_encode(m)) == Ok::<MessageV, DecodeError>(m),
{
    lemma_auto_spec_u16_to_from_le_bytes();
    lemma_auto_spec_u32_to_from_le_bytes();
    lemma_auto_spec_u64_to_from_le_bytes();
    let b = spec_encode(m);
    match m {
        MessageV::Request(RequestV::Ping { enr_seq, data_radius }) => {
            let p = b.skip(1);
            assert(p =~= spec_u32_to_le_bytes(enr_seq) + spec_u256_to_le_bytes(data_radius));
            assert(p.len() == PING_PAYLOAD_LEN);
            assert(p.take(4) =~= spec_u32_to_le_bytes(enr_seq));
            assert(p.skip(4) =~= spec_u256_to_le_bytes(data_radius));
            crate::u256::lemma_u256_round_trip(data_radius);
        }
        MessageV::Response(ResponseV::Pong { enr_seq, data_radius }) => {
            let p = b.skip(1);
            assert(p =~= spec_u32_to_le_bytes(enr_seq) + spec_u256_to_le_bytes(data_radius));
            assert(p.len() == PING_PAYLOAD_LEN);
            assert(p.take(4) =~= spec_u32_to_le_bytes(enr_seq));
            assert(p.skip(4) =~= spec_u256_to_le_bytes(data_radius));
            crate::u256::lemma_u256_round_trip(data_radius);
        }
        MessageV::Request(RequestV::FindNodes { distances }) => {
            let p = b.skip(1);
            assert(p =~= spec_distances_bytes(distances));
            lemma_distances_round_trip(distances);
        }
        MessageV::Request(RequestV::FindContent { content_key }) => {
            let p = b.skip(1);
            assert(p =~= content_key);
        }
        MessageV::Response(ResponseV::Nodes { total, enrs }) => {
            let p = b.skip(1);
            assert(p =~= seq![total] + spec_u64_to_le_bytes(enrs.len() as u64)
                + spec_records_bytes(enrs));
            assert(p.len() > 0);
            assert(p[0] == total);
            let q = p.skip(1);
            assert(q =~= spec_u64_to_le_bytes(enrs.len() as u64) + spec_records_bytes(enrs));
            assert(q.take(8) =~= spec_u64_to_le_bytes(enrs.len() as u64));
            let n = spec_u64_from_le_bytes(q.take(8));
            assert(n == enrs.len() as u64);
            assert(n as nat == enrs.len());
            assert(q.skip(8) =~= spec_records_bytes(enrs) + Seq::<u8>::empty());
            lemma_records_round_trip(enrs, Seq::<u8>::empty());
        }
        MessageV::Response(ResponseV::FoundContent { enrs, payload }) => {
            let p = b.skip(1);
            assert(p =~= spec_u64_to_le_bytes(enrs.len() as u64) + (spec_records_bytes(enrs)
                + payload));
            assert(p.take(8) =~= spec_u64_to_le_bytes(enrs.len() as u64));
            let n = spec_u64_from_le_bytes(p.take(8));
            assert(n == enrs.len() as u64);
            assert(n as nat == enrs.len());
            assert(p.skip(8) =~= spec_records_bytes(enrs) + payload);
            lemma_records_round_trip(enrs, payload);
        }
    }
}

/// Prepend already-parsed records to a parse result.
spec fn spec_prepend_records(
    pre: Seq<Seq<u8>>,
    r: Option<(Seq<Seq<u8>>, Seq<u8>)>,
) -> Option<(Seq<Seq<u8>>, Seq<u8>)> {
    match r {
        Some((rs, rest)) => Some((pre + rs, rest)),
        None => None,
    }
}

/// Parse exactly `n` framed records from `b`, starting at byte `start`.
/// On success returns the records and the position just past them.
fn parse_records(b: &[u8], start: usize, n: u64) -> (r: Result<(Vec<Enr>, usize), DecodeError>)
    requires
        start <= b@.len(),
    ensures
        (r matches Ok(t) ==> {
            &&& start <= t.1 <= b@.len()
            &&& spec_parse_records(b@.skip(start as int), n as nat) == Some(
                (spec_enrs_view(t.0@), b@.skip(t.1 as int)),
            )
        }),
        (r matches Err(e) ==> spec_parse_records(b@.skip(start as int), n as nat) is None
            && e == DecodeError::Truncated),
{
    let ghost q0 = b@.skip(start as int);
    let mut recs: Vec<Enr> = Vec::new();
    let mut pos: usize = start;
    let mut j: u64 = 0;
    while j < n
        invariant
            start <= pos <= b@.len(),
            j <= n,
            q0 == b@.skip(start as int),
            spec_parse_records(q0, n as nat) == spec_prepend_records(
                spec_enrs_view(recs@),
                spec_parse_records(b@.skip(pos as int), (n - j) as nat),
            ),
        decreases n - j,
    {
        let ghost q = b@.skip(pos as int);
        let ghost m = (n - j) as nat;
        if b.len() - pos < 8 {
            proof {
                assert(q.len() < 8);
                assert(spec_parse_records(q, m) is None);
            }
            return Err(DecodeError::Truncated);
        }
        let len = u64_from_le_bytes(slice_subrange(b, pos, pos + 8));
        proof {
            assert(q.take(8) =~= b@.subrange(pos as int, pos + 8));
        }
        let remaining = b.len() - pos - 8;
        if len > remaining as u64 {
            proof {
                assert(q.len() - 8 < len as int);
                assert(spec_parse_records(q, m) is None);
            }
            return Err(DecodeError::Truncated);
        }
        let len_us = len as usize;
        let rec_bytes = slice_to_vec(slice_subrange(b, pos + 8, pos + 8 + len_us));
        let ghost old_recs = recs@;
        recs.push(Enr { bytes: rec_bytes });
        let ghost old_pos = pos as int;
        pos = pos + 8 + len_us;
        j = j + 1;
        proof {
            let rec = q.subrange(8, 8 + len as int);
            assert(rec =~= b@.subrange(old_pos + 8, old_pos + 8 + len as int));
            assert(q.skip(8 + len as int) =~= b@.skip(pos as int));
            assert(spec_parse_records(q, m) == spec_prepend_records(
                seq![rec],
                spec_parse_records(b@.skip(pos as int), (n - j) as nat),
            ));
            assert(spec_enrs_view(recs@) =~= spec_enrs_view(old_recs).push(rec));
            match spec_parse_records(b@.skip(pos as int), (n - j) as nat) {
                Some((rs, rest)) => {
                    assert(spec_enrs_view(old_recs) + (seq![rec] + rs) =~= spec_enrs_view(recs@)
                        + rs);
                }
                None => {}
            }
        }
    }
    proof {
        assert(spec_parse_records(b@.skip(pos as int), 0) == Some(
            (Seq::<Seq<u8>>::empty(), b@.skip(pos as int)),
        ));
        assert(spec_enrs_view(recs@) + Seq::<Seq<u8>>::empty() =~= spec_enrs_view(recs@));
    }
    Ok((recs, pos))
}

/// An even run of bytes parses to one distance per byte pair; an odd run
/// does not parse.
proof fn lemma_parse_distances(p: Seq<u8>)
    ensures
        p.len() % 2 == 0 ==> spec_parse_distances(p) == Some(
            Seq::new(p.len() / 2, |i: int| spec_u16_from_le_bytes(p.subrange(2 * i, 2 * i + 2))),
        ),
        p.len() % 2 != 0 ==> spec_parse_distances(p) is None,
    decreases p.len(),
{
    if p.len() == 0 {
        assert(Seq::new(0, |i: int| spec_u16_from_le_bytes(p.subrange(2 * i, 2 * i + 2)))
            =~= Seq::<u16>::empty());
    } else if p.len() == 1 {
    } else {
        lemma_parse_distances(p.skip(2));
        if p.len() % 2 == 0 {
            let rest = Seq::new(
                p.skip(2).len() / 2,
                |i: int| spec_u16_from_le_bytes(p.skip(2).subrange(2 * i, 2 * i + 2)),
            );
            let whole = Seq::new(
                p.len() / 2,
                |i: int| spec_u16_from_le_bytes(p.subrange(2 * i, 2 * i + 2)),
            );
            assert(seq![spec_u16_from_le_bytes(p.take(2))] + rest =~= whole) by {
                assert(p.take(2) =~= p.subrange(0, 2));
                assert forall|i: int| 1 <= i < whole.len() implies rest[i - 1] == whole[i] by {
                    assert(p.skip(2).subrange(2 * (i - 1), 2 * (i - 1) + 2) =~= p.subrange(
                        2 * i,
                        2 * i + 2,
                    ));
                }
            }
        }
    }
}

impl Message {
    /// Encode this message into its canonical wire form. Encoding never
    /// fails for a typed value.
    pub fn to_bytes(&self) -> (r: Vec<u8>)
        ensures
            r@ == spec_encode(self@),
    {
        let mut out: Vec<u8> = Vec::new();
        out.push(self.message_id());
        match self {
            Message::Request(Request::Ping(p)) => {
                let mut b = u32_to_le_bytes(p.enr_seq);
                out.append(&mut b);
                let mut b = p.data_radius.encode();
                out.append(&mut b);
                proof {
                    assert(out@ =~= spec_encode(self@));
                }
            }
            Message::Response(Response::Pong(p)) => {
                let mut b = u32_to_le_bytes(p.enr_seq);
                out.append(&mut b);
                let mut b = p.data_radius.encode();
                out.append(&mut b);
                proof {
                    assert(out@ =~= spec_encode(self@));
                }
            }
            Message::Request(Request::FindNodes(f)) => {
                let ghost ds = f.distances@;
                let mut i: usize = 0;
                while i < f.distances.len()
                    invariant
                        i <= ds.len(),
                        ds == f.distances@,
                        out@ == seq![FIND_NODES_ID] + spec_distances_bytes(ds.take(i as int)),
                    decreases ds.len() - i,
                {
                    let mut b = u16_to_le_bytes(f.distances[i]);
                    out.append(&mut b);
                    proof {
                        lemma_distances_bytes_snoc(ds.take(i as int), ds[i as int]);
                        assert(ds.take(i + 1) =~= ds.take(i as int).push(ds[i as int]));
                        assert(out@ =~= seq![FIND_NODES_ID]
                            + spec_distances_bytes(ds.take(i + 1)));
                    }
                    i = i + 1;
                }
                proof {
                    assert(ds.take(ds.len() as int) =~= ds);
                    assert(out@ =~= spec_encode(self@));
                }
            }
            Message::Request(Request::FindContent(f)) => {
                append_bytes(&mut out, f.content_key.as_slice());
                proof {
                    assert(out@ =~= spec_encode(self@));
                }
            }
            Message::Response(Response::Nodes(n)) => {
                out.push(n.total);
                let mut b = u64_to_le_bytes(n.enrs.len() as u64);
                out.append(&mut b);
                append_records(&mut out, &n.enrs);
                proof {
                    assert(out@ =~= spec_encode(self@));
                }
            }
            Message::Response(Response::FoundContent(f)) => {
                let mut b = u64_to_le_bytes(f.enrs.len() as u64);
                out.append(&mut b);
                append_records(&mut out, &f.enrs);
                append_bytes(&mut out, f.payload.as_slice());
                proof {
                    assert(out@ =~= spec_encode(self@));
                }
            }
        }
        out
    }

    /// Decode a byte buffer into a message. The result is exactly what the
    /// decoding relation [`spec_decode`] yields: a message, or the error
    /// naming the first defect found.
    pub fn from_bytes(b: &[u8]) -> (r: Result<Message, DecodeError>)
        ensures
            (r matches Ok(m) ==> spec_decode(b@) == Ok::<MessageV, DecodeError>(m@)),
            (r matches Err(e) ==> spec_decode(b@) == Err::<MessageV, DecodeError>(e)),
    {
        if b.len() == 0 {
            return Err(DecodeError::Truncated);
        }
        let id = *slice_index_get(b, 0);
        let ghost p = b@.skip(1);
        if id == PING_ID || id == PONG_ID {
            if b.len() - 1 != PING_PAYLOAD_LEN {
                return Err(DecodeError::LengthMismatch {
                    actual: b.len() - 1,
                    expected: PING_PAYLOAD_LEN,
                });
            }
            let enr_seq = u32_from_le_bytes(slice_subrange(b, 1, 5));
            let data_radius = U256::from_le_bytes(slice_subrange(b, 5, 37));
            proof {
                assert(p.take(4) =~= b@.subrange(1, 5));
                assert(p.skip(4) =~= b@.subrange(5, 37));
            }
            if id == PING_ID {
                Ok(Message::Request(Request::Ping(Ping { enr_seq, data_radius })))
            } else {
                Ok(Message::Response(Response::Pong(Pong { enr_seq, data_radius })))
            }
        } else if id == FIND_NODES_ID {
            proof {
                lemma_parse_distances(p);
            }
            if (b.len() - 1) % 2 != 0 {
                return Err(DecodeError::Malformed);
            }
            let ghost target = Seq::new(
                p.len() / 2,
                |i: int| spec_u16_from_le_bytes(p.subrange(2 * i, 2 * i + 2)),
            );
            let mut distances: Vec<u16> = Vec::new();
            let mut pos: usize = 1;
            while pos < b.len()
                invariant
                    1 <= pos <= b@.len(),
                    (b@.len() - 1) % 2 == 0,
                    pos == 1 + 2 * distances@.len(),
                    p == b@.skip(1),
                    target == Seq::new(
                        p.len() / 2,
                        |i: int| spec_u16_from_le_bytes(p.subrange(2 * i, 2 * i + 2)),
                    ),
                    forall|i: int| 0 <= i < distances@.len() ==> distances@[i] == target[i],
                decreases b@.len() - pos,
            {
                let d = u16_from_le_bytes(slice_subrange(b, pos, pos + 2));
                proof {
                    let k = distances@.len() as int;
                    assert(p.subrange(2 * k, 2 * k + 2) =~= b@.subrange(pos as int, pos + 2));
                }
                distances.push(d);
                pos = pos + 2;
            }
            proof {
                assert(distances@ =~= target);
            }
            Ok(Message::Request(Request::FindNodes(FindNodes { distances })))
        } else if id == FIND_CONTENT_ID {
            let content_key = slice_to_vec(slice_subrange(b, 1, b.len()));
            proof {
                assert(content_key@ =~= p);
            }
            Ok(Message::Request(Request::FindContent(FindContent { content_key })))
        } else if id == NODES_ID {
            if b.len() < 2 {
                proof {
                    assert(p.len() == 0);
                }
                return Err(DecodeError::Malformed);
            }
            let total = *slice_index_get(b, 1);
            let ghost q = p.skip(1);
            proof {
                assert(p[0] == b@[1]);
                assert(q =~= b@.skip(2));
            }
            if b.len() - 2 < 8 {
                return Err(DecodeError::Truncated);
            }
            let n = u64_from_le_bytes(slice_subrange(b, 2, 10));
            proof {
                assert(q.take(8) =~= b@.subrange(2, 10));
                assert(q.skip(8) =~= b@.skip(10));
            }
            match parse_records(b, 10, n) {
                Ok((enrs, end)) => {
                    if end == b.len() {
                        proof {
                            assert(b@.skip(end as int).len() == 0);
                        }
                        Ok(Message::Response(Response::Nodes(Nodes { total, enrs })))
                    } else {
                        proof {
                            assert(b@.skip(end as int).len() > 0);
                        }
                        Err(DecodeError::Malformed)
                    }
                }
                Err(e) => Err(e),
            }
        } else if id == FOUND_CONTENT_ID {
            if b.len() - 1 < 8 {
                return Err(DecodeError::Truncated);
            }
            let n = u64_from_le_bytes(slice_subrange(b, 1, 9));
            proof {
                assert(p.take(8) =~= b@.subrange(1, 9));
                assert(p.skip(8) =~= b@.skip(9));
            }
            match parse_records(b, 9, n) {
                Ok((enrs, end)) => {
                    let payload = slice_to_vec(slice_subrange(b, end, b.len()));
                    proof {
                        assert(payload@ =~= b@.skip(end as int));
                    }
                    Ok(Message::Response(Response::FoundContent(FoundContent { enrs, payload })))
                }
                Err(e) => Err(e),
            }
        } else {
            Err(DecodeError::UnknownDiscriminant { id })
        }
    }
}

} // verus!
