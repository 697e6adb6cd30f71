use trin::errors::DecodeError;
use trin::messages::{
    Enr, FindContent, FindNodes, FoundContent, Message, Nodes, Ping, Pong, Request, Response,
    FIND_CONTENT_ID, FIND_NODES_ID, FOUND_CONTENT_ID, NODES_ID, PING_ID, PONG_ID,
};
use trin::messages::ProtocolMessage;
use trin::protocol::{find_content_request_bytes, find_nodes_request_bytes, ping_request_bytes};
use trin::u256::U256;

fn enr(bytes: &[u8]) -> Enr {
    Enr { bytes: bytes.to_vec() }
}

#[test]
fn round_trip_ping() {
    let m = Message::Request(Request::Ping(Ping {
        enr_seq: 0xDEAD_BEEF,
        data_radius: U256 { l0: 1, l1: 2, l2: 3, l3: u64::MAX },
    }));
    let bytes = m.to_bytes();
    assert_eq!(Message::from_bytes(&bytes), Ok(m));
}

#[test]
fn round_trip_pong() {
    let m = Message::Response(Response::Pong(Pong {
        enr_seq: 7,
        data_radius: U256::from_u64(99),
    }));
    let bytes = m.to_bytes();
    assert_eq!(Message::from_bytes(&bytes), Ok(m));
}

#[test]
fn round_trip_find_nodes() {
    let m = Message::Request(Request::FindNodes(FindNodes {
        distances: vec![0, 1, 255, 256, u16::MAX],
    }));
    let bytes = m.to_bytes();
    assert_eq!(Message::from_bytes(&bytes), Ok(m));
}

#[test]
fn round_trip_find_nodes_empty() {
    let m = Message::Request(Request::FindNodes(FindNodes { distances: vec![] }));
    let bytes = m.to_bytes();
    assert_eq!(bytes, vec![FIND_NODES_ID]);
    assert_eq!(Message::from_bytes(&bytes), Ok(m));
}

#[test]
fn round_trip_find_content() {
    let m = Message::Request(Request::FindContent(FindContent {
        content_key: vec![1, 2, 3, 4, 5],
    }));
    let bytes = m.to_bytes();
    assert_eq!(Message::from_bytes(&bytes), Ok(m));

    let empty = Message::Request(Request::FindContent(FindContent { content_key: vec![] }));
    let bytes = empty.to_bytes();
    assert_eq!(bytes, vec![FIND_CONTENT_ID]);
    assert_eq!(Message::from_bytes(&bytes), Ok(empty));
}

#[test]
fn round_trip_nodes_zero_one_many() {
    for records in [
        vec![],
        vec![enr(b"record-one")],
        vec![enr(b"a"), enr(b""), enr(b"a-third-much-longer-record")],
    ] {
        let total = records.len() as u8;
        let m = Message::Response(Response::Nodes(Nodes { total, enrs: records }));
        let bytes = m.to_bytes();
        assert_eq!(bytes[0], NODES_ID);
        match Message::from_bytes(&bytes) {
            Ok(Message::Response(Response::Nodes(n))) => {
                assert_eq!(Message::Response(Response::Nodes(n.clone())), m);
                assert_eq!(n.total as usize, n.enrs.len());
            }
            other => panic!("expected a Nodes response, got {:?}", other),
        }
    }
}

#[test]
fn round_trip_found_content() {
    let m = Message::Response(Response::FoundContent(FoundContent {
        enrs: vec![enr(b"peer-a"), enr(b"peer-b")],
        payload: vec![9, 8, 7],
    }));
    let bytes = m.to_bytes();
    assert_eq!(bytes[0], FOUND_CONTENT_ID);
    assert_eq!(Message::from_bytes(&bytes), Ok(m));

    let empty = Message::Response(Response::FoundContent(FoundContent {
        enrs: vec![],
        payload: vec![],
    }));
    let bytes = empty.to_bytes();
    assert_eq!(Message::from_bytes(&bytes), Ok(empty));
}

#[test]
fn ping_example_literal() {
    let m = Message::Request(Request::Ping(Ping {
        enr_seq: 5,
        data_radius: U256::from_u64(1234),
    }));
    let bytes = m.to_bytes();
    let mut expected = vec![PING_ID, 0x05, 0x00, 0x00, 0x00];
    // 1234 = 0x04D2, little-endian over 32 bytes.
    expected.push(0xD2);
    expected.push(0x04);
    expected.extend_from_slice(&[0u8; 30]);
    assert_eq!(bytes, expected);
    assert_eq!(Message::from_bytes(&bytes), Ok(m));
}

#[test]
fn fixed_width_encode_is_32_bytes() {
    assert_eq!(U256::from_u64(0).encode().len(), 32);
    assert_eq!(U256 { l0: 1, l1: 2, l2: 3, l3: 4 }.encode().len(), 32);
    let v = U256 { l0: u64::MAX, l1: u64::MAX, l2: u64::MAX, l3: u64::MAX };
    assert_eq!(v.encode(), vec![0xFF; 32]);
}

#[test]
fn fixed_width_decode_wrong_length() {
    for len in [0usize, 1, 31, 33, 64] {
        let buf = vec![0u8; len];
        assert_eq!(
            U256::decode(&buf),
            Err(DecodeError::LengthMismatch { actual: len, expected: 32 })
        );
    }
    let buf = vec![0xAB; 32];
    let v = U256::decode(&buf).unwrap();
    assert_eq!(v.encode(), buf);
}

#[test]
fn message_id_registry_is_stable() {
    let radius = U256::from_u64(0);
    let cases: Vec<(Message, u8)> = vec![
        (
            Message::Request(Request::Ping(Ping { enr_seq: 0, data_radius: radius })),
            PING_ID,
        ),
        (
            Message::Response(Response::Pong(Pong { enr_seq: 0, data_radius: radius })),
            PONG_ID,
        ),
        (
            Message::Request(Request::FindNodes(FindNodes { distances: vec![] })),
            FIND_NODES_ID,
        ),
        (
            Message::Response(Response::Nodes(Nodes { total: 0, enrs: vec![] })),
            NODES_ID,
        ),
        (
            Message::Request(Request::FindContent(FindContent { content_key: vec![] })),
            FIND_CONTENT_ID,
        ),
        (
            Message::Response(Response::FoundContent(FoundContent {
                enrs: vec![],
                payload: vec![],
            })),
            FOUND_CONTENT_ID,
        ),
    ];
    let mut seen = Vec::new();
    for (message, expected_id) in cases {
        assert_eq!(message.to_bytes()[0], expected_id);
        let framed = ProtocolMessage::new(message.clone());
        assert_eq!(framed.message_id, expected_id);
        assert_eq!(framed.message, message);
        assert!(!seen.contains(&expected_id), "discriminants must be unique");
        seen.push(expected_id);
    }
}

#[test]
fn outbound_request_builders_match_codec() {
    let radius = U256::from_u64(77);
    assert_eq!(
        ping_request_bytes(9, radius),
        Message::Request(Request::Ping(Ping { enr_seq: 9, data_radius: radius })).to_bytes()
    );
    assert_eq!(
        find_nodes_request_bytes(vec![1, 2]),
        Message::Request(Request::FindNodes(FindNodes { distances: vec![1, 2] })).to_bytes()
    );
    assert_eq!(
        find_content_request_bytes(vec![5, 6]),
        Message::Request(Request::FindContent(FindContent { content_key: vec![5, 6] }))
            .to_bytes()
    );
}

#[test]
fn decode_empty_buffer_is_truncated() {
    assert_eq!(Message::from_bytes(&[]), Err(DecodeError::Truncated));
}

#[test]
fn decode_unknown_discriminant() {
    assert_eq!(
        Message::from_bytes(&[0x99, 1, 2, 3]),
        Err(DecodeError::UnknownDiscriminant { id: 0x99 })
    );
    assert_eq!(
        Message::from_bytes(&[0x00]),
        Err(DecodeError::UnknownDiscriminant { id: 0x00 })
    );
}

#[test]
fn decode_ping_wrong_length() {
    let mut bytes = Message::Request(Request::Ping(Ping {
        enr_seq: 1,
        data_radius: U256::from_u64(2),
    }))
    .to_bytes();
    bytes.pop();
    assert_eq!(
        Message::from_bytes(&bytes),
        Err(DecodeError::LengthMismatch { actual: 35, expected: 36 })
    );
    assert_eq!(
        Message::from_bytes(&[PONG_ID]),
        Err(DecodeError::LengthMismatch { actual: 0, expected: 36 })
    );
}

#[test]
fn decode_find_nodes_odd_length() {
    assert_eq!(
        Message::from_bytes(&[FIND_NODES_ID, 0x01]),
        Err(DecodeError::Malformed)
    );
}

#[test]
fn decode_nodes_empty_payload() {
    assert_eq!(Message::from_bytes(&[NODES_ID]), Err(DecodeError::Malformed));
}

#[test]
fn decode_nodes_truncated() {
    // A total byte but no record count.
    assert_eq!(
        Message::from_bytes(&[NODES_ID, 0x00, 0x01]),
        Err(DecodeError::Truncated)
    );
    // A count of one record, but no record frame follows.
    let mut bytes = vec![NODES_ID, 0x01];
    bytes.extend_from_slice(&1u64.to_le_bytes());
    assert_eq!(Message::from_bytes(&bytes), Err(DecodeError::Truncated));
    // A record length prefix promising more bytes than remain.
    bytes.extend_from_slice(&10u64.to_le_bytes());
    bytes.extend_from_slice(b"abc");
    assert_eq!(Message::from_bytes(&bytes), Err(DecodeError::Truncated));
}

#[test]
fn decode_nodes_trailing_garbage() {
    let m = Message::Response(Response::Nodes(Nodes {
        total: 1,
        enrs: vec![enr(b"rec")],
    }));
    let mut bytes = m.to_bytes();
    bytes.push(0xFF);
    assert_eq!(Message::from_bytes(&bytes), Err(DecodeError::Malformed));
}

#[test]
fn decode_found_content_truncated() {
    assert_eq!(
        Message::from_bytes(&[FOUND_CONTENT_ID, 1, 2, 3]),
        Err(DecodeError::Truncated)
    );
}
