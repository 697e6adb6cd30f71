use trin::messages::{
    Enr, FindContent, FindNodes, Message, Ping, Request, Response,
};
use trin::peers::PeerSet;
use trin::protocol::{protocol_tag, AlexandriaProtocol};
use trin::u256::U256;
use trin::{discovery_step, talk_resp, DiscoveryAction, DISCOVERY_INTERVAL};

fn enr(bytes: &[u8]) -> Enr {
    Enr { bytes: bytes.to_vec() }
}

fn endpoint(radius: u64) -> AlexandriaProtocol {
    AlexandriaProtocol::new(U256::from_u64(radius))
}

#[test]
fn ping_yields_pong_with_local_radius() {
    let node = endpoint(0xCAFE);
    let peers = PeerSet::new();
    let request = Message::Request(Request::Ping(Ping {
        enr_seq: 41,
        data_radius: U256::from_u64(7),
    }))
    .to_bytes();
    let resp = node.talkreq_response(protocol_tag().as_bytes(), &request, 12345, &peers);
    match Message::from_bytes(&resp) {
        Ok(Message::Response(Response::Pong(pong))) => {
            assert_eq!(pong.data_radius, U256::from_u64(0xCAFE));
            assert_eq!(pong.enr_seq, 12345);
        }
        other => panic!("expected a Pong response, got {:?}", other),
    }
}

#[test]
fn mismatched_tag_is_rejected() {
    let node = endpoint(1);
    let peers = PeerSet::new();
    let request = Message::Request(Request::Ping(Ping {
        enr_seq: 1,
        data_radius: U256::from_u64(1),
    }))
    .to_bytes();
    let resp = node.talkreq_response(b"wrong-protocol", &request, 0, &peers);
    assert_eq!(resp, b"INVALID PROTOCOL".to_vec());
    let resp = node.talkreq_response(b"", &request, 0, &peers);
    assert_eq!(resp, b"INVALID PROTOCOL".to_vec());
}

#[test]
fn empty_buffer_yields_invalid_request() {
    let node = endpoint(1);
    let peers = PeerSet::new();
    let resp = node.talkreq_response(protocol_tag().as_bytes(), &[], 0, &peers);
    assert!(resp.starts_with(b"INVALID REQUEST"));
}

#[test]
fn truncated_buffer_yields_invalid_request() {
    let node = endpoint(1);
    let peers = PeerSet::new();
    let mut request = Message::Request(Request::Ping(Ping {
        enr_seq: 1,
        data_radius: U256::from_u64(1),
    }))
    .to_bytes();
    request.truncate(10);
    let resp = node.talkreq_response(protocol_tag().as_bytes(), &request, 0, &peers);
    assert!(resp.starts_with(b"INVALID REQUEST"));
    // An unknown discriminant also gets a diagnostic, never a panic.
    let resp = node.talkreq_response(protocol_tag().as_bytes(), &[0x42], 0, &peers);
    assert!(resp.starts_with(b"INVALID REQUEST"));
}

#[test]
fn response_in_request_position_is_rejected() {
    let node = endpoint(1);
    let peers = PeerSet::new();
    let inbound = Message::Response(Response::Pong(trin::messages::Pong {
        enr_seq: 1,
        data_radius: U256::from_u64(1),
    }))
    .to_bytes();
    let resp = node.talkreq_response(protocol_tag().as_bytes(), &inbound, 0, &peers);
    assert_eq!(resp, b"INVALID MESSAGE".to_vec());
}

#[test]
fn find_content_yields_empty_placeholder() {
    let node = endpoint(1);
    let mut peers = PeerSet::new();
    peers.add_peer(3, enr(b"some-peer"));
    let request = Message::Request(Request::FindContent(FindContent {
        content_key: vec![0xAA, 0xBB],
    }))
    .to_bytes();
    let resp = node.talkreq_response(protocol_tag().as_bytes(), &request, 0, &peers);
    match Message::from_bytes(&resp) {
        Ok(Message::Response(Response::FoundContent(fc))) => {
            assert!(fc.enrs.is_empty());
            assert!(fc.payload.is_empty());
        }
        other => panic!("expected a FoundContent response, got {:?}", other),
    }
}

#[test]
fn find_nodes_returns_matching_buckets_in_order() {
    let node = endpoint(1);
    let mut peers = PeerSet::new();
    peers.add_peer(1, enr(b"close-a"));
    peers.add_peer(2, enr(b"mid-a"));
    peers.add_peer(1, enr(b"close-b"));
    peers.add_peer(9, enr(b"far-a"));
    let request = Message::Request(Request::FindNodes(FindNodes {
        distances: vec![2, 1],
    }))
    .to_bytes();
    let resp = node.talkreq_response(protocol_tag().as_bytes(), &request, 0, &peers);
    match Message::from_bytes(&resp) {
        Ok(Message::Response(Response::Nodes(n))) => {
            assert_eq!(n.total, 3);
            assert_eq!(n.enrs, vec![enr(b"mid-a"), enr(b"close-a"), enr(b"close-b")]);
        }
        other => panic!("expected a Nodes response, got {:?}", other),
    }
}

#[test]
fn find_nodes_unknown_distance_is_empty() {
    let node = endpoint(1);
    let mut peers = PeerSet::new();
    peers.add_peer(5, enr(b"peer"));
    let request = Message::Request(Request::FindNodes(FindNodes { distances: vec![6] }))
        .to_bytes();
    let resp = node.talkreq_response(protocol_tag().as_bytes(), &request, 0, &peers);
    match Message::from_bytes(&resp) {
        Ok(Message::Response(Response::Nodes(n))) => {
            assert_eq!(n.total, 0);
            assert!(n.enrs.is_empty());
        }
        other => panic!("expected a Nodes response, got {:?}", other),
    }
}

#[test]
fn find_nodes_truncates_at_255() {
    let node = endpoint(1);
    let mut peers = PeerSet::new();
    for i in 0..300u32 {
        peers.add_peer(4, enr(&i.to_le_bytes()));
    }
    let request = Message::Request(Request::FindNodes(FindNodes { distances: vec![4] }))
        .to_bytes();
    let resp = node.talkreq_response(protocol_tag().as_bytes(), &request, 0, &peers);
    match Message::from_bytes(&resp) {
        Ok(Message::Response(Response::Nodes(n))) => {
            assert_eq!(n.total, 255);
            assert_eq!(n.enrs.len(), 255);
            // The first 255 peers, in set order.
            assert_eq!(n.enrs[0], enr(&0u32.to_le_bytes()));
            assert_eq!(n.enrs[254], enr(&254u32.to_le_bytes()));
        }
        other => panic!("expected a Nodes response, got {:?}", other),
    }
}

#[test]
fn ping_enr_seq_is_truncated_to_32_bits() {
    let node = endpoint(1);
    let peers = PeerSet::new();
    let request = Message::Request(Request::Ping(Ping {
        enr_seq: 0,
        data_radius: U256::from_u64(0),
    }))
    .to_bytes();
    let resp = node.talkreq_response(
        protocol_tag().as_bytes(),
        &request,
        0x1_0000_0002,
        &peers,
    );
    match Message::from_bytes(&resp) {
        Ok(Message::Response(Response::Pong(pong))) => assert_eq!(pong.enr_seq, 2),
        other => panic!("expected a Pong response, got {:?}", other),
    }
}

#[test]
fn talk_resp_echoes_request() {
    assert_eq!(talk_resp(b"any", b"payload"), b"payload".to_vec());
    assert_eq!(talk_resp(b"", b""), Vec::<u8>::new());
}

#[test]
fn discovery_step_policy() {
    assert_eq!(
        discovery_step(true),
        DiscoveryAction::Sleep { seconds: DISCOVERY_INTERVAL }
    );
    assert_eq!(discovery_step(false), DiscoveryAction::Stop);
}
