use node_kernel::message::{KernelMessage, Message, NetworkErrorKind, Request};
use node_kernel::net::{
    connect_to_routers, delivery_result, find_identity, judge_handshake, make_kernel_response,
    make_ws_host, plan_route, router_endpoint, transport_mode, validate_handshake,
    net_process_id, Endpoint, Handshake, HandshakeError, HandshakeKeys, Identity, NdnsUpdate,
    NetworkError, PeerTable, Route, RouteAction, RouteEvent, RoutePlan, RouterQueue, RouterStep,
    TransportMode, NONCE_LEN,
};
use node_kernel::process::{
    admit_incoming, capability_passes, capability_verdicts, prune_capabilities,
    retain_capabilities, ProcessState,
};
use node_kernel::types::{Address, Payload, ProcessId, SignedCapability};
use ring::signature::{Ed25519KeyPair, KeyPair};

const GENERATOR: &str = "0279be667ef9dcbbac55a06295ce870b07029bfcdb2dce28d959f2815b16f81798";

fn keypair(seed: u8) -> Ed25519KeyPair {
    Ed25519KeyPair::from_seed_unchecked(&[seed; 32]).unwrap()
}

fn identity(name: &str, kp: &Ed25519KeyPair) -> Identity {
    Identity {
        name: name.to_string(),
        networking_key: hex::encode(kp.public_key().as_ref()),
        ws_routing: Some(("10.0.0.1".to_string(), 9000)),
        allowed_routers: vec![],
    }
}

fn id_encoding(id: &Identity) -> Vec<u8> {
    format!("{}|{}|{:?}|{:?}", id.name, id.networking_key, id.ws_routing, id.allowed_routers)
        .into_bytes()
}

fn handshake(id: &Identity, kp: &Ed25519KeyPair, ephemeral: Vec<u8>) -> Handshake {
    Handshake::new(
        id.name.clone(),
        "target".to_string(),
        kp.sign(&id_encoding(id)).as_ref().to_vec(),
        ephemeral.clone(),
        kp.sign(&ephemeral).as_ref().to_vec(),
        vec![3u8; NONCE_LEN],
    )
}

fn generator() -> Vec<u8> {
    hex::decode(GENERATOR).unwrap()
}

fn address(node: &str, process: &str) -> Address {
    Address { node: node.to_string(), process: ProcessId::Name(process.to_string()) }
}

fn names(list: &[&str]) -> Vec<String> {
    list.iter().map(|s| s.to_string()).collect()
}

#[test]
fn handshake_with_valid_signatures_is_accepted() {
    let kp = keypair(1);
    let id = identity("alice", &kp);
    let hs = handshake(&id, &kp, generator());
    let got = validate_handshake(&hs, &id, &id_encoding(&id), vec![3u8; NONCE_LEN]);
    assert_eq!(
        got,
        Ok(HandshakeKeys { ephemeral_public_key: generator(), nonce: vec![3u8; NONCE_LEN] })
    );
}

#[test]
fn handshake_returns_the_nonce_it_was_given() {
    let kp = keypair(1);
    let id = identity("alice", &kp);
    let hs = handshake(&id, &kp, generator());
    let got = validate_handshake(&hs, &id, &id_encoding(&id), vec![8u8; NONCE_LEN]).unwrap();
    assert_eq!(got.nonce, vec![8u8; NONCE_LEN]);
}

#[test]
fn handshake_with_flipped_id_signature_is_rejected() {
    let kp = keypair(1);
    let id = identity("alice", &kp);
    for position in [0usize, 31, 63] {
        let mut hs = handshake(&id, &kp, generator());
        hs.id_signature[position] ^= 0x01;
        let got = validate_handshake(&hs, &id, &id_encoding(&id), vec![3u8; NONCE_LEN]);
        assert_eq!(got, Err(HandshakeError::BadSignature));
    }
}

#[test]
fn handshake_with_flipped_ephemeral_signature_is_rejected() {
    let kp = keypair(1);
    let id = identity("alice", &kp);
    for position in [0usize, 31, 63] {
        let mut hs = handshake(&id, &kp, generator());
        hs.ephemeral_public_key_signature[position] ^= 0x80;
        let got = validate_handshake(&hs, &id, &id_encoding(&id), vec![3u8; NONCE_LEN]);
        assert_eq!(got, Err(HandshakeError::BadSignature));
    }
}

#[test]
fn handshake_signed_by_another_key_is_rejected() {
    let kp = keypair(1);
    let other = keypair(2);
    let id = identity("alice", &kp);
    let hs = handshake(&id, &other, generator());
    let got = validate_handshake(&hs, &id, &id_encoding(&id), vec![3u8; NONCE_LEN]);
    assert_eq!(got, Err(HandshakeError::BadSignature));
}

#[test]
fn handshake_over_a_changed_identity_is_rejected() {
    let kp = keypair(1);
    let id = identity("alice", &kp);
    let hs = handshake(&id, &kp, generator());
    let mut published = identity("alice", &kp);
    published.ws_routing = None;
    let got = validate_handshake(&hs, &published, &id_encoding(&published), vec![3u8; NONCE_LEN]);
    assert_eq!(got, Err(HandshakeError::BadSignature));
}

#[test]
fn handshake_with_swapped_ephemeral_key_is_rejected() {
    let kp = keypair(1);
    let id = identity("alice", &kp);
    let mut hs = handshake(&id, &kp, generator());
    hs.ephemeral_public_key[0] = 0x03;
    let got = validate_handshake(&hs, &id, &id_encoding(&id), vec![3u8; NONCE_LEN]);
    assert_eq!(got, Err(HandshakeError::BadSignature));
}

#[test]
fn handshake_with_networking_key_that_is_not_hex_is_rejected() {
    let kp = keypair(1);
    let mut id = identity("alice", &kp);
    let hs = handshake(&id, &kp, generator());
    id.networking_key = "not hex at all".to_string();
    let got = validate_handshake(&hs, &id, &id_encoding(&id), vec![3u8; NONCE_LEN]);
    assert_eq!(got, Err(HandshakeError::BadNetworkingKey));
    id.networking_key = "abc".to_string();
    let got = validate_handshake(&hs, &id, &id_encoding(&id), vec![3u8; NONCE_LEN]);
    assert_eq!(got, Err(HandshakeError::BadNetworkingKey));
}

#[test]
fn handshake_with_upper_case_networking_key_is_accepted() {
    let kp = keypair(1);
    let mut id = identity("alice", &kp);
    let hs = handshake(&id, &kp, generator());
    let encoding = id_encoding(&id);
    id.networking_key = id.networking_key.to_uppercase();
    let got = validate_handshake(&hs, &id, &encoding, vec![3u8; NONCE_LEN]);
    assert!(got.is_ok());
}

#[test]
fn handshake_with_ephemeral_key_off_the_curve_is_rejected() {
    let kp = keypair(1);
    let id = identity("alice", &kp);
    let hs = handshake(&id, &kp, vec![1, 2, 3, 4]);
    let got = validate_handshake(&hs, &id, &id_encoding(&id), vec![3u8; NONCE_LEN]);
    assert_eq!(got, Err(HandshakeError::BadEphemeralKey));
    let hs = handshake(&id, &kp, vec![]);
    let got = validate_handshake(&hs, &id, &id_encoding(&id), vec![3u8; NONCE_LEN]);
    assert_eq!(got, Err(HandshakeError::BadEphemeralKey));
}

#[test]
fn handshake_with_nonce_of_wrong_length_is_rejected_last() {
    let kp = keypair(1);
    let id = identity("alice", &kp);
    let hs = handshake(&id, &kp, generator());
    for len in [0usize, 5, 11, 13, 24] {
        assert_eq!(
            validate_handshake(&hs, &id, &id_encoding(&id), vec![3u8; len]),
            Err(HandshakeError::BadNonce)
        );
    }
    assert_eq!(
        validate_handshake(&hs, &id, &id_encoding(&id), vec![3u8; 12]),
        Ok(HandshakeKeys { ephemeral_public_key: generator(), nonce: vec![3u8; 12] })
    );
}

#[test]
fn bad_signature_is_rejected_whatever_the_nonce() {
    let kp = keypair(1);
    let other = keypair(2);
    let id = identity("alice", &kp);
    for len in [0usize, 5, 12, 40] {
        // the identity signature was made with another key
        let mut hs = handshake(&id, &kp, generator());
        hs.id_signature = other.sign(&id_encoding(&id)).as_ref().to_vec();
        assert_eq!(
            validate_handshake(&hs, &id, &id_encoding(&id), vec![1u8; len]),
            Err(HandshakeError::BadSignature)
        );
        // the ephemeral key was replaced in transit
        let mut hs = handshake(&id, &kp, generator());
        hs.ephemeral_public_key[1] ^= 0x01;
        assert_eq!(
            validate_handshake(&hs, &id, &id_encoding(&id), vec![1u8; len]),
            Err(HandshakeError::BadSignature)
        );
    }
}

#[test]
fn earlier_checks_decide_before_the_nonce() {
    let kp = keypair(1);
    let mut id = identity("alice", &kp);
    let hs = handshake(&id, &kp, vec![1, 2, 3, 4]);
    assert_eq!(
        validate_handshake(&hs, &id, &id_encoding(&id), vec![]),
        Err(HandshakeError::BadEphemeralKey)
    );
    id.networking_key = "zz".to_string();
    assert_eq!(
        validate_handshake(&hs, &id, &id_encoding(&id), vec![]),
        Err(HandshakeError::BadNetworkingKey)
    );
}

#[test]
fn handshake_error_messages() {
    assert_eq!(HandshakeError::BadNetworkingKey.message(), "failed to decode networking key");
    assert_eq!(HandshakeError::BadSignature.message(), "got improperly signed networking info");
    assert_eq!(HandshakeError::BadEphemeralKey.message(), "error");
    assert_eq!(HandshakeError::BadNonce.message(), "got a nonce of the wrong length");
}

fn signed_cap(node: &str, params: &str, signature: Vec<u8>) -> SignedCapability {
    SignedCapability { issuer: address(node, "vfs"), params: params.to_string(), signature }
}

#[test]
fn foreign_message_keeps_only_verified_local_capabilities() {
    let kp = keypair(5);
    let key = kp.public_key().as_ref().to_vec();
    let good_encoding = b"ours/vfs/read".to_vec();
    let bad_encoding = b"ours/vfs/write".to_vec();
    let good = signed_cap("ours", "read", kp.sign(&good_encoding).as_ref().to_vec());
    let mut flipped = kp.sign(&bad_encoding).as_ref().to_vec();
    flipped[10] ^= 0x04;
    let forged = signed_cap("ours", "write", flipped);
    let unsigned = signed_cap("ours", "admin", vec![]);
    let theirs = signed_cap("other", "read", vec![1, 2, 3]);
    let caps = vec![good.clone(), forged, unsigned, theirs.clone()];
    let encodings =
        vec![good_encoding, bad_encoding, b"ours/vfs/admin".to_vec(), b"other".to_vec()];
    let kept =
        prune_capabilities(&"ours".to_string(), &"other".to_string(), &key, caps, &encodings);
    assert_eq!(kept, vec![good, theirs]);
}

#[test]
fn signature_over_another_encoding_does_not_count() {
    let kp = keypair(5);
    let key = kp.public_key().as_ref().to_vec();
    let cap = signed_cap("ours", "write", kp.sign(b"ours/vfs/read").as_ref().to_vec());
    let kept = prune_capabilities(
        &"ours".to_string(),
        &"other".to_string(),
        &key,
        vec![cap],
        &vec![b"ours/vfs/write".to_vec()],
    );
    assert!(kept.is_empty());
}

#[test]
fn signature_under_another_key_does_not_count() {
    let kp = keypair(5);
    let stranger = keypair(6);
    let key = kp.public_key().as_ref().to_vec();
    let cap = signed_cap("ours", "read", stranger.sign(b"enc").as_ref().to_vec());
    let kept = prune_capabilities(
        &"ours".to_string(),
        &"other".to_string(),
        &key,
        vec![cap],
        &vec![b"enc".to_vec()],
    );
    assert!(kept.is_empty());
}

#[test]
fn capability_without_encoding_is_dropped_when_it_needs_a_signature() {
    let kp = keypair(5);
    let key = kp.public_key().as_ref().to_vec();
    let first = signed_cap("ours", "read", kp.sign(b"one").as_ref().to_vec());
    let second = signed_cap("ours", "write", kp.sign(b"two").as_ref().to_vec());
    let kept = prune_capabilities(
        &"ours".to_string(),
        &"other".to_string(),
        &key,
        vec![first.clone(), second],
        &vec![b"one".to_vec()],
    );
    assert_eq!(kept, vec![first]);
}

#[test]
fn local_message_keeps_capabilities_unchecked() {
    let caps = vec![signed_cap("ours", "read", vec![]), signed_cap("other", "x", vec![9])];
    let kept = prune_capabilities(
        &"ours".to_string(),
        &"ours".to_string(),
        &vec![0u8; 32],
        caps.clone(),
        &vec![],
    );
    assert_eq!(kept, caps);
}

#[test]
fn process_never_sees_a_spoofed_capability() {
    let kp = keypair(5);
    let key = kp.public_key().as_ref().to_vec();
    let good = signed_cap("ours", "read", kp.sign(b"good").as_ref().to_vec());
    let spoofed = signed_cap("ours", "root", vec![0u8; 64]);
    let km = KernelMessage {
        id: 1,
        source: address("other", "evil"),
        target: address("ours", "a"),
        rsvp: None,
        message: Message::Request(Request {
            inherit: false,
            expects_response: None,
            body: b"hi".to_vec(),
            metadata: None,
            capabilities: vec![spoofed, good.clone()],
        }),
        payload: Some(Payload { mime: None, bytes: vec![1] }),
    };
    let mut state = ProcessState::new(address("ours", "a"));
    state.accept(Ok(km), &vec![b"root".to_vec(), b"good".to_vec()], &key);
    let got = state.get_next_message_for_process().unwrap();
    match got.outcome {
        Ok((source, Message::Request(r))) => {
            assert_eq!(source, address("other", "evil"));
            assert_eq!(r.capabilities, vec![good]);
            assert_eq!(r.body, b"hi".to_vec());
        }
        _ => panic!("a request was delivered"),
    }
}

#[test]
fn delivery_result_defaults_to_timeout() {
    assert_eq!(delivery_result(None), Err(NetworkError::Timeout));
    assert_eq!(delivery_result(Some(Ok(()))), Ok(()));
    assert_eq!(delivery_result(Some(Err(NetworkError::Offline))), Err(NetworkError::Offline));
    assert_eq!(delivery_result(Some(Err(NetworkError::Timeout))), Err(NetworkError::Timeout));
}

#[test]
fn network_error_kinds() {
    assert_eq!(NetworkError::Timeout.kind(), NetworkErrorKind::Timeout);
    assert_eq!(NetworkError::Offline.kind(), NetworkErrorKind::Offline);
}

#[test]
fn undelivered_message_comes_back_under_its_id() {
    let km = KernelMessage {
        id: 44,
        source: address("x", "a"),
        target: address("y", "c"),
        rsvp: Some(address("x", "a")),
        message: Message::Request(Request {
            inherit: false,
            expects_response: Some(5),
            body: b"q".to_vec(),
            metadata: None,
            capabilities: vec![],
        }),
        payload: None,
    };
    let kp = keypair(1);
    let our = identity("x", &kp);
    let err = make_kernel_response(&our, km.clone(), NetworkError::Offline);
    assert_eq!(err.id, 44);
    // the failure comes from the transport of this node
    assert_eq!(err.source, Address { node: "x".to_string(), process: net_process_id() });
    assert_eq!(err.source, address("x", "net"));
    assert_eq!(err.error.kind, NetworkErrorKind::Offline);
    assert_eq!(err.error.target, address("y", "c"));
    assert_eq!(err.error.message, km.message);
    assert_eq!(err.error.payload, None);
}

#[test]
fn transport_mode_follows_routing_info() {
    let kp = keypair(1);
    let mut id = identity("alice", &kp);
    assert_eq!(transport_mode(&id), TransportMode::Direct { port: 9000 });
    id.ws_routing = None;
    assert_eq!(transport_mode(&id), TransportMode::Indirect);
}

#[test]
fn same_public_address_is_reached_on_localhost() {
    assert_eq!(make_ws_host(&"1.2.3.4".to_string(), &"1.2.3.4".to_string()), "localhost");
    assert_eq!(make_ws_host(&"1.2.3.4".to_string(), &"5.6.7.8".to_string()), "5.6.7.8");
}

fn directory() -> Vec<Identity> {
    vec![
        Identity {
            name: "direct".to_string(),
            networking_key: "00".to_string(),
            ws_routing: Some(("5.6.7.8".to_string(), 9001)),
            allowed_routers: vec![],
        },
        Identity {
            name: "indirect".to_string(),
            networking_key: "01".to_string(),
            ws_routing: None,
            allowed_routers: names(&["r1", "r2"]),
        },
        Identity {
            name: "r1".to_string(),
            networking_key: "02".to_string(),
            ws_routing: Some(("1.2.3.4".to_string(), 9002)),
            allowed_routers: vec![],
        },
        Identity {
            name: "direct".to_string(),
            networking_key: "ff".to_string(),
            ws_routing: None,
            allowed_routers: vec![],
        },
    ]
}

#[test]
fn find_identity_takes_the_first_record() {
    let pki = directory();
    assert_eq!(find_identity(&pki, &"direct".to_string()).unwrap().networking_key, "00");
    assert_eq!(find_identity(&pki, &"r1".to_string()).unwrap().networking_key, "02");
    assert!(find_identity(&pki, &"nobody".to_string()).is_none());
    assert!(find_identity(&vec![], &"direct".to_string()).is_none());
}

#[test]
fn route_plan_prefers_live_peer() {
    let pki = directory();
    let ip = "1.2.3.4".to_string();
    assert_eq!(plan_route(&ip, true, find_identity(&pki, &"direct".to_string())), RoutePlan::LivePeer);
    assert_eq!(plan_route(&ip, true, None), RoutePlan::LivePeer);
}

#[test]
fn route_plan_without_peer() {
    let pki = directory();
    let ip = "1.2.3.4".to_string();
    assert_eq!(
        plan_route(&ip, false, find_identity(&pki, &"direct".to_string())),
        RoutePlan::Direct { host: "5.6.7.8".to_string(), port: 9001 }
    );
    assert_eq!(
        plan_route(&ip, false, find_identity(&pki, &"r1".to_string())),
        RoutePlan::Direct { host: "localhost".to_string(), port: 9002 }
    );
    assert_eq!(
        plan_route(&ip, false, find_identity(&pki, &"indirect".to_string())),
        RoutePlan::Routers(names(&["r1", "r2"]))
    );
    assert_eq!(plan_route(&ip, false, find_identity(&pki, &"nobody".to_string())), RoutePlan::Unknown);
}

#[test]
fn second_router_delivers_after_first_fails() {
    let (mut queue, step) = RouterQueue::start(names(&["r1", "r2"]));
    assert_eq!(step, RouterStep::Try("r1".to_string()));
    // r1 is unreachable: nothing comes back
    let step = queue.attempt_finished(None, None);
    assert_eq!(step, RouterStep::Try("r2".to_string()));
    let step = queue.attempt_finished(Some(Ok(())), None);
    assert_eq!(step, RouterStep::Delivered);
}

#[test]
fn first_router_failure_with_offline_error_still_falls_back() {
    let (mut queue, _) = RouterQueue::start(names(&["r1", "r2"]));
    let step = queue.attempt_finished(Some(Err(NetworkError::Offline)), None);
    assert_eq!(step, RouterStep::Try("r2".to_string()));
}

#[test]
fn exhausted_routers_mean_offline() {
    let (mut queue, step) = RouterQueue::start(names(&["r1"]));
    assert_eq!(step, RouterStep::Try("r1".to_string()));
    assert_eq!(queue.attempt_finished(Some(Err(NetworkError::Timeout)), None), RouterStep::Offline);
    let (_, step) = RouterQueue::start(vec![]);
    assert_eq!(step, RouterStep::Offline);
}

#[test]
fn suggested_router_is_tried_last() {
    let (mut queue, _) = RouterQueue::start(names(&["r1", "r2"]));
    let step = queue.attempt_finished(None, Some("r3".to_string()));
    assert_eq!(step, RouterStep::Try("r2".to_string()));
    let step = queue.attempt_finished(None, None);
    assert_eq!(step, RouterStep::Try("r3".to_string()));
    let step = queue.attempt_finished(None, None);
    assert_eq!(step, RouterStep::Offline);
}

#[test]
fn suggestion_is_ignored_after_delivery() {
    let (mut queue, _) = RouterQueue::start(names(&["r1", "r2"]));
    let step = queue.attempt_finished(Some(Ok(())), Some("r3".to_string()));
    assert_eq!(step, RouterStep::Delivered);
    assert_eq!(queue.routers.len(), 1);
}

#[test]
fn suggestion_alone_keeps_the_route_alive() {
    let (mut queue, _) = RouterQueue::start(names(&["r1"]));
    let step = queue.attempt_finished(None, Some("r9".to_string()));
    assert_eq!(step, RouterStep::Try("r9".to_string()));
}

#[test]
fn router_endpoints_skip_unknown_and_indirect_routers() {
    let pki = directory();
    let ip = "9.9.9.9".to_string();
    let our = Identity {
        name: "me".to_string(),
        networking_key: "aa".to_string(),
        ws_routing: None,
        allowed_routers: names(&["nobody", "r1", "indirect", "direct"]),
    };
    assert_eq!(
        connect_to_routers(&our, &ip, &pki),
        vec![
            Endpoint { name: "r1".to_string(), host: "1.2.3.4".to_string(), port: 9002 },
            Endpoint { name: "direct".to_string(), host: "5.6.7.8".to_string(), port: 9001 },
        ]
    );
    assert_eq!(
        router_endpoint(&"1.2.3.4".to_string(), &pki, &"r1".to_string()),
        Some(Endpoint { name: "r1".to_string(), host: "localhost".to_string(), port: 9002 })
    );
    assert_eq!(router_endpoint(&ip, &pki, &"indirect".to_string()), None);
    assert_eq!(router_endpoint(&ip, &pki, &"nobody".to_string()), None);
}

#[test]
fn peer_table_registers_and_removes() {
    let mut peers = PeerTable::new();
    assert!(!peers.contains(&"bob".to_string()));
    peers.register("bob".to_string());
    peers.register("carol".to_string());
    peers.register("bob".to_string());
    assert!(peers.contains(&"bob".to_string()));
    assert!(peers.contains(&"carol".to_string()));
    peers.remove(&"bob".to_string());
    assert!(!peers.contains(&"bob".to_string()));
    assert!(peers.contains(&"carol".to_string()));
    peers.remove(&"nobody".to_string());
    assert!(peers.contains(&"carol".to_string()));
}

#[test]
fn routed_delivery_to_an_indirect_node() {
    // x has no peer for y; y is indirect with the one router r1
    let pki = vec![
        Identity {
            name: "y".to_string(),
            networking_key: "01".to_string(),
            ws_routing: None,
            allowed_routers: names(&["r1"]),
        },
        Identity {
            name: "r1".to_string(),
            networking_key: "02".to_string(),
            ws_routing: Some(("7.7.7.7".to_string(), 9002)),
            allowed_routers: vec![],
        },
    ];
    let peers = PeerTable::new();
    let target = "y".to_string();
    let ip = "1.1.1.1".to_string();
    let plan = plan_route(&ip, peers.contains(&target), find_identity(&pki, &target));
    let routers = match plan {
        RoutePlan::Routers(r) => r,
        other => panic!("expected routers, got {:?}", other),
    };
    // r1 relays
    let (mut queue, step) = RouterQueue::start(routers.clone());
    assert_eq!(step, RouterStep::Try("r1".to_string()));
    assert_eq!(
        router_endpoint(&ip, &pki, &"r1".to_string()),
        Some(Endpoint { name: "r1".to_string(), host: "7.7.7.7".to_string(), port: 9002 })
    );
    assert_eq!(queue.attempt_finished(Some(Ok(())), None), RouterStep::Delivered);
    // r1 cannot relay
    let (mut queue, _) = RouterQueue::start(routers);
    assert_eq!(queue.attempt_finished(Some(Err(NetworkError::Offline)), None), RouterStep::Offline);
}

#[test]
fn ndns_update_new_sets_name_and_node_only() {
    let got = NdnsUpdate::new(&"alice.uq".to_string(), &"0xabc".to_string());
    assert_eq!(
        got,
        NdnsUpdate {
            name: "alice.uq".to_string(),
            owner: String::new(),
            node: "0xabc".to_string(),
            public_key: String::new(),
            ip: String::new(),
            port: 0,
            routers: vec![],
        }
    );
}

#[test]
fn judgement_follows_the_first_failed_check() {
    let keys = HandshakeKeys { ephemeral_public_key: vec![2, 1], nonce: vec![7; 12] };
    assert_eq!(judge_handshake(true, true, true, vec![2, 1], vec![7; 12]), Ok(keys));
    for signatures_ok in [false, true] {
        for ephemeral_ok in [false, true] {
            assert_eq!(
                judge_handshake(false, signatures_ok, ephemeral_ok, vec![], vec![]),
                Err(HandshakeError::BadNetworkingKey)
            );
        }
    }
    for ephemeral_ok in [false, true] {
        assert_eq!(
            judge_handshake(true, false, ephemeral_ok, vec![], vec![]),
            Err(HandshakeError::BadSignature)
        );
    }
    assert_eq!(
        judge_handshake(true, true, false, vec![], vec![]),
        Err(HandshakeError::BadEphemeralKey)
    );
    assert_eq!(judge_handshake(true, true, true, vec![2, 1], vec![7; 11]), Err(HandshakeError::BadNonce));
    assert_eq!(judge_handshake(true, true, true, vec![2, 1], vec![]), Err(HandshakeError::BadNonce));
}

#[test]
fn retain_keeps_marked_positions() {
    let caps = vec![
        signed_cap("a", "0", vec![]),
        signed_cap("a", "1", vec![]),
        signed_cap("a", "2", vec![]),
    ];
    assert_eq!(
        retain_capabilities(caps.clone(), &vec![true, false, true]),
        vec![signed_cap("a", "0", vec![]), signed_cap("a", "2", vec![])]
    );
    assert_eq!(retain_capabilities(caps.clone(), &vec![false, true]), vec![signed_cap("a", "1", vec![])]);
    assert_eq!(retain_capabilities(caps.clone(), &vec![]), vec![]);
    assert_eq!(retain_capabilities(caps.clone(), &vec![true, true, true, true]), caps);
    assert_eq!(retain_capabilities(vec![], &vec![true]), vec![]);
}

#[test]
fn capability_passes_without_need_or_with_valid_signature() {
    let ours = "ours".to_string();
    let other = "other".to_string();
    let local_issue = signed_cap("ours", "r", vec![]);
    let foreign_issue = signed_cap("other", "r", vec![]);
    // needs a signature: foreign source, issued here
    assert!(!capability_passes(&ours, &other, &local_issue, false));
    assert!(capability_passes(&ours, &other, &local_issue, true));
    // foreign source, issued elsewhere
    assert!(capability_passes(&ours, &other, &foreign_issue, false));
    // local source
    assert!(capability_passes(&ours, &ours, &local_issue, false));
    assert!(capability_passes(&ours, &ours, &foreign_issue, false));
}

#[test]
fn verdicts_are_given_per_position() {
    let kp = keypair(5);
    let key = kp.public_key().as_ref().to_vec();
    let caps = vec![
        signed_cap("ours", "a", kp.sign(b"a").as_ref().to_vec()),
        signed_cap("ours", "b", kp.sign(b"a").as_ref().to_vec()),
        signed_cap("other", "c", vec![]),
        signed_cap("ours", "d", kp.sign(b"d").as_ref().to_vec()),
    ];
    let encodings = vec![b"a".to_vec(), b"b".to_vec(), b"c".to_vec()];
    assert_eq!(
        capability_verdicts(&"ours".to_string(), &"other".to_string(), &key, &caps, &encodings),
        vec![true, false, true, false]
    );
    assert_eq!(
        capability_verdicts(&"ours".to_string(), &"ours".to_string(), &key, &caps, &encodings),
        vec![true, true, true, true]
    );
}

#[test]
fn timeout_failure_keeps_payload_and_kind() {
    let kp = keypair(1);
    let our = identity("x", &kp);
    let km = KernelMessage {
        id: 7,
        source: address("x", "a"),
        target: address("y", "c"),
        rsvp: None,
        message: Message::Request(Request {
            inherit: true,
            expects_response: None,
            body: vec![],
            metadata: None,
            capabilities: vec![],
        }),
        payload: Some(Payload { mime: None, bytes: vec![9] }),
    };
    let err = make_kernel_response(&our, km, NetworkError::Timeout);
    assert_eq!(err.error.kind, NetworkErrorKind::Timeout);
    assert_eq!(err.error.payload, Some(Payload { mime: None, bytes: vec![9] }));
}

#[test]
fn networking_key_must_be_whole_hex() {
    let kp = keypair(1);
    let good = identity("alice", &kp);
    let hs = handshake(&good, &kp, generator());
    let encoding = id_encoding(&good);
    let hex_key = good.networking_key.clone();
    for bad in [
        format!("{}0", hex_key),
        format!("{}g0", &hex_key[..62]),
        format!("{}\u{e9}", &hex_key[..62]),
        format!("{}\u{e9}0", &hex_key[..61]),
        format!(" {}", &hex_key[..63]),
        format!("0x{}", &hex_key[..62]),
    ] {
        let mut id = identity("alice", &kp);
        id.networking_key = bad;
        assert_eq!(
            validate_handshake(&hs, &id, &encoding, vec![3u8; NONCE_LEN]),
            Err(HandshakeError::BadNetworkingKey)
        );
    }
}

#[test]
fn networking_key_of_wrong_length_fails_the_signatures() {
    let kp = keypair(1);
    let good = identity("alice", &kp);
    let hs = handshake(&good, &kp, generator());
    let encoding = id_encoding(&good);
    for key in [String::new(), good.networking_key[..62].to_string(), format!("{}00", good.networking_key)] {
        let mut id = identity("alice", &kp);
        id.networking_key = key;
        assert_eq!(
            validate_handshake(&hs, &id, &encoding, vec![3u8; NONCE_LEN]),
            Err(HandshakeError::BadSignature)
        );
    }
}

#[test]
fn handshake_with_signature_of_wrong_length_is_rejected() {
    let kp = keypair(1);
    let id = identity("alice", &kp);
    let mut hs = handshake(&id, &kp, generator());
    hs.id_signature.pop();
    assert_eq!(
        validate_handshake(&hs, &id, &id_encoding(&id), vec![3u8; NONCE_LEN]),
        Err(HandshakeError::BadSignature)
    );
    let mut hs = handshake(&id, &kp, generator());
    hs.ephemeral_public_key_signature.push(0);
    assert_eq!(
        validate_handshake(&hs, &id, &id_encoding(&id), vec![3u8; NONCE_LEN]),
        Err(HandshakeError::BadSignature)
    );
}

#[test]
fn uncompressed_ephemeral_key_is_accepted_and_identity_refused() {
    let kp = keypair(1);
    let id = identity("alice", &kp);
    let uncompressed = hex::decode(
        "0479be667ef9dcbbac55a06295ce870b07029bfcdb2dce28d959f2815b16f81798\
         483ada7726a3c4655da4fbfc0e1108a8fd17b448a68554199c47d08ffb10d4b8",
    )
    .unwrap();
    let hs = handshake(&id, &kp, uncompressed.clone());
    let got = validate_handshake(&hs, &id, &id_encoding(&id), vec![3u8; NONCE_LEN]).unwrap();
    assert_eq!(got.ephemeral_public_key, uncompressed);
    let hs = handshake(&id, &kp, vec![0u8]);
    assert_eq!(
        validate_handshake(&hs, &id, &id_encoding(&id), vec![3u8; NONCE_LEN]),
        Err(HandshakeError::BadEphemeralKey)
    );
}

#[test]
fn admit_incoming_leaves_failures_alone() {
    let kp = keypair(1);
    let our = identity("x", &kp);
    let km = KernelMessage {
        id: 7,
        source: address("x", "a"),
        target: address("y", "c"),
        rsvp: None,
        message: Message::Request(Request {
            inherit: false,
            expects_response: Some(1),
            body: vec![],
            metadata: None,
            capabilities: vec![signed_cap("x", "r", vec![])],
        }),
        payload: None,
    };
    let failure = make_kernel_response(&our, km, NetworkError::Offline);
    let got = admit_incoming(&"x".to_string(), &vec![0u8; 32], Err(failure.clone()), &vec![]);
    assert_eq!(got, Err(failure));
}

#[test]
fn admit_incoming_prunes_requests_and_responses() {
    let forged = signed_cap("ours", "root", vec![]);
    let kept = signed_cap("other", "r", vec![]);
    let request = KernelMessage {
        id: 7,
        source: address("other", "a"),
        target: address("ours", "c"),
        rsvp: Some(address("other", "a")),
        message: Message::Request(Request {
            inherit: true,
            expects_response: Some(1),
            body: b"b".to_vec(),
            metadata: Some("m".to_string()),
            capabilities: vec![forged, kept.clone()],
        }),
        payload: Some(Payload { mime: None, bytes: vec![1] }),
    };
    let got = admit_incoming(&"ours".to_string(), &vec![0u8; 32], Ok(request), &vec![]);
    assert_eq!(
        got,
        Ok(KernelMessage {
            id: 7,
            source: address("other", "a"),
            target: address("ours", "c"),
            rsvp: Some(address("other", "a")),
            message: Message::Request(Request {
                inherit: true,
                expects_response: Some(1),
                body: b"b".to_vec(),
                metadata: Some("m".to_string()),
                capabilities: vec![kept],
            }),
            payload: Some(Payload { mime: None, bytes: vec![1] }),
        })
    );
}

#[test]
fn route_over_live_peer() {
    let (route, action) = Route::begin(RoutePlan::LivePeer);
    assert_eq!(action, RouteAction::SendToPeer);
    let (route, action) = route.advance(RouteEvent::Sent(Some(Ok(()))));
    assert_eq!(action, RouteAction::Done(Ok(())));
    assert_eq!(route, Route::Finished);
    let (route, _) = Route::begin(RoutePlan::LivePeer);
    assert_eq!(
        route.advance(RouteEvent::Sent(None)).1,
        RouteAction::Done(Err(NetworkError::Timeout))
    );
    let (route, _) = Route::begin(RoutePlan::LivePeer);
    assert_eq!(
        route.advance(RouteEvent::Sent(Some(Err(NetworkError::Offline)))).1,
        RouteAction::Done(Err(NetworkError::Offline))
    );
}

#[test]
fn route_over_direct_connection() {
    let plan = RoutePlan::Direct { host: "5.6.7.8".to_string(), port: 9001 };
    let (route, action) = Route::begin(plan);
    assert_eq!(action, RouteAction::Connect { host: "5.6.7.8".to_string(), port: 9001 });
    assert_eq!(route, Route::Connecting);
    let (route, action) = route.advance(RouteEvent::Connected);
    assert_eq!(action, RouteAction::SendToPeer);
    assert_eq!(route.advance(RouteEvent::Sent(None)).1, RouteAction::Done(Err(NetworkError::Timeout)));
    let (route, _) = Route::begin(RoutePlan::Direct { host: "h".to_string(), port: 1 });
    assert_eq!(
        route.advance(RouteEvent::ConnectFailed).1,
        RouteAction::Done(Err(NetworkError::Offline))
    );
}

#[test]
fn route_to_unknown_target_is_offline() {
    let (route, action) = Route::begin(RoutePlan::Unknown);
    assert_eq!(action, RouteAction::Done(Err(NetworkError::Offline)));
    assert_eq!(route, Route::Finished);
    let (route, action) = Route::begin(RoutePlan::Routers(vec![]));
    assert_eq!(action, RouteAction::Done(Err(NetworkError::Offline)));
    assert_eq!(route, Route::Finished);
}

#[test]
fn route_through_routers_falls_back_and_takes_suggestions() {
    let (route, action) = Route::begin(RoutePlan::Routers(names(&["r1", "r2"])));
    assert_eq!(action, RouteAction::TryRouter("r1".to_string()));
    let (route, action) = route.advance(RouteEvent::RouterTried {
        ack: Some(Err(NetworkError::Offline)),
        suggestion: Some("r3".to_string()),
    });
    assert_eq!(action, RouteAction::TryRouter("r2".to_string()));
    let (route, action) = route.advance(RouteEvent::RouterTried { ack: None, suggestion: None });
    assert_eq!(action, RouteAction::TryRouter("r3".to_string()));
    let (route, action) =
        route.advance(RouteEvent::RouterTried { ack: Some(Ok(())), suggestion: None });
    assert_eq!(action, RouteAction::Done(Ok(())));
    assert_eq!(route, Route::Finished);
    // every router failed
    let (route, _) = Route::begin(RoutePlan::Routers(names(&["r1"])));
    let (route, action) = route.advance(RouteEvent::RouterTried { ack: None, suggestion: None });
    assert_eq!(action, RouteAction::Done(Err(NetworkError::Offline)));
    assert_eq!(route, Route::Finished);
}

#[test]
fn event_that_answers_nothing_ends_the_route() {
    let (route, _) = Route::begin(RoutePlan::LivePeer);
    assert_eq!(
        route.advance(RouteEvent::Connected),
        (Route::Finished, RouteAction::Done(Err(NetworkError::Offline)))
    );
    let (route, _) = Route::begin(RoutePlan::Routers(names(&["r1", "r2"])));
    assert_eq!(
        route.advance(RouteEvent::Sent(Some(Ok(())))),
        (Route::Finished, RouteAction::Done(Err(NetworkError::Offline)))
    );
    assert_eq!(
        Route::Finished.advance(RouteEvent::Sent(Some(Ok(())))),
        (Route::Finished, RouteAction::Done(Err(NetworkError::Offline)))
    );
}
