use shard_daemon::{
    parse_bootstrap_lines, prepare_work_publish, reconnect_dials, trim_str, unique_addrs,
    BackwardPassGradient, DaemonState, DispatchAction, ScoutPenaltyUpdate, SwarmEventIn,
    TensorDataFormat, TopologyState, TrainingGossipPacket, WorkRequest, WorkResponse,
};

fn fresh_state() -> DaemonState {
    let topo = TopologyState::new("LocalPeer123".to_string(), None, false, false, true);
    DaemonState::new(topo, Vec::new())
}

fn result_from(peer: &str, created_at_ms: Option<u128>) -> WorkResponse {
    WorkResponse {
        request_id: "req-1".to_string(),
        peer_id: peer.to_string(),
        draft_tokens: vec!["tok".to_string()],
        latency_ms_bits: 0,
        created_at_ms,
    }
}

fn blackhole(state: &mut DaemonState, peer: &str, now: u128) {
    state.penalties.apply_update(
        ScoutPenaltyUpdate { peer_id: peer.to_string(), accepted: true, reason: None },
        now,
    );
    for _ in 0..5 {
        state.penalties.apply_update(
            ScoutPenaltyUpdate {
                peer_id: peer.to_string(),
                accepted: false,
                reason: Some("poisoned".to_string()),
            },
            now,
        );
    }
}

#[test]
fn blackholed_result_is_dropped_before_queueing() {
    let mut state = fresh_state();
    let now: u128 = 1_000_000;
    blackhole(&mut state, "C", now);

    let admitted = state.handle_work_result(result_from("C", Some(now - 42)), now);
    assert!(!admitted);
    assert_eq!(state.results.len(), 0);
    assert_eq!(state.latency_hist.percentiles().samples, 0);

    let admitted = state.handle_work_result(result_from("H", Some(now - 42)), now);
    assert!(admitted);
    assert_eq!(state.results.len(), 1);
}

#[test]
fn propagation_latency_lands_in_its_bucket() {
    let mut state = fresh_state();
    let now: u128 = 1_000_000;
    let admitted = state.handle_work_result(result_from("H", Some(now - 42)), now);
    assert!(admitted);
    let p = state.latency_hist.percentiles();
    assert_eq!(p.samples, 1);
    assert_eq!(p.p50_ms, 50);
}

#[test]
fn unstamped_result_records_no_latency() {
    let mut state = fresh_state();
    let admitted = state.handle_work_result(result_from("H", None), 1_000);
    assert!(admitted);
    assert_eq!(state.results.len(), 1);
    assert_eq!(state.latency_hist.percentiles().samples, 0);
}

#[test]
fn result_queue_drops_oldest_beyond_capacity() {
    let mut state = fresh_state();
    let now: u128 = 1_000;
    for i in 0..130 {
        let mut r = result_from("H", None);
        r.request_id = format!("req-{i}");
        state.handle_work_result(r, now);
    }
    assert_eq!(state.results.len(), 128);
    let first = state.pop_result().unwrap();
    assert_eq!(first.request_id, "req-2");
}

#[test]
fn pop_result_on_empty_queue_is_none() {
    let mut state = fresh_state();
    assert!(state.pop_result().is_none());
}

#[test]
fn connection_adds_known_peer_exactly_once() {
    let mut state = fresh_state();
    let now: u128 = 1_000;
    let acts = state.handle_connection_established(
        "PeerA".to_string(),
        "/ip4/1.2.3.4/tcp/4001".to_string(),
        now,
    );
    assert_eq!(acts.len(), 2);
    assert!(matches!(acts[0], DispatchAction::PersistKnownPeers));
    assert!(matches!(&acts[1], DispatchAction::SendPing { peer_id, sent_at_ms }
        if peer_id == "PeerA" && *sent_at_ms == now));
    assert_eq!(state.known_peers.len(), 1);
    assert_eq!(state.peers.len(), 1);

    // reconnecting from the same address leaves the list with one entry
    let acts = state.handle_connection_established(
        "PeerA".to_string(),
        "/ip4/1.2.3.4/tcp/4001".to_string(),
        now + 5,
    );
    assert_eq!(acts.len(), 2);
    assert_eq!(state.known_peers.len(), 1);
    assert_eq!(state.known_peers[0], "/ip4/1.2.3.4/tcp/4001");
    assert_eq!(state.peers.len(), 1);
}

#[test]
fn blackholed_connection_is_rejected_at_the_gate() {
    let mut state = fresh_state();
    let now: u128 = 1_000_000;
    blackhole(&mut state, "C", now);
    let acts = state.handle_connection_established(
        "C".to_string(),
        "/ip4/9.9.9.9/tcp/4001".to_string(),
        now,
    );
    assert_eq!(acts.len(), 1);
    assert!(matches!(&acts[0], DispatchAction::Disconnect { peer_id } if peer_id == "C"));
    assert_eq!(state.peers.len(), 0);
    assert_eq!(state.known_peers.len(), 0);
}

#[test]
fn closed_connection_keeps_the_address_for_redial() {
    let mut state = fresh_state();
    let now: u128 = 1_000;
    state.handle_connection_established(
        "PeerA".to_string(),
        "/ip4/1.2.3.4/tcp/4001".to_string(),
        now,
    );
    state.handle_connection_closed("PeerA");
    assert_eq!(state.peers.len(), 0);
    assert_eq!(state.known_peers.len(), 1);
}

#[test]
fn ping_marks_peer_verified_and_pongs_back() {
    let mut state = fresh_state();
    let now: u128 = 1_000;
    state.handle_connection_established(
        "PeerA".to_string(),
        "/ip4/1.2.3.4/tcp/4001".to_string(),
        now,
    );
    assert_eq!(state.peers.verified_count(), 0);
    let acts = state.handle_handshake_request("PeerA", "PING", now + 7);
    assert_eq!(acts.len(), 1);
    assert!(matches!(&acts[0], DispatchAction::SendPong { sent_at_ms } if *sent_at_ms == now + 7));
    assert_eq!(state.peers.verified_count(), 1);
}

#[test]
fn pong_response_clears_pending_and_verifies() {
    let mut state = fresh_state();
    let now: u128 = 1_000;
    state.handle_connection_established(
        "PeerA".to_string(),
        "/ip4/1.2.3.4/tcp/4001".to_string(),
        now,
    );
    state.note_ping_sent(77);
    state.handle_handshake_response("PeerA", "PONG", 77, now + 3);
    assert_eq!(state.pending_handshakes.len(), 0);
    assert_eq!(state.peers.verified_count(), 1);
}

#[test]
fn listen_addr_derives_transport_dial_strings() {
    let mut state = fresh_state();
    let acts = state.handle_new_listen_addr("/ip4/0.0.0.0/tcp/4101/ws".to_string());
    assert_eq!(acts.len(), 1);
    assert!(matches!(acts[0], DispatchAction::PersistTopology));
    assert_eq!(
        state.topology.ws_addr.as_deref(),
        Some("/ip4/0.0.0.0/tcp/4101/ws/p2p/LocalPeer123")
    );
    assert!(state.topology.webrtc_addr.is_none());

    state.handle_new_listen_addr("/ip4/0.0.0.0/udp/9090/webrtc-direct/sth".to_string());
    assert_eq!(
        state.topology.webrtc_addr.as_deref(),
        Some("/ip4/0.0.0.0/udp/9090/webrtc-direct/sth/p2p/LocalPeer123")
    );

    state.handle_new_listen_addr("/ip4/0.0.0.0/udp/9092/quic-v1".to_string());
    assert_eq!(
        state.topology.quic_addr.as_deref(),
        Some("/ip4/0.0.0.0/udp/9092/quic-v1/p2p/LocalPeer123")
    );

    // the same address announced twice stays listed once
    state.handle_new_listen_addr("/ip4/0.0.0.0/udp/9092/quic-v1".to_string());
    assert_eq!(state.topology.listen_addrs.len(), 3);
}

#[test]
fn identify_sets_public_address_once_and_skips_loopback() {
    let mut state = fresh_state();
    state.handle_identify_received("/ip4/127.0.0.1/tcp/4001");
    assert!(state.topology.public_api_addr.is_none());
    state.handle_identify_received("/ip6/::1/tcp/4001");
    assert!(state.topology.public_api_addr.is_none());
    state.handle_identify_received("/ip4/8.8.4.4/tcp/4001");
    assert_eq!(
        state.topology.public_api_addr.as_deref(),
        Some("/ip4/8.8.4.4/tcp/4001/p2p/LocalPeer123")
    );
    state.handle_identify_received("/ip4/9.9.9.9/tcp/4001");
    assert_eq!(
        state.topology.public_api_addr.as_deref(),
        Some("/ip4/8.8.4.4/tcp/4001/p2p/LocalPeer123")
    );
}

#[test]
fn reconnect_skips_addresses_carrying_the_local_id() {
    let known = vec![
        "/ip4/1.2.3.4/tcp/4001".to_string(),
        "/ip4/5.6.7.8/tcp/4001/p2p/LocalPeer123".to_string(),
        "/ip4/9.9.9.9/tcp/4001".to_string(),
    ];
    let dials = reconnect_dials(&known, "LocalPeer123");
    assert_eq!(dials, vec![
        "/ip4/1.2.3.4/tcp/4001".to_string(),
        "/ip4/9.9.9.9/tcp/4001".to_string(),
    ]);
}

#[test]
fn work_publish_is_stamped_only_when_unstamped() {
    let req = WorkRequest {
        request_id: "r".to_string(),
        prompt_context: "p".to_string(),
        min_tokens: 1,
        created_at_ms: None,
    };
    let stamped = prepare_work_publish(req, 555);
    assert_eq!(stamped.created_at_ms, Some(555));
    let again = prepare_work_publish(stamped, 999);
    assert_eq!(again.created_at_ms, Some(555));
}

#[test]
fn swarm_event_for_inbound_work_republishes_and_acks() {
    let mut state = fresh_state();
    let req = WorkRequest {
        request_id: "fwd-1".to_string(),
        prompt_context: "p".to_string(),
        min_tokens: 2,
        created_at_ms: Some(3),
    };
    let acts = state.handle_swarm_event(SwarmEventIn::InboundWorkRequest { request: req }, 10);
    assert_eq!(acts.len(), 2);
    assert!(matches!(&acts[0], DispatchAction::PublishWork { request } if request.request_id == "fwd-1"));
    assert!(matches!(&acts[1], DispatchAction::RespondWorkAck { text } if text == "published shard-work"));
}

fn gradient(step: &str) -> BackwardPassGradient {
    BackwardPassGradient {
        request_id: "req-g".to_string(),
        step_id: step.to_string(),
        microbatch_id: "mb-0".to_string(),
        source_peer_id: "PeerS".to_string(),
        target_peer_id: None,
        layer_path: "model.layers.0".to_string(),
        tensor_name: "grad".to_string(),
        shape: vec![2, 2],
        format: TensorDataFormat::Fp16,
        chunk: None,
        blob_ref: None,
        created_at_ms: None,
    }
}

#[test]
fn backward_gradients_queue_up_bounded() {
    let mut state = fresh_state();
    for i in 0..130 {
        let packet = TrainingGossipPacket::BackwardPass(gradient(&format!("step-{i}")));
        state.handle_training_packet(packet);
    }
    assert_eq!(state.backward_passes.len(), 128);
    assert_eq!(state.backward_passes.front().unwrap().step_id, "step-2");
}

#[test]
fn forward_passes_are_noted_but_not_queued() {
    let mut state = fresh_state();
    let g = gradient("fwd");
    let packet = TrainingGossipPacket::ForwardPass(shard_daemon::ForwardPassActivation {
        request_id: g.request_id,
        step_id: g.step_id,
        source_peer_id: g.source_peer_id,
        target_peer_id: None,
        tensor_name: g.tensor_name,
        shape: g.shape,
        format: TensorDataFormat::Fp32,
        chunk: None,
        blob_ref: None,
        created_at_ms: None,
    });
    state.handle_training_packet(packet);
    assert_eq!(state.backward_passes.len(), 0);
}

#[test]
fn bootstrap_file_lines_are_trimmed_and_filtered() {
    let contents = "/ip4/1.2.3.4/tcp/4001\n# a comment\n\n   /ip4/5.6.7.8/tcp/4001/ws  \n";
    let addrs = parse_bootstrap_lines(contents);
    assert_eq!(addrs, vec![
        "/ip4/1.2.3.4/tcp/4001".to_string(),
        "/ip4/5.6.7.8/tcp/4001/ws".to_string(),
    ]);
}

#[test]
fn trimming_strips_blanks_from_both_ends() {
    assert_eq!(trim_str("  spaced out \t"), "spaced out");
    assert_eq!(trim_str(""), "");
    assert_eq!(trim_str(" \t\r\n"), "");
    assert_eq!(trim_str("solid"), "solid");
}

#[test]
fn trimming_strips_unicode_whitespace() {
    assert_eq!(trim_str("\u{00A0}x\u{3000}"), "x");
    assert_eq!(trim_str("\u{2000}\u{2009} y \u{202F}\u{205F}"), "y");
    assert_eq!(trim_str("\u{000B}\u{0085}\u{2028}\u{2029}"), "");
}

#[test]
fn bootstrap_lines_of_unicode_whitespace_are_dropped() {
    let contents = "\u{00A0}\n\u{00A0}/ip4/1.2.3.4/tcp/4001\u{3000}\n\u{000B}\u{2003}\n# c\n";
    let addrs = parse_bootstrap_lines(contents);
    assert_eq!(addrs, vec!["/ip4/1.2.3.4/tcp/4001".to_string()]);
}

#[test]
fn first_seen_position_survives_dedup() {
    let out = unique_addrs(vec![
        "A".to_string(),
        "B".to_string(),
        "A".to_string(),
        "C".to_string(),
        "B".to_string(),
    ]);
    assert_eq!(out, vec!["A".to_string(), "B".to_string(), "C".to_string()]);
}
