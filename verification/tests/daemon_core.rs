use shard_daemon::{
    should_reject_peer_connection, unique_addrs, validate_work_request, LatencyHistogram,
    ScoutPenaltyBook, ScoutPenaltyUpdate, WorkRequest,
};

#[test]
fn unique_addrs_removes_duplicates() {
    let in_addrs = vec![
        "/ip4/127.0.0.1/tcp/4001".to_string(),
        "/ip4/127.0.0.1/tcp/4001".to_string(),
        "/ip4/127.0.0.1/tcp/4101/ws".to_string(),
    ];
    let out = unique_addrs(in_addrs);
    assert_eq!(out.len(), 2);
}

#[test]
fn latency_histogram_reports_percentiles() {
    let mut hist = LatencyHistogram::new();
    for _ in 0..8 {
        hist.observe(10);
    }
    for _ in 0..2 {
        hist.observe(300);
    }

    let p = hist.percentiles();
    assert_eq!(p.samples, 10);
    assert!(p.p50_ms >= 10);
    assert!(p.p90_ms >= 300);
    assert!(p.p99_ms >= p.p90_ms);
}

#[test]
fn work_request_validation_enforces_bounds() {
    let ok = WorkRequest {
        request_id: "abc".into(),
        prompt_context: "hello".into(),
        min_tokens: 4,
        created_at_ms: None,
    };
    assert!(validate_work_request(&ok).is_ok());

    let bad = WorkRequest {
        request_id: "".into(),
        prompt_context: "hello".into(),
        min_tokens: 0,
        created_at_ms: None,
    };
    assert!(validate_work_request(&bad).is_err());
}

#[test]
fn test_malicious_scout_blacklist_trigger() {
    let mut penalties = ScoutPenaltyBook::new();
    let peer_id = "PeerID_C".to_string();
    let now: u128 = 1_000_000;

    let mut status = penalties.apply_update(
        ScoutPenaltyUpdate { peer_id: peer_id.clone(), accepted: true, reason: None },
        now,
    );
    assert!(!status.blackholed);

    for _ in 0..5 {
        status = penalties.apply_update(
            ScoutPenaltyUpdate {
                peer_id: peer_id.clone(),
                accepted: false,
                reason: Some("poisoned draft".to_string()),
            },
            now,
        );
    }

    assert!(status.score < 55);
    assert!(status.blackholed);
    assert!(penalties.is_blackholed(&peer_id, now));
}

#[test]
fn test_honest_scout_baseline_reputation() {
    let mut penalties = ScoutPenaltyBook::new();
    let peer_id = "PeerID_A".to_string();
    let now: u128 = 1_000_000;
    let mut status = penalties.apply_update(
        ScoutPenaltyUpdate { peer_id: peer_id.clone(), accepted: true, reason: None },
        now,
    );

    for _ in 0..9 {
        status = penalties.apply_update(
            ScoutPenaltyUpdate { peer_id: peer_id.clone(), accepted: true, reason: None },
            now,
        );
    }

    assert_eq!(status.accepted, 10);
    assert_eq!(status.failures, 0);
    assert_eq!(status.score, 100);
    assert!(!status.blackholed);
}

#[test]
fn test_degraded_scout_scoring_without_immediate_ban() {
    let mut penalties = ScoutPenaltyBook::new();
    let peer_id = "PeerID_B".to_string();
    let now: u128 = 1_000_000;

    let mut status = penalties.apply_update(
        ScoutPenaltyUpdate { peer_id: peer_id.clone(), accepted: true, reason: None },
        now,
    );

    // Mixed quality scout; keep recent sliding success ratio above ban threshold.
    for accepted in [true, false, true, false, true, true, false, true, false] {
        status = penalties.apply_update(
            ScoutPenaltyUpdate {
                peer_id: peer_id.clone(),
                accepted,
                reason: if accepted { None } else { Some("invalid draft".to_string()) },
            },
            now,
        );
    }

    assert!(status.score >= 55);
    assert!(!status.blackholed);
}

#[test]
fn test_blacklist_enforcement_rejects_connection() {
    let mut penalties = ScoutPenaltyBook::new();
    let peer_id = "PeerID_C".to_string();
    let now: u128 = 1_000_000;

    penalties.apply_update(
        ScoutPenaltyUpdate { peer_id: peer_id.clone(), accepted: true, reason: None },
        now,
    );
    for _ in 0..5 {
        penalties.apply_update(
            ScoutPenaltyUpdate {
                peer_id: peer_id.clone(),
                accepted: false,
                reason: Some("poisoned".to_string()),
            },
            now,
        );
    }

    assert!(should_reject_peer_connection(&mut penalties, &peer_id, now));
}
