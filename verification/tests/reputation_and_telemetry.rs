use shard_daemon::{LatencyHistogram, ScoutPenaltyBook, ScoutPenaltyUpdate};

fn accept(peer: &str) -> ScoutPenaltyUpdate {
    ScoutPenaltyUpdate { peer_id: peer.to_string(), accepted: true, reason: None }
}

fn fail(peer: &str, reason: Option<&str>) -> ScoutPenaltyUpdate {
    ScoutPenaltyUpdate {
        peer_id: peer.to_string(),
        accepted: false,
        reason: reason.map(|r| r.to_string()),
    }
}

#[test]
fn ban_expires_after_cooldown() {
    let mut penalties = ScoutPenaltyBook::new();
    let now: u128 = 500_000;
    penalties.apply_update(accept("C"), now);
    let mut status = penalties.apply_update(fail("C", Some("poisoned draft")), now);
    for _ in 0..4 {
        status = penalties.apply_update(fail("C", Some("poisoned draft")), now);
    }
    assert_eq!(status.window_successes, 1);
    assert_eq!(status.window_len, 6);
    assert!(status.blackholed);
    assert!(penalties.is_blackholed("C", now));
    // still banned just before the cooldown runs out
    assert!(penalties.is_blackholed("C", now + 59_999));
    // lapsed one millisecond after `banned_until_ms`
    assert!(!penalties.is_blackholed("C", now + 60_000));
    // and the lapsed ban stays cleared
    assert!(!penalties.is_blackholed("C", now));
}

#[test]
fn failure_reason_survives_accepts_until_overwritten() {
    let mut penalties = ScoutPenaltyBook::new();
    let now: u128 = 1_000;
    penalties.apply_update(fail("S", Some("first reason")), now);
    let st = penalties.apply_update(accept("S"), now);
    assert_eq!(st.last_reason.as_deref(), Some("first reason"));
    let st = penalties.apply_update(fail("S", None), now);
    assert_eq!(st.last_reason.as_deref(), Some("first reason"));
    let st = penalties.apply_update(fail("S", Some("second reason")), now);
    assert_eq!(st.last_reason.as_deref(), Some("second reason"));
}

#[test]
fn window_slides_beyond_ten_verdicts() {
    let mut penalties = ScoutPenaltyBook::new();
    let now: u128 = 1_000;
    // ten failures, then ten accepts: the window forgets the failures
    for _ in 0..10 {
        penalties.apply_update(fail("W", Some("bad")), now);
    }
    let mut st = penalties.apply_update(accept("W"), now);
    for _ in 0..9 {
        st = penalties.apply_update(accept("W"), now);
    }
    assert_eq!(st.window_len, 10);
    assert_eq!(st.window_successes, 10);
    assert_eq!(st.score, 100);
    assert_eq!(st.failures, 10);
    assert_eq!(st.accepted, 10);
}

#[test]
fn statuses_list_covers_every_peer() {
    let mut penalties = ScoutPenaltyBook::new();
    let now: u128 = 1_000;
    penalties.apply_update(accept("A"), now);
    penalties.apply_update(fail("B", Some("bad draft")), now);
    let statuses = penalties.all_statuses(now);
    assert_eq!(statuses.len(), 2);
    let a = statuses.iter().find(|s| s.peer_id == "A").unwrap();
    let b = statuses.iter().find(|s| s.peer_id == "B").unwrap();
    assert_eq!(a.score, 100);
    assert!(!a.blackholed);
    assert_eq!(b.score, 0);
    assert_eq!(b.last_reason.as_deref(), Some("bad draft"));
}

#[test]
fn degraded_score_is_exactly_sixty() {
    let mut penalties = ScoutPenaltyBook::new();
    let now: u128 = 1_000;
    let mut st = penalties.apply_update(accept("D"), now);
    for accepted in [true, false, true, false, true, true, false, true, false] {
        let upd = if accepted { accept("D") } else { fail("D", None) };
        st = penalties.apply_update(upd, now);
    }
    assert_eq!(st.score, 60);
    assert_eq!(st.window_successes, 6);
    assert_eq!(st.window_len, 10);
    assert!(!st.blackholed);
}

#[test]
fn malicious_score_is_exactly_seventeen() {
    let mut penalties = ScoutPenaltyBook::new();
    let now: u128 = 1_000;
    penalties.apply_update(accept("M"), now);
    let mut st = penalties.apply_update(fail("M", None), now);
    for _ in 0..4 {
        st = penalties.apply_update(fail("M", None), now);
    }
    // success rate 1/6, rounded percentage 17
    assert_eq!(st.score, 17);
}

#[test]
fn empty_histogram_reports_zeros() {
    let hist = LatencyHistogram::new();
    let p = hist.percentiles();
    assert_eq!(p.p50_ms, 0);
    assert_eq!(p.p90_ms, 0);
    assert_eq!(p.p99_ms, 0);
    assert_eq!(p.samples, 0);
}

#[test]
fn oversized_latency_lands_in_overflow_bucket() {
    let mut hist = LatencyHistogram::new();
    hist.observe(6_000);
    let p = hist.percentiles();
    assert_eq!(p.samples, 1);
    assert_eq!(p.p50_ms, 10_000);
    assert_eq!(p.p90_ms, 10_000);
    assert_eq!(p.p99_ms, 10_000);
}

#[test]
fn percentiles_are_monotone_on_mixed_data() {
    let mut hist = LatencyHistogram::new();
    for ms in [1, 4, 9, 20, 48, 120, 180, 290, 480, 900, 1_900, 4_900, 9_000] {
        hist.observe(ms);
    }
    let p = hist.percentiles();
    assert_eq!(p.samples, 13);
    assert!(p.p50_ms <= p.p90_ms);
    assert!(p.p90_ms <= p.p99_ms);
}

#[test]
fn single_observation_sets_all_percentiles() {
    let mut hist = LatencyHistogram::new();
    hist.observe(42);
    let p = hist.percentiles();
    assert_eq!(p.samples, 1);
    assert_eq!(p.p50_ms, 50);
    assert_eq!(p.p90_ms, 50);
    assert_eq!(p.p99_ms, 50);
}
