//! Shard daemon core: the verified logic of a peer-to-peer networking
//! sidecar for a distributed inference network.
//!
//! The crate holds the daemon's decision logic — work-request validation,
//! the scout reputation engine with its blackhole policy, the latency
//! histogram, address bookkeeping, and the dispatch-loop state machine —
//! each function with a contract checked by Verus. The surrounding
//! process (transports, HTTP control plane, persistence I/O) lives
//! outside the library and calls into it with plain values.

mod bootstrap;
mod clock;
mod dispatch;
mod messages;
mod peers;
mod reputation;
mod strutil;
mod telemetry;
mod topology;
mod validate;

pub use bootstrap::{
    bootstrap_addrs_of, kept_trimmed, line_kept, parse_bootstrap_lines, split_lines, trim_back,
    trim_front, trim_str, trimmed,
};
pub use clock::{now_ms, uptime_from, uptime_ms};
pub use dispatch::{
    conn_closed_rel, conn_established_rel, dial_candidates, enqueue_bounded,
    handshake_request_rel, handshake_response_rel, identify_rel, listen_addr_rel,
    pending_remove_rel, prepare_work_publish, propagation_ms, reconnect_dials,
    training_packet_rel, work_result_rel, DaemonState, DispatchAction, SwarmEventIn,
    GRADIENT_QUEUE_CAP, RESULT_QUEUE_CAP,
};
pub use peers::{
    add_known_peer, contains_addr, count_verified, dedup_first, fresh_peer_record, has_view,
    is_subsequence, known_peers_add_rel, lemma_dedup_is_subsequence, lemma_dedup_len,
    lemma_dedup_same_views, lemma_dedup_unique_views, peers_insert_rel, peers_mark_verified_rel,
    peers_remove_rel, peers_touch_rel, unique_addrs, unique_views, PeerInfo, PeerTable,
};
pub use topology::{
    derived_addr, identify_applied, is_loopback, listen_addr_applied, TopologyState,
    DEFAULT_CAPACITY,
};
pub use messages::{
    BackwardPassGradient, ForwardPassActivation, TensorBlobRef, TensorChunkRef, TensorDataFormat,
    TrainingGossipPacket, WorkRequest, WorkResponse,
};
pub use reputation::{
    add_sat_u32, ban_active, ban_rule, count_true, fresh_entry_post, lazy_expiry_rel,
    lemma_count_true_all, lemma_count_true_le, lemma_reason_persists,
    lemma_success_only_never_bans, lemma_success_only_never_blackholed,
    lemma_success_run_never_bans, pushed_window, score_of,
    score_of_counts, should_reject_peer_connection, status_matches, update_applied,
    ScoutPenaltyBook, ScoutPenaltyStatus, ScoutPenaltyUpdate, ScoutReputationEntry,
    BAN_COOLDOWN_MS, MIN_SAMPLES_FOR_BAN, WINDOW_SIZE,
};
pub use telemetry::{
    bound_of, bucket_index, crossing_at, cum, observed_rel, spec_bounds, sum_u64, target_of,
    LatencyHistogram, LatencyPercentiles, NUM_BOUNDS, NUM_BUCKETS, OVERFLOW_BOUND_MS,
};
pub use validate::{
    valid_min_tokens, valid_prompt, valid_request_id, valid_work_request, validate_work_request,
    validation_detail, MAX_PROMPT_CHARS, MAX_REQUEST_ID_CHARS, MIN_TOKENS_CEIL, MIN_TOKENS_FLOOR,
};
pub use strutil::{
    has_visible_char, is_blank, is_blank_char, p2p_suffixed, seq_contains_sub, seq_starts_with,
    str_contains_sub, str_eq, str_has_visible_char, str_starts_with,
};
