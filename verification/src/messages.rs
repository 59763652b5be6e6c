//! The wire messages that the daemon brokers: work submissions and
//! results on the gossip topics, and the tensor-bearing training
//! packets. The process boundary serializes these as JSON; the library
//! holds them as plain values.

use vstd::prelude::*;

verus! {

/// A work submission from the local driver, published on the
/// `shard-work` gossip topic.
#[derive(Debug, Clone)]
pub struct WorkRequest {
    pub request_id: String,
    pub prompt_context: String,
    pub min_tokens: i32,
    pub created_at_ms: Option<u128>,
}

/// A draft result from a remote scout, received on the
/// `shard-work-result` gossip topic.
///
/// The scout's self-reported latency is an IEEE 754 single-precision
/// value on the wire; the daemon never reads it, so it is carried here
/// as its raw bit pattern and round-tripped unchanged.
#[derive(Debug, Clone)]
pub struct WorkResponse {
    pub request_id: String,
    pub peer_id: String,
    pub draft_tokens: Vec<String>,
    pub latency_ms_bits: u32,
    pub created_at_ms: Option<u128>,
}

/// The numeric format of a tensor payload.
#[derive(Debug, Clone, Copy, PartialEq, Eq, Structural)]
pub enum TensorDataFormat {
    Fp16,
    Fp32,
    Bf16,
    Quantized,
}

/// One chunk of an inline tensor transfer.
#[derive(Debug, Clone)]
pub struct TensorChunkRef {
    pub chunk_index: u32,
    pub total_chunks: u32,
    pub byte_size: u64,
    pub checksum_blake3: Option<String>,
    pub data: String,
}

/// A reference to an out-of-band tensor blob.
#[derive(Debug, Clone)]
pub struct TensorBlobRef {
    pub uri: String,
    pub byte_size: u64,
    pub checksum_blake3: Option<String>,
    pub expires_at_ms: Option<u128>,
}

/// A forward-pass activation announced on the `shard-forward-pass`
/// gossip topic.
#[derive(Debug, Clone)]
pub struct ForwardPassActivation {
    pub request_id: String,
    pub step_id: String,
    pub source_peer_id: String,
    pub target_peer_id: Option<String>,
    pub tensor_name: String,
    pub shape: Vec<usize>,
    pub format: TensorDataFormat,
    pub chunk: Option<TensorChunkRef>,
    pub blob_ref: Option<TensorBlobRef>,
    pub created_at_ms: Option<u128>,
}

/// A backward-pass gradient announced on the `shard-backward-pass`
/// gossip topic.
#[derive(Debug, Clone)]
pub struct BackwardPassGradient {
    pub request_id: String,
    pub step_id: String,
    pub microbatch_id: String,
    pub source_peer_id: String,
    pub target_peer_id: Option<String>,
    pub layer_path: String,
    pub tensor_name: String,
    pub shape: Vec<usize>,
    pub format: TensorDataFormat,
    pub chunk: Option<TensorChunkRef>,
    pub blob_ref: Option<TensorBlobRef>,
    pub created_at_ms: Option<u128>,
}

/// A tagged training packet; on the wire the tag travels as
/// `packet_type` and the body as `payload`.
#[derive(Debug, Clone)]
pub enum TrainingGossipPacket {
    ForwardPass(ForwardPassActivation),
    BackwardPass(BackwardPassGradient),
}

} // verus!
