//! Plain data carried through the proving pipeline.
//!
//! Hashes, headers and traces are held as plain values (64-bit words and byte
//! vectors) so that every function that reads them can be verified.

use vstd::prelude::*;

verus! {

/// A 256-bit hash, held as four 64-bit words in big-endian word order.
#[derive(Clone, Copy, PartialEq, Eq, Structural, Debug)]
pub struct Hash256 {
    pub w0: u64,
    pub w1: u64,
    pub w2: u64,
    pub w3: u64,
}

impl Hash256 {
    /// The all-zero hash, the initial value of a boundary field before the
    /// caller fills it.
    pub fn zero() -> (r: Hash256)
        ensures
            r == (Hash256 { w0: 0, w1: 0, w2: 0, w3: 0 }),
    {
        Hash256 { w0: 0, w1: 0, w2: 0, w3: 0 }
    }
}

/// What the pipeline reads of one layer-2 block's execution trace: the block
/// number it belongs to and the state root before the block executed.
#[derive(Clone, Copy, PartialEq, Eq, Structural, Debug)]
pub struct BlockTrace {
    pub block_number: u64,
    pub root_before: Hash256,
}

/// A layer-1 log announcing that a batch was committed. `chunks` flattened
/// gives every layer-2 block number of the batch, in execution order;
/// `prev_batch_header` carries the header of the *previous* batch.
#[derive(Clone, PartialEq, Eq, Debug)]
pub struct CommitBatchEvent {
    pub batch_index: u64,
    pub batch_hash: Hash256,
    pub batch_version: u8,
    pub chunks: Vec<Vec<u64>>,
    pub prev_batch_header: Vec<u8>,
}

/// A layer-1 log announcing that a bundle ending at `batch_index` was
/// finalized, carrying the ending batch's header and roots.
#[derive(Clone, PartialEq, Eq, Debug)]
pub struct FinalizeBatchEvent {
    pub batch_index: u64,
    pub batch_hash: Hash256,
    pub end_batch_header: Vec<u8>,
    pub end_state_root: Hash256,
    pub end_withdraw_root: Hash256,
}

/// Everything the enclave needs to prove one batch.
#[derive(Clone, PartialEq, Eq, Debug)]
pub struct ProveBatchRequest {
    pub prev_batch_header: Vec<u8>,
    pub prev_state_root: Hash256,
    pub batch_version: u8,
    pub blocks: Vec<BlockTrace>,
    pub chunks: Vec<Vec<u64>>,
}

/// The enclave's answer to a batch-proof request.
#[derive(Clone, PartialEq, Eq, Debug)]
pub struct ProveBatchResponse {
    pub batch_hash: Hash256,
    pub post_state_root: Hash256,
    pub post_withdraw_root: Hash256,
    pub signature: Vec<u8>,
}

/// Everything the enclave needs to prove one bundle: per-batch data across
/// the bundle's range, plus the finalize boundary's header and state root.
#[derive(Clone, PartialEq, Eq, Debug)]
pub struct ProveBundleRequest {
    pub batch_headers: Vec<Vec<u8>>,
    pub state_roots: Vec<Hash256>,
    pub withdraw_roots: Vec<Hash256>,
    pub signatures: Vec<Vec<u8>>,
    pub last_finalized_batch_header: Vec<u8>,
    pub prev_state_root: Hash256,
}

/// The enclave's answer to a bundle-proof request; what layer-1 submission
/// needs.
#[derive(Clone, PartialEq, Eq, Debug)]
pub struct ProveBundleResponse {
    pub batch_header: Vec<u8>,
    pub post_state_root: Hash256,
    pub post_withdraw_root: Hash256,
    pub tee_proof: Vec<u8>,
}

/// What the pipeline records per batch. The header is back-filled from the
/// next batch's commit event or from a finalize event; the proof response is
/// filled once proving completes.
#[derive(Clone, PartialEq, Eq, Debug)]
pub struct BatchInfo {
    pub batch_index: u64,
    pub batch_header: Option<Vec<u8>>,
    pub prove_response: Option<ProveBatchResponse>,
    pub start_block_number: u64,
}

/// One finalize boundary: the bundle spans `[begin_batch_index,
/// end_batch_index]` once the begin index has been resolved against the
/// last-finalized watermark.
#[derive(Clone, PartialEq, Eq, Debug)]
pub struct BundleInfo {
    pub begin_batch_index: u64,
    pub end_batch_index: u64,
    pub end_batch_header: Vec<u8>,
    pub end_state_root: Hash256,
}

/// The errors the pipeline's state machine reports.
#[derive(Clone, Copy, PartialEq, Eq, Structural, Debug)]
pub enum HostError {
    /// A commit event whose chunks flatten to zero blocks.
    EmptyBlockList,
    /// A finalize event whose batch index is below the last-finalized
    /// watermark.
    BatchIndexBelowFinalized,
    /// A bundle append while the queue front does not match the watermark.
    FinalizedIndexMismatch,
    /// A bundle append whose end index does not exceed the queue back.
    NonMonotonicBundleAppend,
    /// A bundle range in which some batch lacks an entry, a header or a
    /// proof.
    IncompleteBundleRange,
}

/// Copies a byte vector. The pipeline stores headers and signatures in more
/// than one place, so it duplicates them explicitly.
pub fn clone_bytes(v: &Vec<u8>) -> (r: Vec<u8>)
    ensures
        r@ == v@,
{
    let r = v.clone();
    proof {
        assert(r@ =~= v@);
    }
    r
}

/// Copies a vector of block numbers.
pub fn clone_u64s(v: &Vec<u64>) -> (r: Vec<u64>)
    ensures
        r@ == v@,
{
    let r = v.clone();
    proof {
        assert(r@ =~= v@);
    }
    r
}

} // verus!
