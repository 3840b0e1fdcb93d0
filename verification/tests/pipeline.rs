use proving_pipeline::batch_state::BatchState;
use proving_pipeline::block_tracer::BlockTracer;
use proving_pipeline::bundle_state::BundleState;
use proving_pipeline::event_log_fetcher::fetch_window;
use proving_pipeline::event_log_parser::decode_block_numbers;
use proving_pipeline::state_manager::{batch_block_numbers, StateManager};
use proving_pipeline::task_manager::{BundleLoopEvent, TaskManager};
use proving_pipeline::types::{
    BlockTrace, CommitBatchEvent, FinalizeBatchEvent, Hash256, HostError, ProveBatchResponse,
};

fn hash(n: u64) -> Hash256 {
    Hash256 {
        w0: n,
        w1: 0,
        w2: 0,
        w3: 0,
    }
}

fn trace(block_number: u64, root: u64) -> BlockTrace {
    BlockTrace {
        block_number,
        root_before: hash(root),
    }
}

fn commit_event(batch_index: u64, chunks: Vec<Vec<u64>>, prev_header: Vec<u8>) -> CommitBatchEvent {
    CommitBatchEvent {
        batch_index,
        batch_hash: hash(1000 + batch_index),
        batch_version: 4,
        chunks,
        prev_batch_header: prev_header,
    }
}

fn finalize_event(batch_index: u64, header: Vec<u8>, root: u64) -> FinalizeBatchEvent {
    FinalizeBatchEvent {
        batch_index,
        batch_hash: hash(1000 + batch_index),
        end_batch_header: header,
        end_state_root: hash(root),
        end_withdraw_root: hash(root + 1),
    }
}

fn response(batch_index: u64, post_root: u64) -> ProveBatchResponse {
    ProveBatchResponse {
        batch_hash: hash(1000 + batch_index),
        post_state_root: hash(post_root),
        post_withdraw_root: hash(post_root + 1),
        signature: vec![batch_index as u8; 3],
    }
}

// --- decoding ---

#[test]
fn decode_rejects_empty_payload() {
    assert_eq!(decode_block_numbers(&Vec::new()), None);
}

#[test]
fn decode_rejects_short_payload() {
    // two blocks declared, only one 60-byte context present
    let mut data = vec![2u8];
    data.extend_from_slice(&[0u8; 60]);
    assert_eq!(decode_block_numbers(&data), None);
}

#[test]
fn decode_reads_big_endian_block_numbers() {
    let mut data = vec![2u8];
    let mut ctx1 = [0u8; 60];
    ctx1[..8].copy_from_slice(&100u64.to_be_bytes());
    let mut ctx2 = [0u8; 60];
    ctx2[..8].copy_from_slice(&(1u64 << 40).to_be_bytes());
    data.extend_from_slice(&ctx1);
    data.extend_from_slice(&ctx2);
    assert_eq!(decode_block_numbers(&data), Some(vec![100, 1u64 << 40]));
}

#[test]
fn decode_accepts_trailing_bytes() {
    let mut data = vec![1u8];
    let mut ctx = [0u8; 60];
    ctx[..8].copy_from_slice(&7u64.to_be_bytes());
    data.extend_from_slice(&ctx);
    data.push(0xff);
    assert_eq!(decode_block_numbers(&data), Some(vec![7]));
}

// --- fetch window ---

#[test]
fn fetch_window_is_capped_by_max_size() {
    assert_eq!(fetch_window(100, 50, 500), (100, 150));
}

#[test]
fn fetch_window_is_capped_by_finalized_block() {
    assert_eq!(fetch_window(100, 50, 120), (100, 120));
    assert_eq!(fetch_window(100, 50, 80), (100, 80));
}

// --- block tracer ---

#[test]
fn block_traces_keep_caller_order() {
    let tracer = BlockTracer::new();
    let blocks = vec![5u64, 3, 9];
    // completion order differs from request order
    let fetched = vec![trace(9, 90), trace(3, 30), trace(5, 50)];
    let traces = tracer.get_block_traces(&blocks, &fetched).unwrap();
    assert_eq!(traces, vec![trace(5, 50), trace(3, 30), trace(9, 90)]);
}

#[test]
fn block_traces_absent_when_a_block_is_missing() {
    let tracer = BlockTracer::new();
    let blocks = vec![5u64, 3];
    let fetched = vec![trace(5, 50)];
    assert_eq!(tracer.get_block_traces(&blocks, &fetched), None);
}

// --- batch block numbers ---

#[test]
fn chunks_flatten_in_order() {
    let event = commit_event(1, vec![vec![100, 101], vec![102]], vec![1]);
    assert_eq!(batch_block_numbers(&event), vec![100, 101, 102]);
}

// --- bundle state ---

#[test]
fn append_accepts_empty_queue_and_matching_front() {
    let mut bundles = BundleState::new();
    assert!(bundles.append_event(finalize_event(10, vec![1], 1), 5).is_ok());
    // front ends at 10, watermark 10: accepted
    assert!(bundles.append_event(finalize_event(25, vec![2], 2), 10).is_ok());
    assert_eq!(bundles.bundle_info_queue.len(), 2);
    assert_eq!(bundles.last_finalized_batch_index, Some(10));
}

#[test]
fn append_rejects_watermark_not_matching_front() {
    let mut bundles = BundleState::new();
    bundles.append_event(finalize_event(10, vec![1], 1), 5).unwrap();
    let r = bundles.append_event(finalize_event(25, vec![2], 2), 12);
    assert_eq!(r, Err(HostError::FinalizedIndexMismatch));
    // the rejected boundary was not enqueued
    assert_eq!(bundles.bundle_info_queue.len(), 1);
}

#[test]
fn append_rejects_non_increasing_end() {
    let mut bundles = BundleState::new();
    bundles.append_event(finalize_event(10, vec![1], 1), 5).unwrap();
    let r = bundles.append_event(finalize_event(10, vec![2], 2), 10);
    assert_eq!(r, Err(HostError::NonMonotonicBundleAppend));
}

#[test]
fn pending_bundles_purge_and_resolve_begins() {
    // boundaries at 10, 25 and 40 with the watermark at 25
    let mut bundles = BundleState::new();
    bundles.append_event(finalize_event(10, vec![1], 1), 5).unwrap();
    bundles.append_event(finalize_event(25, vec![2], 2), 10).unwrap();
    bundles.append_event(finalize_event(40, vec![3], 3), 10).unwrap();
    bundles.last_finalized_batch_index = Some(25);

    let pending = bundles.get_pending_bundles().unwrap();
    assert_eq!(pending.len(), 1);
    assert_eq!(pending[0].begin_batch_index, 26);
    assert_eq!(pending[0].end_batch_index, 40);
    assert_eq!(pending[0].end_batch_header, vec![3]);
    assert_eq!(pending[0].end_state_root, hash(3));

    // boundaries at or below the watermark were purged from the queue
    assert_eq!(bundles.bundle_info_queue.len(), 1);
    assert_eq!(bundles.bundle_info_queue[0].end_batch_index, 40);
}

#[test]
fn pending_bundles_absent_without_watermark() {
    let mut bundles = BundleState::new();
    assert!(bundles.get_pending_bundles().is_none());
}

// --- batch state ---

#[test]
fn prev_state_root_defined_only_after_previous_batch_proved() {
    let mut state = StateManager::new();
    let e1 = commit_event(1, vec![vec![100]], vec![0xa1]);
    let e2 = commit_event(2, vec![vec![101]], vec![0xa2]);
    state
        .on_batch_commit_event_received(&e1, vec![trace(100, 7)])
        .unwrap();
    state
        .on_batch_commit_event_received(&e2, vec![trace(101, 8)])
        .unwrap();

    // proving out of order: batch 2 proved, batch 1 not
    state.on_batch_proved(response(2, 22));

    // batch 1 is unproved, so batch 2's previous root is absent
    assert_eq!(state.batch_state.get_batch_prev_state_root(2), None);
    // batch 2 is proved, so batch 3's previous root is its post root
    assert_eq!(
        state.batch_state.get_batch_prev_state_root(3),
        Some(hash(22))
    );
    // nothing precedes batch 1
    assert_eq!(state.batch_state.get_batch_prev_state_root(1), None);
}

#[test]
fn collect_rejects_incomplete_range() {
    let state = BatchState::new();
    assert_eq!(
        state.collect_batch_infos(1, 2),
        Err(HostError::IncompleteBundleRange)
    );
}

// --- state manager ---

#[test]
fn commit_rejects_empty_block_list() {
    let mut state = StateManager::new();
    let event = commit_event(1, vec![vec![]], vec![0xa1]);
    let r = state.on_batch_commit_event_received(&event, Vec::new());
    assert_eq!(r, Err(HostError::EmptyBlockList));
}

#[test]
fn finalize_rejects_event_below_watermark() {
    let mut state = StateManager::new();
    let r = state.on_batch_finalize_event_received(finalize_event(5, vec![1], 1), 10);
    assert_eq!(r, Err(HostError::BatchIndexBelowFinalized));
}

#[test]
fn finalize_at_watermark_derives_nothing_yet() {
    let mut state = StateManager::new();
    let r = state
        .on_batch_finalize_event_received(finalize_event(25, vec![1], 1), 25)
        .unwrap();
    assert!(r.is_empty());
    // the boundary was still enqueued
    assert_eq!(state.bundle_state.bundle_info_queue.len(), 1);
    assert_eq!(state.bundle_state.last_finalized_batch_index, Some(25));
}

#[test]
fn bundle_emitted_only_once_all_batches_proved() {
    let mut state = StateManager::new();
    let e1 = commit_event(1, vec![vec![100]], vec![0xa1]);
    let e2 = commit_event(2, vec![vec![101]], vec![0xa2]);
    state
        .on_batch_commit_event_received(&e1, vec![trace(100, 7)])
        .unwrap();
    state
        .on_batch_commit_event_received(&e2, vec![trace(101, 8)])
        .unwrap();

    // bundle boundary at batch 2; nothing proved yet, so nothing is emitted
    let reqs = state
        .on_batch_finalize_event_received(finalize_event(2, vec![0xee], 42), 0)
        .unwrap();
    assert!(reqs.is_empty());

    // proving batch 1 alone leaves the bundle incomplete
    let reqs = state.on_batch_proved(response(1, 11));
    assert!(reqs.is_empty());

    // the missing proof for the last batch in range unblocks exactly one bundle
    let reqs = state.on_batch_proved(response(2, 22));
    assert_eq!(reqs.len(), 1);
    let req = &reqs[0];
    assert_eq!(req.batch_headers, vec![vec![0xa2], vec![0xee]]);
    assert_eq!(req.state_roots, vec![hash(11), hash(22)]);
    assert_eq!(req.withdraw_roots, vec![hash(12), hash(23)]);
    assert_eq!(req.signatures, vec![vec![1, 1, 1], vec![2, 2, 2]]);
    assert_eq!(req.last_finalized_batch_header, vec![0xee]);
    assert_eq!(req.prev_state_root, hash(42));

    // once the watermark advances past the boundary it is purged, and later
    // derivation attempts no longer emit it
    let reqs = state
        .on_batch_finalize_event_received(finalize_event(3, vec![0xef], 43), 2)
        .unwrap();
    assert!(reqs.is_empty());
    assert_eq!(state.bundle_state.bundle_info_queue.len(), 1);
    assert_eq!(state.bundle_state.bundle_info_queue[0].end_batch_index, 3);
    let reqs = state.on_batch_proved(response(2, 22));
    assert!(reqs.is_empty());
}

#[test]
fn commit_prove_round_trip_end_to_end() {
    let mut state = StateManager::new();

    // commit event for batch 1, blocks [100, 101], no known previous proof:
    // the request takes the first trace's pre-execution root
    let e1 = commit_event(1, vec![vec![100, 101]], vec![0xa1]);
    let req1 = state
        .on_batch_commit_event_received(&e1, vec![trace(100, 77), trace(101, 78)])
        .unwrap();
    assert_eq!(req1.prev_state_root, hash(77));
    assert_eq!(req1.prev_batch_header, vec![0xa1]);
    assert_eq!(req1.batch_version, 4);
    assert_eq!(req1.blocks, vec![trace(100, 77), trace(101, 78)]);
    assert_eq!(req1.chunks, vec![vec![100, 101]]);

    // commit event for batch 2 carries batch 1's header: it is back-filled
    let e2 = commit_event(2, vec![vec![102]], vec![0xb1]);
    let req2 = state
        .on_batch_commit_event_received(&e2, vec![trace(102, 79)])
        .unwrap();
    // batch 1 is still unproved, so batch 2's request falls back to its trace
    assert_eq!(req2.prev_state_root, hash(79));
    let batch1 = state
        .batch_state
        .hash_info_map
        .iter()
        .find(|entry| entry.batch_hash == hash(1001))
        .unwrap();
    assert_eq!(batch1.info.batch_header, Some(vec![0xb1]));
    assert_eq!(batch1.info.start_block_number, 100);

    // batch 1 proved: batch 2's derivation now finds batch 1's post root
    state.on_batch_proved(response(1, 88));
    assert_eq!(
        state.batch_state.get_batch_prev_state_root(2),
        Some(hash(88))
    );
}

// --- task manager ---

#[test]
fn task_manager_drops_rejected_commit_events() {
    let mut tasks = TaskManager::new();
    let bad = commit_event(1, vec![], vec![0xa1]);
    assert!(tasks.handle_batch_event(&bad, Vec::new()).is_none());

    let good = commit_event(1, vec![vec![100]], vec![0xa1]);
    let req = tasks.handle_batch_event(&good, vec![trace(100, 7)]).unwrap();
    assert_eq!(req.prev_state_root, hash(7));
}

#[test]
fn task_manager_swallows_finalize_failures() {
    let mut tasks = TaskManager::new();
    let reqs = tasks.handle_bundle_event(BundleLoopEvent::Finalize {
        event: finalize_event(5, vec![1], 1),
        last_finalized_batch_index: 10,
    });
    assert!(reqs.is_empty());
    assert!(tasks.state_manager.bundle_state.bundle_info_queue.is_empty());
}

#[test]
fn task_manager_routes_proof_responses() {
    let mut tasks = TaskManager::new();
    let e1 = commit_event(1, vec![vec![100]], vec![0xa1]);
    tasks.handle_batch_event(&e1, vec![trace(100, 7)]).unwrap();
    tasks.handle_bundle_event(BundleLoopEvent::Finalize {
        event: finalize_event(1, vec![0xee], 42),
        last_finalized_batch_index: 0,
    });
    let reqs = tasks.handle_bundle_event(BundleLoopEvent::Proved {
        response: response(1, 11),
    });
    assert_eq!(reqs.len(), 1);
    assert_eq!(reqs[0].state_roots, vec![hash(11)]);
    assert_eq!(reqs[0].last_finalized_batch_header, vec![0xee]);
}

#[test]
fn fresh_state_is_empty() {
    let state = StateManager::new();
    assert!(state.batch_state.index_hash_map.is_empty());
    assert!(state.batch_state.hash_info_map.is_empty());
    assert!(state.bundle_state.bundle_info_queue.is_empty());
    assert_eq!(state.bundle_state.last_finalized_batch_index, None);
}
