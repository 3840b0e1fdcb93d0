//! The orchestrator's decision steps.
//!
//! The two processing loops — one over commit events, one multiplexing
//! finalize events and completed batch proofs — run outside the library with
//! channels and retries; each loop iteration calls one step here. A handler
//! failure drops the event and yields no work, as the loops do.

use vstd::prelude::*;

use crate::state_manager::{StateManager, commit_ok_post, derive_post, finalize_error,
    finalize_ok_post, spec_blocks};
use crate::types::{BlockTrace, CommitBatchEvent, FinalizeBatchEvent, ProveBatchRequest,
    ProveBatchResponse, ProveBundleRequest};

verus! {

/// One message of the bundle loop: a finalize event together with the
/// watermark queried for it, or a completed batch proof.
pub enum BundleLoopEvent {
    Finalize { event: FinalizeBatchEvent, last_finalized_batch_index: u64 },
    Proved { response: ProveBatchResponse },
}

/// The orchestrator: owns the pipeline's state and decides, per event, what
/// to prove next.
pub struct TaskManager {
    pub state_manager: StateManager,
}

impl TaskManager {
    /// A fresh orchestrator over empty state.
    pub fn new() -> (r: TaskManager)
        ensures
            r.state_manager.wf(),
            r.state_manager.batch_state.index_hash_map@.len() == 0,
            r.state_manager.batch_state.hash_info_map@.len() == 0,
            r.state_manager.bundle_state.bundle_info_queue@.len() == 0,
            r.state_manager.bundle_state.last_finalized_batch_index is None,
    {
        TaskManager { state_manager: StateManager::new() }
    }

    /// The commit loop's step: handle the event with its fetched traces and
    /// hand back the batch-proof request to drive; a rejected event is
    /// dropped and yields none.
    pub fn handle_batch_event(
        &mut self,
        event: &CommitBatchEvent,
        block_traces: Vec<BlockTrace>,
    ) -> (r: Option<ProveBatchRequest>)
        requires
            old(self).state_manager.wf(),
            block_traces@.len() == spec_blocks(event.chunks@).len(),
        ensures
            final(self).state_manager.wf(),
            r is None <==> spec_blocks(event.chunks@).len() == 0,
            r is None ==> *final(self) == *old(self),
            r matches Some(req) ==> commit_ok_post(
                old(self).state_manager,
                final(self).state_manager,
                *event,
                block_traces@,
                req,
            ),
    {
        match self.state_manager.on_batch_commit_event_received(event, block_traces) {
            Ok(request) => Some(request),
            Err(_) => None,
        }
    }

    /// The bundle loop's step: route a finalize event or a proof response to
    /// the state manager and hand back the bundle-proof requests to drive; a
    /// handler failure yields none and leaves the state untouched.
    pub fn handle_bundle_event(&mut self, input: BundleLoopEvent) -> (r: Vec<ProveBundleRequest>)
        requires
            old(self).state_manager.wf(),
        ensures
            final(self).state_manager.wf(),
            input matches BundleLoopEvent::Finalize { event, last_finalized_batch_index } ==> (
            if finalize_error(old(self).state_manager, event, last_finalized_batch_index) is Some {
                r@.len() == 0 && *final(self) == *old(self)
            } else {
                finalize_ok_post(
                    old(self).state_manager,
                    final(self).state_manager,
                    event,
                    last_finalized_batch_index,
                    r@,
                )
            }),
            input matches BundleLoopEvent::Proved { response } ==> {
                &&& crate::batch_state::proof_update_rel(
                    old(self).state_manager.batch_state,
                    final(self).state_manager.batch_state,
                    response,
                )
                &&& derive_post(
                    final(self).state_manager.batch_state,
                    old(self).state_manager.bundle_state.bundle_info_queue@,
                    old(self).state_manager.bundle_state.last_finalized_batch_index,
                    final(self).state_manager.bundle_state.bundle_info_queue@,
                    final(self).state_manager.bundle_state.last_finalized_batch_index,
                    r@,
                )
            },
    {
        match input {
            BundleLoopEvent::Finalize { event, last_finalized_batch_index } => {
                match self.state_manager.on_batch_finalize_event_received(
                    event,
                    last_finalized_batch_index,
                ) {
                    Ok(requests) => requests,
                    Err(_) => Vec::new(),
                }
            },
            BundleLoopEvent::Proved { response } => self.state_manager.on_batch_proved(response),
        }
    }
}

} // verus!
