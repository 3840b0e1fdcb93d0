//! The decision core of the pipeline: it owns the batch and bundle state,
//! ingests commit/finalize events and proof responses, and derives the proof
//! requests that remain to be issued. The surrounding loops hand it the
//! values that only remote calls can supply — block traces and the
//! last-finalized watermark — and it hands back fully populated requests.

use vstd::prelude::*;

use crate::batch_state::{BatchState, bundle_vectors_match, header_set};
use crate::bundle_state::{BundleState, bundle_of_event, pending_of, pending_resolved,
    resolved_begin, lemma_pending_of};
use crate::types::{BatchInfo, BlockTrace, BundleInfo, CommitBatchEvent, FinalizeBatchEvent,
    Hash256, HostError, ProveBatchRequest, ProveBatchResponse, ProveBundleRequest, clone_bytes,
    clone_u64s};

verus! {

/// The layer-2 block numbers of a batch: its chunks, flattened in order.
pub open spec fn spec_blocks(chunks: Seq<Vec<u64>>) -> Seq<u64>
    decreases chunks.len(),
{
    if chunks.len() == 0 {
        Seq::empty()
    } else {
        spec_blocks(chunks.drop_last()) + chunks.last()@
    }
}

/// Flattens a commit event's chunks into the batch's block numbers, in
/// execution order.
#[verifier::loop_isolation(false)]
pub fn batch_block_numbers(event: &CommitBatchEvent) -> (r: Vec<u64>)
    ensures
        r@ == spec_blocks(event.chunks@),
{
    let mut blocks: Vec<u64> = Vec::new();
    let mut c: usize = 0;
    while c < event.chunks.len()
        invariant
            c <= event.chunks@.len(),
            blocks@ == spec_blocks(event.chunks@.take(c as int)),
        decreases event.chunks@.len() - c,
    {
        let chunk = &event.chunks[c];
        let mut b: usize = 0;
        while b < chunk.len()
            invariant
                b <= chunk@.len(),
                blocks@ == spec_blocks(event.chunks@.take(c as int)) + chunk@.take(b as int),
            decreases chunk@.len() - b,
        {
            blocks.push(chunk[b]);
            b = b + 1;
            proof {
                assert(chunk@.take(b as int) =~= chunk@.take(b - 1).push(chunk@[b - 1]));
                assert(spec_blocks(event.chunks@.take(c as int)) + chunk@.take(b as int)
                    =~= (spec_blocks(event.chunks@.take(c as int)) + chunk@.take(b - 1)).push(
                    chunk@[b - 1],
                ));
            }
        }
        c = c + 1;
        proof {
            assert(chunk@.take(chunk@.len() as int) =~= chunk@);
            assert(event.chunks@.take(c as int).drop_last() =~= event.chunks@.take(c - 1));
            assert(event.chunks@.take(c as int).last() == event.chunks@[c - 1]);
        }
    }
    proof {
        assert(event.chunks@.take(event.chunks@.len() as int) =~= event.chunks@);
    }
    blocks
}

/// The record a commit event first registers: no header, no proof yet.
pub open spec fn fresh_batch_info(event: CommitBatchEvent, start_block_number: u64) -> BatchInfo {
    BatchInfo {
        batch_index: event.batch_index,
        batch_header: None,
        prove_response: None,
        start_block_number,
    }
}

/// The batch-state effect of one commit event: the event's batch is
/// registered under its index and hash, the previous batch's header is
/// back-filled from the event when that batch is known, and nothing else
/// changes.
pub open spec fn commit_register_rel(
    pre: BatchState,
    post: BatchState,
    event: CommitBatchEvent,
    start_block_number: u64,
) -> bool {
    let i = event.batch_index;
    let h = event.batch_hash;
    let backfill = i >= 1 && pre.has_batch_index((i - 1) as u64);
    let target = pre.hash_of_index((i - 1) as u64);
    &&& post.index_hash_map@.len() == pre.index_hash_map@.len() + (
        if pre.has_batch_index(i) { 0int } else { 1int }
    )
    &&& post.has_batch_index(i)
    &&& post.hash_of_index(i) == h
    &&& forall|k: u64| k != i ==> post.has_batch_index(k) == pre.has_batch_index(k)
    &&& forall|k: u64|
        k != i && pre.has_batch_index(k) ==> post.hash_of_index(k) == pre.hash_of_index(k)
    &&& post.hash_info_map@.len() == pre.hash_info_map@.len() + (
        if pre.has_batch_hash(h) { 0int } else { 1int }
    )
    &&& post.has_batch_hash(h)
    &&& forall|g: Hash256| g != h ==> post.has_batch_hash(g) == pre.has_batch_hash(g)
    &&& (if backfill && target == h {
        header_set(
            post.info_of_hash(h),
            fresh_batch_info(event, start_block_number),
            event.prev_batch_header@,
        )
    } else {
        post.info_of_hash(h) == fresh_batch_info(event, start_block_number)
    })
    &&& (backfill && target != h ==> header_set(
        post.info_of_hash(target),
        pre.info_of_hash(target),
        event.prev_batch_header@,
    ))
    &&& forall|g: Hash256|
        pre.has_batch_hash(g) && g != h && !(backfill && g == target) ==> post.info_of_hash(g)
            == pre.info_of_hash(g)
}

/// What a successful commit handler call did: the batch-state effect above,
/// an untouched bundle state, and a fully populated batch-proof request whose
/// previous state root comes from the previous batch's recorded proof, or —
/// only when none is recorded — from the first trace's pre-execution root.
pub open spec fn commit_ok_post(
    pre: StateManager,
    post: StateManager,
    event: CommitBatchEvent,
    traces: Seq<BlockTrace>,
    req: ProveBatchRequest,
) -> bool {
    let blocks = spec_blocks(event.chunks@);
    &&& commit_register_rel(pre.batch_state, post.batch_state, event, blocks[0])
    &&& post.bundle_state == pre.bundle_state
    &&& req.prev_batch_header@ == event.prev_batch_header@
    &&& req.batch_version == event.batch_version
    &&& req.blocks@ == traces
    &&& req.chunks@.len() == event.chunks@.len()
    &&& forall|k: int|
        0 <= k < event.chunks@.len() ==> (#[trigger] req.chunks@[k])@ == event.chunks@[k]@
    &&& req.prev_state_root == (match pre.batch_state.spec_prev_state_root(event.batch_index) {
        Some(root) => root,
        None => traces[0].root_before,
    })
}

/// Batch state `bs` holds exactly the batches of `events`: one index entry
/// and one record per event, the index map sending each event's index to its
/// hash, and every index and every record hash stemming from some event.
pub open spec fn registered_exactly(bs: BatchState, events: Seq<CommitBatchEvent>) -> bool {
    &&& bs.index_hash_map@.len() == events.len()
    &&& bs.hash_info_map@.len() == events.len()
    &&& forall|k: int|
        0 <= k < events.len() ==> bs.has_batch_index((#[trigger] events[k]).batch_index)
    &&& forall|k: int|
        0 <= k < events.len() ==> bs.hash_of_index((#[trigger] events[k]).batch_index)
            == events[k].batch_hash
    &&& forall|k: int|
        0 <= k < events.len() ==> bs.has_batch_hash((#[trigger] events[k]).batch_hash)
    &&& forall|i: u64|
        #[trigger] bs.has_batch_index(i) ==> exists|k: int|
            0 <= k < events.len() && (#[trigger] events[k]).batch_index == i
    &&& forall|h: Hash256|
        #[trigger] bs.has_batch_hash(h) ==> exists|k: int|
            0 <= k < events.len() && (#[trigger] events[k]).batch_hash == h
}

/// Law: registering a sequence of commit events with strictly increasing
/// batch indices (and, as registration by hash demands, pairwise distinct
/// batch hashes), starting from an empty state, leaves one entry per batch in
/// both maps, with the index map a bijection onto the record map's hashes:
/// each event's index maps to its hash, and every recorded hash is hit.
pub proof fn lemma_commit_sequence_bijection(
    states: Seq<BatchState>,
    events: Seq<CommitBatchEvent>,
    starts: Seq<u64>,
)
    requires
        states.len() == events.len() + 1,
        starts.len() == events.len(),
        states[0].index_hash_map@.len() == 0,
        states[0].hash_info_map@.len() == 0,
        forall|k: int|
            0 <= k < events.len() ==> commit_register_rel(
                #[trigger] states[k],
                states[k + 1],
                events[k],
                starts[k],
            ),
        forall|j: int, l: int|
            0 <= j < l < events.len() ==> (#[trigger] events[j]).batch_index < (
            #[trigger] events[l]).batch_index,
        forall|j: int, l: int|
            0 <= j < l < events.len() ==> (#[trigger] events[j]).batch_hash != (
            #[trigger] events[l]).batch_hash,
    ensures
        registered_exactly(states[events.len() as int], events),
    decreases events.len(),
{
    let n = events.len() as int;
    if n == 0 {
    } else {
        let pre_states = states.take(n);
        let pre_events = events.take(n - 1);
        let pre_starts = starts.take(n - 1);
        assert forall|k: int|
            0 <= k < pre_events.len() implies commit_register_rel(
                #[trigger] pre_states[k],
                pre_states[k + 1],
                pre_events[k],
                pre_starts[k],
            ) by {
            assert(commit_register_rel(states[k], states[k + 1], events[k], starts[k]));
        }
        lemma_commit_sequence_bijection(pre_states, pre_events, pre_starts);
        let pre = states[n - 1];
        let post = states[n];
        let e = events[n - 1];
        assert(pre_states[n - 1] == pre);
        assert(registered_exactly(pre, pre_events));
        // the new event's index and hash are fresh
        assert(!pre.has_batch_index(e.batch_index)) by {
            if pre.has_batch_index(e.batch_index) {
                let k = choose|k: int|
                    0 <= k < pre_events.len() && (#[trigger] pre_events[k]).batch_index
                        == e.batch_index;
                assert(events[k].batch_index < events[n - 1].batch_index);
            }
        }
        assert(!pre.has_batch_hash(e.batch_hash)) by {
            if pre.has_batch_hash(e.batch_hash) {
                let k = choose|k: int|
                    0 <= k < pre_events.len() && (#[trigger] pre_events[k]).batch_hash
                        == e.batch_hash;
                assert(events[k].batch_hash != events[n - 1].batch_hash);
            }
        }
        assert(commit_register_rel(pre, post, e, starts[n - 1]));
        // every event's entries survive into the new state
        assert forall|k: int|
            0 <= k < n implies post.has_batch_index((#[trigger] events[k]).batch_index)
                && post.hash_of_index(events[k].batch_index) == events[k].batch_hash
                && post.has_batch_hash(events[k].batch_hash) by {
            if k < n - 1 {
                assert(pre_events[k] == events[k]);
                assert(events[k].batch_index != e.batch_index);
                assert(events[k].batch_hash != e.batch_hash);
                assert(pre.has_batch_index(events[k].batch_index));
                assert(pre.has_batch_hash(events[k].batch_hash));
            }
        }
        // and every entry of the new state stems from some event
        assert forall|i: u64| #[trigger] post.has_batch_index(i) implies exists|k: int|
            0 <= k < n && (#[trigger] events[k]).batch_index == i by {
            if i == e.batch_index {
                assert(events[n - 1].batch_index == i);
            } else {
                assert(pre.has_batch_index(i));
                let k = choose|k: int|
                    0 <= k < pre_events.len() && (#[trigger] pre_events[k]).batch_index == i;
                assert(events[k].batch_index == i);
            }
        }
        assert forall|h: Hash256| #[trigger] post.has_batch_hash(h) implies exists|k: int|
            0 <= k < n && (#[trigger] events[k]).batch_hash == h by {
            if h == e.batch_hash {
                assert(events[n - 1].batch_hash == h);
            } else {
                assert(pre.has_batch_hash(h));
                let k = choose|k: int|
                    0 <= k < pre_events.len() && (#[trigger] pre_events[k]).batch_hash == h;
                assert(events[k].batch_hash == h);
            }
        }
    }
}

/// The pipeline's state: every batch seen and every bundle boundary pending.
pub struct StateManager {
    pub batch_state: BatchState,
    pub bundle_state: BundleState,
}

impl StateManager {
    /// Both owned states are well-formed.
    pub open spec fn wf(self) -> bool {
        self.batch_state.wf() && self.bundle_state.wf()
    }

    /// A fresh, empty state.
    pub fn new() -> (r: StateManager)
        ensures
            r.wf(),
            r.batch_state.index_hash_map@.len() == 0,
            r.batch_state.hash_info_map@.len() == 0,
            r.bundle_state.bundle_info_queue@.len() == 0,
            r.bundle_state.last_finalized_batch_index is None,
    {
        StateManager { batch_state: BatchState::new(), bundle_state: BundleState::new() }
    }

    /// Handles a commit event, given the traces fetched for the batch's
    /// blocks (in block order). Rejects a batch with no blocks; otherwise
    /// registers the batch, back-fills the previous batch's header, and
    /// returns the batch-proof request.
    pub fn on_batch_commit_event_received(
        &mut self,
        event: &CommitBatchEvent,
        block_traces: Vec<BlockTrace>,
    ) -> (r: Result<ProveBatchRequest, HostError>)
        requires
            old(self).wf(),
            block_traces@.len() == spec_blocks(event.chunks@).len(),
        ensures
            final(self).wf(),
            r is Err <==> spec_blocks(event.chunks@).len() == 0,
            r is Err ==> r == Err::<ProveBatchRequest, HostError>(HostError::EmptyBlockList)
                && *final(self) == *old(self),
            r matches Ok(req) ==> commit_ok_post(*old(self), *final(self), *event, block_traces@, req),
    {
        let blocks = batch_block_numbers(event);
        if blocks.len() == 0 {
            return Err(HostError::EmptyBlockList);
        }
        let start_block_number = blocks[0];
        let prev_root_opt = self.batch_state.get_batch_prev_state_root(event.batch_index);
        let batch_info = BatchInfo {
            batch_index: event.batch_index,
            batch_header: None,
            prove_response: None,
            start_block_number,
        };
        self.batch_state.create_batch(event, batch_info);
        if event.batch_index >= 1 {
            self.batch_state.update_batch_header(
                event.batch_index - 1,
                clone_bytes(&event.prev_batch_header),
            );
        }
        let prev_state_root = match prev_root_opt {
            Some(root) => root,
            None => block_traces[0].root_before,
        };
        let mut chunks: Vec<Vec<u64>> = Vec::new();
        let mut c: usize = 0;
        while c < event.chunks.len()
            invariant
                c <= event.chunks@.len(),
                chunks@.len() == c,
                forall|k: int| 0 <= k < c ==> (#[trigger] chunks@[k])@ == event.chunks@[k]@,
            decreases event.chunks@.len() - c,
        {
            chunks.push(clone_u64s(&event.chunks[c]));
            c = c + 1;
        }
        let request = ProveBatchRequest {
            prev_batch_header: clone_bytes(&event.prev_batch_header),
            prev_state_root,
            batch_version: event.batch_version,
            blocks: block_traces,
            chunks,
        };
        Ok(request)
    }
}

/// Every batch of `[begin, end]` is ready: known, header back-filled, proof
/// recorded.
pub open spec fn bundle_range_ready(bs: BatchState, begin: int, end: u64) -> bool {
    forall|i: u64| begin <= i <= end ==> bs.batch_ready(i)
}

/// Request `req` is the bundle request for the `k`-th pending boundary of
/// `p`: its range is ready, its per-batch vectors match the recorded data,
/// and its boundary fields carry the boundary's header and state root.
pub open spec fn bundle_emitted(
    bs: BatchState,
    p: Seq<BundleInfo>,
    last: u64,
    k: int,
    req: ProveBundleRequest,
) -> bool {
    let begin = resolved_begin(p, last, k);
    let end = p[k].end_batch_index;
    &&& bundle_range_ready(bs, begin, end)
    &&& bundle_vectors_match(req, bs, begin as u64, end)
    &&& req.last_finalized_batch_header@ == p[k].end_batch_header@
    &&& req.prev_state_root == p[k].end_state_root
}

/// What one derivation pass did, against batch state `bs` (which it never
/// changes): the queue is purged to the pending boundaries, and the emitted
/// requests are exactly the longest ready prefix of those boundaries, in
/// order.
pub open spec fn derive_post(
    bs: BatchState,
    pre_queue: Seq<BundleInfo>,
    pre_last: Option<u64>,
    post_queue: Seq<BundleInfo>,
    post_last: Option<u64>,
    r: Seq<ProveBundleRequest>,
) -> bool {
    match pre_last {
        None => r.len() == 0 && post_queue == pre_queue && post_last is None,
        Some(last) => {
            let p = pending_of(pre_queue, last);
            &&& post_queue =~= p
            &&& post_last == Some(last)
            &&& r.len() <= p.len()
            &&& forall|k: int| 0 <= k < r.len() ==> bundle_emitted(bs, p, last, k, #[trigger] r[k])
            &&& (r.len() < p.len() ==> !bundle_range_ready(
                bs,
                resolved_begin(p, last, r.len() as int),
                p[r.len() as int].end_batch_index,
            ))
        },
    }
}

/// Which error a finalize event must report, if any: an index below the
/// watermark, or a bundle-append invariant violation.
pub open spec fn finalize_error(
    pre: StateManager,
    event: FinalizeBatchEvent,
    last_finalized_batch_index: u64,
) -> Option<HostError> {
    if event.batch_index < last_finalized_batch_index {
        Some(HostError::BatchIndexBelowFinalized)
    } else {
        pre.bundle_state.append_error(event, last_finalized_batch_index)
    }
}

/// What a successful finalize handler call did: the boundary was enqueued,
/// the ending batch's header back-filled, and — unless the event sits exactly
/// at the watermark, where no new work is derivable yet — a derivation pass
/// ran over the enlarged queue.
pub open spec fn finalize_ok_post(
    pre: StateManager,
    post: StateManager,
    event: FinalizeBatchEvent,
    last_finalized_batch_index: u64,
    reqs: Seq<ProveBundleRequest>,
) -> bool {
    let mid_queue = pre.bundle_state.bundle_info_queue@.push(bundle_of_event(event));
    &&& crate::batch_state::header_update_rel(
        pre.batch_state,
        post.batch_state,
        event.batch_index,
        event.end_batch_header@,
    )
    &&& if event.batch_index == last_finalized_batch_index {
        &&& reqs.len() == 0
        &&& post.bundle_state.bundle_info_queue@ == mid_queue
        &&& post.bundle_state.last_finalized_batch_index == Some(last_finalized_batch_index)
    } else {
        derive_post(
            post.batch_state,
            mid_queue,
            Some(last_finalized_batch_index),
            post.bundle_state.bundle_info_queue@,
            post.bundle_state.last_finalized_batch_index,
            reqs,
        )
    }
}

impl StateManager {
    /// One derivation pass: purges the bundle queue against the watermark and
    /// emits, in order, a bundle request for every pending boundary up to the
    /// first whose batch range is not fully proved; the rest are abandoned
    /// for this pass.
    pub fn try_build_prove_bundle_request(&mut self) -> (r: Vec<ProveBundleRequest>)
        requires
            old(self).wf(),
        ensures
            final(self).wf(),
            final(self).batch_state == old(self).batch_state,
            derive_post(
                final(self).batch_state,
                old(self).bundle_state.bundle_info_queue@,
                old(self).bundle_state.last_finalized_batch_index,
                final(self).bundle_state.bundle_info_queue@,
                final(self).bundle_state.last_finalized_batch_index,
                r@,
            ),
    {
        let mut requests: Vec<ProveBundleRequest> = Vec::new();
        let bundles = match self.bundle_state.get_pending_bundles() {
            Some(b) => b,
            None => {
                return requests;
            },
        };
        let ghost last = old(self).bundle_state.last_finalized_batch_index->0;
        let ghost p = pending_of(old(self).bundle_state.bundle_info_queue@, last);
        proof {
            lemma_pending_of(old(self).bundle_state.bundle_info_queue@, last);
        }
        let mut k: usize = 0;
        while k < bundles.len()
            invariant
                self.batch_state == old(self).batch_state,
                self.batch_state.wf(),
                self.bundle_state.wf(),
                old(self).bundle_state.last_finalized_batch_index == Some(last),
                p == pending_of(old(self).bundle_state.bundle_info_queue@, last),
                self.bundle_state.bundle_info_queue@ =~= p,
                self.bundle_state.last_finalized_batch_index == Some(last),
                pending_resolved(bundles@, p, last),
                crate::bundle_state::ends_strictly_increasing(p),
                forall|m: int| 0 <= m < p.len() ==> (#[trigger] p[m]).end_batch_index > last,
                k <= bundles@.len(),
                requests@.len() == k,
                forall|m: int|
                    0 <= m < k ==> bundle_emitted(
                        self.batch_state,
                        p,
                        last,
                        m,
                        #[trigger] requests@[m],
                    ),
            decreases bundles@.len() - k,
        {
            let begin = bundles[k].begin_batch_index;
            let end = bundles[k].end_batch_index;
            proof {
                assert(begin as int == resolved_begin(p, last, k as int));
                if k == 0 {
                    assert(p[0].end_batch_index > last);
                } else {
                    assert(p[k - 1].end_batch_index < p[k as int].end_batch_index);
                }
                assert(1 <= begin <= end);
            }
            match self.batch_state.collect_batch_infos(begin, end) {
                Ok(req) => {
                    let mut req = req;
                    req.last_finalized_batch_header = clone_bytes(&bundles[k].end_batch_header);
                    req.prev_state_root = bundles[k].end_state_root;
                    proof {
                        assert(bundle_range_ready(
                            self.batch_state,
                            resolved_begin(p, last, k as int),
                            end,
                        ));
                    }
                    requests.push(req);
                },
                Err(_) => {
                    proof {
                        let rb = resolved_begin(p, last, k as int);
                        assert(!bundle_range_ready(self.batch_state, rb, end)) by {
                            if bundle_range_ready(self.batch_state, rb, end) {
                                assert(forall|i: u64|
                                    begin <= i <= end ==> self.batch_state.batch_ready(i));
                            }
                        }
                    }
                    return requests;
                },
            }
            k = k + 1;
        }
        requests
    }

    /// Records a batch's proof response and derives any newly unblocked
    /// bundle requests. A response whose batch hash is unknown leaves the
    /// batch record untouched.
    pub fn on_batch_proved(&mut self, response: ProveBatchResponse) -> (r: Vec<ProveBundleRequest>)
        requires
            old(self).wf(),
        ensures
            final(self).wf(),
            crate::batch_state::proof_update_rel(
                old(self).batch_state,
                final(self).batch_state,
                response,
            ),
            derive_post(
                final(self).batch_state,
                old(self).bundle_state.bundle_info_queue@,
                old(self).bundle_state.last_finalized_batch_index,
                final(self).bundle_state.bundle_info_queue@,
                final(self).bundle_state.last_finalized_batch_index,
                r@,
            ),
    {
        self.batch_state.update_batch_proof(response);
        self.try_build_prove_bundle_request()
    }

    /// Handles a finalize event, given the last-finalized watermark queried
    /// from layer-1. Rejects an event below the watermark and a bundle-append
    /// violation; otherwise enqueues the boundary, back-fills the ending
    /// batch's header, and — unless the event sits exactly at the watermark —
    /// derives bundle requests.
    pub fn on_batch_finalize_event_received(
        &mut self,
        event: FinalizeBatchEvent,
        last_finalized_batch_index: u64,
    ) -> (r: Result<Vec<ProveBundleRequest>, HostError>)
        requires
            old(self).wf(),
        ensures
            final(self).wf(),
            r is Err <==> finalize_error(*old(self), event, last_finalized_batch_index) is Some,
            r matches Err(e) ==> Some(e) == finalize_error(
                *old(self),
                event,
                last_finalized_batch_index,
            ) && *final(self) == *old(self),
            r matches Ok(v) ==> finalize_ok_post(
                *old(self),
                *final(self),
                event,
                last_finalized_batch_index,
                v@,
            ),
    {
        if event.batch_index < last_finalized_batch_index {
            return Err(HostError::BatchIndexBelowFinalized);
        }
        let event_batch_index = event.batch_index;
        let end_batch_header = clone_bytes(&event.end_batch_header);
        match self.bundle_state.append_event(event, last_finalized_batch_index) {
            Ok(_) => {},
            Err(e) => {
                return Err(e);
            },
        }
        self.batch_state.update_batch_header(event_batch_index, end_batch_header);
        if event_batch_index == last_finalized_batch_index {
            Ok(Vec::new())
        } else {
            Ok(self.try_build_prove_bundle_request())
        }
    }
}

} // verus!
