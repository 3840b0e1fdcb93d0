//! The bundle queue: finalize boundaries waiting to be proved, oldest first,
//! together with the last-finalized watermark.

use vstd::prelude::*;

use crate::types::{BundleInfo, FinalizeBatchEvent, HostError, clone_bytes};

verus! {

/// Queue ends strictly increase from front to back.
pub open spec fn ends_strictly_increasing(q: Seq<BundleInfo>) -> bool {
    forall|j: int, l: int|
        0 <= j < l < q.len() ==> (#[trigger] q[j]).end_batch_index < (
        #[trigger] q[l]).end_batch_index
}

/// The boundaries still pending once batch `last` is finalized: exactly those
/// ending above `last`, in queue order. Boundaries at or below `last` are
/// purged.
pub open spec fn pending_of(q: Seq<BundleInfo>, last: u64) -> Seq<BundleInfo>
    decreases q.len(),
{
    if q.len() == 0 {
        Seq::empty()
    } else {
        let rest = pending_of(q.drop_last(), last);
        if q.last().end_batch_index > last {
            rest.push(q.last())
        } else {
            rest
        }
    }
}

/// The bundle a finalize event enqueues; its begin index is resolved only
/// against the watermark, later.
pub open spec fn bundle_of_event(event: FinalizeBatchEvent) -> BundleInfo {
    BundleInfo {
        begin_batch_index: 0,
        end_batch_index: event.batch_index,
        end_batch_header: event.end_batch_header,
        end_state_root: event.end_state_root,
    }
}

/// The begin index the `k`-th pending bundle resolves to: one past the
/// watermark for the first, one past the previous bundle's end for the rest.
pub open spec fn resolved_begin(p: Seq<BundleInfo>, last: u64, k: int) -> int {
    if k == 0 {
        last + 1
    } else {
        p[k - 1].end_batch_index + 1
    }
}

/// `v` lists the bundles of `p` in order, each with its begin index resolved
/// against `last` and the other fields copied.
pub open spec fn pending_resolved(v: Seq<BundleInfo>, p: Seq<BundleInfo>, last: u64) -> bool {
    &&& v.len() == p.len()
    &&& forall|k: int|
        0 <= k < p.len() ==> (#[trigger] v[k]).end_batch_index == p[k].end_batch_index
    &&& forall|k: int|
        0 <= k < p.len() ==> (#[trigger] v[k]).end_state_root == p[k].end_state_root
    &&& forall|k: int|
        0 <= k < p.len() ==> (#[trigger] v[k]).end_batch_header@ == p[k].end_batch_header@
    &&& forall|k: int|
        0 <= k < p.len() ==> (#[trigger] v[k]).begin_batch_index as int == resolved_begin(
            p,
            last,
            k,
        )
}

/// Does `b` stand somewhere in `q`?
pub open spec fn seq_contains_bundle(q: Seq<BundleInfo>, b: BundleInfo) -> bool {
    exists|j: int| 0 <= j < q.len() && (#[trigger] q[j]) == b
}

/// The pending boundaries keep the queue's order, every one of them is an
/// entry of the queue, and all of them end above the watermark.
pub proof fn lemma_pending_of(q: Seq<BundleInfo>, last: u64)
    requires
        ends_strictly_increasing(q),
    ensures
        ends_strictly_increasing(pending_of(q, last)),
        forall|k: int|
            0 <= k < pending_of(q, last).len() ==> (#[trigger] pending_of(
                q,
                last,
            )[k]).end_batch_index > last,
        forall|k: int|
            0 <= k < pending_of(q, last).len() ==> seq_contains_bundle(
                q,
                #[trigger] pending_of(q, last)[k],
            ),
    decreases q.len(),
{
    if q.len() > 0 {
        let s = q.drop_last();
        assert(ends_strictly_increasing(s));
        lemma_pending_of(s, last);
        let rest = pending_of(s, last);
        assert forall|k: int|
            0 <= k < rest.len() implies (#[trigger] rest[k]).end_batch_index
                < q.last().end_batch_index by {
            let j = choose|j: int| 0 <= j < s.len() && (#[trigger] s[j]) == rest[k];
            assert(q[j] == s[j]);
            assert(q[j].end_batch_index < q.last().end_batch_index);
        }
        assert forall|k: int|
            0 <= k < pending_of(q, last).len() implies seq_contains_bundle(
                q,
                #[trigger] pending_of(q, last)[k],
            ) by {
            if k < rest.len() {
                let j = choose|j: int| 0 <= j < s.len() && (#[trigger] s[j]) == rest[k];
                assert(q[j] == pending_of(q, last)[k]);
            } else {
                assert(q[q.len() - 1] == pending_of(q, last)[k]);
            }
        }
    }
}

/// When every entry below position `c` ends at or below the watermark and
/// every entry from `c` on ends above it, the pending boundaries are exactly
/// the queue's suffix from `c`.
pub proof fn lemma_pending_suffix(q: Seq<BundleInfo>, last: u64, c: int)
    requires
        0 <= c <= q.len(),
        forall|j: int| 0 <= j < c ==> (#[trigger] q[j]).end_batch_index <= last,
        forall|j: int| c <= j < q.len() ==> (#[trigger] q[j]).end_batch_index > last,
    ensures
        pending_of(q, last) =~= q.subrange(c, q.len() as int),
    decreases q.len(),
{
    if q.len() == 0 {
    } else if c == q.len() {
        lemma_pending_suffix(q.drop_last(), last, c - 1);
        assert(q.drop_last().subrange(c - 1, q.len() - 1) =~= q.subrange(c, q.len() as int));
    } else {
        lemma_pending_suffix(q.drop_last(), last, c);
        assert(q.drop_last().subrange(c, q.len() - 1).push(q.last()) =~= q.subrange(
            c,
            q.len() as int,
        ));
    }
}

/// The ordered queue of finalize boundaries and the last-finalized watermark.
pub struct BundleState {
    pub bundle_info_queue: Vec<BundleInfo>,
    pub last_finalized_batch_index: Option<u64>,
}

impl BundleState {
    /// Boundaries are queued in strictly increasing end order.
    pub open spec fn wf(self) -> bool {
        ends_strictly_increasing(self.bundle_info_queue@)
    }

    /// Which error an append must report, if any: the queue front must match
    /// the watermark, and ends must keep increasing.
    pub open spec fn append_error(
        self,
        event: FinalizeBatchEvent,
        last_finalized_batch_index: u64,
    ) -> Option<HostError> {
        let q = self.bundle_info_queue@;
        if q.len() > 0 && q.first().end_batch_index != last_finalized_batch_index {
            Some(HostError::FinalizedIndexMismatch)
        } else if q.len() > 0 && event.batch_index <= q.last().end_batch_index {
            Some(HostError::NonMonotonicBundleAppend)
        } else {
            None
        }
    }

    /// An empty bundle state.
    pub fn new() -> (r: BundleState)
        ensures
            r.wf(),
            r.bundle_info_queue@.len() == 0,
            r.last_finalized_batch_index is None,
    {
        BundleState { bundle_info_queue: Vec::new(), last_finalized_batch_index: None }
    }

    /// Appends a finalize boundary. Accepts exactly when the queue is empty
    /// or its front ends at the supplied watermark and the event's index
    /// exceeds the queue's back; a violation reports an error and leaves the
    /// state untouched.
    pub fn append_event(&mut self, event: FinalizeBatchEvent, last_finalized_batch_index: u64) -> (r:
        Result<(), HostError>)
        requires
            old(self).wf(),
        ensures
            final(self).wf(),
            old(self).append_error(event, last_finalized_batch_index) matches Some(e) ==> r
                == Err::<(), HostError>(e) && *final(self) == *old(self),
            old(self).append_error(event, last_finalized_batch_index) is None ==> r is Ok
                && final(self).bundle_info_queue@ == old(self).bundle_info_queue@.push(
                bundle_of_event(event),
            ) && final(self).last_finalized_batch_index == Some(last_finalized_batch_index),
    {
        let n = self.bundle_info_queue.len();
        if n > 0 {
            if self.bundle_info_queue[0].end_batch_index != last_finalized_batch_index {
                return Err(HostError::FinalizedIndexMismatch);
            }
            if event.batch_index <= self.bundle_info_queue[n - 1].end_batch_index {
                return Err(HostError::NonMonotonicBundleAppend);
            }
        }
        let bi = BundleInfo {
            begin_batch_index: 0,
            end_batch_index: event.batch_index,
            end_batch_header: event.end_batch_header,
            end_state_root: event.end_state_root,
        };
        self.bundle_info_queue.push(bi);
        self.last_finalized_batch_index = Some(last_finalized_batch_index);
        Ok(())
    }

    /// Purges every boundary at or below the watermark and returns the rest
    /// as begin-resolved, gap-free bundles; absent until a watermark is
    /// known.
    pub fn get_pending_bundles(&mut self) -> (r: Option<Vec<BundleInfo>>)
        requires
            old(self).wf(),
        ensures
            final(self).wf(),
            old(self).last_finalized_batch_index is None ==> r is None && *final(self) == *old(
                self,
            ),
            old(self).last_finalized_batch_index matches Some(last) ==> {
                let p = pending_of(old(self).bundle_info_queue@, last);
                &&& final(self).bundle_info_queue@ == p
                &&& final(self).last_finalized_batch_index == old(self).last_finalized_batch_index
                &&& r matches Some(v) && pending_resolved(v@, p, last)
            },
    {
        let last = match self.last_finalized_batch_index {
            Some(l) => l,
            None => {
                return None;
            },
        };
        let ghost q0 = self.bundle_info_queue@;
        let ghost mut c: int = 0;
        while self.bundle_info_queue.len() > 0 && self.bundle_info_queue[0].end_batch_index
            <= last
            invariant
                0 <= c <= q0.len(),
                ends_strictly_increasing(q0),
                self.bundle_info_queue@ == q0.subrange(c, q0.len() as int),
                forall|j: int| 0 <= j < c ==> (#[trigger] q0[j]).end_batch_index <= last,
                self.last_finalized_batch_index == Some(last),
            decreases q0.len() - c,
        {
            self.bundle_info_queue.remove(0);
            proof {
                assert(q0.subrange(c, q0.len() as int).remove(0) =~= q0.subrange(
                    c + 1,
                    q0.len() as int,
                ));
                c = c + 1;
            }
        }
        proof {
            assert forall|j: int| c <= j < q0.len() implies (#[trigger] q0[j]).end_batch_index
                > last by {
                assert(q0[c] == self.bundle_info_queue@[0]);
                if j > c {
                    assert(q0[c].end_batch_index < q0[j].end_batch_index);
                }
            }
            lemma_pending_suffix(q0, last, c);
            lemma_pending_of(q0, last);
        }
        let ghost p = pending_of(q0, last);
        let mut infos: Vec<BundleInfo> = Vec::new();
        let mut prev_end: u64 = last;
        let mut j: usize = 0;
        while j < self.bundle_info_queue.len()
            invariant
                self.bundle_info_queue@ == p,
                self.last_finalized_batch_index == Some(last),
                ends_strictly_increasing(p),
                forall|k: int| 0 <= k < p.len() ==> (#[trigger] p[k]).end_batch_index > last,
                j <= p.len(),
                infos@.len() == j,
                prev_end as int == if j == 0 {
                    last as int
                } else {
                    p[j - 1].end_batch_index as int
                },
                forall|k: int|
                    0 <= k < j ==> (#[trigger] infos@[k]).end_batch_index == p[k].end_batch_index,
                forall|k: int|
                    0 <= k < j ==> (#[trigger] infos@[k]).end_state_root == p[k].end_state_root,
                forall|k: int|
                    0 <= k < j ==> (#[trigger] infos@[k]).end_batch_header@
                        == p[k].end_batch_header@,
                forall|k: int|
                    0 <= k < j ==> (#[trigger] infos@[k]).begin_batch_index as int
                        == resolved_begin(p, last, k),
            decreases p.len() - j,
        {
            let end = self.bundle_info_queue[j].end_batch_index;
            let begin = prev_end + 1;
            let header = clone_bytes(&self.bundle_info_queue[j].end_batch_header);
            let root = self.bundle_info_queue[j].end_state_root;
            infos.push(
                BundleInfo {
                    begin_batch_index: begin,
                    end_batch_index: end,
                    end_batch_header: header,
                    end_state_root: root,
                },
            );
            prev_end = end;
            j = j + 1;
        }
        Some(infos)
    }
}

} // verus!
