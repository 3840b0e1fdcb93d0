//! Order-preserving assembly of block traces.
//!
//! Traces are fetched concurrently outside the library and complete in any
//! order; the tracer reassembles them in the caller's block order.

use vstd::prelude::*;

use crate::types::BlockTrace;

verus! {

/// Is there a trace for block `b` among the fetched ones?
pub open spec fn has_trace(fetched: Seq<BlockTrace>, b: u64) -> bool {
    exists|j: int| 0 <= j < fetched.len() && (#[trigger] fetched[j]).block_number == b
}

/// The position of the first fetched trace for block `b`.
pub open spec fn first_trace_pos(fetched: Seq<BlockTrace>, b: u64) -> int
    decreases fetched.len(),
{
    if fetched.len() == 0 {
        0
    } else if fetched.first().block_number == b {
        0
    } else {
        1 + first_trace_pos(fetched.drop_first(), b)
    }
}

/// A scan that stops at the first match lands on `first_trace_pos`.
proof fn lemma_first_trace_pos(fetched: Seq<BlockTrace>, b: u64, j: int)
    requires
        0 <= j < fetched.len(),
        fetched[j].block_number == b,
        forall|l: int| 0 <= l < j ==> (#[trigger] fetched[l]).block_number != b,
    ensures
        first_trace_pos(fetched, b) == j,
    decreases j,
{
    if j == 0 {
    } else {
        assert(fetched[0].block_number != b);
        let rest = fetched.drop_first();
        assert(rest[j - 1] == fetched[j]);
        assert(forall|l: int| 0 <= l < j - 1 ==> (#[trigger] rest[l]) == fetched[l + 1]);
        lemma_first_trace_pos(rest, b, j - 1);
    }
}

/// Resolves block numbers to their traces, in the caller's order.
pub struct BlockTracer {}

impl BlockTracer {
    /// A tracer; the remote trace source lives outside the library.
    pub fn new() -> BlockTracer {
        BlockTracer {}
    }

    /// Reassembles `fetched` — traces completed in any order — into the order
    /// of `blocks`: the result's `k`-th trace is the first fetched trace of
    /// block `blocks[k]`. Absent exactly when some block has no fetched
    /// trace.
    pub fn get_block_traces(&self, blocks: &Vec<u64>, fetched: &Vec<BlockTrace>) -> (r: Option<
        Vec<BlockTrace>,
    >)
        ensures
            r is Some <==> (forall|k: int|
                0 <= k < blocks@.len() ==> has_trace(fetched@, #[trigger] blocks@[k])),
            r matches Some(ts) ==> {
                &&& ts@.len() == blocks@.len()
                &&& forall|k: int|
                    0 <= k < blocks@.len() ==> (#[trigger] ts@[k]) == fetched@[first_trace_pos(
                        fetched@,
                        blocks@[k],
                    )]
                &&& forall|k: int|
                    0 <= k < blocks@.len() ==> (#[trigger] ts@[k]).block_number == blocks@[k]
            },
    {
        let mut traces: Vec<BlockTrace> = Vec::new();
        let mut k: usize = 0;
        while k < blocks.len()
            invariant
                k <= blocks@.len(),
                traces@.len() == k,
                forall|m: int| 0 <= m < k ==> has_trace(fetched@, #[trigger] blocks@[m]),
                forall|m: int|
                    0 <= m < k ==> (#[trigger] traces@[m]) == fetched@[first_trace_pos(
                        fetched@,
                        blocks@[m],
                    )],
                forall|m: int|
                    0 <= m < k ==> (#[trigger] traces@[m]).block_number == blocks@[m],
            decreases blocks@.len() - k,
        {
            let b = blocks[k];
            let mut j: usize = 0;
            let mut found = false;
            while j < fetched.len() && !found
                invariant
                    j <= fetched@.len(),
                    !found ==> forall|l: int|
                        0 <= l < j ==> (#[trigger] fetched@[l]).block_number != b,
                    found ==> j < fetched@.len() && fetched@[j as int].block_number == b
                        && forall|l: int|
                        0 <= l < j ==> (#[trigger] fetched@[l]).block_number != b,
                decreases fetched@.len() - j + (if found { 0int } else { 1int }),
            {
                if fetched[j].block_number == b {
                    found = true;
                } else {
                    j = j + 1;
                }
            }
            if !found {
                proof {
                    assert(!has_trace(fetched@, b));
                }
                return None;
            }
            proof {
                lemma_first_trace_pos(fetched@, b, j as int);
            }
            traces.push(fetched[j]);
            k = k + 1;
        }
        Some(traces)
    }
}

} // verus!
