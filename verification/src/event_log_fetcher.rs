//! The window arithmetic of the layer-1 log fetch loop.
//!
//! The loop itself — polling, log retrieval and event dispatch — runs outside
//! the library; the window each pass covers is computed and verified here.

use vstd::prelude::*;

verus! {

/// The block window one fetch pass covers: from the fetch watermark up to at
/// most `max_size_per_fetch` blocks, capped at the chain's finalized block.
pub fn fetch_window(fetched_block_number: u64, max_size_per_fetch: u64, finalized_block_number: u64) -> (r: (
    u64,
    u64,
))
    ensures
        r.0 == fetched_block_number,
        r.1 as int == if fetched_block_number + max_size_per_fetch <= finalized_block_number {
            fetched_block_number + max_size_per_fetch
        } else {
            finalized_block_number as int
        },
{
    let from = fetched_block_number;
    let to = if finalized_block_number >= from && finalized_block_number - from
        >= max_size_per_fetch {
        from + max_size_per_fetch
    } else {
        finalized_block_number
    };
    (from, to)
}

} // verus!
