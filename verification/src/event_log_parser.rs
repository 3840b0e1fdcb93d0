//! Decoding of the chunk payloads carried by commit transactions.
//!
//! ABI decoding of the surrounding calldata happens outside the library; the
//! chunk payload itself — a count byte followed by 60-byte block contexts,
//! each opening with a big-endian block number — is decoded and verified
//! here.

use vstd::prelude::*;

verus! {

/// The integer a big-endian 8-byte field encodes.
pub open spec fn be_u64_of(s: Seq<u8>) -> int {
    s[0] * 0x100000000000000 + s[1] * 0x1000000000000 + s[2] * 0x10000000000 + s[3] * 0x100000000
        + s[4] * 0x1000000 + s[5] * 0x10000 + s[6] * 0x100 + s[7]
}

/// Reads the big-endian 64-bit integer at `off`.
fn be_u64_at(data: &Vec<u8>, off: usize) -> (r: u64)
    requires
        off + 8 <= data@.len(),
    ensures
        r as int == be_u64_of(data@.subrange(off as int, off as int + 8)),
{
    // bind the length so the offset arithmetic below is known to fit
    let _len = data.len();
    let r = (data[off] as u64) * 0x100000000000000 + (data[off + 1] as u64) * 0x1000000000000 + (
    data[off + 2] as u64) * 0x10000000000 + (data[off + 3] as u64) * 0x100000000 + (data[off
        + 4] as u64) * 0x1000000 + (data[off + 5] as u64) * 0x10000 + (data[off + 6] as u64)
        * 0x100 + (data[off + 7] as u64);
    proof {
        let s = data@.subrange(off as int, off as int + 8);
        assert(s[0] == data@[off as int]);
        assert(s[1] == data@[off as int + 1]);
        assert(s[2] == data@[off as int + 2]);
        assert(s[3] == data@[off as int + 3]);
        assert(s[4] == data@[off as int + 4]);
        assert(s[5] == data@[off as int + 5]);
        assert(s[6] == data@[off as int + 6]);
        assert(s[7] == data@[off as int + 7]);
    }
    r
}

/// Decodes a chunk payload into its block numbers: a count byte, then one
/// 60-byte context per block whose first eight bytes are the block number,
/// big-endian. Absent exactly when the payload is empty or too short for its
/// own count.
pub fn decode_block_numbers(data: &Vec<u8>) -> (r: Option<Vec<u64>>)
    ensures
        r is Some <==> (data@.len() >= 1 && data@.len() - 1 >= 60 * (data@[0] as int)),
        r matches Some(v) ==> {
            &&& v@.len() == data@[0] as int
            &&& forall|k: int|
                0 <= k < v@.len() ==> (#[trigger] v@[k]) as int == be_u64_of(
                    data@.subrange(1 + 60 * k, 1 + 60 * k + 8),
                )
        },
{
    if data.len() < 1 {
        return None;
    }
    let num_blocks = data[0] as usize;
    if data.len() - 1 < num_blocks * 60 {
        return None;
    }
    let mut numbers: Vec<u64> = Vec::new();
    let mut i: usize = 0;
    while i < num_blocks
        invariant
            data@.len() >= 1,
            num_blocks == data@[0] as int,
            data@.len() - 1 >= 60 * num_blocks,
            i <= num_blocks,
            numbers@.len() == i,
            forall|k: int|
                0 <= k < i ==> (#[trigger] numbers@[k]) as int == be_u64_of(
                    data@.subrange(1 + 60 * k, 1 + 60 * k + 8),
                ),
        decreases num_blocks - i,
    {
        let n = be_u64_at(data, 1 + i * 60);
        numbers.push(n);
        i = i + 1;
    }
    Some(numbers)
}

} // verus!
