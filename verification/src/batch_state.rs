//! The per-batch record: which batches exist, their hashes, headers and
//! proof responses.
//!
//! The state keeps the two lookup structures of the pipeline — batch index to
//! batch hash, and batch hash to batch record — as vectors of entries with
//! unique keys, so that every lookup and mutation is verified against a
//! mathematical description of both maps.

use vstd::prelude::*;

use crate::types::{BatchInfo, CommitBatchEvent, Hash256, HostError, ProveBatchResponse,
    ProveBundleRequest};

verus! {

/// One entry of the index-to-hash map.
#[derive(Clone, Copy, PartialEq, Eq, Structural, Debug)]
pub struct IndexHashEntry {
    pub batch_index: u64,
    pub batch_hash: Hash256,
}

/// One entry of the hash-to-record map.
#[derive(Clone, PartialEq, Eq, Debug)]
pub struct HashInfoEntry {
    pub batch_hash: Hash256,
    pub info: BatchInfo,
}

// ---------------------------------------------------------------------------
// The index-to-hash map, as a sequence of entries with unique keys.
// ---------------------------------------------------------------------------

/// Does the index map hold an entry for batch index `i`?
pub open spec fn index_has(s: Seq<IndexHashEntry>, i: u64) -> bool {
    exists|j: int| 0 <= j < s.len() && (#[trigger] s[j]).batch_index == i
}

/// The position of batch index `i` in the index map.
pub open spec fn index_pos(s: Seq<IndexHashEntry>, i: u64) -> int {
    choose|j: int| 0 <= j < s.len() && (#[trigger] s[j]).batch_index == i
}

/// The hash recorded for batch index `i`.
pub open spec fn index_hash_at(s: Seq<IndexHashEntry>, i: u64) -> Hash256 {
    s[index_pos(s, i)].batch_hash
}

/// No two entries of the index map share a batch index.
pub open spec fn index_keys_unique(s: Seq<IndexHashEntry>) -> bool {
    forall|j: int, l: int|
        0 <= j < s.len() && 0 <= l < s.len() && j != l
            ==> (#[trigger] s[j]).batch_index != (#[trigger] s[l]).batch_index
}

/// With unique keys, an entry's position is exactly where lookups land.
pub proof fn lemma_index_entry(s: Seq<IndexHashEntry>, p: int)
    requires
        index_keys_unique(s),
        0 <= p < s.len(),
    ensures
        index_has(s, s[p].batch_index),
        index_pos(s, s[p].batch_index) == p,
        index_hash_at(s, s[p].batch_index) == s[p].batch_hash,
{
    assert(index_has(s, s[p].batch_index));
    let q = index_pos(s, s[p].batch_index);
    assert(0 <= q < s.len() && s[q].batch_index == s[p].batch_index);
}

/// Replacing the entry at `p` by one with the same key rewrites that key's
/// hash and leaves every other key untouched.
pub proof fn lemma_index_set(s: Seq<IndexHashEntry>, p: int, e: IndexHashEntry)
    requires
        index_keys_unique(s),
        0 <= p < s.len(),
        e.batch_index == s[p].batch_index,
    ensures
        index_keys_unique(s.update(p, e)),
        forall|k: u64| index_has(s.update(p, e), k) == index_has(s, k),
        index_hash_at(s.update(p, e), e.batch_index) == e.batch_hash,
        forall|k: u64|
            k != e.batch_index && index_has(s, k)
                ==> index_hash_at(s.update(p, e), k) == index_hash_at(s, k),
{
    let t = s.update(p, e);
    assert(forall|j: int| 0 <= j < t.len() ==> (#[trigger] t[j]).batch_index == s[j].batch_index);
    assert forall|k: u64| index_has(t, k) == index_has(s, k) by {
        if index_has(s, k) {
            let j = choose|j: int| 0 <= j < s.len() && (#[trigger] s[j]).batch_index == k;
            assert(t[j].batch_index == k);
        }
        if index_has(t, k) {
            let j = choose|j: int| 0 <= j < t.len() && (#[trigger] t[j]).batch_index == k;
            assert(s[j].batch_index == k);
        }
    }
    lemma_index_entry(t, p);
    assert forall|k: u64|
        k != e.batch_index && index_has(s, k)
            implies index_hash_at(t, k) == index_hash_at(s, k) by {
        let q = index_pos(s, k);
        assert(0 <= q < s.len() && s[q].batch_index == k);
        assert(q != p);
        assert(t[q].batch_index == k);
        lemma_index_entry(t, q);
        lemma_index_entry(s, q);
    }
}

/// Pushing an entry with a fresh key adds that key and leaves the rest.
pub proof fn lemma_index_push(s: Seq<IndexHashEntry>, e: IndexHashEntry)
    requires
        index_keys_unique(s),
        !index_has(s, e.batch_index),
    ensures
        index_keys_unique(s.push(e)),
        index_has(s.push(e), e.batch_index),
        index_hash_at(s.push(e), e.batch_index) == e.batch_hash,
        forall|k: u64| k != e.batch_index ==> index_has(s.push(e), k) == index_has(s, k),
        forall|k: u64|
            k != e.batch_index && index_has(s, k)
                ==> index_hash_at(s.push(e), k) == index_hash_at(s, k),
{
    let t = s.push(e);
    assert(t[s.len() as int] == e);
    assert(forall|j: int| 0 <= j < s.len() ==> t[j] == s[j]);
    assert forall|j: int, l: int|
        0 <= j < t.len() && 0 <= l < t.len() && j != l
            implies (#[trigger] t[j]).batch_index != (#[trigger] t[l]).batch_index by {
        if j < s.len() && l < s.len() {
            assert(s[j].batch_index != s[l].batch_index);
        } else if j < s.len() {
            if t[j].batch_index == e.batch_index {
                assert(index_has(s, e.batch_index));
            }
        } else {
            if t[l].batch_index == e.batch_index {
                assert(index_has(s, e.batch_index));
            }
        }
    }
    lemma_index_entry(t, s.len() as int);
    assert forall|k: u64|
        k != e.batch_index implies index_has(t, k) == index_has(s, k) by {
        if index_has(s, k) {
            let j = choose|j: int| 0 <= j < s.len() && (#[trigger] s[j]).batch_index == k;
            assert(t[j].batch_index == k);
        }
        if index_has(t, k) {
            let j = choose|j: int| 0 <= j < t.len() && (#[trigger] t[j]).batch_index == k;
            assert(j < s.len());
            assert(s[j].batch_index == k);
        }
    }
    assert forall|k: u64|
        k != e.batch_index && index_has(s, k)
            implies index_hash_at(t, k) == index_hash_at(s, k) by {
        let q = index_pos(s, k);
        assert(0 <= q < s.len() && s[q].batch_index == k);
        assert(t[q].batch_index == k);
        lemma_index_entry(t, q);
        lemma_index_entry(s, q);
    }
}

// ---------------------------------------------------------------------------
// The hash-to-record map, as a sequence of entries with unique keys.
// ---------------------------------------------------------------------------

/// Does the record map hold an entry for batch hash `h`?
pub open spec fn info_has(s: Seq<HashInfoEntry>, h: Hash256) -> bool {
    exists|j: int| 0 <= j < s.len() && (#[trigger] s[j]).batch_hash == h
}

/// The position of batch hash `h` in the record map.
pub open spec fn info_pos(s: Seq<HashInfoEntry>, h: Hash256) -> int {
    choose|j: int| 0 <= j < s.len() && (#[trigger] s[j]).batch_hash == h
}

/// The record kept for batch hash `h`.
pub open spec fn info_at(s: Seq<HashInfoEntry>, h: Hash256) -> BatchInfo {
    s[info_pos(s, h)].info
}

/// No two entries of the record map share a batch hash.
pub open spec fn info_keys_unique(s: Seq<HashInfoEntry>) -> bool {
    forall|j: int, l: int|
        0 <= j < s.len() && 0 <= l < s.len() && j != l
            ==> (#[trigger] s[j]).batch_hash != (#[trigger] s[l]).batch_hash
}

/// With unique keys, an entry's position is exactly where lookups land.
pub proof fn lemma_info_entry(s: Seq<HashInfoEntry>, p: int)
    requires
        info_keys_unique(s),
        0 <= p < s.len(),
    ensures
        info_has(s, s[p].batch_hash),
        info_pos(s, s[p].batch_hash) == p,
        info_at(s, s[p].batch_hash) == s[p].info,
{
    assert(info_has(s, s[p].batch_hash));
    let q = info_pos(s, s[p].batch_hash);
    assert(0 <= q < s.len() && s[q].batch_hash == s[p].batch_hash);
}

/// Replacing the entry at `p` by one with the same key rewrites that key's
/// record and leaves every other key untouched.
pub proof fn lemma_info_set(s: Seq<HashInfoEntry>, p: int, e: HashInfoEntry)
    requires
        info_keys_unique(s),
        0 <= p < s.len(),
        e.batch_hash == s[p].batch_hash,
    ensures
        info_keys_unique(s.update(p, e)),
        forall|h: Hash256| info_has(s.update(p, e), h) == info_has(s, h),
        info_at(s.update(p, e), e.batch_hash) == e.info,
        forall|h: Hash256|
            h != e.batch_hash && info_has(s, h)
                ==> info_at(s.update(p, e), h) == info_at(s, h),
{
    let t = s.update(p, e);
    assert(forall|j: int| 0 <= j < t.len() ==> (#[trigger] t[j]).batch_hash == s[j].batch_hash);
    assert forall|h: Hash256| info_has(t, h) == info_has(s, h) by {
        if info_has(s, h) {
            let j = choose|j: int| 0 <= j < s.len() && (#[trigger] s[j]).batch_hash == h;
            assert(t[j].batch_hash == h);
        }
        if info_has(t, h) {
            let j = choose|j: int| 0 <= j < t.len() && (#[trigger] t[j]).batch_hash == h;
            assert(s[j].batch_hash == h);
        }
    }
    lemma_info_entry(t, p);
    assert forall|h: Hash256|
        h != e.batch_hash && info_has(s, h)
            implies info_at(t, h) == info_at(s, h) by {
        let q = info_pos(s, h);
        assert(0 <= q < s.len() && s[q].batch_hash == h);
        assert(q != p);
        assert(t[q].batch_hash == h);
        lemma_info_entry(t, q);
        lemma_info_entry(s, q);
    }
}

/// Pushing an entry with a fresh key adds that key and leaves the rest.
pub proof fn lemma_info_push(s: Seq<HashInfoEntry>, e: HashInfoEntry)
    requires
        info_keys_unique(s),
        !info_has(s, e.batch_hash),
    ensures
        info_keys_unique(s.push(e)),
        info_has(s.push(e), e.batch_hash),
        info_at(s.push(e), e.batch_hash) == e.info,
        forall|h: Hash256| h != e.batch_hash ==> info_has(s.push(e), h) == info_has(s, h),
        forall|h: Hash256|
            h != e.batch_hash && info_has(s, h)
                ==> info_at(s.push(e), h) == info_at(s, h),
{
    let t = s.push(e);
    assert(t[s.len() as int] == e);
    assert(forall|j: int| 0 <= j < s.len() ==> t[j] == s[j]);
    assert forall|j: int, l: int|
        0 <= j < t.len() && 0 <= l < t.len() && j != l
            implies (#[trigger] t[j]).batch_hash != (#[trigger] t[l]).batch_hash by {
        if j < s.len() && l < s.len() {
            assert(s[j].batch_hash != s[l].batch_hash);
        } else if j < s.len() {
            if t[j].batch_hash == e.batch_hash {
                assert(info_has(s, e.batch_hash));
            }
        } else {
            if t[l].batch_hash == e.batch_hash {
                assert(info_has(s, e.batch_hash));
            }
        }
    }
    lemma_info_entry(t, s.len() as int);
    assert forall|h: Hash256|
        h != e.batch_hash implies info_has(t, h) == info_has(s, h) by {
        if info_has(s, h) {
            let j = choose|j: int| 0 <= j < s.len() && (#[trigger] s[j]).batch_hash == h;
            assert(t[j].batch_hash == h);
        }
        if info_has(t, h) {
            let j = choose|j: int| 0 <= j < t.len() && (#[trigger] t[j]).batch_hash == h;
            assert(j < s.len());
            assert(s[j].batch_hash == h);
        }
    }
    assert forall|h: Hash256|
        h != e.batch_hash && info_has(s, h)
            implies info_at(t, h) == info_at(s, h) by {
        let q = info_pos(s, h);
        assert(0 <= q < s.len() && s[q].batch_hash == h);
        assert(t[q].batch_hash == h);
        lemma_info_entry(t, q);
        lemma_info_entry(s, q);
    }
}

// ---------------------------------------------------------------------------
// The batch state proper.
// ---------------------------------------------------------------------------

/// The pipeline's record of every batch it has seen: a map from batch index
/// to batch hash and a map from batch hash to the batch's record.
pub struct BatchState {
    pub index_hash_map: Vec<IndexHashEntry>,
    pub hash_info_map: Vec<HashInfoEntry>,
}

impl BatchState {
    /// Both maps have unique keys, and every hash the index map points to has
    /// a record.
    pub open spec fn wf(self) -> bool {
        &&& index_keys_unique(self.index_hash_map@)
        &&& info_keys_unique(self.hash_info_map@)
        &&& forall|j: int|
            0 <= j < self.index_hash_map@.len()
                ==> info_has(self.hash_info_map@, (#[trigger] self.index_hash_map@[j]).batch_hash)
    }

    /// Is batch index `i` known?
    pub open spec fn has_batch_index(self, i: u64) -> bool {
        index_has(self.index_hash_map@, i)
    }

    /// The hash recorded for batch index `i`.
    pub open spec fn hash_of_index(self, i: u64) -> Hash256 {
        index_hash_at(self.index_hash_map@, i)
    }

    /// Is batch hash `h` known?
    pub open spec fn has_batch_hash(self, h: Hash256) -> bool {
        info_has(self.hash_info_map@, h)
    }

    /// The record kept for batch hash `h`.
    pub open spec fn info_of_hash(self, h: Hash256) -> BatchInfo {
        info_at(self.hash_info_map@, h)
    }

    /// The record kept for batch index `i`.
    pub open spec fn info_of_index(self, i: u64) -> BatchInfo {
        self.info_of_hash(self.hash_of_index(i))
    }

    /// Batch `i` has an entry, a back-filled header and a recorded proof: all
    /// a bundle needs of it.
    pub open spec fn batch_ready(self, i: u64) -> bool {
        &&& self.has_batch_index(i)
        &&& self.has_batch_hash(self.hash_of_index(i))
        &&& self.info_of_index(i).batch_header is Some
        &&& self.info_of_index(i).prove_response is Some
    }

    /// The previous batch's recorded post-state-root: defined exactly when
    /// batch `i - 1` is known and proved.
    pub open spec fn spec_prev_state_root(self, i: u64) -> Option<Hash256> {
        if i >= 1 && self.has_batch_index((i - 1) as u64) && self.has_batch_hash(
            self.hash_of_index((i - 1) as u64),
        ) && self.info_of_index((i - 1) as u64).prove_response is Some {
            Some(self.info_of_index((i - 1) as u64).prove_response->0.post_state_root)
        } else {
            None
        }
    }

    /// An empty batch state.
    pub fn new() -> (r: BatchState)
        ensures
            r.wf(),
            r.index_hash_map@.len() == 0,
            r.hash_info_map@.len() == 0,
    {
        BatchState { index_hash_map: Vec::new(), hash_info_map: Vec::new() }
    }
}

/// Finds the position of batch index `i` in the index map.
fn find_index_pos(v: &Vec<IndexHashEntry>, i: u64) -> (r: Option<usize>)
    ensures
        match r {
            Some(p) => p < v@.len() && v@[p as int].batch_index == i,
            None => !index_has(v@, i),
        },
{
    let mut j: usize = 0;
    while j < v.len()
        invariant
            j <= v@.len(),
            forall|l: int| 0 <= l < j ==> (#[trigger] v@[l]).batch_index != i,
        decreases v@.len() - j,
    {
        if v[j].batch_index == i {
            return Some(j);
        }
        j = j + 1;
    }
    None
}

/// Finds the position of batch hash `h` in the record map.
fn find_info_pos(v: &Vec<HashInfoEntry>, h: Hash256) -> (r: Option<usize>)
    ensures
        match r {
            Some(p) => p < v@.len() && v@[p as int].batch_hash == h,
            None => !info_has(v@, h),
        },
{
    let mut j: usize = 0;
    while j < v.len()
        invariant
            j <= v@.len(),
            forall|l: int| 0 <= l < j ==> (#[trigger] v@[l]).batch_hash != h,
        decreases v@.len() - j,
    {
        if v[j].batch_hash == h {
            return Some(j);
        }
        j = j + 1;
    }
    None
}

// ---------------------------------------------------------------------------
// The effect of each mutation, as a relation between old and new state.
// ---------------------------------------------------------------------------

/// Registering a batch: index `i` now points at `h`, hash `h` now holds
/// `info`, and no other key of either map changed.
pub open spec fn create_rel(
    pre: BatchState,
    post: BatchState,
    i: u64,
    h: Hash256,
    info: BatchInfo,
) -> bool {
    &&& post.index_hash_map@.len() == pre.index_hash_map@.len() + (
        if pre.has_batch_index(i) { 0int } else { 1int }
    )
    &&& post.has_batch_index(i)
    &&& post.hash_of_index(i) == h
    &&& forall|k: u64| k != i ==> post.has_batch_index(k) == pre.has_batch_index(k)
    &&& forall|k: u64|
        k != i && pre.has_batch_index(k) ==> post.hash_of_index(k) == pre.hash_of_index(k)
    &&& post.hash_info_map@.len() == pre.hash_info_map@.len() + (
        if pre.has_batch_hash(h) { 0int } else { 1int }
    )
    &&& post.has_batch_hash(h)
    &&& post.info_of_hash(h) == info
    &&& forall|g: Hash256| g != h ==> post.has_batch_hash(g) == pre.has_batch_hash(g)
    &&& forall|g: Hash256|
        g != h && pre.has_batch_hash(g) ==> post.info_of_hash(g) == pre.info_of_hash(g)
}

/// `new` is `base` with its header replaced by `hdr`.
pub open spec fn header_set(new: BatchInfo, base: BatchInfo, hdr: Seq<u8>) -> bool {
    &&& new.batch_index == base.batch_index
    &&& new.start_block_number == base.start_block_number
    &&& new.prove_response == base.prove_response
    &&& new.batch_header matches Some(b) && b@ == hdr
}

/// Back-filling the header of batch index `i`: if the batch is known, its
/// record's header becomes `hdr`; otherwise nothing changes. No key of
/// either map changes either way.
pub open spec fn header_update_rel(pre: BatchState, post: BatchState, i: u64, hdr: Seq<u8>) -> bool {
    let applies = pre.has_batch_index(i) && pre.has_batch_hash(pre.hash_of_index(i));
    let target = pre.hash_of_index(i);
    &&& post.index_hash_map@ == pre.index_hash_map@
    &&& post.hash_info_map@.len() == pre.hash_info_map@.len()
    &&& forall|g: Hash256| post.has_batch_hash(g) == pre.has_batch_hash(g)
    &&& (applies ==> header_set(post.info_of_hash(target), pre.info_of_hash(target), hdr))
    &&& forall|g: Hash256|
        pre.has_batch_hash(g) && (!applies || g != target)
            ==> post.info_of_hash(g) == pre.info_of_hash(g)
    &&& (!applies ==> post.hash_info_map@ == pre.hash_info_map@)
}

/// `new` is `base` with its proof response replaced by `resp`.
pub open spec fn proof_set(new: BatchInfo, base: BatchInfo, resp: ProveBatchResponse) -> bool {
    &&& new.batch_index == base.batch_index
    &&& new.start_block_number == base.start_block_number
    &&& new.batch_header == base.batch_header
    &&& new.prove_response == Some(resp)
}

/// Recording a proof: if the response's batch hash is known, that record's
/// proof response becomes the response; otherwise nothing changes.
pub open spec fn proof_update_rel(pre: BatchState, post: BatchState, resp: ProveBatchResponse) -> bool {
    let h = resp.batch_hash;
    &&& post.index_hash_map@ == pre.index_hash_map@
    &&& post.hash_info_map@.len() == pre.hash_info_map@.len()
    &&& forall|g: Hash256| post.has_batch_hash(g) == pre.has_batch_hash(g)
    &&& (pre.has_batch_hash(h) ==> proof_set(post.info_of_hash(h), pre.info_of_hash(h), resp))
    &&& forall|g: Hash256|
        pre.has_batch_hash(g) && g != h ==> post.info_of_hash(g) == pre.info_of_hash(g)
    &&& (!pre.has_batch_hash(h) ==> post.hash_info_map@ == pre.hash_info_map@)
}

impl BatchState {
    /// Registers a new batch under the event's index and hash.
    pub fn create_batch(&mut self, event: &CommitBatchEvent, batch_info: BatchInfo)
        requires
            old(self).wf(),
        ensures
            final(self).wf(),
            create_rel(*old(self), *final(self), event.batch_index, event.batch_hash, batch_info),
    {
        let i = event.batch_index;
        let h = event.batch_hash;
        let ghost pre_index = self.index_hash_map@;
        match find_index_pos(&self.index_hash_map, i) {
            Some(p) => {
                self.index_hash_map.set(p, IndexHashEntry { batch_index: i, batch_hash: h });
                proof {
                    lemma_index_entry(pre_index, p as int);
                    lemma_index_set(
                        pre_index,
                        p as int,
                        IndexHashEntry { batch_index: i, batch_hash: h },
                    );
                }
            },
            None => {
                self.index_hash_map.push(IndexHashEntry { batch_index: i, batch_hash: h });
                proof {
                    lemma_index_push(pre_index, IndexHashEntry { batch_index: i, batch_hash: h });
                }
            },
        }
        let ghost pre_info = self.hash_info_map@;
        match find_info_pos(&self.hash_info_map, h) {
            Some(p) => {
                proof {
                    lemma_info_entry(pre_info, p as int);
                }
                let entry = HashInfoEntry { batch_hash: h, info: batch_info };
                proof {
                    lemma_info_set(pre_info, p as int, HashInfoEntry { batch_hash: h, info: batch_info });
                }
                self.hash_info_map.set(p, entry);
            },
            None => {
                proof {
                    lemma_info_push(pre_info, HashInfoEntry { batch_hash: h, info: batch_info });
                }
                self.hash_info_map.push(HashInfoEntry { batch_hash: h, info: batch_info });
            },
        }
        proof {
            assert forall|j: int| 0 <= j < self.index_hash_map@.len()
                implies info_has(self.hash_info_map@, (#[trigger] self.index_hash_map@[j]).batch_hash) by {
                let entry = self.index_hash_map@[j];
                if entry.batch_hash != h {
                    if j < pre_index.len() && pre_index[j] == entry {
                        assert(info_has(old(self).hash_info_map@, entry.batch_hash));
                    } else {
                        assert(entry.batch_hash == h);
                    }
                }
            }
        }
    }

    /// Back-fills the header of batch index `batch_index`; a miss on either
    /// map is a no-op.
    pub fn update_batch_header(&mut self, batch_index: u64, batch_header: Vec<u8>)
        requires
            old(self).wf(),
        ensures
            final(self).wf(),
            header_update_rel(*old(self), *final(self), batch_index, batch_header@),
    {
        let p = match find_index_pos(&self.index_hash_map, batch_index) {
            Some(p) => p,
            None => {
                return ;
            },
        };
        proof {
            lemma_index_entry(self.index_hash_map@, p as int);
        }
        let h = self.index_hash_map[p].batch_hash;
        let q = match find_info_pos(&self.hash_info_map, h) {
            Some(q) => q,
            None => {
                return ;
            },
        };
        let ghost pre_info = self.hash_info_map@;
        proof {
            lemma_info_entry(pre_info, q as int);
        }
        let entry = self.hash_info_map.remove(q);
        let HashInfoEntry { batch_hash: eh, info } = entry;
        let BatchInfo { batch_index: bi, batch_header: _, prove_response: pr, start_block_number: sb } = info;
        let new_entry = HashInfoEntry {
            batch_hash: eh,
            info: BatchInfo {
                batch_index: bi,
                batch_header: Some(batch_header),
                prove_response: pr,
                start_block_number: sb,
            },
        };
        proof {
            assert(pre_info.remove(q as int).insert(q as int, new_entry) =~= pre_info.update(
                q as int,
                new_entry,
            ));
            lemma_info_set(pre_info, q as int, new_entry);
        }
        self.hash_info_map.insert(q, new_entry);
        proof {
            assert forall|j: int| 0 <= j < self.index_hash_map@.len()
                implies info_has(self.hash_info_map@, (#[trigger] self.index_hash_map@[j]).batch_hash) by {
                assert(info_has(old(self).hash_info_map@, self.index_hash_map@[j].batch_hash));
            }
        }
    }

    /// Records a proof response against the batch hash it carries; a miss is
    /// a no-op.
    pub fn update_batch_proof(&mut self, prove_response: ProveBatchResponse)
        requires
            old(self).wf(),
        ensures
            final(self).wf(),
            proof_update_rel(*old(self), *final(self), prove_response),
    {
        let h = prove_response.batch_hash;
        let q = match find_info_pos(&self.hash_info_map, h) {
            Some(q) => q,
            None => {
                return ;
            },
        };
        let ghost pre_info = self.hash_info_map@;
        proof {
            lemma_info_entry(pre_info, q as int);
        }
        let entry = self.hash_info_map.remove(q);
        let HashInfoEntry { batch_hash: eh, info } = entry;
        let BatchInfo { batch_index: bi, batch_header: bh, prove_response: _, start_block_number: sb } = info;
        let new_entry = HashInfoEntry {
            batch_hash: eh,
            info: BatchInfo {
                batch_index: bi,
                batch_header: bh,
                prove_response: Some(prove_response),
                start_block_number: sb,
            },
        };
        proof {
            assert(pre_info.remove(q as int).insert(q as int, new_entry) =~= pre_info.update(
                q as int,
                new_entry,
            ));
            lemma_info_set(pre_info, q as int, new_entry);
        }
        self.hash_info_map.insert(q, new_entry);
        proof {
            assert forall|j: int| 0 <= j < self.index_hash_map@.len()
                implies info_has(self.hash_info_map@, (#[trigger] self.index_hash_map@[j]).batch_hash) by {
                assert(info_has(old(self).hash_info_map@, self.index_hash_map@[j].batch_hash));
            }
        }
    }

    /// The previous batch's recorded post-state-root, absent unless batch
    /// `batch_index - 1` is known and proved. Proving must proceed by
    /// increasing batch index for this to ever be present.
    pub fn get_batch_prev_state_root(&self, batch_index: u64) -> (r: Option<Hash256>)
        requires
            self.wf(),
        ensures
            r == self.spec_prev_state_root(batch_index),
    {
        if batch_index == 0 {
            return None;
        }
        let prev_batch_index = batch_index - 1;
        let p = match find_index_pos(&self.index_hash_map, prev_batch_index) {
            Some(p) => p,
            None => {
                return None;
            },
        };
        proof {
            lemma_index_entry(self.index_hash_map@, p as int);
        }
        let h = self.index_hash_map[p].batch_hash;
        let q = match find_info_pos(&self.hash_info_map, h) {
            Some(q) => q,
            None => {
                return None;
            },
        };
        proof {
            lemma_info_entry(self.hash_info_map@, q as int);
        }
        match &self.hash_info_map[q].info.prove_response {
            Some(response) => Some(response.post_state_root),
            None => None,
        }
    }
}

/// The per-batch vectors of a bundle request hold, for each batch of
/// `[begin, end]` in order, the recorded header and the proved roots and
/// signature.
pub open spec fn bundle_vectors_match(
    req: ProveBundleRequest,
    bs: BatchState,
    begin: u64,
    end: u64,
) -> bool {
    let n = end - begin + 1;
    &&& req.batch_headers@.len() == n
    &&& req.state_roots@.len() == n
    &&& req.withdraw_roots@.len() == n
    &&& req.signatures@.len() == n
    &&& forall|k: int|
        0 <= k < n ==> (#[trigger] req.batch_headers@[k])@ == bs.info_of_index(
            (begin + k) as u64,
        ).batch_header->0@
    &&& forall|k: int|
        0 <= k < n ==> (#[trigger] req.state_roots@[k]) == bs.info_of_index(
            (begin + k) as u64,
        ).prove_response->0.post_state_root
    &&& forall|k: int|
        0 <= k < n ==> (#[trigger] req.withdraw_roots@[k]) == bs.info_of_index(
            (begin + k) as u64,
        ).prove_response->0.post_withdraw_root
    &&& forall|k: int|
        0 <= k < n ==> (#[trigger] req.signatures@[k])@ == bs.info_of_index(
            (begin + k) as u64,
        ).prove_response->0.signature@
}

/// Law: feeding the proof response for batch `i` back into the state makes
/// that batch's post-state-root retrievable by the next batch's derivation —
/// the round trip from a recorded commit through its proof to the successor's
/// previous-state-root.
pub proof fn lemma_proved_batch_unblocks_next(
    pre: BatchState,
    post: BatchState,
    response: ProveBatchResponse,
    i: u64,
)
    requires
        pre.wf(),
        proof_update_rel(pre, post, response),
        pre.has_batch_index(i),
        pre.hash_of_index(i) == response.batch_hash,
        i < u64::MAX,
    ensures
        post.spec_prev_state_root((i + 1) as u64) == Some(response.post_state_root),
{
    let s = pre.index_hash_map@;
    let p = index_pos(s, i);
    assert(0 <= p < s.len() && s[p].batch_index == i);
    assert(info_has(pre.hash_info_map@, s[p].batch_hash));
    assert(pre.has_batch_hash(response.batch_hash));
    assert(post.has_batch_index(i) && post.hash_of_index(i) == response.batch_hash);
    assert(post.info_of_hash(response.batch_hash).prove_response == Some(response));
}

impl BatchState {
    /// Assembles the per-batch data of `[begin_batch_index, end_batch_index]`
    /// into a bundle request. Succeeds exactly when every batch of the range
    /// has an entry, a header and a proof; the boundary fields are left empty
    /// for the caller to fill.
    pub fn collect_batch_infos(&self, begin_batch_index: u64, end_batch_index: u64) -> (r: Result<
        ProveBundleRequest,
        HostError,
    >)
        requires
            self.wf(),
            1 <= begin_batch_index <= end_batch_index,
        ensures
            r is Ok <==> (forall|i: u64|
                begin_batch_index <= i <= end_batch_index ==> self.batch_ready(i)),
            r matches Ok(req) ==> {
                &&& bundle_vectors_match(req, *self, begin_batch_index, end_batch_index)
                &&& req.last_finalized_batch_header@.len() == 0
                &&& req.prev_state_root == (Hash256 { w0: 0, w1: 0, w2: 0, w3: 0 })
            },
            r matches Err(e) ==> e == HostError::IncompleteBundleRange,
    {
        let count = end_batch_index - begin_batch_index + 1;
        let mut batch_headers: Vec<Vec<u8>> = Vec::new();
        let mut state_roots: Vec<Hash256> = Vec::new();
        let mut withdraw_roots: Vec<Hash256> = Vec::new();
        let mut signatures: Vec<Vec<u8>> = Vec::new();
        let mut k: u64 = 0;
        while k < count
            invariant
                self.wf(),
                1 <= begin_batch_index <= end_batch_index,
                count == end_batch_index - begin_batch_index + 1,
                k <= count,
                batch_headers@.len() == k,
                state_roots@.len() == k,
                withdraw_roots@.len() == k,
                signatures@.len() == k,
                forall|i: u64|
                    begin_batch_index <= i < begin_batch_index + k ==> self.batch_ready(i),
                forall|m: int|
                    0 <= m < k ==> (#[trigger] batch_headers@[m])@ == self.info_of_index(
                        (begin_batch_index + m) as u64,
                    ).batch_header->0@,
                forall|m: int|
                    0 <= m < k ==> (#[trigger] state_roots@[m]) == self.info_of_index(
                        (begin_batch_index + m) as u64,
                    ).prove_response->0.post_state_root,
                forall|m: int|
                    0 <= m < k ==> (#[trigger] withdraw_roots@[m]) == self.info_of_index(
                        (begin_batch_index + m) as u64,
                    ).prove_response->0.post_withdraw_root,
                forall|m: int|
                    0 <= m < k ==> (#[trigger] signatures@[m])@ == self.info_of_index(
                        (begin_batch_index + m) as u64,
                    ).prove_response->0.signature@,
            decreases count - k,
        {
            let i = begin_batch_index + k;
            let p = match find_index_pos(&self.index_hash_map, i) {
                Some(p) => p,
                None => {
                    proof {
                        assert(!self.batch_ready(i));
                    }
                    return Err(HostError::IncompleteBundleRange);
                },
            };
            proof {
                lemma_index_entry(self.index_hash_map@, p as int);
            }
            let h = self.index_hash_map[p].batch_hash;
            let q = match find_info_pos(&self.hash_info_map, h) {
                Some(q) => q,
                None => {
                    proof {
                        assert(!self.batch_ready(i));
                    }
                    return Err(HostError::IncompleteBundleRange);
                },
            };
            proof {
                lemma_info_entry(self.hash_info_map@, q as int);
            }
            match &self.hash_info_map[q].info.batch_header {
                Some(header) => {
                    batch_headers.push(crate::types::clone_bytes(header));
                },
                None => {
                    proof {
                        assert(!self.batch_ready(i));
                    }
                    return Err(HostError::IncompleteBundleRange);
                },
            }
            match &self.hash_info_map[q].info.prove_response {
                Some(response) => {
                    state_roots.push(response.post_state_root);
                    withdraw_roots.push(response.post_withdraw_root);
                    signatures.push(crate::types::clone_bytes(&response.signature));
                },
                None => {
                    proof {
                        assert(!self.batch_ready(i));
                    }
                    return Err(HostError::IncompleteBundleRange);
                },
            }
            k = k + 1;
        }
        Ok(
            ProveBundleRequest {
                batch_headers,
                state_roots,
                withdraw_roots,
                signatures,
                last_finalized_batch_header: Vec::new(),
                prev_state_root: Hash256::zero(),
            },
        )
    }
}

} // verus!
