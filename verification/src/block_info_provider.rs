//! A cache of the most recent blocks, indexed by number and by hash.
//!
//! The cache keeps the last `N` ingested blocks in ingestion order; once it
//! holds `N` blocks, ingesting another one prunes the oldest.

use crate::key_map::{H256, KeyMap};
use std::collections::HashMap;
use std::sync::Arc;
use vstd::prelude::*;

verus! {

broadcast use vstd::std_specs::hash::group_hash_axioms;

/// The number of recent blocks maintained by the cache.
pub const CACHE_SIZE: usize = 256;

/// What the cache needs to know of a block. An implementation gives `hash`
/// and `block_hash` the same value, and `number` and `block_number` too.
pub trait BlockInfo {
    /// The hash of the block.
    spec fn block_hash(&self) -> H256;

    /// The number of the block.
    spec fn block_number(&self) -> u32;

    /// Returns the block hash.
    fn hash(&self) -> (r: H256)
        ensures
            r == self.block_hash(),
    ;

    /// Returns the block number.
    fn number(&self) -> (r: u32)
        ensures
            r == self.block_number(),
    ;
}

/// Calls `<Arc<T> as Clone>::clone`; trusted to return a pointer to the same
/// allocation, as std documents, so the clone holds the same value.
#[verifier::external_body]
pub(crate) fn arc_clone<T>(a: &Arc<T>) -> (r: Arc<T>)
    ensures
        r == *a,
{
    a.clone()
}

/// The contents of a block cache.
pub struct CacheView<B> {
    /// The cached blocks, oldest first.
    pub buffer: Seq<Arc<B>>,
    pub by_number: Map<u32, Arc<B>>,
    pub by_hash: Map<H256, Arc<B>>,
}

/// The contents after pruning the oldest block, when the cache is full.
pub open spec fn after_prune<B: BlockInfo>(c: CacheView<B>, capacity: int) -> CacheView<B> {
    if c.buffer.len() >= capacity && c.buffer.len() > 0 {
        let oldest = c.buffer[0];
        CacheView {
            buffer: c.buffer.drop_first(),
            by_number: c.by_number.remove(oldest.block_number()),
            by_hash: c.by_hash.remove(oldest.block_hash()),
        }
    } else {
        c
    }
}

/// The contents after ingesting a block.
pub open spec fn after_insert<B: BlockInfo>(c: CacheView<B>, capacity: int, block: B) -> CacheView<B> {
    let p = after_prune(c, capacity);
    CacheView {
        buffer: p.buffer.push(Arc::new(block)),
        by_number: p.by_number.insert(block.block_number(), Arc::new(block)),
        by_hash: p.by_hash.insert(block.block_hash(), Arc::new(block)),
    }
}

/// Every indexed block is in the buffer and is indexed under its own number
/// and hash.
pub open spec fn indexes_agree<B: BlockInfo>(c: CacheView<B>) -> bool {
    &&& forall|n: u32| #[trigger]
        c.by_number.contains_key(n) ==> c.buffer.contains(c.by_number[n]) && c.by_number[n].block_number()
            == n
    &&& forall|h: H256| #[trigger]
        c.by_hash.contains_key(h) ==> c.buffer.contains(c.by_hash[h]) && c.by_hash[h].block_hash()
            == h
}

/// An insertion keeps every index entry pointing at a cached block filed
/// under that block's own number and hash.
pub proof fn lemma_insert_keeps_indexes_agree<B: BlockInfo>(c: CacheView<B>, capacity: int, block: B)
    requires
        indexes_agree(c),
    ensures
        indexes_agree(after_insert(c, capacity, block)),
{
    let pruned = after_prune(c, capacity);
    let post = after_insert(c, capacity, block);
    assert forall|n: u32| #[trigger] post.by_number.contains_key(n) implies post.buffer.contains(
        post.by_number[n],
    ) && post.by_number[n].block_number() == n by {
        if n != block.block_number() {
            let x = pruned.by_number[n];
            let j = choose|j: int| 0 <= j < c.buffer.len() && c.buffer[j] == x;
            if pruned.buffer.len() < c.buffer.len() {
                assert(j != 0);
                assert(pruned.buffer[j - 1] == x);
            }
            assert(pruned.buffer.contains(x));
            let k = choose|k: int| 0 <= k < pruned.buffer.len() && pruned.buffer[k] == x;
            assert(post.buffer[k] == x);
        } else {
            assert(post.buffer[post.buffer.len() - 1] == post.by_number[n]);
        }
    }
    assert forall|h: H256| #[trigger] post.by_hash.contains_key(h) implies post.buffer.contains(
        post.by_hash[h],
    ) && post.by_hash[h].block_hash() == h by {
        if h != block.block_hash() {
            let x = pruned.by_hash[h];
            let j = choose|j: int| 0 <= j < c.buffer.len() && c.buffer[j] == x;
            if pruned.buffer.len() < c.buffer.len() {
                assert(j != 0);
                assert(pruned.buffer[j - 1] == x);
            }
            assert(pruned.buffer.contains(x));
            let k = choose|k: int| 0 <= k < pruned.buffer.len() && pruned.buffer[k] == x;
            assert(post.buffer[k] == x);
        } else {
            assert(post.buffer[post.buffer.len() - 1] == post.by_hash[h]);
        }
    }
}

/// A cache lookup only returns a block the cache holds, and only under the
/// number and hash of that block.
pub proof fn lemma_lookups_are_sound<const N: usize, B: BlockInfo>(cache: BlockCache<N, B>)
    requires
        cache.wf(),
    ensures
        indexes_agree(cache.view()),
{
}

/// The cache maintains a buffer of the last `N` blocks.
pub struct BlockCache<const N: usize, B> {
    /// The most recent block is at the back, the oldest at the front.
    buffer: std::collections::VecDeque<Arc<B>>,
    /// The blocks by block number.
    blocks_by_number: HashMap<u32, Arc<B>>,
    /// The blocks by block hash.
    blocks_by_hash: KeyMap<H256, Arc<B>>,
}

impl<const N: usize, B: BlockInfo> BlockCache<N, B> {
    pub closed spec fn view(&self) -> CacheView<B> {
        CacheView {
            buffer: self.buffer@,
            by_number: self.blocks_by_number@,
            by_hash: self.blocks_by_hash@,
        }
    }

    /// The internal indexes are consistent.
    pub closed spec fn wf(&self) -> bool {
        &&& self.blocks_by_hash.wf()
        &&& indexes_agree(self.view())
    }

    /// An empty cache.
    pub fn new() -> (r: Self)
        ensures
            r.wf(),
            r.view().buffer == Seq::<Arc<B>>::empty(),
            r.view().by_number == Map::<u32, Arc<B>>::empty(),
            r.view().by_hash == Map::<H256, Arc<B>>::empty(),
    {
        BlockCache {
            buffer: std::collections::VecDeque::new(),
            blocks_by_number: HashMap::new(),
            blocks_by_hash: KeyMap::new(),
        }
    }

    /// Insert a block, pruning the oldest one if the cache is full; returns
    /// the hash of the pruned block.
    pub fn insert(&mut self, block: B) -> (r: Option<H256>)
        requires
            old(self).wf(),
        ensures
            final(self).wf(),
            final(self).view() == after_insert(old(self).view(), N as int, block),
            r == (if old(self).view().buffer.len() >= N && old(self).view().buffer.len() > 0 {
                Some(old(self).view().buffer[0].block_hash())
            } else {
                None::<H256>
            }),
    {
        let mut pruned_block_hash: Option<H256> = None;
        if self.buffer.len() >= N {
            if let Some(oldest) = self.buffer.pop_front() {
                let hash = oldest.hash();
                self.blocks_by_hash.remove(&hash);
                self.blocks_by_number.remove(&oldest.number());
                pruned_block_hash = Some(hash);
            }
        }
        let ghost pruned = self.view();
        let ghost inserted = block;
        let block = Arc::new(block);
        self.buffer.push_back(arc_clone(&block));
        self.blocks_by_number.insert(block.number(), arc_clone(&block));
        self.blocks_by_hash.insert(block.hash(), block);
        proof {
            let c = old(self).view();
            assert(pruned.buffer =~= after_prune(c, N as int).buffer);
            lemma_insert_keeps_indexes_agree(c, N as int, inserted);
        }
        pruned_block_hash
    }

    /// The latest ingested block.
    pub fn latest_block(&self) -> (r: Option<Arc<B>>)
        ensures
            r == (if self.view().buffer.len() > 0 {
                Some(self.view().buffer.last())
            } else {
                None::<Arc<B>>
            }),
    {
        let len = self.buffer.len();
        if len == 0 {
            None
        } else {
            Some(arc_clone(&self.buffer[len - 1]))
        }
    }

    /// The cached block with this number.
    pub fn block_by_number(&self, block_number: u32) -> (r: Option<Arc<B>>)
        ensures
            r == (if self.view().by_number.contains_key(block_number) {
                Some(self.view().by_number[block_number])
            } else {
                None::<Arc<B>>
            }),
    {
        match self.blocks_by_number.get(&block_number) {
            Some(b) => Some(arc_clone(b)),
            None => None,
        }
    }

    /// The cached block with this hash.
    pub fn block_by_hash(&self, hash: &H256) -> (r: Option<Arc<B>>)
        requires
            self.wf(),
        ensures
            r == (if self.view().by_hash.contains_key(*hash) {
                Some(self.view().by_hash[*hash])
            } else {
                None::<Arc<B>>
            }),
    {
        match self.blocks_by_hash.get(hash) {
            Some(b) => Some(arc_clone(b)),
            None => None,
        }
    }

    /// The number of cached blocks.
    pub fn buffer_len(&self) -> (r: usize)
        ensures
            r == self.view().buffer.len(),
    {
        self.buffer.len()
    }

    /// The number of block numbers indexed.
    pub fn blocks_by_number_len(&self) -> (r: usize)
        ensures
            r == self.view().by_number.len(),
    {
        self.blocks_by_number.len()
    }

    /// The number of block hashes indexed.
    pub fn blocks_by_hash_len(&self) -> (r: usize)
        requires
            self.wf(),
        ensures
            r == self.view().by_hash.len(),
    {
        self.blocks_by_hash.len()
    }
}

} // verus!
