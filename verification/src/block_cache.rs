//! A cache of the most recent blocks together with the Ethereum receipts and
//! signed transactions they hold.
//!
//! Pruning the oldest block also drops the receipts and signed transactions
//! indexed under it.

use crate::block_info_provider::{after_insert, BlockCache as Blocks, BlockInfo, CacheView};
use crate::key_map::{H256, KeyMap, U256};
use std::sync::Arc;
use vstd::prelude::*;

verus! {

/// The number of recent blocks maintained by the cache.
pub const CACHE_SIZE: usize = 256;

/// A transaction receipt: the hash and index of its transaction, with the
/// rest of the receipt carried along.
pub struct ReceiptInfo<D> {
    pub transaction_hash: H256,
    pub transaction_index: U256,
    pub details: D,
}

/// The contents of a receipt cache.
pub struct ReceiptCacheView<B, T, D> {
    pub blocks: CacheView<B>,
    /// The receipts by transaction hash.
    pub receipts: Map<H256, ReceiptInfo<D>>,
    /// The signed transactions by transaction hash.
    pub signed_txs: Map<H256, T>,
    /// For each block hash, the transaction hashes by transaction index.
    pub tx_hashes: Map<H256, Map<U256, H256>>,
}

/// The transaction hashes of a block's receipts by transaction index; a later
/// receipt with the same index wins.
pub open spec fn index_map<T, D>(rs: Seq<(T, ReceiptInfo<D>)>) -> Map<U256, H256>
    decreases rs.len(),
{
    if rs.len() == 0 {
        Map::empty()
    } else {
        index_map(rs.drop_last()).insert(
            rs.last().1.transaction_index,
            rs.last().1.transaction_hash,
        )
    }
}

/// A receipt map extended with a block's receipts, by transaction hash.
pub open spec fn with_receipts<T, D>(
    m: Map<H256, ReceiptInfo<D>>,
    rs: Seq<(T, ReceiptInfo<D>)>,
) -> Map<H256, ReceiptInfo<D>>
    decreases rs.len(),
{
    if rs.len() == 0 {
        m
    } else {
        with_receipts(m, rs.drop_last()).insert(rs.last().1.transaction_hash, rs.last().1)
    }
}

/// A transaction map extended with a block's signed transactions, by the
/// transaction hash of their receipts.
pub open spec fn with_signed_txs<T, D>(m: Map<H256, T>, rs: Seq<(T, ReceiptInfo<D>)>) -> Map<
    H256,
    T,
>
    decreases rs.len(),
{
    if rs.len() == 0 {
        m
    } else {
        with_signed_txs(m, rs.drop_last()).insert(rs.last().1.transaction_hash, rs.last().0)
    }
}

/// The receipt maps after pruning the block with this hash: the block's
/// index is dropped, with every receipt and signed transaction it names.
pub open spec fn prune_receipts<B, T, D>(c: ReceiptCacheView<B, T, D>, hash: H256) -> ReceiptCacheView<
    B,
    T,
    D,
> {
    ReceiptCacheView {
        receipts: if c.tx_hashes.contains_key(hash) {
            c.receipts.remove_keys(c.tx_hashes[hash].values())
        } else {
            c.receipts
        },
        signed_txs: if c.tx_hashes.contains_key(hash) {
            c.signed_txs.remove_keys(c.tx_hashes[hash].values())
        } else {
            c.signed_txs
        },
        tx_hashes: c.tx_hashes.remove(hash),
        ..c
    }
}

/// The contents after ingesting a block with its receipts.
pub open spec fn after_insert_receipts<B: BlockInfo, T, D>(
    c: ReceiptCacheView<B, T, D>,
    capacity: int,
    block: B,
    rs: Seq<(T, ReceiptInfo<D>)>,
) -> ReceiptCacheView<B, T, D> {
    let full = c.blocks.buffer.len() >= capacity && c.blocks.buffer.len() > 0;
    let p = if full {
        prune_receipts(c, c.blocks.buffer[0].block_hash())
    } else {
        c
    };
    let q = if rs.len() > 0 {
        ReceiptCacheView {
            receipts: with_receipts(p.receipts, rs),
            signed_txs: with_signed_txs(p.signed_txs, rs),
            tx_hashes: p.tx_hashes.insert(block.block_hash(), index_map(rs)),
            ..p
        }
    } else {
        p
    };
    ReceiptCacheView { blocks: after_insert(c.blocks, capacity, block), ..q }
}

/// Every receipt is stored under the hash of its own transaction.
pub open spec fn receipts_keyed_by_hash<D>(m: Map<H256, ReceiptInfo<D>>) -> bool {
    forall|h: H256| #[trigger] m.contains_key(h) ==> m[h].transaction_hash == h
}

/// The cache maintains a buffer of the last `N` blocks and their receipts.
pub struct BlockCache<const N: usize, B, T, D> {
    blocks: Blocks<N, B>,
    receipts_by_hash: KeyMap<H256, ReceiptInfo<D>>,
    signed_tx_by_hash: KeyMap<H256, T>,
    tx_hashes_by_block_and_index: KeyMap<H256, KeyMap<U256, H256>>,
}

impl<const N: usize, B: BlockInfo, T, D> BlockCache<N, B, T, D> {
    pub closed spec fn view(&self) -> ReceiptCacheView<B, T, D> {
        ReceiptCacheView {
            blocks: self.blocks.view(),
            receipts: self.receipts_by_hash@,
            signed_txs: self.signed_tx_by_hash@,
            tx_hashes: self.tx_hashes_by_block_and_index@.map_values(
                |m: KeyMap<U256, H256>| m@,
            ),
        }
    }

    /// The internal indexes are consistent.
    pub closed spec fn wf(&self) -> bool {
        &&& self.blocks.wf()
        &&& self.receipts_by_hash.wf()
        &&& self.signed_tx_by_hash.wf()
        &&& self.tx_hashes_by_block_and_index.wf()
        &&& forall|h: H256| #[trigger]
            self.tx_hashes_by_block_and_index@.contains_key(h)
                ==> self.tx_hashes_by_block_and_index@[h].wf()
        &&& receipts_keyed_by_hash(self.receipts_by_hash@)
    }

    /// An empty cache.
    pub fn new() -> (r: Self)
        ensures
            r.wf(),
            r.view().blocks.buffer == Seq::<Arc<B>>::empty(),
            r.view().blocks.by_number == Map::<u32, Arc<B>>::empty(),
            r.view().blocks.by_hash == Map::<H256, Arc<B>>::empty(),
            r.view().receipts == Map::<H256, ReceiptInfo<D>>::empty(),
            r.view().signed_txs == Map::<H256, T>::empty(),
            r.view().tx_hashes == Map::<H256, Map<U256, H256>>::empty(),
    {
        let r = BlockCache {
            blocks: Blocks::new(),
            receipts_by_hash: KeyMap::new(),
            signed_tx_by_hash: KeyMap::new(),
            tx_hashes_by_block_and_index: KeyMap::new(),
        };
        assert(r.view().tx_hashes =~= Map::<H256, Map<U256, H256>>::empty());
        r
    }

    /// Insert a block with its receipts, pruning the oldest block and its
    /// receipts if the cache is full.
    pub fn insert(&mut self, block: B, receipts: Vec<(T, ReceiptInfo<D>)>)
        requires
            old(self).wf(),
        ensures
            final(self).wf(),
            final(self).view() == after_insert_receipts(old(self).view(), N as int, block, receipts@),
    {
        let ghost c = self.view();
        let block_hash = block.hash();
        let pruned = self.blocks.insert(block);
        if let Some(hash) = pruned {
            let removed = self.tx_hashes_by_block_and_index.remove(&hash);
            if let Some(entries) = removed {
                let hashes = entries.values();
                let ghost before = self.receipts_by_hash@;
                let ghost signed_before = self.signed_tx_by_hash@;
                let ghost others = (self.blocks, self.tx_hashes_by_block_and_index@);
                let ghost swf = self.tx_hashes_by_block_and_index.wf() && self.blocks.wf() && (forall|h: H256| #[trigger]
                    self.tx_hashes_by_block_and_index@.contains_key(h)
                        ==> self.tx_hashes_by_block_and_index@[h].wf());
                let mut i: usize = 0;
                while i < hashes.len()
                    invariant
                        others == (self.blocks, self.tx_hashes_by_block_and_index@),
                        swf == (self.tx_hashes_by_block_and_index.wf() && self.blocks.wf() && (forall|h: H256| #[trigger]
                            self.tx_hashes_by_block_and_index@.contains_key(h)
                                ==> self.tx_hashes_by_block_and_index@[h].wf())),
                        swf,
                        self.receipts_by_hash.wf(),
                        self.signed_tx_by_hash.wf(),
                        receipts_keyed_by_hash(before),
                        receipts_keyed_by_hash(self.receipts_by_hash@),
                        i <= hashes@.len(),
                        self.receipts_by_hash@ == before.remove_keys(hashes@.take(i as int).to_set()),
                        self.signed_tx_by_hash@ == signed_before.remove_keys(hashes@.take(i as int).to_set()),
                    decreases hashes@.len() - i,
                {
                    let ghost prev = self.receipts_by_hash@;
                    let ghost signed_prev = self.signed_tx_by_hash@;
                    self.receipts_by_hash.remove(&hashes[i]);
                    self.signed_tx_by_hash.remove(&hashes[i]);
                    proof {
                        let s = hashes@;
                        assert(s.take(i + 1).to_set() =~= s.take(i as int).to_set().insert(s[i as int]))
                            by {
                            assert(s.take(i + 1) =~= s.take(i as int).push(s[i as int]));
                            s.take(i as int).lemma_push_to_set_commute(s[i as int]);
                        }
                        assert(before.remove_keys(s.take(i + 1).to_set()) =~= prev.remove(s[i as int]));
                        assert(signed_before.remove_keys(s.take(i + 1).to_set()) =~= signed_prev.remove(
                            s[i as int],
                        ));
                    }
                    i += 1;
                }
                proof {
                    assert(hashes@.take(hashes@.len() as int) =~= hashes@);
                }
            }
            proof {
                let m = old(self).tx_hashes_by_block_and_index@;
                assert(self.tx_hashes_by_block_and_index@ == m.remove(hash));
                assert(self.view().tx_hashes =~= c.tx_hashes.remove(hash));
                if m.contains_key(hash) {
                    assert(c.tx_hashes[hash] == m[hash]@);
                } else {
                    assert(!c.tx_hashes.contains_key(hash));
                }
            }
        }
        let ghost p = self.view();
        if receipts.len() > 0 {
            let mut values: KeyMap<U256, H256> = KeyMap::new();
            let mut rest = receipts;
            let ghost rs = receipts@;
            assert(rs.len() == receipts.len());
            let ghost r0 = self.receipts_by_hash@;
            let ghost s0 = self.signed_tx_by_hash@;
            let ghost bt = (self.blocks, self.tx_hashes_by_block_and_index@);
            let ghost bwf = self.tx_hashes_by_block_and_index.wf() && self.blocks.wf() && (forall|h: H256| #[trigger]
                self.tx_hashes_by_block_and_index@.contains_key(h)
                    ==> self.tx_hashes_by_block_and_index@[h].wf());
            let mut i: usize = 0;
            while rest.len() > 0
                invariant
                    bt == (self.blocks, self.tx_hashes_by_block_and_index@),
                    bwf == (self.tx_hashes_by_block_and_index.wf() && self.blocks.wf() && (forall|h: H256| #[trigger]
                        self.tx_hashes_by_block_and_index@.contains_key(h)
                            ==> self.tx_hashes_by_block_and_index@[h].wf())),
                    bwf,
                    rs.len() <= usize::MAX,
                    values.wf(),
                    self.receipts_by_hash.wf(),
                    self.signed_tx_by_hash.wf(),
                    receipts_keyed_by_hash(self.receipts_by_hash@),
                    i <= rs.len(),
                    rest@ == rs.skip(i as int),
                    values@ == index_map(rs.take(i as int)),
                    self.receipts_by_hash@ == with_receipts(r0, rs.take(i as int)),
                    self.signed_tx_by_hash@ == with_signed_txs(s0, rs.take(i as int)),
                decreases rest@.len(),
            {
                let (tx, receipt) = rest.remove(0);
                let tx_hash = receipt.transaction_hash;
                values.insert(receipt.transaction_index, tx_hash);
                self.receipts_by_hash.insert(tx_hash, receipt);
                self.signed_tx_by_hash.insert(tx_hash, tx);
                proof {
                    assert(rs.take(i + 1).drop_last() =~= rs.take(i as int));
                    assert(rs.take(i + 1).last() == rs[i as int]);
                    assert(rs.skip(i as int)[0] == rs[i as int]);
                    assert(rs.skip(i as int).remove(0) =~= rs.skip(i + 1));
                }
                i += 1;
            }
            proof {
                assert(rs.skip(i as int).len() == 0);
                assert(rs.take(i as int) =~= rs);
            }
            let ghost inner = values@;
            self.tx_hashes_by_block_and_index.insert(block_hash, values);
            proof {
                assert(self.view().tx_hashes =~= p.tx_hashes.insert(block_hash, inner));
            }
        }
    }

    /// The receipt of the transaction at an index of a block.
    pub fn receipt_by_block_hash_and_index(&self, block_hash: &H256, transaction_index: &U256) -> (r:
        Option<&ReceiptInfo<D>>)
        requires
            self.wf(),
        ensures
            r == ({
                let v = self.view();
                if v.tx_hashes.contains_key(*block_hash) && v.tx_hashes[*block_hash].contains_key(
                    *transaction_index,
                ) && v.receipts.contains_key(v.tx_hashes[*block_hash][*transaction_index]) {
                    Some(&v.receipts[v.tx_hashes[*block_hash][*transaction_index]])
                } else {
                    None
                }
            }),
            r matches Some(x) ==> x.transaction_hash == self.view().tx_hashes[*block_hash][*transaction_index],
    {
        let entries = match self.tx_hashes_by_block_and_index.get(block_hash) {
            Some(e) => e,
            None => return None,
        };
        let receipt_hash = match entries.get(transaction_index) {
            Some(h) => h,
            None => return None,
        };
        self.receipts_by_hash.get(receipt_hash)
    }

    /// The number of receipts indexed for a block.
    pub fn receipts_count_per_block(&self, block_hash: &H256) -> (r: Option<usize>)
        requires
            self.wf(),
        ensures
            r == (if self.view().tx_hashes.contains_key(*block_hash) {
                Some(self.view().tx_hashes[*block_hash].len() as usize)
            } else {
                None
            }),
    {
        match self.tx_hashes_by_block_and_index.get(block_hash) {
            Some(entries) => Some(entries.len()),
            None => None,
        }
    }

    /// The receipt of a transaction.
    pub fn receipt_by_hash(&self, hash: &H256) -> (r: Option<&ReceiptInfo<D>>)
        requires
            self.wf(),
        ensures
            r == (if self.view().receipts.contains_key(*hash) {
                Some(&self.view().receipts[*hash])
            } else {
                None
            }),
            r matches Some(x) ==> x.transaction_hash == *hash,
    {
        self.receipts_by_hash.get(hash)
    }

    /// The signed transaction with this hash.
    pub fn signed_tx_by_hash(&self, hash: &H256) -> (r: Option<&T>)
        requires
            self.wf(),
        ensures
            r == (if self.view().signed_txs.contains_key(*hash) {
                Some(&self.view().signed_txs[*hash])
            } else {
                None
            }),
    {
        self.signed_tx_by_hash.get(hash)
    }

    /// The latest ingested block.
    pub fn latest_block(&self) -> (r: Option<Arc<B>>)
        ensures
            r == (if self.view().blocks.buffer.len() > 0 {
                Some(self.view().blocks.buffer.last())
            } else {
                None::<Arc<B>>
            }),
    {
        self.blocks.latest_block()
    }

    /// The cached block with this number.
    pub fn block_by_number(&self, block_number: u32) -> (r: Option<Arc<B>>)
        ensures
            r == (if self.view().blocks.by_number.contains_key(block_number) {
                Some(self.view().blocks.by_number[block_number])
            } else {
                None::<Arc<B>>
            }),
    {
        self.blocks.block_by_number(block_number)
    }

    /// The cached block with this hash.
    pub fn block_by_hash(&self, hash: &H256) -> (r: Option<Arc<B>>)
        requires
            self.wf(),
        ensures
            r == (if self.view().blocks.by_hash.contains_key(*hash) {
                Some(self.view().blocks.by_hash[*hash])
            } else {
                None::<Arc<B>>
            }),
    {
        self.blocks.block_by_hash(hash)
    }

    /// The number of cached blocks.
    pub fn buffer_len(&self) -> (r: usize)
        ensures
            r == self.view().blocks.buffer.len(),
    {
        self.blocks.buffer_len()
    }

    /// The number of block numbers indexed.
    pub fn blocks_by_number_len(&self) -> (r: usize)
        ensures
            r == self.view().blocks.by_number.len(),
    {
        self.blocks.blocks_by_number_len()
    }

    /// The number of block hashes indexed.
    pub fn blocks_by_hash_len(&self) -> (r: usize)
        requires
            self.wf(),
        ensures
            r == self.view().blocks.by_hash.len(),
    {
        self.blocks.blocks_by_hash_len()
    }

    /// The number of receipts.
    pub fn receipts_by_hash_len(&self) -> (r: usize)
        requires
            self.wf(),
        ensures
            r == self.view().receipts.len(),
    {
        self.receipts_by_hash.len()
    }

    /// The number of signed transactions.
    pub fn signed_tx_by_hash_len(&self) -> (r: usize)
        requires
            self.wf(),
        ensures
            r == self.view().signed_txs.len(),
    {
        self.signed_tx_by_hash.len()
    }

    /// The number of blocks whose receipts are indexed.
    pub fn tx_hashes_by_block_and_index_len(&self) -> (r: usize)
        requires
            self.wf(),
        ensures
            r == self.view().tx_hashes.len(),
    {
        let r = self.tx_hashes_by_block_and_index.len();
        assert(self.view().tx_hashes.dom() =~= self.tx_hashes_by_block_and_index@.dom());
        r
    }
}

} // verus!
