//! Properties of the block caches that hold across insertions.

use crate::block_cache::{
    after_insert_receipts, index_map, prune_receipts, with_receipts, with_signed_txs, ReceiptCacheView,
    ReceiptInfo,
};
use crate::block_info_provider::{
    after_insert, after_prune, indexes_agree, lemma_insert_keeps_indexes_agree, BlockInfo, CacheView,
};
use crate::key_map::{H256, U256};
use std::sync::Arc;
use vstd::prelude::*;

verus! {

/// The cache never holds more than `N` blocks (one, when `N` is 0): an
/// insertion into a cache within the bound stays within it.
pub proof fn lemma_cache_stays_bounded<B: BlockInfo>(c: CacheView<B>, capacity: int, block: B)
    requires
        capacity >= 0,
        c.buffer.len() <= if capacity > 0 { capacity } else { 1 },
    ensures
        after_insert(c, capacity, block).buffer.len() <= if capacity > 0 { capacity } else { 1 },
{
}

/// The blocks stay in insertion order: an insertion appends the block, after
/// dropping the oldest one if the cache was full.
pub proof fn lemma_cache_is_fifo<B: BlockInfo>(c: CacheView<B>, capacity: int, block: B)
    ensures
        after_insert(c, capacity, block).buffer == (if c.buffer.len() >= capacity && c.buffer.len()
            > 0 {
            c.buffer.drop_first()
        } else {
            c.buffer
        }).push(Arc::new(block)),
{
}

/// A lookup after an insertion finds the inserted block, under its number and
/// its hash, and it is the latest block.
pub proof fn lemma_insert_then_lookup<B: BlockInfo>(c: CacheView<B>, capacity: int, block: B)
    ensures
        after_insert(c, capacity, block).by_number.contains_key(block.block_number()),
        after_insert(c, capacity, block).by_number[block.block_number()] == Arc::new(block),
        after_insert(c, capacity, block).by_hash.contains_key(block.block_hash()),
        after_insert(c, capacity, block).by_hash[block.block_hash()] == Arc::new(block),
        after_insert(c, capacity, block).buffer.last() == Arc::new(block),
{
}

/// An index with consistent entries never has more keys than the cache has
/// blocks: each key names a different cached block.
pub proof fn lemma_indexes_bounded<B: BlockInfo>(c: CacheView<B>)
    requires
        indexes_agree(c),
        c.by_hash.dom().finite(),
        c.by_number.dom().finite(),
    ensures
        c.by_hash.len() <= c.buffer.len(),
        c.by_number.len() <= c.buffer.len(),
{
    let range = Set::<int>::new(|i: int| 0 <= i < c.buffer.len());
    assert(range =~= vstd::set_lib::set_int_range(0, c.buffer.len() as int));
    vstd::set_lib::lemma_int_range(0, c.buffer.len() as int);
    let fh = |h: H256| choose|i: int| 0 <= i < c.buffer.len() && c.buffer[i] == c.by_hash[h];
    assert(vstd::relations::injective_on(fh, c.by_hash.dom())) by {
        assert forall|a: H256, b: H256|
            c.by_hash.dom().contains(a) && c.by_hash.dom().contains(b) && #[trigger] fh(a) == #[trigger] fh(
                b,
            ) implies a == b by {
            assert(c.buffer.contains(c.by_hash[a]));
            assert(c.buffer.contains(c.by_hash[b]));
        }
    }
    vstd::set_lib::lemma_map_size(c.by_hash.dom(), c.by_hash.dom().map(fh), fh);
    assert forall|i: int| c.by_hash.dom().map(fh).contains(i) implies range.contains(i) by {
        let h = choose|h: H256| c.by_hash.dom().contains(h) && fh(h) == i;
        assert(c.buffer.contains(c.by_hash[h]));
    }
    vstd::set_lib::lemma_len_subset(c.by_hash.dom().map(fh), range);
    let fnum = |n: u32| choose|i: int| 0 <= i < c.buffer.len() && c.buffer[i] == c.by_number[n];
    assert(vstd::relations::injective_on(fnum, c.by_number.dom())) by {
        assert forall|a: u32, b: u32|
            c.by_number.dom().contains(a) && c.by_number.dom().contains(b) && #[trigger] fnum(a)
                == #[trigger] fnum(b) implies a == b by {
            assert(c.buffer.contains(c.by_number[a]));
            assert(c.buffer.contains(c.by_number[b]));
        }
    }
    vstd::set_lib::lemma_map_size(c.by_number.dom(), c.by_number.dom().map(fnum), fnum);
    assert forall|i: int| c.by_number.dom().map(fnum).contains(i) implies range.contains(i) by {
        let n = choose|n: u32| c.by_number.dom().contains(n) && fnum(n) == i;
        assert(c.buffer.contains(c.by_number[n]));
    }
    vstd::set_lib::lemma_len_subset(c.by_number.dom().map(fnum), range);
}

/// Every cached block is indexed, under its number and its hash.
pub open spec fn indexes_cover<B: BlockInfo>(c: CacheView<B>) -> bool {
    forall|i: int|
        #![trigger c.buffer[i]]
        0 <= i < c.buffer.len() ==> {
            &&& c.by_number.contains_key(c.buffer[i].block_number())
            &&& c.by_number[c.buffer[i].block_number()] == c.buffer[i]
            &&& c.by_hash.contains_key(c.buffer[i].block_hash())
            &&& c.by_hash[c.buffer[i].block_hash()] == c.buffer[i]
        }
}

/// No two cached blocks share a number or a hash.
pub open spec fn keys_distinct<B: BlockInfo>(buffer: Seq<Arc<B>>) -> bool {
    forall|i: int, j: int|
        0 <= i < j < buffer.len() ==> #[trigger] buffer[i].block_number() != #[trigger] buffer[j].block_number()
            && buffer[i].block_hash() != buffer[j].block_hash()
}

/// The numbers of the cached blocks.
pub open spec fn buffer_numbers<B: BlockInfo>(buffer: Seq<Arc<B>>) -> Set<u32> {
    Set::new(|n: u32| exists|i: int| 0 <= i < buffer.len() && #[trigger] buffer[i].block_number() == n)
}

/// The hashes of the cached blocks.
pub open spec fn buffer_hashes<B: BlockInfo>(buffer: Seq<Arc<B>>) -> Set<H256> {
    Set::new(|h: H256| exists|i: int| 0 <= i < buffer.len() && #[trigger] buffer[i].block_hash() == h)
}

/// When the indexes agree with the buffer and cover it, they index exactly the
/// cached blocks: their keys are the numbers and the hashes of the buffer.
pub proof fn lemma_indexes_match_buffer<B: BlockInfo>(c: CacheView<B>)
    requires
        indexes_agree(c),
        indexes_cover(c),
    ensures
        c.by_number.dom() == buffer_numbers(c.buffer),
        c.by_hash.dom() == buffer_hashes(c.buffer),
{
    assert forall|n: u32| c.by_number.dom().contains(n) implies buffer_numbers(c.buffer).contains(n) by {
        let i = choose|i: int| 0 <= i < c.buffer.len() && c.buffer[i] == c.by_number[n];
        assert(c.buffer[i].block_number() == n);
    }
    assert forall|n: u32| buffer_numbers(c.buffer).contains(n) implies c.by_number.dom().contains(n) by {
        let i = choose|i: int| 0 <= i < c.buffer.len() && #[trigger] c.buffer[i].block_number() == n;
        assert(c.buffer[i] == c.buffer[i]);
    }
    assert(c.by_number.dom() =~= buffer_numbers(c.buffer));
    assert forall|h: H256| c.by_hash.dom().contains(h) implies buffer_hashes(c.buffer).contains(h) by {
        let i = choose|i: int| 0 <= i < c.buffer.len() && c.buffer[i] == c.by_hash[h];
        assert(c.buffer[i].block_hash() == h);
    }
    assert forall|h: H256| buffer_hashes(c.buffer).contains(h) implies c.by_hash.dom().contains(h) by {
        let i = choose|i: int| 0 <= i < c.buffer.len() && #[trigger] c.buffer[i].block_hash() == h;
        assert(c.buffer[i] == c.buffer[i]);
    }
    assert(c.by_hash.dom() =~= buffer_hashes(c.buffer));
}

/// While the cached blocks have distinct numbers and hashes, and a new block
/// shares neither with the blocks that stay, an insertion keeps the indexes
/// covering the cache, so they hold exactly the cached blocks. A block whose
/// number (or hash) is that of a cached block that stays replaces that
/// block's index entry, and the older block is no longer indexed.
pub proof fn lemma_indexes_cover_the_buffer<B: BlockInfo>(c: CacheView<B>, capacity: int, block: B)
    requires
        indexes_agree(c),
        indexes_cover(c),
        keys_distinct(c.buffer),
        forall|k: int|
            0 <= k < after_prune(c, capacity).buffer.len() ==> #[trigger] after_prune(
                c,
                capacity,
            ).buffer[k].block_number() != block.block_number() && after_prune(c, capacity).buffer[k].block_hash()
                != block.block_hash(),
    ensures
        indexes_agree(after_insert(c, capacity, block)),
        indexes_cover(after_insert(c, capacity, block)),
        keys_distinct(after_insert(c, capacity, block).buffer),
        after_insert(c, capacity, block).by_number.dom() == buffer_numbers(
            after_insert(c, capacity, block).buffer,
        ),
        after_insert(c, capacity, block).by_hash.dom() == buffer_hashes(
            after_insert(c, capacity, block).buffer,
        ),
{
    let p = after_prune(c, capacity);
    let a = after_insert(c, capacity, block);
    let full = c.buffer.len() >= capacity && c.buffer.len() > 0;
    lemma_insert_keeps_indexes_agree(c, capacity, block);
    assert forall|i: int| 0 <= i < p.buffer.len() implies {
        &&& p.by_number.contains_key(#[trigger] p.buffer[i].block_number())
        &&& p.by_number[p.buffer[i].block_number()] == p.buffer[i]
        &&& p.by_hash.contains_key(p.buffer[i].block_hash())
        &&& p.by_hash[p.buffer[i].block_hash()] == p.buffer[i]
    } by {
        if full {
            assert(p.buffer[i] == c.buffer[i + 1]);
            assert(c.buffer[0].block_number() != c.buffer[i + 1].block_number());
            assert(c.buffer[0].block_hash() != c.buffer[i + 1].block_hash());
        } else {
            assert(p.buffer[i] == c.buffer[i]);
        }
    }
    assert forall|i: int| 0 <= i < a.buffer.len() implies {
        &&& a.by_number.contains_key(#[trigger] a.buffer[i].block_number())
        &&& a.by_number[a.buffer[i].block_number()] == a.buffer[i]
        &&& a.by_hash.contains_key(a.buffer[i].block_hash())
        &&& a.by_hash[a.buffer[i].block_hash()] == a.buffer[i]
    } by {
        if i < p.buffer.len() {
            assert(a.buffer[i] == p.buffer[i]);
            assert(p.buffer[i].block_number() != block.block_number());
        } else {
            assert(a.buffer[i] == Arc::new(block));
        }
    }
    assert forall|i: int, j: int| 0 <= i < j < a.buffer.len() implies #[trigger] a.buffer[i].block_number()
        != #[trigger] a.buffer[j].block_number() && a.buffer[i].block_hash() != a.buffer[j].block_hash() by {
        assert(a.buffer[i] == p.buffer[i]);
        if j < p.buffer.len() {
            assert(a.buffer[j] == p.buffer[j]);
            if full {
                assert(p.buffer[i] == c.buffer[i + 1]);
                assert(p.buffer[j] == c.buffer[j + 1]);
            } else {
                assert(p.buffer[i] == c.buffer[i]);
                assert(p.buffer[j] == c.buffer[j]);
            }
        } else {
            assert(a.buffer[j] == Arc::new(block));
        }
    }
    lemma_indexes_match_buffer(a);
}

/// A receipt stored with a block is found by its transaction hash unless a
/// later receipt of the same block has the same hash.
pub proof fn lemma_receipt_read_after_write<T, D>(
    m: Map<H256, ReceiptInfo<D>>,
    rs: Seq<(T, ReceiptInfo<D>)>,
    i: int,
)
    requires
        0 <= i < rs.len(),
        forall|j: int| i < j < rs.len() ==> rs[j].1.transaction_hash != rs[i].1.transaction_hash,
    ensures
        with_receipts(m, rs).contains_key(rs[i].1.transaction_hash),
        with_receipts(m, rs)[rs[i].1.transaction_hash] == rs[i].1,
        with_signed_txs(Map::<H256, T>::empty(), rs).contains_key(rs[i].1.transaction_hash),
        with_signed_txs(Map::<H256, T>::empty(), rs)[rs[i].1.transaction_hash] == rs[i].0,
    decreases rs.len(),
{
    if i < rs.len() - 1 {
        let prefix = rs.drop_last();
        lemma_receipt_read_after_write(m, prefix, i);
    }
}

/// When a block's receipts have distinct transaction hashes, every entry of
/// the block's index leads to a stored receipt of one of them, and that
/// receipt carries the index it is filed under. (Two receipts with one hash
/// and different indexes leave the earlier index pointing at the later
/// receipt.)
pub proof fn lemma_index_finds_its_receipt<T, D>(m: Map<H256, ReceiptInfo<D>>, rs: Seq<(T, ReceiptInfo<D>)>)
    requires
        forall|a: int, b: int|
            0 <= a < b < rs.len() ==> #[trigger] rs[a].1.transaction_hash != #[trigger] rs[b].1.transaction_hash,
    ensures
        forall|idx: U256| #[trigger]
            index_map(rs).contains_key(idx) ==> {
                &&& with_receipts(m, rs).contains_key(index_map(rs)[idx])
                &&& with_receipts(m, rs)[index_map(rs)[idx]].transaction_index == idx
                &&& exists|k: int|
                    0 <= k < rs.len() && #[trigger] rs[k].1.transaction_hash == index_map(rs)[idx]
            },
    decreases rs.len(),
{
    if rs.len() > 0 {
        let prefix = rs.drop_last();
        let last = rs.last().1;
        assert forall|a: int, b: int| 0 <= a < b < prefix.len() implies #[trigger] prefix[a].1.transaction_hash
            != #[trigger] prefix[b].1.transaction_hash by {
            assert(prefix[a] == rs[a]);
            assert(prefix[b] == rs[b]);
        }
        lemma_index_finds_its_receipt(m, prefix);
        assert forall|idx: U256| #[trigger] index_map(rs).contains_key(idx) implies {
            &&& with_receipts(m, rs).contains_key(index_map(rs)[idx])
            &&& with_receipts(m, rs)[index_map(rs)[idx]].transaction_index == idx
            &&& exists|k: int| 0 <= k < rs.len() && #[trigger] rs[k].1.transaction_hash == index_map(rs)[idx]
        } by {
            if idx == last.transaction_index {
                assert(rs[rs.len() - 1].1.transaction_hash == index_map(rs)[idx]);
            } else {
                assert(index_map(prefix).contains_key(idx));
                let h = index_map(prefix)[idx];
                let k = choose|k: int| 0 <= k < prefix.len() && #[trigger] prefix[k].1.transaction_hash == h;
                assert(rs[k] == prefix[k]);
                assert(rs[k].1.transaction_hash != rs[rs.len() - 1].1.transaction_hash);
                assert(rs[k].1.transaction_hash == index_map(rs)[idx]);
            }
        }
    }
}

/// The transaction hashes of a block's receipts.
pub open spec fn receipt_hashes<T, D>(rs: Seq<(T, ReceiptInfo<D>)>) -> Set<H256> {
    Set::new(|h: H256| exists|k: int| 0 <= k < rs.len() && #[trigger] rs[k].1.transaction_hash == h)
}

/// The transaction indexes of a block's receipts.
pub open spec fn receipt_indexes<T, D>(rs: Seq<(T, ReceiptInfo<D>)>) -> Set<U256> {
    Set::new(|i: U256| exists|k: int| 0 <= k < rs.len() && #[trigger] rs[k].1.transaction_index == i)
}

proof fn lemma_hashes_of_prefix<T, D>(rs: Seq<(T, ReceiptInfo<D>)>)
    requires
        rs.len() > 0,
    ensures
        receipt_hashes(rs) == receipt_hashes(rs.drop_last()).insert(rs.last().1.transaction_hash),
        receipt_indexes(rs) == receipt_indexes(rs.drop_last()).insert(rs.last().1.transaction_index),
{
    let pre = rs.drop_last();
    assert forall|h: H256| receipt_hashes(rs).contains(h) implies receipt_hashes(pre).insert(
        rs.last().1.transaction_hash,
    ).contains(h) by {
        let k = choose|k: int| 0 <= k < rs.len() && #[trigger] rs[k].1.transaction_hash == h;
        if k < rs.len() - 1 {
            assert(pre[k] == rs[k]);
        }
    }
    assert forall|h: H256| receipt_hashes(pre).insert(rs.last().1.transaction_hash).contains(h) implies receipt_hashes(
        rs,
    ).contains(h) by {
        if h != rs.last().1.transaction_hash {
            let k = choose|k: int| 0 <= k < pre.len() && #[trigger] pre[k].1.transaction_hash == h;
            assert(rs[k] == pre[k]);
        } else {
            assert(rs[rs.len() - 1].1.transaction_hash == h);
        }
    }
    assert(receipt_hashes(rs) =~= receipt_hashes(pre).insert(rs.last().1.transaction_hash));
    assert forall|i: U256| receipt_indexes(rs).contains(i) implies receipt_indexes(pre).insert(
        rs.last().1.transaction_index,
    ).contains(i) by {
        let k = choose|k: int| 0 <= k < rs.len() && #[trigger] rs[k].1.transaction_index == i;
        if k < rs.len() - 1 {
            assert(pre[k] == rs[k]);
        }
    }
    assert forall|i: U256| receipt_indexes(pre).insert(rs.last().1.transaction_index).contains(i) implies receipt_indexes(
        rs,
    ).contains(i) by {
        if i != rs.last().1.transaction_index {
            let k = choose|k: int| 0 <= k < pre.len() && #[trigger] pre[k].1.transaction_index == i;
            assert(rs[k] == pre[k]);
        } else {
            assert(rs[rs.len() - 1].1.transaction_index == i);
        }
    }
    assert(receipt_indexes(rs) =~= receipt_indexes(pre).insert(rs.last().1.transaction_index));
}

/// Storing a block's receipts and signed transactions adds exactly their
/// transaction hashes and leaves every other entry as it was; the block's
/// index holds exactly their transaction indexes.
proof fn lemma_store_receipts<T, D>(
    m: Map<H256, ReceiptInfo<D>>,
    sm: Map<H256, T>,
    rs: Seq<(T, ReceiptInfo<D>)>,
)
    ensures
        with_receipts(m, rs).dom() == m.dom().union(receipt_hashes(rs)),
        with_signed_txs(sm, rs).dom() == sm.dom().union(receipt_hashes(rs)),
        index_map(rs).dom() == receipt_indexes(rs),
        forall|h: H256|
            m.contains_key(h) && !receipt_hashes(rs).contains(h) ==> #[trigger] with_receipts(m, rs)[h]
                == m[h],
    decreases rs.len(),
{
    if rs.len() > 0 {
        let pre = rs.drop_last();
        lemma_store_receipts(m, sm, pre);
        lemma_hashes_of_prefix(rs);
        assert(with_receipts(m, rs).dom() =~= m.dom().union(receipt_hashes(rs)));
        assert(with_signed_txs(sm, rs).dom() =~= sm.dom().union(receipt_hashes(rs)));
        assert(index_map(rs).dom() =~= receipt_indexes(rs));
    } else {
        assert(receipt_hashes(rs) =~= Set::<H256>::empty());
        assert(receipt_indexes(rs) =~= Set::<U256>::empty());
        assert(m.dom().union(receipt_hashes(rs)) =~= m.dom());
        assert(sm.dom().union(receipt_hashes(rs)) =~= sm.dom());
        assert(index_map(rs).dom() =~= Set::<U256>::empty());
    }
}

/// With distinct transaction indexes, a block's index files each receipt's
/// transaction hash under that receipt's index.
proof fn lemma_index_of_receipt<T, D>(rs: Seq<(T, ReceiptInfo<D>)>, k: int)
    requires
        0 <= k < rs.len(),
        forall|a: int, b: int|
            0 <= a < b < rs.len() ==> #[trigger] rs[a].1.transaction_index != #[trigger] rs[b].1.transaction_index,
    ensures
        index_map(rs).contains_key(rs[k].1.transaction_index),
        index_map(rs)[rs[k].1.transaction_index] == rs[k].1.transaction_hash,
    decreases rs.len(),
{
    if k < rs.len() - 1 {
        let pre = rs.drop_last();
        assert forall|a: int, b: int| 0 <= a < b < pre.len() implies #[trigger] pre[a].1.transaction_index
            != #[trigger] pre[b].1.transaction_index by {
            assert(pre[a] == rs[a]);
            assert(pre[b] == rs[b]);
        }
        assert(pre[k] == rs[k]);
        lemma_index_of_receipt(pre, k);
        assert(rs[k].1.transaction_index != rs[rs.len() - 1].1.transaction_index);
    }
}

/// The block with hash `b` files a transaction hash under index `i`.
pub open spec fn indexed<B, T, D>(c: ReceiptCacheView<B, T, D>, b: H256, i: U256) -> bool {
    c.tx_hashes.contains_key(b) && c.tx_hashes[b].contains_key(i)
}

/// The transaction hashes filed in the index of some block.
pub open spec fn indexed_tx_hashes<B, T, D>(c: ReceiptCacheView<B, T, D>) -> Set<H256> {
    Set::new(|h: H256| exists|b: H256, i: U256| #[trigger] indexed(c, b, i) && c.tx_hashes[b][i] == h)
}

/// The receipt maps agree with the block indexes: the receipts and the
/// signed transactions are exactly those of the transactions the indexes
/// file, each receipt is stored under its own hash and carries the index it is
/// filed under, and no transaction is filed by two blocks.
pub open spec fn receipt_maps_agree<B, T, D>(c: ReceiptCacheView<B, T, D>) -> bool {
    &&& forall|b: H256, i: U256| #[trigger]
        indexed(c, b, i) ==> {
            &&& c.receipts.contains_key(c.tx_hashes[b][i])
            &&& c.receipts[c.tx_hashes[b][i]].transaction_index == i
        }
    &&& forall|h: H256| #[trigger] c.receipts.contains_key(h) ==> c.receipts[h].transaction_hash == h
    &&& c.receipts.dom() == indexed_tx_hashes(c)
    &&& c.signed_txs.dom() == indexed_tx_hashes(c)
    &&& forall|b1: H256, i1: U256, b2: H256, i2: U256|
        #[trigger] indexed(c, b1, i1) && #[trigger] indexed(c, b2, i2) && b1 != b2
            ==> c.tx_hashes[b1][i1] != c.tx_hashes[b2][i2]
}

/// The receipt cache is consistent: only cached blocks have an index, and the
/// receipt maps agree with the indexes.
pub open spec fn receipts_consistent<B: BlockInfo, T, D>(c: ReceiptCacheView<B, T, D>) -> bool {
    &&& forall|b: H256| #[trigger]
        c.tx_hashes.contains_key(b) ==> buffer_hashes(c.blocks.buffer).contains(b)
    &&& receipt_maps_agree(c)
}

/// The receipt maps after the pruning step of an insertion.
pub open spec fn pruned_receipts<B: BlockInfo, T, D>(c: ReceiptCacheView<B, T, D>, capacity: int) -> ReceiptCacheView<
    B,
    T,
    D,
> {
    if c.blocks.buffer.len() >= capacity && c.blocks.buffer.len() > 0 {
        prune_receipts(c, c.blocks.buffer[0].block_hash())
    } else {
        c
    }
}

/// Pruning the oldest block keeps the receipt maps in agreement with the
/// indexes, which then only name blocks that stay cached.
proof fn lemma_prune_keeps_receipts_consistent<B: BlockInfo, T, D>(
    c: ReceiptCacheView<B, T, D>,
    capacity: int,
)
    requires
        receipts_consistent(c),
    ensures
        receipt_maps_agree(pruned_receipts(c, capacity)),
        forall|b: H256| #[trigger]
            pruned_receipts(c, capacity).tx_hashes.contains_key(b) ==> buffer_hashes(
                after_prune(c.blocks, capacity).buffer,
            ).contains(b),
        pruned_receipts(c, capacity).receipts.dom().subset_of(c.receipts.dom()),
        pruned_receipts(c, capacity).blocks == c.blocks,
{
    let p = pruned_receipts(c, capacity);
    let full = c.blocks.buffer.len() >= capacity && c.blocks.buffer.len() > 0;
    if full {
        let ph = c.blocks.buffer[0].block_hash();
        assert forall|b: H256| #[trigger] p.tx_hashes.contains_key(b) implies buffer_hashes(
            after_prune(c.blocks, capacity).buffer,
        ).contains(b) by {
            assert(c.tx_hashes.contains_key(b));
            let j = choose|j: int| 0 <= j < c.blocks.buffer.len() && #[trigger] c.blocks.buffer[j].block_hash() == b;
            assert(j != 0);
            assert(after_prune(c.blocks, capacity).buffer[j - 1] == c.blocks.buffer[j]);
        }
        if c.tx_hashes.contains_key(ph) {
            let v = c.tx_hashes[ph].values();
            assert forall|b: H256, i: U256| #[trigger] indexed(p, b, i) implies !v.contains(
                c.tx_hashes[b][i],
            ) && indexed(c, b, i) && p.tx_hashes[b][i] == c.tx_hashes[b][i] by {
                assert(b != ph);
                assert(p.tx_hashes[b] == c.tx_hashes[b]);
                assert(indexed(c, b, i));
                if v.contains(c.tx_hashes[b][i]) {
                    let i2 = choose|i2: U256| c.tx_hashes[ph].contains_key(i2) && c.tx_hashes[ph][i2]
                        == c.tx_hashes[b][i];
                    assert(indexed(c, ph, i2));
                    assert(c.tx_hashes[ph][i2] != c.tx_hashes[b][i]);
                }
            }
            assert forall|h: H256| c.receipts.contains_key(h) && !v.contains(h) implies indexed_tx_hashes(
                p,
            ).contains(h) by {
                assert(indexed_tx_hashes(c).contains(h));
                let (b, i) = choose|b: H256, i: U256| #[trigger] indexed(c, b, i) && c.tx_hashes[b][i] == h;
                if b == ph {
                    assert(c.tx_hashes[ph].contains_key(i));
                }
                assert(indexed(p, b, i));
            }
            assert(p.receipts.dom() =~= indexed_tx_hashes(p));
            assert(p.signed_txs.dom() =~= indexed_tx_hashes(p));
            assert(p.receipts.dom().subset_of(c.receipts.dom()));
        } else {
            assert forall|b: H256, i: U256| #[trigger] indexed(p, b, i) implies indexed(c, b, i)
                && p.tx_hashes[b][i] == c.tx_hashes[b][i] by {}
            assert(p.tx_hashes =~= c.tx_hashes);
        }
    }
}

/// A block with receipts that the cache can take without losing track of a
/// receipt: its receipts have distinct transaction hashes and indexes, none
/// of those hashes is already stored, and its hash is not that of a cached
/// block that stays.
pub open spec fn receipts_fresh<B: BlockInfo, T, D>(
    c: ReceiptCacheView<B, T, D>,
    capacity: int,
    block: B,
    rs: Seq<(T, ReceiptInfo<D>)>,
) -> bool {
    &&& forall|a: int, b: int|
        #![trigger rs[a], rs[b]]
        0 <= a < b < rs.len() ==> rs[a].1.transaction_hash != rs[b].1.transaction_hash
            && rs[a].1.transaction_index != rs[b].1.transaction_index
    &&& forall|k: int| 0 <= k < rs.len() ==> !c.receipts.contains_key(#[trigger] rs[k].1.transaction_hash)
    &&& forall|k: int|
        0 <= k < after_prune(c.blocks, capacity).buffer.len() ==> #[trigger] after_prune(
            c.blocks,
            capacity,
        ).buffer[k].block_hash() != block.block_hash()
}

/// An insertion keeps the receipt cache consistent: afterwards only cached
/// blocks are indexed, the receipts and signed transactions are exactly those
/// of the transactions the indexes file (so those of the pruned block are
/// gone), and a receipt found by block and index carries that index. The new
/// block is indexed, under exactly its receipts' indexes, if and only if it
/// has receipts; every other block keeps its index until it is pruned.
pub proof fn lemma_insert_keeps_receipts_consistent<B: BlockInfo, T, D>(
    c: ReceiptCacheView<B, T, D>,
    capacity: int,
    block: B,
    rs: Seq<(T, ReceiptInfo<D>)>,
)
    requires
        receipts_consistent(c),
        receipts_fresh(c, capacity, block, rs),
    ensures
        receipts_consistent(after_insert_receipts(c, capacity, block, rs)),
        after_insert_receipts(c, capacity, block, rs).tx_hashes.contains_key(block.block_hash()) <==> rs.len()
            > 0,
        rs.len() > 0 ==> after_insert_receipts(c, capacity, block, rs).tx_hashes[block.block_hash()]
            == index_map(rs),
        rs.len() > 0 ==> after_insert_receipts(c, capacity, block, rs).tx_hashes[block.block_hash()].dom()
            == receipt_indexes(rs),
        forall|b: H256|
            b != block.block_hash() ==> (#[trigger] after_insert_receipts(
                c,
                capacity,
                block,
                rs,
            ).tx_hashes.contains_key(b) <==> c.tx_hashes.contains_key(b) && !(c.blocks.buffer.len()
                >= capacity && c.blocks.buffer.len() > 0 && b == c.blocks.buffer[0].block_hash())),
        forall|b: H256|
            b != block.block_hash() && #[trigger] after_insert_receipts(
                c,
                capacity,
                block,
                rs,
            ).tx_hashes.contains_key(b) ==> after_insert_receipts(c, capacity, block, rs).tx_hashes[b]
                == c.tx_hashes[b],
{
    let p = pruned_receipts(c, capacity);
    let a = after_insert_receipts(c, capacity, block, rs);
    let bh = block.block_hash();
    let pb = after_prune(c.blocks, capacity).buffer;
    lemma_prune_keeps_receipts_consistent(c, capacity);
    assert(!p.tx_hashes.contains_key(bh)) by {
        if p.tx_hashes.contains_key(bh) {
            assert(buffer_hashes(pb).contains(bh));
            let j = choose|j: int| 0 <= j < pb.len() && #[trigger] pb[j].block_hash() == bh;
        }
    }
    assert forall|b: H256| #[trigger] a.tx_hashes.contains_key(b) implies buffer_hashes(
        a.blocks.buffer,
    ).contains(b) by {
        if b == bh {
            assert(a.blocks.buffer[a.blocks.buffer.len() - 1].block_hash() == bh);
        } else {
            assert(buffer_hashes(pb).contains(b));
            let j = choose|j: int| 0 <= j < pb.len() && #[trigger] pb[j].block_hash() == b;
            assert(a.blocks.buffer[j] == pb[j]);
        }
    }
    if rs.len() > 0 {
        lemma_store_receipts(p.receipts, p.signed_txs, rs);
        assert forall|h: H256| p.receipts.contains_key(h) implies !receipt_hashes(rs).contains(h) by {
            if receipt_hashes(rs).contains(h) {
                let k = choose|k: int| 0 <= k < rs.len() && #[trigger] rs[k].1.transaction_hash == h;
                assert(!c.receipts.contains_key(rs[k].1.transaction_hash));
            }
        }
        assert forall|k: int| 0 <= k < rs.len() implies {
            &&& a.receipts.contains_key(#[trigger] rs[k].1.transaction_hash)
            &&& a.receipts[rs[k].1.transaction_hash] == rs[k].1
            &&& index_map(rs).contains_key(rs[k].1.transaction_index)
            &&& index_map(rs)[rs[k].1.transaction_index] == rs[k].1.transaction_hash
        } by {
            lemma_receipt_read_after_write(p.receipts, rs, k);
            lemma_index_of_receipt(rs, k);
        }
        assert forall|b: H256, i: U256| #[trigger] indexed(a, b, i) implies {
            &&& a.receipts.contains_key(a.tx_hashes[b][i])
            &&& a.receipts[a.tx_hashes[b][i]].transaction_index == i
            &&& (b == bh ==> receipt_hashes(rs).contains(a.tx_hashes[b][i]))
            &&& (b != bh ==> indexed(p, b, i) && a.tx_hashes[b][i] == p.tx_hashes[b][i]
                && p.receipts.contains_key(a.tx_hashes[b][i]))
        } by {
            if b == bh {
                assert(receipt_indexes(rs).contains(i));
                let k = choose|k: int| 0 <= k < rs.len() && #[trigger] rs[k].1.transaction_index == i;
                assert(a.receipts.contains_key(rs[k].1.transaction_hash));
            } else {
                assert(indexed(p, b, i));
            }
        }
        assert forall|h: H256| #[trigger] a.receipts.contains_key(h) implies a.receipts[h].transaction_hash
            == h by {
            if receipt_hashes(rs).contains(h) {
                let k = choose|k: int| 0 <= k < rs.len() && #[trigger] rs[k].1.transaction_hash == h;
                assert(a.receipts.contains_key(rs[k].1.transaction_hash));
            }
        }
        assert forall|h: H256| a.receipts.contains_key(h) implies indexed_tx_hashes(a).contains(h) by {
            if receipt_hashes(rs).contains(h) {
                let k = choose|k: int| 0 <= k < rs.len() && #[trigger] rs[k].1.transaction_hash == h;
                assert(a.receipts.contains_key(rs[k].1.transaction_hash));
                assert(indexed(a, bh, rs[k].1.transaction_index));
            } else {
                assert(indexed_tx_hashes(p).contains(h));
                let (b, i) = choose|b: H256, i: U256| #[trigger] indexed(p, b, i) && p.tx_hashes[b][i] == h;
                assert(indexed(a, b, i));
            }
        }
        assert forall|h: H256| indexed_tx_hashes(a).contains(h) implies a.receipts.contains_key(h) by {
            let (b, i) = choose|b: H256, i: U256| #[trigger] indexed(a, b, i) && a.tx_hashes[b][i] == h;
        }
        assert(a.receipts.dom() =~= indexed_tx_hashes(a));
        assert(a.signed_txs.dom() =~= a.receipts.dom());
        assert forall|b1: H256, i1: U256, b2: H256, i2: U256|
            #[trigger] indexed(a, b1, i1) && #[trigger] indexed(a, b2, i2) && b1 != b2 implies a.tx_hashes[b1][i1]
            != a.tx_hashes[b2][i2] by {
            if b1 != bh && b2 != bh {
                assert(indexed(p, b1, i1) && indexed(p, b2, i2));
            }
        }
    } else {
        assert(a.tx_hashes == p.tx_hashes);
        assert(a.receipts == p.receipts);
        assert(a.signed_txs == p.signed_txs);
        assert forall|b: H256, i: U256| #[trigger] indexed(a, b, i) implies indexed(p, b, i) by {}
        assert forall|b: H256, i: U256| #[trigger] indexed(p, b, i) implies indexed(a, b, i) by {}
        assert(indexed_tx_hashes(a) =~= indexed_tx_hashes(p));
        assert forall|b1: H256, i1: U256, b2: H256, i2: U256|
            #[trigger] indexed(a, b1, i1) && #[trigger] indexed(a, b2, i2) && b1 != b2 implies a.tx_hashes[b1][i1]
            != a.tx_hashes[b2][i2] by {
            assert(indexed(p, b1, i1) && indexed(p, b2, i2));
        }
    }
}

/// The empty receipt cache.
pub open spec fn empty_receipt_cache<B, T, D>() -> ReceiptCacheView<B, T, D> {
    ReceiptCacheView {
        blocks: CacheView { buffer: Seq::empty(), by_number: Map::empty(), by_hash: Map::empty() },
        receipts: Map::empty(),
        signed_txs: Map::empty(),
        tx_hashes: Map::empty(),
    }
}

/// The cache after inserting blocks with their receipts, in order.
pub open spec fn insert_all<B: BlockInfo, T, D>(
    c: ReceiptCacheView<B, T, D>,
    capacity: int,
    steps: Seq<(B, Seq<(T, ReceiptInfo<D>)>)>,
) -> ReceiptCacheView<B, T, D>
    decreases steps.len(),
{
    if steps.len() == 0 {
        c
    } else {
        after_insert_receipts(insert_all(c, capacity, steps.drop_last()), capacity, steps.last().0, steps.last().1)
    }
}

/// Every insertion of the sequence is fresh for the cache it goes into: its
/// receipts are fresh, and its block's number and hash are not those of a
/// cached block that stays.
pub open spec fn inserts_fresh<B: BlockInfo, T, D>(
    c: ReceiptCacheView<B, T, D>,
    capacity: int,
    steps: Seq<(B, Seq<(T, ReceiptInfo<D>)>)>,
) -> bool
    decreases steps.len(),
{
    if steps.len() == 0 {
        true
    } else {
        let d = insert_all(c, capacity, steps.drop_last());
        let block = steps.last().0;
        &&& inserts_fresh(c, capacity, steps.drop_last())
        &&& receipts_fresh(d, capacity, block, steps.last().1)
        &&& forall|k: int|
            0 <= k < after_prune(d.blocks, capacity).buffer.len() ==> #[trigger] after_prune(
                d.blocks,
                capacity,
            ).buffer[k].block_number() != block.block_number()
    }
}

/// How many of `n` inserted blocks a cache of this capacity holds.
pub open spec fn window(n: int, capacity: int) -> int {
    if n <= capacity {
        n
    } else {
        capacity
    }
}

/// The `j`-th insertion among those whose blocks the cache holds, oldest first.
pub open spec fn held_step<B, T, D>(steps: Seq<(B, Seq<(T, ReceiptInfo<D>)>)>, capacity: int, j: int) -> (
    B,
    Seq<(T, ReceiptInfo<D>)>,
) {
    steps[steps.len() - window(steps.len() as int, capacity) + j]
}

/// Starting from the empty cache, a run of fresh insertions leaves a cache
/// that holds the last `capacity` blocks inserted, oldest first, with both
/// block indexes covering exactly those blocks, and whose receipt cache is
/// consistent: a block is indexed if and only if it is held and was inserted
/// with receipts, and then under exactly its receipts' indexes.
pub proof fn lemma_inserts_keep_caches_consistent<B: BlockInfo, T, D>(
    capacity: int,
    steps: Seq<(B, Seq<(T, ReceiptInfo<D>)>)>,
)
    requires
        capacity >= 1,
        inserts_fresh(empty_receipt_cache(), capacity, steps),
    ensures
        ({
            let c = insert_all(empty_receipt_cache(), capacity, steps);
            let w = window(steps.len() as int, capacity);
            &&& c.blocks.buffer.len() == w
            &&& forall|j: int| 0 <= j < w ==> #[trigger] c.blocks.buffer[j] == Arc::new(held_step(steps, capacity, j).0)
            &&& indexes_agree(c.blocks)
            &&& indexes_cover(c.blocks)
            &&& keys_distinct(c.blocks.buffer)
            &&& c.blocks.by_number.dom() == buffer_numbers(c.blocks.buffer)
            &&& c.blocks.by_hash.dom() == buffer_hashes(c.blocks.buffer)
            &&& receipts_consistent(c)
            &&& forall|j: int|
                0 <= j < w ==> (c.tx_hashes.contains_key(#[trigger] held_step(steps, capacity, j).0.block_hash())
                    <==> held_step(steps, capacity, j).1.len() > 0)
            &&& forall|j: int|
                0 <= j < w && #[trigger] held_step(steps, capacity, j).1.len() > 0 ==> c.tx_hashes[held_step(
                    steps,
                    capacity,
                    j,
                ).0.block_hash()] == index_map(held_step(steps, capacity, j).1)
        }),
    decreases steps.len(),
{
    let c = insert_all(empty_receipt_cache(), capacity, steps);
    let w = window(steps.len() as int, capacity);
    if steps.len() == 0 {
        let e = empty_receipt_cache::<B, T, D>();
        assert(e.blocks.by_number.dom() =~= buffer_numbers(e.blocks.buffer));
        assert(e.blocks.by_hash.dom() =~= buffer_hashes(e.blocks.buffer));
        assert(indexed_tx_hashes(e) =~= Set::<H256>::empty());
        assert(e.receipts.dom() =~= Set::<H256>::empty());
        assert(e.signed_txs.dom() =~= Set::<H256>::empty());
    } else {
        let prev_steps = steps.drop_last();
        lemma_inserts_keep_caches_consistent(capacity, prev_steps);
        let d = insert_all(empty_receipt_cache(), capacity, prev_steps);
        let block = steps.last().0;
        let rs = steps.last().1;
        let pw = window(prev_steps.len() as int, capacity);
        lemma_indexes_cover_the_buffer(d.blocks, capacity, block);
        lemma_insert_keeps_receipts_consistent(d, capacity, block, rs);
        let full = d.blocks.buffer.len() >= capacity && d.blocks.buffer.len() > 0;
        assert forall|j: int| 0 <= j < w implies #[trigger] c.blocks.buffer[j] == Arc::new(
            held_step(steps, capacity, j).0,
        ) by {
            if j == w - 1 {
                assert(held_step(steps, capacity, j) == steps.last());
            } else if full {
                assert(c.blocks.buffer[j] == d.blocks.buffer[j + 1]);
                assert(d.blocks.buffer[j + 1] == Arc::new(held_step(prev_steps, capacity, j + 1).0));
                assert(held_step(prev_steps, capacity, j + 1) == held_step(steps, capacity, j));
            } else {
                assert(c.blocks.buffer[j] == d.blocks.buffer[j]);
                assert(d.blocks.buffer[j] == Arc::new(held_step(prev_steps, capacity, j).0));
                assert(held_step(prev_steps, capacity, j) == held_step(steps, capacity, j));
            }
        }
        assert forall|j: int| 0 <= j < w implies (c.tx_hashes.contains_key(
            #[trigger] held_step(steps, capacity, j).0.block_hash(),
        ) <==> held_step(steps, capacity, j).1.len() > 0) && (held_step(steps, capacity, j).1.len() > 0
            ==> c.tx_hashes[held_step(steps, capacity, j).0.block_hash()] == index_map(
            held_step(steps, capacity, j).1,
        )) by {
            if j == w - 1 {
                assert(held_step(steps, capacity, j) == steps.last());
            } else {
                let pj = if full { j + 1 } else { j };
                assert(held_step(prev_steps, capacity, pj) == held_step(steps, capacity, j));
                assert(c.blocks.buffer[j] == d.blocks.buffer[pj]);
                assert(d.blocks.buffer[pj] == Arc::new(held_step(prev_steps, capacity, pj).0));
                let pb = after_prune(d.blocks, capacity).buffer;
                assert(pb[j] == d.blocks.buffer[pj]);
                assert(pb[j].block_hash() != block.block_hash());
                if full {
                    assert(d.blocks.buffer[0].block_hash() != d.blocks.buffer[pj].block_hash());
                }
            }
        }
    }
}

/// Each index entry of a block names the transaction hash of one of its
/// receipts.
proof fn lemma_index_names_a_receipt<T, D>(rs: Seq<(T, ReceiptInfo<D>)>, i: U256)
    requires
        index_map(rs).contains_key(i),
    ensures
        receipt_hashes(rs).contains(index_map(rs)[i]),
    decreases rs.len(),
{
    let pre = rs.drop_last();
    if i == rs.last().1.transaction_index {
        assert(rs[rs.len() - 1].1.transaction_hash == index_map(rs)[i]);
    } else {
        lemma_index_names_a_receipt(pre, i);
        let k = choose|k: int| 0 <= k < pre.len() && #[trigger] pre[k].1.transaction_hash == index_map(pre)[i];
        assert(rs[k] == pre[k]);
    }
}

/// In a run of fresh insertions, each block's receipts have distinct
/// transaction indexes.
proof fn lemma_fresh_indexes_distinct<B: BlockInfo, T, D>(
    c: ReceiptCacheView<B, T, D>,
    capacity: int,
    steps: Seq<(B, Seq<(T, ReceiptInfo<D>)>)>,
    m: int,
)
    requires
        inserts_fresh(c, capacity, steps),
        0 <= m < steps.len(),
    ensures
        forall|a: int, b: int|
            #![trigger steps[m].1[a], steps[m].1[b]]
            0 <= a < b < steps[m].1.len() ==> steps[m].1[a].1.transaction_index != steps[m].1[b].1.transaction_index,
    decreases steps.len(),
{
    if m < steps.len() - 1 {
        lemma_fresh_indexes_distinct(c, capacity, steps.drop_last(), m);
        assert(steps.drop_last()[m] == steps[m]);
    }
}

/// The transaction hashes of the receipts of the blocks the cache holds.
pub open spec fn held_tx_hashes<B, T, D>(steps: Seq<(B, Seq<(T, ReceiptInfo<D>)>)>, capacity: int) -> Set<
    H256,
> {
    Set::new(
        |h: H256|
            exists|j: int, k: int|
                0 <= j < window(steps.len() as int, capacity) && 0 <= k < held_step(steps, capacity, j).1.len()
                    && #[trigger] held_step(steps, capacity, j).1[k].1.transaction_hash == h,
    )
}

/// Starting from the empty cache, after a run of fresh insertions the blocks
/// with a receipt index are exactly the held blocks inserted with receipts,
/// and the receipts and the signed transactions are exactly those of the
/// transactions of these blocks: those of pruned blocks are gone.
pub proof fn lemma_inserts_keep_the_held_receipts<B: BlockInfo, T, D>(
    capacity: int,
    steps: Seq<(B, Seq<(T, ReceiptInfo<D>)>)>,
)
    requires
        capacity >= 1,
        inserts_fresh(empty_receipt_cache(), capacity, steps),
    ensures
        forall|h: H256|
            #[trigger] insert_all(empty_receipt_cache(), capacity, steps).tx_hashes.contains_key(h) <==> exists|j: int|
                0 <= j < window(steps.len() as int, capacity) && #[trigger] held_step(steps, capacity, j).0.block_hash()
                    == h && held_step(steps, capacity, j).1.len() > 0,
        insert_all(empty_receipt_cache(), capacity, steps).receipts.dom() == held_tx_hashes(steps, capacity),
        insert_all(empty_receipt_cache(), capacity, steps).signed_txs.dom() == held_tx_hashes(steps, capacity),
{
    let c = insert_all(empty_receipt_cache(), capacity, steps);
    let w = window(steps.len() as int, capacity);
    lemma_inserts_keep_caches_consistent(capacity, steps);
    assert forall|h: H256| #[trigger] c.tx_hashes.contains_key(h) implies exists|j: int|
        0 <= j < w && #[trigger] held_step(steps, capacity, j).0.block_hash() == h && held_step(
            steps,
            capacity,
            j,
        ).1.len() > 0 by {
        assert(buffer_hashes(c.blocks.buffer).contains(h));
        let j = choose|j: int| 0 <= j < c.blocks.buffer.len() && #[trigger] c.blocks.buffer[j].block_hash() == h;
        assert(c.blocks.buffer[j] == Arc::new(held_step(steps, capacity, j).0));
    }
    assert forall|h: H256| c.receipts.contains_key(h) implies held_tx_hashes(steps, capacity).contains(h) by {
        assert(indexed_tx_hashes(c).contains(h));
        let (b, i) = choose|b: H256, i: U256| #[trigger] indexed(c, b, i) && c.tx_hashes[b][i] == h;
        assert(c.tx_hashes.contains_key(b));
        let j = choose|j: int|
            0 <= j < w && #[trigger] held_step(steps, capacity, j).0.block_hash() == b && held_step(
                steps,
                capacity,
                j,
            ).1.len() > 0;
        let rs = held_step(steps, capacity, j).1;
        lemma_index_names_a_receipt(rs, i);
        let k = choose|k: int| 0 <= k < rs.len() && #[trigger] rs[k].1.transaction_hash == index_map(rs)[i];
        assert(held_step(steps, capacity, j).1[k].1.transaction_hash == h);
    }
    assert forall|h: H256| held_tx_hashes(steps, capacity).contains(h) implies c.receipts.contains_key(h) by {
        let (j, k) = choose|j: int, k: int|
            0 <= j < w && 0 <= k < held_step(steps, capacity, j).1.len() && #[trigger] held_step(
                steps,
                capacity,
                j,
            ).1[k].1.transaction_hash == h;
        let m = steps.len() - w + j;
        let rs = held_step(steps, capacity, j).1;
        assert(rs == steps[m].1);
        lemma_fresh_indexes_distinct(empty_receipt_cache(), capacity, steps, m);
        assert forall|a: int, b: int|
            0 <= a < b < rs.len() implies #[trigger] rs[a].1.transaction_index != #[trigger] rs[b].1.transaction_index by {
            assert(rs[a] == steps[m].1[a]);
            assert(rs[b] == steps[m].1[b]);
        }
        lemma_index_of_receipt(rs, k);
        let b = held_step(steps, capacity, j).0.block_hash();
        assert(c.tx_hashes.contains_key(b));
        assert(indexed(c, b, rs[k].1.transaction_index));
        assert(indexed_tx_hashes(c).contains(h));
    }
    assert(c.receipts.dom() =~= held_tx_hashes(steps, capacity));
    assert(c.signed_txs.dom() =~= held_tx_hashes(steps, capacity));
}

} // verus!
