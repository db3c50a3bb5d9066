use frame_logic::block_info_provider::{BlockCache, BlockInfo};
use frame_logic::key_map::H256;

struct MockBlock {
    block_number: u32,
    block_hash: H256,
}

impl BlockInfo for MockBlock {
    fn block_hash(&self) -> H256 {
        self.block_hash
    }

    fn block_number(&self) -> u32 {
        self.block_number
    }

    fn hash(&self) -> H256 {
        self.block_hash
    }

    fn number(&self) -> u32 {
        self.block_number
    }
}

#[test]
fn cache_insert_works() {
    let mut cache = BlockCache::<2, MockBlock>::new();

    let pruned = cache.insert(MockBlock { block_number: 1, block_hash: H256([1; 32]) });
    assert_eq!(pruned, None);

    let pruned = cache.insert(MockBlock { block_number: 2, block_hash: H256([2; 32]) });
    assert_eq!(pruned, None);

    let pruned = cache.insert(MockBlock { block_number: 3, block_hash: H256([3; 32]) });
    assert_eq!(pruned, Some(H256([1; 32])));

    assert_eq!(cache.buffer_len(), 2);
    assert_eq!(cache.blocks_by_number_len(), 2);
    assert_eq!(cache.blocks_by_hash_len(), 2);
}

#[test]
fn cache_lookups_after_pruning() {
    let mut cache = BlockCache::<2, MockBlock>::new();
    for i in 1..=3u8 {
        cache.insert(MockBlock { block_number: i as u32, block_hash: H256([i; 32]) });
    }
    assert!(cache.block_by_number(1).is_none());
    assert!(cache.block_by_hash(&H256([1; 32])).is_none());
    assert_eq!(cache.block_by_number(2).map(|b| b.block_hash), Some(H256([2; 32])));
    assert_eq!(cache.block_by_hash(&H256([3; 32])).map(|b| b.block_number), Some(3));
    assert_eq!(cache.latest_block().map(|b| b.block_number), Some(3));
}

#[test]
fn cache_empty_has_no_latest_block() {
    let cache = BlockCache::<4, MockBlock>::new();
    assert!(cache.latest_block().is_none());
    assert_eq!(cache.buffer_len(), 0);
}

#[test]
fn cache_of_size_zero_keeps_one_block() {
    let mut cache = BlockCache::<0, MockBlock>::new();
    assert_eq!(cache.insert(MockBlock { block_number: 1, block_hash: H256([1; 32]) }), None);
    assert_eq!(
        cache.insert(MockBlock { block_number: 2, block_hash: H256([2; 32]) }),
        Some(H256([1; 32]))
    );
    assert_eq!(cache.buffer_len(), 1);
}

#[test]
fn cache_reinserted_number_is_dropped_with_the_older_block() {
    // Two blocks with the same number: pruning the older one drops the number
    // from the index even though the newer block is still cached.
    let mut cache = BlockCache::<2, MockBlock>::new();
    cache.insert(MockBlock { block_number: 5, block_hash: H256([1; 32]) });
    cache.insert(MockBlock { block_number: 5, block_hash: H256([2; 32]) });
    assert_eq!(cache.blocks_by_number_len(), 1);
    cache.insert(MockBlock { block_number: 6, block_hash: H256([3; 32]) });
    assert!(cache.block_by_number(5).is_none());
    assert!(cache.block_by_hash(&H256([2; 32])).is_some());
}

#[test]
fn distinct_blocks_are_all_indexed() {
    let mut cache = BlockCache::<3, MockBlock>::new();
    for i in 1..=5u8 {
        cache.insert(MockBlock { block_number: i.into(), block_hash: H256([i; 32]) });
        let held = u32::from(i).min(3);
        assert_eq!(cache.buffer_len(), held as usize);
        assert_eq!(cache.blocks_by_number_len(), held as usize);
        assert_eq!(cache.blocks_by_hash_len(), held as usize);
        for n in (u32::from(i) + 1 - held)..=u32::from(i) {
            assert_eq!(cache.block_by_number(n).unwrap().block_number, n);
            let h = H256([n as u8; 32]);
            assert_eq!(cache.block_by_hash(&h).unwrap().block_hash, h);
        }
    }
    assert!(cache.block_by_number(2).is_none());
    assert!(cache.block_by_hash(&H256([2; 32])).is_none());
}
