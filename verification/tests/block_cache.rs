use frame_logic::block_cache::{BlockCache, ReceiptInfo};
use frame_logic::block_info_provider::BlockInfo;
use frame_logic::key_map::{H256, U256};

struct MockBlock {
    block_number: u32,
    block_hash: H256,
}

impl BlockInfo for MockBlock {
    fn block_hash(&self) -> H256 {
        self.block_hash
    }

    fn block_number(&self) -> u32 {
        self.block_number
    }

    fn hash(&self) -> H256 {
        self.block_hash
    }

    fn number(&self) -> u32 {
        self.block_number
    }
}

impl MockBlock {
    fn receipt_infos(&self) -> Vec<((), ReceiptInfo<()>)> {
        vec![(
            (),
            ReceiptInfo {
                transaction_hash: self.hash(),
                transaction_index: U256([0; 4]),
                details: (),
            },
        )]
    }
}

#[test]
fn cache_insert_and_prune_works() {
    let mut cache = BlockCache::<2, MockBlock, (), ()>::new();

    for i in 1..=3u8 {
        let block = MockBlock { block_number: i.into(), block_hash: H256([i; 32]) };
        let receipts = block.receipt_infos();
        cache.insert(block, receipts)
    }

    assert_eq!(cache.buffer_len(), 2);
    assert_eq!(cache.blocks_by_number_len(), 2);
    assert_eq!(cache.blocks_by_hash_len(), 2);
    assert_eq!(cache.receipts_by_hash_len(), 2);
    assert_eq!(cache.signed_tx_by_hash_len(), 2);
    assert_eq!(cache.tx_hashes_by_block_and_index_len(), 2);
}

fn receipt(hash: u8, index: u64, details: u32) -> (u32, ReceiptInfo<u32>) {
    (
        details + 1000,
        ReceiptInfo {
            transaction_hash: H256([hash; 32]),
            transaction_index: U256([index, 0, 0, 0]),
            details,
        },
    )
}

#[test]
fn receipts_are_found_by_block_and_index() {
    let mut cache = BlockCache::<4, MockBlock, u32, u32>::new();
    let block = MockBlock { block_number: 7, block_hash: H256([7; 32]) };
    cache.insert(block, vec![receipt(10, 0, 100), receipt(11, 1, 101)]);

    let r = cache.receipt_by_block_hash_and_index(&H256([7; 32]), &U256([1, 0, 0, 0]));
    assert_eq!(r.map(|r| r.details), Some(101));
    assert!(cache.receipt_by_block_hash_and_index(&H256([7; 32]), &U256([2, 0, 0, 0])).is_none());
    assert!(cache.receipt_by_block_hash_and_index(&H256([8; 32]), &U256([0, 0, 0, 0])).is_none());
    assert_eq!(cache.receipts_count_per_block(&H256([7; 32])), Some(2));
    assert_eq!(cache.receipts_count_per_block(&H256([9; 32])), None);
    assert_eq!(cache.receipt_by_hash(&H256([10; 32])).map(|r| r.details), Some(100));
    assert_eq!(cache.signed_tx_by_hash(&H256([11; 32])), Some(&1101));
}

#[test]
fn block_without_receipts_is_not_indexed() {
    let mut cache = BlockCache::<4, MockBlock, u32, u32>::new();
    cache.insert(MockBlock { block_number: 1, block_hash: H256([1; 32]) }, vec![]);
    assert_eq!(cache.receipts_count_per_block(&H256([1; 32])), None);
    assert_eq!(cache.tx_hashes_by_block_and_index_len(), 0);
    assert_eq!(cache.buffer_len(), 1);
}

#[test]
fn pruning_drops_the_receipts_of_the_oldest_block() {
    let mut cache = BlockCache::<1, MockBlock, u32, u32>::new();
    cache.insert(
        MockBlock { block_number: 1, block_hash: H256([1; 32]) },
        vec![receipt(10, 0, 100), receipt(11, 1, 101)],
    );
    cache.insert(MockBlock { block_number: 2, block_hash: H256([2; 32]) }, vec![receipt(12, 0, 102)]);
    assert!(cache.receipt_by_hash(&H256([10; 32])).is_none());
    assert!(cache.receipt_by_hash(&H256([11; 32])).is_none());
    assert_eq!(cache.receipt_by_hash(&H256([12; 32])).map(|r| r.details), Some(102));
    assert_eq!(cache.receipts_by_hash_len(), 1);
    // The pruned block's signed transactions leave with its receipts.
    assert_eq!(cache.signed_tx_by_hash_len(), 1);
    assert!(cache.signed_tx_by_hash(&H256([10; 32])).is_none());
    assert!(cache.signed_tx_by_hash(&H256([11; 32])).is_none());
    assert_eq!(cache.signed_tx_by_hash(&H256([12; 32])), Some(&1102));
    assert_eq!(cache.tx_hashes_by_block_and_index_len(), 1);
}

#[test]
fn a_receipt_carries_the_hash_it_is_found_under() {
    let mut cache = BlockCache::<2, MockBlock, u32, u32>::new();
    cache.insert(
        MockBlock { block_number: 3, block_hash: H256([3; 32]) },
        vec![receipt(20, 0, 200), receipt(21, 1, 201)],
    );
    let r = cache.receipt_by_block_hash_and_index(&H256([3; 32]), &U256([1, 0, 0, 0])).unwrap();
    assert_eq!(r.transaction_hash, H256([21; 32]));
    assert_eq!(r.transaction_index, U256([1, 0, 0, 0]));
    assert_eq!(cache.receipt_by_hash(&H256([20; 32])).unwrap().transaction_hash, H256([20; 32]));
}

#[test]
fn later_receipt_with_the_same_index_wins() {
    let mut cache = BlockCache::<2, MockBlock, u32, u32>::new();
    cache.insert(
        MockBlock { block_number: 1, block_hash: H256([1; 32]) },
        vec![receipt(10, 0, 100), receipt(11, 0, 101)],
    );
    assert_eq!(cache.receipts_count_per_block(&H256([1; 32])), Some(1));
    let r = cache.receipt_by_block_hash_and_index(&H256([1; 32]), &U256([0, 0, 0, 0]));
    assert_eq!(r.map(|r| r.details), Some(101));
}

#[test]
fn held_blocks_keep_exactly_their_receipts() {
    let mut cache = BlockCache::<2, MockBlock, u32, u32>::new();
    cache.insert(
        MockBlock { block_number: 1, block_hash: H256([1; 32]) },
        vec![receipt(10, 0, 100), receipt(11, 1, 101)],
    );
    cache.insert(MockBlock { block_number: 2, block_hash: H256([2; 32]) }, vec![]);
    cache.insert(
        MockBlock { block_number: 3, block_hash: H256([3; 32]) },
        vec![receipt(30, 0, 300), receipt(31, 1, 301), receipt(32, 2, 302)],
    );
    // Blocks 2 and 3 are held; only block 3 has receipts.
    assert_eq!(cache.tx_hashes_by_block_and_index_len(), 1);
    assert_eq!(cache.receipts_count_per_block(&H256([2; 32])), None);
    assert_eq!(cache.receipts_count_per_block(&H256([3; 32])), Some(3));
    assert_eq!(cache.receipts_by_hash_len(), 3);
    assert_eq!(cache.signed_tx_by_hash_len(), 3);
    for (hash, index) in [(30u8, 0u64), (31, 1), (32, 2)] {
        let r = cache.receipt_by_block_hash_and_index(&H256([3; 32]), &U256([index, 0, 0, 0])).unwrap();
        assert_eq!(r.transaction_hash, H256([hash; 32]));
        assert_eq!(r.transaction_index, U256([index, 0, 0, 0]));
        assert!(cache.signed_tx_by_hash(&H256([hash; 32])).is_some());
    }
    assert!(cache.receipt_by_hash(&H256([10; 32])).is_none());
    assert!(cache.signed_tx_by_hash(&H256([11; 32])).is_none());
}
