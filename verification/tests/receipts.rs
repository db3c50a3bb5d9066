use frame_logic::key_map::{H160, H256, U256};
use frame_logic::receipt_provider::{
    collect_logs, contract_creation_nonce, gas_used, ContractEmitted, EventRecord, TxPosition,
};

#[test]
fn gas_used_divides_fees_by_price() {
    assert_eq!(gas_used(10, 90, 4), 25);
    assert_eq!(gas_used(10, 91, 4), 25);
    assert_eq!(gas_used(10, 90, 0), 0);
    assert_eq!(gas_used(u128::MAX, 5, 1), u128::MAX);
    assert_eq!(gas_used(u128::MAX, 5, 2), u128::MAX / 2);
}

#[test]
fn logs_keep_contract_events_in_order() {
    let pos = TxPosition {
        block_number: U256([9, 0, 0, 0]),
        block_hash: H256([1; 32]),
        transaction_hash: H256([2; 32]),
        transaction_index: 3,
    };
    let events = vec![
        EventRecord { index: 0, emitted: None },
        EventRecord {
            index: 1,
            emitted: Some(ContractEmitted {
                contract: H160([5; 20]),
                data: vec![1, 2],
                topics: vec![H256([6; 32])],
            }),
        },
        EventRecord { index: 2, emitted: None },
        EventRecord {
            index: 4,
            emitted: Some(ContractEmitted { contract: H160([7; 20]), data: vec![], topics: vec![] }),
        },
    ];
    let logs = collect_logs(events, pos);
    assert_eq!(logs.len(), 2);
    assert_eq!(logs[0].address, H160([5; 20]));
    assert_eq!(logs[0].data, Some(vec![1, 2]));
    assert_eq!(logs[0].topics, vec![H256([6; 32])]);
    assert_eq!(logs[0].log_index, Some(U256([1, 0, 0, 0])));
    assert_eq!(logs[0].transaction_index, Some(U256([3, 0, 0, 0])));
    assert_eq!(logs[0].block_number, Some(U256([9, 0, 0, 0])));
    assert_eq!(logs[0].block_hash, Some(H256([1; 32])));
    assert_eq!(logs[0].transaction_hash, H256([2; 32]));
    assert_eq!(logs[1].address, H160([7; 20]));
    assert_eq!(logs[1].log_index, Some(U256([4, 0, 0, 0])));
}

#[test]
fn contract_creation_nonce_cases() {
    assert_eq!(contract_creation_nonce(Some(H160([1; 20])), Some(U256([5, 0, 0, 0]))), Some(None));
    assert_eq!(contract_creation_nonce(None, None), Some(Some(0)));
    assert_eq!(contract_creation_nonce(None, Some(U256([5, 0, 0, 0]))), Some(Some(5)));
    assert_eq!(contract_creation_nonce(None, Some(U256([5, 1, 0, 0]))), None);
}

#[test]
fn u256_conversions() {
    assert_eq!(U256::from_u64(7), U256([7, 0, 0, 0]));
    assert_eq!(U256([7, 0, 0, 0]).to_u64(), Some(7));
    assert_eq!(U256([7, 0, 0, 1]).to_u64(), None);
}
