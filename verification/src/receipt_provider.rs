//! The computations behind the Ethereum receipts of a block: the gas used by
//! a transaction, the logs of its contract events, and which extrinsics
//! create a contract.

use crate::key_map::{u256_value, H160, H256, U256};
use vstd::prelude::*;

verus! {

/// The gas used by a transaction: the fees paid (tip plus actual fee,
/// saturating at `u128::MAX`) divided by the gas price, or 0 when the gas
/// price is 0.
pub fn gas_used(tip: u128, actual_fee: u128, gas_price: u128) -> (r: u128)
    ensures
        r == (if gas_price == 0 {
            0
        } else {
            let paid: int = if tip + actual_fee > u128::MAX {
                u128::MAX as int
            } else {
                tip + actual_fee
            };
            paid / (gas_price as int)
        }),
{
    let paid = tip.saturating_add(actual_fee);
    if gas_price == 0 {
        0
    } else {
        paid / gas_price
    }
}

/// A `ContractEmitted` event of the revive pallet.
pub struct ContractEmitted {
    /// The contract that emitted the event.
    pub contract: H160,
    /// The data of the event.
    pub data: Vec<u8>,
    /// The topics of the event.
    pub topics: Vec<H256>,
}

/// An event of an extrinsic, at its index among the block's events;
/// `emitted` holds the event when it decodes as a `ContractEmitted` event.
pub struct EventRecord {
    pub index: u32,
    pub emitted: Option<ContractEmitted>,
}

/// An Ethereum log, with the fields that a receipt sets.
pub struct Log {
    pub address: H160,
    pub topics: Vec<H256>,
    pub data: Option<Vec<u8>>,
    pub block_number: Option<U256>,
    pub transaction_hash: H256,
    pub transaction_index: Option<U256>,
    pub block_hash: Option<H256>,
    pub log_index: Option<U256>,
}

/// Where a transaction stands in the chain.
#[derive(Clone, Copy, Debug, PartialEq, Eq)]
pub struct TxPosition {
    pub block_number: U256,
    pub block_hash: H256,
    pub transaction_hash: H256,
    pub transaction_index: u32,
}

/// The log of a contract event.
pub open spec fn log_of(contract: H160, data: Vec<u8>, topics: Vec<H256>, index: u32, pos: TxPosition) -> Log {
    Log {
        address: contract,
        topics,
        data: Some(data),
        block_number: Some(pos.block_number),
        transaction_hash: pos.transaction_hash,
        transaction_index: Some(U256([pos.transaction_index as u64, 0, 0, 0])),
        block_hash: Some(pos.block_hash),
        log_index: Some(U256([index as u64, 0, 0, 0])),
    }
}

/// The logs of the contract events among a transaction's events, in order.
pub open spec fn logs_of(events: Seq<EventRecord>, pos: TxPosition) -> Seq<Log>
    decreases events.len(),
{
    if events.len() == 0 {
        Seq::empty()
    } else {
        let rest = logs_of(events.drop_last(), pos);
        match events.last().emitted {
            Some(e) => rest.push(log_of(e.contract, e.data, e.topics, events.last().index, pos)),
            None => rest,
        }
    }
}

/// The number of contract events among a transaction's events.
pub open spec fn count_emitted(events: Seq<EventRecord>) -> nat
    decreases events.len(),
{
    if events.len() == 0 {
        0
    } else {
        count_emitted(events.drop_last()) + if events.last().emitted is Some {
            1nat
        } else {
            0nat
        }
    }
}

/// A transaction has one log per contract event, in the order of the events:
/// the log of the event at position `k` comes after those of the contract
/// events before it, carries the event's contract, topics and data, the
/// event's index as its log index, and the transaction's position.
pub proof fn lemma_one_log_per_contract_event(events: Seq<EventRecord>, pos: TxPosition, k: int)
    requires
        0 <= k < events.len(),
    ensures
        logs_of(events, pos).len() == count_emitted(events),
        events[k].emitted matches Some(e) ==> {
            let log = logs_of(events, pos)[count_emitted(events.take(k)) as int];
            &&& count_emitted(events.take(k)) < count_emitted(events)
            &&& log.address == e.contract
            &&& log.topics == e.topics
            &&& log.data == Some(e.data)
            &&& log.transaction_hash == pos.transaction_hash
            &&& log.block_hash == Some(pos.block_hash)
            &&& log.block_number == Some(pos.block_number)
            &&& log.log_index is Some && u256_value(log.log_index->Some_0) == events[k].index
            &&& log.transaction_index is Some && u256_value(log.transaction_index->Some_0)
                == pos.transaction_index
        },
    decreases events.len(),
{
    let pre = events.drop_last();
    if k < events.len() - 1 {
        lemma_one_log_per_contract_event(pre, pos, k);
        assert(pre.take(k) =~= events.take(k));
        assert(pre[k] == events[k]);
    } else {
        assert(events.take(k) =~= pre);
        lemma_logs_len(pre, pos);
    }
}

proof fn lemma_logs_len(events: Seq<EventRecord>, pos: TxPosition)
    ensures
        logs_of(events, pos).len() == count_emitted(events),
    decreases events.len(),
{
    if events.len() > 0 {
        lemma_logs_len(events.drop_last(), pos);
    }
}

/// The logs of the contract events among a transaction's events.
pub fn collect_logs(events: Vec<EventRecord>, pos: TxPosition) -> (logs: Vec<Log>)
    ensures
        logs@ == logs_of(events@, pos),
{
    let ghost evs = events@;
    let mut rest = events;
    let mut logs: Vec<Log> = Vec::new();
    let mut i: usize = 0;
    assert(evs.len() == rest.len());
    while rest.len() > 0
        invariant
            evs.len() <= usize::MAX,
            i <= evs.len(),
            rest@ == evs.skip(i as int),
            logs@ == logs_of(evs.take(i as int), pos),
        decreases rest@.len(),
    {
        let ev = rest.remove(0);
        proof {
            assert(evs.take(i + 1).drop_last() =~= evs.take(i as int));
            assert(evs.skip(i as int).remove(0) =~= evs.skip(i + 1));
        }
        match ev.emitted {
            Some(e) => {
                let log = Log {
                    address: e.contract,
                    topics: e.topics,
                    data: Some(e.data),
                    block_number: Some(pos.block_number),
                    transaction_hash: pos.transaction_hash,
                    transaction_index: Some(U256::from_u64(pos.transaction_index as u64)),
                    block_hash: Some(pos.block_hash),
                    log_index: Some(U256::from_u64(ev.index as u64)),
                };
                proof {
                    let t = log.transaction_index.unwrap();
                    let l = log.log_index.unwrap();
                    assert(t.0 =~= [pos.transaction_index as u64, 0u64, 0u64, 0u64]);
                    assert(l.0 =~= [ev.index as u64, 0u64, 0u64, 0u64]);
                }
                logs.push(log);
            },
            None => {},
        }
        i += 1;
    }
    proof {
        assert(evs.take(i as int) =~= evs);
    }
    logs
}

/// For an Ethereum transaction of an extrinsic: `Some(Some(nonce))` when it
/// creates a contract (it has no destination), whose address derives from the
/// sender and the nonce (0 when absent); `Some(None)` when it calls an account;
/// `None` when the nonce of a creation does not fit 64 bits, and the extrinsic
/// is left out of the block's receipts.
pub fn contract_creation_nonce(to: Option<H160>, nonce: Option<U256>) -> (r: Option<Option<u64>>)
    ensures
        to is Some ==> r == Some(None::<u64>),
        to is None ==> match nonce {
            None => r == Some(Some(0u64)),
            Some(n) => if n.0[1] == 0 && n.0[2] == 0 && n.0[3] == 0 {
                r == Some(Some(n.0[0]))
            } else {
                r is None
            },
        },
{
    match to {
        Some(_) => Some(None),
        None => {
            let n = match nonce {
                Some(n) => n,
                None => U256([0, 0, 0, 0]),
            };
            match n.to_u64() {
                Some(v) => Some(Some(v)),
                None => None,
            }
        },
    }
}

} // verus!
