//! Benchmarked weights of the transaction extensions of the system pallet.

use crate::weight::{rocks_db_weight, weight_of, RuntimeDbWeight, Weight};
use vstd::prelude::*;

verus! {

/// Weight functions needed for the system transaction extensions.
pub trait WeightInfo {
    fn check_genesis(&self) -> Weight;
    fn check_mortality_mortal_transaction(&self) -> Weight;
    fn check_mortality_immortal_transaction(&self) -> Weight;
    fn check_non_zero_sender(&self) -> Weight;
    fn check_nonce(&self) -> Weight;
    fn check_spec_version(&self) -> Weight;
    fn check_tx_version(&self) -> Weight;
    fn check_weight(&self) -> Weight;
    fn weight_reclaim(&self) -> Weight;
}

/// Weights measured on the Substrate node and recommended hardware, with the
/// runtime's database weights.
#[derive(Clone, Copy, Debug, PartialEq, Eq)]
pub struct SubstrateWeight {
    pub db: RuntimeDbWeight,
}

impl SubstrateWeight {
    /// The weights for a runtime with these database weights.
    pub fn new(db: RuntimeDbWeight) -> (r: SubstrateWeight)
        ensures
            r.db == db,
    {
        SubstrateWeight { db }
    }

    /// The weights with the RocksDB database weights, used for tests.
    pub fn rocks_db() -> (r: SubstrateWeight)
        ensures
            r.db == (RuntimeDbWeight { read: 25_000_000, write: 100_000_000 }),
    {
        SubstrateWeight { db: rocks_db_weight() }
    }
}

impl WeightInfo for SubstrateWeight {
    /// The weight of checking the genesis hash.
    fn check_genesis(&self) -> (w: Weight)
        ensures
            w == weight_of(4_160_000 + self.db.read * 1, 3509),
    {
        Weight::from_parts(4_160_000, 3509)
            .saturating_add(self.db.reads(1))
    }

    /// The weight of checking the era of a mortal transaction.
    fn check_mortality_mortal_transaction(&self) -> (w: Weight)
        ensures
            w == weight_of(6_523_000 + self.db.read * 1, 3509),
    {
        Weight::from_parts(6_523_000, 3509)
            .saturating_add(self.db.reads(1))
    }

    /// The weight of checking the era of an immortal transaction.
    fn check_mortality_immortal_transaction(&self) -> (w: Weight)
        ensures
            w == weight_of(6_523_000 + self.db.read * 1, 3509),
    {
        Weight::from_parts(6_523_000, 3509)
            .saturating_add(self.db.reads(1))
    }

    /// The weight of checking that the sender is not the zero account.
    fn check_non_zero_sender(&self) -> (w: Weight)
        ensures
            w == weight_of(527_000, 0),
    {
        Weight::from_parts(527_000, 0)
    }

    /// The weight of checking and bumping the nonce.
    fn check_nonce(&self) -> (w: Weight)
        ensures
            w == weight_of(6_000_000 + self.db.read * 1 + self.db.write * 1, 3593),
    {
        Weight::from_parts(6_000_000, 3593)
            .saturating_add(self.db.reads(1))
            .saturating_add(self.db.writes(1))
    }

    /// The weight of checking the spec version.
    fn check_spec_version(&self) -> (w: Weight)
        ensures
            w == weight_of(461_000, 0),
    {
        Weight::from_parts(461_000, 0)
    }

    /// The weight of checking the transaction version.
    fn check_tx_version(&self) -> (w: Weight)
        ensures
            w == weight_of(439_000, 0),
    {
        Weight::from_parts(439_000, 0)
    }

    /// The weight of checking the block weight.
    fn check_weight(&self) -> (w: Weight)
        ensures
            w == weight_of(4_747_000 + self.db.read * 1 + self.db.write * 1, 1489),
    {
        Weight::from_parts(4_747_000, 1489)
            .saturating_add(self.db.reads(1))
            .saturating_add(self.db.writes(1))
    }

    /// The weight of reclaiming unused weight: not benchmarked yet, so zero.
    fn weight_reclaim(&self) -> (w: Weight)
        ensures
            w == (Weight { ref_time: 0, proof_size: 0 }),
    {
        Weight::zero()
    }
}

} // verus!
