//! Benchmarked weights of the non-interactive staking (NIS) pallet.

use crate::weight::{rocks_db_weight, weight_of, RuntimeDbWeight, Weight};
use vstd::prelude::*;

verus! {

/// Weight functions needed for the NIS pallet.
pub trait WeightInfo {
    fn place_bid(&self, l: u32) -> Weight;
    fn place_bid_max(&self) -> Weight;
    fn retract_bid(&self, l: u32) -> Weight;
    fn fund_deficit(&self) -> Weight;
    fn communify(&self) -> Weight;
    fn privatize(&self) -> Weight;
    fn thaw_private(&self) -> Weight;
    fn thaw_communal(&self) -> Weight;
    fn process_queues(&self) -> Weight;
    fn process_queue(&self) -> Weight;
    fn process_bid(&self) -> Weight;
}

/// Weights measured on the Substrate node and recommended hardware, with the
/// runtime's database weights.
#[derive(Clone, Copy, Debug, PartialEq, Eq)]
pub struct SubstrateWeight {
    pub db: RuntimeDbWeight,
}

impl SubstrateWeight {
    /// The weights for a runtime with these database weights.
    pub fn new(db: RuntimeDbWeight) -> (r: SubstrateWeight)
        ensures
            r.db == db,
    {
        SubstrateWeight { db }
    }

    /// The weights with the RocksDB database weights, used for tests.
    pub fn rocks_db() -> (r: SubstrateWeight)
        ensures
            r.db == (RuntimeDbWeight { read: 25_000_000, write: 100_000_000 }),
    {
        SubstrateWeight { db: rocks_db_weight() }
    }
}

impl WeightInfo for SubstrateWeight {
    /// The weight of placing a bid into a queue already holding `l` bids.
    fn place_bid(&self, l: u32) -> (w: Weight)
        ensures
            w == weight_of(76_285_070 + 63_291 * l + self.db.read * 3 + self.db.write * 3, 51_487),
    {
        Weight::from_parts(76_285_070, 51_487)
            .saturating_add(Weight::from_parts(63_291, 0).saturating_mul(l as u64))
            .saturating_add(self.db.reads(3))
            .saturating_add(self.db.writes(3))
    }

    /// The weight of placing a bid into a full queue.
    fn place_bid_max(&self) -> (w: Weight)
        ensures
            w == weight_of(162_482_000 + self.db.read * 3 + self.db.write * 3, 51_487),
    {
        Weight::from_parts(162_482_000, 51_487)
            .saturating_add(self.db.reads(3))
            .saturating_add(self.db.writes(3))
    }

    /// The weight of retracting a bid from a queue holding `l` bids.
    fn retract_bid(&self, l: u32) -> (w: Weight)
        ensures
            w == weight_of(70_002_853 + 48_269 * l + self.db.read * 3 + self.db.write * 3, 51_487),
    {
        Weight::from_parts(70_002_853, 51_487)
            .saturating_add(Weight::from_parts(48_269, 0).saturating_mul(l as u64))
            .saturating_add(self.db.reads(3))
            .saturating_add(self.db.writes(3))
    }

    /// The weight of funding the deficit.
    fn fund_deficit(&self) -> (w: Weight)
        ensures
            w == weight_of(46_157_000 + self.db.read * 2 + self.db.write * 1, 3593),
    {
        Weight::from_parts(46_157_000, 3593)
            .saturating_add(self.db.reads(2))
            .saturating_add(self.db.writes(1))
    }

    /// The weight of making a receipt communal.
    fn communify(&self) -> (w: Weight)
        ensures
            w == weight_of(104_811_000 + self.db.read * 6 + self.db.write * 6, 3802),
    {
        Weight::from_parts(104_811_000, 3802)
            .saturating_add(self.db.reads(6))
            .saturating_add(self.db.writes(6))
    }

    /// The weight of making a receipt private.
    fn privatize(&self) -> (w: Weight)
        ensures
            w == weight_of(135_914_000 + self.db.read * 6 + self.db.write * 6, 3802),
    {
        Weight::from_parts(135_914_000, 3802)
            .saturating_add(self.db.reads(6))
            .saturating_add(self.db.writes(6))
    }

    /// The weight of thawing a private receipt.
    fn thaw_private(&self) -> (w: Weight)
        ensures
            w == weight_of(73_840_000 + self.db.read * 4 + self.db.write * 3, 3802),
    {
        Weight::from_parts(73_840_000, 3802)
            .saturating_add(self.db.reads(4))
            .saturating_add(self.db.writes(3))
    }

    /// The weight of thawing a communal receipt.
    fn thaw_communal(&self) -> (w: Weight)
        ensures
            w == weight_of(134_492_000 + self.db.read * 5 + self.db.write * 5, 3675),
    {
        Weight::from_parts(134_492_000, 3675)
            .saturating_add(self.db.reads(5))
            .saturating_add(self.db.writes(5))
    }

    /// The weight of processing the queues.
    fn process_queues(&self) -> (w: Weight)
        ensures
            w == weight_of(30_781_000 + self.db.read * 3 + self.db.write * 2, 7487),
    {
        Weight::from_parts(30_781_000, 7487)
            .saturating_add(self.db.reads(3))
            .saturating_add(self.db.writes(2))
    }

    /// The weight of processing one queue.
    fn process_queue(&self) -> (w: Weight)
        ensures
            w == weight_of(4_527_000 + self.db.read * 1 + self.db.write * 1, 51_487),
    {
        Weight::from_parts(4_527_000, 51_487)
            .saturating_add(self.db.reads(1))
            .saturating_add(self.db.writes(1))
    }

    /// The weight of processing one bid.
    fn process_bid(&self) -> (w: Weight)
        ensures
            w == weight_of(7_215_000 + self.db.write * 1, 0),
    {
        Weight::from_parts(7_215_000, 0)
            .saturating_add(self.db.writes(1))
    }
}

} // verus!
