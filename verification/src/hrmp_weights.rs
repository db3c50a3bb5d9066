//! Benchmarked weights of the HRMP (horizontal relay-routed message passing)
//! pallet on the Rococo relay chain.

use crate::weight::{mul_sat, weight_of, RuntimeDbWeight, Weight};
use vstd::prelude::*;

verus! {

/// Weight functions of the HRMP pallet, with the runtime's database weights.
#[derive(Clone, Copy, Debug, PartialEq, Eq)]
pub struct WeightInfo {
    pub db: RuntimeDbWeight,
}

impl WeightInfo {
    /// The weights for a runtime with these database weights.
    pub fn new(db: RuntimeDbWeight) -> (r: WeightInfo)
        ensures
            r.db == db,
    {
        WeightInfo { db }
    }

    /// The weight of requesting to open a channel.
    pub fn hrmp_init_open_channel(&self) -> (w: Weight)
        ensures
            w == weight_of(35_191_000 + self.db.read * 8 + self.db.write * 5, 3953),
    {
        Weight::from_parts(35_191_000, 0)
            .saturating_add(Weight::from_parts(0, 3953))
            .saturating_add(self.db.reads(8))
            .saturating_add(self.db.writes(5))
    }

    /// The weight of accepting a request to open a channel.
    pub fn hrmp_accept_open_channel(&self) -> (w: Weight)
        ensures
            w == weight_of(31_060_000 + self.db.read * 5 + self.db.write * 4, 3943),
    {
        Weight::from_parts(31_060_000, 0)
            .saturating_add(Weight::from_parts(0, 3943))
            .saturating_add(self.db.reads(5))
            .saturating_add(self.db.writes(4))
    }

    /// The weight of closing a channel.
    pub fn hrmp_close_channel(&self) -> (w: Weight)
        ensures
            w == weight_of(32_034_000 + self.db.read * 5 + self.db.write * 4, 4056),
    {
        Weight::from_parts(32_034_000, 0)
            .saturating_add(Weight::from_parts(0, 4056))
            .saturating_add(self.db.reads(5))
            .saturating_add(self.db.writes(4))
    }

    /// The weight of cleaning the channels of a para with `i` ingress and `e` egress channels.
    pub fn force_clean_hrmp(&self, i: u32, e: u32) -> (w: Weight)
        ensures
            w == weight_of(1_164_378_000 + 3_444_855 * i + 3_527_628 * e + self.db.read * 2 + self.db.read * (2 * i) + self.db.read * (2 * e) + self.db.write * 4 + self.db.write * (3 * i) + self.db.write * (3 * e), 3759 + 2575 * e + 2575 * i),
    {
        Weight::from_parts(1_164_378_000, 0)
            .saturating_add(Weight::from_parts(0, 3759))
            .saturating_add(Weight::from_parts(3_444_855, 0).saturating_mul(i as u64))
            .saturating_add(Weight::from_parts(3_527_628, 0).saturating_mul(e as u64))
            .saturating_add(self.db.reads(2))
            .saturating_add(self.db.reads(mul_sat(2, i as u64)))
            .saturating_add(self.db.reads(mul_sat(2, e as u64)))
            .saturating_add(self.db.writes(4))
            .saturating_add(self.db.writes(mul_sat(3, i as u64)))
            .saturating_add(self.db.writes(mul_sat(3, e as u64)))
            .saturating_add(Weight::from_parts(0, 2575).saturating_mul(e as u64))
            .saturating_add(Weight::from_parts(0, 2575).saturating_mul(i as u64))
    }

    /// The weight of processing `c` open channel requests.
    pub fn force_process_hrmp_open(&self, c: u32) -> (w: Weight)
        ensures
            w == weight_of(2_363_864 + 20_507_232 * c + self.db.read * 1 + self.db.read * (7 * c) + self.db.write * 1 + self.db.write * (6 * c), 1980 + 5086 * c),
    {
        Weight::from_parts(2_363_864, 0)
            .saturating_add(Weight::from_parts(0, 1980))
            .saturating_add(Weight::from_parts(20_507_232, 0).saturating_mul(c as u64))
            .saturating_add(self.db.reads(1))
            .saturating_add(self.db.reads(mul_sat(7, c as u64)))
            .saturating_add(self.db.writes(1))
            .saturating_add(self.db.writes(mul_sat(6, c as u64)))
            .saturating_add(Weight::from_parts(0, 5086).saturating_mul(c as u64))
    }

    /// The weight of processing `c` close channel requests.
    pub fn force_process_hrmp_close(&self, c: u32) -> (w: Weight)
        ensures
            w == weight_of(4_988_812 + 12_579_429 * c + self.db.read * 1 + self.db.read * (3 * c) + self.db.write * 1 + self.db.write * (5 * c), 1828 + 2600 * c),
    {
        Weight::from_parts(4_988_812, 0)
            .saturating_add(Weight::from_parts(0, 1828))
            .saturating_add(Weight::from_parts(12_579_429, 0).saturating_mul(c as u64))
            .saturating_add(self.db.reads(1))
            .saturating_add(self.db.reads(mul_sat(3, c as u64)))
            .saturating_add(self.db.writes(1))
            .saturating_add(self.db.writes(mul_sat(5, c as u64)))
            .saturating_add(Weight::from_parts(0, 2600).saturating_mul(c as u64))
    }

    /// The weight of cancelling an open request among `c` requests.
    pub fn hrmp_cancel_open_request(&self, c: u32) -> (w: Weight)
        ensures
            w == weight_of(27_236_563 + 102_107 * c + self.db.read * 3 + self.db.write * 3, 4328 + 15 * c),
    {
        Weight::from_parts(27_236_563, 0)
            .saturating_add(Weight::from_parts(0, 4328))
            .saturating_add(Weight::from_parts(102_107, 0).saturating_mul(c as u64))
            .saturating_add(self.db.reads(3))
            .saturating_add(self.db.writes(3))
            .saturating_add(Weight::from_parts(0, 15).saturating_mul(c as u64))
    }

    /// The weight of cleaning `c` open channel requests.
    pub fn clean_open_channel_requests(&self, c: u32) -> (w: Weight)
        ensures
            w == weight_of(5_799_542 + 3_173_294 * c + self.db.read * 1 + self.db.read * (1 * c) + self.db.write * 1 + self.db.write * (1 * c), 1755 + 2538 * c),
    {
        Weight::from_parts(5_799_542, 0)
            .saturating_add(Weight::from_parts(0, 1755))
            .saturating_add(Weight::from_parts(3_173_294, 0).saturating_mul(c as u64))
            .saturating_add(self.db.reads(1))
            .saturating_add(self.db.reads(mul_sat(1, c as u64)))
            .saturating_add(self.db.writes(1))
            .saturating_add(self.db.writes(mul_sat(1, c as u64)))
            .saturating_add(Weight::from_parts(0, 2538).saturating_mul(c as u64))
    }

    /// The weight of forcing a channel open, with `c` requests pending.
    pub fn force_open_hrmp_channel(&self, c: u32) -> (w: Weight)
        ensures
            w == weight_of(50_509_977 + 10_215_322 * c + self.db.read * 12 + self.db.write * 8, 6428 + 235 * c),
    {
        Weight::from_parts(50_509_977, 0)
            .saturating_add(Weight::from_parts(0, 6428))
            .saturating_add(Weight::from_parts(10_215_322, 0).saturating_mul(c as u64))
            .saturating_add(self.db.reads(12))
            .saturating_add(self.db.writes(8))
            .saturating_add(Weight::from_parts(0, 235).saturating_mul(c as u64))
    }

    /// The weight of establishing a channel with a system chain.
    pub fn establish_system_channel(&self) -> (w: Weight)
        ensures
            w == weight_of(50_433_000 + self.db.read * 12 + self.db.write * 8, 6428),
    {
        Weight::from_parts(50_433_000, 0)
            .saturating_add(Weight::from_parts(0, 6428))
            .saturating_add(self.db.reads(12))
            .saturating_add(self.db.writes(8))
    }

    /// The weight of updating the deposits of a channel.
    pub fn poke_channel_deposits(&self) -> (w: Weight)
        ensures
            w == weight_of(12_380_000 + self.db.read * 1 + self.db.write * 1, 3761),
    {
        Weight::from_parts(12_380_000, 0)
            .saturating_add(Weight::from_parts(0, 3761))
            .saturating_add(self.db.reads(1))
            .saturating_add(self.db.writes(1))
    }

    /// The weight of establishing a channel from a system chain.
    pub fn establish_channel_with_system(&self) -> (w: Weight)
        ensures
            w == weight_of(80_846_000 + self.db.read * 19 + self.db.write * 11, 6428),
    {
        Weight::from_parts(80_846_000, 0)
            .saturating_add(Weight::from_parts(0, 6428))
            .saturating_add(self.db.reads(19))
            .saturating_add(self.db.writes(11))
    }
}

} // verus!
