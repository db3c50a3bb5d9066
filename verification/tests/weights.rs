use frame_logic::hrmp_weights;
use frame_logic::nis_weights::{self, WeightInfo as NisWeightInfo};
use frame_logic::system_weights::{self, WeightInfo as SystemWeightInfo};
use frame_logic::weight::{mul_sat, rocks_db_weight, RuntimeDbWeight, Weight};

fn reference(w: sp_weights::Weight) -> Weight {
    Weight { ref_time: w.ref_time(), proof_size: w.proof_size() }
}

fn db() -> sp_weights::RuntimeDbWeight {
    sp_weights::RuntimeDbWeight { read: 25_000_000, write: 100_000_000 }
}

#[test]
fn weight_arithmetic_saturates() {
    let a = Weight::from_parts(u64::MAX - 1, 5);
    assert_eq!(a.saturating_add(Weight::from_parts(3, 5)), Weight::from_parts(u64::MAX, 10));
    assert_eq!(Weight::from_parts(3, u64::MAX / 2).saturating_mul(3), Weight::from_parts(9, u64::MAX));
    assert_eq!(mul_sat(u64::MAX, 2), u64::MAX);
    assert_eq!(mul_sat(6, 7), 42);
    assert_eq!(Weight::zero(), Weight::from_parts(0, 0));
}

#[test]
fn weight_arithmetic_agrees_with_sp_weights() {
    for (r, p, s) in [(1u64, 2u64, 3u64), (u64::MAX, 7, 2), (5, u64::MAX - 1, u64::MAX)] {
        let ours = Weight::from_parts(r, p).saturating_mul(s).saturating_add(Weight::from_parts(p, r));
        let theirs = sp_weights::Weight::from_parts(r, p)
            .saturating_mul(s)
            .saturating_add(sp_weights::Weight::from_parts(p, r));
        assert_eq!(ours, reference(theirs));
    }
    let d = RuntimeDbWeight { read: 7, write: u64::MAX / 3 };
    let t = sp_weights::RuntimeDbWeight { read: 7, write: u64::MAX / 3 };
    assert_eq!(d.reads(5), reference(t.reads(5)));
    assert_eq!(d.writes(4), reference(t.writes(4)));
}

#[test]
fn rocks_db_weights() {
    assert_eq!(rocks_db_weight(), RuntimeDbWeight { read: 25_000_000, write: 100_000_000 });
    assert_eq!(rocks_db_weight().reads(2), Weight::from_parts(50_000_000, 0));
}

#[test]
fn nis_place_bid_weight() {
    let w = nis_weights::SubstrateWeight::rocks_db();
    let expected = sp_weights::Weight::from_parts(76_285_070, 51487)
        .saturating_add(sp_weights::Weight::from_parts(63_291, 0).saturating_mul(10))
        .saturating_add(db().reads(3))
        .saturating_add(db().writes(3));
    assert_eq!(w.place_bid(10), reference(expected));
    assert_eq!(w.place_bid(0), Weight::from_parts(76_285_070 + 75_000_000 + 300_000_000, 51487));
    assert!(w.place_bid(1).ref_time < w.place_bid(2).ref_time);
    assert_eq!(w.process_bid(), Weight::from_parts(107_215_000, 0));
    assert_eq!(w.place_bid_max(), Weight::from_parts(162_482_000 + 375_000_000, 51487));
}

#[test]
fn nis_weights_with_a_custom_database() {
    let w = nis_weights::SubstrateWeight::new(RuntimeDbWeight { read: 1, write: 2 });
    assert_eq!(w.retract_bid(3), Weight::from_parts(70_002_853 + 3 * 48_269 + 3 + 6, 51487));
    assert_eq!(w.fund_deficit(), Weight::from_parts(46_157_000 + 2 + 2, 3593));
    assert_eq!(w.communify(), Weight::from_parts(104_811_000 + 6 + 12, 3802));
    assert_eq!(w.privatize(), Weight::from_parts(135_914_000 + 6 + 12, 3802));
    assert_eq!(w.thaw_private(), Weight::from_parts(73_840_000 + 4 + 6, 3802));
    assert_eq!(w.thaw_communal(), Weight::from_parts(134_492_000 + 5 + 10, 3675));
    assert_eq!(w.process_queues(), Weight::from_parts(30_781_000 + 3 + 4, 7487));
    assert_eq!(w.process_queue(), Weight::from_parts(4_527_000 + 1 + 2, 51487));
    let max = nis_weights::SubstrateWeight::new(RuntimeDbWeight { read: u64::MAX, write: 0 });
    assert_eq!(max.place_bid(1).ref_time, u64::MAX);
}

#[test]
fn system_extension_weights() {
    let w = system_weights::SubstrateWeight::rocks_db();
    assert_eq!(w.check_genesis(), Weight::from_parts(4_160_000 + 25_000_000, 3509));
    assert_eq!(w.check_mortality_mortal_transaction(), Weight::from_parts(31_523_000, 3509));
    assert_eq!(w.check_mortality_immortal_transaction(), Weight::from_parts(31_523_000, 3509));
    assert_eq!(w.check_non_zero_sender(), Weight::from_parts(527_000, 0));
    assert_eq!(w.check_nonce(), Weight::from_parts(131_000_000, 3593));
    assert_eq!(w.check_spec_version(), Weight::from_parts(461_000, 0));
    assert_eq!(w.check_tx_version(), Weight::from_parts(439_000, 0));
    assert_eq!(w.check_weight(), Weight::from_parts(129_747_000, 1489));
    assert_eq!(w.weight_reclaim(), Weight::zero());
    let custom = system_weights::SubstrateWeight::new(RuntimeDbWeight { read: 1, write: 1 });
    assert_eq!(custom.check_nonce(), Weight::from_parts(6_000_002, 3593));
}

#[test]
fn hrmp_weights() {
    let w = hrmp_weights::WeightInfo::new(RuntimeDbWeight { read: 1, write: 10 });
    assert_eq!(w.hrmp_init_open_channel(), Weight::from_parts(35_191_000 + 8 + 50, 3953));
    assert_eq!(w.hrmp_accept_open_channel(), Weight::from_parts(31_060_000 + 5 + 40, 3943));
    assert_eq!(w.hrmp_close_channel(), Weight::from_parts(32_034_000 + 5 + 40, 4056));
    assert_eq!(
        w.force_clean_hrmp(2, 3),
        Weight::from_parts(
            1_164_378_000 + 2 * 3_444_855 + 3 * 3_527_628 + 2 + 4 + 6 + 40 + 60 + 90,
            3759 + 5 * 2575
        )
    );
    assert_eq!(
        w.force_process_hrmp_open(4),
        Weight::from_parts(2_363_864 + 4 * 20_507_232 + 1 + 28 + 10 + 240, 1980 + 4 * 5086)
    );
    assert_eq!(
        w.force_process_hrmp_close(4),
        Weight::from_parts(4_988_812 + 4 * 12_579_429 + 1 + 12 + 10 + 200, 1828 + 4 * 2600)
    );
    assert_eq!(
        w.hrmp_cancel_open_request(4),
        Weight::from_parts(27_236_563 + 4 * 102_107 + 3 + 30, 4328 + 60)
    );
    assert_eq!(
        w.clean_open_channel_requests(4),
        Weight::from_parts(5_799_542 + 4 * 3_173_294 + 1 + 4 + 10 + 40, 1755 + 4 * 2538)
    );
    assert_eq!(
        w.force_open_hrmp_channel(4),
        Weight::from_parts(50_509_977 + 4 * 10_215_322 + 12 + 80, 6428 + 4 * 235)
    );
    assert_eq!(w.establish_system_channel(), Weight::from_parts(50_433_000 + 12 + 80, 6428));
    assert_eq!(w.poke_channel_deposits(), Weight::from_parts(12_380_000 + 1 + 10, 3761));
    assert_eq!(w.establish_channel_with_system(), Weight::from_parts(80_846_000 + 19 + 110, 6428));
}
