use frame_logic::bounties::{
    Account, Bounty, BountyStatus, CloseWeight, Config, Effect, Error, Event, Pallet, PaymentState, TryStateError,
};

fn config() -> Config {
    Config {
        bounty_deposit_base: 80,
        bounty_deposit_payout_delay: 3,
        bounty_update_period: 20,
        curator_deposit_multiplier: 500_000,
        curator_deposit_max: Some(1_000),
        curator_deposit_min: Some(10),
        bounty_value_minimum: 5,
        data_deposit_per_byte: 1,
        maximum_reason_length: 16384,
        max_approvals: 100,
    }
}

fn proposed(p: &mut Pallet, value: u128) -> u32 {
    let index = p.bounty_count();
    p.propose_bounty(0, 0, value, b"12345".to_vec()).unwrap();
    index
}

fn funded(p: &mut Pallet, value: u128) -> u32 {
    let index = proposed(p, value);
    p.approve_bounty(index, u128::MAX).unwrap();
    let mut budget = u128::MAX;
    let mut missed = false;
    p.spend_funds(&mut budget, &mut missed);
    index
}

fn active(p: &mut Pallet, value: u128, fee: u128, curator: u64) -> u32 {
    let index = funded(p, value);
    p.propose_curator(index, u128::MAX, curator, fee).unwrap();
    p.accept_curator(index, curator, curator + 100, 10).unwrap();
    index
}

#[test]
fn propose_bounty_reserves_the_bond() {
    let mut p = Pallet::new(config());
    let effects = p.propose_bounty(0, 7, 10, b"1234567890".to_vec()).unwrap();
    assert_eq!(
        effects,
        vec![Effect::Reserve { who: 0, amount: 90 }, Effect::Emit(Event::BountyProposed { index: 0 })]
    );
    assert_eq!(p.bounty_count(), 1);
    assert_eq!(
        p.bounty(0),
        Some(Bounty {
            proposer: 0,
            asset_kind: 7,
            value: 10,
            fee: 0,
            curator_deposit: 0,
            bond: 90,
            status: BountyStatus::Proposed,
        })
    );
}

#[test]
fn propose_bounty_validation_works() {
    let mut cfg = config();
    cfg.maximum_reason_length = 4;
    let mut p = Pallet::new(cfg);
    assert_eq!(p.propose_bounty(0, 0, 10, b"12345".to_vec()), Err(Error::ReasonTooBig));
    assert_eq!(p.propose_bounty(0, 0, 4, b"1234".to_vec()), Err(Error::InvalidValue));
    assert_eq!(p.bounty_count(), 0);
    assert_eq!(p.do_try_state(), Ok(()));
}

#[test]
fn approve_bounty_works() {
    let mut p = Pallet::new(config());
    assert_eq!(p.approve_bounty(0, 100), Err(Error::InvalidIndex));
    let i = proposed(&mut p, 50);
    assert_eq!(p.approve_bounty(i, 49), Err(Error::InsufficientPermission));
    assert_eq!(p.approve_bounty(i, 50), Ok(vec![Effect::Emit(Event::BountyApproved { index: i })]));
    assert_eq!(
        p.bounty(i).unwrap().status,
        BountyStatus::Approved { payment_status: PaymentState::Pending }
    );
    assert_eq!(p.approvals(), vec![i]);
    assert_eq!(p.approve_bounty(i, 50), Err(Error::UnexpectedStatus));
}

#[test]
fn approvals_are_bounded() {
    let mut cfg = config();
    cfg.max_approvals = 1;
    let mut p = Pallet::new(cfg);
    let a = proposed(&mut p, 50);
    let b = proposed(&mut p, 50);
    p.approve_bounty(a, 50).unwrap();
    assert_eq!(p.approve_bounty(b, 50), Err(Error::TooManyQueued));
    assert_eq!(p.bounty(b).unwrap().status, BountyStatus::Proposed);
}

#[test]
fn spend_funds_funds_what_fits_in_order() {
    let mut p = Pallet::new(config());
    let a = proposed(&mut p, 60);
    let b = proposed(&mut p, 50);
    let c = proposed(&mut p, 30);
    for i in [a, b, c] {
        p.approve_bounty(i, u128::MAX).unwrap();
    }
    let mut budget = 100u128;
    let mut missed = false;
    let (effects, len) = p.spend_funds(&mut budget, &mut missed);
    assert_eq!(len, 3);
    assert_eq!(budget, 10);
    assert!(missed);
    assert_eq!(p.approvals(), vec![b]);
    assert_eq!(p.bounty(a).unwrap().status, BountyStatus::Funded);
    assert_eq!(p.bounty(c).unwrap().status, BountyStatus::Funded);
    assert_eq!(
        effects,
        vec![
            Effect::Unreserve { who: 0, amount: 85 },
            Effect::DepositCreating { to: Account::Bounty(a), amount: 60 },
            Effect::Emit(Event::BountyBecameActive { index: a }),
            Effect::Unreserve { who: 0, amount: 85 },
            Effect::DepositCreating { to: Account::Bounty(c), amount: 30 },
            Effect::Emit(Event::BountyBecameActive { index: c }),
        ]
    );
    // Conservation: what was minted plus what is left is the budget.
    let minted: u128 = effects
        .iter()
        .map(|e| match e {
            Effect::DepositCreating { amount, .. } => *amount,
            _ => 0,
        })
        .sum();
    assert_eq!(minted + budget, 100);
}

#[test]
fn propose_curator_works() {
    let mut p = Pallet::new(config());
    let i = proposed(&mut p, 50);
    assert_eq!(p.propose_curator(i, 50, 4, 4), Err(Error::UnexpectedStatus));
    let i = funded(&mut p, 50);
    assert_eq!(p.propose_curator(i, 49, 4, 4), Err(Error::InsufficientPermission));
    assert_eq!(p.propose_curator(i, 50, 4, 50), Err(Error::InvalidFee));
    assert_eq!(
        p.propose_curator(i, 50, 4, 4),
        Ok(vec![Effect::Emit(Event::CuratorProposed { bounty_id: i, curator: 4 })])
    );
    let b = p.bounty(i).unwrap();
    assert_eq!(b.fee, 4);
    assert_eq!(b.status, BountyStatus::CuratorProposed { curator: 4 });
}

#[test]
fn accept_curator_reserves_the_deposit() {
    let mut p = Pallet::new(config());
    let i = funded(&mut p, 50);
    p.propose_curator(i, 50, 4, 40).unwrap();
    assert_eq!(p.accept_curator(i, 5, 5, 10), Err(Error::RequireCurator));
    assert_eq!(
        p.accept_curator(i, 4, 104, 10),
        Ok(vec![
            Effect::Reserve { who: 4, amount: 20 },
            Effect::Emit(Event::CuratorAccepted { bounty_id: i, curator: 4 }),
        ])
    );
    let b = p.bounty(i).unwrap();
    assert_eq!(b.curator_deposit, 20);
    assert_eq!(b.status, BountyStatus::Active { curator: 4, curator_stash: 104, update_due: 30 });
    assert_eq!(p.accept_curator(i, 4, 104, 10), Err(Error::UnexpectedStatus));
}

#[test]
fn curator_deposit_is_clamped() {
    let p = Pallet::new(config());
    assert_eq!(p.calculate_curator_deposit(&7), 10);
    assert_eq!(p.calculate_curator_deposit(&41), 20);
    assert_eq!(p.calculate_curator_deposit(&43), 21);
    assert_eq!(p.calculate_curator_deposit(&1_000_000), 1_000);
    let mut cfg = config();
    cfg.curator_deposit_min = None;
    cfg.curator_deposit_max = None;
    let p = Pallet::new(cfg);
    // Halves round down, more than a half rounds up.
    assert_eq!(p.calculate_curator_deposit(&3), 1);
    assert_eq!(p.calculate_curator_deposit(&5), 2);
    let mut cfg = config();
    cfg.curator_deposit_multiplier = 600_000;
    cfg.curator_deposit_min = None;
    let p = Pallet::new(cfg);
    assert_eq!(p.calculate_curator_deposit(&3), 2);
    // Parts above a million count as a million.
    let mut cfg = config();
    cfg.curator_deposit_multiplier = 2_000_000;
    cfg.curator_deposit_max = None;
    let p = Pallet::new(cfg);
    assert_eq!(p.calculate_curator_deposit(&300), 300);
}

#[test]
fn unassign_curator_by_reject_origin_slashes() {
    let mut p = Pallet::new(config());
    let i = active(&mut p, 50, 40, 4);
    assert_eq!(
        p.unassign_curator(i, None, 11),
        Ok(vec![
            Effect::SlashReserved { who: 4, amount: 20 },
            Effect::Emit(Event::CuratorUnassigned { bounty_id: i }),
        ])
    );
    let b = p.bounty(i).unwrap();
    assert_eq!(b.status, BountyStatus::Funded);
    assert_eq!(b.curator_deposit, 0);
}

#[test]
fn unassign_curator_by_curator_returns_the_deposit() {
    let mut p = Pallet::new(config());
    let i = active(&mut p, 50, 40, 4);
    assert_eq!(
        p.unassign_curator(i, Some(4), 11),
        Ok(vec![
            Effect::Unreserve { who: 4, amount: 20 },
            Effect::Emit(Event::CuratorUnassigned { bounty_id: i }),
        ])
    );
}

#[test]
fn unassign_inactive_curator_by_anyone() {
    let mut p = Pallet::new(config());
    let i = active(&mut p, 50, 40, 4);
    assert_eq!(p.unassign_curator(i, Some(9), 30), Err(Error::Premature));
    assert_eq!(
        p.unassign_curator(i, Some(9), 31),
        Ok(vec![
            Effect::SlashReserved { who: 4, amount: 20 },
            Effect::Emit(Event::CuratorUnassigned { bounty_id: i }),
        ])
    );
}

#[test]
fn unassign_curator_errors() {
    let mut p = Pallet::new(config());
    assert_eq!(p.unassign_curator(0, None, 1), Err(Error::InvalidIndex));
    let i = funded(&mut p, 50);
    assert_eq!(p.unassign_curator(i, None, 1), Err(Error::UnexpectedStatus));
    p.propose_curator(i, 50, 4, 4).unwrap();
    assert_eq!(p.unassign_curator(i, Some(5), 1), Err(Error::BadOrigin));
    assert_eq!(
        p.unassign_curator(i, Some(4), 1),
        Ok(vec![Effect::Emit(Event::CuratorUnassigned { bounty_id: i })])
    );
    let i = active(&mut p, 50, 40, 4);
    p.award_bounty(i, 4, 7, 12, 0).unwrap();
    assert_eq!(p.unassign_curator(i, Some(4), 1), Err(Error::BadOrigin));
    assert!(p.unassign_curator(i, None, 1).is_ok());
}

#[test]
fn award_and_claim_bounty() {
    let mut p = Pallet::new(config());
    let i = active(&mut p, 50, 40, 4);
    assert_eq!(p.award_bounty(i, 4, 7, 12, 1), Err(Error::HasActiveChildBounty));
    assert_eq!(p.award_bounty(i, 5, 7, 12, 0), Err(Error::RequireCurator));
    assert_eq!(
        p.award_bounty(i, 4, 7, 12, 0),
        Ok(vec![Effect::Emit(Event::BountyAwarded { index: i, beneficiary: 7 })])
    );
    assert_eq!(
        p.bounty(i).unwrap().status,
        BountyStatus::PendingPayout { curator: 4, curator_stash: 104, beneficiary: 7, unlock_at: 15 }
    );
    assert_eq!(p.claim_bounty(i, 14, 50, 0), Err(Error::Premature));
    assert_eq!(
        p.claim_bounty(i, 15, 50, 10),
        Ok(vec![
            Effect::Unreserve { who: 4, amount: 20 },
            Effect::Transfer { from: Account::Bounty(i), to: Account::User(104), amount: 30 },
            Effect::Transfer { from: Account::Bounty(i), to: Account::User(7), amount: 10 },
            Effect::Emit(Event::BountyClaimed { index: i, payout: 10, beneficiary: 7 }),
        ])
    );
    assert_eq!(p.bounty(i), None);
    assert_eq!(p.claim_bounty(i, 15, 50, 0), Err(Error::InvalidIndex));
    assert_eq!(p.do_try_state(), Ok(()));
}

#[test]
fn claim_caps_the_fee_by_the_balance() {
    let mut p = Pallet::new(config());
    let i = active(&mut p, 50, 40, 4);
    p.award_bounty(i, 4, 7, 12, 0).unwrap();
    let effects = p.claim_bounty(i, 20, 30, 50).unwrap();
    assert_eq!(
        effects[1],
        Effect::Transfer { from: Account::Bounty(i), to: Account::User(104), amount: 0 }
    );
    assert_eq!(
        effects[2],
        Effect::Transfer { from: Account::Bounty(i), to: Account::User(7), amount: 0 }
    );
}

#[test]
fn claim_requires_pending_payout() {
    let mut p = Pallet::new(config());
    let i = active(&mut p, 50, 40, 4);
    assert_eq!(p.claim_bounty(i, 100, 50, 0), Err(Error::UnexpectedStatus));
}

#[test]
fn close_bounty_rejects_a_proposal() {
    let mut p = Pallet::new(config());
    let i = proposed(&mut p, 50);
    assert_eq!(
        p.close_bounty(i, 0, 0),
        Ok((
            vec![
                Effect::SlashReserved { who: 0, amount: 85 },
                Effect::Emit(Event::BountyRejected { index: i, bond: 85 }),
            ],
            CloseWeight::Proposed
        ))
    );
    assert_eq!(p.bounty(i), None);
}

#[test]
fn close_bounty_cancels_an_active_bounty() {
    let mut p = Pallet::new(config());
    let i = active(&mut p, 50, 40, 4);
    assert_eq!(p.close_bounty(i, 2, 50), Err(Error::HasActiveChildBounty));
    assert_eq!(
        p.close_bounty(i, 0, 50),
        Ok((
            vec![
                Effect::Unreserve { who: 4, amount: 20 },
                Effect::Transfer { from: Account::Bounty(i), to: Account::Treasury, amount: 50 },
                Effect::Emit(Event::BountyCanceled { index: i }),
            ],
            CloseWeight::Active
        ))
    );
    assert_eq!(p.do_try_state(), Ok(()));
}

#[test]
fn close_bounty_errors() {
    let mut p = Pallet::new(config());
    assert_eq!(p.close_bounty(0, 0, 0), Err(Error::InvalidIndex));
    let i = proposed(&mut p, 50);
    p.approve_bounty(i, 50).unwrap();
    assert_eq!(p.close_bounty(i, 0, 0), Err(Error::UnexpectedStatus));
    let j = active(&mut p, 50, 40, 4);
    p.award_bounty(j, 4, 7, 12, 0).unwrap();
    assert_eq!(p.close_bounty(j, 0, 50), Err(Error::PendingPayout));
    let k = funded(&mut p, 50);
    assert_eq!(
        p.close_bounty(k, 0, 50),
        Ok((
            vec![
                Effect::Transfer { from: Account::Bounty(k), to: Account::Treasury, amount: 50 },
                Effect::Emit(Event::BountyCanceled { index: k }),
            ],
            CloseWeight::Active
        ))
    );
}

#[test]
fn extend_bounty_expiry_never_shortens() {
    let mut p = Pallet::new(config());
    let i = active(&mut p, 50, 40, 4);
    assert_eq!(p.extend_bounty_expiry(i, 5, 12), Err(Error::RequireCurator));
    assert_eq!(
        p.extend_bounty_expiry(i, 4, 5),
        Ok(vec![Effect::Emit(Event::BountyExtended { index: i })])
    );
    assert_eq!(
        p.bounty(i).unwrap().status,
        BountyStatus::Active { curator: 4, curator_stash: 104, update_due: 30 }
    );
    p.extend_bounty_expiry(i, 4, 15).unwrap();
    assert_eq!(
        p.bounty(i).unwrap().status,
        BountyStatus::Active { curator: 4, curator_stash: 104, update_due: 35 }
    );
    let j = funded(&mut p, 50);
    assert_eq!(p.extend_bounty_expiry(j, 4, 5), Err(Error::UnexpectedStatus));
}

#[test]
fn try_state_holds_through_a_lifecycle() {
    let mut p = Pallet::new(config());
    for v in [10u128, 20, 30] {
        proposed(&mut p, v);
        assert_eq!(p.do_try_state(), Ok(()));
    }
    p.close_bounty(1, 0, 0).unwrap();
    assert_eq!(p.do_try_state(), Ok(()));
    assert_eq!(p.bounty_count(), 3);
}

#[test]
fn try_state_error_variants_exist() {
    // A storage that keeps the invariant never reports these errors; they are
    // distinct values.
    assert_ne!(TryStateError::CountBelowBounties, TryStateError::DescriptionsMismatch);
    assert_ne!(TryStateError::CountBelowDescriptions, TryStateError::DescriptionsMismatch);
}

#[test]
fn pot_accounts() {
    assert_eq!(Pallet::account_id(), Account::Treasury);
    assert_eq!(Pallet::bounty_account_id(3), Account::Bounty(3));
    let b = Bounty {
        proposer: 1,
        asset_kind: 0,
        value: 1,
        fee: 0,
        curator_deposit: 0,
        bond: 0,
        status: BountyStatus::Funded,
    };
    assert_eq!(b.get_status(), BountyStatus::Funded);
}
