//! Properties of the bounties state machine that hold across its calls.

use crate::bounties::{
    claim_split, curator_deposit_spec, spec_accept_curator, spec_approve_bounty, spec_award_bounty,
    spec_claim_bounty, spec_close_bounty, spec_create_bounty, spec_extend_bounty_expiry,
    spec_propose_curator, spec_unassign_curator, spend_fold, spend_result, try_state_spec, Account,
    AccountId, AssetKind, Balance, BlockNumber, Bounty, BountyIndex, BountyStatus, Config, Effect, Error, Event,
    Outcome, PalletState, SpendState, TryStateError,
};
use vstd::prelude::*;

verus! {

/// The storage checks pass on every storage that satisfies the invariant,
/// which every call keeps: the bounty count bounds both the bounties and the
/// descriptions, and there are as many of each.
pub proof fn lemma_invariant_passes_try_state(s: PalletState)
    requires
        s.wf(),
    ensures
        try_state_spec(s) == Ok::<(), TryStateError>(()),
{
    let range = Set::<BountyIndex>::range(0, s.bounty_count);
    assert(s.bounties.dom().subset_of(range));
    vstd::set_lib::lemma_len_subset(s.bounties.dom(), range);
    assert(s.descriptions.dom() == s.bounties.dom());
}

/// A new proposal always gets a fresh index: no bounty is stored at the
/// current bounty count.
pub proof fn lemma_next_index_is_fresh(s: PalletState)
    requires
        s.wf(),
    ensures
        !s.bounties.contains_key(s.bounty_count),
        !s.descriptions.contains_key(s.bounty_count),
{
}

/// A claim never pays out more than the bounty account holds: the curator
/// fee, the payout and the part of the fee left to the child-bounty curators
/// add up to the account's balance.
pub proof fn lemma_claim_pays_the_balance(fee: Balance, balance: Balance, children_fee: Balance)
    ensures
        ({
            let (final_fee, payout) = claim_split(fee, balance, children_fee);
            let capped: int = if fee < balance { fee as int } else { balance as int };
            let to_children: int = if children_fee < capped { children_fee as int } else { capped };
            &&& 0 <= final_fee
            &&& 0 <= payout
            &&& final_fee + payout + to_children == balance
        }),
{
}

/// Extending a bounty never brings its deadline forward, and the new deadline
/// is at least one update period from now.
pub proof fn lemma_extend_never_shortens(
    s: PalletState,
    bounty_id: BountyIndex,
    signer: AccountId,
    now: BlockNumber,
)
    requires
        now + s.config.bounty_update_period <= u32::MAX,
        spec_extend_bounty_expiry(s, bounty_id, signer, now) is Ok,
    ensures
        ({
            let post = spec_extend_bounty_expiry(s, bounty_id, signer, now)->Ok_0.0;
            &&& s.bounties[bounty_id].status matches BountyStatus::Active { update_due: before, .. }
            &&& post.bounties[bounty_id].status matches BountyStatus::Active {
                update_due: after,
                ..
            }
            &&& before <= after
            &&& now + s.config.bounty_update_period <= after
        }),
{
}

/// The curator deposit lies within the configured bounds whenever the
/// minimum does not exceed the maximum.
pub proof fn lemma_curator_deposit_bounds(config: Config, fee: Balance)
    ensures
        config.curator_deposit_min matches Some(min) ==> min <= curator_deposit_spec(config, fee),
        config.curator_deposit_max matches Some(max) ==> (config.curator_deposit_min matches Some(
            min,
        ) ==> min <= max) ==> curator_deposit_spec(config, fee) <= max,
        0 <= curator_deposit_spec(config, fee) <= u128::MAX,
{
    let p: int = if config.curator_deposit_multiplier > 1_000_000 {
        1_000_000
    } else {
        config.curator_deposit_multiplier as int
    };
    let t: int = fee * p;
    assert(0 <= t <= fee * 1_000_000) by (nonlinear_arith)
        requires
            0 <= p <= 1_000_000,
            t == fee * p,
            0 <= fee,
    ;
    assert(t / 1_000_000 + (if t % 1_000_000 > 500_000 { 1int } else { 0int }) <= fee)
        by (nonlinear_arith)
        requires
            0 <= t <= fee * 1_000_000,
            0 <= fee,
    ;
}

/// The total minted into bounty accounts by a list of operations.
pub open spec fn minted(effects: Seq<Effect>) -> int
    decreases effects.len(),
{
    if effects.len() == 0 {
        0
    } else {
        minted(effects.drop_last()) + match effects.last() {
            Effect::DepositCreating { amount, .. } => amount as int,
            _ => 0,
        }
    }
}

proof fn lemma_minted_append(a: Seq<Effect>, b: Seq<Effect>)
    ensures
        minted(a + b) == minted(a) + minted(b),
    decreases b.len(),
{
    if b.len() == 0 {
        assert(a + b =~= a);
    } else {
        assert((a + b).drop_last() =~= a + b.drop_last());
        lemma_minted_append(a, b.drop_last());
    }
}

/// Funding the approval queue spends exactly what it mints: the remaining
/// budget plus the funds credited to bounty accounts equals the budget it
/// started from.
pub proof fn lemma_spend_conserves_budget(st: SpendState, approvals: Seq<BountyIndex>)
    ensures
        spend_fold(st, approvals).budget + minted(spend_fold(st, approvals).effects) == st.budget
            + minted(st.effects),
    decreases approvals.len(),
{
    if approvals.len() > 0 {
        let prev = spend_fold(st, approvals.drop_last());
        lemma_spend_conserves_budget(st, approvals.drop_last());
        let index = approvals.last();
        if prev.bounties.contains_key(index) && prev.bounties[index].value <= prev.budget {
            let b = prev.bounties[index];
            let added = seq![
                Effect::Unreserve { who: b.proposer, amount: b.bond },
                Effect::DepositCreating { to: Account::Bounty(index), amount: b.value },
                Effect::Emit(Event::BountyBecameActive { index }),
            ];
            lemma_minted_append(prev.effects, added);
            assert(added.drop_last().drop_last().drop_last() =~= Seq::<Effect>::empty());
            assert(minted(added) == b.value) by {
                reveal_with_fuel(minted, 4);
            }
        }
    }
}

/// A bounty left queued by the funding is one whose value exceeded the budget
/// remaining when its turn came; every bounty taken off the queue is funded or
/// no longer exists.
pub proof fn lemma_spend_funds_queued(st: SpendState, approvals: Seq<BountyIndex>, index: BountyIndex)
    requires
        st.kept.len() == 0,
        spend_fold(st, approvals).kept.contains(index),
    ensures
        approvals.contains(index),
        spend_fold(st, approvals).missed_any,
    decreases approvals.len(),
{
    if approvals.len() > 0 {
        let prev = spend_fold(st, approvals.drop_last());
        if prev.kept.contains(index) {
            lemma_spend_funds_queued(st, approvals.drop_last(), index);
            assert(approvals.drop_last().contains(index));
            let k = choose|k: int| 0 <= k < approvals.drop_last().len() && approvals.drop_last()[k] == index;
            assert(approvals[k] == index);
        } else {
            assert(approvals[approvals.len() - 1] == index);
        }
    }
}

/// A call of the pallet, with what it reads of the chain.
pub enum BountyCall {
    ProposeBounty { proposer: AccountId, asset_kind: AssetKind, value: Balance, description: Vec<u8> },
    ApproveBounty { bounty_id: BountyIndex, max_amount: Balance },
    ProposeCurator { bounty_id: BountyIndex, max_amount: Balance, curator: AccountId, fee: Balance },
    UnassignCurator { bounty_id: BountyIndex, maybe_sender: Option<AccountId>, now: BlockNumber },
    AcceptCurator { bounty_id: BountyIndex, signer: AccountId, stash: AccountId, now: BlockNumber },
    AwardBounty {
        bounty_id: BountyIndex,
        signer: AccountId,
        beneficiary: AccountId,
        now: BlockNumber,
        child_bounties: BountyIndex,
    },
    ClaimBounty { bounty_id: BountyIndex, now: BlockNumber, balance: Balance, children_fee: Balance },
    CloseBounty { bounty_id: BountyIndex, child_bounties: BountyIndex, balance: Balance },
    ExtendBountyExpiry { bounty_id: BountyIndex, signer: AccountId, now: BlockNumber },
    SpendFunds { budget: Balance, missed_any: bool },
}

/// What a call does, as the contract of the `Pallet` method that makes it
/// states; funding the approval queue always succeeds.
pub open spec fn call_outcome(s: PalletState, c: BountyCall) -> Outcome {
    match c {
        BountyCall::ProposeBounty { proposer, asset_kind, value, description } => spec_create_bounty(
            s,
            proposer,
            description,
            asset_kind,
            value,
        ),
        BountyCall::ApproveBounty { bounty_id, max_amount } => spec_approve_bounty(
            s,
            bounty_id,
            max_amount,
        ),
        BountyCall::ProposeCurator { bounty_id, max_amount, curator, fee } => spec_propose_curator(
            s,
            bounty_id,
            max_amount,
            curator,
            fee,
        ),
        BountyCall::UnassignCurator { bounty_id, maybe_sender, now } => spec_unassign_curator(
            s,
            bounty_id,
            maybe_sender,
            now,
        ),
        BountyCall::AcceptCurator { bounty_id, signer, stash, now } => spec_accept_curator(
            s,
            bounty_id,
            signer,
            stash,
            now,
        ),
        BountyCall::AwardBounty { bounty_id, signer, beneficiary, now, child_bounties } =>
            spec_award_bounty(s, bounty_id, signer, beneficiary, now, child_bounties),
        BountyCall::ClaimBounty { bounty_id, now, balance, children_fee } => spec_claim_bounty(
            s,
            bounty_id,
            now,
            balance,
            children_fee,
        ),
        BountyCall::CloseBounty { bounty_id, child_bounties, balance } => spec_close_bounty(
            s,
            bounty_id,
            child_bounties,
            balance,
        ),
        BountyCall::ExtendBountyExpiry { bounty_id, signer, now } => spec_extend_bounty_expiry(
            s,
            bounty_id,
            signer,
            now,
        ),
        BountyCall::SpendFunds { budget, missed_any } => {
            let res = spend_result(s, budget, missed_any);
            Ok((PalletState { bounties: res.bounties, approvals: res.kept, ..s }, res.effects))
        },
    }
}

/// The calls whose block arithmetic and next index stay within their types,
/// which the `Pallet` methods require.
pub open spec fn call_in_bounds(s: PalletState, c: BountyCall) -> bool {
    match c {
        BountyCall::ProposeBounty { .. } => s.bounty_count < u32::MAX,
        BountyCall::AcceptCurator { now, .. } => now + s.config.bounty_update_period <= u32::MAX,
        BountyCall::AwardBounty { now, .. } => now + s.config.bounty_deposit_payout_delay <= u32::MAX,
        BountyCall::ExtendBountyExpiry { now, .. } => now + s.config.bounty_update_period <= u32::MAX,
        _ => true,
    }
}

/// The storage after a call: the new storage when it succeeds, the old one
/// when it fails.
pub open spec fn state_after(s: PalletState, c: BountyCall) -> PalletState {
    match call_outcome(s, c) {
        Ok((post, _)) => post,
        Err(_) => s,
    }
}

/// Funding the queue changes no bounty's presence and never lengthens the
/// queue.
proof fn lemma_spend_keeps_bounties(st: SpendState, approvals: Seq<BountyIndex>)
    ensures
        spend_fold(st, approvals).bounties.dom() == st.bounties.dom(),
        spend_fold(st, approvals).kept.len() <= st.kept.len() + approvals.len(),
    decreases approvals.len(),
{
    if approvals.len() > 0 {
        lemma_spend_keeps_bounties(st, approvals.drop_last());
        let prev = spend_fold(st, approvals.drop_last());
        let index = approvals.last();
        if prev.bounties.contains_key(index) {
            let b = prev.bounties[index];
            assert(prev.bounties.insert(index, Bounty { status: BountyStatus::Funded, ..b }).dom()
                =~= prev.bounties.dom());
        }
    }
}

/// The storage checks pass after every call, whether it succeeds or fails, on
/// a storage that satisfies the invariant (the genesis storage does): every
/// call keeps the invariant, and the invariant passes the checks.
pub proof fn lemma_calls_keep_the_storage_checks(s: PalletState, c: BountyCall)
    requires
        s.wf(),
        call_in_bounds(s, c),
    ensures
        state_after(s, c).wf(),
        try_state_spec(state_after(s, c)) == Ok::<(), TryStateError>(()),
{
    let post = state_after(s, c);
    match c {
        BountyCall::ProposeBounty { .. } => {
            if call_outcome(s, c) is Ok {
                assert(post.bounties.dom() =~= post.descriptions.dom());
            }
        },
        BountyCall::SpendFunds { budget, missed_any } => {
            let init = SpendState {
                bounties: s.bounties,
                budget,
                missed_any,
                kept: Seq::empty(),
                effects: Seq::empty(),
            };
            lemma_spend_keeps_bounties(init, s.approvals);
        },
        BountyCall::ClaimBounty { .. } => {
            if call_outcome(s, c) is Ok {
                assert(post.bounties.dom() =~= post.descriptions.dom());
            }
        },
        BountyCall::CloseBounty { .. } => {
            if call_outcome(s, c) is Ok {
                assert(post.bounties.dom() =~= post.descriptions.dom());
            }
        },
        _ => {
            if call_outcome(s, c) is Ok {
                assert(post.bounties.dom() =~= s.bounties.dom());
            }
        },
    }
    lemma_invariant_passes_try_state(post);
}

/// The storage a pallet starts from: no bounty, no description, no approval.
pub open spec fn genesis(config: Config) -> PalletState {
    PalletState {
        config,
        bounty_count: 0,
        bounties: Map::empty(),
        descriptions: Map::empty(),
        approvals: Seq::empty(),
    }
}

/// The storage after a run of calls, each applied to the storage the one
/// before it left.
pub open spec fn run_calls(s: PalletState, calls: Seq<BountyCall>) -> PalletState
    decreases calls.len(),
{
    if calls.len() == 0 {
        s
    } else {
        state_after(run_calls(s, calls.drop_last()), calls.last())
    }
}

/// Every call of the run stays within the bounds its method requires, on the
/// storage it is applied to.
pub open spec fn run_in_bounds(s: PalletState, calls: Seq<BountyCall>) -> bool
    decreases calls.len(),
{
    calls.len() == 0 || (run_in_bounds(s, calls.drop_last()) && call_in_bounds(
        run_calls(s, calls.drop_last()),
        calls.last(),
    ))
}

/// The storage checks pass on the genesis storage and after any run of calls
/// from it, whichever calls succeed or fail.
pub proof fn lemma_reachable_storage_passes_checks(config: Config, calls: Seq<BountyCall>)
    requires
        config.wf(),
        run_in_bounds(genesis(config), calls),
    ensures
        run_calls(genesis(config), calls).wf(),
        try_state_spec(run_calls(genesis(config), calls)) == Ok::<(), TryStateError>(()),
    decreases calls.len(),
{
    if calls.len() == 0 {
        let g = genesis(config);
        assert(g.bounties.dom() =~= Set::<BountyIndex>::empty());
        assert(g.descriptions.dom() =~= Set::<BountyIndex>::empty());
        lemma_invariant_passes_try_state(g);
    } else {
        lemma_reachable_storage_passes_checks(config, calls.drop_last());
        lemma_calls_keep_the_storage_checks(run_calls(genesis(config), calls.drop_last()), calls.last());
    }
}

/// When the reject origin unassigns the curator of an active or awarded
/// bounty, it is accusing the curator: the curator's whole deposit is
/// slashed, none of it is given back, and the bounty returns to `Funded`
/// with no deposit held.
pub proof fn lemma_rejected_curator_is_slashed(s: PalletState, bounty_id: BountyIndex, now: BlockNumber)
    requires
        s.bounties.contains_key(bounty_id),
        s.bounties[bounty_id].status is Active || s.bounties[bounty_id].status is PendingPayout,
    ensures
        ({
            let b = s.bounties[bounty_id];
            let curator = match b.status {
                BountyStatus::Active { curator, .. } => curator,
                BountyStatus::PendingPayout { curator, .. } => curator,
                _ => 0,
            };
            &&& spec_unassign_curator(s, bounty_id, None, now) is Ok
            &&& spec_unassign_curator(s, bounty_id, None, now)->Ok_0.1 == seq![
                Effect::SlashReserved { who: curator, amount: b.curator_deposit },
                Effect::Emit(Event::CuratorUnassigned { bounty_id }),
            ]
            &&& forall|k: int|
                0 <= k < spec_unassign_curator(s, bounty_id, None, now)->Ok_0.1.len() ==> !(
                #[trigger] spec_unassign_curator(s, bounty_id, None, now)->Ok_0.1[k] is Unreserve)
            &&& spec_unassign_curator(s, bounty_id, None, now)->Ok_0.0.bounties == s.bounties.insert(
                bounty_id,
                Bounty { status: BountyStatus::Funded, curator_deposit: 0, ..b },
            )
        }),
{
}

/// A curator who gives up an active bounty gets the whole deposit back and is
/// not slashed; anyone else may only unassign an active curator once the
/// update deadline has passed, and then slashes the deposit.
pub proof fn lemma_active_curator_unassigned_by_a_signer(
    s: PalletState,
    bounty_id: BountyIndex,
    sender: AccountId,
    now: BlockNumber,
)
    requires
        s.bounties.contains_key(bounty_id),
        s.bounties[bounty_id].status is Active,
    ensures
        ({
            let b = s.bounties[bounty_id];
            let curator = b.status->Active_curator;
            let r = spec_unassign_curator(s, bounty_id, Some(sender), now);
            &&& sender == curator ==> r is Ok && r->Ok_0.1 == seq![
                Effect::Unreserve { who: curator, amount: b.curator_deposit },
                Effect::Emit(Event::CuratorUnassigned { bounty_id }),
            ]
            &&& sender != curator && b.status->Active_update_due < now ==> r is Ok && r->Ok_0.1 == seq![
                Effect::SlashReserved { who: curator, amount: b.curator_deposit },
                Effect::Emit(Event::CuratorUnassigned { bounty_id }),
            ]
            &&& sender != curator && now <= b.status->Active_update_due ==> r == Err::<
                (PalletState, Seq<Effect>),
                Error,
            >(Error::Premature)
        }),
{
}

/// Closing a funded bounty, or one with a proposed or active curator, always
/// succeeds when it has no child bounties: the bounty and its description are
/// removed, an active curator's deposit is unreserved, the bounty account's
/// whole balance goes to the treasury, and the cancellation is announced.
pub proof fn lemma_close_cancels_a_funded_bounty(
    s: PalletState,
    bounty_id: BountyIndex,
    balance: Balance,
)
    requires
        s.bounties.contains_key(bounty_id),
        s.bounties[bounty_id].status is Funded || s.bounties[bounty_id].status is CuratorProposed
            || s.bounties[bounty_id].status is Active,
    ensures
        ({
            let b = s.bounties[bounty_id];
            let r = spec_close_bounty(s, bounty_id, 0, balance);
            let refund = seq![
                Effect::Transfer { from: Account::Bounty(bounty_id), to: Account::Treasury, amount: balance },
                Effect::Emit(Event::BountyCanceled { index: bounty_id }),
            ];
            &&& r is Ok
            &&& r->Ok_0.0.bounties == s.bounties.remove(bounty_id)
            &&& r->Ok_0.0.descriptions == s.descriptions.remove(bounty_id)
            &&& r->Ok_0.0.bounty_count == s.bounty_count
            &&& r->Ok_0.0.approvals == s.approvals
            &&& r->Ok_0.1 == if b.status is Active {
                seq![Effect::Unreserve { who: b.status->Active_curator, amount: b.curator_deposit }]
                    + refund
            } else {
                refund
            }
        }),
{
}

/// A successful proposal stores a new proposed bounty at the next index and
/// reserves its bond, which is the base deposit plus the per-byte deposit for
/// every byte of the description; it succeeds exactly when the description is
/// not too long and the value reaches the minimum.
pub proof fn lemma_proposal_reserves_the_bond(
    s: PalletState,
    proposer: AccountId,
    description: Vec<u8>,
    asset_kind: AssetKind,
    value: Balance,
)
    requires
        s.wf(),
        s.bounty_count < u32::MAX,
    ensures
        ({
            let r = spec_create_bounty(s, proposer, description, asset_kind, value);
            let bond: int = s.config.bounty_deposit_base + s.config.data_deposit_per_byte
                * description@.len();
            &&& r is Ok <==> description@.len() <= s.config.maximum_reason_length && value
                >= s.config.bounty_value_minimum
            &&& r is Ok ==> {
                &&& r->Ok_0.1 == seq![
                    Effect::Reserve { who: proposer, amount: bond as Balance },
                    Effect::Emit(Event::BountyProposed { index: s.bounty_count }),
                ]
                &&& bond <= u128::MAX
                &&& r->Ok_0.0.bounties[s.bounty_count].bond == bond
                &&& r->Ok_0.0.bounties[s.bounty_count].proposer == proposer
                &&& r->Ok_0.0.bounties[s.bounty_count].value == value
                &&& r->Ok_0.0.bounties[s.bounty_count].status is Proposed
                &&& r->Ok_0.0.descriptions[s.bounty_count] == description
                &&& r->Ok_0.0.bounty_count == s.bounty_count + 1
            }
        }),
{
    let len = description@.len();
    if len <= s.config.maximum_reason_length {
        assert(s.config.data_deposit_per_byte * len <= s.config.data_deposit_per_byte
            * s.config.maximum_reason_length) by (nonlinear_arith)
            requires
                len <= s.config.maximum_reason_length,
        ;
    }
}

/// Only an active bounty can be awarded, and only by its curator: the award
/// records the beneficiary and unlocks the payout after the payout delay. On
/// any other status the call fails with `UnexpectedStatus`, so an awarded
/// payout can never be redirected nor its delay restarted.
pub proof fn lemma_only_active_bounties_are_awarded(
    s: PalletState,
    bounty_id: BountyIndex,
    signer: AccountId,
    beneficiary: AccountId,
    now: BlockNumber,
)
    requires
        s.bounties.contains_key(bounty_id),
        now + s.config.bounty_deposit_payout_delay <= u32::MAX,
    ensures
        ({
            let b = s.bounties[bounty_id];
            let r = spec_award_bounty(s, bounty_id, signer, beneficiary, now, 0);
            &&& !(b.status is Active) ==> r == Err::<(PalletState, Seq<Effect>), Error>(
                Error::UnexpectedStatus,
            )
            &&& r is Ok ==> b.status is Active && signer == b.status->Active_curator
            &&& r is Ok ==> r->Ok_0.0.bounties == s.bounties.insert(
                bounty_id,
                Bounty {
                    status: BountyStatus::PendingPayout {
                        curator: signer,
                        curator_stash: b.status->Active_curator_stash,
                        beneficiary,
                        unlock_at: (now + s.config.bounty_deposit_payout_delay) as BlockNumber,
                    },
                    ..b
                },
            )
        }),
{
}

} // verus!
