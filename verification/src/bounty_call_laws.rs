//! What each call of the bounties pallet does, stated over its inputs: when
//! it succeeds, with which error it fails, and what it changes and asks of
//! the runtime.

use crate::bounties::{
    close_weight, curator_deposit_spec, permill_mul_spec, try_state_spec, CloseWeight, TryStateError, spec_accept_curator, spec_approve_bounty,
    spec_claim_bounty, spec_close_bounty, spec_extend_bounty_expiry, spec_propose_curator,
    spec_unassign_curator, spend_fold, Account, AccountId, Balance, BlockNumber, Bounty, BountyIndex,
    BountyStatus, Config, Effect, Error, Event, Outcome, PalletState, PaymentState, SpendState,
};
use vstd::prelude::*;

verus! {

/// A call that fails with this error.
pub open spec fn fails(e: Error) -> Outcome {
    Err(e)
}

/// The curator deposit is the fee multiplier's share of the fee, unless that
/// lies outside the configured bounds: a share above the maximum is cut to
/// the maximum, and a result below the minimum is raised to the minimum
/// (which wins when the bounds cross).
pub proof fn lemma_curator_deposit_cases(config: Config, fee: Balance)
    ensures
        ({
            let share = permill_mul_spec(config.curator_deposit_multiplier, fee);
            let d = curator_deposit_spec(config, fee);
            let above_max = config.curator_deposit_max matches Some(m) && share > m;
            let capped: int = if above_max { config.curator_deposit_max->Some_0 as int } else { share };
            &&& (config.curator_deposit_min matches Some(n) && capped < n) ==> d
                == config.curator_deposit_min->Some_0
            &&& !(config.curator_deposit_min matches Some(n) && capped < n) ==> d == capped
            &&& !above_max && !(config.curator_deposit_min matches Some(n) && share < n) ==> d == share
        }),
{
}

/// Approval succeeds exactly on an existing proposal whose value the origin
/// may spend, while the approval queue has room; it marks the bounty approved
/// and queues it. The errors come in that order.
pub proof fn lemma_approve_bounty(s: PalletState, bounty_id: BountyIndex, max_amount: Balance)
    ensures
        ({
            let r = spec_approve_bounty(s, bounty_id, max_amount);
            let b = s.bounties[bounty_id];
            &&& !s.bounties.contains_key(bounty_id) ==> r == fails(Error::InvalidIndex)
            &&& s.bounties.contains_key(bounty_id) && b.value > max_amount ==> r == fails(
                Error::InsufficientPermission,
            )
            &&& s.bounties.contains_key(bounty_id) && b.value <= max_amount && !(b.status is Proposed)
                ==> r == fails(Error::UnexpectedStatus)
            &&& s.bounties.contains_key(bounty_id) && b.value <= max_amount && b.status is Proposed
                && s.approvals.len() >= s.config.max_approvals ==> r == fails(Error::TooManyQueued)
            &&& r is Ok <==> s.bounties.contains_key(bounty_id) && b.value <= max_amount
                && b.status is Proposed && s.approvals.len() < s.config.max_approvals
            &&& r is Ok ==> {
                &&& r->Ok_0.0.bounties == s.bounties.insert(
                    bounty_id,
                    Bounty {
                        status: BountyStatus::Approved { payment_status: PaymentState::Pending },
                        ..b
                    },
                )
                &&& r->Ok_0.0.approvals == s.approvals.push(bounty_id)
                &&& r->Ok_0.0.descriptions == s.descriptions
                &&& r->Ok_0.1 == seq![Effect::Emit(Event::BountyApproved { index: bounty_id })]
            }
        }),
{
}

/// A curator can be proposed only for an existing funded bounty whose value
/// the origin may spend, with a fee below the value; the bounty then waits
/// for that curator with that fee.
pub proof fn lemma_propose_curator(
    s: PalletState,
    bounty_id: BountyIndex,
    max_amount: Balance,
    curator: AccountId,
    fee: Balance,
)
    ensures
        ({
            let r = spec_propose_curator(s, bounty_id, max_amount, curator, fee);
            let b = s.bounties[bounty_id];
            &&& !s.bounties.contains_key(bounty_id) ==> r == fails(Error::InvalidIndex)
            &&& s.bounties.contains_key(bounty_id) && b.value > max_amount ==> r == fails(
                Error::InsufficientPermission,
            )
            &&& s.bounties.contains_key(bounty_id) && b.value <= max_amount && !(b.status is Funded)
                ==> r == fails(Error::UnexpectedStatus)
            &&& s.bounties.contains_key(bounty_id) && b.value <= max_amount && b.status is Funded
                && fee >= b.value ==> r == fails(Error::InvalidFee)
            &&& r is Ok <==> s.bounties.contains_key(bounty_id) && b.value <= max_amount
                && b.status is Funded && fee < b.value
            &&& r is Ok ==> {
                &&& r->Ok_0.0.bounties == s.bounties.insert(
                    bounty_id,
                    Bounty { status: BountyStatus::CuratorProposed { curator }, fee, ..b },
                )
                &&& r->Ok_0.0.descriptions == s.descriptions
                &&& r->Ok_0.0.approvals == s.approvals
                &&& r->Ok_0.1 == seq![Effect::Emit(Event::CuratorProposed { bounty_id, curator })]
            }
        }),
{
}

/// Only the proposed curator can accept: the curator deposit for the fee is
/// reserved from the curator, the bounty becomes active with the given stash
/// and an update due one update period from now.
pub proof fn lemma_accept_curator(
    s: PalletState,
    bounty_id: BountyIndex,
    signer: AccountId,
    stash: AccountId,
    now: BlockNumber,
)
    requires
        now + s.config.bounty_update_period <= u32::MAX,
    ensures
        ({
            let r = spec_accept_curator(s, bounty_id, signer, stash, now);
            let b = s.bounties[bounty_id];
            let deposit = curator_deposit_spec(s.config, b.fee) as Balance;
            &&& !s.bounties.contains_key(bounty_id) ==> r == fails(Error::InvalidIndex)
            &&& s.bounties.contains_key(bounty_id) && !(b.status is CuratorProposed) ==> r == fails(
                Error::UnexpectedStatus,
            )
            &&& s.bounties.contains_key(bounty_id) && b.status is CuratorProposed && signer
                != b.status->CuratorProposed_curator ==> r == fails(Error::RequireCurator)
            &&& r is Ok <==> s.bounties.contains_key(bounty_id) && b.status is CuratorProposed
                && signer == b.status->CuratorProposed_curator
            &&& r is Ok ==> {
                &&& r->Ok_0.0.bounties == s.bounties.insert(
                    bounty_id,
                    Bounty {
                        curator_deposit: deposit,
                        status: BountyStatus::Active {
                            curator: signer,
                            curator_stash: stash,
                            update_due: (now + s.config.bounty_update_period) as BlockNumber,
                        },
                        ..b
                    },
                )
                &&& r->Ok_0.1 == seq![
                    Effect::Reserve { who: signer, amount: deposit },
                    Effect::Emit(Event::CuratorAccepted { bounty_id, curator: signer }),
                ]
            }
        }),
{
}

/// A claim succeeds exactly on an awarded bounty whose payout delay has
/// passed. The curator's deposit is unreserved; the curator's stash gets the
/// fee (never more than the account holds) less what the child-bounty
/// curators take; the beneficiary gets the rest of the account; the bounty
/// and its description are removed.
pub proof fn lemma_claim_bounty(
    s: PalletState,
    bounty_id: BountyIndex,
    now: BlockNumber,
    balance: Balance,
    children_fee: Balance,
)
    ensures
        ({
            let r = spec_claim_bounty(s, bounty_id, now, balance, children_fee);
            let b = s.bounties[bounty_id];
            let fee: int = if b.fee <= balance { b.fee as int } else { balance as int };
            let to_stash: int = if fee >= children_fee { fee - children_fee } else { 0 };
            let payout: int = balance - fee;
            &&& !s.bounties.contains_key(bounty_id) ==> r == fails(Error::InvalidIndex)
            &&& s.bounties.contains_key(bounty_id) && !(b.status is PendingPayout) ==> r == fails(
                Error::UnexpectedStatus,
            )
            &&& s.bounties.contains_key(bounty_id) && b.status is PendingPayout && now
                < b.status->PendingPayout_unlock_at ==> r == fails(Error::Premature)
            &&& r is Ok <==> s.bounties.contains_key(bounty_id) && b.status is PendingPayout
                && now >= b.status->PendingPayout_unlock_at
            &&& r is Ok ==> {
                &&& r->Ok_0.0.bounties == s.bounties.remove(bounty_id)
                &&& r->Ok_0.0.descriptions == s.descriptions.remove(bounty_id)
                &&& r->Ok_0.0.approvals == s.approvals
                &&& r->Ok_0.1 == seq![
                    Effect::Unreserve {
                        who: b.status->PendingPayout_curator,
                        amount: b.curator_deposit,
                    },
                    Effect::Transfer {
                        from: Account::Bounty(bounty_id),
                        to: Account::User(b.status->PendingPayout_curator_stash),
                        amount: to_stash as Balance,
                    },
                    Effect::Transfer {
                        from: Account::Bounty(bounty_id),
                        to: Account::User(b.status->PendingPayout_beneficiary),
                        amount: payout as Balance,
                    },
                    Effect::Emit(
                        Event::BountyClaimed {
                            index: bounty_id,
                            payout: payout as Balance,
                            beneficiary: b.status->PendingPayout_beneficiary,
                        },
                    ),
                ]
            }
        }),
{
}

/// Only the curator of an active bounty can extend it; the deadline becomes
/// one update period from now, unless it already was later.
pub proof fn lemma_extend_bounty_expiry(
    s: PalletState,
    bounty_id: BountyIndex,
    signer: AccountId,
    now: BlockNumber,
)
    requires
        now + s.config.bounty_update_period <= u32::MAX,
    ensures
        ({
            let r = spec_extend_bounty_expiry(s, bounty_id, signer, now);
            let b = s.bounties[bounty_id];
            let extended: int = now + s.config.bounty_update_period;
            &&& !s.bounties.contains_key(bounty_id) ==> r == fails(Error::InvalidIndex)
            &&& s.bounties.contains_key(bounty_id) && !(b.status is Active) ==> r == fails(
                Error::UnexpectedStatus,
            )
            &&& s.bounties.contains_key(bounty_id) && b.status is Active && signer
                != b.status->Active_curator ==> r == fails(Error::RequireCurator)
            &&& r is Ok <==> s.bounties.contains_key(bounty_id) && b.status is Active && signer
                == b.status->Active_curator
            &&& r is Ok ==> {
                &&& r->Ok_0.0.bounties == s.bounties.insert(
                    bounty_id,
                    Bounty {
                        status: BountyStatus::Active {
                            curator: signer,
                            curator_stash: b.status->Active_curator_stash,
                            update_due: (if extended > b.status->Active_update_due {
                                extended
                            } else {
                                b.status->Active_update_due as int
                            }) as BlockNumber,
                        },
                        ..b
                    },
                )
                &&& r->Ok_0.1 == seq![Effect::Emit(Event::BountyExtended { index: bounty_id })]
            }
        }),
{
}

/// Unassigning a curator who has not accepted yet touches no deposit and can
/// be done by that curator or the reject origin; an awarded bounty's curator
/// can only be unassigned by the reject origin; a bounty without a curator
/// cannot have one unassigned. The bounty is funded again afterwards.
pub proof fn lemma_unassign_curator(
    s: PalletState,
    bounty_id: BountyIndex,
    maybe_sender: Option<AccountId>,
    now: BlockNumber,
)
    ensures
        ({
            let r = spec_unassign_curator(s, bounty_id, maybe_sender, now);
            let b = s.bounties[bounty_id];
            &&& !s.bounties.contains_key(bounty_id) ==> r == fails(Error::InvalidIndex)
            &&& s.bounties.contains_key(bounty_id) && (b.status is Proposed || b.status is Approved
                || b.status is Funded) ==> r == fails(Error::UnexpectedStatus)
            &&& s.bounties.contains_key(bounty_id) && b.status is CuratorProposed ==> (
            (maybe_sender is None || maybe_sender == Some(b.status->CuratorProposed_curator)) ==> r
                == Ok::<(PalletState, Seq<Effect>), Error>(
                (
                    PalletState {
                        bounties: s.bounties.insert(
                            bounty_id,
                            Bounty { status: BountyStatus::Funded, ..b },
                        ),
                        ..s
                    },
                    seq![Effect::Emit(Event::CuratorUnassigned { bounty_id })],
                ),
            ))
            &&& s.bounties.contains_key(bounty_id) && b.status is CuratorProposed && maybe_sender
                is Some && maybe_sender != Some(b.status->CuratorProposed_curator) ==> r == fails(
                Error::BadOrigin,
            )
            &&& s.bounties.contains_key(bounty_id) && b.status is PendingPayout && maybe_sender
                is Some ==> r == fails(Error::BadOrigin)
            &&& r is Ok ==> r->Ok_0.0.bounties[bounty_id].status is Funded && r->Ok_0.0.bounties.dom()
                == s.bounties.dom() && r->Ok_0.0.descriptions == s.descriptions
        }),
{
    if s.bounties.contains_key(bounty_id) && spec_unassign_curator(s, bounty_id, maybe_sender, now) is Ok {
        let post = spec_unassign_curator(s, bounty_id, maybe_sender, now)->Ok_0.0;
        assert(post.bounties.dom() =~= s.bounties.dom());
    }
}

/// Closing rejects a proposal, slashing its bond; it refuses an approved
/// bounty and one awaiting payout, and any bounty with active child bounties.
pub proof fn lemma_close_bounty_cases(
    s: PalletState,
    bounty_id: BountyIndex,
    child_bounties: BountyIndex,
    balance: Balance,
)
    ensures
        ({
            let r = spec_close_bounty(s, bounty_id, child_bounties, balance);
            let b = s.bounties[bounty_id];
            &&& !s.bounties.contains_key(bounty_id) ==> r == fails(Error::InvalidIndex)
            &&& s.bounties.contains_key(bounty_id) && child_bounties != 0 ==> r == fails(
                Error::HasActiveChildBounty,
            )
            &&& s.bounties.contains_key(bounty_id) && child_bounties == 0 && b.status is Proposed
                ==> r == Ok::<(PalletState, Seq<Effect>), Error>(
                (
                    PalletState {
                        bounties: s.bounties.remove(bounty_id),
                        descriptions: s.descriptions.remove(bounty_id),
                        ..s
                    },
                    seq![
                        Effect::SlashReserved { who: b.proposer, amount: b.bond },
                        Effect::Emit(Event::BountyRejected { index: bounty_id, bond: b.bond }),
                    ],
                ),
            )
            &&& s.bounties.contains_key(bounty_id) && child_bounties == 0 && b.status is Approved
                ==> r == fails(Error::UnexpectedStatus)
            &&& s.bounties.contains_key(bounty_id) && child_bounties == 0 && b.status is PendingPayout
                ==> r == fails(Error::PendingPayout)
        }),
{
}

/// The total value of the queued bounties that exist.
pub open spec fn queued_value(bounties: Map<BountyIndex, Bounty>, approvals: Seq<BountyIndex>) -> int
    decreases approvals.len(),
{
    if approvals.len() == 0 {
        0
    } else {
        queued_value(bounties, approvals.drop_last()) + if bounties.contains_key(approvals.last()) {
            bounties[approvals.last()].value as int
        } else {
            0
        }
    }
}

/// Funding touches only queued bounties, never takes an index off the kept
/// list, and never clears the missed flag.
proof fn lemma_spend_untouched(st: SpendState, approvals: Seq<BountyIndex>, i: BountyIndex)
    ensures
        !approvals.contains(i) ==> spend_fold(st, approvals).bounties.contains_key(i)
            == st.bounties.contains_key(i) && spend_fold(st, approvals).bounties[i] == st.bounties[i],
        !approvals.contains(i) ==> (spend_fold(st, approvals).kept.contains(i) <==> st.kept.contains(i)),
        st.kept.contains(i) ==> spend_fold(st, approvals).kept.contains(i),
        st.missed_any ==> spend_fold(st, approvals).missed_any,
        spend_fold(st, approvals).bounties.dom() == st.bounties.dom(),
    decreases approvals.len(),
{
    if approvals.len() > 0 {
        let pre = approvals.drop_last();
        if !approvals.contains(i) {
            assert(!pre.contains(i)) by {
                if pre.contains(i) {
                    let k = choose|k: int| 0 <= k < pre.len() && pre[k] == i;
                    assert(approvals[k] == i);
                }
            }
            assert(approvals.last() != i) by {
                assert(approvals[approvals.len() - 1] == approvals.last());
            }
        }
        lemma_spend_untouched(st, pre, i);
        let prev = spend_fold(st, pre);
        let index = approvals.last();
        if prev.bounties.contains_key(index) && prev.bounties[index].value <= prev.budget {
            let b = prev.bounties[index];
            assert(prev.bounties.insert(index, Bounty { status: BountyStatus::Funded, ..b }).dom()
                =~= prev.bounties.dom());
        } else if prev.bounties.contains_key(index) {
            assert(prev.kept.push(index).contains(i) <==> prev.kept.contains(i) || index == i) by {
                if prev.kept.push(index).contains(i) {
                    let k = choose|k: int| 0 <= k < prev.kept.push(index).len() && prev.kept.push(index)[k] == i;
                    if k < prev.kept.len() {
                        assert(prev.kept[k] == i);
                    }
                }
                if prev.kept.contains(i) {
                    let k = choose|k: int| 0 <= k < prev.kept.len() && prev.kept[k] == i;
                    assert(prev.kept.push(index)[k] == i);
                }
                if index == i {
                    assert(prev.kept.push(index)[prev.kept.len() as int] == i);
                }
            }
        }
    }
}

/// Funding goes through the queue in order, greedily: a queued bounty is
/// funded (its status becomes `Funded`, it leaves the queue and its value
/// leaves the budget) exactly when its value fits the budget left by the
/// bounties before it; otherwise it stays queued, unchanged, and the budget
/// is marked as short. `before` is the funding of the queue up to it.
pub proof fn lemma_spend_is_greedy(st: SpendState, approvals: Seq<BountyIndex>, j: int)
    requires
        st.kept.len() == 0,
        approvals.no_duplicates(),
        0 <= j < approvals.len(),
        st.bounties.contains_key(approvals[j]),
    ensures
        ({
            let index = approvals[j];
            let b = st.bounties[index];
            let before = spend_fold(st, approvals.take(j));
            let after = spend_fold(st, approvals);
            &&& b.value <= before.budget ==> {
                &&& after.bounties[index] == Bounty { status: BountyStatus::Funded, ..b }
                &&& !after.kept.contains(index)
                &&& spend_fold(st, approvals.take(j + 1)).budget == before.budget - b.value
            }
            &&& b.value > before.budget ==> {
                &&& after.bounties[index] == b
                &&& after.kept.contains(index)
                &&& after.missed_any
            }
        }),
    decreases approvals.len(),
{
    let index = approvals[j];
    if j == approvals.len() - 1 {
        assert(approvals.take(j) =~= approvals.drop_last());
        assert(approvals.take(j + 1) =~= approvals);
        assert(!approvals.drop_last().contains(index)) by {
            if approvals.drop_last().contains(index) {
                let k = choose|k: int| 0 <= k < approvals.drop_last().len() && approvals.drop_last()[k] == index;
                assert(approvals[k] == approvals[j]);
            }
        }
        lemma_spend_untouched(st, approvals.drop_last(), index);
        assert(!st.kept.contains(index));
        let prev = spend_fold(st, approvals.drop_last());
        if prev.bounties[index].value > prev.budget {
            assert(prev.kept.push(index)[prev.kept.len() as int] == index);
        } else {
            assert(!prev.kept.contains(index));
        }
    } else {
        let pre = approvals.drop_last();
        assert(pre.no_duplicates());
        assert(pre[j] == index);
        lemma_spend_is_greedy(st, pre, j);
        assert(pre.take(j) =~= approvals.take(j));
        assert(pre.take(j + 1) =~= approvals.take(j + 1));
        let last = approvals.last();
        assert(last != index) by {
            assert(approvals[approvals.len() - 1] == last);
        }
        let prev = spend_fold(st, pre);
        assert(!seq![last].contains(index));
        if prev.kept.contains(index) {
            let k = choose|k: int| 0 <= k < prev.kept.len() && prev.kept[k] == index;
            assert(prev.kept.push(last)[k] == index);
        }
        if prev.bounties.contains_key(last) && prev.bounties[last].value > prev.budget {
            if prev.kept.push(last).contains(index) {
                let k = choose|k: int| 0 <= k < prev.kept.push(last).len() && prev.kept.push(last)[k] == index;
                if k < prev.kept.len() {
                    assert(prev.kept[k] == index);
                }
            }
        }
    }
}

/// When the budget covers every queued bounty, the whole queue is funded:
/// nothing stays queued, the budget is not marked as short, and exactly the
/// queued value is spent.
pub proof fn lemma_spend_funds_everything_that_fits(st: SpendState, approvals: Seq<BountyIndex>)
    requires
        approvals.no_duplicates(),
        queued_value(st.bounties, approvals) <= st.budget,
    ensures
        spend_fold(st, approvals).kept == st.kept,
        spend_fold(st, approvals).missed_any == st.missed_any,
        spend_fold(st, approvals).budget == st.budget - queued_value(st.bounties, approvals),
        forall|k: int|
            0 <= k < approvals.len() && st.bounties.contains_key(#[trigger] approvals[k]) ==> spend_fold(
                st,
                approvals,
            ).bounties[approvals[k]] == (Bounty {
                status: BountyStatus::Funded,
                ..st.bounties[approvals[k]]
            }),
    decreases approvals.len(),
{
    if approvals.len() > 0 {
        let pre = approvals.drop_last();
        let last = approvals.last();
        assert(pre.no_duplicates());
        assert(!pre.contains(last)) by {
            if pre.contains(last) {
                let k = choose|k: int| 0 <= k < pre.len() && pre[k] == last;
                assert(approvals[k] == approvals[approvals.len() - 1]);
            }
        }
        let extra: int = if st.bounties.contains_key(last) { st.bounties[last].value as int } else { 0 };
        assert(queued_value(st.bounties, approvals) == queued_value(st.bounties, pre) + extra);
        assert(queued_value(st.bounties, pre) >= 0) by {
            lemma_queued_value_nonneg(st.bounties, pre);
        }
        lemma_spend_funds_everything_that_fits(st, pre);
        lemma_spend_untouched(st, pre, last);
        assert forall|k: int|
            0 <= k < approvals.len() && st.bounties.contains_key(#[trigger] approvals[k]) implies spend_fold(
            st,
            approvals,
        ).bounties[approvals[k]] == Bounty { status: BountyStatus::Funded, ..st.bounties[approvals[k]] } by {
            if k < approvals.len() - 1 {
                assert(pre[k] == approvals[k]);
                assert(approvals[k] != last);
            }
        }
    }
}

proof fn lemma_queued_value_nonneg(bounties: Map<BountyIndex, Bounty>, approvals: Seq<BountyIndex>)
    ensures
        queued_value(bounties, approvals) >= 0,
    decreases approvals.len(),
{
    if approvals.len() > 0 {
        lemma_queued_value_nonneg(bounties, approvals.drop_last());
    }
}

/// The storage checks fail, with the first failing check, exactly when the
/// bounty count is below the number of bounties or of descriptions, or these
/// two numbers differ.
pub proof fn lemma_storage_checks(s: PalletState)
    ensures
        s.bounty_count < s.bounties.len() ==> try_state_spec(s) == Err::<(), TryStateError>(
            TryStateError::CountBelowBounties,
        ),
        s.bounties.len() <= s.bounty_count < s.descriptions.len() ==> try_state_spec(s) == Err::<
            (),
            TryStateError,
        >(TryStateError::CountBelowDescriptions),
        s.bounties.len() <= s.bounty_count && s.descriptions.len() <= s.bounty_count && s.bounties.len()
            != s.descriptions.len() ==> try_state_spec(s) == Err::<(), TryStateError>(
            TryStateError::DescriptionsMismatch,
        ),
        try_state_spec(s) is Ok <==> s.bounties.len() <= s.bounty_count && s.bounties.len()
            == s.descriptions.len(),
{
}

/// A closing reports the weight of rejecting a proposal exactly when the
/// bounty was still a proposal, and the weight of cancelling otherwise.
pub proof fn lemma_close_weight(s: PalletState, bounty_id: BountyIndex)
    ensures
        close_weight(s, bounty_id) == CloseWeight::Proposed <==> s.bounties[bounty_id].status is Proposed,
        close_weight(s, bounty_id) == CloseWeight::Active <==> !(s.bounties[bounty_id].status is Proposed),
{
}

} // verus!
