//! The bounties state machine.
//!
//! A bounty is proposed with a bond, approved by the spend origin, funded
//! from the treasury, given a curator who accepts it with a deposit, awarded
//! to a beneficiary and finally claimed after a payout delay. The council can
//! unassign a curator or close the bounty along the way.
//!
//! The pallet's storage is held in [`Pallet`]. Every call checks its inputs,
//! changes the storage only when it succeeds, and hands back the currency
//! operations and events that the runtime has to perform, in order. The
//! runtime applies a call atomically: when one of the returned operations
//! fails (a `Reserve` on an account without enough free balance), the whole
//! call is void and the storage is restored.

use std::collections::HashMap;
use vstd::prelude::*;

verus! {

broadcast use vstd::std_specs::hash::group_hash_axioms;

/// An index of a bounty.
pub type BountyIndex = u32;

/// An account of a user.
pub type AccountId = u64;

/// An amount of the native currency.
pub type Balance = u128;

/// A block height.
pub type BlockNumber = u32;

/// The kind of asset a bounty is paid in.
pub type AssetKind = u32;

/// The identifier of a payment made by the payment system.
pub type PaymentId = u64;

/// The state of a payment claim.
#[derive(Clone, Copy, Debug, PartialEq, Eq)]
pub enum PaymentState {
    /// Pending claim.
    Pending,
    /// Payment attempted with a payment identifier.
    Attempted { id: PaymentId },
    /// Payment failed.
    Failed,
}

/// The status of a bounty proposal.
#[allow(inconsistent_fields)]
#[derive(Clone, Copy, Debug, PartialEq, Eq)]
pub enum BountyStatus {
    /// The bounty is proposed and waiting for approval.
    Proposed,
    /// The bounty is approved and waiting to confirm the funds allocation.
    Approved { payment_status: PaymentState },
    /// The bounty is funded and waiting for curator assignment.
    Funded,
    /// A curator has been proposed. Waiting for acceptance from the curator.
    CuratorProposed { curator: AccountId },
    /// The bounty is active and waiting to be awarded.
    Active { curator: AccountId, curator_stash: AccountId, update_due: BlockNumber },
    /// The bounty is awarded and waiting to released after a delay.
    PendingPayout {
        curator: AccountId,
        curator_stash: AccountId,
        beneficiary: AccountId,
        unlock_at: BlockNumber,
    },
    /// The bounty is approved with a curator and waiting to confirm the funds allocation.
    ApprovedWithCurator { payment_status: PaymentState, curator: AccountId },
    /// The bounty payout has been attempted.
    PayoutAttempted {
        curator_stash: (AccountId, PaymentState),
        beneficiary: (AccountId, PaymentState),
    },
    /// The bounty is closed, and the funds are being refunded to the treasury.
    RefundAttempted { payment_status: PaymentState },
}

/// A bounty proposal.
#[derive(Clone, Copy, Debug, PartialEq, Eq)]
pub struct Bounty {
    /// The account proposing it.
    pub proposer: AccountId,
    /// The kind of asset this bounty is rewarded in.
    pub asset_kind: AssetKind,
    /// The (total) amount that should be paid if the bounty is rewarded.
    pub value: Balance,
    /// The curator fee. Included in value.
    pub fee: Balance,
    /// The deposit of curator.
    pub curator_deposit: Balance,
    /// The amount held on deposit (reserved) for making this proposal.
    pub bond: Balance,
    /// The status of this bounty.
    pub status: BountyStatus,
}

impl Bounty {
    /// The status of the bounty.
    pub fn get_status(&self) -> (r: BountyStatus)
        ensures
            r == self.status,
    {
        self.status
    }
}

/// Errors of the bounties calls.
#[derive(Clone, Copy, Debug, PartialEq, Eq)]
pub enum Error {
    /// Proposer's balance is too low.
    InsufficientProposersBalance,
    /// No proposal or bounty at that index.
    InvalidIndex,
    /// The reason given is just too big.
    ReasonTooBig,
    /// The bounty status is unexpected.
    UnexpectedStatus,
    /// Require bounty curator.
    RequireCurator,
    /// Invalid bounty value.
    InvalidValue,
    /// Invalid bounty fee.
    InvalidFee,
    /// A bounty payout is pending. To cancel the bounty, you must unassign and slash the curator.
    PendingPayout,
    /// The bounties cannot be claimed/closed because it's still in the countdown period.
    Premature,
    /// The bounty cannot be closed because it has active child bounties.
    HasActiveChildBounty,
    /// Too many approvals are already queued.
    TooManyQueued,
    /// The spend origin may not spend the bounty's value.
    InsufficientPermission,
    /// The origin may not make this call.
    BadOrigin,
}

/// Events of the bounties calls.
#[derive(Clone, Copy, Debug, PartialEq, Eq)]
pub enum Event {
    /// New bounty proposal.
    BountyProposed { index: BountyIndex },
    /// A bounty proposal was rejected; funds were slashed.
    BountyRejected { index: BountyIndex, bond: Balance },
    /// A bounty proposal is funded and became active.
    BountyBecameActive { index: BountyIndex },
    /// A bounty is awarded to a beneficiary.
    BountyAwarded { index: BountyIndex, beneficiary: AccountId },
    /// A bounty is claimed by beneficiary.
    BountyClaimed { index: BountyIndex, payout: Balance, beneficiary: AccountId },
    /// A bounty is cancelled.
    BountyCanceled { index: BountyIndex },
    /// A bounty expiry is extended.
    BountyExtended { index: BountyIndex },
    /// A bounty is approved.
    BountyApproved { index: BountyIndex },
    /// A bounty curator is proposed.
    CuratorProposed { bounty_id: BountyIndex, curator: AccountId },
    /// A bounty curator is unassigned.
    CuratorUnassigned { bounty_id: BountyIndex },
    /// A bounty curator is accepted.
    CuratorAccepted { bounty_id: BountyIndex, curator: AccountId },
}

/// An account that currency moves between.
#[derive(Clone, Copy, Debug, PartialEq, Eq)]
pub enum Account {
    /// A user account.
    User(AccountId),
    /// The treasury pot.
    Treasury,
    /// The account that holds the funds of one bounty.
    Bounty(BountyIndex),
}

/// An operation that a call asks the runtime to perform.
#[derive(Clone, Copy, Debug, PartialEq, Eq)]
pub enum Effect {
    /// Reserve funds of an account; the call fails when this fails.
    Reserve { who: AccountId, amount: Balance },
    /// Unreserve funds of an account.
    Unreserve { who: AccountId, amount: Balance },
    /// Slash reserved funds of an account and hand them to the slash handler.
    SlashReserved { who: AccountId, amount: Balance },
    /// Transfer free funds, allowing the source to be reaped.
    Transfer { from: Account, to: Account, amount: Balance },
    /// Mint funds into an account, folded into the treasury's spending imbalance.
    DepositCreating { to: Account, amount: Balance },
    /// Deposit an event.
    Emit(Event),
}

/// The constants that configure the pallet.
#[derive(Clone, Copy, Debug, PartialEq, Eq)]
pub struct Config {
    /// The amount held on deposit for placing a bounty proposal.
    pub bounty_deposit_base: Balance,
    /// The delay period for which a bounty beneficiary need to wait before claim the payout.
    pub bounty_deposit_payout_delay: BlockNumber,
    /// Bounty duration in blocks.
    pub bounty_update_period: BlockNumber,
    /// The curator deposit as parts per million of the curator fee.
    pub curator_deposit_multiplier: u32,
    /// Maximum amount of funds that should be placed in a curator deposit.
    pub curator_deposit_max: Option<Balance>,
    /// Minimum amount of funds that should be placed in a curator deposit.
    pub curator_deposit_min: Option<Balance>,
    /// Minimum value for a bounty.
    pub bounty_value_minimum: Balance,
    /// The amount held on deposit per byte within the bounty description.
    pub data_deposit_per_byte: Balance,
    /// Maximum acceptable description length.
    pub maximum_reason_length: u32,
    /// Maximum number of approvals waiting to be funded.
    pub max_approvals: u32,
}

impl Config {
    /// The largest bond, for a description of the largest length, fits a balance.
    pub open spec fn wf(self) -> bool {
        self.bounty_deposit_base + self.data_deposit_per_byte * self.maximum_reason_length
            <= u128::MAX
    }
}

/// The abstract storage of the pallet.
pub struct PalletState {
    pub config: Config,
    /// Number of bounty proposals that have been made.
    pub bounty_count: BountyIndex,
    /// Bounties that have been made.
    pub bounties: Map<BountyIndex, Bounty>,
    /// The description of each bounty.
    pub descriptions: Map<BountyIndex, Vec<u8>>,
    /// Bounty indices that have been approved but not yet funded.
    pub approvals: Seq<BountyIndex>,
}

impl PalletState {
    /// The storage invariant: every bounty has a description and no other
    /// description is stored, every index is below the bounty count, and the
    /// queue of approvals respects its bound.
    pub open spec fn wf(self) -> bool {
        &&& self.config.wf()
        &&& self.bounties.dom().finite()
        &&& self.bounties.dom() == self.descriptions.dom()
        &&& forall|k: BountyIndex| #[trigger] self.bounties.contains_key(k) ==> k < self.bounty_count
        &&& forall|k: BountyIndex|
            #[trigger] self.descriptions.contains_key(k) ==> self.descriptions[k]@.len()
                <= self.config.maximum_reason_length
        &&& self.approvals.len() <= self.config.max_approvals
    }

    /// The state with the bounty at `index` replaced.
    pub open spec fn with_bounty(self, index: BountyIndex, b: Bounty) -> PalletState {
        PalletState { bounties: self.bounties.insert(index, b), ..self }
    }

    /// The state with the bounty at `index` and its description removed.
    pub open spec fn without_bounty(self, index: BountyIndex) -> PalletState {
        PalletState {
            bounties: self.bounties.remove(index),
            descriptions: self.descriptions.remove(index),
            ..self
        }
    }
}

/// What a call does to the storage and asks of the runtime: on success the
/// new storage and the operations, on failure the error.
pub type Outcome = Result<(PalletState, Seq<Effect>), Error>;

/// The result of a call and the storage after it agree with the outcome; a
/// failed call leaves the storage as it was.
pub open spec fn follows(
    r: Result<Vec<Effect>, Error>,
    pre: PalletState,
    post: PalletState,
    outcome: Outcome,
) -> bool {
    match outcome {
        Ok((s, effects)) => post == s && (r matches Ok(v) && v@ == effects),
        Err(e) => post == pre && r == Err::<Vec<Effect>, Error>(e),
    }
}

/// `Permill::from_parts(parts) * x`: `x * parts / 1_000_000` rounded to the
/// nearest integer, halves rounded down; parts above a million count as a
/// million.
pub open spec fn permill_mul_spec(parts: u32, x: u128) -> int {
    let p: int = if parts > 1_000_000 { 1_000_000 } else { parts as int };
    let t: int = x * p;
    t / 1_000_000 + if t % 1_000_000 > 500_000 { 1int } else { 0int }
}

/// Calls `sp_arithmetic::Permill::from_parts(parts) * x`; trusted to return the
/// rounded product of `permill_mul_spec`, which is what the crate's
/// `overflow_prune_mul` computes with `Rounding::NearestPrefDown`.
#[verifier::external_body]
fn permill_mul(parts: u32, x: u128) -> (r: u128)
    ensures
        r == permill_mul_spec(parts, x),
{
    sp_arithmetic::Permill::from_parts(parts) * x
}

/// The curator deposit for a fee: the fee multiplier, capped by the maximum
/// and then raised to the minimum where these are set.
pub open spec fn curator_deposit_spec(config: Config, fee: Balance) -> int {
    let d = permill_mul_spec(config.curator_deposit_multiplier, fee);
    let capped = match config.curator_deposit_max {
        Some(max) => if d < max { d } else { max as int },
        None => d,
    };
    match config.curator_deposit_min {
        Some(min) => if capped > min { capped } else { min as int },
        None => capped,
    }
}

/// The bond reserved for a proposal with a description of `len` bytes.
pub open spec fn bond_spec(config: Config, len: nat) -> int {
    config.bounty_deposit_base + config.data_deposit_per_byte * len
}

pub open spec fn spec_create_bounty(
    s: PalletState,
    proposer: AccountId,
    description: Vec<u8>,
    asset_kind: AssetKind,
    value: Balance,
) -> Outcome {
    if description@.len() > s.config.maximum_reason_length {
        Err(Error::ReasonTooBig)
    } else if value < s.config.bounty_value_minimum {
        Err(Error::InvalidValue)
    } else {
        let index = s.bounty_count;
        let bond = bond_spec(s.config, description@.len()) as Balance;
        let bounty = Bounty {
            proposer,
            asset_kind,
            value,
            fee: 0,
            curator_deposit: 0,
            bond,
            status: BountyStatus::Proposed,
        };
        Ok(
            (
                PalletState {
                    bounty_count: (index + 1) as BountyIndex,
                    bounties: s.bounties.insert(index, bounty),
                    descriptions: s.descriptions.insert(index, description),
                    ..s
                },
                seq![
                    Effect::Reserve { who: proposer, amount: bond },
                    Effect::Emit(Event::BountyProposed { index }),
                ],
            ),
        )
    }
}

pub open spec fn spec_approve_bounty(
    s: PalletState,
    bounty_id: BountyIndex,
    max_amount: Balance,
) -> Outcome {
    if !s.bounties.contains_key(bounty_id) {
        Err(Error::InvalidIndex)
    } else {
        let b = s.bounties[bounty_id];
        if b.value > max_amount {
            Err(Error::InsufficientPermission)
        } else if !(b.status is Proposed) {
            Err(Error::UnexpectedStatus)
        } else if s.approvals.len() >= s.config.max_approvals {
            Err(Error::TooManyQueued)
        } else {
            let nb = Bounty {
                status: BountyStatus::Approved { payment_status: PaymentState::Pending },
                ..b
            };
            Ok(
                (
                    PalletState {
                        bounties: s.bounties.insert(bounty_id, nb),
                        approvals: s.approvals.push(bounty_id),
                        ..s
                    },
                    seq![Effect::Emit(Event::BountyApproved { index: bounty_id })],
                ),
            )
        }
    }
}

pub open spec fn spec_propose_curator(
    s: PalletState,
    bounty_id: BountyIndex,
    max_amount: Balance,
    curator: AccountId,
    fee: Balance,
) -> Outcome {
    if !s.bounties.contains_key(bounty_id) {
        Err(Error::InvalidIndex)
    } else {
        let b = s.bounties[bounty_id];
        if b.value > max_amount {
            Err(Error::InsufficientPermission)
        } else if !(b.status is Funded) {
            Err(Error::UnexpectedStatus)
        } else if fee >= b.value {
            Err(Error::InvalidFee)
        } else {
            let nb = Bounty { status: BountyStatus::CuratorProposed { curator }, fee, ..b };
            Ok(
                (
                    s.with_bounty(bounty_id, nb),
                    seq![Effect::Emit(Event::CuratorProposed { bounty_id, curator })],
                ),
            )
        }
    }
}

/// What unassigning the curator does to the curator's deposit: `Some(true)`
/// slashes it, `Some(false)` gives it back, `None` leaves it (no curator has
/// accepted yet); `Err` refuses the call.
pub open spec fn unassign_deposit_action(
    status: BountyStatus,
    maybe_sender: Option<AccountId>,
    now: BlockNumber,
) -> Result<Option<bool>, Error> {
    match status {
        BountyStatus::CuratorProposed { curator } => {
            match maybe_sender {
                Some(sender) => if sender == curator {
                    Ok(None)
                } else {
                    Err(Error::BadOrigin)
                },
                None => Ok(None),
            }
        },
        BountyStatus::Active { curator, update_due, .. } => {
            match maybe_sender {
                None => Ok(Some(true)),
                Some(sender) => if sender != curator {
                    if update_due < now {
                        Ok(Some(true))
                    } else {
                        Err(Error::Premature)
                    }
                } else {
                    Ok(Some(false))
                },
            }
        },
        BountyStatus::PendingPayout { .. } => {
            if maybe_sender is None {
                Ok(Some(true))
            } else {
                Err(Error::BadOrigin)
            }
        },
        _ => Err(Error::UnexpectedStatus),
    }
}

/// The curator of a bounty that has one.
pub open spec fn curator_of(status: BountyStatus) -> AccountId {
    match status {
        BountyStatus::CuratorProposed { curator } => curator,
        BountyStatus::Active { curator, .. } => curator,
        BountyStatus::PendingPayout { curator, .. } => curator,
        BountyStatus::ApprovedWithCurator { curator, .. } => curator,
        _ => 0,
    }
}

pub open spec fn spec_unassign_curator(
    s: PalletState,
    bounty_id: BountyIndex,
    maybe_sender: Option<AccountId>,
    now: BlockNumber,
) -> Outcome {
    if !s.bounties.contains_key(bounty_id) {
        Err(Error::InvalidIndex)
    } else {
        let b = s.bounties[bounty_id];
        match unassign_deposit_action(b.status, maybe_sender, now) {
            Err(e) => Err(e),
            Ok(action) => {
                let curator = curator_of(b.status);
                let deposit_effects = match action {
                    Some(true) => seq![
                        Effect::SlashReserved { who: curator, amount: b.curator_deposit },
                    ],
                    Some(false) => seq![
                        Effect::Unreserve { who: curator, amount: b.curator_deposit },
                    ],
                    None => Seq::empty(),
                };
                let deposit = if action is Some { 0 } else { b.curator_deposit };
                let nb = Bounty { status: BountyStatus::Funded, curator_deposit: deposit, ..b };
                Ok(
                    (
                        s.with_bounty(bounty_id, nb),
                        deposit_effects.push(Effect::Emit(Event::CuratorUnassigned { bounty_id })),
                    ),
                )
            },
        }
    }
}

pub open spec fn spec_accept_curator(
    s: PalletState,
    bounty_id: BountyIndex,
    signer: AccountId,
    stash: AccountId,
    now: BlockNumber,
) -> Outcome {
    if !s.bounties.contains_key(bounty_id) {
        Err(Error::InvalidIndex)
    } else {
        let b = s.bounties[bounty_id];
        match b.status {
            BountyStatus::CuratorProposed { curator } => {
                if signer != curator {
                    Err(Error::RequireCurator)
                } else {
                    let deposit = curator_deposit_spec(s.config, b.fee) as Balance;
                    let update_due = (now + s.config.bounty_update_period) as BlockNumber;
                    let nb = Bounty {
                        curator_deposit: deposit,
                        status: BountyStatus::Active { curator, curator_stash: stash, update_due },
                        ..b
                    };
                    Ok(
                        (
                            s.with_bounty(bounty_id, nb),
                            seq![
                                Effect::Reserve { who: curator, amount: deposit },
                                Effect::Emit(Event::CuratorAccepted { bounty_id, curator: signer }),
                            ],
                        ),
                    )
                }
            },
            _ => Err(Error::UnexpectedStatus),
        }
    }
}

pub open spec fn spec_award_bounty(
    s: PalletState,
    bounty_id: BountyIndex,
    signer: AccountId,
    beneficiary: AccountId,
    now: BlockNumber,
    child_bounties: BountyIndex,
) -> Outcome {
    if !s.bounties.contains_key(bounty_id) {
        Err(Error::InvalidIndex)
    } else if child_bounties != 0 {
        Err(Error::HasActiveChildBounty)
    } else {
        let b = s.bounties[bounty_id];
        match b.status {
            BountyStatus::Active { curator, curator_stash, .. } => {
                if signer != curator {
                    Err(Error::RequireCurator)
                } else {
                    let unlock_at = (now + s.config.bounty_deposit_payout_delay) as BlockNumber;
                    let nb = Bounty {
                        status: BountyStatus::PendingPayout {
                            curator: signer,
                            curator_stash,
                            beneficiary,
                            unlock_at,
                        },
                        ..b
                    };
                    Ok(
                        (
                            s.with_bounty(bounty_id, nb),
                            seq![Effect::Emit(Event::BountyAwarded { index: bounty_id, beneficiary })],
                        ),
                    )
                }
            },
            _ => Err(Error::UnexpectedStatus),
        }
    }
}

/// The split of a bounty account's balance on a claim: the curator fee actually
/// paid to the curator's stash (the fee, capped by the balance, less the fees of the child-bounty
/// curators) and the payout to the beneficiary (the rest after the capped fee).
pub open spec fn claim_split(fee: Balance, balance: Balance, children_fee: Balance) -> (int, int) {
    let capped = if fee < balance { fee as int } else { balance as int };
    let final_fee = if capped > children_fee { capped - children_fee } else { 0 };
    (final_fee, balance - capped)
}

pub open spec fn spec_claim_bounty(
    s: PalletState,
    bounty_id: BountyIndex,
    now: BlockNumber,
    balance: Balance,
    children_fee: Balance,
) -> Outcome {
    if !s.bounties.contains_key(bounty_id) {
        Err(Error::InvalidIndex)
    } else {
        let b = s.bounties[bounty_id];
        match b.status {
            BountyStatus::PendingPayout { curator, curator_stash, beneficiary, unlock_at } => {
                if now < unlock_at {
                    Err(Error::Premature)
                } else {
                    let (final_fee, payout) = claim_split(b.fee, balance, children_fee);
                    Ok(
                        (
                            s.without_bounty(bounty_id),
                            seq![
                                Effect::Unreserve { who: curator, amount: b.curator_deposit },
                                Effect::Transfer {
                                    from: Account::Bounty(bounty_id),
                                    to: Account::User(curator_stash),
                                    amount: final_fee as Balance,
                                },
                                Effect::Transfer {
                                    from: Account::Bounty(bounty_id),
                                    to: Account::User(beneficiary),
                                    amount: payout as Balance,
                                },
                                Effect::Emit(
                                    Event::BountyClaimed {
                                        index: bounty_id,
                                        payout: payout as Balance,
                                        beneficiary,
                                    },
                                ),
                            ],
                        ),
                    )
                }
            },
            _ => Err(Error::UnexpectedStatus),
        }
    }
}

pub open spec fn spec_close_bounty(
    s: PalletState,
    bounty_id: BountyIndex,
    child_bounties: BountyIndex,
    balance: Balance,
) -> Outcome {
    if !s.bounties.contains_key(bounty_id) {
        Err(Error::InvalidIndex)
    } else if child_bounties != 0 {
        Err(Error::HasActiveChildBounty)
    } else {
        let b = s.bounties[bounty_id];
        let cancel = seq![
            Effect::Transfer {
                from: Account::Bounty(bounty_id),
                to: Account::Treasury,
                amount: balance,
            },
            Effect::Emit(Event::BountyCanceled { index: bounty_id }),
        ];
        match b.status {
            BountyStatus::Proposed => Ok(
                (
                    s.without_bounty(bounty_id),
                    seq![
                        Effect::SlashReserved { who: b.proposer, amount: b.bond },
                        Effect::Emit(Event::BountyRejected { index: bounty_id, bond: b.bond }),
                    ],
                ),
            ),
            BountyStatus::Funded => Ok((s.without_bounty(bounty_id), cancel)),
            BountyStatus::CuratorProposed { .. } => Ok((s.without_bounty(bounty_id), cancel)),
            BountyStatus::Active { curator, .. } => Ok(
                (
                    s.without_bounty(bounty_id),
                    seq![Effect::Unreserve { who: curator, amount: b.curator_deposit }] + cancel,
                ),
            ),
            BountyStatus::PendingPayout { .. } => Err(Error::PendingPayout),
            _ => Err(Error::UnexpectedStatus),
        }
    }
}

/// The benchmarked weight that a `close_bounty` call reports as used.
#[derive(Clone, Copy, Debug, PartialEq, Eq)]
pub enum CloseWeight {
    /// A proposal was rejected.
    Proposed,
    /// A funded bounty was cancelled.
    Active,
}

/// The weight a successful `close_bounty` reports: that of rejecting a
/// proposal when the bounty was still proposed, else that of cancelling it.
pub open spec fn close_weight(s: PalletState, bounty_id: BountyIndex) -> CloseWeight {
    if s.bounties[bounty_id].status is Proposed {
        CloseWeight::Proposed
    } else {
        CloseWeight::Active
    }
}

pub open spec fn spec_extend_bounty_expiry(
    s: PalletState,
    bounty_id: BountyIndex,
    signer: AccountId,
    now: BlockNumber,
) -> Outcome {
    if !s.bounties.contains_key(bounty_id) {
        Err(Error::InvalidIndex)
    } else {
        let b = s.bounties[bounty_id];
        match b.status {
            BountyStatus::Active { curator, curator_stash, update_due } => {
                if curator != signer {
                    Err(Error::RequireCurator)
                } else {
                    let extended = now + s.config.bounty_update_period;
                    let due = if extended > update_due { extended as BlockNumber } else { update_due };
                    let nb = Bounty {
                        status: BountyStatus::Active { curator, curator_stash, update_due: due },
                        ..b
                    };
                    Ok(
                        (
                            s.with_bounty(bounty_id, nb),
                            seq![Effect::Emit(Event::BountyExtended { index: bounty_id })],
                        ),
                    )
                }
            },
            _ => Err(Error::UnexpectedStatus),
        }
    }
}

/// The state threaded through the funding of the approval queue.
pub struct SpendState {
    pub bounties: Map<BountyIndex, Bounty>,
    pub budget: Balance,
    pub missed_any: bool,
    /// The approvals that stay queued.
    pub kept: Seq<BountyIndex>,
    pub effects: Seq<Effect>,
}

/// Funding one queued approval: a bounty whose value fits the remaining
/// budget becomes funded, its bond is returned and its account is credited;
/// one that does not fit stays queued and marks the budget as short; an index
/// without a bounty is dropped from the queue.
pub open spec fn spend_step(st: SpendState, index: BountyIndex) -> SpendState {
    if st.bounties.contains_key(index) {
        let b = st.bounties[index];
        if b.value <= st.budget {
            SpendState {
                bounties: st.bounties.insert(index, Bounty { status: BountyStatus::Funded, ..b }),
                budget: (st.budget - b.value) as Balance,
                effects: st.effects + seq![
                    Effect::Unreserve { who: b.proposer, amount: b.bond },
                    Effect::DepositCreating { to: Account::Bounty(index), amount: b.value },
                    Effect::Emit(Event::BountyBecameActive { index }),
                ],
                ..st
            }
        } else {
            SpendState { missed_any: true, kept: st.kept.push(index), ..st }
        }
    } else {
        st
    }
}

/// Funding the approvals in queue order.
pub open spec fn spend_fold(st: SpendState, approvals: Seq<BountyIndex>) -> SpendState
    decreases approvals.len(),
{
    if approvals.len() == 0 {
        st
    } else {
        spend_step(spend_fold(st, approvals.drop_last()), approvals.last())
    }
}

/// Funding the whole queue of a storage with a budget.
pub open spec fn spend_result(s: PalletState, budget: Balance, missed_any: bool) -> SpendState {
    spend_fold(
        SpendState {
            bounties: s.bounties,
            budget,
            missed_any,
            kept: Seq::empty(),
            effects: Seq::empty(),
        },
        s.approvals,
    )
}

/// The failed checks of the storage invariant.
#[derive(Clone, Copy, Debug, PartialEq, Eq)]
pub enum TryStateError {
    /// The bounty count is below the number of bounties.
    CountBelowBounties,
    /// The bounty count is below the number of descriptions.
    CountBelowDescriptions,
    /// The numbers of bounties and descriptions differ.
    DescriptionsMismatch,
}

/// The outcome of the storage checks.
pub open spec fn try_state_spec(s: PalletState) -> Result<(), TryStateError> {
    if s.bounty_count < s.bounties.len() {
        Err(TryStateError::CountBelowBounties)
    } else if s.bounty_count < s.descriptions.len() {
        Err(TryStateError::CountBelowDescriptions)
    } else if s.bounties.len() != s.descriptions.len() {
        Err(TryStateError::DescriptionsMismatch)
    } else {
        Ok(())
    }
}

/// Replacing the value of a key that is present keeps the domain.
proof fn lemma_insert_present<K, V>(m: Map<K, V>, k: K, v: V)
    requires
        m.contains_key(k),
    ensures
        m.insert(k, v).dom() == m.dom(),
{
    assert(m.insert(k, v).dom() =~= m.dom());
}

/// A list of one effect.
fn one(e: Effect) -> (v: Vec<Effect>)
    ensures
        v@ == seq![e],
{
    let mut v: Vec<Effect> = Vec::new();
    v.push(e);
    assert(v@ =~= seq![e]);
    v
}

/// The storage of the bounties pallet.
#[derive(Clone, Debug)]
pub struct Pallet {
    config: Config,
    bounty_count: BountyIndex,
    bounties: HashMap<BountyIndex, Bounty>,
    descriptions: HashMap<BountyIndex, Vec<u8>>,
    approvals: Vec<BountyIndex>,
}

impl View for Pallet {
    type V = PalletState;

    closed spec fn view(&self) -> PalletState {
        PalletState {
            config: self.config,
            bounty_count: self.bounty_count,
            bounties: self.bounties@,
            descriptions: self.descriptions@,
            approvals: self.approvals@,
        }
    }
}

impl Pallet {
    /// Empty storage with the given constants.
    pub fn new(config: Config) -> (r: Pallet)
        requires
            config.wf(),
        ensures
            r@.wf(),
            r@.config == config,
            r@.bounty_count == 0,
            r@.bounties == Map::<BountyIndex, Bounty>::empty(),
            r@.descriptions == Map::<BountyIndex, Vec<u8>>::empty(),
            r@.approvals == Seq::<BountyIndex>::empty(),
    {
        Pallet {
            config,
            bounty_count: 0,
            bounties: HashMap::new(),
            descriptions: HashMap::new(),
            approvals: Vec::new(),
        }
    }

    /// The bounty at an index.
    pub fn bounty(&self, bounty_id: BountyIndex) -> (r: Option<Bounty>)
        ensures
            r == (if self@.bounties.contains_key(bounty_id) {
                Some(self@.bounties[bounty_id])
            } else {
                None
            }),
    {
        match self.bounties.get(&bounty_id) {
            Some(b) => Some(*b),
            None => None,
        }
    }

    /// The number of proposals ever made.
    pub fn bounty_count(&self) -> (r: BountyIndex)
        ensures
            r == self@.bounty_count,
    {
        self.bounty_count
    }

    /// The constants the pallet was configured with.
    pub fn config(&self) -> (r: Config)
        ensures
            r == self@.config,
    {
        self.config
    }

    /// The queue of approved bounties waiting for funds.
    pub fn approvals(&self) -> (r: Vec<BountyIndex>)
        ensures
            r@ == self@.approvals,
    {
        self.approvals.clone()
    }

    /// The curator deposit owed for a curator fee.
    pub fn calculate_curator_deposit(&self, fee: &Balance) -> (r: Balance)
        ensures
            r == curator_deposit_spec(self@.config, *fee),
    {
        let mut deposit = permill_mul(self.config.curator_deposit_multiplier, *fee);
        if let Some(max_deposit) = self.config.curator_deposit_max {
            if max_deposit < deposit {
                deposit = max_deposit;
            }
        }
        if let Some(min_deposit) = self.config.curator_deposit_min {
            if min_deposit > deposit {
                deposit = min_deposit;
            }
        }
        deposit
    }

    /// The account of the treasury pot.
    pub fn account_id() -> (r: Account)
        ensures
            r == Account::Treasury,
    {
        Account::Treasury
    }

    /// The account that holds the funds of a bounty.
    pub fn bounty_account_id(id: BountyIndex) -> (r: Account)
        ensures
            r == Account::Bounty(id),
    {
        Account::Bounty(id)
    }

    /// Propose a new bounty, reserving the bond of the proposer.
    pub fn propose_bounty(
        &mut self,
        proposer: AccountId,
        asset_kind: AssetKind,
        value: Balance,
        description: Vec<u8>,
    ) -> (r: Result<Vec<Effect>, Error>)
        requires
            old(self)@.wf(),
            old(self)@.bounty_count < u32::MAX,
        ensures
            final(self)@.wf(),
            follows(
                r,
                old(self)@,
                final(self)@,
                spec_create_bounty(old(self)@, proposer, description, asset_kind, value),
            ),
    {
        self.create_bounty(proposer, description, asset_kind, value)
    }

    fn create_bounty(
        &mut self,
        proposer: AccountId,
        description: Vec<u8>,
        asset_kind: AssetKind,
        value: Balance,
    ) -> (r: Result<Vec<Effect>, Error>)
        requires
            old(self)@.wf(),
            old(self)@.bounty_count < u32::MAX,
        ensures
            final(self)@.wf(),
            follows(
                r,
                old(self)@,
                final(self)@,
                spec_create_bounty(old(self)@, proposer, description, asset_kind, value),
            ),
    {
        let len = description.len();
        if len > self.config.maximum_reason_length as usize {
            return Err(Error::ReasonTooBig);
        }
        if value < self.config.bounty_value_minimum {
            return Err(Error::InvalidValue);
        }
        let index = self.bounty_count;
        proof {
            let c = self.config;
            assert(c.data_deposit_per_byte * len <= c.data_deposit_per_byte
                * c.maximum_reason_length) by (nonlinear_arith)
                requires
                    len <= c.maximum_reason_length,
            ;
        }
        let bond = self.config.bounty_deposit_base + self.config.data_deposit_per_byte
            * (len as u128);
        self.bounty_count = index + 1;
        let bounty = Bounty {
            proposer,
            asset_kind,
            value,
            fee: 0,
            curator_deposit: 0,
            bond,
            status: BountyStatus::Proposed,
        };
        self.bounties.insert(index, bounty);
        self.descriptions.insert(index, description);
        Ok(
            vec![
                Effect::Reserve { who: proposer, amount: bond },
                Effect::Emit(Event::BountyProposed { index }),
            ],
        )
    }

    /// Approve a bounty proposal and queue it for funding.
    pub fn approve_bounty(&mut self, bounty_id: BountyIndex, max_amount: Balance) -> (r: Result<
        Vec<Effect>,
        Error,
    >)
        requires
            old(self)@.wf(),
        ensures
            final(self)@.wf(),
            follows(r, old(self)@, final(self)@, spec_approve_bounty(old(self)@, bounty_id, max_amount)),
    {
        let bounty = match self.bounties.get(&bounty_id) {
            Some(b) => *b,
            None => return Err(Error::InvalidIndex),
        };
        if bounty.value > max_amount {
            return Err(Error::InsufficientPermission);
        }
        if !matches!(bounty.status, BountyStatus::Proposed) {
            return Err(Error::UnexpectedStatus);
        }
        if self.approvals.len() >= self.config.max_approvals as usize {
            return Err(Error::TooManyQueued);
        }
        let nb = Bounty {
            status: BountyStatus::Approved { payment_status: PaymentState::Pending },
            ..bounty
        };
        proof {
            lemma_insert_present(self.bounties@, bounty_id, nb);
        }
        self.bounties.insert(bounty_id, nb);
        self.approvals.push(bounty_id);
        Ok(one(Effect::Emit(Event::BountyApproved { index: bounty_id })))
    }

    /// Propose a curator for a funded bounty, with the curator's fee.
    pub fn propose_curator(
        &mut self,
        bounty_id: BountyIndex,
        max_amount: Balance,
        curator: AccountId,
        fee: Balance,
    ) -> (r: Result<Vec<Effect>, Error>)
        requires
            old(self)@.wf(),
        ensures
            final(self)@.wf(),
            follows(
                r,
                old(self)@,
                final(self)@,
                spec_propose_curator(old(self)@, bounty_id, max_amount, curator, fee),
            ),
    {
        let bounty = match self.bounties.get(&bounty_id) {
            Some(b) => *b,
            None => return Err(Error::InvalidIndex),
        };
        if bounty.value > max_amount {
            return Err(Error::InsufficientPermission);
        }
        match bounty.status {
            BountyStatus::Funded => {},
            _ => return Err(Error::UnexpectedStatus),
        }
        if fee >= bounty.value {
            return Err(Error::InvalidFee);
        }
        let nb = Bounty { status: BountyStatus::CuratorProposed { curator }, fee, ..bounty };
        proof {
            lemma_insert_present(self.bounties@, bounty_id, nb);
        }
        self.bounties.insert(bounty_id, nb);
        Ok(one(Effect::Emit(Event::CuratorProposed { bounty_id, curator })))
    }

    /// Unassign the curator of a bounty. `maybe_sender` is the signer of the
    /// call, or `None` when the reject origin makes it. The reject origin
    /// slashes the curator; the curator gets the deposit back when giving up
    /// the role; anyone else may unassign (and slash) an active curator only
    /// once its update is overdue.
    pub fn unassign_curator(
        &mut self,
        bounty_id: BountyIndex,
        maybe_sender: Option<AccountId>,
        now: BlockNumber,
    ) -> (r: Result<Vec<Effect>, Error>)
        requires
            old(self)@.wf(),
        ensures
            final(self)@.wf(),
            follows(
                r,
                old(self)@,
                final(self)@,
                spec_unassign_curator(old(self)@, bounty_id, maybe_sender, now),
            ),
    {
        let bounty = match self.bounties.get(&bounty_id) {
            Some(b) => *b,
            None => return Err(Error::InvalidIndex),
        };
        let mut effects: Vec<Effect> = Vec::new();
        let mut deposit = bounty.curator_deposit;
        match bounty.status {
            BountyStatus::CuratorProposed { curator } => {
                if let Some(sender) = maybe_sender {
                    if sender != curator {
                        return Err(Error::BadOrigin);
                    }
                }
            },
            BountyStatus::Active { curator, update_due, .. } => {
                match maybe_sender {
                    None => {
                        effects.push(Effect::SlashReserved { who: curator, amount: deposit });
                        deposit = 0;
                    },
                    Some(sender) => {
                        if sender != curator {
                            if update_due < now {
                                effects.push(Effect::SlashReserved { who: curator, amount: deposit });
                                deposit = 0;
                            } else {
                                return Err(Error::Premature);
                            }
                        } else {
                            effects.push(Effect::Unreserve { who: curator, amount: deposit });
                            deposit = 0;
                        }
                    },
                }
            },
            BountyStatus::PendingPayout { curator, .. } => {
                if maybe_sender.is_some() {
                    return Err(Error::BadOrigin);
                }
                effects.push(Effect::SlashReserved { who: curator, amount: deposit });
                deposit = 0;
            },
            _ => {
                return Err(Error::UnexpectedStatus);
            },
        }
        let nb = Bounty { status: BountyStatus::Funded, curator_deposit: deposit, ..bounty };
        proof {
            lemma_insert_present(self.bounties@, bounty_id, nb);
        }
        self.bounties.insert(bounty_id, nb);
        effects.push(Effect::Emit(Event::CuratorUnassigned { bounty_id }));
        Ok(effects)
    }

    /// Accept the curator role of a bounty, reserving the curator deposit; the
    /// fee will be paid to `stash`.
    pub fn accept_curator(
        &mut self,
        bounty_id: BountyIndex,
        signer: AccountId,
        stash: AccountId,
        now: BlockNumber,
    ) -> (r: Result<Vec<Effect>, Error>)
        requires
            old(self)@.wf(),
            now + old(self)@.config.bounty_update_period <= u32::MAX,
        ensures
            final(self)@.wf(),
            follows(
                r,
                old(self)@,
                final(self)@,
                spec_accept_curator(old(self)@, bounty_id, signer, stash, now),
            ),
    {
        let bounty = match self.bounties.get(&bounty_id) {
            Some(b) => *b,
            None => return Err(Error::InvalidIndex),
        };
        match bounty.status {
            BountyStatus::CuratorProposed { curator } => {
                if signer != curator {
                    return Err(Error::RequireCurator);
                }
                let deposit = self.calculate_curator_deposit(&bounty.fee);
                let update_due = now + self.config.bounty_update_period;
                let nb = Bounty {
                    curator_deposit: deposit,
                    status: BountyStatus::Active { curator, curator_stash: stash, update_due },
                    ..bounty
                };
                proof {
                    lemma_insert_present(self.bounties@, bounty_id, nb);
                }
                self.bounties.insert(bounty_id, nb);
                Ok(
                    vec![
                        Effect::Reserve { who: curator, amount: deposit },
                        Effect::Emit(Event::CuratorAccepted { bounty_id, curator: signer }),
                    ],
                )
            },
            _ => Err(Error::UnexpectedStatus),
        }
    }

    /// Award an active bounty to a beneficiary, who may claim it after the
    /// payout delay. `child_bounties` is the number of active child bounties.
    pub fn award_bounty(
        &mut self,
        bounty_id: BountyIndex,
        signer: AccountId,
        beneficiary: AccountId,
        now: BlockNumber,
        child_bounties: BountyIndex,
    ) -> (r: Result<Vec<Effect>, Error>)
        requires
            old(self)@.wf(),
            now + old(self)@.config.bounty_deposit_payout_delay <= u32::MAX,
        ensures
            final(self)@.wf(),
            follows(
                r,
                old(self)@,
                final(self)@,
                spec_award_bounty(old(self)@, bounty_id, signer, beneficiary, now, child_bounties),
            ),
    {
        let bounty = match self.bounties.get(&bounty_id) {
            Some(b) => *b,
            None => return Err(Error::InvalidIndex),
        };
        if child_bounties != 0 {
            return Err(Error::HasActiveChildBounty);
        }
        match bounty.status {
            BountyStatus::Active { curator, curator_stash, .. } => {
                if signer != curator {
                    return Err(Error::RequireCurator);
                }
                let nb = Bounty {
                    status: BountyStatus::PendingPayout {
                        curator: signer,
                        curator_stash,
                        beneficiary,
                        unlock_at: now + self.config.bounty_deposit_payout_delay,
                    },
                    ..bounty
                };
                proof {
                    lemma_insert_present(self.bounties@, bounty_id, nb);
                }
                self.bounties.insert(bounty_id, nb);
                Ok(one(Effect::Emit(Event::BountyAwarded { index: bounty_id, beneficiary })))
            },
            _ => Err(Error::UnexpectedStatus),
        }
    }

    /// Claim an awarded bounty after its payout delay. `balance` is the free
    /// balance of the bounty account and `children_fee` the total fee of the
    /// child-bounty curators. The curator's deposit is unreserved, the curator
    /// fee goes to the curator's stash account, the rest to the beneficiary.
    pub fn claim_bounty(
        &mut self,
        bounty_id: BountyIndex,
        now: BlockNumber,
        balance: Balance,
        children_fee: Balance,
    ) -> (r: Result<Vec<Effect>, Error>)
        requires
            old(self)@.wf(),
        ensures
            final(self)@.wf(),
            follows(
                r,
                old(self)@,
                final(self)@,
                spec_claim_bounty(old(self)@, bounty_id, now, balance, children_fee),
            ),
    {
        let bounty = match self.bounties.get(&bounty_id) {
            Some(b) => *b,
            None => return Err(Error::InvalidIndex),
        };
        match bounty.status {
            BountyStatus::PendingPayout { curator, curator_stash, beneficiary, unlock_at } => {
                if now < unlock_at {
                    return Err(Error::Premature);
                }
                let fee = if bounty.fee < balance { bounty.fee } else { balance };
                let payout = balance - fee;
                let final_fee = fee.saturating_sub(children_fee);
                self.bounties.remove(&bounty_id);
                self.descriptions.remove(&bounty_id);
                Ok(
                    vec![
                        Effect::Unreserve { who: curator, amount: bounty.curator_deposit },
                        Effect::Transfer {
                            from: Account::Bounty(bounty_id),
                            to: Account::User(curator_stash),
                            amount: final_fee,
                        },
                        Effect::Transfer {
                            from: Account::Bounty(bounty_id),
                            to: Account::User(beneficiary),
                            amount: payout,
                        },
                        Effect::Emit(Event::BountyClaimed { index: bounty_id, payout, beneficiary }),
                    ],
                )
            },
            _ => Err(Error::UnexpectedStatus),
        }
    }

    /// Cancel a bounty: a proposal is rejected and its bond slashed; a funded
    /// bounty without a pending payout has its funds returned to the treasury
    /// and the deposit of an active curator unreserved. `balance` is the free
    /// balance of the bounty account. On success the call also reports which
    /// benchmarked weight it used.
    pub fn close_bounty(
        &mut self,
        bounty_id: BountyIndex,
        child_bounties: BountyIndex,
        balance: Balance,
    ) -> (r: Result<(Vec<Effect>, CloseWeight), Error>)
        requires
            old(self)@.wf(),
        ensures
            final(self)@.wf(),
            follows(
                match r {
                    Ok((effects, _)) => Ok(effects),
                    Err(e) => Err(e),
                },
                old(self)@,
                final(self)@,
                spec_close_bounty(old(self)@, bounty_id, child_bounties, balance),
            ),
            r matches Ok((_, weight)) ==> weight == close_weight(old(self)@, bounty_id),
    {
        let bounty = match self.bounties.get(&bounty_id) {
            Some(b) => *b,
            None => return Err(Error::InvalidIndex),
        };
        if child_bounties != 0 {
            return Err(Error::HasActiveChildBounty);
        }
        let mut effects: Vec<Effect> = Vec::new();
        match bounty.status {
            BountyStatus::Proposed => {
                self.descriptions.remove(&bounty_id);
                self.bounties.remove(&bounty_id);
                return Ok(
                    (
                        vec![
                            Effect::SlashReserved { who: bounty.proposer, amount: bounty.bond },
                            Effect::Emit(Event::BountyRejected { index: bounty_id, bond: bounty.bond }),
                        ],
                        CloseWeight::Proposed,
                    ),
                );
            },
            BountyStatus::Funded => {},
            BountyStatus::CuratorProposed { .. } => {},
            BountyStatus::Active { curator, .. } => {
                effects.push(Effect::Unreserve { who: curator, amount: bounty.curator_deposit });
            },
            BountyStatus::PendingPayout { .. } => {
                return Err(Error::PendingPayout);
            },
            _ => {
                return Err(Error::UnexpectedStatus);
            },
        }
        let ghost refund = effects@;
        self.descriptions.remove(&bounty_id);
        effects.push(
            Effect::Transfer { from: Account::Bounty(bounty_id), to: Account::Treasury, amount: balance },
        );
        self.bounties.remove(&bounty_id);
        effects.push(Effect::Emit(Event::BountyCanceled { index: bounty_id }));
        proof {
            let cancel = seq![
                Effect::Transfer {
                    from: Account::Bounty(bounty_id),
                    to: Account::Treasury,
                    amount: balance,
                },
                Effect::Emit(Event::BountyCanceled { index: bounty_id }),
            ];
            assert(effects@ =~= refund + cancel);
            assert(Seq::<Effect>::empty() + cancel =~= cancel);
        }
        Ok((effects, CloseWeight::Active))
    }

    /// Extend the update deadline of an active bounty to one update period
    /// from now, never bringing it forward.
    pub fn extend_bounty_expiry(
        &mut self,
        bounty_id: BountyIndex,
        signer: AccountId,
        now: BlockNumber,
    ) -> (r: Result<Vec<Effect>, Error>)
        requires
            old(self)@.wf(),
            now + old(self)@.config.bounty_update_period <= u32::MAX,
        ensures
            final(self)@.wf(),
            follows(
                r,
                old(self)@,
                final(self)@,
                spec_extend_bounty_expiry(old(self)@, bounty_id, signer, now),
            ),
    {
        let bounty = match self.bounties.get(&bounty_id) {
            Some(b) => *b,
            None => return Err(Error::InvalidIndex),
        };
        match bounty.status {
            BountyStatus::Active { curator, curator_stash, update_due } => {
                if curator != signer {
                    return Err(Error::RequireCurator);
                }
                let extended = now + self.config.bounty_update_period;
                let due = if extended > update_due { extended } else { update_due };
                let nb = Bounty {
                    status: BountyStatus::Active { curator, curator_stash, update_due: due },
                    ..bounty
                };
                proof {
                    lemma_insert_present(self.bounties@, bounty_id, nb);
                }
                self.bounties.insert(bounty_id, nb);
                Ok(one(Effect::Emit(Event::BountyExtended { index: bounty_id })))
            },
            _ => Err(Error::UnexpectedStatus),
        }
    }

    /// Fund the queued approvals in order from the treasury budget; returns
    /// the operations to perform and the length the queue had.
    pub fn spend_funds(&mut self, budget_remaining: &mut Balance, missed_any: &mut bool) -> (r: (
        Vec<Effect>,
        u32,
    ))
        requires
            old(self)@.wf(),
        ensures
            final(self)@.wf(),
            ({
                let res = spend_result(old(self)@, *old(budget_remaining), *old(missed_any));
                &&& final(self)@ == PalletState {
                    bounties: res.bounties,
                    approvals: res.kept,
                    ..old(self)@
                }
                &&& *final(budget_remaining) == res.budget
                &&& *final(missed_any) == res.missed_any
                &&& r.0@ == res.effects
                &&& r.1 == old(self)@.approvals.len()
            }),
    {
        let ghost init = SpendState {
            bounties: self.bounties@,
            budget: *budget_remaining,
            missed_any: *missed_any,
            kept: Seq::empty(),
            effects: Seq::empty(),
        };
        let ghost dom0 = self.bounties@.dom();
        let n = self.approvals.len();
        let mut kept: Vec<BountyIndex> = Vec::new();
        let mut effects: Vec<Effect> = Vec::new();
        let mut i: usize = 0;
        while i < n
            invariant
                n == self.approvals@.len(),
                self.approvals@ == old(self)@.approvals,
                self.descriptions@ == old(self)@.descriptions,
                self.bounty_count == old(self)@.bounty_count,
                self.config == old(self)@.config,
                init.bounties == old(self)@.bounties,
                init.budget == *old(budget_remaining),
                init.missed_any == *old(missed_any),
                init.kept == Seq::<BountyIndex>::empty(),
                init.effects == Seq::<Effect>::empty(),
                dom0 == old(self)@.bounties.dom(),
                i <= n,
                self.bounties@.dom() == dom0,
                kept@.len() <= i,
                ({
                    let cur = spend_fold(init, self.approvals@.take(i as int));
                    &&& self.bounties@ == cur.bounties
                    &&& *budget_remaining == cur.budget
                    &&& *missed_any == cur.missed_any
                    &&& kept@ == cur.kept
                    &&& effects@ == cur.effects
                }),
            decreases n - i,
        {
            let index = self.approvals[i];
            let ghost prev = spend_fold(init, self.approvals@.take(i as int));
            proof {
                assert(self.approvals@.take(i + 1).drop_last() =~= self.approvals@.take(i as int));
            }
            match self.bounties.get(&index) {
                Some(b) => {
                    let bounty = *b;
                    if bounty.value <= *budget_remaining {
                        *budget_remaining = *budget_remaining - bounty.value;
                        let nb = Bounty { status: BountyStatus::Funded, ..bounty };
                        proof {
                            lemma_insert_present(self.bounties@, index, nb);
                        }
                        self.bounties.insert(index, nb);
                        effects.push(Effect::Unreserve { who: bounty.proposer, amount: bounty.bond });
                        effects.push(
                            Effect::DepositCreating { to: Account::Bounty(index), amount: bounty.value },
                        );
                        effects.push(Effect::Emit(Event::BountyBecameActive { index }));
                        proof {
                            assert(effects@ =~= prev.effects + seq![
                                Effect::Unreserve { who: bounty.proposer, amount: bounty.bond },
                                Effect::DepositCreating { to: Account::Bounty(index), amount: bounty.value },
                                Effect::Emit(Event::BountyBecameActive { index }),
                            ]);
                        }
                    } else {
                        *missed_any = true;
                        kept.push(index);
                    }
                },
                None => {},
            }
            i += 1;
        }
        proof {
            assert(self.approvals@.take(n as int) =~= self.approvals@);
        }
        self.approvals = kept;
        (effects, n as u32)
    }

    /// Check the storage invariant: the bounty count is at least the number
    /// of bounties and of descriptions, and these two numbers agree.
    pub fn do_try_state(&self) -> (r: Result<(), TryStateError>)
        ensures
            r == try_state_spec(self@),
    {
        self.try_state_bounties_count()
    }

    fn try_state_bounties_count(&self) -> (r: Result<(), TryStateError>)
        ensures
            r == try_state_spec(self@),
    {
        let bounties_length = self.bounties.len();
        let descriptions_length = self.descriptions.len();
        if (self.bounty_count as usize) < bounties_length {
            return Err(TryStateError::CountBelowBounties);
        }
        if (self.bounty_count as usize) < descriptions_length {
            return Err(TryStateError::CountBelowDescriptions);
        }
        if bounties_length != descriptions_length {
            return Err(TryStateError::DescriptionsMismatch);
        }
        Ok(())
    }

    /// Retry the payment that funds or closes a bounty: not implemented yet,
    /// so the call changes nothing.
    pub fn process_payment(&mut self, bounty_id: BountyIndex)
        ensures
            final(self)@ == old(self)@,
    {
    }

    /// Check the payment statuses of a bounty: not implemented yet, so the
    /// call changes nothing.
    pub fn check_payment_status(&mut self, bounty_id: BountyIndex)
        ensures
            final(self)@ == old(self)@,
    {
    }
}

} // verus!
