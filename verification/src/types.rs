//! Identifiers, amounts, records, notifications and errors of the ledger.

use crate::account::AccountId;
use vstd::prelude::*;

verus! {

/// An amount of the ledger's currency.
pub type Balance = u128;

/// A block height, as the host counts it.
pub type BlockNumber = u32;

/// The number of a proposal within its DAO, counted from 1.
pub type ProposalId = u32;

/// The number of a DAO, counted from 1.
pub type DaoId = u32;

/// What every vote costs the voter, whatever its weight.
pub const VOTE_COST: Balance = 2;

/// For how many blocks after its creation a proposal takes votes.
pub const VOTING_WINDOW: BlockNumber = 1000;

/// Notification: a proposal was created.
#[derive(Clone, Copy, Debug, PartialEq, Eq)]
pub struct ProposalCreated {
    pub dao_id: DaoId,
    pub proposal_id: ProposalId,
}

/// Notification: a vote was cast.
#[derive(Clone, Copy, Debug, PartialEq, Eq)]
pub struct VoteMade {
    pub id: (DaoId, ProposalId),
    pub is_in_favor: bool,
}

/// Notification: a DAO was created.
#[derive(Clone, Copy, Debug, PartialEq, Eq)]
pub struct DaoCreated {
    pub dao_id: DaoId,
}

/// Notification: balance moved from one account to another.
#[derive(Clone, Copy, Debug, PartialEq, Eq)]
pub struct BalanceTransfer {
    pub from: AccountId,
    pub to: AccountId,
    pub amount: Balance,
}

/// Notification: an account revealed the value behind its commitment.
#[derive(Clone, Copy, Debug, PartialEq, Eq)]
pub struct ValueRevealed {
    pub account: AccountId,
    pub value: u64,
}

/// A notification that an operation hands to the host for delivery.
#[derive(Clone, Copy, Debug, PartialEq, Eq)]
pub enum Event {
    ProposalCreated(ProposalCreated),
    VoteMade(VoteMade),
    DaoCreated(DaoCreated),
    BalanceTransfer(BalanceTransfer),
    ValueRevealed(ValueRevealed),
}

/// What the ledger records of a DAO.
#[derive(Clone, Copy, Debug, PartialEq, Eq)]
pub struct DaoInfo {
    /// Who owns the DAO.
    pub owner: AccountId,
    /// The block at which the DAO was created.
    pub birth_block: BlockNumber,
    /// The id that the DAO's next proposal will get.
    pub next_proposal_id: ProposalId,
    /// What a vote on one of the DAO's proposals costs.
    pub vote_cost: Balance,
}

/// Why an operation was refused.
#[derive(Clone, Copy, Debug, PartialEq, Eq)]
pub enum ContractError {
    /// The DAO, or the proposal within it, does not exist.
    NonExistentDao,
    /// The caller is not the owner of the contract.
    InsufficientPermission,
    /// The account holds less than the operation takes.
    InsufficientBalance,
    /// Reserved.
    ProposalNonExistent,
    /// The account has already voted on the proposal.
    VoteAlreadyMade,
    /// Reserved.
    VoteNotYetMade,
    /// The proposal no longer takes votes.
    VotingClosed,
    /// The account has already submitted a commitment.
    ValueAlreadySubmitted,
    /// The reveal comes before the reveal block height.
    InvalidRevealBlock,
    /// The account has submitted no commitment.
    ValueNotSubmitted,
    /// The revealed value does not hash to the commitment.
    InvalidReveal,
    /// The receiving account's balance would exceed the largest amount.
    BalanceOverflow,
}

/// The result of an operation that returns nothing on success.
pub type ContractResult = Result<(), ContractError>;

} // verus!
