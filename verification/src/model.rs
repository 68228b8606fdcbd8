//! The ledger as a mathematical state machine.
//!
//! `State` is what a ledger holds, as maps; for each operation one spec
//! function gives the result of a call and another the state after it. The
//! contracts of the executable operations are stated over these functions.

use crate::account::AccountId;
use crate::hash::commitment_of;
use crate::types::{
    Balance, BlockNumber, ContractError, ContractResult, DaoId, DaoInfo, Event, ProposalId, VOTE_COST,
    VOTING_WINDOW,
};
use vstd::prelude::*;

verus! {

/// A proposal, as the contracts see it.
#[verifier::ext_equal]
pub struct ProposalView {
    pub info: Seq<char>,
    pub created_at: BlockNumber,
    pub destroy_at: BlockNumber,
    pub votes_in_favour: Map<AccountId, Balance>,
    pub votes_against: Map<AccountId, Balance>,
}

/// The commit-reveal round, as the contracts see it.
#[verifier::ext_equal]
pub struct RandomNumberView {
    pub masked_values: Map<AccountId, Seq<u8>>,
    pub revealed_values: Map<AccountId, u64>,
    pub reveal_block_height: BlockNumber,
}

/// All that a ledger holds.
#[verifier::ext_equal]
pub struct State {
    pub owner: AccountId,
    pub accounts: Map<AccountId, Balance>,
    pub daos: Map<DaoId, DaoInfo>,
    pub proposals: Map<(DaoId, ProposalId), ProposalView>,
    pub next_dao_id: DaoId,
    pub random_number: RandomNumberView,
}

/// The balance that `accounts` records for `account`: 0 where it records nothing.
pub open spec fn balance_of(accounts: Map<AccountId, Balance>, account: AccountId) -> Balance {
    if accounts.contains_key(account) {
        accounts[account]
    } else {
        0
    }
}

impl ProposalView {
    /// Whether `account` has voted on the proposal, on either side.
    pub open spec fn has_voted(self, account: AccountId) -> bool {
        self.votes_in_favour.contains_key(account) || self.votes_against.contains_key(account)
    }

    /// The proposal with the vote of `account`, of weight `power`, added on the
    /// side that `yes` names.
    pub open spec fn with_vote(self, account: AccountId, power: Balance, yes: bool) -> ProposalView {
        if yes {
            ProposalView { votes_in_favour: self.votes_in_favour.insert(account, power), ..self }
        } else {
            ProposalView { votes_against: self.votes_against.insert(account, power), ..self }
        }
    }
}

impl State {
    /// The state of a new ledger that `owner` owns.
    pub open spec fn initial(owner: AccountId) -> State {
        State {
            owner,
            accounts: Map::empty(),
            daos: Map::empty(),
            proposals: Map::empty(),
            next_dao_id: 1,
            random_number: RandomNumberView {
                masked_values: Map::empty(),
                revealed_values: Map::empty(),
                reveal_block_height: 0,
            },
        }
    }

    /// What holds of every state that the operations reach from a new ledger.
    pub open spec fn inv(self) -> bool {
        &&& self.next_dao_id >= 1
        &&& forall|d: DaoId| #[trigger]
            self.daos.contains_key(d) <==> 1 <= d < self.next_dao_id
        &&& forall|d: DaoId| #[trigger]
            self.daos.contains_key(d) ==> self.daos[d].next_proposal_id >= 1 && self.daos[d].vote_cost
                == VOTE_COST
        &&& forall|d: DaoId, p: ProposalId| #[trigger]
            self.proposals.contains_key((d, p)) <==> self.daos.contains_key(d) && 1 <= p
                < self.daos[d].next_proposal_id
        &&& forall|d: DaoId, p: ProposalId| #[trigger]
            self.proposals.contains_key((d, p)) ==> {
                &&& self.proposals[(d, p)].destroy_at == self.proposals[(d, p)].created_at
                    + VOTING_WINDOW
                &&& forall|a: AccountId|
                    !(#[trigger] self.proposals[(d, p)].votes_in_favour.contains_key(a)
                        && self.proposals[(d, p)].votes_against.contains_key(a))
            }
        &&& forall|a: AccountId| #[trigger]
            self.random_number.revealed_values.contains_key(a) ==> {
                &&& self.random_number.masked_values.contains_key(a)
                &&& self.random_number.masked_values[a] == commitment_of(
                    self.random_number.revealed_values[a],
                )
            }
    }

    // ----- Ledger -----
    /// The balance of `account`: what is recorded for it, and 0 for an account
    /// of which nothing is recorded.
    pub open spec fn balance(self, account: AccountId) -> Balance {
        balance_of(self.accounts, account)
    }

    /// The state with the balance of `account` set to `amount`.
    pub open spec fn with_balance(self, account: AccountId, amount: Balance) -> State {
        State { accounts: self.accounts.insert(account, amount), ..self }
    }

    /// Whether `amount` can be added to the balance of `account`.
    pub open spec fn can_credit(self, account: AccountId, amount: Balance) -> bool {
        self.balance(account) + amount <= Balance::MAX
    }

    /// Whether `amount` can be taken from the balance of `account`.
    pub open spec fn can_debit(self, account: AccountId, amount: Balance) -> bool {
        self.balance(account) >= amount
    }

    /// The state after `amount` was added to the balance of `account`.
    pub open spec fn credit(self, account: AccountId, amount: Balance) -> State
        recommends
            self.can_credit(account, amount),
    {
        self.with_balance(account, (self.balance(account) + amount) as Balance)
    }

    /// The state after `amount` was taken from the balance of `account`.
    pub open spec fn debit(self, account: AccountId, amount: Balance) -> State
        recommends
            self.can_debit(account, amount),
    {
        self.with_balance(account, (self.balance(account) - amount) as Balance)
    }

    /// The result of increasing the balance of `account` by `amount`.
    pub open spec fn increase_outcome(self, account: AccountId, amount: Balance) -> ContractResult {
        if self.can_credit(account, amount) {
            Ok(())
        } else {
            Err(ContractError::BalanceOverflow)
        }
    }

    /// The state after increasing the balance of `account` by `amount`.
    pub open spec fn increase_next(self, account: AccountId, amount: Balance) -> State {
        if self.can_credit(account, amount) {
            self.credit(account, amount)
        } else {
            self
        }
    }

    /// The result of decreasing the balance of `account` by `amount`.
    pub open spec fn decrease_outcome(self, account: AccountId, amount: Balance) -> ContractResult {
        if self.can_debit(account, amount) {
            Ok(())
        } else {
            Err(ContractError::InsufficientBalance)
        }
    }

    /// The state after decreasing the balance of `account` by `amount`.
    pub open spec fn decrease_next(self, account: AccountId, amount: Balance) -> State {
        if self.can_debit(account, amount) {
            self.debit(account, amount)
        } else {
            self
        }
    }

    /// The result of a transfer of `amount` from `caller` to `target`.
    pub open spec fn transfer_outcome(
        self,
        caller: AccountId,
        target: AccountId,
        amount: Balance,
    ) -> ContractResult {
        if !self.can_debit(caller, amount) {
            Err(ContractError::InsufficientBalance)
        } else if !self.debit(caller, amount).can_credit(target, amount) {
            Err(ContractError::BalanceOverflow)
        } else {
            Ok(())
        }
    }

    /// The state after a transfer of `amount` from `caller` to `target`.
    pub open spec fn transfer_next(
        self,
        caller: AccountId,
        target: AccountId,
        amount: Balance,
    ) -> State {
        if self.transfer_outcome(caller, target, amount) is Ok {
            self.debit(caller, amount).credit(target, amount)
        } else {
            self
        }
    }

    /// The result of `caller` minting `amount` to `target`.
    pub open spec fn mint_outcome(
        self,
        caller: AccountId,
        target: AccountId,
        amount: Balance,
    ) -> ContractResult {
        if caller != self.owner {
            Err(ContractError::InsufficientPermission)
        } else if !self.can_credit(target, amount) {
            Err(ContractError::BalanceOverflow)
        } else {
            Ok(())
        }
    }

    /// The state after `caller` minting `amount` to `target`.
    pub open spec fn mint_next(self, caller: AccountId, target: AccountId, amount: Balance) -> State {
        if self.mint_outcome(caller, target, amount) is Ok {
            self.credit(target, amount)
        } else {
            self
        }
    }

    // ----- Governance -----
    /// Whether another DAO can be numbered.
    pub open spec fn can_create_dao(self) -> bool {
        self.next_dao_id < DaoId::MAX
    }

    /// The state after the creation of a DAO for `owner` at block `current_block`.
    pub open spec fn create_dao_next(self, current_block: BlockNumber, owner: AccountId) -> State
        recommends
            self.can_create_dao(),
    {
        State {
            daos: self.daos.insert(
                self.next_dao_id,
                DaoInfo {
                    owner,
                    birth_block: current_block,
                    next_proposal_id: 1,
                    vote_cost: VOTE_COST,
                },
            ),
            next_dao_id: (self.next_dao_id + 1) as DaoId,
            ..self
        }
    }

    /// Whether a proposal created at `current_block` under `dao_id` can be
    /// numbered and its voting window counted. Nothing is asked where the DAO
    /// does not exist: the call is then refused before anything is counted.
    pub open spec fn can_create_proposal(self, current_block: BlockNumber, dao_id: DaoId) -> bool {
        self.daos.contains_key(dao_id) ==> {
            &&& current_block + VOTING_WINDOW <= BlockNumber::MAX
            &&& self.daos[dao_id].next_proposal_id < ProposalId::MAX
        }
    }

    /// The result of creating a proposal under `dao_id`.
    pub open spec fn create_proposal_outcome(self, dao_id: DaoId) -> Result<
        ProposalId,
        ContractError,
    > {
        if self.daos.contains_key(dao_id) {
            Ok(self.daos[dao_id].next_proposal_id)
        } else {
            Err(ContractError::NonExistentDao)
        }
    }

    /// The state after creating a proposal with the text `info` under `dao_id`
    /// at block `current_block`.
    pub open spec fn create_proposal_next(
        self,
        current_block: BlockNumber,
        dao_id: DaoId,
        info: Seq<char>,
    ) -> State
        recommends
            self.can_create_proposal(current_block, dao_id),
    {
        if self.daos.contains_key(dao_id) {
            let dao = self.daos[dao_id];
            State {
                proposals: self.proposals.insert(
                    (dao_id, dao.next_proposal_id),
                    ProposalView {
                        info,
                        created_at: current_block,
                        destroy_at: (current_block + VOTING_WINDOW) as BlockNumber,
                        votes_in_favour: Map::empty(),
                        votes_against: Map::empty(),
                    },
                ),
                daos: self.daos.insert(
                    dao_id,
                    DaoInfo { next_proposal_id: (dao.next_proposal_id + 1) as ProposalId, ..dao },
                ),
                ..self
            }
        } else {
            self
        }
    }

    /// The result of `caller` voting on proposal `proposal_id` of `dao_id` at
    /// block `current_block`. The side of the vote does not matter to it.
    pub open spec fn vote_outcome(
        self,
        caller: AccountId,
        current_block: BlockNumber,
        dao_id: DaoId,
        proposal_id: ProposalId,
    ) -> ContractResult {
        if !self.proposals.contains_key((dao_id, proposal_id)) || !self.daos.contains_key(dao_id) {
            Err(ContractError::NonExistentDao)
        } else if self.balance(caller) < self.daos[dao_id].vote_cost {
            Err(ContractError::InsufficientBalance)
        } else if self.proposals[(dao_id, proposal_id)].destroy_at < current_block {
            Err(ContractError::VotingClosed)
        } else if self.proposals[(dao_id, proposal_id)].has_voted(caller) {
            Err(ContractError::VoteAlreadyMade)
        } else {
            Ok(())
        }
    }

    /// The state after `caller` voting on proposal `proposal_id` of `dao_id`:
    /// the caller's whole balance is recorded as the weight of the vote, and
    /// the DAO's vote cost leaves the balance.
    pub open spec fn vote_next(
        self,
        caller: AccountId,
        current_block: BlockNumber,
        dao_id: DaoId,
        proposal_id: ProposalId,
        yes: bool,
    ) -> State {
        if self.vote_outcome(caller, current_block, dao_id, proposal_id) is Ok {
            State {
                proposals: self.proposals.insert(
                    (dao_id, proposal_id),
                    self.proposals[(dao_id, proposal_id)].with_vote(
                        caller,
                        self.balance(caller),
                        yes,
                    ),
                ),
                ..self
            }.debit(caller, self.daos[dao_id].vote_cost)
        } else {
            self
        }
    }

    // ----- Commit and reveal -----
    /// The result of `caller` submitting a commitment.
    pub open spec fn submit_outcome(self, caller: AccountId) -> ContractResult {
        if self.random_number.masked_values.contains_key(caller) {
            Err(ContractError::ValueAlreadySubmitted)
        } else {
            Ok(())
        }
    }

    /// The state after `caller` submitting the commitment `value_hash`.
    pub open spec fn submit_next(self, caller: AccountId, value_hash: Seq<u8>) -> State {
        if self.submit_outcome(caller) is Ok {
            State {
                random_number: RandomNumberView {
                    masked_values: self.random_number.masked_values.insert(caller, value_hash),
                    ..self.random_number
                },
                ..self
            }
        } else {
            self
        }
    }

    /// The result of `caller` revealing a value at block `current_block`, where
    /// `digest` is the digest of the value's encoding.
    pub open spec fn reveal_outcome(
        self,
        caller: AccountId,
        current_block: BlockNumber,
        digest: Seq<u8>,
    ) -> ContractResult {
        if !self.random_number.masked_values.contains_key(caller) {
            Err(ContractError::ValueNotSubmitted)
        } else if current_block < self.random_number.reveal_block_height {
            Err(ContractError::InvalidRevealBlock)
        } else if digest != self.random_number.masked_values[caller] {
            Err(ContractError::InvalidReveal)
        } else {
            Ok(())
        }
    }

    /// The state after `caller` revealing `value` at block `current_block`,
    /// where `digest` is the digest of the value's encoding.
    pub open spec fn reveal_next(
        self,
        caller: AccountId,
        current_block: BlockNumber,
        value: u64,
        digest: Seq<u8>,
    ) -> State {
        if self.reveal_outcome(caller, current_block, digest) is Ok {
            State {
                random_number: RandomNumberView {
                    revealed_values: self.random_number.revealed_values.insert(caller, value),
                    ..self.random_number
                },
                ..self
            }
        } else {
            self
        }
    }

    /// The result of `caller` setting the reveal block height.
    pub open spec fn set_height_outcome(self, caller: AccountId) -> ContractResult {
        if caller != self.owner {
            Err(ContractError::InsufficientPermission)
        } else {
            Ok(())
        }
    }

    /// The state after `caller` setting the reveal block height to `block_height`.
    pub open spec fn set_height_next(self, caller: AccountId, block_height: BlockNumber) -> State {
        if self.set_height_outcome(caller) is Ok {
            State {
                random_number: RandomNumberView {
                    reveal_block_height: block_height,
                    ..self.random_number
                },
                ..self
            }
        } else {
            self
        }
    }
}

/// The notifications that an operation emits: `event` if its result is `Ok`,
/// none otherwise.
pub open spec fn emitted<T>(outcome: Result<T, ContractError>, event: Event) -> Seq<Event> {
    if outcome is Ok {
        seq![event]
    } else {
        Seq::empty()
    }
}

} // verus!
