//! Histories of calls, and what holds of every history.
//!
//! A `Call` is one call of an operation of the ledger with its arguments, the
//! caller and the block that the host supplies included. `State::step` is the
//! state after one call and `State::run` the state after a sequence of them.
//! The theorems of this module speak of all states and all histories.

use crate::account::AccountId;
use crate::hash::commitment_of;
use crate::model::State;
use crate::types::{Balance, BlockNumber, ContractError, DaoId, ProposalId};
use vstd::prelude::*;

verus! {

/// One call of an operation of the ledger. Each variant stands for the
/// method of `Dao` of the same name, whose contract says that it takes the
/// ledger from a state to `State::step` of that state and the call.
pub enum Call {
    /// `Dao::transfer`
    Transfer { caller: AccountId, target: AccountId, amount: Balance },
    /// `Dao::mint`
    Mint { caller: AccountId, target: AccountId, amount: Balance },
    /// `Dao::create_dao`
    CreateDao { current_block: BlockNumber, owner: AccountId },
    /// `Dao::create_proposal`
    CreateProposal { current_block: BlockNumber, dao_id: DaoId, info: Seq<char> },
    /// `Dao::vote`
    Vote {
        caller: AccountId,
        current_block: BlockNumber,
        dao_id: DaoId,
        proposal_id: ProposalId,
        yes: bool,
    },
    /// `Dao::submit_masked_value`
    SubmitMaskedValue { caller: AccountId, value_hash: Seq<u8> },
    /// `Dao::reveal_value`
    RevealValue { caller: AccountId, current_block: BlockNumber, value: u64 },
    /// `Dao::set_reveal_block_height`
    SetRevealBlockHeight { caller: AccountId, block_height: BlockNumber },
}

impl State {
    /// Whether the operation's `requires` admits the call in this state: the
    /// counters and the voting window stay within their integer types.
    pub open spec fn admits(self, call: Call) -> bool {
        match call {
            Call::CreateDao { .. } => self.can_create_dao(),
            Call::CreateProposal { current_block, dao_id, .. } => self.can_create_proposal(
                current_block,
                dao_id,
            ),
            _ => true,
        }
    }

    /// Whether the call succeeds in this state.
    pub open spec fn accepts(self, call: Call) -> bool {
        match call {
            Call::Transfer { caller, target, amount } => self.transfer_outcome(
                caller,
                target,
                amount,
            ) is Ok,
            Call::Mint { caller, target, amount } => self.mint_outcome(caller, target, amount) is Ok,
            Call::CreateDao { .. } => true,
            Call::CreateProposal { dao_id, .. } => self.create_proposal_outcome(dao_id) is Ok,
            Call::Vote { caller, current_block, dao_id, proposal_id, .. } => self.vote_outcome(
                caller,
                current_block,
                dao_id,
                proposal_id,
            ) is Ok,
            Call::SubmitMaskedValue { caller, .. } => self.submit_outcome(caller) is Ok,
            Call::RevealValue { caller, current_block, value } => self.reveal_outcome(
                caller,
                current_block,
                commitment_of(value),
            ) is Ok,
            Call::SetRevealBlockHeight { caller, .. } => self.set_height_outcome(caller) is Ok,
        }
    }

    /// The state after the call.
    pub open spec fn step(self, call: Call) -> State {
        match call {
            Call::Transfer { caller, target, amount } => self.transfer_next(caller, target, amount),
            Call::Mint { caller, target, amount } => self.mint_next(caller, target, amount),
            Call::CreateDao { current_block, owner } => self.create_dao_next(current_block, owner),
            Call::CreateProposal { current_block, dao_id, info } => self.create_proposal_next(
                current_block,
                dao_id,
                info,
            ),
            Call::Vote { caller, current_block, dao_id, proposal_id, yes } => self.vote_next(
                caller,
                current_block,
                dao_id,
                proposal_id,
                yes,
            ),
            Call::SubmitMaskedValue { caller, value_hash } => self.submit_next(caller, value_hash),
            Call::RevealValue { caller, current_block, value } => self.reveal_next(
                caller,
                current_block,
                value,
                commitment_of(value),
            ),
            Call::SetRevealBlockHeight { caller, block_height } => self.set_height_next(
                caller,
                block_height,
            ),
        }
    }

    /// The state after the calls of `calls`, made one after the other.
    pub open spec fn run(self, calls: Seq<Call>) -> State
        decreases calls.len(),
    {
        if calls.len() == 0 {
            self
        } else {
            self.run(calls.drop_last()).step(calls.last())
        }
    }

    /// Whether each call of `calls` is admitted in the state in which it is made.
    pub open spec fn admits_all(self, calls: Seq<Call>) -> bool
        decreases calls.len(),
    {
        calls.len() == 0 || (self.admits_all(calls.drop_last()) && self.run(
            calls.drop_last(),
        ).admits(calls.last()))
    }
}

// ----- The invariant -----
/// The state of a new ledger satisfies the state invariant.
pub proof fn lemma_initial_inv(owner: AccountId)
    ensures
        State::initial(owner).inv(),
{
}

/// Every call that a state admits keeps the state invariant, whether the call
/// succeeds or fails.
pub proof fn lemma_step_keeps_inv(state: State, call: Call)
    requires
        state.inv(),
        state.admits(call),
    ensures
        state.step(call).inv(),
{
}

/// Every state that a history of admitted calls reaches from a state that
/// satisfies the invariant satisfies it too. In particular no account is ever
/// recorded on both sides of a proposal, ids are never reused, and every
/// revealed value hashes to the commitment of its account.
pub proof fn lemma_run_keeps_inv(state: State, calls: Seq<Call>)
    requires
        state.inv(),
        state.admits_all(calls),
    ensures
        state.run(calls).inv(),
    decreases calls.len(),
{
    if calls.len() > 0 {
        lemma_run_keeps_inv(state, calls.drop_last());
        lemma_step_keeps_inv(state.run(calls.drop_last()), calls.last());
    }
}

// ----- Balances -----
/// What the call adds to the balance of `account` in `state`: the amount of a
/// mint or of a transfer that succeeds and has `account` as its target.
pub open spec fn credit_of(state: State, call: Call, account: AccountId) -> int {
    match call {
        Call::Transfer { target, amount, .. } => if state.accepts(call) && target == account {
            amount as int
        } else {
            0
        },
        Call::Mint { target, amount, .. } => if state.accepts(call) && target == account {
            amount as int
        } else {
            0
        },
        _ => 0,
    }
}

/// What the call takes from the balance of `account` in `state`: the amount
/// of a transfer that succeeds and has `account` as its caller, and the vote
/// cost of a vote that `account` casts with success.
pub open spec fn debit_of(state: State, call: Call, account: AccountId) -> int {
    match call {
        Call::Transfer { caller, amount, .. } => if state.accepts(call) && caller == account {
            amount as int
        } else {
            0
        },
        Call::Vote { caller, dao_id, .. } => if state.accepts(call) && caller == account {
            state.daos[dao_id].vote_cost as int
        } else {
            0
        },
        _ => 0,
    }
}

/// The sum of what the calls of `calls`, made one after the other from
/// `state` on, add to the balance of `account`.
pub open spec fn credits(state: State, calls: Seq<Call>, account: AccountId) -> int
    decreases calls.len(),
{
    if calls.len() == 0 {
        0
    } else {
        credits(state, calls.drop_last(), account) + credit_of(
            state.run(calls.drop_last()),
            calls.last(),
            account,
        )
    }
}

/// The sum of what the calls of `calls`, made one after the other from
/// `state` on, take from the balance of `account`.
pub open spec fn debits(state: State, calls: Seq<Call>, account: AccountId) -> int
    decreases calls.len(),
{
    if calls.len() == 0 {
        0
    } else {
        debits(state, calls.drop_last(), account) + debit_of(
            state.run(calls.drop_last()),
            calls.last(),
            account,
        )
    }
}

/// One call changes a balance by what it credits less what it debits.
pub proof fn lemma_step_balance(state: State, call: Call, account: AccountId)
    ensures
        state.step(call).balance(account) == state.balance(account) + credit_of(
            state,
            call,
            account,
        ) - debit_of(state, call, account),
{
}

/// After any history, the balance of every account is what it was before,
/// plus the mints and incoming transfers that succeeded, less the outgoing
/// transfers and vote costs that succeeded. No balance wraps: a call that
/// would take a balance below zero or above the largest amount fails and is
/// not counted.
pub proof fn lemma_run_balance(state: State, calls: Seq<Call>, account: AccountId)
    ensures
        state.run(calls).balance(account) == state.balance(account) + credits(
            state,
            calls,
            account,
        ) - debits(state, calls, account),
    decreases calls.len(),
{
    if calls.len() > 0 {
        lemma_run_balance(state, calls.drop_last(), account);
        lemma_step_balance(state.run(calls.drop_last()), calls.last(), account);
    }
}

/// On a ledger that starts empty, the balance of every account is the sum of
/// the mints and incoming transfers that succeeded, less the outgoing
/// transfers and vote costs that succeeded.
pub proof fn theorem_balance_is_credits_less_debits(
    owner: AccountId,
    calls: Seq<Call>,
    account: AccountId,
)
    ensures
        State::initial(owner).run(calls).balance(account) == credits(
            State::initial(owner),
            calls,
            account,
        ) - debits(State::initial(owner), calls, account),
{
    lemma_run_balance(State::initial(owner), calls, account);
}

// ----- Ids -----
/// The ids that the calls of `calls` that create a DAO return, in the order
/// of the calls.
pub open spec fn dao_ids(state: State, calls: Seq<Call>) -> Seq<DaoId>
    decreases calls.len(),
{
    if calls.len() == 0 {
        Seq::empty()
    } else if calls.last() is CreateDao {
        dao_ids(state, calls.drop_last()).push(state.run(calls.drop_last()).next_dao_id)
    } else {
        dao_ids(state, calls.drop_last())
    }
}

/// The ids that the calls of `calls` that create a proposal under `dao_id`
/// with success return, in the order of the calls.
pub open spec fn proposal_ids(state: State, calls: Seq<Call>, dao_id: DaoId) -> Seq<ProposalId>
    decreases calls.len(),
{
    if calls.len() == 0 {
        Seq::empty()
    } else {
        let before = state.run(calls.drop_last());
        match calls.last() {
            Call::CreateProposal { dao_id: under, .. } => if under == dao_id && before.accepts(
                calls.last(),
            ) {
                proposal_ids(state, calls.drop_last(), dao_id).push(
                    before.daos[dao_id].next_proposal_id,
                )
            } else {
                proposal_ids(state, calls.drop_last(), dao_id)
            },
            _ => proposal_ids(state, calls.drop_last(), dao_id),
        }
    }
}

/// In any history of a new ledger, the calls that create a DAO return the
/// ids 1, 2, 3, ... in this order, whatever other calls stand between them:
/// the ids are distinct and strictly increasing, and the next id is one more
/// than the number of DAOs created.
pub proof fn theorem_dao_ids_count_from_one(owner: AccountId, calls: Seq<Call>)
    requires
        State::initial(owner).admits_all(calls),
    ensures
        forall|i: int|
            0 <= i < dao_ids(State::initial(owner), calls).len() ==> #[trigger] dao_ids(
                State::initial(owner),
                calls,
            )[i] == i + 1,
        forall|i: int, j: int|
            0 <= i < j < dao_ids(State::initial(owner), calls).len() ==> #[trigger] dao_ids(
                State::initial(owner),
                calls,
            )[i] < #[trigger] dao_ids(State::initial(owner), calls)[j],
        State::initial(owner).run(calls).next_dao_id == dao_ids(
            State::initial(owner),
            calls,
        ).len() + 1,
    decreases calls.len(),
{
    if calls.len() > 0 {
        theorem_dao_ids_count_from_one(owner, calls.drop_last());
    }
}

/// In any history of a new ledger, the calls that create a proposal under
/// one DAO with success return the ids 1, 2, 3, ... in this order, whatever
/// other calls stand between them, those that create proposals under other
/// DAOs included: the ids are distinct and strictly increasing. As long as
/// the DAO does not exist, no such call succeeds.
pub proof fn theorem_proposal_ids_count_from_one(owner: AccountId, calls: Seq<Call>, dao_id: DaoId)
    requires
        State::initial(owner).admits_all(calls),
    ensures
        forall|i: int|
            0 <= i < proposal_ids(State::initial(owner), calls, dao_id).len()
                ==> #[trigger] proposal_ids(State::initial(owner), calls, dao_id)[i] == i + 1,
        forall|i: int, j: int|
            0 <= i < j < proposal_ids(State::initial(owner), calls, dao_id).len()
                ==> #[trigger] proposal_ids(State::initial(owner), calls, dao_id)[i]
                < #[trigger] proposal_ids(State::initial(owner), calls, dao_id)[j],
        State::initial(owner).run(calls).daos.contains_key(dao_id) ==> State::initial(owner).run(
            calls,
        ).daos[dao_id].next_proposal_id == proposal_ids(
            State::initial(owner),
            calls,
            dao_id,
        ).len() + 1,
        !State::initial(owner).run(calls).daos.contains_key(dao_id) ==> proposal_ids(
            State::initial(owner),
            calls,
            dao_id,
        ).len() == 0,
    decreases calls.len(),
{
    if calls.len() > 0 {
        theorem_proposal_ids_count_from_one(owner, calls.drop_last(), dao_id);
        lemma_initial_inv(owner);
        lemma_run_keeps_inv(State::initial(owner), calls.drop_last());
    }
}

// ----- Votes -----
/// A vote that has been cast stays: after any admitted call, an account that
/// had voted on a proposal has still voted on it, on the same side and with
/// the same weight.
pub proof fn lemma_step_keeps_votes(
    state: State,
    call: Call,
    dao_id: DaoId,
    proposal_id: ProposalId,
    account: AccountId,
)
    requires
        state.inv(),
        state.admits(call),
        state.proposals.contains_key((dao_id, proposal_id)),
    ensures
        state.step(call).proposals.contains_key((dao_id, proposal_id)),
        state.proposals[(dao_id, proposal_id)].votes_in_favour.contains_key(account) ==> state.step(
            call,
        ).proposals[(dao_id, proposal_id)].votes_in_favour.contains_key(account) && state.step(
            call,
        ).proposals[(dao_id, proposal_id)].votes_in_favour[account] == state.proposals[(
            dao_id,
            proposal_id,
        )].votes_in_favour[account],
        state.proposals[(dao_id, proposal_id)].votes_against.contains_key(account) ==> state.step(
            call,
        ).proposals[(dao_id, proposal_id)].votes_against.contains_key(account) && state.step(
            call,
        ).proposals[(dao_id, proposal_id)].votes_against[account] == state.proposals[(
            dao_id,
            proposal_id,
        )].votes_against[account],
        state.step(call).proposals[(dao_id, proposal_id)].destroy_at == state.proposals[(
            dao_id,
            proposal_id,
        )].destroy_at,
{
}

/// The same, over any history of admitted calls.
pub proof fn lemma_run_keeps_votes(
    state: State,
    calls: Seq<Call>,
    dao_id: DaoId,
    proposal_id: ProposalId,
    account: AccountId,
)
    requires
        state.inv(),
        state.admits_all(calls),
        state.proposals.contains_key((dao_id, proposal_id)),
        state.proposals[(dao_id, proposal_id)].has_voted(account),
    ensures
        state.run(calls).proposals.contains_key((dao_id, proposal_id)),
        state.run(calls).proposals[(dao_id, proposal_id)].has_voted(account),
    decreases calls.len(),
{
    if calls.len() > 0 {
        lemma_run_keeps_votes(state, calls.drop_last(), dao_id, proposal_id, account);
        lemma_run_keeps_inv(state, calls.drop_last());
        lemma_step_keeps_votes(
            state.run(calls.drop_last()),
            calls.last(),
            dao_id,
            proposal_id,
            account,
        );
    }
}

/// An account votes on a proposal at most once. After a vote of `caller` on
/// a proposal has succeeded, and whatever admitted calls came after it, a
/// further vote of `caller` on that proposal fails, on either side and at any
/// block; and after the vote the caller is recorded on exactly the side it
/// chose. The further vote fails with `VoteAlreadyMade` where the earlier
/// checks pass: the caller's balance still covers the vote cost and the
/// proposal still takes votes.
pub proof fn theorem_one_vote_per_account(
    state: State,
    caller: AccountId,
    first_block: BlockNumber,
    dao_id: DaoId,
    proposal_id: ProposalId,
    yes: bool,
    later: Seq<Call>,
    second_block: BlockNumber,
)
    requires
        state.inv(),
        state.vote_outcome(caller, first_block, dao_id, proposal_id) is Ok,
        state.vote_next(caller, first_block, dao_id, proposal_id, yes).admits_all(later),
    ensures
        ({
            let voted = state.vote_next(caller, first_block, dao_id, proposal_id, yes);
            let proposal = voted.proposals[(dao_id, proposal_id)];
            &&& proposal.votes_in_favour.contains_key(caller) <==> yes
            &&& proposal.votes_against.contains_key(caller) <==> !yes
        }),
        ({
            let then = state.vote_next(caller, first_block, dao_id, proposal_id, yes).run(later);
            &&& then.vote_outcome(caller, second_block, dao_id, proposal_id) is Err
            &&& then.balance(caller) >= then.daos[dao_id].vote_cost && second_block
                <= then.proposals[(dao_id, proposal_id)].destroy_at ==> then.vote_outcome(
                caller,
                second_block,
                dao_id,
                proposal_id,
            ) == Err::<(), ContractError>(ContractError::VoteAlreadyMade)
            &&& then.step(
                Call::Vote { caller, current_block: second_block, dao_id, proposal_id, yes: !yes },
            ) == then
            &&& then.step(
                Call::Vote { caller, current_block: second_block, dao_id, proposal_id, yes },
            ) == then
        }),
{
    let voted = state.vote_next(caller, first_block, dao_id, proposal_id, yes);
    lemma_step_keeps_inv(
        state,
        Call::Vote { caller, current_block: first_block, dao_id, proposal_id, yes },
    );
    lemma_run_keeps_votes(voted, later, dao_id, proposal_id, caller);
    lemma_run_keeps_inv(voted, later);
}

/// A proposal takes votes up to and including its last block, and no longer.
/// For a caller whose balance covers the vote cost and who has not voted on
/// the proposal, a vote succeeds exactly when the current block is not past
/// `destroy_at`; at `destroy_at` it succeeds, and one block later it fails
/// with `VotingClosed`.
pub proof fn theorem_voting_window(
    state: State,
    caller: AccountId,
    current_block: BlockNumber,
    dao_id: DaoId,
    proposal_id: ProposalId,
)
    requires
        state.proposals.contains_key((dao_id, proposal_id)),
        state.daos.contains_key(dao_id),
        state.balance(caller) >= state.daos[dao_id].vote_cost,
        !state.proposals[(dao_id, proposal_id)].has_voted(caller),
    ensures
        state.vote_outcome(caller, current_block, dao_id, proposal_id) is Ok <==> current_block
            <= state.proposals[(dao_id, proposal_id)].destroy_at,
        current_block > state.proposals[(dao_id, proposal_id)].destroy_at ==> state.vote_outcome(
            caller,
            current_block,
            dao_id,
            proposal_id,
        ) == Err::<(), ContractError>(ContractError::VotingClosed),
        current_block == state.proposals[(dao_id, proposal_id)].destroy_at ==> state.vote_outcome(
            caller,
            current_block,
            dao_id,
            proposal_id,
        ) == Ok::<(), ContractError>(()),
        current_block == state.proposals[(dao_id, proposal_id)].destroy_at + 1
            ==> state.vote_outcome(caller, current_block, dao_id, proposal_id) == Err::<
            (),
            ContractError,
        >(ContractError::VotingClosed),
{
}

/// A proposal never opens again: a vote that fails with `VotingClosed` at one
/// block fails with it at every later block, whatever admitted calls come
/// between.
pub proof fn theorem_closed_stays_closed(
    state: State,
    caller: AccountId,
    current_block: BlockNumber,
    dao_id: DaoId,
    proposal_id: ProposalId,
    later: Seq<Call>,
    later_block: BlockNumber,
)
    requires
        state.inv(),
        state.admits_all(later),
        state.proposals.contains_key((dao_id, proposal_id)),
        state.proposals[(dao_id, proposal_id)].destroy_at < current_block,
        current_block <= later_block,
    ensures
        state.run(later).vote_outcome(caller, later_block, dao_id, proposal_id) is Err,
        state.run(later).proposals.contains_key((dao_id, proposal_id)),
        state.run(later).proposals[(dao_id, proposal_id)].destroy_at < later_block,
    decreases later.len(),
{
    if later.len() > 0 {
        theorem_closed_stays_closed(
            state,
            caller,
            current_block,
            dao_id,
            proposal_id,
            later.drop_last(),
            later_block,
        );
        lemma_run_keeps_inv(state, later.drop_last());
        lemma_step_keeps_votes(
            state.run(later.drop_last()),
            later.last(),
            dao_id,
            proposal_id,
            caller,
        );
    }
}

// ----- Commit and reveal -----
/// A commitment that has been submitted stays as it is: no admitted call
/// removes or changes it.
pub proof fn lemma_run_keeps_commitment(state: State, calls: Seq<Call>, account: AccountId)
    requires
        state.random_number.masked_values.contains_key(account),
    ensures
        state.run(calls).random_number.masked_values.contains_key(account),
        state.run(calls).random_number.masked_values[account]
            == state.random_number.masked_values[account],
    decreases calls.len(),
{
    if calls.len() > 0 {
        lemma_run_keeps_commitment(state, calls.drop_last(), account);
    }
}

/// The round trip of commit and reveal. Let `caller`, who has no commitment
/// yet, submit the commitment of `value`, and let any calls follow. Then:
/// a second submission by `caller` fails with `ValueAlreadySubmitted`;
/// revealing `value` succeeds at every block from the reveal block height
/// on, and records `value` for the caller; revealing before that block
/// fails with `InvalidRevealBlock`; and from that block on, revealing a
/// value whose commitment differs from the one submitted fails with
/// `InvalidReveal`.
pub proof fn theorem_commit_reveal_round_trip(
    state: State,
    caller: AccountId,
    value: u64,
    later: Seq<Call>,
    current_block: BlockNumber,
    other: u64,
)
    requires
        state.submit_outcome(caller) is Ok,
    ensures
        ({
            let then = state.submit_next(caller, commitment_of(value)).run(later);
            let height = then.random_number.reveal_block_height;
            &&& then.submit_outcome(caller) == Err::<(), ContractError>(
                ContractError::ValueAlreadySubmitted,
            )
            &&& current_block >= height ==> then.reveal_outcome(
                caller,
                current_block,
                commitment_of(value),
            ) == Ok::<(), ContractError>(())
            &&& current_block >= height ==> then.reveal_next(
                caller,
                current_block,
                value,
                commitment_of(value),
            ).random_number.revealed_values[caller] == value
            &&& current_block < height ==> then.reveal_outcome(
                caller,
                current_block,
                commitment_of(other),
            ) == Err::<(), ContractError>(ContractError::InvalidRevealBlock)
            &&& current_block >= height && commitment_of(other) != commitment_of(value)
                ==> then.reveal_outcome(caller, current_block, commitment_of(other)) == Err::<
                (),
                ContractError,
            >(ContractError::InvalidReveal)
        }),
{
    lemma_run_keeps_commitment(state.submit_next(caller, commitment_of(value)), later, caller);
}

} // verus!
