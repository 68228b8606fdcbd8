//! The ledger and its operations.
//!
//! Every operation is one atomic step: it reads the state, checks what the
//! call needs, and either changes the state and reports success or leaves the
//! state as it was and reports why. The host hands in the caller and the
//! current block, and takes the notifications from the `events` that the
//! operation appends to.

use crate::account::AccountId;
use crate::hash::{commitment_of, same_bytes, sha2_256_digest, u64_to_be_bytes};
use crate::model::{balance_of, emitted, ProposalView, RandomNumberView, State};
use crate::store::{built, lemma_built_is_as_map, lemma_built_values, lemma_slot_is_unique, Store};
use crate::types::{
    Balance, BalanceTransfer, BlockNumber, ContractError, ContractResult, DaoCreated, DaoId,
    DaoInfo, Event, ProposalCreated, ProposalId, ValueRevealed, VoteMade, VOTE_COST,
    VOTING_WINDOW,
};
use vstd::prelude::*;

verus! {

/// A proposal of a DAO, with the votes cast on it.
pub struct ProrposalInfo {
    /// What the proposal says.
    info: String,
    /// The block at which the proposal was created.
    created_at: BlockNumber,
    /// The last block at which the proposal takes votes.
    destroy_at: BlockNumber,
    /// The votes in favour: for each voter the weight of the vote.
    votes_in_favour: Store<AccountId, Balance>,
    /// The votes against: for each voter the weight of the vote.
    votes_against: Store<AccountId, Balance>,
}

impl View for ProrposalInfo {
    type V = ProposalView;

    closed spec fn view(&self) -> ProposalView {
        ProposalView {
            info: self.info@,
            created_at: self.created_at,
            destroy_at: self.destroy_at,
            votes_in_favour: self.votes_in_favour@,
            votes_against: self.votes_against@,
        }
    }
}

/// The contents of a proposal as plain values, for a host that keeps them.
/// Of several votes of one account on one side the first counts.
pub struct ProposalParts {
    pub info: String,
    pub created_at: BlockNumber,
    pub destroy_at: BlockNumber,
    pub votes_in_favour: Vec<(AccountId, Balance)>,
    pub votes_against: Vec<(AccountId, Balance)>,
}

impl View for ProposalParts {
    type V = ProposalView;

    open spec fn view(&self) -> ProposalView {
        ProposalView {
            info: self.info@,
            created_at: self.created_at,
            destroy_at: self.destroy_at,
            votes_in_favour: built(self.votes_in_favour@),
            votes_against: built(self.votes_against@),
        }
    }
}

impl ProrposalInfo {
    /// The invariant of the proposal's tables.
    pub closed spec fn wf(&self) -> bool {
        self.votes_in_favour.wf() && self.votes_against.wf()
    }

    /// The proposal with the contents `parts`.
    pub fn from_parts(parts: ProposalParts) -> (proposal: ProrposalInfo)
        ensures
            proposal.wf(),
            proposal@ == parts@,
    {
        ProrposalInfo {
            info: parts.info,
            created_at: parts.created_at,
            destroy_at: parts.destroy_at,
            votes_in_favour: Store::from_entries(parts.votes_in_favour),
            votes_against: Store::from_entries(parts.votes_against),
        }
    }

    /// The contents of the proposal.
    pub fn into_parts(self) -> (parts: ProposalParts)
        requires
            self.wf(),
        ensures
            parts@ == self@,
    {
        ProposalParts {
            info: self.info,
            created_at: self.created_at,
            destroy_at: self.destroy_at,
            votes_in_favour: self.votes_in_favour.into_entries(),
            votes_against: self.votes_against.into_entries(),
        }
    }

    /// What the proposal says.
    pub fn info(&self) -> (info: &String)
        ensures
            info@ == self@.info,
    {
        &self.info
    }

    /// The block at which the proposal was created.
    pub fn created_at(&self) -> (block: BlockNumber)
        ensures
            block == self@.created_at,
    {
        self.created_at
    }

    /// The last block at which the proposal takes votes.
    pub fn destroy_at(&self) -> (block: BlockNumber)
        ensures
            block == self@.destroy_at,
    {
        self.destroy_at
    }

    /// The weight of the vote that `account` cast in favour, if it cast one.
    pub fn vote_in_favour(&self, account: &AccountId) -> (weight: Option<Balance>)
        requires
            self.wf(),
        ensures
            weight == if self@.votes_in_favour.contains_key(*account) {
                Some(self@.votes_in_favour[*account])
            } else {
                None
            },
    {
        match self.votes_in_favour.get(account) {
            Some(weight) => Some(*weight),
            None => None,
        }
    }

    /// The weight of the vote that `account` cast against, if it cast one.
    pub fn vote_against(&self, account: &AccountId) -> (weight: Option<Balance>)
        requires
            self.wf(),
        ensures
            weight == if self@.votes_against.contains_key(*account) {
                Some(self@.votes_against[*account])
            } else {
                None
            },
    {
        match self.votes_against.get(account) {
            Some(weight) => Some(*weight),
            None => None,
        }
    }
}

/// The state of the commit-reveal round.
pub struct RandomNumber {
    /// The commitment that each account has submitted.
    masked_values: Store<AccountId, Vec<u8>>,
    /// The value that each account has revealed.
    revealed_values: Store<AccountId, u64>,
    /// The first block at which values may be revealed.
    reveal_block_height: BlockNumber,
}

impl View for RandomNumber {
    type V = RandomNumberView;

    closed spec fn view(&self) -> RandomNumberView {
        RandomNumberView {
            masked_values: self.masked_values@.map_values(|hash: Vec<u8>| hash@),
            revealed_values: self.revealed_values@,
            reveal_block_height: self.reveal_block_height,
        }
    }
}

/// The contents of the commit-reveal round as plain values, for a host that
/// keeps them. Of several entries of one account the first counts.
pub struct RandomNumberParts {
    pub masked_values: Vec<(AccountId, Vec<u8>)>,
    pub revealed_values: Vec<(AccountId, u64)>,
    pub reveal_block_height: BlockNumber,
}

impl View for RandomNumberParts {
    type V = RandomNumberView;

    open spec fn view(&self) -> RandomNumberView {
        RandomNumberView {
            masked_values: built(self.masked_values@).map_values(|hash: Vec<u8>| hash@),
            revealed_values: built(self.revealed_values@),
            reveal_block_height: self.reveal_block_height,
        }
    }
}

impl RandomNumber {
    /// The invariant of the round's tables.
    pub closed spec fn wf(&self) -> bool {
        self.masked_values.wf() && self.revealed_values.wf()
    }

    /// The round with the contents `parts`.
    pub fn from_parts(parts: RandomNumberParts) -> (round: RandomNumber)
        ensures
            round.wf(),
            round@ == parts@,
    {
        RandomNumber {
            masked_values: Store::from_entries(parts.masked_values),
            revealed_values: Store::from_entries(parts.revealed_values),
            reveal_block_height: parts.reveal_block_height,
        }
    }

    /// The contents of the round.
    pub fn into_parts(self) -> (parts: RandomNumberParts)
        requires
            self.wf(),
        ensures
            parts@ == self@,
    {
        RandomNumberParts {
            masked_values: self.masked_values.into_entries(),
            revealed_values: self.revealed_values.into_entries(),
            reveal_block_height: self.reveal_block_height,
        }
    }

    /// The commitment that `account` has submitted, if it has submitted one.
    pub fn masked_value(&self, account: &AccountId) -> (hash: Option<&Vec<u8>>)
        requires
            self.wf(),
        ensures
            match hash {
                Some(hash) => self@.masked_values.contains_key(*account) && hash@
                    == self@.masked_values[*account],
                None => !self@.masked_values.contains_key(*account),
            },
    {
        self.masked_values.get(account)
    }

    /// The value that `account` has revealed, if it has revealed one.
    pub fn revealed_value(&self, account: &AccountId) -> (value: Option<u64>)
        requires
            self.wf(),
        ensures
            value == if self@.revealed_values.contains_key(*account) {
                Some(self@.revealed_values[*account])
            } else {
                None
            },
    {
        match self.revealed_values.get(account) {
            Some(value) => Some(*value),
            None => None,
        }
    }

    /// The first block at which values may be revealed.
    pub fn reveal_block_height(&self) -> (height: BlockNumber)
        ensures
            height == self@.reveal_block_height,
    {
        self.reveal_block_height
    }
}

/// The ledger: balances, DAOs, proposals and the commit-reveal round.
pub struct Dao {
    /// The owner of the ledger, who alone may mint and set the reveal height.
    owner: AccountId,
    /// The balance of each account.
    accounts: Store<AccountId, Balance>,
    /// The DAOs, by their id.
    daos: Store<DaoId, DaoInfo>,
    /// The proposals, by the id of their DAO and their id within it.
    proposals: Store<(DaoId, ProposalId), ProrposalInfo>,
    /// The id that the next DAO will get.
    next_dao_id: DaoId,
    /// The commit-reveal round.
    random_number: RandomNumber,
}

impl View for Dao {
    type V = State;

    closed spec fn view(&self) -> State {
        State {
            owner: self.owner,
            accounts: self.accounts@,
            daos: self.daos@,
            proposals: self.proposals@.map_values(|proposal: ProrposalInfo| proposal@),
            next_dao_id: self.next_dao_id,
            random_number: self.random_number@,
        }
    }
}

/// The contents of a ledger as plain values, for a host that keeps them
/// between calls. Of several entries with one key the first counts.
pub struct DaoParts {
    pub owner: AccountId,
    pub accounts: Vec<(AccountId, Balance)>,
    pub daos: Vec<(DaoId, DaoInfo)>,
    pub proposals: Vec<((DaoId, ProposalId), ProrposalInfo)>,
    pub next_dao_id: DaoId,
    pub random_number: RandomNumber,
}

impl View for DaoParts {
    type V = State;

    open spec fn view(&self) -> State {
        State {
            owner: self.owner,
            accounts: built(self.accounts@),
            daos: built(self.daos@),
            proposals: built(self.proposals@).map_values(|proposal: ProrposalInfo| proposal@),
            next_dao_id: self.next_dao_id,
            random_number: self.random_number@,
        }
    }
}

impl DaoParts {
    /// The invariant of the tables of the proposals and of the round.
    pub open spec fn wf(&self) -> bool {
        &&& forall|i: int|
            0 <= i < self.proposals@.len() ==> (#[trigger] self.proposals@[i]).1.wf()
        &&& self.random_number.wf()
    }
}

/// The balance that `accounts` holds for `account`.
fn balance_in(accounts: &Store<AccountId, Balance>, account: &AccountId) -> (balance: Balance)
    requires
        accounts.wf(),
    ensures
        balance == balance_of(accounts@, *account),
{
    match accounts.get(account) {
        Some(balance) => *balance,
        None => 0,
    }
}

impl Dao {
    /// The invariant of the ledger's tables. What holds of the state that the
    /// tables stand for is `State::inv`, which every operation keeps.
    pub closed spec fn wf(&self) -> bool {
        &&& self.accounts.wf()
        &&& self.daos.wf()
        &&& self.proposals.wf()
        &&& forall|key: (DaoId, ProposalId)| #[trigger]
            self.proposals@.contains_key(key) ==> self.proposals@[key].wf()
        &&& self.random_number.wf()
    }

    /// A new ledger that `owner` owns: no balances, no DAOs, no commitments,
    /// and 1 as the id of the first DAO.
    pub fn new(owner: AccountId) -> (dao: Dao)
        ensures
            dao.wf(),
            dao@ == State::initial(owner),
            dao@.inv(),
    {
        let dao = Dao {
            owner,
            next_dao_id: 1,
            accounts: Store::new(),
            daos: Store::new(),
            proposals: Store::new(),
            random_number: RandomNumber {
                masked_values: Store::new(),
                revealed_values: Store::new(),
                reveal_block_height: 0,
            },
        };
        assert(dao@ =~~= State::initial(owner));
        dao
    }

    /// The ledger with the contents `parts`. The state is taken as it is:
    /// it satisfies `State::inv` if the contents come from a ledger whose
    /// state did.
    pub fn from_parts(parts: DaoParts) -> (dao: Dao)
        requires
            parts.wf(),
        ensures
            dao.wf(),
            dao@ == parts@,
    {
        let ghost entries = parts.proposals@;
        let dao = Dao {
            owner: parts.owner,
            accounts: Store::from_entries(parts.accounts),
            daos: Store::from_entries(parts.daos),
            proposals: Store::from_entries(parts.proposals),
            next_dao_id: parts.next_dao_id,
            random_number: parts.random_number,
        };
        assert forall|key: (DaoId, ProposalId)| #[trigger]
            dao.proposals@.contains_key(key) implies dao.proposals@[key].wf() by {
            lemma_built_values(entries, key);
        }
        dao
    }

    /// The contents of the ledger.
    pub fn into_parts(self) -> (parts: DaoParts)
        requires
            self.wf(),
        ensures
            parts.wf(),
            parts@ == self@,
    {
        let ghost proposals = self.proposals@;
        let parts = DaoParts {
            owner: self.owner,
            accounts: self.accounts.into_entries(),
            daos: self.daos.into_entries(),
            proposals: self.proposals.into_entries(),
            next_dao_id: self.next_dao_id,
            random_number: self.random_number,
        };
        assert forall|i: int| 0 <= i < parts.proposals@.len() implies (
        #[trigger] parts.proposals@[i]).1.wf() by {
            lemma_built_is_as_map(parts.proposals@);
            lemma_slot_is_unique(parts.proposals@, i);
            assert(proposals.contains_key(parts.proposals@[i].0));
        }
        parts
    }

    /// The owner of the ledger.
    pub fn owner(&self) -> (owner: AccountId)
        ensures
            owner == self@.owner,
    {
        self.owner
    }

    /// The id that the next DAO will get.
    pub fn next_dao_id(&self) -> (dao_id: DaoId)
        ensures
            dao_id == self@.next_dao_id,
    {
        self.next_dao_id
    }

    /// What the ledger records of DAO `dao_id`, if that DAO exists.
    pub fn dao(&self, dao_id: DaoId) -> (info: Option<DaoInfo>)
        requires
            self.wf(),
        ensures
            info == if self@.daos.contains_key(dao_id) {
                Some(self@.daos[dao_id])
            } else {
                None
            },
    {
        match self.daos.get(&dao_id) {
            Some(info) => Some(*info),
            None => None,
        }
    }

    /// Proposal `proposal_id` of DAO `dao_id`, if it exists.
    pub fn proposal(&self, dao_id: DaoId, proposal_id: ProposalId) -> (proposal: Option<
        &ProrposalInfo,
    >)
        requires
            self.wf(),
        ensures
            match proposal {
                Some(proposal) => proposal.wf() && self@.proposals.contains_key(
                    (dao_id, proposal_id),
                ) && proposal@ == self@.proposals[(dao_id, proposal_id)],
                None => !self@.proposals.contains_key((dao_id, proposal_id)),
            },
    {
        self.proposals.get(&(dao_id, proposal_id))
    }

    /// The commit-reveal round.
    pub fn random_number(&self) -> (round: &RandomNumber)
        requires
            self.wf(),
        ensures
            round.wf(),
            round@ == self@.random_number,
    {
        &self.random_number
    }

    /// The balance of `account_id`; 0 for an account that the ledger has not seen.
    pub fn get_balance(&self, account_id: &AccountId) -> (balance: Balance)
        requires
            self.wf(),
        ensures
            balance == self@.balance(*account_id),
    {
        balance_in(&self.accounts, account_id)
    }

    /// Adds `amount` to the balance of `account_id`. Refused, with the ledger
    /// unchanged, where the balance would exceed the largest amount.
    pub fn increase_balance(&mut self, account_id: &AccountId, amount: Balance) -> (result:
        ContractResult)
        requires
            old(self).wf(),
        ensures
            final(self).wf(),
            old(self)@.inv() ==> final(self)@.inv(),
            result == old(self)@.increase_outcome(*account_id, amount),
            final(self)@ == old(self)@.increase_next(*account_id, amount),
    {
        let balance = balance_in(&self.accounts, account_id);
        if amount > Balance::MAX - balance {
            return Err(ContractError::BalanceOverflow);
        }
        self.accounts.insert(*account_id, balance + amount);
        assert(self@ =~~= old(self)@.increase_next(*account_id, amount));
        Ok(())
    }

    /// Takes `amount` from the balance of `account_id`. Refused, with the
    /// ledger unchanged, where the account holds less than `amount`.
    pub fn decrease_balance(&mut self, account_id: &AccountId, amount: Balance) -> (result:
        ContractResult)
        requires
            old(self).wf(),
        ensures
            final(self).wf(),
            old(self)@.inv() ==> final(self)@.inv(),
            result == old(self)@.decrease_outcome(*account_id, amount),
            final(self)@ == old(self)@.decrease_next(*account_id, amount),
    {
        let balance = balance_in(&self.accounts, account_id);
        if balance < amount {
            return Err(ContractError::InsufficientBalance);
        }
        self.accounts.insert(*account_id, balance - amount);
        assert(self@ =~~= old(self)@.decrease_next(*account_id, amount));
        Ok(())
    }

    /// Casts the vote of `caller` on proposal `proposal_id` of DAO `dao_id`,
    /// in favour if `yes` and against otherwise.
    ///
    /// The checks come in this order: the proposal and the DAO exist; the
    /// caller's balance covers the DAO's vote cost; the proposal still takes
    /// votes at `current_block`; the caller has not voted on it before, on
    /// either side. On success the caller's whole balance is recorded as the
    /// weight of the vote, the vote cost leaves the balance, and one
    /// notification is appended to `events`. On failure nothing changes.
    pub fn vote(
        &mut self,
        caller: AccountId,
        current_block: BlockNumber,
        dao_id: DaoId,
        proposal_id: ProposalId,
        yes: bool,
        events: &mut Vec<Event>,
    ) -> (result: ContractResult)
        requires
            old(self).wf(),
        ensures
            final(self).wf(),
            old(self)@.inv() ==> final(self)@.inv(),
            result == old(self)@.vote_outcome(caller, current_block, dao_id, proposal_id),
            final(self)@ == old(self)@.vote_next(caller, current_block, dao_id, proposal_id, yes),
            final(events)@ == old(events)@ + emitted(
                result,
                Event::VoteMade((VoteMade { id: (dao_id, proposal_id), is_in_favor: yes })),
            ),
    {
        let key = (dao_id, proposal_id);
        let (destroy_at, voted) = match self.proposals.get(&key) {
            Some(proposal) => (
                proposal.destroy_at,
                proposal.votes_in_favour.contains(&caller) || proposal.votes_against.contains(
                    &caller,
                ),
            ),
            None => {
                assert(events@ =~= old(events)@ + Seq::<Event>::empty());
                return Err(ContractError::NonExistentDao);
            },
        };
        let vote_cost = match self.daos.get(&dao_id) {
            Some(dao) => dao.vote_cost,
            None => {
                assert(events@ =~= old(events)@ + Seq::<Event>::empty());
                return Err(ContractError::NonExistentDao);
            },
        };
        let voting_power = balance_in(&self.accounts, &caller);
        if voting_power < vote_cost || destroy_at < current_block || voted {
            assert(events@ =~= old(events)@ + Seq::<Event>::empty());
            if voting_power < vote_cost {
                return Err(ContractError::InsufficientBalance);
            }
            if destroy_at < current_block {
                return Err(ContractError::VotingClosed);
            }
            return Err(ContractError::VoteAlreadyMade);
        }
        match self.proposals.remove(&key) {
            Some(mut proposal) => {
                if yes {
                    proposal.votes_in_favour.insert(caller, voting_power);
                } else {
                    proposal.votes_against.insert(caller, voting_power);
                }
                self.proposals.insert(key, proposal);
            },
            None => {},
        }
        self.accounts.insert(caller, voting_power - vote_cost);
        events.push(Event::VoteMade(VoteMade { id: key, is_in_favor: yes }));
        assert(self@ =~~= old(self)@.vote_next(caller, current_block, dao_id, proposal_id, yes));
        Ok(())
    }

    /// Whether `create_dao` may be called: the id counter has not reached the
    /// largest id.
    pub fn can_create_dao(&self) -> (can: bool)
        ensures
            can == self@.can_create_dao(),
    {
        self.next_dao_id < DaoId::MAX
    }

    /// Whether `create_proposal` may be called for `dao_id` at
    /// `current_block`: if the DAO exists, the voting window ends within the
    /// range of block numbers and the DAO has not reached the largest
    /// proposal id.
    pub fn can_create_proposal(&self, current_block: BlockNumber, dao_id: DaoId) -> (can: bool)
        requires
            self.wf(),
        ensures
            can == self@.can_create_proposal(current_block, dao_id),
    {
        match self.daos.get(&dao_id) {
            Some(dao) => current_block <= BlockNumber::MAX - VOTING_WINDOW && dao.next_proposal_id
                < ProposalId::MAX,
            None => true,
        }
    }

    /// Creates a proposal with the text `info` under DAO `dao_id` and returns
    /// its id, the next of that DAO's own sequence. The proposal takes votes
    /// from `current_block` to `current_block + 1000`. Refused where the DAO
    /// does not exist.
    pub fn create_proposal(
        &mut self,
        current_block: BlockNumber,
        dao_id: DaoId,
        info: String,
        events: &mut Vec<Event>,
    ) -> (result: Result<ProposalId, ContractError>)
        requires
            old(self).wf(),
            old(self)@.can_create_proposal(current_block, dao_id),
        ensures
            final(self).wf(),
            old(self)@.inv() ==> final(self)@.inv(),
            result == old(self)@.create_proposal_outcome(dao_id),
            final(self)@ == old(self)@.create_proposal_next(current_block, dao_id, info@),
            final(events)@ == old(events)@ + emitted(
                result,
                Event::ProposalCreated(
                    (ProposalCreated {
                        dao_id,
                        proposal_id: old(self)@.daos[dao_id].next_proposal_id,
                    }),
                ),
            ),
    {
        let mut dao = match self.daos.get(&dao_id) {
            Some(dao) => *dao,
            None => {
                assert(events@ =~= old(events)@ + Seq::<Event>::empty());
                return Err(ContractError::NonExistentDao);
            },
        };
        let proposal_id = dao.next_proposal_id;
        let proposal_info = ProrposalInfo {
            info,
            created_at: current_block,
            destroy_at: current_block + VOTING_WINDOW,
            votes_in_favour: Store::new(),
            votes_against: Store::new(),
        };
        self.proposals.insert((dao_id, proposal_id), proposal_info);
        dao.next_proposal_id = dao.next_proposal_id + 1;
        self.daos.insert(dao_id, dao);
        events.push(Event::ProposalCreated(ProposalCreated { dao_id, proposal_id }));
        assert(self@ =~~= old(self)@.create_proposal_next(current_block, dao_id, info@));
        Ok(proposal_id)
    }

    /// The digest that commits to `value`: SHA-2 256 of the value's eight
    /// bytes, most significant first.
    pub fn hash_value(&self, value: u64) -> (digest: Vec<u8>)
        ensures
            digest@ == commitment_of(value),
    {
        let bytes = u64_to_be_bytes(value);
        sha2_256_digest(bytes.as_slice())
    }

    /// Decides whether `caller` may reveal, at `current_block`, a value whose
    /// encoding has the digest `digest`. The checks come in this order: the
    /// caller has submitted a commitment; the reveal block height is reached;
    /// the digest equals the commitment byte for byte.
    pub fn check_reveal(&self, caller: AccountId, current_block: BlockNumber, digest: &[u8]) -> (result:
        ContractResult)
        requires
            self.wf(),
        ensures
            result == self@.reveal_outcome(caller, current_block, digest@),
    {
        let masked_value = match self.random_number.masked_values.get(&caller) {
            Some(masked_value) => masked_value,
            None => {
                return Err(ContractError::ValueNotSubmitted);
            },
        };
        if current_block < self.random_number.reveal_block_height {
            return Err(ContractError::InvalidRevealBlock);
        }
        if !same_bytes(digest, masked_value.as_slice()) {
            return Err(ContractError::InvalidReveal);
        }
        Ok(())
    }

    /// Reveals `value` as the secret behind the caller's commitment. Refused
    /// where the caller has submitted no commitment, where `current_block` is
    /// before the reveal block height, and where the value does not hash to
    /// the commitment, in this order. On success the value is recorded for the
    /// caller and one notification is appended to `events`.
    pub fn reveal_value(
        &mut self,
        caller: AccountId,
        current_block: BlockNumber,
        value: u64,
        events: &mut Vec<Event>,
    ) -> (result: ContractResult)
        requires
            old(self).wf(),
        ensures
            final(self).wf(),
            old(self)@.inv() ==> final(self)@.inv(),
            result == old(self)@.reveal_outcome(caller, current_block, commitment_of(value)),
            final(self)@ == old(self)@.reveal_next(
                caller,
                current_block,
                value,
                commitment_of(value),
            ),
            final(events)@ == old(events)@ + emitted(
                result,
                Event::ValueRevealed((ValueRevealed { account: caller, value })),
            ),
    {
        let digest = self.hash_value(value);
        match self.check_reveal(caller, current_block, digest.as_slice()) {
            Ok(()) => {
                self.random_number.revealed_values.insert(caller, value);
                events.push(Event::ValueRevealed(ValueRevealed { account: caller, value }));
                assert(self@ =~~= old(self)@.reveal_next(
                    caller,
                    current_block,
                    value,
                    commitment_of(value),
                ));
                Ok(())
            },
            Err(error) => {
                assert(events@ =~= old(events)@ + Seq::<Event>::empty());
                Err(error)
            },
        }
    }

    /// Creates a DAO that `owner` owns and returns its id, the next of the
    /// ledger's sequence. The DAO's vote cost is 2 and its first proposal will
    /// have the id 1. One notification is appended to `events`.
    pub fn create_dao(
        &mut self,
        current_block: BlockNumber,
        owner: AccountId,
        events: &mut Vec<Event>,
    ) -> (dao_id: DaoId)
        requires
            old(self).wf(),
            old(self)@.can_create_dao(),
        ensures
            final(self).wf(),
            old(self)@.inv() ==> final(self)@.inv(),
            dao_id == old(self)@.next_dao_id,
            final(self)@ == old(self)@.create_dao_next(current_block, owner),
            final(events)@ == old(events)@.push(Event::DaoCreated((DaoCreated { dao_id }))),
    {
        let dao_id = self.next_dao_id;
        let dao_info = DaoInfo {
            owner,
            birth_block: current_block,
            next_proposal_id: 1,
            vote_cost: VOTE_COST,
        };
        self.daos.insert(dao_id, dao_info);
        self.next_dao_id = self.next_dao_id + 1;
        events.push(Event::DaoCreated(DaoCreated { dao_id }));
        assert(self@ =~~= old(self)@.create_dao_next(current_block, owner));
        dao_id
    }

    /// Moves `amount` from the balance of `caller` to that of `target`.
    /// Refused where the caller holds less than `amount`, and then where the
    /// target's balance would exceed the largest amount. On success one
    /// notification is appended to `events`.
    pub fn transfer(
        &mut self,
        caller: AccountId,
        target: AccountId,
        amount: Balance,
        events: &mut Vec<Event>,
    ) -> (result: ContractResult)
        requires
            old(self).wf(),
        ensures
            final(self).wf(),
            old(self)@.inv() ==> final(self)@.inv(),
            result == old(self)@.transfer_outcome(caller, target, amount),
            final(self)@ == old(self)@.transfer_next(caller, target, amount),
            final(events)@ == old(events)@ + emitted(
                result,
                Event::BalanceTransfer((BalanceTransfer { from: caller, to: target, amount })),
            ),
    {
        let from_balance = balance_in(&self.accounts, &caller);
        if from_balance < amount {
            assert(events@ =~= old(events)@ + Seq::<Event>::empty());
            return Err(ContractError::InsufficientBalance);
        }
        let to_balance = if caller.same(&target) {
            from_balance - amount
        } else {
            balance_in(&self.accounts, &target)
        };
        if amount > Balance::MAX - to_balance {
            assert(events@ =~= old(events)@ + Seq::<Event>::empty());
            return Err(ContractError::BalanceOverflow);
        }
        self.accounts.insert(caller, from_balance - amount);
        self.accounts.insert(target, to_balance + amount);
        events.push(Event::BalanceTransfer(BalanceTransfer { from: caller, to: target, amount }));
        assert(self@ =~~= old(self)@.transfer_next(caller, target, amount));
        Ok(())
    }

    /// Adds `amount` to the balance of `target`, on the owner's word. Refused
    /// where `caller` is not the owner of the ledger, and then where the
    /// target's balance would exceed the largest amount.
    pub fn mint(&mut self, caller: AccountId, target: AccountId, amount: Balance) -> (result:
        ContractResult)
        requires
            old(self).wf(),
        ensures
            final(self).wf(),
            old(self)@.inv() ==> final(self)@.inv(),
            result == old(self)@.mint_outcome(caller, target, amount),
            final(self)@ == old(self)@.mint_next(caller, target, amount),
    {
        if !self.owner.same(&caller) {
            return Err(ContractError::InsufficientPermission);
        }
        self.increase_balance(&target, amount)
    }

    /// The balance of `account_id`; 0 for an account that the ledger has not seen.
    pub fn balance(&self, account_id: AccountId) -> (balance: Balance)
        requires
            self.wf(),
        ensures
            balance == self@.balance(account_id),
    {
        self.get_balance(&account_id)
    }

    /// Stores `value_hash` as the commitment of `caller`. Refused where the
    /// caller already has a commitment: a commitment is never overwritten.
    pub fn submit_masked_value(&mut self, caller: AccountId, value_hash: Vec<u8>) -> (result:
        ContractResult)
        requires
            old(self).wf(),
        ensures
            final(self).wf(),
            old(self)@.inv() ==> final(self)@.inv(),
            result == old(self)@.submit_outcome(caller),
            final(self)@ == old(self)@.submit_next(caller, value_hash@),
    {
        if self.random_number.masked_values.contains(&caller) {
            return Err(ContractError::ValueAlreadySubmitted);
        }
        self.random_number.masked_values.insert(caller, value_hash);
        assert(self@ =~~= old(self)@.submit_next(caller, value_hash@));
        Ok(())
    }

    /// Sets the first block at which values may be revealed. Refused where
    /// `caller` is not the owner of the ledger.
    pub fn set_reveal_block_height(&mut self, caller: AccountId, block_height: BlockNumber) -> (result:
        ContractResult)
        requires
            old(self).wf(),
        ensures
            final(self).wf(),
            old(self)@.inv() ==> final(self)@.inv(),
            result == old(self)@.set_height_outcome(caller),
            final(self)@ == old(self)@.set_height_next(caller, block_height),
    {
        if !caller.same(&self.owner) {
            return Err(ContractError::InsufficientPermission);
        }
        self.random_number.reveal_block_height = block_height;
        assert(self@ =~~= old(self)@.set_height_next(caller, block_height));
        Ok(())
    }
}

} // verus!
