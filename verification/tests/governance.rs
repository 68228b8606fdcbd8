use dao::account::AccountId;
use dao::dao::Dao;
use dao::types::{
    ContractError, DaoCreated, DaoInfo, Event, ProposalCreated, VoteMade, VOTE_COST, VOTING_WINDOW,
};

fn account(tag: u8) -> AccountId {
    AccountId::new([tag; 32])
}

#[test]
fn vote_cost_and_voting_window_are_fixed() {
    assert_eq!(VOTE_COST, 2);
    assert_eq!(VOTING_WINDOW, 1000);
}

#[test]
fn create_dao_counts_up_from_one() {
    let owner = account(1);
    let mut dao = Dao::new(owner);
    let mut events = Vec::new();
    assert_eq!(dao.create_dao(5, account(2), &mut events), 1);
    assert_eq!(dao.create_dao(6, account(3), &mut events), 2);
    assert_eq!(dao.create_dao(6, account(2), &mut events), 3);
    assert_eq!(dao.next_dao_id(), 4);
    assert_eq!(
        events,
        vec![
            Event::DaoCreated(DaoCreated { dao_id: 1 }),
            Event::DaoCreated(DaoCreated { dao_id: 2 }),
            Event::DaoCreated(DaoCreated { dao_id: 3 }),
        ]
    );
    assert_eq!(
        dao.dao(2),
        Some(DaoInfo { owner: account(3), birth_block: 6, next_proposal_id: 1, vote_cost: 2 })
    );
    assert_eq!(dao.dao(4), None);
    assert_eq!(dao.dao(0), None);
}

#[test]
fn create_proposal_counts_up_per_dao() {
    let owner = account(1);
    let mut dao = Dao::new(owner);
    let mut events = Vec::new();
    let first = dao.create_dao(0, owner, &mut events);
    let second = dao.create_dao(0, owner, &mut events);
    events.clear();
    assert_eq!(dao.create_proposal(10, first, String::from("a"), &mut events), Ok(1));
    assert_eq!(dao.create_proposal(11, first, String::from("b"), &mut events), Ok(2));
    assert_eq!(dao.create_proposal(12, second, String::from("c"), &mut events), Ok(1));
    assert_eq!(dao.create_proposal(13, first, String::from("d"), &mut events), Ok(3));
    assert_eq!(dao.create_proposal(14, second, String::from("e"), &mut events), Ok(2));
    assert_eq!(dao.dao(first).unwrap().next_proposal_id, 4);
    assert_eq!(dao.dao(second).unwrap().next_proposal_id, 3);
    assert_eq!(
        events,
        vec![
            Event::ProposalCreated(ProposalCreated { dao_id: first, proposal_id: 1 }),
            Event::ProposalCreated(ProposalCreated { dao_id: first, proposal_id: 2 }),
            Event::ProposalCreated(ProposalCreated { dao_id: second, proposal_id: 1 }),
            Event::ProposalCreated(ProposalCreated { dao_id: first, proposal_id: 3 }),
            Event::ProposalCreated(ProposalCreated { dao_id: second, proposal_id: 2 }),
        ]
    );
    let proposal = dao.proposal(first, 2).unwrap();
    assert_eq!(proposal.info().as_str(), "b");
    assert_eq!(proposal.created_at(), 11);
    assert_eq!(proposal.destroy_at(), 1011);
    assert_eq!(proposal.vote_in_favour(&owner), None);
    assert_eq!(proposal.vote_against(&owner), None);
    assert!(dao.proposal(second, 3).is_none());
    assert!(dao.proposal(first, 0).is_none());
}

#[test]
fn create_proposal_under_an_unknown_dao_is_refused() {
    let owner = account(1);
    let mut dao = Dao::new(owner);
    let mut events = Vec::new();
    assert_eq!(
        dao.create_proposal(10, 1, String::from("a"), &mut events),
        Err(ContractError::NonExistentDao)
    );
    assert!(events.is_empty());
    assert!(dao.proposal(1, 1).is_none());
    assert_eq!(dao.next_dao_id(), 1);
}

#[test]
fn vote_records_the_whole_balance_and_takes_the_cost() {
    let owner = account(1);
    let alice = account(2);
    let mut dao = Dao::new(owner);
    let mut events = Vec::new();
    dao.mint(owner, alice, 10).unwrap();
    let dao_id = dao.create_dao(100, alice, &mut events);
    let proposal_id = dao.create_proposal(100, dao_id, String::from("raise"), &mut events).unwrap();
    events.clear();

    assert_eq!(dao.vote(alice, 101, dao_id, proposal_id, true, &mut events), Ok(()));
    assert_eq!(dao.balance(alice), 8);
    let proposal = dao.proposal(dao_id, proposal_id).unwrap();
    assert_eq!(proposal.vote_in_favour(&alice), Some(10));
    assert_eq!(proposal.vote_against(&alice), None);
    assert_eq!(
        events,
        vec![Event::VoteMade(VoteMade { id: (dao_id, proposal_id), is_in_favor: true })]
    );

    assert_eq!(
        dao.vote(alice, 101, dao_id, proposal_id, true, &mut events),
        Err(ContractError::VoteAlreadyMade)
    );
    assert_eq!(dao.balance(alice), 8);
    assert_eq!(events.len(), 1);
    assert_eq!(dao.proposal(dao_id, proposal_id).unwrap().vote_in_favour(&alice), Some(10));
}

#[test]
fn vote_without_balance_is_refused_and_changes_nothing() {
    let owner = account(1);
    let alice = account(2);
    let bob = account(3);
    let mut dao = Dao::new(owner);
    let mut events = Vec::new();
    let dao_id = dao.create_dao(100, alice, &mut events);
    let proposal_id = dao.create_proposal(100, dao_id, String::from("raise"), &mut events).unwrap();
    events.clear();

    assert_eq!(
        dao.vote(bob, 101, dao_id, proposal_id, true, &mut events),
        Err(ContractError::InsufficientBalance)
    );
    assert_eq!(dao.balance(bob), 0);
    assert!(events.is_empty());
    let proposal = dao.proposal(dao_id, proposal_id).unwrap();
    assert_eq!(proposal.vote_in_favour(&bob), None);
    assert_eq!(proposal.vote_against(&bob), None);

    dao.mint(owner, bob, 1).unwrap();
    assert_eq!(
        dao.vote(bob, 101, dao_id, proposal_id, false, &mut events),
        Err(ContractError::InsufficientBalance)
    );
    assert_eq!(dao.balance(bob), 1);
    dao.mint(owner, bob, 1).unwrap();
    assert_eq!(dao.vote(bob, 101, dao_id, proposal_id, false, &mut events), Ok(()));
    assert_eq!(dao.balance(bob), 0);
    assert_eq!(dao.proposal(dao_id, proposal_id).unwrap().vote_against(&bob), Some(2));
}

#[test]
fn second_vote_on_the_other_side_is_refused() {
    let owner = account(1);
    let alice = account(2);
    let mut dao = Dao::new(owner);
    let mut events = Vec::new();
    dao.mint(owner, alice, 10).unwrap();
    let dao_id = dao.create_dao(0, owner, &mut events);
    let proposal_id = dao.create_proposal(0, dao_id, String::from("x"), &mut events).unwrap();
    assert_eq!(dao.vote(alice, 1, dao_id, proposal_id, false, &mut events), Ok(()));
    assert_eq!(
        dao.vote(alice, 2, dao_id, proposal_id, true, &mut events),
        Err(ContractError::VoteAlreadyMade)
    );
    assert_eq!(
        dao.vote(alice, 2, dao_id, proposal_id, false, &mut events),
        Err(ContractError::VoteAlreadyMade)
    );
    let proposal = dao.proposal(dao_id, proposal_id).unwrap();
    assert_eq!(proposal.vote_against(&alice), Some(10));
    assert_eq!(proposal.vote_in_favour(&alice), None);
    assert_eq!(dao.balance(alice), 8);
}

#[test]
fn vote_is_open_at_destroy_at_and_closed_one_block_later() {
    let owner = account(1);
    let alice = account(2);
    let bob = account(3);
    let mut dao = Dao::new(owner);
    let mut events = Vec::new();
    dao.mint(owner, alice, 10).unwrap();
    dao.mint(owner, bob, 10).unwrap();
    let dao_id = dao.create_dao(0, owner, &mut events);
    let proposal_id = dao.create_proposal(500, dao_id, String::from("x"), &mut events).unwrap();
    let destroy_at = dao.proposal(dao_id, proposal_id).unwrap().destroy_at();
    assert_eq!(destroy_at, 1500);
    assert_eq!(
        dao.vote(alice, destroy_at + 1, dao_id, proposal_id, true, &mut events),
        Err(ContractError::VotingClosed)
    );
    assert_eq!(dao.balance(alice), 10);
    assert_eq!(dao.vote(alice, destroy_at, dao_id, proposal_id, true, &mut events), Ok(()));
    assert_eq!(dao.vote(bob, 500, dao_id, proposal_id, true, &mut events), Ok(()));
}

#[test]
fn vote_on_a_missing_proposal_or_dao_is_refused() {
    let owner = account(1);
    let alice = account(2);
    let mut dao = Dao::new(owner);
    let mut events = Vec::new();
    dao.mint(owner, alice, 10).unwrap();
    assert_eq!(dao.vote(alice, 0, 1, 1, true, &mut events), Err(ContractError::NonExistentDao));
    let dao_id = dao.create_dao(0, owner, &mut events);
    assert_eq!(
        dao.vote(alice, 0, dao_id, 1, true, &mut events),
        Err(ContractError::NonExistentDao)
    );
    dao.create_proposal(0, dao_id, String::from("x"), &mut events).unwrap();
    assert_eq!(
        dao.vote(alice, 0, dao_id, 2, true, &mut events),
        Err(ContractError::NonExistentDao)
    );
    assert_eq!(
        dao.vote(alice, 0, dao_id + 1, 1, true, &mut events),
        Err(ContractError::NonExistentDao)
    );
    assert_eq!(dao.balance(alice), 10);
}

#[test]
fn vote_errors_come_in_the_documented_order() {
    let owner = account(1);
    let alice = account(2);
    let mut dao = Dao::new(owner);
    let mut events = Vec::new();
    dao.mint(owner, alice, 3).unwrap();
    let dao_id = dao.create_dao(0, owner, &mut events);
    let proposal_id = dao.create_proposal(0, dao_id, String::from("x"), &mut events).unwrap();
    assert_eq!(dao.vote(alice, 5, dao_id, proposal_id, true, &mut events), Ok(()));
    // Balance is now 1: the balance check comes before the others.
    assert_eq!(
        dao.vote(alice, 2000, dao_id, proposal_id, true, &mut events),
        Err(ContractError::InsufficientBalance)
    );
    dao.mint(owner, alice, 1).unwrap();
    // The window check comes before the check for an earlier vote.
    assert_eq!(
        dao.vote(alice, 1001, dao_id, proposal_id, true, &mut events),
        Err(ContractError::VotingClosed)
    );
    assert_eq!(
        dao.vote(alice, 1000, dao_id, proposal_id, true, &mut events),
        Err(ContractError::VoteAlreadyMade)
    );
}

#[test]
fn one_balance_weighs_on_several_proposals() {
    let owner = account(1);
    let alice = account(2);
    let mut dao = Dao::new(owner);
    let mut events = Vec::new();
    dao.mint(owner, alice, 10).unwrap();
    let dao_id = dao.create_dao(0, owner, &mut events);
    let first = dao.create_proposal(0, dao_id, String::from("x"), &mut events).unwrap();
    let second = dao.create_proposal(0, dao_id, String::from("y"), &mut events).unwrap();
    dao.vote(alice, 1, dao_id, first, true, &mut events).unwrap();
    dao.vote(alice, 1, dao_id, second, false, &mut events).unwrap();
    assert_eq!(dao.proposal(dao_id, first).unwrap().vote_in_favour(&alice), Some(10));
    assert_eq!(dao.proposal(dao_id, second).unwrap().vote_against(&alice), Some(8));
    assert_eq!(dao.balance(alice), 6);
}
