use dao::account::AccountId;
use dao::dao::Dao;
use dao::types::{BalanceTransfer, ContractError, Event};

fn account(tag: u8) -> AccountId {
    AccountId::new([tag; 32])
}

#[test]
fn new_ledger_has_no_balances_and_starts_dao_ids_at_one() {
    let owner = account(1);
    let dao = Dao::new(owner);
    assert_eq!(dao.owner(), owner);
    assert_eq!(dao.next_dao_id(), 1);
    assert_eq!(dao.balance(owner), 0);
    assert_eq!(dao.get_balance(&account(9)), 0);
    assert_eq!(dao.random_number().reveal_block_height(), 0);
    assert!(dao.dao(1).is_none());
}

#[test]
fn accounts_differ_in_any_byte() {
    let mut bytes = [7u8; 32];
    let a = AccountId::new(bytes);
    bytes[31] = 8;
    let b = AccountId::new(bytes);
    assert!(a.same(&a));
    assert!(!a.same(&b));
    assert!(!b.same(&a));
    assert_eq!(a.bytes[31], 7);
}

#[test]
fn mint_by_owner_adds_to_the_target() {
    let owner = account(1);
    let alice = account(2);
    let mut dao = Dao::new(owner);
    assert_eq!(dao.mint(owner, alice, 10), Ok(()));
    assert_eq!(dao.balance(alice), 10);
    assert_eq!(dao.mint(owner, alice, 5), Ok(()));
    assert_eq!(dao.balance(alice), 15);
    assert_eq!(dao.balance(owner), 0);
}

#[test]
fn mint_by_another_account_is_refused() {
    let owner = account(1);
    let alice = account(2);
    let mut dao = Dao::new(owner);
    assert_eq!(dao.mint(alice, alice, 10), Err(ContractError::InsufficientPermission));
    assert_eq!(dao.balance(alice), 0);
}

#[test]
fn mint_past_the_largest_amount_is_refused() {
    let owner = account(1);
    let alice = account(2);
    let mut dao = Dao::new(owner);
    assert_eq!(dao.mint(owner, alice, u128::MAX), Ok(()));
    assert_eq!(dao.mint(owner, alice, 1), Err(ContractError::BalanceOverflow));
    assert_eq!(dao.balance(alice), u128::MAX);
    assert_eq!(dao.mint(owner, alice, 0), Ok(()));
}

#[test]
fn transfer_moves_the_amount_and_emits_one_event() {
    let owner = account(1);
    let alice = account(2);
    let bob = account(3);
    let mut dao = Dao::new(owner);
    let mut events = Vec::new();
    dao.mint(owner, alice, 10).unwrap();
    assert_eq!(dao.transfer(alice, bob, 4, &mut events), Ok(()));
    assert_eq!(dao.balance(alice), 6);
    assert_eq!(dao.balance(bob), 4);
    assert_eq!(
        events,
        vec![Event::BalanceTransfer(BalanceTransfer { from: alice, to: bob, amount: 4 })]
    );
}

#[test]
fn transfer_of_more_than_the_balance_is_refused() {
    let owner = account(1);
    let alice = account(2);
    let bob = account(3);
    let mut dao = Dao::new(owner);
    let mut events = Vec::new();
    dao.mint(owner, alice, 10).unwrap();
    assert_eq!(dao.transfer(alice, bob, 11, &mut events), Err(ContractError::InsufficientBalance));
    assert_eq!(dao.balance(alice), 10);
    assert_eq!(dao.balance(bob), 0);
    assert!(events.is_empty());
    assert_eq!(dao.transfer(bob, alice, 1, &mut events), Err(ContractError::InsufficientBalance));
    assert!(events.is_empty());
}

#[test]
fn transfer_that_would_overflow_the_target_is_refused() {
    let owner = account(1);
    let alice = account(2);
    let bob = account(3);
    let mut dao = Dao::new(owner);
    let mut events = Vec::new();
    dao.mint(owner, alice, 10).unwrap();
    dao.mint(owner, bob, u128::MAX - 3).unwrap();
    assert_eq!(dao.transfer(alice, bob, 4, &mut events), Err(ContractError::BalanceOverflow));
    assert_eq!(dao.balance(alice), 10);
    assert_eq!(dao.balance(bob), u128::MAX - 3);
    assert!(events.is_empty());
    assert_eq!(dao.transfer(alice, bob, 3, &mut events), Ok(()));
    assert_eq!(dao.balance(alice), 7);
    assert_eq!(dao.balance(bob), u128::MAX);
    assert_eq!(events.len(), 1);
}

#[test]
fn transfer_to_oneself_keeps_the_balance() {
    let owner = account(1);
    let alice = account(2);
    let mut dao = Dao::new(owner);
    let mut events = Vec::new();
    dao.mint(owner, alice, u128::MAX).unwrap();
    assert_eq!(dao.transfer(alice, alice, u128::MAX, &mut events), Ok(()));
    assert_eq!(dao.balance(alice), u128::MAX);
    assert_eq!(
        events,
        vec![Event::BalanceTransfer(BalanceTransfer { from: alice, to: alice, amount: u128::MAX })]
    );
}

#[test]
fn transfer_of_nothing_from_an_unseen_account_succeeds() {
    let owner = account(1);
    let mut dao = Dao::new(owner);
    let mut events = Vec::new();
    assert_eq!(dao.transfer(account(4), account(5), 0, &mut events), Ok(()));
    assert_eq!(dao.balance(account(4)), 0);
    assert_eq!(dao.balance(account(5)), 0);
    assert_eq!(events.len(), 1);
}

#[test]
fn increase_and_decrease_are_checked() {
    let owner = account(1);
    let alice = account(2);
    let mut dao = Dao::new(owner);
    assert_eq!(dao.increase_balance(&alice, 5), Ok(()));
    assert_eq!(dao.get_balance(&alice), 5);
    assert_eq!(dao.decrease_balance(&alice, 6), Err(ContractError::InsufficientBalance));
    assert_eq!(dao.get_balance(&alice), 5);
    assert_eq!(dao.decrease_balance(&alice, 5), Ok(()));
    assert_eq!(dao.get_balance(&alice), 0);
    assert_eq!(dao.increase_balance(&alice, u128::MAX), Ok(()));
    assert_eq!(dao.increase_balance(&alice, 1), Err(ContractError::BalanceOverflow));
    assert_eq!(dao.get_balance(&alice), u128::MAX);
}

#[test]
fn balance_is_credits_minus_debits_over_a_history() {
    let owner = account(1);
    let alice = account(2);
    let bob = account(3);
    let mut dao = Dao::new(owner);
    let mut events = Vec::new();
    dao.mint(owner, alice, 100).unwrap();
    dao.mint(owner, bob, 20).unwrap();
    dao.transfer(alice, bob, 30, &mut events).unwrap();
    dao.transfer(bob, alice, 5, &mut events).unwrap();
    assert!(dao.transfer(bob, alice, 1000, &mut events).is_err());
    assert!(dao.mint(alice, alice, 1000).is_err());
    let dao_id = dao.create_dao(1, alice, &mut events);
    let proposal_id = dao.create_proposal(1, dao_id, String::from("p"), &mut events).unwrap();
    dao.vote(alice, 2, dao_id, proposal_id, false, &mut events).unwrap();
    assert!(dao.vote(alice, 2, dao_id, proposal_id, false, &mut events).is_err());
    // alice: +100 +5 -30 -2; bob: +20 +30 -5
    assert_eq!(dao.balance(alice), 73);
    assert_eq!(dao.balance(bob), 45);
    assert_eq!(dao.balance(owner), 0);
}
