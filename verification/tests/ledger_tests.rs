use prfc1_token::ledger::{PRFC1Implementor, Token, INITIAL_SUPPLY};

fn addr(tag: u8) -> [u8; 32] {
    [tag; 32]
}

/// A ledger state in which `owner` already holds an allowance sub-table,
/// built directly since no operation ever creates one.
fn ledger_with_subtable(owner: [u8; 32], balance: u64) -> PRFC1Implementor {
    PRFC1Implementor {
        token: Token {
            name: "Moon Rock".to_string(),
            symbol: "MOON".to_string(),
            decimals: 8,
            total_supply: balance,
        },
        balances: vec![(owner, balance)],
        allowance_owners: vec![owner],
        allowances: vec![],
    }
}

#[test]
fn init_credits_whole_supply_to_owner() {
    let a = addr(1);
    let b = addr(2);
    let l = PRFC1Implementor::init(a);
    assert_eq!(l.balance_of(a), INITIAL_SUPPLY);
    assert_eq!(l.balance_of(b), 0);
    assert_eq!(l.allowance(a, b), 0);
    let t = l.token();
    assert_eq!(t.name, "Moon Rock");
    assert_eq!(t.symbol, "MOON");
    assert_eq!(t.decimals, 8);
    assert_eq!(t.total_supply, 10000000000000000u64);
}

#[test]
fn transfer_moves_funds() {
    let a = addr(1);
    let b = addr(2);
    let mut l = PRFC1Implementor::init(a);
    let ev = l.transfer(a, b, 100);
    assert_eq!(l.balance_of(a), INITIAL_SUPPLY - 100);
    assert_eq!(l.balance_of(b), 100);
    assert_eq!(ev.owner_address, a);
    assert_eq!(ev.recipient_address, b);
    assert_eq!(ev.amount, 100);
}

#[test]
fn transfer_insufficient_funds_is_noop_but_notifies_requested_amount() {
    let a = addr(1);
    let b = addr(2);
    let mut l = PRFC1Implementor::init(a);
    let ev = l.transfer(b, a, 50);
    assert_eq!(l.balance_of(a), INITIAL_SUPPLY);
    assert_eq!(l.balance_of(b), 0);
    assert_eq!(ev.owner_address, b);
    assert_eq!(ev.recipient_address, a);
    assert_eq!(ev.amount, 50);
}

#[test]
fn self_transfer_keeps_balance_but_notifies() {
    let a = addr(1);
    let mut l = PRFC1Implementor::init(a);
    let ev = l.transfer(a, a, 777);
    assert_eq!(l.balance_of(a), INITIAL_SUPPLY);
    assert_eq!(ev.owner_address, a);
    assert_eq!(ev.recipient_address, a);
    assert_eq!(ev.amount, 777);
}

#[test]
fn transfer_of_whole_balance_empties_account() {
    let a = addr(1);
    let b = addr(2);
    let mut l = PRFC1Implementor::init(a);
    l.transfer(a, b, INITIAL_SUPPLY);
    assert_eq!(l.balance_of(a), 0);
    assert_eq!(l.balance_of(b), INITIAL_SUPPLY);
}

#[test]
fn set_allowance_without_balance_entry_reports_zero() {
    let a = addr(1);
    let b = addr(2);
    let c = addr(3);
    let mut l = PRFC1Implementor::init(a);
    let ev = l.set_allowance(b, c, 10).expect("a notification is owed");
    assert_eq!(ev.owner_address, b);
    assert_eq!(ev.spender_address, c);
    assert_eq!(ev.amount, 0);
    assert_eq!(l.allowance(b, c), 0);
}

#[test]
fn set_allowance_first_delegation_is_silent_noop() {
    let a = addr(1);
    let b = addr(2);
    let mut l = PRFC1Implementor::init(a);
    let ev = l.set_allowance(a, b, 10);
    assert!(ev.is_none());
    assert_eq!(l.allowance(a, b), 0);
}

#[test]
fn set_allowance_beyond_balance_is_silent_noop() {
    let a = addr(1);
    let b = addr(2);
    let mut l = ledger_with_subtable(a, 1000);
    let ev = l.set_allowance(a, b, 1001);
    assert!(ev.is_none());
    assert_eq!(l.allowance(a, b), 0);
}

#[test]
fn set_allowance_overwrites_previous_grant() {
    let a = addr(1);
    let b = addr(2);
    let mut l = ledger_with_subtable(a, 1000);
    l.set_allowance(a, b, 400);
    let ev = l.set_allowance(a, b, 250).expect("a notification is owed");
    assert_eq!(ev.amount, 250);
    assert_eq!(l.allowance(a, b), 250);
}

#[test]
fn allowance_round_trip() {
    let a = addr(1);
    let b = addr(2);
    let c = addr(3);
    let mut l = ledger_with_subtable(a, 1000);
    let ev = l.set_allowance(a, b, 250).expect("a notification is owed");
    assert_eq!(ev.amount, 250);
    let ev2 = l.transfer_from(b, a, c, 250).expect("a notification is owed");
    assert_eq!(l.balance_of(a), 750);
    assert_eq!(l.balance_of(c), 250);
    assert_eq!(l.allowance(a, b), 0);
    assert_eq!(ev2.owner_address, a);
    assert_eq!(ev2.recipient_address, c);
    assert_eq!(ev2.amount, 250);
}

#[test]
fn transfer_from_exceeding_allowance_is_silent_noop() {
    let a = addr(1);
    let b = addr(2);
    let c = addr(3);
    let mut l = PRFC1Implementor::init(a);
    let ev = l.transfer_from(b, a, c, 1);
    assert!(ev.is_none());
    assert_eq!(l.balance_of(a), INITIAL_SUPPLY);
    assert_eq!(l.balance_of(c), 0);
    assert_eq!(l.allowance(a, b), 0);
}

#[test]
fn transfer_from_without_subtable_notifies_zero() {
    let a = addr(1);
    let b = addr(2);
    let c = addr(3);
    let mut l = PRFC1Implementor::init(a);
    let ev = l.transfer_from(b, a, c, 0).expect("a notification is owed");
    assert_eq!(ev.owner_address, a);
    assert_eq!(ev.recipient_address, c);
    assert_eq!(ev.amount, 0);
    assert_eq!(l.balance_of(a), INITIAL_SUPPLY);
    assert_eq!(l.balance_of(c), 0);
}

#[test]
fn transfer_from_beyond_owner_balance_is_silent_noop() {
    let a = addr(1);
    let b = addr(2);
    let c = addr(3);
    let mut l = ledger_with_subtable(a, 1000);
    l.set_allowance(a, b, 800);
    l.transfer(a, c, 900);
    let ev = l.transfer_from(b, a, c, 500);
    assert!(ev.is_none());
    assert_eq!(l.balance_of(a), 100);
    assert_eq!(l.balance_of(c), 900);
    assert_eq!(l.allowance(a, b), 800);
}

#[test]
fn supply_is_conserved_across_a_sequence_of_operations() {
    let a = addr(1);
    let b = addr(2);
    let c = addr(3);
    let mut l = PRFC1Implementor::init(a);
    l.transfer(a, b, 12345);
    l.transfer(b, c, 45);
    l.transfer(c, c, 45);
    l.transfer(b, a, 999999);
    l.set_allowance(a, b, 10);
    l.transfer_from(b, a, c, 0);
    let total = l.balance_of(a) as u128 + l.balance_of(b) as u128 + l.balance_of(c) as u128;
    assert_eq!(total, INITIAL_SUPPLY as u128);
}
