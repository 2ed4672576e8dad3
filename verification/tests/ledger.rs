use brc20_index::balance_ledger::BalanceLedger;
use brc20_index::user_balance::{
    BalanceError, UserBalance, UserBalanceEntry, UserBalanceEntryType,
};

fn entry(address: &str, tick: &str, amount: u128, kind: UserBalanceEntryType) -> UserBalanceEntry {
    UserBalanceEntry::new(address.to_string(), tick.to_string(), 100, amount, kind)
}

fn balances_of(ledger: &BalanceLedger, address: &str, tick: &str) -> (i128, i128, i128) {
    let b = ledger.get(address, tick).unwrap();
    (b.get_available_balance(), b.get_transferable_balance(), b.get_overall_balance())
}

fn history() -> Vec<UserBalanceEntry> {
    vec![
        entry("alice", "ordi", 100, UserBalanceEntryType::Receive),
        entry("bob", "ordi", 40, UserBalanceEntryType::Receive),
        entry("alice", "ordi", 30, UserBalanceEntryType::Inscription),
        entry("alice", "pepe", 5, UserBalanceEntryType::Receive),
        entry("alice", "ordi", 30, UserBalanceEntryType::Send),
        entry("bob", "ordi", 30, UserBalanceEntryType::Receive),
    ]
}

#[test]
fn new_balance_is_zero() {
    let b = UserBalance::new("alice".to_string(), "ordi".to_string());
    assert_eq!(b.get_address(), "alice");
    assert_eq!(b.get_tick(), "ordi");
    assert_eq!(b.get_available_balance(), 0);
    assert_eq!(b.get_transferable_balance(), 0);
    assert_eq!(b.get_overall_balance(), 0);
}

#[test]
fn receive_adds_to_available_and_overall() {
    let mut b = UserBalance::new("alice".to_string(), "ordi".to_string());
    assert_eq!(b.apply(UserBalanceEntryType::Receive, 25), Ok(()));
    assert_eq!(b.get_available_balance(), 25);
    assert_eq!(b.get_transferable_balance(), 0);
    assert_eq!(b.get_overall_balance(), 25);
}

#[test]
fn inscription_moves_available_to_transferable() {
    let mut b = UserBalance::from_parts("alice".to_string(), "ordi".to_string(), 25, 0, 25).unwrap();
    assert_eq!(b.apply(UserBalanceEntryType::Inscription, 10), Ok(()));
    assert_eq!(b.get_available_balance(), 15);
    assert_eq!(b.get_transferable_balance(), 10);
    assert_eq!(b.get_overall_balance(), 25);
}

#[test]
fn send_takes_from_transferable_and_overall() {
    let mut b = UserBalance::from_parts("alice".to_string(), "ordi".to_string(), 15, 10, 25).unwrap();
    assert_eq!(b.apply(UserBalanceEntryType::Send, 10), Ok(()));
    assert_eq!(b.get_available_balance(), 15);
    assert_eq!(b.get_transferable_balance(), 0);
    assert_eq!(b.get_overall_balance(), 15);
}

#[test]
fn inconsistent_parts_are_refused() {
    assert!(UserBalance::from_parts("a".to_string(), "t".to_string(), 1, 2, 4).is_none());
    assert!(UserBalance::from_parts("a".to_string(), "t".to_string(), i128::MAX, 1, i128::MIN)
        .is_none());
    assert!(UserBalance::from_parts("a".to_string(), "t".to_string(), -1, 3, 2).is_some());
}

#[test]
fn balance_out_of_range_is_an_error_and_changes_nothing() {
    let mut b =
        UserBalance::from_parts("alice".to_string(), "ordi".to_string(), i128::MAX, 0, i128::MAX)
            .unwrap();
    assert_eq!(b.apply(UserBalanceEntryType::Receive, 1), Err(BalanceError::OutOfRange));
    assert_eq!(b.get_available_balance(), i128::MAX);
    assert_eq!(b.get_overall_balance(), i128::MAX);
    let mut fresh = UserBalance::new("alice".to_string(), "ordi".to_string());
    assert_eq!(fresh.apply(UserBalanceEntryType::Receive, u128::MAX), Err(BalanceError::OutOfRange));
    assert_eq!(fresh.get_overall_balance(), 0);
    assert_eq!(fresh.apply(UserBalanceEntryType::Send, i128::MAX as u128 + 1), Ok(()));
    assert_eq!(fresh.get_transferable_balance(), i128::MIN);
}

#[test]
fn first_entry_creates_the_holding_with_zero_balances() {
    let mut ledger = BalanceLedger::new();
    assert!(ledger.get("alice", "ordi").is_none());
    assert_eq!(ledger.apply_entry(&entry("alice", "ordi", 7, UserBalanceEntryType::Inscription)), Ok(()));
    assert_eq!(balances_of(&ledger, "alice", "ordi"), (-7, 7, 0));
    assert!(ledger.get("alice", "pepe").is_none());
    assert!(ledger.get("bob", "ordi").is_none());
}

#[test]
fn entries_touch_the_balances_of_their_holding_only() {
    let mut ledger = BalanceLedger::new();
    for e in history() {
        assert_eq!(ledger.apply_entry(&e), Ok(()));
    }
    assert_eq!(balances_of(&ledger, "alice", "ordi"), (70, 0, 70));
    assert_eq!(balances_of(&ledger, "bob", "ordi"), (70, 0, 70));
    assert_eq!(balances_of(&ledger, "alice", "pepe"), (5, 0, 5));
    assert!(ledger.get("bob", "pepe").is_none());
}

#[test]
fn overall_is_available_plus_transferable_after_every_entry() {
    let mut ledger = BalanceLedger::new();
    for e in history() {
        assert_eq!(ledger.apply_entry(&e), Ok(()));
        for row in ledger.balances() {
            assert_eq!(
                row.get_overall_balance(),
                row.get_available_balance() + row.get_transferable_balance()
            );
        }
    }
}

#[test]
fn failed_entry_leaves_the_ledger_as_it_was() {
    let mut ledger = BalanceLedger::new();
    assert_eq!(ledger.apply_entry(&entry("alice", "ordi", 5, UserBalanceEntryType::Receive)), Ok(()));
    let too_much = entry("bob", "ordi", u128::MAX, UserBalanceEntryType::Receive);
    assert_eq!(ledger.apply_entry(&too_much), Err(BalanceError::OutOfRange));
    assert!(ledger.get("bob", "ordi").is_none());
    let too_much = entry("alice", "ordi", u128::MAX, UserBalanceEntryType::Receive);
    assert_eq!(ledger.apply_entry(&too_much), Err(BalanceError::OutOfRange));
    assert_eq!(balances_of(&ledger, "alice", "ordi"), (5, 0, 5));
    assert_eq!(ledger.balances().len(), 1);
}

#[test]
fn rebuild_equals_incremental_application() {
    let mut incremental = BalanceLedger::new();
    for e in history() {
        assert_eq!(incremental.apply_entry(&e), Ok(()));
    }
    let rebuilt = BalanceLedger::rebuild(&history()).ok().unwrap();
    assert_eq!(rebuilt.balances(), incremental.balances());
}

#[test]
fn rebuild_twice_gives_identical_balances_in_first_touch_order() {
    let first = BalanceLedger::rebuild(&history()).ok().unwrap();
    let second = BalanceLedger::rebuild(&history()).ok().unwrap();
    assert_eq!(first.balances(), second.balances());
    let rows = first.balances();
    assert_eq!(rows.len(), 3);
    assert_eq!(
        rows[0],
        UserBalance::from_parts("alice".to_string(), "ordi".to_string(), 70, 0, 70).unwrap()
    );
    assert_eq!(
        rows[1],
        UserBalance::from_parts("bob".to_string(), "ordi".to_string(), 70, 0, 70).unwrap()
    );
    assert_eq!(
        rows[2],
        UserBalance::from_parts("alice".to_string(), "pepe".to_string(), 5, 0, 5).unwrap()
    );
}

#[test]
fn rebuild_then_apply_equals_rebuild_of_the_longer_history() {
    let all = history();
    let mut ledger = BalanceLedger::rebuild(&all[..3].to_vec()).ok().unwrap();
    for e in &all[3..] {
        assert_eq!(ledger.apply_entry(e), Ok(()));
    }
    let whole = BalanceLedger::rebuild(&all).ok().unwrap();
    assert_eq!(ledger.balances(), whole.balances());
}

#[test]
fn rebuild_of_no_history_is_empty() {
    let ledger = BalanceLedger::rebuild(&Vec::new()).ok().unwrap();
    assert!(ledger.balances().is_empty());
}

#[test]
fn rebuild_fails_where_an_entry_cannot_be_applied() {
    let mut entries = history();
    entries.insert(2, entry("alice", "ordi", u128::MAX, UserBalanceEntryType::Receive));
    assert_eq!(BalanceLedger::rebuild(&entries).err(), Some(BalanceError::OutOfRange));
}

#[test]
fn entry_kinds_have_tags() {
    for kind in [
        UserBalanceEntryType::Receive,
        UserBalanceEntryType::Send,
        UserBalanceEntryType::Inscription,
    ] {
        assert_eq!(UserBalanceEntryType::from_tag(&kind.tag()), Some(kind));
    }
    assert_eq!(UserBalanceEntryType::Receive.tag(), "receive");
    assert_eq!(UserBalanceEntryType::Send.tag(), "send");
    assert_eq!(UserBalanceEntryType::Inscription.tag(), "inscription");
    assert_eq!(UserBalanceEntryType::from_tag("Receive"), None);
    assert_eq!(UserBalanceEntryType::from_tag(""), None);
}
