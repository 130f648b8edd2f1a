use ledger_runtime::balances::{Call, Pallet};
use ledger_runtime::support::{Dispatch, INSUFFICIENT_FUNDS, OVERFLOW};

#[test]
fn init_balances() {
    let mut balances = Pallet::new();

    assert_eq!(balances.balance(&"alice".to_string()), 0);

    balances.set_balance(&"alice".to_string(), 100);

    assert_eq!(balances.balance(&"alice".to_string()), 100);

    assert_eq!(balances.balance(&"bob".to_string()), 0);
}

#[test]
fn transfer_balance() {
    let mut balances = Pallet::new();
    let alice = "alice".to_string();
    let bob = "bob".to_string();

    assert_eq!(
        balances.transfer(alice.clone(), bob.clone(), 100),
        Err("Not enough funds.")
    );

    balances.set_balance(&alice, 100);
    assert_eq!(balances.transfer(alice.clone(), bob.clone(), 100), Ok(()));

    assert_eq!(balances.balance(&alice), 0);

    assert_eq!(balances.balance(&bob), 100);
}

#[test]
fn untouched_account_holds_nothing() {
    let mut balances = Pallet::new();
    balances.set_balance(&"alice".to_string(), 7);
    assert_eq!(balances.transfer("alice".to_string(), "bob".to_string(), 3), Ok(()));
    assert_eq!(balances.balance(&"charlie".to_string()), 0);
    assert_eq!(balances.balance(&"".to_string()), 0);
}

#[test]
fn set_balance_overwrites() {
    let mut balances = Pallet::new();
    let alice = "alice".to_string();
    balances.set_balance(&alice, 100);
    balances.set_balance(&alice, 40);
    assert_eq!(balances.balance(&alice), 40);
    balances.set_balance(&alice, 0);
    assert_eq!(balances.balance(&alice), 0);
}

#[test]
fn transfer_without_funds_changes_nothing() {
    let mut balances = Pallet::new();
    let alice = "alice".to_string();
    let bob = "bob".to_string();
    balances.set_balance(&alice, 10);
    balances.set_balance(&bob, 5);
    assert_eq!(balances.transfer(alice.clone(), bob.clone(), 11), Err(INSUFFICIENT_FUNDS));
    assert_eq!(balances.balance(&alice), 10);
    assert_eq!(balances.balance(&bob), 5);
}

#[test]
fn transfer_conserves_the_total() {
    let mut balances = Pallet::new();
    let alice = "alice".to_string();
    let bob = "bob".to_string();
    balances.set_balance(&alice, 70);
    balances.set_balance(&bob, 12);
    assert_eq!(balances.transfer(alice.clone(), bob.clone(), 25), Ok(()));
    assert_eq!(balances.balance(&alice), 45);
    assert_eq!(balances.balance(&bob), 37);
    assert_eq!(balances.balance(&alice) + balances.balance(&bob), 82);
}

#[test]
fn transfer_of_whole_balance_and_of_nothing() {
    let mut balances = Pallet::new();
    let alice = "alice".to_string();
    let bob = "bob".to_string();
    assert_eq!(balances.transfer(alice.clone(), bob.clone(), 0), Ok(()));
    assert_eq!(balances.balance(&alice), 0);
    assert_eq!(balances.balance(&bob), 0);
    balances.set_balance(&alice, u128::MAX);
    assert_eq!(balances.transfer(alice.clone(), bob.clone(), u128::MAX), Ok(()));
    assert_eq!(balances.balance(&alice), 0);
    assert_eq!(balances.balance(&bob), u128::MAX);
}

#[test]
fn transfer_overflow_changes_nothing() {
    let mut balances = Pallet::new();
    let alice = "alice".to_string();
    let bob = "bob".to_string();
    balances.set_balance(&alice, 10);
    balances.set_balance(&bob, u128::MAX - 4);
    assert_eq!(balances.transfer(alice.clone(), bob.clone(), 5), Err(OVERFLOW));
    assert_eq!(balances.transfer(alice.clone(), bob.clone(), 5), Err("Overflow occured"));
    assert_eq!(balances.balance(&alice), 10);
    assert_eq!(balances.balance(&bob), u128::MAX - 4);
    assert_eq!(balances.transfer(alice.clone(), bob.clone(), 4), Ok(()));
    assert_eq!(balances.balance(&alice), 6);
    assert_eq!(balances.balance(&bob), u128::MAX);
}

#[test]
fn insufficient_funds_is_found_before_overflow() {
    let mut balances = Pallet::new();
    let alice = "alice".to_string();
    let bob = "bob".to_string();
    balances.set_balance(&alice, 1);
    balances.set_balance(&bob, u128::MAX);
    assert_eq!(balances.transfer(alice.clone(), bob.clone(), 2), Err(INSUFFICIENT_FUNDS));
}

#[test]
fn transfer_to_oneself_changes_nothing() {
    let mut balances = Pallet::new();
    let alice = "alice".to_string();
    balances.set_balance(&alice, 10);
    assert_eq!(balances.transfer(alice.clone(), alice.clone(), 3), Ok(()));
    assert_eq!(balances.balance(&alice), 10);
    assert_eq!(balances.transfer(alice.clone(), alice.clone(), 14), Err(INSUFFICIENT_FUNDS));
    assert_eq!(balances.balance(&alice), 10);
}

#[test]
fn transfer_of_thirty_to_oneself_leaves_a_hundred() {
    let mut balances = Pallet::new();
    let alice = "alice".to_string();
    balances.set_balance(&alice, 100);
    assert_eq!(balances.transfer(alice.clone(), alice.clone(), 30), Ok(()));
    assert_eq!(balances.balance(&alice), 100);
    assert_eq!(balances.balance(&"bob".to_string()), 0);
}

#[test]
fn transfer_to_oneself_at_the_largest_balance_overflows() {
    let mut balances = Pallet::new();
    let alice = "alice".to_string();
    balances.set_balance(&alice, u128::MAX);
    assert_eq!(balances.transfer(alice.clone(), alice.clone(), 1), Err(OVERFLOW));
    assert_eq!(balances.balance(&alice), u128::MAX);
    assert_eq!(balances.transfer(alice.clone(), alice.clone(), 0), Ok(()));
    assert_eq!(balances.balance(&alice), u128::MAX);
}

#[test]
fn dispatch_transfer_takes_the_caller_from_the_context() {
    let mut balances = Pallet::new();
    let alice = "alice".to_string();
    let bob = "bob".to_string();
    balances.set_balance(&alice, 9);
    let sent = balances.dispatch(alice.clone(), Call::Transfer { to: bob.clone(), amount: 4 });
    assert_eq!(sent, Ok(()));
    assert_eq!(balances.balance(&alice), 5);
    assert_eq!(balances.balance(&bob), 4);
    let refused = balances.dispatch(bob.clone(), Call::Transfer { to: alice.clone(), amount: 5 });
    assert_eq!(refused, Err(INSUFFICIENT_FUNDS));
    assert_eq!(balances.balance(&alice), 5);
    assert_eq!(balances.balance(&bob), 4);
}

#[test]
fn transfers_conserve_what_all_accounts_hold() {
    let mut balances = Pallet::new();
    let names = ["alice", "bob", "charlie"];
    balances.set_balance(&"alice".to_string(), 60);
    balances.set_balance(&"bob".to_string(), 25);
    balances.set_balance(&"charlie".to_string(), 15);
    let moves: [(&str, &str, u128, bool); 6] = [
        ("alice", "bob", 10, true),
        ("bob", "bob", 35, true),
        ("charlie", "alice", 16, false),
        ("charlie", "charlie", 15, true),
        ("bob", "dave", 5, true),
        ("alice", "alice", 51, false),
    ];
    for (from, to, amount, succeeds) in moves {
        let result = balances.transfer(from.to_string(), to.to_string(), amount);
        assert_eq!(result.is_ok(), succeeds);
        let mut total: u128 = balances.balance(&"dave".to_string());
        for name in names {
            total += balances.balance(&name.to_string());
        }
        assert_eq!(total, 100);
    }
    assert_eq!(balances.balance(&"alice".to_string()), 50);
    assert_eq!(balances.balance(&"bob".to_string()), 30);
    assert_eq!(balances.balance(&"charlie".to_string()), 15);
    assert_eq!(balances.balance(&"dave".to_string()), 5);
}
