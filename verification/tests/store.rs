use fungible_token::account::ValidAccountId;
use fungible_token::store::BalanceStore;

fn id(text: &str) -> ValidAccountId {
    ValidAccountId::try_new(text.to_string()).unwrap()
}

fn sorted_entries(store: &BalanceStore) -> Vec<(String, u128)> {
    let mut entries: Vec<(String, u128)> = store
        .entries()
        .iter()
        .map(|(account, balance)| (account.as_str().to_string(), *balance))
        .collect();
    entries.sort();
    entries
}

#[test]
fn new_store_has_no_entries() {
    let store = BalanceStore::new();
    assert!(store.entries().is_empty());
    assert_eq!(store.total(), Some(0));
    assert_eq!(store.lookup(&id("alice.near")), None);
}

#[test]
fn get_without_entry_is_zero_and_changes_nothing() {
    let mut store = BalanceStore::new();
    store.set(&id("bob.near"), 7);
    let alice = id("alice.near");
    assert_eq!(store.get(&alice), 0);
    assert_eq!(store.get(&alice), 0);
    assert_eq!(store.lookup(&alice), None);
    assert_eq!(sorted_entries(&store), vec![("bob.near".to_string(), 7)]);
}

#[test]
fn set_writes_and_replaces() {
    let mut store = BalanceStore::new();
    let alice = id("alice.near");
    let bob = id("bob.near");
    store.set(&alice, 5);
    store.set(&bob, 9);
    assert_eq!(store.get(&alice), 5);
    assert_eq!(store.get(&bob), 9);
    store.set(&alice, 11);
    assert_eq!(store.get(&alice), 11);
    assert_eq!(store.lookup(&alice), Some(11));
    assert_eq!(store.get(&bob), 9);
    assert_eq!(
        sorted_entries(&store),
        vec![("alice.near".to_string(), 11), ("bob.near".to_string(), 9)]
    );
    assert_eq!(store.total(), Some(20));
}

#[test]
fn zero_balance_entry_differs_from_no_entry() {
    let mut store = BalanceStore::new();
    let alice = id("alice.near");
    store.set(&alice, 0);
    assert_eq!(store.lookup(&alice), Some(0));
    assert_eq!(store.get(&alice), 0);
    assert_eq!(store.entries().len(), 1);
}

#[test]
fn remove_deletes_only_that_entry() {
    let mut store = BalanceStore::new();
    let alice = id("alice.near");
    let bob = id("bob.near");
    let carol = id("carol.near");
    store.set(&alice, 1);
    store.set(&bob, 2);
    store.set(&carol, 3);
    store.remove(&bob);
    assert_eq!(store.lookup(&bob), None);
    assert_eq!(store.get(&bob), 0);
    assert_eq!(
        sorted_entries(&store),
        vec![("alice.near".to_string(), 1), ("carol.near".to_string(), 3)]
    );
    store.remove(&bob);
    assert_eq!(store.entries().len(), 2);
    assert_eq!(store.total(), Some(4));
}

#[test]
fn total_is_none_past_the_largest_balance() {
    let mut store = BalanceStore::new();
    store.set(&id("alice.near"), u128::MAX);
    assert_eq!(store.total(), Some(u128::MAX));
    store.set(&id("bob.near"), 1);
    assert_eq!(store.total(), None);
    store.set(&id("bob.near"), 0);
    assert_eq!(store.total(), Some(u128::MAX));
}
