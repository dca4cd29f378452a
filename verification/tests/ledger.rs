use fungible_token::account::ValidAccountId;
use fungible_token::contract::{Contract, Genesis, LedgerError};
use fungible_token::metadata::FungibleTokenMetadata;
use fungible_token::state::ContractState;
use fungible_token::storage::StorageProbe;

const OWNER: &str = "owner.near";
const SERVICE: &str = "kokumokongz_staking_wallet.near";

fn id(text: &str) -> ValidAccountId {
    ValidAccountId::try_new(text.to_string()).unwrap()
}

fn metadata() -> FungibleTokenMetadata {
    FungibleTokenMetadata {
        version: "V_1".to_string(),
        name: "Rare".to_string(),
        symbol: "Rare".to_string(),
        icon: "data:image/png;base64,AAAA".to_string(),
        reference: None,
        reference_hash: None,
        decimals: 20,
    }
}

fn genesis(total_supply: u128) -> Genesis {
    Genesis { total_supply, service_account_id: id(SERVICE) }
}

fn probe() -> StorageProbe {
    StorageProbe { usage_before: 1000, usage_after: 1125 }
}

fn set_up(total_supply: u128) -> Contract {
    Contract::new(false, id(OWNER), genesis(total_supply), metadata(), probe()).unwrap()
}

fn snapshot(contract: &Contract) -> (String, Vec<(String, u128)>, u128, u64, String) {
    let mut entries: Vec<(String, u128)> = contract
        .accounts
        .entries()
        .iter()
        .map(|(account, balance)| (account.as_str().to_string(), *balance))
        .collect();
    entries.sort();
    (
        contract.owner_id.as_str().to_string(),
        entries,
        contract.total_supply,
        contract.account_storage_usage,
        format!("{:?}", contract.ft_metadata),
    )
}

#[test]
fn genesis_then_mint_then_rejected_mint() {
    let mut contract = set_up(100);
    assert_eq!(contract.accounts.get(&id(OWNER)), 50);
    assert_eq!(contract.accounts.get(&id(SERVICE)), 50);
    assert_eq!(contract.total_supply, 100);

    assert_eq!(contract.mint(OWNER, 10), Ok(()));
    assert_eq!(contract.accounts.get(&id(OWNER)), 60);
    assert_eq!(contract.total_supply, 110);

    assert_eq!(contract.mint("mallory.near", 10), Err(LedgerError::NotOwner));
    assert_eq!(contract.accounts.get(&id(OWNER)), 60);
    assert_eq!(contract.total_supply, 110);
    assert_eq!(contract.accounts.get(&id(SERVICE)), 50);
}

#[test]
fn genesis_records_everything() {
    let contract = set_up(100_000_000_000_000_000_000_000_000_000_000);
    let (owner, entries, total_supply, usage, recorded) = snapshot(&contract);
    assert_eq!(owner, OWNER);
    assert_eq!(
        entries,
        vec![
            (SERVICE.to_string(), 50_000_000_000_000_000_000_000_000_000_000),
            (OWNER.to_string(), 50_000_000_000_000_000_000_000_000_000_000),
        ]
    );
    assert_eq!(total_supply, 100_000_000_000_000_000_000_000_000_000_000);
    assert_eq!(usage, 125);
    assert_eq!(recorded, format!("{:?}", metadata()));
    assert_eq!(contract.ft_metadata.decimals, 20);
    assert_eq!(contract.ft_metadata.symbol, "Rare");
    assert!(contract.is_sound());
}

#[test]
fn genesis_of_nothing_still_seeds_both_accounts() {
    let contract = set_up(0);
    assert_eq!(contract.accounts.lookup(&id(OWNER)), Some(0));
    assert_eq!(contract.accounts.lookup(&id(SERVICE)), Some(0));
    assert_eq!(contract.total_supply, 0);
    assert!(contract.is_sound());
}

#[test]
fn set_up_is_refused_where_state_exists() {
    let r = Contract::new(true, id(OWNER), genesis(100), metadata(), probe());
    assert_eq!(r.unwrap_err(), LedgerError::AlreadyInitialized);
    // Whatever else is wrong, an existing state comes first.
    let r = Contract::new(
        true,
        id(SERVICE),
        genesis(101),
        metadata(),
        StorageProbe { usage_before: 2, usage_after: 1 },
    );
    assert_eq!(r.unwrap_err(), LedgerError::AlreadyInitialized);
}

#[test]
fn set_up_is_refused_where_storage_usage_shrank() {
    let r = Contract::new(
        false,
        id(OWNER),
        genesis(100),
        metadata(),
        StorageProbe { usage_before: 2, usage_after: 1 },
    );
    assert_eq!(r.unwrap_err(), LedgerError::StorageUsageShrank);
}

#[test]
fn set_up_is_refused_for_an_uneven_supply() {
    let r = Contract::new(false, id(OWNER), genesis(101), metadata(), probe());
    assert_eq!(r.unwrap_err(), LedgerError::UnevenGenesisSupply);
}

#[test]
fn set_up_is_refused_where_the_owner_is_the_service_account() {
    let r = Contract::new(false, id(SERVICE), genesis(100), metadata(), probe());
    assert_eq!(r.unwrap_err(), LedgerError::ServiceAccountIsOwner);
}

#[test]
fn second_set_up_fails_and_leaves_the_ledger_untouched() {
    let mut state = ContractState::Uninitialized;
    assert_eq!(state.initialize(id(OWNER), genesis(100), metadata(), probe()), Ok(()));
    let before = match &state {
        ContractState::Initialized(contract) => snapshot(contract),
        ContractState::Uninitialized => panic!("the ledger was set up"),
    };
    assert_eq!(before.2, 100);

    let again = state.initialize(
        id("other.near"),
        genesis(4000),
        metadata(),
        StorageProbe { usage_before: 0, usage_after: 1 },
    );
    assert_eq!(again, Err(LedgerError::AlreadyInitialized));
    let after = match &state {
        ContractState::Initialized(contract) => snapshot(contract),
        ContractState::Uninitialized => panic!("the ledger is still there"),
    };
    assert_eq!(before, after);
}

#[test]
fn refused_first_set_up_leaves_the_state_without_a_ledger() {
    let mut state = ContractState::Uninitialized;
    let r = state.initialize(id(OWNER), genesis(7), metadata(), probe());
    assert_eq!(r, Err(LedgerError::UnevenGenesisSupply));
    assert!(matches!(state, ContractState::Uninitialized));
    assert_eq!(state.initialize(id(OWNER), genesis(8), metadata(), probe()), Ok(()));
    assert!(matches!(state, ContractState::Initialized(_)));
}

#[test]
fn mint_by_anyone_else_changes_nothing() {
    let mut contract = set_up(100);
    let before = snapshot(&contract);
    for caller in [SERVICE, "mallory.near", "", "Owner.near", "owner.nea", "owner.near "] {
        assert_eq!(contract.mint(caller, 1), Err(LedgerError::NotOwner));
        assert_eq!(snapshot(&contract), before);
    }
}

#[test]
fn mint_of_nothing_is_accepted_and_changes_no_amount() {
    let mut contract = set_up(100);
    assert_eq!(contract.mint(OWNER, 0), Ok(()));
    assert_eq!(contract.total_supply, 100);
    assert_eq!(contract.accounts.get(&id(OWNER)), 50);
    assert!(contract.is_sound());
}

#[test]
fn mint_is_refused_where_the_supply_would_overflow() {
    let mut contract = set_up(u128::MAX - 1);
    let before = snapshot(&contract);
    assert_eq!(contract.mint(OWNER, 2), Err(LedgerError::SupplyOverflow));
    assert_eq!(snapshot(&contract), before);
    assert_eq!(contract.mint(OWNER, 1), Ok(()));
    assert_eq!(contract.total_supply, u128::MAX);
    assert_eq!(contract.accounts.get(&id(OWNER)), u128::MAX / 2 + 1);
    assert!(contract.is_sound());
}

#[test]
fn mint_is_refused_where_the_owner_has_no_entry() {
    let mut contract = set_up(100);
    contract.accounts.remove(&id(OWNER));
    contract.total_supply = 50;
    assert!(contract.is_sound());
    let before = snapshot(&contract);
    assert_eq!(contract.mint(OWNER, 10), Err(LedgerError::OwnerHasNoBalance));
    assert_eq!(snapshot(&contract), before);
}

#[test]
fn transfer_moves_the_amount_and_keeps_the_supply() {
    let mut contract = set_up(100);
    assert_eq!(contract.transfer(&id(OWNER), &id("alice.near"), 20), Ok(()));
    assert_eq!(contract.accounts.get(&id(OWNER)), 30);
    assert_eq!(contract.accounts.get(&id("alice.near")), 20);
    assert_eq!(contract.accounts.get(&id(SERVICE)), 50);
    assert_eq!(contract.total_supply, 100);
    assert_eq!(contract.transfer(&id("alice.near"), &id(SERVICE), 20), Ok(()));
    assert_eq!(contract.accounts.lookup(&id("alice.near")), Some(0));
    assert_eq!(contract.accounts.get(&id(SERVICE)), 70);
    assert_eq!(contract.total_supply, 100);
    assert!(contract.is_sound());
}

#[test]
fn transfer_is_refused_where_the_sender_holds_too_little() {
    let mut contract = set_up(100);
    let before = snapshot(&contract);
    assert_eq!(
        contract.transfer(&id(OWNER), &id("alice.near"), 51),
        Err(LedgerError::InsufficientBalance)
    );
    assert_eq!(snapshot(&contract), before);
    assert_eq!(
        contract.transfer(&id("nobody.near"), &id(OWNER), 1),
        Err(LedgerError::InsufficientBalance)
    );
    assert_eq!(snapshot(&contract), before);
    assert_eq!(contract.transfer(&id(OWNER), &id("alice.near"), 50), Ok(()));
    assert_eq!(contract.accounts.get(&id(OWNER)), 0);
    assert_eq!(contract.accounts.get(&id("alice.near")), 50);
}

#[test]
fn transfer_to_oneself_changes_no_balance() {
    let mut contract = set_up(100);
    assert_eq!(contract.transfer(&id(OWNER), &id(OWNER), 50), Ok(()));
    assert_eq!(contract.accounts.get(&id(OWNER)), 50);
    assert_eq!(contract.total_supply, 100);
    assert!(contract.is_sound());
}

#[test]
fn supply_stays_the_sum_of_all_balances() {
    let mut contract = set_up(1000);
    assert!(contract.is_sound());
    let names = ["alice.near", "bob.near", "carol.near", OWNER, SERVICE];
    let mut step: u128 = 1;
    for round in 0..40usize {
        let sender = names[round % names.len()];
        let receiver = names[(round * 3 + 1) % names.len()];
        let _ = contract.transfer(&id(sender), &id(receiver), step % 97);
        let _ = contract.mint(if round % 4 == 0 { "mallory.near" } else { OWNER }, step);
        step = step * 7 + 3;
        assert!(contract.is_sound());
        assert_eq!(contract.accounts.total(), Some(contract.total_supply));
    }
    assert_eq!(contract.owner_id.as_str(), OWNER);
    assert_eq!(contract.account_storage_usage, 125);
}

#[test]
fn soundness_check_sees_a_broken_supply() {
    let mut contract = set_up(100);
    contract.total_supply = 99;
    assert!(!contract.is_sound());
    contract.total_supply = 100;
    contract.accounts.set(&id("alice.near"), u128::MAX);
    assert!(!contract.is_sound());
}
