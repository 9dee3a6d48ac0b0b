use art::storage::storage_balance_bounds;
use art::{Art, LedgerError, StorageBalance, StorageBalanceBounds, StorageDeposit, StrMap};

fn ledger() -> Art {
    Art::new("carol.near".to_string(), "1000".to_string(), "ausd".to_string(), 0).unwrap()
}

#[test]
fn storage_bounds_are_usage_times_byte_cost() {
    assert_eq!(
        storage_balance_bounds(125, 10_000_000_000_000_000_000),
        Ok(StorageBalanceBounds {
            min: 1_250_000_000_000_000_000_000,
            max: Some(1_250_000_000_000_000_000_000),
        })
    );
    assert_eq!(storage_balance_bounds(0, 7), Ok(StorageBalanceBounds { min: 0, max: Some(0) }));
    assert_eq!(storage_balance_bounds(2, u128::MAX), Err(LedgerError::Overflow));
}

#[test]
fn storage_deposit_registers_and_refunds_the_rest() {
    let mut art = ledger();
    let bob = "bob.near".to_string();
    assert_eq!(art.storage_balance_of(&bob, 100), None);
    assert_eq!(art.storage_deposit(bob.clone(), 99, 100), Err(LedgerError::DepositTooSmall));
    assert_eq!(art.storage_balance_of(&bob, 100), None);
    assert_eq!(
        art.storage_deposit(bob.clone(), 130, 100),
        Ok(StorageDeposit { balance: StorageBalance { total: 100, available: 0 }, refund: 30 })
    );
    assert_eq!(
        art.storage_balance_of(&bob, 100),
        Some(StorageBalance { total: 100, available: 0 })
    );
    assert_eq!(art.internal_unwrap_balance_of(&bob), Ok(0));
    // a second deposit comes back whole
    assert_eq!(
        art.storage_deposit(bob.clone(), 130, 100),
        Ok(StorageDeposit { balance: StorageBalance { total: 100, available: 0 }, refund: 130 })
    );
    assert_eq!(
        art.storage_deposit(bob.clone(), 0, 100),
        Ok(StorageDeposit { balance: StorageBalance { total: 100, available: 0 }, refund: 0 })
    );
    assert_eq!(art.get_total_supply(), "1000");
}

#[test]
fn storage_withdraw_grants_nothing() {
    let art = ledger();
    let carol = "carol.near".to_string();
    assert_eq!(
        art.storage_withdraw(&"bob.near".to_string(), None, 100),
        Err(LedgerError::AccountNotRegistered)
    );
    assert_eq!(
        art.storage_withdraw(&carol, Some(1), 100),
        Err(LedgerError::StorageUnavailable)
    );
    assert_eq!(
        art.storage_withdraw(&carol, Some(0), 100),
        Ok(StorageBalance { total: 100, available: 0 })
    );
    assert_eq!(
        art.storage_withdraw(&carol, None, 100),
        Ok(StorageBalance { total: 100, available: 0 })
    );
}

#[test]
fn storage_unregister_tells_whether_an_account_was_removed() {
    let mut art = ledger();
    let bob = "bob.near".to_string();
    assert_eq!(art.storage_unregister(bob.clone(), None), Ok(false));
    art.storage_deposit(bob.clone(), 100, 100).unwrap();
    assert_eq!(art.storage_unregister(bob.clone(), None), Ok(true));
    assert_eq!(
        art.storage_unregister("carol.near".to_string(), None),
        Err(LedgerError::PositiveBalance)
    );
    assert_eq!(art.storage_unregister("carol.near".to_string(), Some(true)), Ok(true));
    assert_eq!(art.ft_total_supply(), 0);
    assert_eq!(art.ft_balance_of(&"carol.near".to_string()), 0);
}

#[test]
fn fungible_token_queries() {
    let mut art = ledger();
    art.stake("carol.near".to_string(), 0, "400".to_string()).unwrap();
    assert_eq!(art.ft_total_supply(), 1000);
    assert_eq!(art.ft_balance_of(&"carol.near".to_string()), 600);
    assert_eq!(art.ft_balance_of(&"nobody".to_string()), 0);
}

#[test]
fn str_map_entries_visit_every_key_once() {
    let mut map: StrMap<u64> = StrMap::new();
    assert_eq!(map.len(), 0);
    for (k, v) in [("x", 1u64), ("y", 2), ("z", 3), ("y", 4)] {
        map.insert(k.to_string(), v);
    }
    map.remove(&"x".to_string());
    assert_eq!(map.len(), 2);
    let mut seen: Vec<(String, u64)> = Vec::new();
    for i in 0..map.len() {
        let (k, v) = map.entry(i);
        seen.push((k.clone(), *v));
    }
    seen.sort();
    assert_eq!(seen, vec![("y".to_string(), 4), ("z".to_string(), 3)]);
}

#[test]
fn balanced_tells_whether_the_balances_add_up() {
    let mut art = ledger();
    assert!(art.balanced());
    art.transfer("carol.near".to_string(), "bob.near".to_string(), "300".to_string()).unwrap();
    art.stake("bob.near".to_string(), 0, "100".to_string()).unwrap();
    assert!(art.balanced());
    art.total_supply += 1;
    assert!(!art.balanced());
    art.total_supply -= 1;
    art.total_staked -= 1;
    assert!(!art.balanced());
    art.total_staked += 2;
    assert!(art.balanced());
    let mut extra = art::Account::new();
    extra.balance = u128::MAX;
    art.accounts.insert("dave.near".to_string(), extra);
    assert!(!art.balanced());
}
