use transaction_engine::account::{Account, AccountsRepository, Error};

fn units(amount: f64) -> u64 {
    (amount * 10000.0).round() as u64
}

fn dec(units: u64) -> f64 {
    units as f64 / 10000.0
}

fn base_account() -> Account {
    Account::new(1)
}

fn base_account_with_funds(funds: f64) -> Account {
    let mut acc = Account::new(1);
    acc.available_balance += units(funds);
    acc.total_balance += units(funds);
    acc
}

#[test]
fn account_deposit() {
    let mut account = base_account();
    assert!(account.deposit(units(1.88889)).is_ok());
    assert_eq!(dec(account.available_balance()), 1.8889);
    assert_eq!(dec(account.total_balance()), 1.8889);
}

#[test]
fn debit_no_funds() {
    let mut account = base_account();
    let result = account.withdrawal(units(2.0));
    assert!(result.is_err());
    assert_eq!(result.unwrap_err(), Error::InsufficientFunds);
    assert_eq!(dec(account.available_balance()), 0.0);
    assert_eq!(dec(account.total_balance()), 0.0);
}

#[test]
fn debit_too_much() {
    let mut account = base_account_with_funds(19.0);
    let result = account.withdrawal(units(50.9));
    assert!(result.is_err());
    assert_eq!(result.unwrap_err(), Error::InsufficientFunds);
    assert_eq!(dec(account.available_balance()), 19.0);
    assert_eq!(dec(account.total_balance()), 19.0);
}

#[test]
fn debit() {
    let mut account = base_account_with_funds(19.0);
    assert!(account.withdrawal(units(10.9)).is_ok());
    assert_eq!(dec(account.available_balance()), 8.1);
    assert_eq!(dec(account.total_balance()), 8.1);
}

#[test]
fn hold() {
    let mut account = base_account_with_funds(19.0);

    account
        .dispute(units(10.0))
        .expect("Should have been able to hold funds");
    assert_eq!(dec(account.held_balance()), 10.0);
    assert_eq!(dec(account.available_balance()), 9.0);
    assert_eq!(dec(account.total_balance()), 19.0);
}

#[test]
fn hold_no_funds() {
    let mut account = base_account_with_funds(1.0);

    let result = account.dispute(units(10.0));
    assert!(result.is_err());
    assert_eq!(result.unwrap_err(), Error::InsufficientFunds);
    assert_eq!(dec(account.held_balance()), 0.0);
    assert_eq!(dec(account.available_balance()), 1.0);
    assert_eq!(dec(account.total_balance()), 1.0);
}

#[test]
fn release() {
    let mut account = base_account_with_funds(19.0);

    account
        .dispute(units(10.0))
        .expect("Should have been able to hold funds");
    assert_eq!(dec(account.held_balance()), 10.0);
    assert_eq!(dec(account.available_balance()), 9.0);
    assert_eq!(dec(account.total_balance()), 19.0);
    account
        .resolve(units(10.0))
        .expect("Should have been able to release funds");
    assert_eq!(dec(account.held_balance()), 0.0);
    assert_eq!(dec(account.available_balance()), 19.0);
    assert_eq!(dec(account.total_balance()), 19.0);
}

#[test]
fn release_no_funds() {
    let mut account = base_account_with_funds(19.0);
    let result = account.resolve(units(10.0));
    assert!(result.is_err());
    assert_eq!(result.unwrap_err(), Error::InsufficientFunds);
    assert_eq!(dec(account.held_balance()), 0.0);
    assert_eq!(dec(account.available_balance()), 19.0);
    assert_eq!(dec(account.total_balance()), 19.0);
}

#[test]
fn account_chargeback() {
    let mut account = base_account_with_funds(20.0);
    assert!(account.dispute(units(10.0)).is_ok());
    assert!(account.chargeback(units(10.0)).is_ok());
    assert!(account.locked);

    let result = account.deposit(units(10.0));
    assert!(result.is_err());
    assert_eq!(result.unwrap_err(), Error::LockedAccount);
}

#[test]
fn chargeback_needs_held_funds() {
    let mut account = base_account_with_funds(20.0);
    let result = account.chargeback(units(10.0));
    assert_eq!(result, Err(Error::InsufficientFunds));
    assert!(!account.locked());
    assert_eq!(account.total_balance(), 200000);
}

#[test]
fn locked_account_refuses_everything() {
    let mut account = base_account_with_funds(20.0);
    account.dispute(units(10.0)).unwrap();
    account.chargeback(units(5.0)).unwrap();
    assert!(account.locked());
    let before = account;
    assert_eq!(account.deposit(units(1.0)), Err(Error::LockedAccount));
    assert_eq!(account.withdrawal(units(1.0)), Err(Error::LockedAccount));
    assert_eq!(account.dispute(units(1.0)), Err(Error::LockedAccount));
    assert_eq!(account.resolve(units(1.0)), Err(Error::LockedAccount));
    assert_eq!(account.chargeback(units(1.0)), Err(Error::LockedAccount));
    assert_eq!(account, before);
    assert_eq!(account.held_balance(), 50000);
    assert_eq!(account.total_balance(), 150000);
    assert_eq!(account.available_balance(), 100000);
}

#[test]
fn balances_stay_consistent() {
    let mut account = base_account();
    account.deposit(70000).unwrap();
    account.dispute(30000).unwrap();
    account.withdrawal(10000).unwrap();
    account.resolve(20000).unwrap();
    assert_eq!(account.available_balance(), 50000);
    assert_eq!(account.held_balance(), 10000);
    assert_eq!(
        account.total_balance(),
        account.available_balance() + account.held_balance()
    );
}

#[test]
fn repository_creates_accounts_lazily() {
    let mut repo = AccountsRepository::new();
    assert!(repo.accounts_by_client_id().is_empty());
    repo.get_or_create(7).deposit(10000).unwrap();
    assert_eq!(repo.get_or_create(7).available_balance(), 10000);
    assert_eq!(repo.get_or_create(7).client_id(), 7);
    assert_eq!(repo.accounts_by_client_id().len(), 1);
}

#[test]
fn repository_lists_accounts_by_client_id() {
    let mut repo = AccountsRepository::default();
    repo.get_or_create(65535);
    repo.get_or_create(3);
    repo.get_or_create(0);
    repo.get_or_create(42);
    let ids: Vec<u16> = repo
        .accounts_by_client_id()
        .iter()
        .map(|a| a.client_id())
        .collect();
    assert_eq!(ids, vec![0, 3, 42, 65535]);
}
