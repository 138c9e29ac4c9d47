use ledger::account::Account;
use ledger::bank::Bank;
use ledger::errors::AccountError;

#[test]
fn deposit_then_deposit_matches_one_deposit() {
    let mut split = Account::new(1, String::from("Ada"));
    assert_eq!(split.deposit(30_000), Ok(30_000));
    assert_eq!(split.deposit(12_345), Ok(42_345));

    let mut once = Account::new(2, String::from("Ben"));
    assert_eq!(once.deposit(42_345), Ok(42_345));

    assert_eq!(split.balance, once.balance);
}

#[test]
fn withdraw_more_than_balance_fails_and_changes_nothing() {
    let mut acc = Account::new(1, String::from("Ada"));
    assert_eq!(acc.deposit(100), Ok(100));
    assert_eq!(acc.withdraw(101), Err(AccountError::InsufficientFunds));
    assert_eq!(acc.balance, 100);
}

#[test]
fn negative_amounts_fail_and_change_nothing() {
    let mut acc = Account::new(1, String::from("Ada"));
    assert_eq!(acc.deposit(500), Ok(500));
    assert_eq!(acc.deposit(-1), Err(AccountError::NegativeAmount));
    assert_eq!(acc.balance, 500);
    assert_eq!(acc.withdraw(-7), Err(AccountError::NegativeAmount));
    assert_eq!(acc.balance, 500);
}

#[test]
fn deposit_overflow_fails_and_changes_nothing() {
    let mut acc = Account::new(1, String::from("Ada"));
    assert_eq!(acc.deposit(i64::MAX), Ok(i64::MAX));
    assert_eq!(acc.deposit(1), Err(AccountError::AmountOverflow));
    assert_eq!(acc.balance, i64::MAX);
}

fn two_account_bank() -> Bank {
    let mut a1 = Account::new(1, String::from("Giorgi"));
    let mut a2 = Account::new(2, String::from("Nino"));
    assert_eq!(a1.deposit(50_000), Ok(50_000));
    assert_eq!(a1.withdraw(25_000), Ok(25_000));
    assert_eq!(a2.deposit(30_000), Ok(30_000));
    let mut bank = Bank::new();
    bank.add_account(a1);
    bank.add_account(a2);
    bank
}

fn balance(bank: &Bank, id: u32) -> i64 {
    bank.get_account(id).expect("account must be registered").balance
}

#[test]
fn self_transfer_is_a_no_op() {
    let mut bank = two_account_bank();
    assert_eq!(bank.transfer(1, 1, 10_000), Ok(()));
    assert_eq!(balance(&bank, 1), 25_000);
    assert_eq!(bank.total_balance(), 55_000);
}

#[test]
fn successful_transfer_moves_exactly_the_amount() {
    let mut bank = two_account_bank();
    let total_before = bank.total_balance();
    assert_eq!(bank.transfer(1, 2, 10_000), Ok(()));
    assert_eq!(balance(&bank, 1), 15_000);
    assert_eq!(balance(&bank, 2), 40_000);
    assert_eq!(bank.total_balance(), total_before);
}

#[test]
fn transfer_with_unregistered_id_fails_and_changes_nothing() {
    let mut bank = two_account_bank();
    assert_eq!(bank.transfer(9, 2, 100), Err(AccountError::AccountNotFound));
    assert_eq!(bank.transfer(1, 9, 100), Err(AccountError::AccountNotFound));
    assert_eq!(balance(&bank, 1), 25_000);
    assert_eq!(balance(&bank, 2), 30_000);
    assert_eq!(bank.total_balance(), 55_000);
}

#[test]
fn transfer_without_funds_fails_and_changes_nothing() {
    let mut bank = two_account_bank();
    assert_eq!(bank.transfer(1, 2, 25_001), Err(AccountError::InsufficientFunds));
    assert_eq!(balance(&bank, 1), 25_000);
    assert_eq!(balance(&bank, 2), 30_000);
}

#[test]
fn transfer_overflowing_the_destination_fails_and_changes_nothing() {
    let mut rich = Account::new(1, String::from("Ada"));
    let mut full = Account::new(2, String::from("Ben"));
    assert_eq!(rich.deposit(10), Ok(10));
    assert_eq!(full.deposit(i64::MAX), Ok(i64::MAX));
    let mut bank = Bank::new();
    bank.add_account(rich);
    bank.add_account(full);
    assert_eq!(bank.transfer(1, 2, 5), Err(AccountError::AmountOverflow));
    assert_eq!(balance(&bank, 1), 10);
    assert_eq!(balance(&bank, 2), i64::MAX);
}

#[test]
fn negative_transfer_fails_and_changes_nothing() {
    let mut bank = two_account_bank();
    assert_eq!(bank.transfer(1, 2, -5), Err(AccountError::NegativeAmount));
    assert_eq!(balance(&bank, 1), 25_000);
    assert_eq!(balance(&bank, 2), 30_000);
}

#[test]
fn demo_scenario_balances_and_rendering() {
    let mut bank = two_account_bank();
    assert_eq!(
        bank.get_account(1).unwrap().summary(),
        "Account 1 (Giorgi) has a balance of $250.00"
    );
    assert_eq!(
        bank.get_account(2).unwrap().summary(),
        "Account 2 (Nino) has a balance of $300.00"
    );
    assert_eq!(bank.transfer(1, 2, 10_000), Ok(()));
    assert_eq!(balance(&bank, 1), 15_000);
    assert_eq!(balance(&bank, 2), 40_000);
    assert_eq!(bank.total_balance(), 55_000);
    assert_eq!(
        bank.summary(),
        "Account 1 (Giorgi) has a balance of $150.00\nAccount 2 (Nino) has a balance of $400.00"
    );
    assert_eq!(bank.total_summary(), "Bank total balance: $550.00");
}

#[test]
fn money_rendering_pads_cents_to_two_digits() {
    let mut acc = Account::new(3, String::from("Cy"));
    assert_eq!(acc.summary(), "Account 3 (Cy) has a balance of $0.00");
    assert_eq!(acc.deposit(5), Ok(5));
    assert_eq!(acc.summary(), "Account 3 (Cy) has a balance of $0.05");
    assert_eq!(acc.withdraw(5), Ok(0));
    assert_eq!(acc.deposit(100), Ok(100));
    assert_eq!(acc.summary(), "Account 3 (Cy) has a balance of $1.00");
    assert_eq!(acc.deposit(123_456_689), Ok(123_456_789));
    assert_eq!(acc.summary(), "Account 3 (Cy) has a balance of $1234567.89");
}

#[test]
fn empty_bank_renders_nothing_and_totals_zero() {
    let bank = Bank::new();
    assert_eq!(bank.summary(), "");
    assert_eq!(bank.total_balance(), 0);
    assert_eq!(bank.total_summary(), "Bank total balance: $0.00");
    assert!(bank.get_account(1).is_none());
}

#[test]
fn re_registering_an_id_replaces_the_account() {
    let mut bank = two_account_bank();
    let mut replacement = Account::new(1, String::from("Otar"));
    assert_eq!(replacement.deposit(700), Ok(700));
    bank.add_account(replacement);
    let seen = bank.get_account(1).unwrap();
    assert_eq!(seen.holder, "Otar");
    assert_eq!(seen.balance, 700);
    assert_eq!(bank.total_balance(), 700 + 30_000);
}

#[test]
fn get_account_mut_allows_mutation_in_place() {
    let mut bank = two_account_bank();
    {
        let acc = bank.get_account_mut(1).unwrap();
        assert_eq!(acc.deposit(1_000), Ok(26_000));
    }
    assert_eq!(balance(&bank, 1), 26_000);
    assert!(bank.get_account_mut(9).is_none());
}

#[test]
fn error_messages_render_as_expected() {
    assert_eq!(AccountError::NegativeAmount.message(), "Amount cannot be negative");
    assert_eq!(AccountError::InsufficientFunds.message(), "Insufficient funds");
    assert_eq!(AccountError::AmountOverflow.message(), "Amount overflow");
    assert_eq!(AccountError::AccountNotFound.message(), "Account not found");
}
