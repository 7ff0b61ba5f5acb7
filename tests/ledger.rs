use daikoku::ledger::{
    get_account_balance, get_accounts_net_worth, get_wallet_liquidity_index, ledger_fits_in_range,
    LiquidityIndex,
};
use daikoku::models::{Account, Transaction};
use daikoku::types::{AccountType, TransactionType};

const D: i64 = 1_700_000_000;

fn account(kind: AccountType, balance: i64, transactions: Vec<Transaction>) -> Account {
    Account {
        id: Some(1),
        created_date: None,
        updated_date: None,
        wallet_id: 1,
        name: "acc".to_string(),
        acc_type: kind,
        balance,
        balance_date: D,
        transactions,
    }
}

fn trx(amount: i64, date: i64, kind: TransactionType) -> Transaction {
    Transaction { id: None, amount, execution_date: date, trx_type: kind, account_id: 1 }
}

fn ratio(l: LiquidityIndex) -> f64 {
    match l {
        LiquidityIndex::Unbounded => f64::INFINITY,
        LiquidityIndex::Ratio { liquid, owed } => liquid as f64 / owed as f64,
    }
}

#[test]
fn debit_after_snapshot_adds_on_an_asset() {
    let a = account(AccountType::Asset, 10_000, vec![trx(5_000, D + 86_400, TransactionType::Debit)]);
    assert_eq!(get_account_balance(&a), 15_000);
}

#[test]
fn debit_after_snapshot_subtracts_on_a_liability() {
    let a = account(AccountType::Liability, 10_000, vec![trx(5_000, D + 86_400, TransactionType::Debit)]);
    assert_eq!(get_account_balance(&a), 5_000);
    let z = account(AccountType::Liability, 0, vec![trx(5_000, D + 86_400, TransactionType::Debit)]);
    assert_eq!(get_account_balance(&z), -5_000);
}

#[test]
fn signs_for_every_account_type() {
    let cases = [
        (AccountType::Asset, 1),
        (AccountType::Expense, 1),
        (AccountType::Liability, -1),
        (AccountType::Income, -1),
        (AccountType::Equity, -1),
    ];
    for (kind, sign) in cases {
        let debit = account(kind, 0, vec![trx(700, D, TransactionType::Debit)]);
        let credit = account(kind, 0, vec![trx(700, D, TransactionType::Credit)]);
        assert_eq!(get_account_balance(&debit), 700 * sign);
        assert_eq!(get_account_balance(&credit), -700 * sign);
    }
}

#[test]
fn transactions_before_the_snapshot_date_do_not_count() {
    let a = account(
        AccountType::Asset,
        100,
        vec![
            trx(50, D - 1, TransactionType::Debit),
            trx(30, D, TransactionType::Credit),
            trx(20, D + 1, TransactionType::Debit),
        ],
    );
    assert_eq!(get_account_balance(&a), 90);
}

#[test]
fn net_worth_sums_balances() {
    let accs = vec![
        account(AccountType::Asset, 10_000, vec![]),
        account(AccountType::Liability, 5_000, vec![trx(1_000, D, TransactionType::Credit)]),
    ];
    assert_eq!(get_accounts_net_worth(&accs), 16_000);
    assert_eq!(get_accounts_net_worth(&vec![]), 0);
}

#[test]
fn all_asset_wallet_is_unbounded() {
    let accs = vec![account(AccountType::Asset, 10_000, vec![]), account(AccountType::Asset, 3, vec![])];
    assert_eq!(get_wallet_liquidity_index(&accs), LiquidityIndex::Unbounded);
    assert_eq!(ratio(get_wallet_liquidity_index(&accs)), f64::INFINITY);
    assert_eq!(get_wallet_liquidity_index(&vec![]), LiquidityIndex::Unbounded);
}

#[test]
fn zero_owed_balance_is_unbounded() {
    let accs = vec![account(AccountType::Asset, 10_000, vec![]), account(AccountType::Liability, 0, vec![])];
    assert_eq!(get_wallet_liquidity_index(&accs), LiquidityIndex::Unbounded);
}

#[test]
fn asset_hundred_over_liability_fifty_is_two() {
    let accs = vec![account(AccountType::Asset, 10_000, vec![]), account(AccountType::Liability, 5_000, vec![])];
    assert_eq!(get_wallet_liquidity_index(&accs), LiquidityIndex::Ratio { liquid: 10_000, owed: 5_000 });
    assert_eq!(ratio(get_wallet_liquidity_index(&accs)), 2.0);
}

#[test]
fn liquidity_index_is_absolute() {
    let accs = vec![account(AccountType::Expense, -300, vec![]), account(AccountType::Income, 100, vec![])];
    assert_eq!(get_wallet_liquidity_index(&accs), LiquidityIndex::Ratio { liquid: 300, owed: 100 });
}

#[test]
fn ledger_range_check() {
    let small = vec![account(AccountType::Asset, 10, vec![trx(5, D, TransactionType::Debit)])];
    assert!(ledger_fits_in_range(&small));
    let edge = vec![account(AccountType::Asset, i64::MAX - 5, vec![trx(5, D, TransactionType::Debit)])];
    assert!(ledger_fits_in_range(&edge));
    assert_eq!(get_account_balance(&edge[0]), i64::MAX);
    let over = vec![
        account(AccountType::Asset, i64::MAX, vec![]),
        account(AccountType::Liability, -1, vec![]),
    ];
    assert!(!ledger_fits_in_range(&over));
    let min = vec![account(AccountType::Asset, i64::MIN, vec![])];
    assert!(!ledger_fits_in_range(&min));
}
