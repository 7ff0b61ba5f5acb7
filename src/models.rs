use vstd::prelude::*;

use crate::types::{AccountType, TransactionType};

verus! {

/// One movement of money on an account. Amounts are exact decimals with two
/// places, held as a count of hundredths of the currency unit: a finer
/// fraction cannot be represented, and sources that hold one must refuse it
/// rather than round. Dates are seconds since the Unix epoch.
#[derive(Clone, Copy, Debug, PartialEq, Eq, Structural)]
pub struct Transaction {
    pub id: Option<u32>,
    pub amount: i64,
    pub execution_date: i64,
    pub trx_type: TransactionType,
    pub account_id: u32,
}

/// An account: a snapshot balance as of a date, and the transactions
/// recorded for it.
#[derive(Clone, Debug)]
pub struct Account {
    pub id: Option<u32>,
    pub created_date: Option<i64>,
    pub updated_date: Option<i64>,
    pub wallet_id: u32,
    pub name: String,
    pub acc_type: AccountType,
    pub balance: i64,
    pub balance_date: i64,
    pub transactions: Vec<Transaction>,
}

/// A wallet: an alias, its timestamps and its accounts, in order.
#[derive(Clone, Debug)]
pub struct Wallet {
    pub id: Option<u32>,
    pub alias: String,
    pub created_date: i64,
    pub updated_date: i64,
    pub accounts: Vec<Account>,
}

/// The value of an account, as the contracts see it.
pub struct AccountView {
    pub id: Option<u32>,
    pub created_date: Option<i64>,
    pub updated_date: Option<i64>,
    pub wallet_id: u32,
    pub name: Seq<char>,
    pub acc_type: AccountType,
    pub balance: i64,
    pub balance_date: i64,
    pub transactions: Seq<Transaction>,
}

/// The value of a wallet, as the contracts see it.
pub struct WalletView {
    pub id: Option<u32>,
    pub alias: Seq<char>,
    pub created_date: i64,
    pub updated_date: i64,
    pub accounts: Seq<AccountView>,
}

impl View for Account {
    type V = AccountView;

    open spec fn view(&self) -> AccountView {
        AccountView {
            id: self.id,
            created_date: self.created_date,
            updated_date: self.updated_date,
            wallet_id: self.wallet_id,
            name: self.name@,
            acc_type: self.acc_type,
            balance: self.balance,
            balance_date: self.balance_date,
            transactions: self.transactions@,
        }
    }
}

/// The views of a sequence of accounts.
pub open spec fn accounts_view(accounts: Seq<Account>) -> Seq<AccountView> {
    accounts.map_values(|a: Account| a@)
}

impl View for Wallet {
    type V = WalletView;

    open spec fn view(&self) -> WalletView {
        WalletView {
            id: self.id,
            alias: self.alias@,
            created_date: self.created_date,
            updated_date: self.updated_date,
            accounts: accounts_view(self.accounts@),
        }
    }
}

/// A transaction without the identifiers that a store gave it.
pub open spec fn cleared_transaction(t: Transaction) -> Transaction {
    Transaction { id: None, account_id: 0, ..t }
}

/// An account without the identifiers that a store gave it and its transactions.
pub open spec fn cleared_account(a: AccountView) -> AccountView {
    AccountView {
        id: None,
        wallet_id: 0,
        transactions: a.transactions.map_values(|t: Transaction| cleared_transaction(t)),
        ..a
    }
}

/// A wallet without the identifiers that a store gave it and its contents.
pub open spec fn cleared_wallet(w: WalletView) -> WalletView {
    WalletView {
        id: None,
        accounts: w.accounts.map_values(|a: AccountView| cleared_account(a)),
        ..w
    }
}

/// Drops the identifiers of the transactions, keeping their order.
fn clear_transaction_ids(ts: &Vec<Transaction>) -> (r: Vec<Transaction>)
    ensures
        r@ == ts@.map_values(|t: Transaction| cleared_transaction(t)),
{
    let mut r: Vec<Transaction> = Vec::new();
    let mut i: usize = 0;
    while i < ts.len()
        invariant
            i <= ts@.len(),
            r@ == ts@.subrange(0, i as int).map_values(|t: Transaction| cleared_transaction(t)),
        decreases ts.len() - i,
    {
        let t = ts[i];
        r.push(Transaction { id: None, account_id: 0, ..t });
        assert(ts@.subrange(0, i + 1) =~= ts@.subrange(0, i as int).push(t));
        assert(r@ =~= ts@.subrange(0, i + 1).map_values(|t: Transaction| cleared_transaction(t)));
        i += 1;
    }
    assert(ts@.subrange(0, ts@.len() as int) =~= ts@);
    r
}

/// Drops every identifier that a store gave the wallet, its accounts and
/// their transactions, so that a snapshot does not depend on any store.
pub fn clear_ids(wallet: Wallet) -> (r: Wallet)
    ensures
        r@ == cleared_wallet(wallet@),
{
    let Wallet { id: _, alias, created_date, updated_date, accounts } = wallet;
    let ghost orig = accounts@;
    let mut rest = accounts;
    let mut done: Vec<Account> = Vec::new();
    let n = rest.len();
    while rest.len() > 0
        invariant
            n == orig.len(),
            rest@.len() + done@.len() == n,
            rest@ == orig.subrange(done@.len() as int, n as int),
            forall|j: int| 0 <= j < done@.len() ==> #[trigger] done@[j]@ == cleared_account(orig[j]@),
        decreases rest@.len(),
    {
        let ghost k: int = done@.len() as int;
        let a = rest.remove(0);
        assert(a == orig[k]);
        let transactions = clear_transaction_ids(&a.transactions);
        let c = Account { id: None, wallet_id: 0, transactions, ..a };
        assert(c@ == cleared_account(orig[k]@));
        done.push(c);
        assert(rest@ =~= orig.subrange(k + 1, n as int));
    }
    let r = Wallet { id: None, alias, created_date, updated_date, accounts: done };
    assert(r@.accounts =~= cleared_wallet(wallet@).accounts);
    r
}

} // verus!
