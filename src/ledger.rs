use vstd::prelude::*;

use crate::models::{Account, Transaction};
use crate::types::{AccountType, TransactionType};

verus! {

/// Whether an account of this kind counts as liquid (assets and expenses).
pub open spec fn is_liquid(kind: AccountType) -> bool {
    kind == AccountType::Asset || kind == AccountType::Expense
}

/// The signed effect of a transaction on an account of the given kind: on a
/// liquid account a debit adds and a credit subtracts; on the others the
/// signs are inverted.
pub open spec fn signed_effect(kind: AccountType, t: Transaction) -> int {
    let base = if t.trx_type == TransactionType::Debit {
        t.amount as int
    } else {
        -(t.amount as int)
    };
    if is_liquid(kind) {
        base
    } else {
        -base
    }
}

/// The summed effect of the transactions dated on or after `since`.
pub open spec fn effects_since(kind: AccountType, since: i64, ts: Seq<Transaction>) -> int
    decreases ts.len(),
{
    if ts.len() == 0 {
        0
    } else {
        effects_since(kind, since, ts.drop_last()) + if ts.last().execution_date >= since {
            signed_effect(kind, ts.last())
        } else {
            0
        }
    }
}

/// An account's balance: its snapshot balance plus the effect of every
/// transaction dated on or after the snapshot's date.
pub open spec fn balance_of(a: Account) -> int {
    a.balance + effects_since(a.acc_type, a.balance_date, a.transactions@)
}

/// The absolute value of an integer.
pub open spec fn abs(x: int) -> int {
    if x < 0 {
        -x
    } else {
        x
    }
}

/// The summed magnitude of the transactions' amounts.
pub open spec fn amounts_volume(ts: Seq<Transaction>) -> int
    decreases ts.len(),
{
    if ts.len() == 0 {
        0
    } else {
        amounts_volume(ts.drop_last()) + abs(ts.last().amount as int)
    }
}

/// The magnitude of all money an account records: every partial balance
/// is bounded by it.
pub open spec fn account_volume(a: Account) -> int {
    abs(a.balance as int) + amounts_volume(a.transactions@)
}

/// The summed volume of the accounts.
pub open spec fn ledger_volume(accs: Seq<Account>) -> int
    decreases accs.len(),
{
    if accs.len() == 0 {
        0
    } else {
        ledger_volume(accs.drop_last()) + account_volume(accs.last())
    }
}

/// Whether all the money the accounts record fits in 64 bits.
pub open spec fn ledger_fits(accs: Seq<Account>) -> bool {
    ledger_volume(accs) <= i64::MAX
}

/// The net worth: the summed balance of all accounts.
pub open spec fn net_worth_of(accs: Seq<Account>) -> int
    decreases accs.len(),
{
    if accs.len() == 0 {
        0
    } else {
        net_worth_of(accs.drop_last()) + balance_of(accs.last())
    }
}

/// The summed balance of the liquid accounts.
pub open spec fn liquid_total(accs: Seq<Account>) -> int
    decreases accs.len(),
{
    if accs.len() == 0 {
        0
    } else {
        liquid_total(accs.drop_last()) + if is_liquid(accs.last().acc_type) {
            balance_of(accs.last())
        } else {
            0
        }
    }
}

/// The summed balance of the other accounts (liabilities, income, equity).
pub open spec fn owed_total(accs: Seq<Account>) -> int
    decreases accs.len(),
{
    if accs.len() == 0 {
        0
    } else {
        owed_total(accs.drop_last()) + if is_liquid(accs.last().acc_type) {
            0
        } else {
            balance_of(accs.last())
        }
    }
}

/// The liquidity index of a wallet, exactly: the ratio `liquid / owed` of
/// two magnitudes, or unbounded where nothing is owed.
#[derive(Clone, Copy, Debug, PartialEq, Eq, Structural)]
pub enum LiquidityIndex {
    Unbounded,
    Ratio { liquid: u64, owed: u64 },
}

/// The liquidity index of the accounts: the absolute ratio of the liquid
/// total to the owed total, unbounded when the owed total is zero.
pub open spec fn liquidity_of(accs: Seq<Account>) -> LiquidityIndex {
    if owed_total(accs) == 0 {
        LiquidityIndex::Unbounded
    } else {
        LiquidityIndex::Ratio {
            liquid: abs(liquid_total(accs)) as u64,
            owed: abs(owed_total(accs)) as u64,
        }
    }
}

proof fn lemma_amounts_volume_prefix(ts: Seq<Transaction>, i: int, j: int)
    requires
        0 <= i <= j <= ts.len(),
    ensures
        0 <= amounts_volume(ts.subrange(0, i)) <= amounts_volume(ts.subrange(0, j)),
    decreases j - i,
{
    if i < j {
        lemma_amounts_volume_prefix(ts, i, j - 1);
        assert(ts.subrange(0, j).drop_last() =~= ts.subrange(0, j - 1));
    } else {
        lemma_amounts_volume_nonneg(ts.subrange(0, i));
    }
}

proof fn lemma_amounts_volume_nonneg(ts: Seq<Transaction>)
    ensures
        amounts_volume(ts) >= 0,
    decreases ts.len(),
{
    if ts.len() > 0 {
        lemma_amounts_volume_nonneg(ts.drop_last());
    }
}

proof fn lemma_effects_bounded(kind: AccountType, since: i64, ts: Seq<Transaction>)
    ensures
        abs(effects_since(kind, since, ts)) <= amounts_volume(ts),
    decreases ts.len(),
{
    if ts.len() > 0 {
        lemma_effects_bounded(kind, since, ts.drop_last());
    }
}

proof fn lemma_balance_bounded(a: Account)
    ensures
        abs(balance_of(a)) <= account_volume(a),
{
    lemma_effects_bounded(a.acc_type, a.balance_date, a.transactions@);
}

proof fn lemma_ledger_volume_prefix(accs: Seq<Account>, i: int, j: int)
    requires
        0 <= i <= j <= accs.len(),
    ensures
        0 <= ledger_volume(accs.subrange(0, i)) <= ledger_volume(accs.subrange(0, j)),
    decreases j - i,
{
    if i < j {
        lemma_ledger_volume_prefix(accs, i, j - 1);
        assert(accs.subrange(0, j).drop_last() =~= accs.subrange(0, j - 1));
        lemma_amounts_volume_nonneg(accs[j - 1].transactions@);
    } else {
        lemma_ledger_volume_nonneg(accs.subrange(0, i));
    }
}

proof fn lemma_ledger_volume_nonneg(accs: Seq<Account>)
    ensures
        ledger_volume(accs) >= 0,
    decreases accs.len(),
{
    if accs.len() > 0 {
        lemma_ledger_volume_nonneg(accs.drop_last());
        lemma_amounts_volume_nonneg(accs.last().transactions@);
    }
}

/// When every account is an asset, nothing is owed, so the liquidity index
/// is unbounded.
pub proof fn lemma_all_assets_unbounded(accs: Seq<Account>)
    requires
        forall|i: int| 0 <= i < accs.len() ==> #[trigger] accs[i].acc_type == AccountType::Asset,
    ensures
        liquidity_of(accs) == LiquidityIndex::Unbounded,
    decreases accs.len(),
{
    if accs.len() > 0 {
        let rest = accs.drop_last();
        assert forall|i: int| 0 <= i < rest.len() implies #[trigger] rest[i].acc_type
            == AccountType::Asset by {
            assert(rest[i] == accs[i]);
        }
        lemma_all_assets_unbounded(rest);
        assert(accs.last() == accs[accs.len() - 1]);
    }
}

/// The magnitude of an amount.
fn magnitude(x: i64) -> (r: u64)
    ensures
        r == abs(x as int),
{
    let w = x as i128;
    if w < 0 {
        (-w) as u64
    } else {
        w as u64
    }
}

/// The account's balance, exactly: the snapshot balance plus the signed
/// effect of each transaction dated on or after the snapshot's date.
pub fn get_account_balance(acc: &Account) -> (r: i64)
    requires
        account_volume(*acc) <= i64::MAX,
    ensures
        r == balance_of(*acc),
{
    let ts = &acc.transactions;
    let liquid = match acc.acc_type {
        AccountType::Asset | AccountType::Expense => true,
        _ => false,
    };
    let mut total: i64 = acc.balance;
    let mut i: usize = 0;
    while i < ts.len()
        invariant
            i <= ts@.len(),
            ts@ == acc.transactions@,
            liquid == is_liquid(acc.acc_type),
            account_volume(*acc) <= i64::MAX,
            total == acc.balance + effects_since(
                acc.acc_type,
                acc.balance_date,
                ts@.subrange(0, i as int),
            ),
        decreases ts.len() - i,
    {
        let t = ts[i];
        proof {
            assert(ts@.subrange(0, i + 1).drop_last() =~= ts@.subrange(0, i as int));
            lemma_effects_bounded(acc.acc_type, acc.balance_date, ts@.subrange(0, i + 1));
            lemma_amounts_volume_prefix(ts@, i + 1, ts@.len() as int);
            assert(ts@.subrange(0, ts@.len() as int) =~= ts@);
        }
        if t.execution_date >= acc.balance_date {
            let debit = match t.trx_type {
                TransactionType::Debit => true,
                TransactionType::Credit => false,
            };
            if debit == liquid {
                total = total + t.amount;
            } else {
                total = total - t.amount;
            }
        }
        i += 1;
    }
    assert(ts@.subrange(0, ts@.len() as int) =~= ts@);
    total
}

/// The net worth of the accounts: the sum of their balances.
pub fn get_accounts_net_worth(accounts: &Vec<Account>) -> (r: i64)
    requires
        ledger_fits(accounts@),
    ensures
        r == net_worth_of(accounts@),
{
    let mut total: i64 = 0;
    let mut i: usize = 0;
    while i < accounts.len()
        invariant
            i <= accounts@.len(),
            ledger_fits(accounts@),
            total == net_worth_of(accounts@.subrange(0, i as int)),
            abs(total as int) <= ledger_volume(accounts@.subrange(0, i as int)),
        decreases accounts.len() - i,
    {
        let acc = &accounts[i];
        proof {
            assert(accounts@.subrange(0, i + 1).drop_last() =~= accounts@.subrange(0, i as int));
            lemma_ledger_volume_prefix(accounts@, i + 1, accounts@.len() as int);
            lemma_ledger_volume_prefix(accounts@, i as int, i + 1);
            assert(accounts@.subrange(0, accounts@.len() as int) =~= accounts@);
            lemma_balance_bounded(*acc);
            lemma_amounts_volume_nonneg(acc.transactions@);
        }
        let b = get_account_balance(acc);
        total = total + b;
        i += 1;
    }
    assert(accounts@.subrange(0, accounts@.len() as int) =~= accounts@);
    total
}

/// The liquidity index of the accounts: the absolute ratio of the liquid
/// balances (assets, expenses) to the others (liabilities, income, equity),
/// unbounded when the latter sum to exactly zero.
pub fn get_wallet_liquidity_index(accounts: &Vec<Account>) -> (r: LiquidityIndex)
    requires
        ledger_fits(accounts@),
    ensures
        r == liquidity_of(accounts@),
{
    let mut num: i64 = 0;
    let mut dem: i64 = 0;
    let mut i: usize = 0;
    while i < accounts.len()
        invariant
            i <= accounts@.len(),
            ledger_fits(accounts@),
            num == liquid_total(accounts@.subrange(0, i as int)),
            dem == owed_total(accounts@.subrange(0, i as int)),
            abs(num as int) + abs(dem as int) <= ledger_volume(accounts@.subrange(0, i as int)),
        decreases accounts.len() - i,
    {
        let acc = &accounts[i];
        proof {
            assert(accounts@.subrange(0, i + 1).drop_last() =~= accounts@.subrange(0, i as int));
            lemma_ledger_volume_prefix(accounts@, i + 1, accounts@.len() as int);
            lemma_ledger_volume_prefix(accounts@, i as int, i + 1);
            assert(accounts@.subrange(0, accounts@.len() as int) =~= accounts@);
            lemma_balance_bounded(*acc);
            lemma_amounts_volume_nonneg(acc.transactions@);
        }
        let b = get_account_balance(acc);
        match acc.acc_type {
            AccountType::Asset | AccountType::Expense => {
                num = num + b;
            },
            _ => {
                dem = dem + b;
            },
        }
        i += 1;
    }
    assert(accounts@.subrange(0, accounts@.len() as int) =~= accounts@);
    if dem == 0 {
        return LiquidityIndex::Unbounded;
    }
    LiquidityIndex::Ratio { liquid: magnitude(num), owed: magnitude(dem) }
}

/// Whether all the money the accounts record fits in 64 bits, so that
/// every balance, the net worth and the liquidity index can be computed.
pub fn ledger_fits_in_range(accounts: &Vec<Account>) -> (r: bool)
    ensures
        r == ledger_fits(accounts@),
{
    let max: u64 = i64::MAX as u64;
    let mut sum: u64 = 0;
    let mut i: usize = 0;
    while i < accounts.len()
        invariant
            i <= accounts@.len(),
            max == i64::MAX,
            sum == ledger_volume(accounts@.subrange(0, i as int)),
            sum <= max,
        decreases accounts.len() - i,
    {
        let acc = &accounts[i];
        let ts = &acc.transactions;
        proof {
            assert(accounts@.subrange(0, i + 1).drop_last() =~= accounts@.subrange(0, i as int));
        }
        sum = sum + magnitude(acc.balance);
        if sum > max {
            proof {
                lemma_amounts_volume_nonneg(ts@);
                lemma_ledger_volume_prefix(accounts@, i + 1, accounts@.len() as int);
                assert(accounts@.subrange(0, accounts@.len() as int) =~= accounts@);
            }
            return false;
        }
        let mut j: usize = 0;
        while j < ts.len()
            invariant
                i < accounts@.len(),
                acc == accounts@[i as int],
                ts@ == acc.transactions@,
                j <= ts@.len(),
                max == i64::MAX,
                sum == ledger_volume(accounts@.subrange(0, i as int)) + abs(acc.balance as int)
                    + amounts_volume(ts@.subrange(0, j as int)),
                sum <= max,
            decreases ts.len() - j,
        {
            proof {
                assert(ts@.subrange(0, j + 1).drop_last() =~= ts@.subrange(0, j as int));
            }
            sum = sum + magnitude(ts[j].amount);
            if sum > max {
                proof {
                    lemma_amounts_volume_prefix(ts@, j + 1, ts@.len() as int);
                    assert(ts@.subrange(0, ts@.len() as int) =~= ts@);
                    assert(accounts@.subrange(0, i + 1).drop_last() =~= accounts@.subrange(
                        0,
                        i as int,
                    ));
                    lemma_ledger_volume_prefix(accounts@, i + 1, accounts@.len() as int);
                    assert(accounts@.subrange(0, accounts@.len() as int) =~= accounts@);
                }
                return false;
            }
            j += 1;
        }
        assert(ts@.subrange(0, ts@.len() as int) =~= ts@);
        i += 1;
    }
    assert(accounts@.subrange(0, accounts@.len() as int) =~= accounts@);
    true
}

} // verus!
