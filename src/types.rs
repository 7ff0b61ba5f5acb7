use vstd::prelude::*;

use crate::text::{lower_of, lowercase, same_text};

verus! {

/// The kind of an account; it decides the sign of a transaction's effect.
#[derive(Clone, Copy, Debug, PartialEq, Eq, Structural)]
pub enum AccountType {
    Asset,
    Liability,
    Expense,
    Income,
    Equity,
}

/// The direction of a transaction.
#[derive(Clone, Copy, Debug, PartialEq, Eq, Structural)]
pub enum TransactionType {
    Debit,
    Credit,
}

/// The label under which an account type is stored.
pub open spec fn account_type_label(k: AccountType) -> Seq<char> {
    match k {
        AccountType::Asset => "Asset"@,
        AccountType::Liability => "Liability"@,
        AccountType::Expense => "Expense"@,
        AccountType::Income => "Income"@,
        AccountType::Equity => "equity"@,
    }
}

/// The account type that a lower-case name stands for.
pub open spec fn account_type_named(lower: Seq<char>) -> Option<AccountType> {
    if lower == "asset"@ {
        Some(AccountType::Asset)
    } else if lower == "liability"@ {
        Some(AccountType::Liability)
    } else if lower == "expense"@ {
        Some(AccountType::Expense)
    } else if lower == "income"@ {
        Some(AccountType::Income)
    } else if lower == "equity"@ {
        Some(AccountType::Equity)
    } else {
        None
    }
}

/// The label under which a transaction type is stored.
pub open spec fn transaction_type_label(k: TransactionType) -> Seq<char> {
    match k {
        TransactionType::Debit => "Debit"@,
        TransactionType::Credit => "Credit"@,
    }
}

/// The transaction type that a lower-case name stands for.
pub open spec fn transaction_type_named(lower: Seq<char>) -> Option<TransactionType> {
    if lower == "debit"@ {
        Some(TransactionType::Debit)
    } else if lower == "credit"@ {
        Some(TransactionType::Credit)
    } else {
        None
    }
}

impl Default for AccountType {
    fn default() -> (r: Self)
        ensures
            r == AccountType::Asset,
    {
        AccountType::Asset
    }
}

impl Default for TransactionType {
    fn default() -> (r: Self)
        ensures
            r == TransactionType::Debit,
    {
        TransactionType::Debit
    }
}

impl AccountType {
    pub fn as_str(&self) -> (r: &'static str)
        ensures
            r@ == account_type_label(*self),
    {
        proof {
            reveal_strlit("Asset");
            reveal_strlit("Liability");
            reveal_strlit("Expense");
            reveal_strlit("Income");
            reveal_strlit("equity");
        }
        match self {
            AccountType::Asset => "Asset",
            AccountType::Liability => "Liability",
            AccountType::Expense => "Expense",
            AccountType::Income => "Income",
            AccountType::Equity => "equity",
        }
    }

    /// The account type named by an already lower-cased text.
    pub fn from_lowercase(lower: &str) -> (r: Option<AccountType>)
        ensures
            r == account_type_named(lower@),
    {
        if same_text(lower, "asset") {
            Some(AccountType::Asset)
        } else if same_text(lower, "liability") {
            Some(AccountType::Liability)
        } else if same_text(lower, "expense") {
            Some(AccountType::Expense)
        } else if same_text(lower, "income") {
            Some(AccountType::Income)
        } else if same_text(lower, "equity") {
            Some(AccountType::Equity)
        } else {
            None
        }
    }

    /// Reads an account type whatever the case of its letters.
    pub fn try_from(value: String) -> (r: Result<AccountType, String>)
        ensures
            match r {
                Ok(k) => account_type_named(lower_of(value@)) == Some(k),
                Err(e) => account_type_named(lower_of(value@)) is None
                    && e@ == "Unhandled Account type: "@ + value@,
            },
    {
        let lower = lowercase(value.as_str());
        match AccountType::from_lowercase(lower.as_str()) {
            Some(k) => Ok(k),
            None => {
                let mut e = String::from_str("Unhandled Account type: ");
                e.append(value.as_str());
                Err(e)
            },
        }
    }
}

impl TransactionType {
    pub fn as_str(&self) -> (r: &'static str)
        ensures
            r@ == transaction_type_label(*self),
    {
        proof {
            reveal_strlit("Debit");
            reveal_strlit("Credit");
        }
        match self {
            TransactionType::Debit => "Debit",
            TransactionType::Credit => "Credit",
        }
    }

    /// The transaction type named by an already lower-cased text.
    pub fn from_lowercase(lower: &str) -> (r: Option<TransactionType>)
        ensures
            r == transaction_type_named(lower@),
    {
        if same_text(lower, "debit") {
            Some(TransactionType::Debit)
        } else if same_text(lower, "credit") {
            Some(TransactionType::Credit)
        } else {
            None
        }
    }

    /// Reads a transaction type whatever the case of its letters.
    pub fn try_from(value: String) -> (r: Result<TransactionType, String>)
        ensures
            match r {
                Ok(k) => transaction_type_named(lower_of(value@)) == Some(k),
                Err(e) => transaction_type_named(lower_of(value@)) is None
                    && e@ == "Unhandled Transaction type: "@ + value@,
            },
    {
        let lower = lowercase(value.as_str());
        match TransactionType::from_lowercase(lower.as_str()) {
            Some(k) => Ok(k),
            None => {
                let mut e = String::from_str("Unhandled Transaction type: ");
                e.append(value.as_str());
                Err(e)
            },
        }
    }
}

} // verus!
