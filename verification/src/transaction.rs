//! The vocabulary of the ledger: identifiers, transactions as they are read
//! and as they are processed, and the ways in which either can fail.

use crate::amount::Amount;
use vstd::prelude::*;
use vstd::string::*;

verus! {

/// The identifier of a client's account.
#[derive(Clone, Copy, Debug, PartialEq, Eq, Structural, Hash)]
pub struct AccountId(pub u16);

/// The identifier of a transaction.
#[derive(Clone, Copy, Debug, PartialEq, Eq, Structural, Hash)]
pub struct TransactionId(pub u32);

/// Where a deposit stands in the dispute lifecycle. A deposit moves from
/// `Deposited` to `Disputed`, and from there to `Resolved` or `ChargedBack`,
/// where it stays.
#[derive(Clone, Copy, Debug, PartialEq, Eq, Structural, Hash)]
pub enum DepositState {
    Deposited,
    Disputed,
    Resolved,
    ChargedBack,
}

/// What a transaction asks for. Only deposits and withdrawals carry an
/// amount; a deposit also carries its state in the dispute lifecycle.
#[derive(Clone, Copy, Debug, PartialEq, Eq, Structural, Hash)]
pub enum TransactionType {
    Deposit(Amount, DepositState),
    Withdrawal(Amount),
    Dispute,
    Resolve,
    Chargeback,
}

/// A transaction ready to be processed.
#[derive(Clone, Copy, Debug, PartialEq, Eq, Structural)]
pub struct Transaction {
    pub transaction_type: TransactionType,
    pub account_id: AccountId,
    pub transaction_id: TransactionId,
}

/// A transaction as it is read: the type by its name, and the amount where
/// one was given.
#[derive(Debug)]
pub struct TransactionRow {
    pub transaction_type: String,
    pub account_id: AccountId,
    pub transaction_id: TransactionId,
    pub amount: Option<Amount>,
}

/// Why a transaction was refused. A refused transaction changes nothing.
#[derive(Clone, Copy, Debug, PartialEq, Eq, Structural)]
pub enum TransactionFailure {
    /// The withdrawal exceeds the available funds.
    InsufficientFunds(AccountId, TransactionId, Amount),
    /// No transaction of that identifier has been recorded.
    NonExistentTransaction(TransactionId),
    /// No deposit has opened that account yet.
    NonExistentAccount(AccountId),
    /// The deposit to resolve or charge back was never disputed.
    UndisputedTransaction(TransactionId),
    /// The deposit has been disputed before; the second field is its state.
    RedisputedTransaction(TransactionId, DepositState),
    /// The dispute has ended already: the fields are the state of the
    /// deposit and the state that was asked for.
    FinalizedDispute(TransactionId, DepositState, DepositState),
    /// The referenced transaction is no deposit: the fields are what was
    /// asked for and what was found.
    InvalidTransactionReference(TransactionId, TransactionType, TransactionType),
}

/// Why a row is no transaction.
#[derive(Debug)]
pub enum RowParsingError {
    /// The type is none of the five known names.
    UnknownTransactionType(String),
    /// A deposit or withdrawal without an amount.
    UndefinedAmount,
    /// A deposit or withdrawal of an amount with a negative sign.
    NegativeAmount(Amount),
}

/// The amount of a deposit or withdrawal row, or the reason why it has none
/// that can be used.
pub open spec fn sane_amount(amount: Option<Amount>) -> Result<Amount, RowParsingError> {
    match amount {
        None => Err(RowParsingError::UndefinedAmount),
        Some(value) => if value@.negative {
            Err(RowParsingError::NegativeAmount(value))
        } else {
            Ok(value)
        },
    }
}

impl Transaction {
    /// The transaction that a row stands for, or the reason why it stands
    /// for none. The type is told by its name; a deposit or a withdrawal
    /// needs an amount whose sign is not negative; the other types ignore
    /// the amount.
    pub open spec fn parsed(row: TransactionRow) -> Result<Transaction, RowParsingError> {
        let name = row.transaction_type@;
        let kind = if name == "deposit"@ {
            match sane_amount(row.amount) {
                Ok(value) => Ok(TransactionType::Deposit(value, DepositState::Deposited)),
                Err(e) => Err(e),
            }
        } else if name == "withdrawal"@ {
            match sane_amount(row.amount) {
                Ok(value) => Ok(TransactionType::Withdrawal(value)),
                Err(e) => Err(e),
            }
        } else if name == "dispute"@ {
            Ok(TransactionType::Dispute)
        } else if name == "resolve"@ {
            Ok(TransactionType::Resolve)
        } else if name == "chargeback"@ {
            Ok(TransactionType::Chargeback)
        } else {
            Err(RowParsingError::UnknownTransactionType(row.transaction_type))
        };
        match kind {
            Ok(transaction_type) => Ok(
                Transaction {
                    transaction_type,
                    account_id: row.account_id,
                    transaction_id: row.transaction_id,
                },
            ),
            Err(e) => Err(e),
        }
    }

    /// Turns a row into a transaction, or says why it is none.
    pub fn try_from(row: TransactionRow) -> (r: Result<Transaction, RowParsingError>)
        ensures
            r == Transaction::parsed(row),
    {
        let TransactionRow { transaction_type, account_id, transaction_id, amount } = row;
        let sane: Result<Amount, RowParsingError> = match amount {
            None => Err(RowParsingError::UndefinedAmount),
            Some(value) => if value.is_sign_negative() {
                Err(RowParsingError::NegativeAmount(value))
            } else {
                Ok(value)
            },
        };
        let transaction_type = if transaction_type == String::from_str("deposit") {
            match sane {
                Ok(value) => TransactionType::Deposit(value, DepositState::Deposited),
                Err(e) => { return Err(e); },
            }
        } else if transaction_type == String::from_str("withdrawal") {
            match sane {
                Ok(value) => TransactionType::Withdrawal(value),
                Err(e) => { return Err(e); },
            }
        } else if transaction_type == String::from_str("dispute") {
            TransactionType::Dispute
        } else if transaction_type == String::from_str("resolve") {
            TransactionType::Resolve
        } else if transaction_type == String::from_str("chargeback") {
            TransactionType::Chargeback
        } else {
            return Err(RowParsingError::UnknownTransactionType(transaction_type));
        };
        Ok(Transaction { transaction_type, account_id, transaction_id })
    }
}

} // verus!
