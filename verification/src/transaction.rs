//! The transaction records that the ledger consumes.
//!
//! A record is an already-validated input row: a kind, a client id, a
//! transaction id, and (for deposits and withdrawals) an amount. Amounts
//! are fixed-point values with four fractional digits, stored as a signed
//! count of ten-thousandths.

use vstd::prelude::*;

verus! {

/// A dispute, resolve or chargeback row: it names no amount of its own,
/// only the transaction id of the deposit it refers to.
#[derive(Clone, Copy, Debug, PartialEq, Eq, Structural)]
pub struct TransactionData {
    pub client: u16,
    pub tx: u32,
}

/// A deposit or withdrawal row. `amount` is the monetary value in
/// ten-thousandths.
#[derive(Clone, Copy, Debug, PartialEq, Eq, Structural)]
pub struct TransactionAmountData {
    pub client: u16,
    pub tx: u32,
    pub amount: i64,
}

/// One input row, tagged with its kind.
#[derive(Clone, Copy, Debug, PartialEq, Eq, Structural)]
pub enum Transaction {
    Deposit(TransactionAmountData),
    Withdrawal(TransactionAmountData),
    Dispute(TransactionData),
    Resolve(TransactionData),
    Chargeback(TransactionData),
}

impl Transaction {
    /// The client id named by the transaction.
    pub open spec fn spec_client_id(self) -> u16 {
        match self {
            Transaction::Deposit(data) => data.client,
            Transaction::Withdrawal(data) => data.client,
            Transaction::Dispute(data) => data.client,
            Transaction::Resolve(data) => data.client,
            Transaction::Chargeback(data) => data.client,
        }
    }

    /// Returns the client id associated with the transaction.
    pub fn client_id(&self) -> (c: u16)
        ensures
            c == self.spec_client_id(),
    {
        match self {
            Transaction::Deposit(data) => data.client,
            Transaction::Withdrawal(data) => data.client,
            Transaction::Dispute(data) => data.client,
            Transaction::Resolve(data) => data.client,
            Transaction::Chargeback(data) => data.client,
        }
    }

    /// The amount carried by the transaction, if it is a deposit or a
    /// withdrawal.
    pub open spec fn spec_amount(self) -> Option<i64> {
        match self {
            Transaction::Deposit(data) => Some(data.amount),
            Transaction::Withdrawal(data) => Some(data.amount),
            Transaction::Dispute(_) => None,
            Transaction::Resolve(_) => None,
            Transaction::Chargeback(_) => None,
        }
    }

    /// Returns the amount field if the transaction is either a deposit or
    /// a withdrawal, and `None` otherwise.
    pub fn amount(&self) -> (a: Option<i64>)
        ensures
            a == self.spec_amount(),
    {
        match self {
            Transaction::Deposit(data) => Some(data.amount),
            Transaction::Withdrawal(data) => Some(data.amount),
            Transaction::Dispute(_) => None,
            Transaction::Resolve(_) => None,
            Transaction::Chargeback(_) => None,
        }
    }
}

} // verus!
