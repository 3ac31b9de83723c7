//! The laws of the ledger: statements about [`apply_spec`] that hold for
//! every ledger state, proved once and for all.
//!
//! Each law is a public proof function; its `requires` holds only what the
//! statement itself needs (an unlocked account, balances inside the
//! fixed-point range).

use vstd::prelude::*;

use crate::account::{
    account_or_new, apply_spec, chargeback_applies, deposit_applies, fits, with_account,
    withdrawal_applies, BankModel,
};
use crate::transaction::{Transaction, TransactionAmountData, TransactionData};

verus! {

/// The total funds of client `c`: available plus held, zero for a client
/// never referenced.
pub open spec fn funds(m: BankModel, c: u16) -> int {
    account_or_new(m, c).available + account_or_new(m, c).held
}

/// How one transaction changes client `c`'s total funds: an applied
/// deposit adds its amount, an applied withdrawal or chargeback removes
/// it, and everything else (disputes, resolves, ignored transactions)
/// leaves the total untouched.
pub open spec fn funds_delta(m: BankModel, t: Transaction, c: u16) -> int {
    match t {
        Transaction::Deposit(d) => if d.client == c && deposit_applies(m, d) {
            d.amount as int
        } else {
            0
        },
        Transaction::Withdrawal(d) => if d.client == c && withdrawal_applies(m, d) {
            -(d.amount as int)
        } else {
            0
        },
        Transaction::Dispute(_) => 0,
        Transaction::Resolve(_) => 0,
        Transaction::Chargeback(d) => if d.client == c && chargeback_applies(m, d) {
            -(m.deposits[d.tx].amount as int)
        } else {
            0
        },
    }
}

/// Conservation, one step: a transaction changes a client's total funds
/// by exactly `funds_delta` - an applied deposit's amount in, an applied
/// withdrawal's or chargeback's amount out, and nothing otherwise.
pub proof fn lemma_funds_step(m: BankModel, t: Transaction, c: u16)
    ensures
        funds(apply_spec(m, t), c) == funds(m, c) + funds_delta(m, t, c),
{
}

/// Replaying a sequence of transactions, first to last.
pub open spec fn replay(m: BankModel, ts: Seq<Transaction>) -> BankModel
    decreases ts.len(),
{
    if ts.len() == 0 {
        m
    } else {
        apply_spec(replay(m, ts.drop_last()), ts.last())
    }
}

/// The sum of the per-step funds changes of a replayed sequence for one
/// client: applied deposits minus applied withdrawals and chargebacks.
pub open spec fn total_delta(m: BankModel, ts: Seq<Transaction>, c: u16) -> int
    decreases ts.len(),
{
    if ts.len() == 0 {
        0
    } else {
        total_delta(m, ts.drop_last(), c) + funds_delta(replay(m, ts.drop_last()), ts.last(), c)
    }
}

/// Conservation over a whole run: after replaying any transaction
/// sequence, each client's available plus held funds equal what they were
/// at the start plus the applied deposit amounts, minus the amounts
/// removed by applied withdrawals and chargebacks.
pub proof fn lemma_funds_conservation(m: BankModel, ts: Seq<Transaction>, c: u16)
    ensures
        funds(replay(m, ts), c) == funds(m, c) + total_delta(m, ts, c),
    decreases ts.len(),
{
    if ts.len() > 0 {
        lemma_funds_conservation(m, ts.drop_last(), c);
        lemma_funds_step(replay(m, ts.drop_last()), ts.last(), c);
    }
}

/// Conservation from an empty ledger: over any run, each client's final
/// available plus held funds are exactly the applied deposit amounts
/// minus the amounts removed by applied withdrawals and chargebacks.
pub proof fn lemma_funds_conservation_from_empty(ts: Seq<Transaction>, c: u16)
    ensures
        funds(replay(crate::account::empty_bank(), ts), c) == total_delta(
            crate::account::empty_bank(),
            ts,
            c,
        ),
{
    lemma_funds_conservation(crate::account::empty_bank(), ts, c);
}

/// A withdrawal with insufficient funds is a no-op: when the amount
/// exceeds the available funds at call time, no balance, deposit record
/// or dispute changes; at most the client's empty account is created.
pub proof fn lemma_overdraw_is_no_op(m: BankModel, d: TransactionAmountData)
    requires
        d.amount > account_or_new(m, d.client).available,
    ensures
        apply_spec(m, Transaction::Withdrawal(d)) == with_account(m, d.client),
        m.accounts.contains_key(d.client) ==> apply_spec(m, Transaction::Withdrawal(d)) == m,
{
}

/// Dispute then resolve is an identity on balances: after a deposit, a
/// dispute of it and a resolve of it, every account holds exactly what it
/// held right after the deposit, and the transaction is no longer under
/// dispute.
pub proof fn lemma_dispute_resolve_round_trip(m: BankModel, c: u16, tx: u32, amount: i64)
    requires
        !account_or_new(m, c).locked,
        fits(account_or_new(m, c).available + amount),
        fits(account_or_new(m, c).held + amount),
    ensures
        ({
            let d = TransactionAmountData { client: c, tx, amount };
            let m1 = apply_spec(m, Transaction::Deposit(d));
            let m2 = apply_spec(m1, Transaction::Dispute(TransactionData { client: c, tx }));
            let m3 = apply_spec(m2, Transaction::Resolve(TransactionData { client: c, tx }));
            &&& m3.accounts == m1.accounts
            &&& m3.deposits == m1.deposits
            &&& !m3.disputes.contains(tx)
        }),
{
    let d = TransactionAmountData { client: c, tx, amount };
    let m1 = apply_spec(m, Transaction::Deposit(d));
    let m2 = apply_spec(m1, Transaction::Dispute(TransactionData { client: c, tx }));
    let m3 = apply_spec(m2, Transaction::Resolve(TransactionData { client: c, tx }));
    assert(m3.accounts =~= m1.accounts);
}

/// A chargeback after a dispute removes the held amount for good and
/// locks the account: the held funds return to their pre-dispute level,
/// the available funds stay short by the disputed amount, and every
/// further transaction of that client is a complete no-op.
pub proof fn lemma_chargeback_locks(m: BankModel, c: u16, tx: u32, amount: i64)
    requires
        !account_or_new(m, c).locked,
        fits(account_or_new(m, c).available + amount),
        fits(account_or_new(m, c).held + amount),
    ensures
        ({
            let d = TransactionAmountData { client: c, tx, amount };
            let m1 = apply_spec(m, Transaction::Deposit(d));
            let m2 = apply_spec(m1, Transaction::Dispute(TransactionData { client: c, tx }));
            let m3 = apply_spec(m2, Transaction::Chargeback(TransactionData { client: c, tx }));
            &&& m3.accounts[c].held == account_or_new(m1, c).held
            &&& m3.accounts[c].available == account_or_new(m1, c).available - amount
            &&& m3.accounts[c].locked
            &&& !m3.disputes.contains(tx)
            &&& forall|t: Transaction|
                t.spec_client_id() == c ==> #[trigger] apply_spec(m3, t) == m3
        }),
{
    let d = TransactionAmountData { client: c, tx, amount };
    let m1 = apply_spec(m, Transaction::Deposit(d));
    let m2 = apply_spec(m1, Transaction::Dispute(TransactionData { client: c, tx }));
    let m3 = apply_spec(m2, Transaction::Chargeback(TransactionData { client: c, tx }));
    assert forall|t: Transaction| t.spec_client_id() == c implies #[trigger] apply_spec(m3, t)
        == m3 by {
        assert(m3.accounts.contains_key(c));
        assert(with_account(m3, c) == m3);
    }
}

/// A lock is permanent: no later transaction, whoever sends it, unlocks
/// the account, and a transaction of the locked client changes nothing
/// at all. With [`lemma_chargeback_locks`] this makes a chargeback
/// irreversible over the whole rest of the run.
pub proof fn lemma_locked_is_permanent(m: BankModel, t: Transaction, c: u16)
    requires
        account_or_new(m, c).locked,
    ensures
        account_or_new(apply_spec(m, t), c).locked,
        t.spec_client_id() == c ==> apply_spec(m, t) == m,
{
}

/// A dispute naming another client's deposit is rejected: the depositor's
/// account and the disputed set stay exactly as they were; at most the
/// disputing client's empty account is created.
pub proof fn lemma_cross_client_dispute_rejected(
    m: BankModel,
    c1: u16,
    c2: u16,
    tx: u32,
    amount: i64,
)
    requires
        c1 != c2,
        !account_or_new(m, c1).locked,
        fits(account_or_new(m, c1).available + amount),
    ensures
        ({
            let d = TransactionAmountData { client: c1, tx, amount };
            let m1 = apply_spec(m, Transaction::Deposit(d));
            let m2 = apply_spec(m1, Transaction::Dispute(TransactionData { client: c2, tx }));
            &&& m2.accounts.contains_key(c1)
            &&& m2.accounts[c1] == m1.accounts[c1]
            &&& m2.disputes == m1.disputes
            &&& m2.deposits == m1.deposits
        }),
{
}

/// Disputing a transaction id that no deposit carries (a withdrawal's id,
/// or an id never seen) is a no-op: no balance, deposit record or dispute
/// changes; at most the disputing client's empty account is created.
pub proof fn lemma_dispute_unknown_tx_is_no_op(m: BankModel, d: TransactionData)
    requires
        !m.deposits.contains_key(d.tx),
    ensures
        apply_spec(m, Transaction::Dispute(d)) == with_account(m, d.client),
        m.accounts.contains_key(d.client) ==> apply_spec(m, Transaction::Dispute(d)) == m,
{
}

} // verus!
