//! Behaviour of the ledger state machine, driven through its public
//! entry point. Amounts are in ten-thousandths: `100_000` is `10.0000`.

use ledger::account::Bank;
use ledger::transaction::{Transaction, TransactionAmountData, TransactionData};

const ALICE: u16 = 1;
const BOB: u16 = 2;
const CHRIS: u16 = 3;

#[derive(Default)]
struct TestBank {
    next_tx: u32,
    bank: Bank,
}

impl TestBank {
    fn deposit(&mut self, client: u16, amount: i64) -> u32 {
        let tx = self.next_tx;
        self.bank
            .handle_transaction(Transaction::Deposit(TransactionAmountData {
                client,
                tx,
                amount,
            }));

        self.next_tx += 1;

        tx
    }

    fn withdraw(&mut self, client: u16, amount: i64) -> u32 {
        let tx = self.next_tx;
        self.bank
            .handle_transaction(Transaction::Withdrawal(TransactionAmountData {
                client,
                tx,
                amount,
            }));

        self.next_tx += 1;

        tx
    }

    fn dispute(&mut self, client: u16, tx: u32) {
        self.bank
            .handle_transaction(Transaction::Dispute(TransactionData { client, tx }));
    }

    fn resolve(&mut self, client: u16, tx: u32) {
        self.bank
            .handle_transaction(Transaction::Resolve(TransactionData { client, tx }));
    }

    fn chargeback(&mut self, client: u16, tx: u32) {
        self.bank
            .handle_transaction(Transaction::Chargeback(TransactionData { client, tx }));
    }
}

#[test]
fn simple_deposit_and_withdrawal_test() {
    let mut bank = TestBank::default();

    bank.deposit(ALICE, 100_000);

    bank.deposit(BOB, 100_000);
    bank.deposit(BOB, 100_000);

    bank.deposit(CHRIS, 100_000);
    bank.deposit(CHRIS, 100_000);
    bank.deposit(CHRIS, 100_000);

    assert_eq!(bank.bank.account(ALICE).unwrap().available, 100_000);
    assert_eq!(bank.bank.account(BOB).unwrap().available, 200_000);
    assert_eq!(bank.bank.account(CHRIS).unwrap().available, 300_000);
}

#[test]
fn simple_withdrawal_test() {
    let mut bank = TestBank::default();

    bank.deposit(ALICE, 100_000);

    bank.deposit(BOB, 100_000);
    bank.deposit(BOB, 100_000);

    bank.deposit(CHRIS, 100_000);
    bank.deposit(CHRIS, 100_000);
    bank.deposit(CHRIS, 100_000);

    bank.withdraw(ALICE, 50_000);
    bank.withdraw(BOB, 50_000);
    bank.withdraw(CHRIS, 50_000);

    assert_eq!(bank.bank.account(ALICE).unwrap().available, 50_000);
    assert_eq!(bank.bank.account(BOB).unwrap().available, 150_000);
    assert_eq!(bank.bank.account(CHRIS).unwrap().available, 250_000);
}

#[test]
fn overdraw_test() {
    let mut bank = TestBank::default();

    bank.deposit(ALICE, 100_000);
    bank.withdraw(ALICE, 200_000);

    assert_eq!(bank.bank.account(ALICE).unwrap().available, 100_000);
}

#[test]
fn dispute_withdrawal_no_effect_test() {
    let mut bank = TestBank::default();

    bank.deposit(ALICE, 100_000);
    let withdraw_tx = bank.withdraw(ALICE, 50_000);

    let bank_clone = bank.bank.clone();

    bank.dispute(ALICE, withdraw_tx);

    assert_eq!(bank.bank, bank_clone);
}

#[test]
fn dispute_client_transaction_id_mismatch_test() {
    let mut bank = TestBank::default();

    let deposit_tx = bank.deposit(ALICE, 100_000);
    bank.deposit(BOB, 100_000);

    let bank_clone = bank.bank.clone();

    bank.dispute(BOB, deposit_tx);

    assert_eq!(bank.bank, bank_clone);
}

#[test]
fn dispute_to_resolve_test() {
    let mut bank = TestBank::default();

    bank.deposit(ALICE, 100_000);
    let deposit_tx = bank.deposit(ALICE, 100_000);

    bank.dispute(ALICE, deposit_tx);
    assert!(bank.bank.is_disputed(deposit_tx));
    assert_eq!(bank.bank.account(ALICE).unwrap().held, 100_000);

    bank.resolve(ALICE, deposit_tx);

    assert_eq!(bank.bank.account(ALICE).unwrap().available, 200_000);
}

#[test]
fn dispute_to_chargeback_test() {
    let mut bank = TestBank::default();

    bank.deposit(ALICE, 100_000);
    let deposit_tx = bank.deposit(ALICE, 100_000);

    bank.dispute(ALICE, deposit_tx);
    assert!(bank.bank.is_disputed(deposit_tx));
    assert_eq!(bank.bank.account(ALICE).unwrap().held, 100_000);

    bank.chargeback(ALICE, deposit_tx);

    let account = bank.bank.account(ALICE).unwrap();
    assert_eq!(account.available, 100_000);
    assert!(account.locked);
}

#[test]
fn deposit_dispute_resolve_chargeback_scenario_test() {
    let mut bank = Bank::new();

    bank.handle_transaction(Transaction::Deposit(TransactionAmountData {
        client: 1,
        tx: 1,
        amount: 100_000,
    }));
    bank.handle_transaction(Transaction::Deposit(TransactionAmountData {
        client: 1,
        tx: 2,
        amount: 100_000,
    }));
    assert_eq!(bank.account(1).unwrap().available, 200_000);

    bank.handle_transaction(Transaction::Dispute(TransactionData { client: 1, tx: 2 }));
    assert_eq!(bank.account(1).unwrap().available, 100_000);
    assert_eq!(bank.account(1).unwrap().held, 100_000);

    bank.handle_transaction(Transaction::Resolve(TransactionData { client: 1, tx: 2 }));
    assert_eq!(bank.account(1).unwrap().available, 200_000);
    assert_eq!(bank.account(1).unwrap().held, 0);

    bank.handle_transaction(Transaction::Dispute(TransactionData { client: 1, tx: 2 }));
    bank.handle_transaction(Transaction::Chargeback(TransactionData { client: 1, tx: 2 }));
    assert_eq!(bank.account(1).unwrap().available, 100_000);
    assert_eq!(bank.account(1).unwrap().held, 0);
    assert!(bank.account(1).unwrap().locked);

    bank.handle_transaction(Transaction::Deposit(TransactionAmountData {
        client: 1,
        tx: 3,
        amount: 50_000,
    }));
    assert_eq!(bank.account(1).unwrap().available, 100_000);
}

#[test]
fn funds_conservation_concrete_test() {
    // available + held per client equals deposits minus applied
    // withdrawals and chargebacks.
    let mut bank = TestBank::default();

    bank.deposit(ALICE, 100_000); // +10.0000
    let disputed_tx = bank.deposit(ALICE, 40_000); // +4.0000
    bank.withdraw(ALICE, 30_000); // -3.0000
    bank.withdraw(ALICE, 500_000); // declined: no effect
    bank.dispute(ALICE, disputed_tx); // moves funds, removes none

    let account = bank.bank.account(ALICE).unwrap();
    assert_eq!(account.available + account.held, 110_000);

    bank.chargeback(ALICE, disputed_tx); // -4.0000
    let account = bank.bank.account(ALICE).unwrap();
    assert_eq!(account.available + account.held, 70_000);
}

#[test]
fn dispute_resolve_round_trip_test() {
    // A dispute followed by a resolve restores the pre-dispute balances
    // and leaves the id undisputed.
    let mut bank = TestBank::default();

    let deposit_tx = bank.deposit(ALICE, 80_000);
    let before = bank.bank.account(ALICE).unwrap();

    bank.dispute(ALICE, deposit_tx);
    bank.resolve(ALICE, deposit_tx);

    let after = bank.bank.account(ALICE).unwrap();
    assert_eq!(after.available, before.available);
    assert_eq!(after.held, before.held);
    assert!(!bank.bank.is_disputed(deposit_tx));
}

#[test]
fn redispute_doubles_the_hold_test() {
    // A dispute of an id already under dispute is not rejected: the hold
    // is applied a second time.
    let mut bank = TestBank::default();

    let deposit_tx = bank.deposit(ALICE, 100_000);
    bank.deposit(ALICE, 100_000);

    bank.dispute(ALICE, deposit_tx);
    bank.dispute(ALICE, deposit_tx);

    let account = bank.bank.account(ALICE).unwrap();
    assert_eq!(account.available, 0);
    assert_eq!(account.held, 200_000);
}

#[test]
fn resolve_client_mismatch_strands_held_funds_test() {
    // A resolve naming the wrong client still removes the id from the
    // disputed set, leaving the held funds where they are.
    let mut bank = TestBank::default();

    let deposit_tx = bank.deposit(ALICE, 100_000);
    bank.dispute(ALICE, deposit_tx);
    assert!(bank.bank.is_disputed(deposit_tx));

    bank.resolve(BOB, deposit_tx);

    assert!(!bank.bank.is_disputed(deposit_tx));
    let account = bank.bank.account(ALICE).unwrap();
    assert_eq!(account.available, 0);
    assert_eq!(account.held, 100_000);

    // With the id no longer disputed, a second resolve is a no-op.
    bank.resolve(ALICE, deposit_tx);
    let account = bank.bank.account(ALICE).unwrap();
    assert_eq!(account.held, 100_000);
}

#[test]
fn deposit_overflow_is_ignored_test() {
    // A deposit whose credit would leave the fixed-point range is ignored
    // entirely: no balance change and no deposit record.
    let mut bank = TestBank::default();

    bank.deposit(ALICE, i64::MAX);
    let tx = bank.deposit(ALICE, 50_000);
    assert_eq!(bank.bank.account(ALICE).unwrap().available, i64::MAX);

    // The ignored deposit left no record, so disputing it is a no-op.
    bank.dispute(ALICE, tx);
    assert!(!bank.bank.is_disputed(tx));
    assert_eq!(bank.bank.account(ALICE).unwrap().held, 0);
}

#[test]
fn duplicate_deposit_tx_last_record_wins_test() {
    // Both deposits credit the account, but the retained record for the
    // shared id is the most recent one.
    let mut bank = Bank::new();

    bank.handle_transaction(Transaction::Deposit(TransactionAmountData {
        client: 1,
        tx: 7,
        amount: 100_000,
    }));
    bank.handle_transaction(Transaction::Deposit(TransactionAmountData {
        client: 1,
        tx: 7,
        amount: 30_000,
    }));
    assert_eq!(bank.account(1).unwrap().available, 130_000);

    // The dispute holds the amount of the later deposit only.
    bank.handle_transaction(Transaction::Dispute(TransactionData { client: 1, tx: 7 }));
    assert_eq!(bank.account(1).unwrap().available, 100_000);
    assert_eq!(bank.account(1).unwrap().held, 30_000);
}
