//! The ledger: per-client accounts, retained deposits, and the set of
//! transaction ids under dispute.
//!
//! [`Bank::handle_transaction`] is the single mutating entry point. Its
//! behaviour is pinned down by the specification function [`apply_spec`],
//! which maps an abstract ledger state and a transaction to the next
//! abstract state. Semantically invalid transactions (unknown references,
//! client mismatches, insufficient funds, anything on a locked account)
//! are silent no-ops, never errors. Balance arithmetic that would leave
//! the fixed-point range is likewise left unapplied.

use std::collections::{BTreeMap, BTreeSet};

use vstd::prelude::*;
use vstd::std_specs::cmp::OrdSpec;

use crate::render::{format_units, units_chars};
use crate::transaction::{Transaction, TransactionAmountData, TransactionData};

verus! {

broadcast use vstd::std_specs::btree::group_btree_axioms, vstd::laws_cmp::group_laws_cmp;

/// One client's balances and lock state. `available` and `held` are
/// fixed-point values in ten-thousandths.
#[derive(Clone, Copy, Debug, PartialEq, Eq, Structural)]
pub struct Account {
    pub available: i64,
    pub held: i64,
    pub locked: bool,
}

impl Default for Account {
    /// A freshly referenced account: zero balances, unlocked.
    fn default() -> (a: Account)
        ensures
            a == new_account(),
    {
        Account { available: 0, held: 0, locked: false }
    }
}

/// The abstract state of the whole ledger.
#[verifier::ext_equal]
pub ghost struct BankModel {
    /// Per-client account state, keyed by client id.
    pub accounts: Map<u16, Account>,
    /// Every deposit ever applied, keyed by its transaction id;
    /// the record of the most recent deposit wins on a duplicate id.
    pub deposits: Map<u32, TransactionAmountData>,
    /// Transaction ids currently under active dispute.
    pub disputes: Set<u32>,
}

/// The ledger state before any transaction.
pub open spec fn empty_bank() -> BankModel {
    BankModel { accounts: Map::empty(), deposits: Map::empty(), disputes: Set::empty() }
}

/// The state of a lazily created account.
pub open spec fn new_account() -> Account {
    Account { available: 0, held: 0, locked: false }
}

/// The account of client `c`, or a fresh one if `c` was never referenced.
pub open spec fn account_or_new(m: BankModel, c: u16) -> Account {
    if m.accounts.contains_key(c) {
        m.accounts[c]
    } else {
        new_account()
    }
}

/// The ledger after resolving client `c`'s account, creating it if absent.
/// Every transaction does this first, whatever else it goes on to do.
pub open spec fn with_account(m: BankModel, c: u16) -> BankModel {
    if m.accounts.contains_key(c) {
        m
    } else {
        BankModel { accounts: m.accounts.insert(c, new_account()), ..m }
    }
}

/// Whether a balance stays inside the fixed-point range.
pub open spec fn fits(x: int) -> bool {
    i64::MIN <= x <= i64::MAX
}

/// A deposit takes effect iff the account is unlocked and the credited
/// balance stays representable.
pub open spec fn deposit_applies(m: BankModel, d: TransactionAmountData) -> bool {
    let a = account_or_new(m, d.client);
    &&& !a.locked
    &&& fits(a.available + d.amount)
}

/// A withdrawal takes effect iff the account is unlocked, has sufficient
/// available funds, and the debited balance stays representable.
pub open spec fn withdrawal_applies(m: BankModel, d: TransactionAmountData) -> bool {
    let a = account_or_new(m, d.client);
    &&& !a.locked
    &&& d.amount <= a.available
    &&& fits(a.available - d.amount)
}

/// A dispute takes effect iff the account is unlocked, the referenced
/// deposit exists, its recorded client matches the disputing client, and
/// both moved balances stay representable.
pub open spec fn dispute_applies(m: BankModel, d: TransactionData) -> bool {
    let a = account_or_new(m, d.client);
    &&& !a.locked
    &&& m.deposits.contains_key(d.tx)
    &&& m.deposits[d.tx].client == d.client
    &&& fits(a.available - m.deposits[d.tx].amount)
    &&& fits(a.held + m.deposits[d.tx].amount)
}

/// A resolve or chargeback is even considered only when the account is
/// unlocked and the id is under dispute; the id then leaves the disputed
/// set whether or not the balances move.
pub open spec fn settlement_considered(m: BankModel, d: TransactionData) -> bool {
    &&& !account_or_new(m, d.client).locked
    &&& m.disputes.contains(d.tx)
}

/// A resolve moves the balances iff, beyond being considered, the deposit
/// still exists, its client matches, and both balances stay representable.
pub open spec fn resolve_applies(m: BankModel, d: TransactionData) -> bool {
    let a = account_or_new(m, d.client);
    &&& settlement_considered(m, d)
    &&& m.deposits.contains_key(d.tx)
    &&& m.deposits[d.tx].client == d.client
    &&& fits(a.held - m.deposits[d.tx].amount)
    &&& fits(a.available + m.deposits[d.tx].amount)
}

/// A chargeback removes the held funds and locks the account iff, beyond
/// being considered, the deposit still exists, its client matches, and the
/// debited held balance stays representable.
pub open spec fn chargeback_applies(m: BankModel, d: TransactionData) -> bool {
    let a = account_or_new(m, d.client);
    &&& settlement_considered(m, d)
    &&& m.deposits.contains_key(d.tx)
    &&& m.deposits[d.tx].client == d.client
    &&& fits(a.held - m.deposits[d.tx].amount)
}

/// The ledger state machine: the state after one transaction.
pub open spec fn apply_spec(m: BankModel, t: Transaction) -> BankModel {
    let c = t.spec_client_id();
    let m1 = with_account(m, c);
    let a = account_or_new(m, c);
    if a.locked {
        m1
    } else {
        match t {
            Transaction::Deposit(d) => if deposit_applies(m, d) {
                BankModel {
                    accounts: m1.accounts.insert(
                        d.client,
                        Account { available: (a.available + d.amount) as i64, ..a },
                    ),
                    deposits: m1.deposits.insert(d.tx, d),
                    ..m1
                }
            } else {
                m1
            },
            Transaction::Withdrawal(d) => if withdrawal_applies(m, d) {
                BankModel {
                    accounts: m1.accounts.insert(
                        d.client,
                        Account { available: (a.available - d.amount) as i64, ..a },
                    ),
                    ..m1
                }
            } else {
                m1
            },
            Transaction::Dispute(d) => if dispute_applies(m, d) {
                let amt = m.deposits[d.tx].amount;
                BankModel {
                    accounts: m1.accounts.insert(
                        d.client,
                        Account {
                            available: (a.available - amt) as i64,
                            held: (a.held + amt) as i64,
                            ..a
                        },
                    ),
                    disputes: m1.disputes.insert(d.tx),
                    ..m1
                }
            } else {
                m1
            },
            Transaction::Resolve(d) => if settlement_considered(m, d) {
                let m2 = BankModel { disputes: m1.disputes.remove(d.tx), ..m1 };
                if resolve_applies(m, d) {
                    let amt = m.deposits[d.tx].amount;
                    BankModel {
                        accounts: m2.accounts.insert(
                            d.client,
                            Account {
                                available: (a.available + amt) as i64,
                                held: (a.held - amt) as i64,
                                ..a
                            },
                        ),
                        ..m2
                    }
                } else {
                    m2
                }
            } else {
                m1
            },
            Transaction::Chargeback(d) => if settlement_considered(m, d) {
                let m2 = BankModel { disputes: m1.disputes.remove(d.tx), ..m1 };
                if chargeback_applies(m, d) {
                    let amt = m.deposits[d.tx].amount;
                    BankModel {
                        accounts: m2.accounts.insert(
                            d.client,
                            Account {
                                held: (a.held - amt) as i64,
                                locked: true,
                                ..a
                            },
                        ),
                        ..m2
                    }
                } else {
                    m2
                }
            } else {
                m1
            },
        }
    }
}

/// One output row: a client's final balances rendered as four-decimal
/// strings, with `total` the sum of available and held funds.
#[derive(Clone, Debug, PartialEq, Eq)]
pub struct SerializableAccount {
    pub client: u16,
    pub available: String,
    pub held: String,
    pub total: String,
    pub locked: bool,
}

/// Whether `r` renders client `client`'s account `a`.
#[verifier::opaque]
pub open spec fn row_model(client: u16, a: Account, r: SerializableAccount) -> bool {
    &&& r.client == client
    &&& r.available@ == units_chars(a.available as int)
    &&& r.held@ == units_chars(a.held as int)
    &&& r.total@ == units_chars(a.available + a.held)
    &&& r.locked == a.locked
}

impl SerializableAccount {
    /// Renders one account as an output row.
    pub fn from_account(client: u16, account: &Account) -> (r: SerializableAccount)
        ensures
            r.client == client,
            row_model(client, *account, r),
    {
        proof {
            reveal(row_model);
        }
        SerializableAccount {
            client,
            available: format_units(account.available as i128),
            held: format_units(account.held as i128),
            total: format_units(account.available as i128 + account.held as i128),
            locked: account.locked,
        }
    }
}

/// Two positions of an increasing sequence compare as `Less`.
proof fn lemma_increasing_seq_at<K: Ord>(s: Seq<K>, i: int, j: int)
    requires
        vstd::laws_cmp::obeys_cmp::<K>(),
        vstd::std_specs::btree::increasing_seq(s),
        0 <= i < j < s.len(),
    ensures
        s[i].cmp_spec(&s[j]) is Less,
{
    vstd::std_specs::btree::axiom_increasing_seq_meaning::<K>(s);
}

/// In an increasing key sequence whose keys are the map's domain, every
/// element is a key of the map and is greater than all elements before it.
proof fn lemma_key_seq_element(s: Seq<&u16>, m: Map<u16, Account>, k: int)
    requires
        s.unref().to_set() == m.dom(),
        vstd::std_specs::btree::increasing_seq(s),
        0 <= k < s.len(),
    ensures
        m.contains_key(*s[k]),
        forall|i: int| 0 <= i < k ==> *s[i] < *s[k],
{
    assert(s.unref()[k] == *s[k]);
    assert(s.unref().contains(*s[k]));
    assert(m.dom().contains(*s[k]));
    assert(vstd::laws_cmp::obeys_cmp::<&u16>());
    assert forall|i: int| 0 <= i < k implies *s[i] < *s[k] by {
        lemma_increasing_seq_at::<&u16>(s, i, k);
        assert(s[i].cmp_spec(&s[k]) is Less);
    }
}

/// A strictly sorted row sequence whose clients all lie in the map's
/// domain and whose length equals the domain's size covers every client.
proof fn lemma_sorted_rows_complete(rows: Seq<SerializableAccount>, m: Map<u16, Account>)
    requires
        m.dom().finite(),
        rows.len() == m.dom().len(),
        forall|i: int| 0 <= i < rows.len() ==> m.contains_key(#[trigger] rows[i].client),
        forall|i: int, j: int| 0 <= i < j < rows.len() ==> rows[i].client < rows[j].client,
    ensures
        forall|c: u16|
            #[trigger] m.contains_key(c) ==> exists|i: int|
                0 <= i < rows.len() && rows[i].client == c,
{
    let clients = rows.map_values(|r: SerializableAccount| r.client);
    assert(forall|i: int| 0 <= i < clients.len() ==> #[trigger] clients[i] == rows[i].client);
    assert(clients.no_duplicates());
    clients.unique_seq_to_set();
    assert forall|c: u16| #[trigger] m.contains_key(c) implies exists|i: int|
        0 <= i < rows.len() && rows[i].client == c by {
        if !clients.to_set().contains(c) {
            assert forall|x: u16| clients.to_set().contains(x) implies m.dom().remove(c).contains(
                x,
            ) by {
                let i = choose|i: int| 0 <= i < clients.len() && clients[i] == x;
                assert(m.contains_key(rows[i].client));
            }
            assert(clients.to_set().subset_of(m.dom().remove(c)));
            vstd::set_lib::lemma_len_subset(clients.to_set(), m.dom().remove(c));
            assert(false);
        }
        assert(clients.contains(c));
        let i = choose|i: int| 0 <= i < clients.len() && clients[i] == c;
        assert(rows[i].client == c);
    }
}

/// The ledger. It owns all account and dispute state; `handle_transaction`
/// is the sole mutator.
#[derive(Clone, Debug, PartialEq, Eq)]
pub struct Bank {
    /// Map from client id to account details
    accounts: BTreeMap<u16, Account>,
    /// Map from transaction id to deposit transaction data
    deposits: BTreeMap<u32, TransactionAmountData>,
    /// Set of transaction ids of disputed deposits
    disputes: BTreeSet<u32>,
}

impl View for Bank {
    type V = BankModel;

    closed spec fn view(&self) -> BankModel {
        BankModel { accounts: self.accounts@, deposits: self.deposits@, disputes: self.disputes@ }
    }
}

impl Default for Bank {
    /// An empty ledger.
    fn default() -> (b: Bank)
        ensures
            b@ == empty_bank(),
    {
        Bank::new()
    }
}

impl Bank {
    /// An empty ledger.
    pub fn new() -> (b: Bank)
        ensures
            b@ == empty_bank(),
    {
        Bank {
            accounts: BTreeMap::new(),
            deposits: BTreeMap::new(),
            disputes: BTreeSet::new(),
        }
    }

    /// The account of the given client, if the client has ever been
    /// referenced.
    pub fn account(&self, client: u16) -> (r: Option<Account>)
        ensures
            r == if self@.accounts.contains_key(client) {
                Some(self@.accounts[client])
            } else {
                Option::<Account>::None
            },
    {
        match self.accounts.get(&client) {
            Some(a) => Some(*a),
            None => None,
        }
    }

    /// Whether the given transaction id is currently under dispute.
    pub fn is_disputed(&self, tx: u32) -> (b: bool)
        ensures
            b == self@.disputes.contains(tx),
    {
        self.disputes.contains(&tx)
    }

    /// The final account table, one row per client, ordered by client id:
    /// the rows are sorted, contain every client exactly once, and render
    /// each account as [`row_model`] says.
    #[verifier::rlimit(100)]
    pub fn serializable_accounts(&self) -> (rows: Vec<SerializableAccount>)
        ensures
            rows@.len() == self@.accounts.dom().len(),
            forall|i: int|
                0 <= i < rows@.len() ==> self@.accounts.contains_key(#[trigger] rows@[i].client)
                    && row_model(rows@[i].client, self@.accounts[rows@[i].client], rows@[i]),
            forall|c: u16|
                #[trigger] self@.accounts.contains_key(c) ==> exists|i: int|
                    0 <= i < rows@.len() && rows@[i].client == c,
            forall|i: int, j: int|
                0 <= i < j < rows@.len() ==> rows@[i].client < rows@[j].client,
    {
        let ghost m = self@.accounts;
        let mut rows: Vec<SerializableAccount> = Vec::new();
        for kref in it: self.accounts.keys()
            invariant
                m == self@.accounts,
                0 <= it.index() <= it.seq().len(),
                rows@.len() == it.index(),
                it.seq().unref().to_set() == m.dom(),
                it.seq().len() == m.dom().len(),
                vstd::std_specs::btree::increasing_seq(it.seq()),
                forall|i: int|
                    0 <= i < it.index() ==> #[trigger] rows@[i].client == *it.seq()[i],
                forall|i: int|
                    0 <= i < it.index() ==> m.contains_key(#[trigger] rows@[i].client)
                        && row_model(rows@[i].client, m[rows@[i].client], rows@[i]),
                forall|i: int, j: int|
                    0 <= i < j < it.index() ==> rows@[i].client < rows@[j].client,
        {
            proof {
                lemma_key_seq_element(it.seq(), m, it.index());
            }
            let client = *kref;
            let acct = *self.accounts.get(&client).unwrap();
            rows.push(SerializableAccount::from_account(client, &acct));
        }
        proof {
            assert(self@.accounts.dom().finite());
            lemma_sorted_rows_complete(rows@, m);
        }
        rows
    }

    /// Update the internal state of the bank according to the given
    /// transaction, exactly as [`apply_spec`] says.
    pub fn handle_transaction(&mut self, transaction: Transaction)
        ensures
            final(self)@ == apply_spec(old(self)@, transaction),
    {
        let ghost m = old(self)@;

        // Get the client's account, creating it on first reference
        let client = transaction.client_id();
        if !self.accounts.contains_key(&client) {
            self.accounts.insert(client, Account::default());
        }
        let account = *self.accounts.get(&client).unwrap();
        assert(self@ == with_account(m, client));
        assert(account == account_or_new(m, client));

        // A locked account accepts no further mutations of any kind
        if account.locked {
            return;
        }

        match transaction {
            Transaction::Deposit(data) => {
                // Credit the available funds, unless the balance would
                // leave the representable range
                if let Some(new_available) = account.available.checked_add(data.amount) {
                    self.accounts.insert(
                        client,
                        Account { available: new_available, ..account },
                    );
                    // Record the deposit for possible future dispute
                    self.deposits.insert(data.tx, data);
                }
            },
            Transaction::Withdrawal(data) => {
                // Only apply the withdrawal if the account has enough
                // available funds
                if data.amount <= account.available {
                    if let Some(new_available) = account.available.checked_sub(data.amount) {
                        self.accounts.insert(
                            client,
                            Account { available: new_available, ..account },
                        );
                    }
                }
            },
            Transaction::Dispute(data) => {
                // Get the disputed deposit, ignore if it doesn't exist
                if let Some(disputed_deposit) = self.deposits.get(&data.tx) {
                    let disputed_deposit = *disputed_deposit;
                    // The dispute's client id must match the deposit's,
                    // otherwise ignore
                    if data.client == disputed_deposit.client {
                        let new_available = account.available.checked_sub(disputed_deposit.amount);
                        let new_held = account.held.checked_add(disputed_deposit.amount);
                        if let (Some(new_available), Some(new_held)) = (new_available, new_held) {
                            // Move the deposit into the held funds
                            self.accounts.insert(
                                client,
                                Account { available: new_available, held: new_held, ..account },
                            );
                            self.disputes.insert(data.tx);
                        }
                    }
                }
            },
            Transaction::Resolve(data) => {
                // The transaction must actually be under dispute; once
                // found it leaves the disputed set unconditionally
                if self.disputes.remove(&data.tx) {
                    // Get the disputed deposit, ignore if it doesn't exist
                    if let Some(disputed_deposit) = self.deposits.get(&data.tx) {
                        let disputed_deposit = *disputed_deposit;
                        // The deposit's client id must match the resolve's,
                        // otherwise ignore
                        if data.client == disputed_deposit.client {
                            let new_held = account.held.checked_sub(disputed_deposit.amount);
                            let new_available = account.available.checked_add(
                                disputed_deposit.amount,
                            );
                            if let (Some(new_held), Some(new_available)) = (new_held, new_available)
                            {
                                // Reverse the dispute
                                self.accounts.insert(
                                    client,
                                    Account {
                                        available: new_available,
                                        held: new_held,
                                        ..account
                                    },
                                );
                            }
                        }
                    }
                }
            },
            Transaction::Chargeback(data) => {
                // The transaction must actually be under dispute; once
                // found it leaves the disputed set unconditionally
                if self.disputes.remove(&data.tx) {
                    // Get the disputed deposit, ignore if it doesn't exist
                    if let Some(disputed_deposit) = self.deposits.get(&data.tx) {
                        let disputed_deposit = *disputed_deposit;
                        // The deposit's client id must match the
                        // chargeback's, otherwise ignore
                        if data.client == disputed_deposit.client {
                            if let Some(new_held) = account.held.checked_sub(disputed_deposit.amount)
                            {
                                // The held funds are gone for good, and the
                                // account is locked
                                self.accounts.insert(
                                    client,
                                    Account { held: new_held, locked: true, ..account },
                                );
                            }
                        }
                    }
                }
            },
        }
    }
}

} // verus!
