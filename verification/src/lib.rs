//! A replay engine for a log of financial transactions.
//!
//! The ledger applies deposits, withdrawals, disputes, resolves and
//! chargebacks to a table of per-client accounts, enforcing the dispute
//! rules that tie a dispute back to its originating deposit and client.
//! Monetary values are fixed-point numbers with four fractional digits,
//! held as a signed count of ten-thousandths.

pub mod account;
pub mod laws;
pub mod render;
pub mod transaction;
