//! A small payments engine: per-client accounts that accept deposits,
//! withdrawals, disputes, resolutions and chargebacks, a ledger that routes
//! transactions to accounts, and a sharded ledger that partitions the client
//! space while producing the same per-client results.

pub mod account;
pub mod amount;
pub mod basic_bank;
pub mod input_transaction;
pub mod laws;
pub mod model;
pub mod output_account;
pub mod sharded_bank;
pub mod transaction;

pub use account::{Account, AccountError};
pub use amount::Amount;
pub use basic_bank::BasicBank;
pub use input_transaction::{InputTransaction, ValidationError};
pub use output_account::OutputAccount;
pub use laws::{lemma_account_invariant, lemma_chargeback_removes_held, lemma_new_account_balanced, lemma_no_invariant_violation, lemma_chargeback_terminal, lemma_dispute_resolve_roundtrip, lemma_duplicate_id_rejected, lemma_partition_equivalence, lemma_run_accounts_invariant};
pub use sharded_bank::ShardedBank;
pub use transaction::{ClientID, Transaction, TransactionID, TransactionInfo, TransactionRef};
