//! The raw shape of one input record, before validation: an event name, a
//! client id, a transaction id and an optional amount. Reading records from
//! their transport format happens outside the engine; validating them into
//! `Transaction`s is `Transaction::try_from_input`.

use vstd::prelude::*;
use crate::amount::Amount;
use crate::transaction::{ClientID, TransactionID};

verus! {

/// A raw input record, as the parsing layer hands it to the engine.
#[derive(Debug)]
pub struct InputTransaction {
    /// The event's kind, one of "deposit", "withdrawal", "dispute",
    /// "resolve" or "chargeback"; anything else is rejected.
    pub tx_type: String,
    /// The client the event belongs to.
    pub client_id: ClientID,
    /// The transaction id the event carries or references.
    pub tx_id: TransactionID,
    /// The amount, required for deposits and withdrawals and ignored for
    /// the referencing kinds.
    pub amount: Option<Amount>,
}

/// Why an input record was rejected before reaching any ledger.
#[derive(Clone, Copy, Debug, PartialEq, Eq, Structural)]
pub enum ValidationError {
    /// A deposit or withdrawal came without an amount.
    MissingAmount,
    /// The event's kind is none of the five known ones.
    UnknownTransactionType,
}

} // verus!
