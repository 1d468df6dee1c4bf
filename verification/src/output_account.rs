//! The output projection of an account: the snapshot a drained ledger
//! yields for each client. Writing snapshots to a transport format happens
//! outside the engine; rendering an amount as a decimal string is
//! `Amount::to_decimal_string`.

use vstd::prelude::*;
use crate::account::Account;
use crate::amount::Amount;
use crate::transaction::ClientID;

verus! {

/// One client's final account snapshot.
#[derive(Clone, Copy, Debug, PartialEq, Eq, Structural)]
pub struct OutputAccount {
    /// The client the snapshot belongs to.
    pub client_id: ClientID,
    /// Funds usable for withdrawal.
    pub available: Amount,
    /// Funds frozen pending dispute resolution.
    pub held: Amount,
    /// Total funds: available plus held, exactly.
    pub total: Amount,
    /// Whether a chargeback froze the account.
    pub locked: bool,
}

impl Account {
    /// Projects the account to its output snapshot; the snapshot's total is
    /// exactly available plus held.
    pub fn into_output(self) -> (r: OutputAccount)
        requires
            self.wf(),
        ensures
            r.client_id == self.client_id,
            r.available == self.available,
            r.held == self.held,
            r.total.as_int() == self@.total(),
            r.locked == self.locked,
    {
        let total = self.total();
        OutputAccount {
            client_id: self.client_id,
            available: self.available,
            held: self.held,
            total,
            locked: self.locked,
        }
    }
}

} // verus!
