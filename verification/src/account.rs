//! The per-client account state machine. Every mutation goes through
//! `apply_tx`, which is proved to implement the transition function
//! `apply_model` exactly, error results included.

use std::collections::HashMap;
use vstd::prelude::*;
use crate::amount::Amount;
use crate::model::{apply_model, chargeback_model, dispute_model, resolve_model, AccountModel};
use crate::transaction::{ClientID, Transaction, TransactionID, TransactionInfo};

verus! {

broadcast use vstd::std_specs::hash::group_hash_axioms;

/// Why an account rejected a transaction. A rejected transaction never
/// changes the account's state.
#[derive(Clone, Copy, Debug, PartialEq, Eq, Structural)]
pub enum AccountError {
    /// The account was locked by an earlier chargeback.
    LockedAccount,
    /// A deposit or withdrawal reused a transaction id already stored
    /// for this account.
    DuplicateTransaction,
    /// A withdrawal asked for more than the available funds.
    InsufficientFunds,
    /// A deposit would push the account's total past the largest
    /// representable amount.
    BalanceOverflow,
    /// A dispute, resolve or chargeback referenced an unknown transaction id.
    ReferenceNotFound,
    /// A dispute, resolve or chargeback referenced a transaction that is
    /// not a deposit.
    UnsupportedDisputeTarget,
    /// A dispute targeted a deposit whose amount no longer sits in the
    /// available funds, so the hold cannot be honored.
    InsufficientFundsForDispute,
    /// A dispute targeted a deposit that is already under dispute.
    AlreadyUnderDispute,
    /// A resolve or chargeback targeted a deposit that is not under dispute.
    NotUnderDispute,
    /// Held funds were insufficient for a resolve or chargeback that passed
    /// its checks. Unreachable from well-balanced states, which is proved
    /// separately; reported rather than panicking.
    InvariantViolation,
}

/// One client's account: balances, lock status, and the stored history of
/// deposits and withdrawals that later disputes may reference.
#[derive(Debug)]
pub struct Account {
    /// The client this account belongs to.
    pub client_id: ClientID,
    /// Funds immediately usable for withdrawal.
    pub available: Amount,
    /// Funds frozen pending dispute resolution.
    pub held: Amount,
    /// Whether a chargeback has permanently frozen this account.
    pub locked: bool,
    /// The stored deposit and withdrawal records, by transaction id.
    pub transactions: HashMap<TransactionID, Transaction>,
}

impl View for Account {
    type V = AccountModel;

    open spec fn view(&self) -> AccountModel {
        AccountModel {
            client_id: self.client_id,
            available: self.available.as_int(),
            held: self.held.as_int(),
            locked: self.locked,
            txs: self.transactions@,
        }
    }
}

impl Account {
    /// Validity of the representation: the model it denotes is well-formed.
    pub open spec fn wf(self) -> bool {
        self@.wf()
    }

    /// Creates an unlocked account with zero balances and no stored
    /// transactions.
    pub fn new(client_id: ClientID) -> (r: Account)
        ensures
            r@ == AccountModel::new(client_id),
            r.wf(),
            r@.balanced(),
    {
        let r = Account {
            client_id,
            available: Amount::zero(),
            held: Amount::zero(),
            locked: false,
            transactions: HashMap::new(),
        };
        proof {
            assert(r@ =~= AccountModel::new(client_id));
            crate::laws::lemma_new_account_balanced(client_id);
        }
        r
    }

    /// Total funds of the account: available plus held.
    pub fn total(&self) -> (r: Amount)
        requires
            self.wf(),
        ensures
            r.as_int() == self@.total(),
    {
        Amount::from_units(self.available.units + self.held.units)
    }

    /// Marks the stored deposit `tx_id` as under dispute and moves its
    /// amount from available to held funds, implementing `dispute_model`.
    fn dispute_tx_with_id(&mut self, tx_id: TransactionID) -> (r: Result<(), AccountError>)
        requires
            old(self).wf(),
        ensures
            final(self)@ == dispute_model(old(self)@, tx_id).0,
            r == dispute_model(old(self)@, tx_id).1,
    {
        let stored = match self.transactions.get(&tx_id) {
            Some(t) => *t,
            None => {
                return Err(AccountError::ReferenceNotFound);
            },
        };

        match stored {
            Transaction::Deposit(info) => {
                if info.under_dispute {
                    return Err(AccountError::AlreadyUnderDispute);
                }
                if self.available.units < info.amount.units {
                    return Err(AccountError::InsufficientFundsForDispute);
                }
                self.transactions.insert(
                    tx_id,
                    Transaction::Deposit(TransactionInfo { under_dispute: true, ..info }),
                );
                self.available = Amount::from_units(self.available.units - info.amount.units);
                self.held = Amount::from_units(self.held.units + info.amount.units);
                proof {
                    assert(self@ =~= dispute_model(old(self)@, tx_id).0);
                }
                Ok(())
            },
            _ => Err(AccountError::UnsupportedDisputeTarget),
        }
    }

    /// Releases the dispute on the stored deposit `tx_id`, moving its amount
    /// from held back to available funds, implementing `resolve_model`.
    fn resolve_tx_with_id(&mut self, tx_id: TransactionID) -> (r: Result<(), AccountError>)
        requires
            old(self).wf(),
        ensures
            final(self)@ == resolve_model(old(self)@, tx_id).0,
            r == resolve_model(old(self)@, tx_id).1,
    {
        let stored = match self.transactions.get(&tx_id) {
            Some(t) => *t,
            None => {
                return Err(AccountError::ReferenceNotFound);
            },
        };

        match stored {
            Transaction::Deposit(info) => {
                if !info.under_dispute {
                    return Err(AccountError::NotUnderDispute);
                }
                if self.held.units < info.amount.units {
                    return Err(AccountError::InvariantViolation);
                }
                self.transactions.insert(
                    tx_id,
                    Transaction::Deposit(TransactionInfo { under_dispute: false, ..info }),
                );
                self.available = Amount::from_units(self.available.units + info.amount.units);
                self.held = Amount::from_units(self.held.units - info.amount.units);
                proof {
                    assert(self@ =~= resolve_model(old(self)@, tx_id).0);
                }
                Ok(())
            },
            _ => Err(AccountError::UnsupportedDisputeTarget),
        }
    }

    /// Finalizes the dispute on the stored deposit `tx_id`: the held amount
    /// vanishes and the account is locked for good, implementing
    /// `chargeback_model`.
    fn chargeback_tx_with_id(&mut self, tx_id: TransactionID) -> (r: Result<(), AccountError>)
        requires
            old(self).wf(),
        ensures
            final(self)@ == chargeback_model(old(self)@, tx_id).0,
            r == chargeback_model(old(self)@, tx_id).1,
    {
        let stored = match self.transactions.get(&tx_id) {
            Some(t) => *t,
            None => {
                return Err(AccountError::ReferenceNotFound);
            },
        };

        match stored {
            Transaction::Deposit(info) => {
                if !info.under_dispute {
                    return Err(AccountError::NotUnderDispute);
                }
                if self.held.units < info.amount.units {
                    return Err(AccountError::InvariantViolation);
                }
                self.transactions.insert(
                    tx_id,
                    Transaction::Deposit(TransactionInfo { under_dispute: false, ..info }),
                );
                self.held = Amount::from_units(self.held.units - info.amount.units);
                self.locked = true;
                proof {
                    assert(self@ =~= chargeback_model(old(self)@, tx_id).0);
                }
                Ok(())
            },
            _ => Err(AccountError::UnsupportedDisputeTarget),
        }
    }

    /// Applies one transaction to the account: the state becomes exactly
    /// `apply_model(old state, tx)`, and the reported result is the one the
    /// model gives. A rejected transaction leaves the state unchanged.
    pub fn apply_tx(&mut self, tx: Transaction) -> (r: Result<(), AccountError>)
        requires
            old(self).wf(),
            tx.spec_client_id() == old(self).client_id,
        ensures
            final(self)@ == apply_model(old(self)@, tx).0,
            r == apply_model(old(self)@, tx).1,
            final(self).wf(),
            old(self)@.balanced() ==> final(self)@.balanced() && r != Err::<
                (),
                AccountError,
            >(AccountError::InvariantViolation),
    {
        proof {
            crate::model::lemma_apply_model_wf(old(self)@, tx);
            if old(self)@.balanced() {
                crate::laws::lemma_no_invariant_violation(old(self)@, tx);
            }
        }
        if self.locked {
            return Err(AccountError::LockedAccount);
        }
        if !tx.is_ref() && self.transactions.contains_key(&tx.get_tx_id()) {
            return Err(AccountError::DuplicateTransaction);
        }
        match tx {
            Transaction::Deposit(info) => {
                let headroom = u128::MAX - self.available.units - self.held.units;
                if info.amount.units > headroom {
                    return Err(AccountError::BalanceOverflow);
                }
                self.available = Amount::from_units(self.available.units + info.amount.units);
                self.transactions.insert(
                    info.tx_id,
                    Transaction::Deposit(TransactionInfo { under_dispute: false, ..info }),
                );
                proof {
                    assert(self@ =~= apply_model(old(self)@, tx).0);
                }
                Ok(())
            },
            Transaction::Withdrawal(info) => {
                if info.amount.units > self.available.units {
                    return Err(AccountError::InsufficientFunds);
                }
                self.available = Amount::from_units(self.available.units - info.amount.units);
                self.transactions.insert(
                    info.tx_id,
                    Transaction::Withdrawal(TransactionInfo { under_dispute: false, ..info }),
                );
                proof {
                    assert(self@ =~= apply_model(old(self)@, tx).0);
                }
                Ok(())
            },
            Transaction::Dispute(r) => self.dispute_tx_with_id(r.tx_id),
            Transaction::Resolve(r) => self.resolve_tx_with_id(r.tx_id),
            Transaction::ChargeBack(r) => self.chargeback_tx_with_id(r.tx_id),
        }
    }
}

} // verus!
