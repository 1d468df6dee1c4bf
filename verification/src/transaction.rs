use vstd::prelude::*;
use crate::amount::Amount;
use crate::input_transaction::{InputTransaction, ValidationError};

verus! {

/// The validation rule for raw input records: deposits and withdrawals
/// need an amount and become stored-kind transactions that are not under
/// dispute; the three referencing kinds ignore any amount; every other
/// kind name is rejected.
pub open spec fn spec_validate(
    tx_type: Seq<char>,
    client_id: ClientID,
    tx_id: TransactionID,
    amount: Option<Amount>,
) -> Result<Transaction, ValidationError> {
    if tx_type == "deposit"@ || tx_type == "withdrawal"@ {
        match amount {
            None => Err(ValidationError::MissingAmount),
            Some(a) => Ok(
                if tx_type == "deposit"@ {
                    Transaction::Deposit(
                        TransactionInfo { client_id, tx_id, amount: a, under_dispute: false },
                    )
                } else {
                    Transaction::Withdrawal(
                        TransactionInfo { client_id, tx_id, amount: a, under_dispute: false },
                    )
                },
            ),
        }
    } else if tx_type == "dispute"@ {
        Ok(Transaction::Dispute(TransactionRef { client_id, tx_id }))
    } else if tx_type == "resolve"@ {
        Ok(Transaction::Resolve(TransactionRef { client_id, tx_id }))
    } else if tx_type == "chargeback"@ {
        Ok(Transaction::ChargeBack(TransactionRef { client_id, tx_id }))
    } else {
        Err(ValidationError::UnknownTransactionType)
    }
}

/// Identifier of an account holder.
pub type ClientID = u16;

/// Identifier of a transaction, unique within one client's history.
pub type TransactionID = u32;

/// A reference to an existing transaction, carried by a dispute,
/// a resolve or a chargeback.
#[derive(Clone, Copy, Debug, PartialEq, Eq, Structural)]
pub struct TransactionRef {
    pub client_id: ClientID,
    pub tx_id: TransactionID,
}

/// The payload of a deposit or a withdrawal. The `under_dispute` flag is
/// part of the stored record's state: it is true exactly while the amount
/// of a stored deposit is held because of an open dispute.
#[derive(Clone, Copy, Debug, PartialEq, Eq, Structural)]
pub struct TransactionInfo {
    pub client_id: ClientID,
    pub tx_id: TransactionID,
    pub amount: Amount,
    pub under_dispute: bool,
}

/// A validated client payment event.
#[derive(Clone, Copy, Debug, PartialEq, Eq, Structural)]
pub enum Transaction {
    /// Money added to the account's available funds.
    Deposit(TransactionInfo),
    /// Money removed from the account's available funds, if sufficient.
    Withdrawal(TransactionInfo),
    /// A claim that a prior deposit should be reversed; holds its amount.
    Dispute(TransactionRef),
    /// Reverses an active dispute, releasing the held amount.
    Resolve(TransactionRef),
    /// Finalizes an active dispute: the held amount vanishes and the
    /// account is locked for good.
    ChargeBack(TransactionRef),
}

/// The transactions that a stream of raw input records validates to, in
/// order: each record's `spec_validate` result, with the rejected records
/// dropped.
pub open spec fn valid_txs(inputs: Seq<InputTransaction>) -> Seq<Transaction>
    decreases inputs.len(),
{
    if inputs.len() == 0 {
        Seq::empty()
    } else {
        let rest = valid_txs(inputs.drop_last());
        let last = inputs.last();
        match spec_validate(last.tx_type@, last.client_id, last.tx_id, last.amount) {
            Ok(t) => rest.push(t),
            Err(_) => rest,
        }
    }
}

impl Transaction {
    /// Whether this event only references a stored transaction
    /// (dispute, resolve, chargeback) rather than creating one.
    pub open spec fn spec_is_ref(self) -> bool {
        match self {
            Transaction::Deposit(_) | Transaction::Withdrawal(_) => false,
            _ => true,
        }
    }

    /// The client this event belongs to.
    pub open spec fn spec_client_id(self) -> ClientID {
        match self {
            Transaction::Deposit(tx) => tx.client_id,
            Transaction::Withdrawal(tx) => tx.client_id,
            Transaction::Dispute(tx) => tx.client_id,
            Transaction::Resolve(tx) => tx.client_id,
            Transaction::ChargeBack(tx) => tx.client_id,
        }
    }

    /// The transaction id this event carries or references.
    pub open spec fn spec_tx_id(self) -> TransactionID {
        match self {
            Transaction::Deposit(tx) => tx.tx_id,
            Transaction::Withdrawal(tx) => tx.tx_id,
            Transaction::Dispute(tx) => tx.tx_id,
            Transaction::Resolve(tx) => tx.tx_id,
            Transaction::ChargeBack(tx) => tx.tx_id,
        }
    }

    /// True for dispute, resolve and chargeback: events that reference an
    /// existing transaction instead of creating a new one.
    pub fn is_ref(&self) -> (r: bool)
        ensures
            r == self.spec_is_ref(),
    {
        match self {
            Transaction::Deposit(_) | Transaction::Withdrawal(_) => false,
            _ => true,
        }
    }

    /// The client id the event belongs to.
    pub fn get_client_id(&self) -> (r: ClientID)
        ensures
            r == self.spec_client_id(),
    {
        match self {
            Transaction::Deposit(tx) => tx.client_id,
            Transaction::Withdrawal(tx) => tx.client_id,
            Transaction::Dispute(tx) => tx.client_id,
            Transaction::Resolve(tx) => tx.client_id,
            Transaction::ChargeBack(tx) => tx.client_id,
        }
    }

    /// The transaction id the event carries or references.
    pub fn get_tx_id(&self) -> (r: TransactionID)
        ensures
            r == self.spec_tx_id(),
    {
        match self {
            Transaction::Deposit(tx) => tx.tx_id,
            Transaction::Withdrawal(tx) => tx.tx_id,
            Transaction::Dispute(tx) => tx.tx_id,
            Transaction::Resolve(tx) => tx.tx_id,
            Transaction::ChargeBack(tx) => tx.tx_id,
        }
    }

    /// Validates one raw input record into a `Transaction`, exactly as
    /// `spec_validate` says: a missing amount on a deposit or withdrawal
    /// and an unknown kind name are rejected, and nothing else is.
    pub fn try_from_input(input: InputTransaction) -> (r: Result<Transaction, ValidationError>)
        ensures
            r == spec_validate(input.tx_type@, input.client_id, input.tx_id, input.amount),
    {
        let is_deposit = input.tx_type == "deposit".to_owned();
        let is_withdrawal = input.tx_type == "withdrawal".to_owned();
        if is_deposit || is_withdrawal {
            match input.amount {
                None => Err(ValidationError::MissingAmount),
                Some(amount) => {
                    let info = TransactionInfo {
                        client_id: input.client_id,
                        tx_id: input.tx_id,
                        amount,
                        under_dispute: false,
                    };
                    if is_deposit {
                        Ok(Transaction::Deposit(info))
                    } else {
                        Ok(Transaction::Withdrawal(info))
                    }
                },
            }
        } else if input.tx_type == "dispute".to_owned() {
            Ok(Transaction::Dispute(TransactionRef {
                client_id: input.client_id,
                tx_id: input.tx_id,
            }))
        } else if input.tx_type == "resolve".to_owned() {
            Ok(Transaction::Resolve(TransactionRef {
                client_id: input.client_id,
                tx_id: input.tx_id,
            }))
        } else if input.tx_type == "chargeback".to_owned() {
            Ok(Transaction::ChargeBack(TransactionRef {
                client_id: input.client_id,
                tx_id: input.tx_id,
            }))
        } else {
            Err(ValidationError::UnknownTransactionType)
        }
    }

    /// The name of the event's kind, as it appears in input records.
    pub fn get_type(&self) -> (r: &'static str)
        ensures
            r@ == match self {
                Transaction::Deposit(_) => "deposit"@,
                Transaction::Withdrawal(_) => "withdrawal"@,
                Transaction::Dispute(_) => "dispute"@,
                Transaction::Resolve(_) => "resolve"@,
                Transaction::ChargeBack(_) => "chargeback"@,
            },
    {
        match self {
            Transaction::Deposit(_) => "deposit",
            Transaction::Withdrawal(_) => "withdrawal",
            Transaction::Dispute(_) => "dispute",
            Transaction::Resolve(_) => "resolve",
            Transaction::ChargeBack(_) => "chargeback",
        }
    }
}

} // verus!
