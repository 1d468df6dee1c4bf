//! The mathematical model of the engine: a ghost account state, the exact
//! transition function `apply_model` that every executable `apply` is proved
//! to implement, and the ledger-level transition over a map of accounts.

use vstd::prelude::*;
use crate::account::AccountError;
use crate::transaction::{ClientID, Transaction, TransactionID, TransactionInfo};

verus! {

/// The state of one account, as contracts speak of it: balances as
/// mathematical integers (in 1/10^12 units) and the stored transaction
/// history as a map.
#[verifier::ext_equal]
pub ghost struct AccountModel {
    pub client_id: ClientID,
    pub available: int,
    pub held: int,
    pub locked: bool,
    pub txs: Map<TransactionID, Transaction>,
}

impl AccountModel {
    /// The account's total funds: available plus held.
    pub open spec fn total(self) -> int {
        self.available + self.held
    }

    /// A fresh, unlocked account with zero balances and no history.
    pub open spec fn new(client_id: ClientID) -> AccountModel {
        AccountModel {
            client_id,
            available: 0,
            held: 0,
            locked: false,
            txs: Map::empty(),
        }
    }

    /// Validity of one stored record: only deposits and withdrawals are
    /// stored, under their own id, for this account's client, and a stored
    /// withdrawal is never under dispute.
    pub open spec fn stored_ok(self, k: TransactionID) -> bool {
        let t = self.txs[k];
        &&& !t.spec_is_ref()
        &&& t.spec_tx_id() == k
        &&& t.spec_client_id() == self.client_id
        &&& match t {
            Transaction::Withdrawal(info) => !info.under_dispute,
            _ => true,
        }
    }

    /// Well-formedness: balances are nonnegative, their sum fits in the
    /// machine representation, and every stored record is valid.
    pub open spec fn wf(self) -> bool {
        &&& 0 <= self.available
        &&& 0 <= self.held
        &&& self.available + self.held <= u128::MAX
        &&& forall|k: TransactionID| self.txs.contains_key(k) ==> self.stored_ok(k)
    }
}

/// Transition of an account under a dispute of the transaction `tx_id`.
/// On success the deposit's amount moves from available to held funds and
/// the stored record is marked under dispute.
pub open spec fn dispute_model(a: AccountModel, tx_id: TransactionID) -> (AccountModel, Result<
    (),
    AccountError,
>) {
    if !a.txs.contains_key(tx_id) {
        (a, Err(AccountError::ReferenceNotFound))
    } else {
        match a.txs[tx_id] {
            Transaction::Deposit(info) => {
                if info.under_dispute {
                    (a, Err(AccountError::AlreadyUnderDispute))
                } else if a.available < info.amount.as_int() {
                    (a, Err(AccountError::InsufficientFundsForDispute))
                } else {
                    (
                        AccountModel {
                            available: a.available - info.amount.as_int(),
                            held: a.held + info.amount.as_int(),
                            txs: a.txs.insert(
                                tx_id,
                                Transaction::Deposit(TransactionInfo { under_dispute: true, ..info }),
                            ),
                            ..a
                        },
                        Ok(()),
                    )
                }
            },
            _ => (a, Err(AccountError::UnsupportedDisputeTarget)),
        }
    }
}

/// Transition of an account under a resolve of the dispute on `tx_id`.
/// On success the held amount returns to available funds and the stored
/// record is no longer under dispute.
pub open spec fn resolve_model(a: AccountModel, tx_id: TransactionID) -> (AccountModel, Result<
    (),
    AccountError,
>) {
    if !a.txs.contains_key(tx_id) {
        (a, Err(AccountError::ReferenceNotFound))
    } else {
        match a.txs[tx_id] {
            Transaction::Deposit(info) => {
                if !info.under_dispute {
                    (a, Err(AccountError::NotUnderDispute))
                } else if a.held < info.amount.as_int() {
                    (a, Err(AccountError::InvariantViolation))
                } else {
                    (
                        AccountModel {
                            available: a.available + info.amount.as_int(),
                            held: a.held - info.amount.as_int(),
                            txs: a.txs.insert(
                                tx_id,
                                Transaction::Deposit(TransactionInfo { under_dispute: false, ..info }),
                            ),
                            ..a
                        },
                        Ok(()),
                    )
                }
            },
            _ => (a, Err(AccountError::UnsupportedDisputeTarget)),
        }
    }
}

/// Transition of an account under a chargeback of the dispute on `tx_id`.
/// On success the held amount vanishes and the account is locked for good.
pub open spec fn chargeback_model(a: AccountModel, tx_id: TransactionID) -> (AccountModel, Result<
    (),
    AccountError,
>) {
    if !a.txs.contains_key(tx_id) {
        (a, Err(AccountError::ReferenceNotFound))
    } else {
        match a.txs[tx_id] {
            Transaction::Deposit(info) => {
                if !info.under_dispute {
                    (a, Err(AccountError::NotUnderDispute))
                } else if a.held < info.amount.as_int() {
                    (a, Err(AccountError::InvariantViolation))
                } else {
                    (
                        AccountModel {
                            held: a.held - info.amount.as_int(),
                            locked: true,
                            txs: a.txs.insert(
                                tx_id,
                                Transaction::Deposit(TransactionInfo { under_dispute: false, ..info }),
                            ),
                            ..a
                        },
                        Ok(()),
                    )
                }
            },
            _ => (a, Err(AccountError::UnsupportedDisputeTarget)),
        }
    }
}

/// The account state machine, one step: the state after applying `tx` to
/// `a`, and the result the application reports. A failed application leaves
/// the state unchanged.
pub open spec fn apply_model(a: AccountModel, tx: Transaction) -> (AccountModel, Result<
    (),
    AccountError,
>) {
    if a.locked {
        (a, Err(AccountError::LockedAccount))
    } else if !tx.spec_is_ref() && a.txs.contains_key(tx.spec_tx_id()) {
        (a, Err(AccountError::DuplicateTransaction))
    } else {
        match tx {
            Transaction::Deposit(info) => {
                if a.available + a.held + info.amount.as_int() > u128::MAX {
                    (a, Err(AccountError::BalanceOverflow))
                } else {
                    (
                        AccountModel {
                            available: a.available + info.amount.as_int(),
                            txs: a.txs.insert(
                                info.tx_id,
                                Transaction::Deposit(TransactionInfo { under_dispute: false, ..info }),
                            ),
                            ..a
                        },
                        Ok(()),
                    )
                }
            },
            Transaction::Withdrawal(info) => {
                if info.amount.as_int() > a.available {
                    (a, Err(AccountError::InsufficientFunds))
                } else {
                    (
                        AccountModel {
                            available: a.available - info.amount.as_int(),
                            txs: a.txs.insert(
                                info.tx_id,
                                Transaction::Withdrawal(
                                    TransactionInfo { under_dispute: false, ..info },
                                ),
                            ),
                            ..a
                        },
                        Ok(()),
                    )
                }
            },
            Transaction::Dispute(r) => dispute_model(a, r.tx_id),
            Transaction::Resolve(r) => resolve_model(a, r.tx_id),
            Transaction::ChargeBack(r) => chargeback_model(a, r.tx_id),
        }
    }
}

/// The account a ledger in state `m` would hand the next transaction for
/// client `c`: the stored account, or a fresh one on first sight.
pub open spec fn ledger_account(m: Map<ClientID, AccountModel>, c: ClientID) -> AccountModel {
    if m.contains_key(c) {
        m[c]
    } else {
        AccountModel::new(c)
    }
}

/// The ledger transition, one step: route `tx` to its client's account
/// (created lazily) and store the account that `apply_model` leaves behind.
/// The account is stored even when the application fails, so an account's
/// creation is observable on its own.
pub open spec fn ledger_step(m: Map<ClientID, AccountModel>, tx: Transaction) -> Map<
    ClientID,
    AccountModel,
> {
    let c = tx.spec_client_id();
    m.insert(c, apply_model(ledger_account(m, c), tx).0)
}

/// The result a ledger in state `m` reports for `tx`: exactly what the
/// client's account reports.
pub open spec fn ledger_result(m: Map<ClientID, AccountModel>, tx: Transaction) -> Result<
    (),
    AccountError,
> {
    apply_model(ledger_account(m, tx.spec_client_id()), tx).1
}

/// Well-formedness of a ledger state: every stored account is well-formed
/// and stored under its own client id.
pub open spec fn ledger_wf(m: Map<ClientID, AccountModel>) -> bool {
    forall|c: ClientID| m.contains_key(c) ==> (#[trigger] m[c]).wf() && m[c].client_id == c
}

/// The ledger state after a whole transaction stream, applied in order to
/// the empty ledger.
pub open spec fn run(txs: Seq<Transaction>) -> Map<ClientID, AccountModel>
    decreases txs.len(),
{
    if txs.len() == 0 {
        Map::empty()
    } else {
        ledger_step(run(txs.drop_last()), txs.last())
    }
}

/// The state of client `c`'s account after a stream of transactions that
/// all belong to `c`, applied in order to a fresh account.
pub open spec fn client_run(txs: Seq<Transaction>, c: ClientID) -> AccountModel
    decreases txs.len(),
{
    if txs.len() == 0 {
        AccountModel::new(c)
    } else {
        apply_model(client_run(txs.drop_last(), c), txs.last()).0
    }
}

/// The amount a stored record currently keeps out of the available funds:
/// a deposit's amount while it is under dispute, and zero otherwise.
pub open spec fn disputed_amount(t: Transaction) -> int {
    match t {
        Transaction::Deposit(info) => if info.under_dispute {
            info.amount.as_int()
        } else {
            0
        },
        _ => 0,
    }
}

/// The sum of the disputed amounts over all stored records.
pub open spec fn disputed_sum(m: Map<TransactionID, Transaction>) -> int
    decreases m.dom().len(),
    when m.dom().finite()
{
    if m.dom().len() == 0 {
        0
    } else {
        let k = m.dom().choose();
        disputed_amount(m[k]) + disputed_sum(m.remove(k))
    }
}

impl AccountModel {
    /// The accounting invariant: the held funds are exactly the sum of the
    /// amounts of the stored deposits under dispute, so the `under_dispute`
    /// flag is true precisely of the records whose amount contributes to
    /// `held` rather than `available`.
    pub open spec fn balanced(self) -> bool {
        &&& self.txs.dom().finite()
        &&& self.held == disputed_sum(self.txs)
    }
}

/// The disputed sum can be split off at any stored record.
pub proof fn lemma_disputed_sum_remove(m: Map<TransactionID, Transaction>, k: TransactionID)
    requires
        m.dom().finite(),
        m.dom().contains(k),
    ensures
        disputed_sum(m) == disputed_amount(m[k]) + disputed_sum(m.remove(k)),
    decreases m.dom().len(),
{
    let k0 = m.dom().choose();
    if k0 == k {
    } else {
        lemma_disputed_sum_remove(m.remove(k0), k);
        lemma_disputed_sum_remove(m.remove(k), k0);
        assert(m.remove(k0).remove(k) =~= m.remove(k).remove(k0));
        assert(m.remove(k0)[k] == m[k]);
        assert(m.remove(k)[k0] == m[k0]);
    }
}

/// The disputed sum is never negative.
pub proof fn lemma_disputed_sum_nonneg(m: Map<TransactionID, Transaction>)
    requires
        m.dom().finite(),
    ensures
        disputed_sum(m) >= 0,
    decreases m.dom().len(),
{
    if m.dom().len() != 0 {
        lemma_disputed_sum_nonneg(m.remove(m.dom().choose()));
    }
}

/// Each stored record's disputed amount is at most the disputed sum.
pub proof fn lemma_disputed_sum_member(m: Map<TransactionID, Transaction>, k: TransactionID)
    requires
        m.dom().finite(),
        m.dom().contains(k),
    ensures
        disputed_amount(m[k]) <= disputed_sum(m),
{
    lemma_disputed_sum_remove(m, k);
    lemma_disputed_sum_nonneg(m.remove(k));
}

/// How the disputed sum changes when a record is stored: the new record's
/// disputed amount comes in, and the overwritten record's, if any, goes out.
pub proof fn lemma_disputed_sum_insert(
    m: Map<TransactionID, Transaction>,
    k: TransactionID,
    t: Transaction,
)
    requires
        m.dom().finite(),
    ensures
        disputed_sum(m.insert(k, t)) == disputed_sum(m) + disputed_amount(t) - (
        if m.dom().contains(k) {
            disputed_amount(m[k])
        } else {
            0
        }),
{
    let m2 = m.insert(k, t);
    lemma_disputed_sum_remove(m2, k);
    if m.dom().contains(k) {
        lemma_disputed_sum_remove(m, k);
        assert(m2.remove(k) =~= m.remove(k));
    } else {
        assert(m2.remove(k) =~= m);
    }
}

/// The subsequence of `txs` that belongs to client `c`, in stream order.
pub open spec fn client_txs(txs: Seq<Transaction>, c: ClientID) -> Seq<Transaction> {
    txs.filter(|t: Transaction| t.spec_client_id() == c)
}

/// The shard that owns client `c` when the client space is partitioned
/// over `n` shards.
pub open spec fn shard_of(c: ClientID, n: int) -> int {
    (c as int) % n
}

/// The subsequence of `txs` that shard `s` of `n` receives, in stream
/// order: the transactions of the clients it owns.
pub open spec fn shard_txs(txs: Seq<Transaction>, n: int, s: int) -> Seq<Transaction> {
    txs.filter(|t: Transaction| shard_of(t.spec_client_id(), n) == s)
}

/// Applying a transaction to a well-formed account keeps it well-formed;
/// in particular balances stay nonnegative and within machine bounds.
pub proof fn lemma_apply_model_wf(a: AccountModel, tx: Transaction)
    requires
        a.wf(),
        tx.spec_client_id() == a.client_id,
    ensures
        apply_model(a, tx).0.wf(),
        apply_model(a, tx).0.client_id == a.client_id,
{
    let a2 = apply_model(a, tx).0;
    assert forall|k: TransactionID| a2.txs.contains_key(k) implies a2.stored_ok(k) by {
        if a.txs.contains_key(k) {
            assert(a.stored_ok(k));
        }
    }
}

} // verus!
