//! The engine's laws, stated over the transition function that the
//! executable code is proved to implement: the balance invariant, the
//! idempotence of transaction ids, the dispute/resolve round trip, the
//! terminality of a chargeback, and the equivalence of the sharded ledger
//! with the sequential one.

use vstd::prelude::*;
use crate::account::AccountError;
use crate::model::{
    apply_model, client_run, client_txs, disputed_amount, ledger_account, lemma_apply_model_wf,
    lemma_disputed_sum_insert, lemma_disputed_sum_member, ledger_wf, run, shard_of, shard_txs,
    AccountModel,
};
use crate::transaction::{ClientID, Transaction, TransactionID, TransactionInfo, TransactionRef};

verus! {

/// For every reachable account state, available and held funds are
/// nonnegative, their sum fits the machine representation, and the total
/// is exactly available plus held: applying any transaction to a
/// well-formed account yields a well-formed account again.
pub proof fn lemma_account_invariant(a: AccountModel, tx: Transaction)
    requires
        a.wf(),
        tx.spec_client_id() == a.client_id,
    ensures
        apply_model(a, tx).0.wf(),
        0 <= apply_model(a, tx).0.available,
        0 <= apply_model(a, tx).0.held,
        apply_model(a, tx).0.total() == apply_model(a, tx).0.available + apply_model(a, tx).0.held,
{
    lemma_apply_model_wf(a, tx);
}

/// A deposit or withdrawal whose transaction id is already stored for the
/// account is always rejected and never changes balances: with
/// `DuplicateTransaction`, or with `LockedAccount` if the account is
/// frozen, which takes precedence.
pub proof fn lemma_duplicate_id_rejected(a: AccountModel, tx: Transaction)
    requires
        !tx.spec_is_ref(),
        a.txs.contains_key(tx.spec_tx_id()),
    ensures
        apply_model(a, tx).0 == a,
        apply_model(a, tx).1 == if a.locked {
            Err::<(), AccountError>(AccountError::LockedAccount)
        } else {
            Err::<(), AccountError>(AccountError::DuplicateTransaction)
        },
{
}

/// Disputing a fresh deposit and then resolving the dispute always
/// succeeds and restores the account, balances and stored records alike,
/// to its state just after the deposit (and so just before the dispute).
pub proof fn lemma_dispute_resolve_roundtrip(a: AccountModel, info: TransactionInfo)
    requires
        a.wf(),
        info.client_id == a.client_id,
        !a.txs.contains_key(info.tx_id),
        apply_model(a, Transaction::Deposit(info)).1 == Ok::<(), AccountError>(()),
    ensures
        ({
            let a1 = apply_model(a, Transaction::Deposit(info)).0;
            let d = Transaction::Dispute(
                TransactionRef { client_id: info.client_id, tx_id: info.tx_id },
            );
            let r = Transaction::Resolve(
                TransactionRef { client_id: info.client_id, tx_id: info.tx_id },
            );
            let a2 = apply_model(a1, d).0;
            &&& apply_model(a1, d).1 == Ok::<(), AccountError>(())
            &&& apply_model(a2, r).1 == Ok::<(), AccountError>(())
            &&& apply_model(a2, r).0 == a1
        }),
{
    let a1 = apply_model(a, Transaction::Deposit(info)).0;
    let d = Transaction::Dispute(TransactionRef { client_id: info.client_id, tx_id: info.tx_id });
    let r = Transaction::Resolve(TransactionRef { client_id: info.client_id, tx_id: info.tx_id });
    let a2 = apply_model(a1, d).0;
    let a3 = apply_model(a2, r).0;
    assert(a3.txs =~= a1.txs);
    assert(a3 =~= a1);
}

/// After a successful chargeback the account is locked, and every
/// subsequent transaction of any kind is rejected with `LockedAccount`
/// and leaves the account unchanged.
pub proof fn lemma_chargeback_terminal(a: AccountModel, tx_id: TransactionID, tx2: Transaction)
    requires
        apply_model(
            a,
            Transaction::ChargeBack(TransactionRef { client_id: a.client_id, tx_id }),
        ).1 == Ok::<(), AccountError>(()),
    ensures
        ({
            let a2 = apply_model(
                a,
                Transaction::ChargeBack(TransactionRef { client_id: a.client_id, tx_id }),
            ).0;
            &&& a2.locked
            &&& apply_model(a2, tx2).0 == a2
            &&& apply_model(a2, tx2).1 == Err::<(), AccountError>(AccountError::LockedAccount)
        }),
{
}

/// A chargeback of a stored deposit under dispute, on an unlocked and
/// balanced account, always succeeds: the held funds drop by exactly the
/// disputed amount, which vanishes — nothing returns to the available
/// funds — the stored record leaves its dispute, and the account is locked.
pub proof fn lemma_chargeback_removes_held(a: AccountModel, tx_id: TransactionID)
    requires
        a.balanced(),
        !a.locked,
        a.txs.contains_key(tx_id),
        a.txs[tx_id] matches Transaction::Deposit(info) && info.under_dispute,
    ensures
        ({
            let cb = Transaction::ChargeBack(TransactionRef { client_id: a.client_id, tx_id });
            let amt = disputed_amount(a.txs[tx_id]);
            let a2 = apply_model(a, cb).0;
            &&& apply_model(a, cb).1 == Ok::<(), AccountError>(())
            &&& a2.locked
            &&& a2.available == a.available
            &&& a2.held == a.held - amt
            &&& a2.total() == a.total() - amt
            &&& a2.txs[tx_id] matches Transaction::Deposit(info2) && !info2.under_dispute
        }),
{
    lemma_disputed_sum_member(a.txs, tx_id);
}

/// A fresh account is balanced: it holds nothing and has no dispute open.
pub proof fn lemma_new_account_balanced(c: ClientID)
    ensures
        AccountModel::new(c).balanced(),
{
    assert(AccountModel::new(c).txs.dom() =~= Set::<TransactionID>::empty());
}

/// The accounting invariant is preserved by every transaction, and under it
/// the held funds always cover a resolve or chargeback that passed its
/// checks: no reachable account ever reports `InvariantViolation`.
pub proof fn lemma_no_invariant_violation(a: AccountModel, tx: Transaction)
    requires
        a.balanced(),
    ensures
        apply_model(a, tx).0.balanced(),
        apply_model(a, tx).1 != Err::<(), AccountError>(AccountError::InvariantViolation),
{
    let id = tx.spec_tx_id();
    if a.locked || (!tx.spec_is_ref() && a.txs.contains_key(id)) {
    } else {
        match tx {
            Transaction::Deposit(info) => {
                if a.available + a.held + info.amount.as_int() <= u128::MAX {
                    let stored = Transaction::Deposit(
                        TransactionInfo { under_dispute: false, ..info },
                    );
                    lemma_disputed_sum_insert(a.txs, info.tx_id, stored);
                }
            },
            Transaction::Withdrawal(info) => {
                if info.amount.as_int() <= a.available {
                    let stored = Transaction::Withdrawal(
                        TransactionInfo { under_dispute: false, ..info },
                    );
                    lemma_disputed_sum_insert(a.txs, info.tx_id, stored);
                }
            },
            Transaction::Dispute(r) => {
                if a.txs.contains_key(r.tx_id) {
                    match a.txs[r.tx_id] {
                        Transaction::Deposit(info) => {
                            if !info.under_dispute && a.available >= info.amount.as_int() {
                                let stored = Transaction::Deposit(
                                    TransactionInfo { under_dispute: true, ..info },
                                );
                                lemma_disputed_sum_insert(a.txs, r.tx_id, stored);
                            }
                        },
                        _ => {},
                    }
                }
            },
            Transaction::Resolve(r) => {
                if a.txs.contains_key(r.tx_id) {
                    match a.txs[r.tx_id] {
                        Transaction::Deposit(info) => {
                            if info.under_dispute {
                                lemma_disputed_sum_member(a.txs, r.tx_id);
                                let stored = Transaction::Deposit(
                                    TransactionInfo { under_dispute: false, ..info },
                                );
                                lemma_disputed_sum_insert(a.txs, r.tx_id, stored);
                            }
                        },
                        _ => {},
                    }
                }
            },
            Transaction::ChargeBack(r) => {
                if a.txs.contains_key(r.tx_id) {
                    match a.txs[r.tx_id] {
                        Transaction::Deposit(info) => {
                            if info.under_dispute {
                                lemma_disputed_sum_member(a.txs, r.tx_id);
                                let stored = Transaction::Deposit(
                                    TransactionInfo { under_dispute: false, ..info },
                                );
                                lemma_disputed_sum_insert(a.txs, r.tx_id, stored);
                            }
                        },
                        _ => {},
                    }
                }
            },
        }
    }
}

/// Every account state a ledger can reach — by running any transaction
/// stream from the empty ledger — is well-formed, balanced, and filed under
/// its own client: the account invariants hold of all reachable states, and
/// with `lemma_no_invariant_violation` no reachable ledger ever reports
/// `InvariantViolation`.
pub proof fn lemma_run_accounts_invariant(txs: Seq<Transaction>)
    ensures
        ledger_wf(run(txs)),
        forall|c: ClientID| (#[trigger] ledger_account(run(txs), c)).wf(),
        forall|c: ClientID| (#[trigger] ledger_account(run(txs), c)).balanced(),
        forall|c: ClientID| (#[trigger] ledger_account(run(txs), c)).client_id == c,
    decreases txs.len(),
{
    if txs.len() == 0 {
        assert forall|c: ClientID| (#[trigger] ledger_account(run(txs), c)).wf()
            && ledger_account(run(txs), c).balanced() && ledger_account(run(txs), c).client_id
            == c by {
            lemma_new_account_balanced(c);
        }
    } else {
        let p = txs.drop_last();
        let t = txs.last();
        lemma_run_accounts_invariant(p);
        let m = run(p);
        let c0 = t.spec_client_id();
        lemma_apply_model_wf(ledger_account(m, c0), t);
        lemma_no_invariant_violation(ledger_account(m, c0), t);
        assert forall|c: ClientID| (#[trigger] ledger_account(run(txs), c)).wf()
            && ledger_account(run(txs), c).balanced() && ledger_account(run(txs), c).client_id
            == c by {
            if c != c0 {
                assert(ledger_account(run(txs), c) == ledger_account(m, c));
            }
        }
    }
}

/// The account a sequential ledger run leaves for client `c` is a pure
/// function of `c`'s own subsequence of the stream: it equals `c`'s
/// transactions applied in order to a fresh account.
proof fn lemma_run_projects(txs: Seq<Transaction>, c: ClientID)
    ensures
        ledger_account(run(txs), c) == client_run(client_txs(txs, c), c),
    decreases txs.len(),
{
    reveal(Seq::filter);
    if txs.len() == 0 {
        assert(client_txs(txs, c) =~= Seq::<Transaction>::empty());
    } else {
        let p = txs.drop_last();
        let t = txs.last();
        lemma_run_projects(p, c);
        if t.spec_client_id() == c {
            let f = client_txs(txs, c);
            assert(f == client_txs(p, c).push(t));
            assert(f.drop_last() =~= client_txs(p, c));
            assert(f.last() == t);
            assert(f.len() > 0);
            assert(client_run(f, c) == apply_model(client_run(client_txs(p, c), c), t).0);
        } else {
            assert(client_txs(txs, c) == client_txs(p, c));
            assert(ledger_account(run(txs), c) == ledger_account(run(p), c));
        }
    }
}

/// Filtering a shard's stream down to one of its clients gives exactly
/// that client's subsequence of the whole stream.
proof fn lemma_client_txs_of_shard(txs: Seq<Transaction>, n: int, c: ClientID)
    requires
        1 <= n,
    ensures
        client_txs(shard_txs(txs, n, shard_of(c, n)), c) == client_txs(txs, c),
    decreases txs.len(),
{
    reveal(Seq::filter);
    let s = shard_of(c, n);
    if txs.len() == 0 {
        assert(shard_txs(txs, n, s) =~= Seq::<Transaction>::empty());
    } else {
        let p = txs.drop_last();
        let t = txs.last();
        lemma_client_txs_of_shard(p, n, c);
        if shard_of(t.spec_client_id(), n) == s {
            let g = shard_txs(txs, n, s);
            assert(g == shard_txs(p, n, s).push(t));
            assert(g.drop_last() =~= shard_txs(p, n, s));
            assert(g.last() == t);
            if t.spec_client_id() == c {
                assert(client_txs(g, c) == client_txs(shard_txs(p, n, s), c).push(t));
                assert(client_txs(txs, c) == client_txs(p, c).push(t));
            } else {
                assert(client_txs(g, c) == client_txs(shard_txs(p, n, s), c));
                assert(client_txs(txs, c) == client_txs(p, c));
            }
        } else {
            assert(shard_txs(txs, n, s) == shard_txs(p, n, s));
            assert(t.spec_client_id() != c);
            assert(client_txs(txs, c) == client_txs(p, c));
        }
    }
}

/// Partition equivalence: for any transaction stream and any shard count
/// `n >= 1`, the account that the shard owning client `c` computes from
/// its own subsequence of the stream equals the account the sequential
/// ledger computes from the whole stream — including whether the account
/// exists at all.
pub proof fn lemma_partition_equivalence(txs: Seq<Transaction>, n: int, c: ClientID)
    requires
        1 <= n,
    ensures
        ledger_account(run(shard_txs(txs, n, shard_of(c, n))), c) == ledger_account(run(txs), c),
{
    lemma_run_projects(txs, c);
    lemma_run_projects(shard_txs(txs, n, shard_of(c, n)), c);
    lemma_client_txs_of_shard(txs, n, c);
}

} // verus!
