//! The sequential ledger: a mapping from client id to account that routes
//! each transaction to its client's account, creating accounts lazily, and
//! drains to a list of accounts in order of first sight.

use std::collections::HashMap;
use vstd::prelude::*;
use crate::account::{Account, AccountError};
use crate::input_transaction::InputTransaction;
use crate::model::{ledger_result, ledger_step, run, AccountModel};
use crate::transaction::{spec_validate, valid_txs, ClientID, Transaction};

verus! {

broadcast use vstd::std_specs::hash::group_hash_axioms;

/// A sequential ledger over per-client accounts. Transactions are routed by
/// client id; accounts come into being on first sight of their client.
pub struct BasicBank {
    /// The accounts, by client id.
    pub accounts: HashMap<ClientID, Account>,
    /// The client ids in order of first sight, each exactly once.
    pub clients: Vec<ClientID>,
}

impl View for BasicBank {
    type V = Map<ClientID, AccountModel>;

    open spec fn view(&self) -> Map<ClientID, AccountModel> {
        Map::new(
            |c: ClientID| self.accounts@.contains_key(c),
            |c: ClientID| self.accounts@[c]@,
        )
    }
}

impl BasicBank {
    /// Validity of the representation: every account is well-formed and
    /// filed under its own client id, and `clients` lists the map's keys
    /// exactly once each, in order of first sight.
    pub open spec fn wf(self) -> bool {
        &&& forall|c: ClientID|
            self.accounts@.contains_key(c) ==> (#[trigger] self.accounts@[c]).wf()
                && self.accounts@[c].client_id == c
        &&& self.clients@.no_duplicates()
        &&& forall|c: ClientID|
            self.accounts@.contains_key(c) <==> #[trigger] self.clients@.contains(c)
    }

    /// Creates an empty ledger with no accounts.
    pub fn new() -> (r: BasicBank)
        ensures
            r@ == Map::<ClientID, AccountModel>::empty(),
            r.wf(),
    {
        let r = BasicBank { accounts: HashMap::new(), clients: Vec::new() };
        proof {
            assert(r@ =~= Map::<ClientID, AccountModel>::empty());
        }
        r
    }

    /// Routes one transaction to its client's account, creating the account
    /// on first sight, and reports the account's own verdict. The ledger's
    /// state becomes exactly `ledger_step(old state, tx)`; in particular a
    /// fresh account stays behind even when the application fails.
    pub fn apply_tx(&mut self, tx: Transaction) -> (r: Result<(), AccountError>)
        requires
            old(self).wf(),
        ensures
            final(self).wf(),
            final(self)@ == ledger_step(old(self)@, tx),
            r == ledger_result(old(self)@, tx),
    {
        let c = tx.get_client_id();
        let mut acc = match self.accounts.remove(&c) {
            Some(a) => a,
            None => {
                self.clients.push(c);
                Account::new(c)
            },
        };
        let r = acc.apply_tx(tx);
        self.accounts.insert(c, acc);
        proof {
            assert(self@ =~= ledger_step(old(self)@, tx));
            let oldc = old(self).clients@;
            let newc = self.clients@;
            if old(self).accounts@.contains_key(c) {
                assert(newc == oldc);
                assert(self.accounts@ =~= old(self).accounts@.insert(c, acc));
                assert forall|d: ClientID|
                    self.accounts@.contains_key(d) <==> #[trigger] newc.contains(d) by {
                    assert(self.accounts@.contains_key(d) == old(self).accounts@.contains_key(d));
                }
            } else {
                assert(newc == oldc.push(c));
                assert(newc.no_duplicates()) by {
                    assert forall|i: int, j: int|
                        0 <= i < newc.len() && 0 <= j < newc.len() && i != j implies newc[i]
                        != newc[j] by {
                        if i == oldc.len() as int {
                            assert(newc[i] == c);
                            if newc[j] == c {
                                assert(oldc[j] == c);
                                assert(oldc.contains(c));
                            }
                        } else if j == oldc.len() as int {
                            assert(newc[j] == c);
                            if newc[i] == c {
                                assert(oldc[i] == c);
                                assert(oldc.contains(c));
                            }
                        } else {
                            assert(oldc[i] != oldc[j]);
                        }
                    }
                }
                assert forall|d: ClientID|
                    self.accounts@.contains_key(d) <==> #[trigger] newc.contains(d) by {
                    if d == c {
                        assert(newc[oldc.len() as int] == c);
                        assert(newc.contains(c));
                    } else {
                        if oldc.contains(d) {
                            let i = choose|i: int| 0 <= i < oldc.len() && oldc[i] == d;
                            assert(newc[i] == d);
                            assert(newc.contains(d));
                        }
                        if newc.contains(d) {
                            let i = choose|i: int| 0 <= i < newc.len() && newc[i] == d;
                            assert(oldc[i] == d);
                            assert(oldc.contains(d));
                        }
                    }
                }
            }
        }
        r
    }

    /// Consumes the ledger and returns its accounts, in order of first
    /// sight of their clients.
    pub fn into_accounts(self) -> (r: Vec<Account>)
        requires
            self.wf(),
        ensures
            r@.len() == self.clients@.len(),
            forall|i: int|
                0 <= i < r@.len() ==> (#[trigger] r@[i])@ == self@[self.clients@[i]]
                    && r@[i].wf() && r@[i].client_id == self.clients@[i],
    {
        let ghost m0 = self.accounts@;
        let BasicBank { mut accounts, clients } = self;
        let mut r: Vec<Account> = Vec::new();
        let mut i: usize = 0;
        proof {
            assert forall|j: int|
                0 <= j < clients@.len() implies m0.contains_key(#[trigger] clients@[j]) by {
                assert(clients@.contains(clients@[j]));
            }
        }
        while i < clients.len()
            invariant
                i <= clients.len(),
                r@.len() == i,
                clients@.no_duplicates(),
                forall|j: int|
                    i <= j < clients@.len() ==> accounts@.contains_key(#[trigger] clients@[j])
                        && accounts@[clients@[j]] == m0[clients@[j]],
                forall|j: int|
                    0 <= j < i ==> (#[trigger] r@[j]) == m0[clients@[j]],
                forall|c: ClientID| m0.contains_key(c) ==> (#[trigger] m0[c]).wf()
                    && m0[c].client_id == c,
                forall|j: int| 0 <= j < clients@.len() ==> m0.contains_key(#[trigger] clients@[j]),
            decreases clients.len() - i,
        {
            let c = clients[i];
            let ghost pre = accounts@;
            let acc = accounts.remove(&c).unwrap();
            r.push(acc);
            proof {
                assert forall|j: int|
                    i + 1 <= j < clients@.len() implies accounts@.contains_key(
                    #[trigger] clients@[j],
                ) && accounts@[clients@[j]] == m0[clients@[j]] by {
                    assert(clients@[j] != c);
                    assert(pre.contains_key(clients@[j]));
                }
            }
            i = i + 1;
        }
        r
    }

    /// Builds a ledger from raw input records: each record is validated,
    /// rejected records are dropped, and the valid transactions are applied
    /// in order to the empty ledger.
    pub fn from_input_transactions(inputs: Vec<InputTransaction>) -> (r: BasicBank)
        ensures
            r@ == run(valid_txs(inputs@)),
            r.wf(),
    {
        let ghost inputs0 = inputs@;
        let mut inputs = inputs;
        let mut bank = BasicBank::new();
        let ghost mut k: int = 0;
        proof {
            assert(inputs@ =~= inputs0.skip(0));
            assert(valid_txs(inputs0.take(0)) =~= Seq::<Transaction>::empty());
            assert(run(valid_txs(inputs0.take(0))) =~= Map::<ClientID, AccountModel>::empty());
        }
        while inputs.len() > 0
            invariant
                0 <= k <= inputs0.len(),
                inputs@ == inputs0.skip(k),
                bank.wf(),
                bank@ == run(valid_txs(inputs0.take(k))),
            decreases inputs@.len(),
        {
            let input = inputs.remove(0);
            proof {
                assert(input == inputs0[k]);
                assert(inputs@ =~= inputs0.skip(k + 1));
            }
            let valid = Transaction::try_from_input(input);
            match valid {
                Ok(tx) => {
                    let _ = bank.apply_tx(tx);
                },
                Err(_) => {},
            }
            proof {
                let prefix = inputs0.take(k);
                let full = inputs0.take(k + 1);
                assert(full.drop_last() =~= prefix);
                assert(full.last() == inputs0[k]);
                match spec_validate(
                    inputs0[k].tx_type@,
                    inputs0[k].client_id,
                    inputs0[k].tx_id,
                    inputs0[k].amount,
                ) {
                    Ok(t) => {
                        assert(valid_txs(full) == valid_txs(prefix).push(t));
                        assert(valid_txs(full).drop_last() =~= valid_txs(prefix));
                        assert(valid_txs(full).last() == t);
                        assert(valid_txs(full).len() > 0);
                    },
                    Err(_) => {
                        assert(valid_txs(full) == valid_txs(prefix));
                    },
                }
                k = k + 1;
            }
        }
        proof {
            assert(inputs0.take(inputs0.len() as int) =~= inputs0);
        }
        bank
    }

    /// Builds a ledger by applying a whole transaction stream, in order, to
    /// the empty ledger; per-transaction rejections do not stop the stream.
    pub fn from_transactions(txs: &Vec<Transaction>) -> (r: BasicBank)
        ensures
            r@ == run(txs@),
            r.wf(),
    {
        let mut bank = BasicBank::new();
        let mut i: usize = 0;
        proof {
            assert(txs@.take(0) =~= Seq::<Transaction>::empty());
        }
        while i < txs.len()
            invariant
                i <= txs.len(),
                bank.wf(),
                bank@ == run(txs@.take(i as int)),
            decreases txs.len() - i,
        {
            let tx = txs[i];
            let _ = bank.apply_tx(tx);
            i = i + 1;
            proof {
                assert(txs@.take(i as int).drop_last() =~= txs@.take(i as int - 1));
                assert(txs@.take(i as int).last() == txs@[i as int - 1]);
            }
        }
        proof {
            assert(txs@.take(txs@.len() as int) =~= txs@);
        }
        bank
    }
}

} // verus!
