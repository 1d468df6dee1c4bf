//! The sharded ledger: the client space is partitioned over a fixed number
//! of shards by `client_id mod shard_count`, each shard owning a private
//! sequential ledger. Every transaction of a given client reaches the same
//! shard, so shards share no state; `lemma_partition_equivalence` proves
//! that the accounts they compute equal the sequential ledger's.

use vstd::prelude::*;
use crate::account::{Account, AccountError};
use crate::basic_bank::BasicBank;
use crate::model::{ledger_result, ledger_step, run, shard_of, shard_txs, AccountModel};
use crate::transaction::{ClientID, Transaction};

verus! {

/// A ledger split into independent shards, each a `BasicBank` owning the
/// clients whose id maps to it by `client_id mod shard_count`.
pub struct ShardedBank {
    /// The per-shard ledgers; the shard count is this vector's length.
    pub banks: Vec<BasicBank>,
}

impl ShardedBank {
    /// The number of shards.
    pub open spec fn spec_shard_count(self) -> int {
        self.banks@.len() as int
    }

    /// Validity: at least one shard, every shard's ledger is well-formed,
    /// and every account sits in the shard that owns its client.
    pub open spec fn wf(self) -> bool {
        &&& self.banks@.len() >= 1
        &&& forall|i: int| 0 <= i < self.banks@.len() ==> (#[trigger] self.banks@[i]).wf()
        &&& forall|i: int, c: ClientID|
            0 <= i < self.banks@.len() && #[trigger] self.banks@[i]@.contains_key(c)
                ==> shard_of(c, self.spec_shard_count()) == i
    }

    /// Creates a sharded ledger with `count` empty shards.
    pub fn new_with_shard_count(count: usize) -> (r: ShardedBank)
        requires
            count >= 1,
        ensures
            r.wf(),
            r.spec_shard_count() == count,
            forall|i: int|
                0 <= i < count ==> (#[trigger] r.banks@[i])@ == Map::<
                    ClientID,
                    AccountModel,
                >::empty(),
    {
        let mut banks: Vec<BasicBank> = Vec::new();
        let mut i: usize = 0;
        while i < count
            invariant
                i <= count,
                banks@.len() == i,
                forall|j: int|
                    0 <= j < i ==> (#[trigger] banks@[j]).wf() && banks@[j]@ == Map::<
                        ClientID,
                        AccountModel,
                    >::empty(),
            decreases count - i,
        {
            banks.push(BasicBank::new());
            i = i + 1;
        }
        ShardedBank { banks }
    }

    /// Routes one transaction to the shard owning its client and applies it
    /// there; only that shard's ledger changes, by exactly one ledger step,
    /// and its verdict is reported.
    pub fn apply_tx(&mut self, tx: Transaction) -> (r: Result<(), AccountError>)
        requires
            old(self).wf(),
        ensures
            final(self).wf(),
            final(self).spec_shard_count() == old(self).spec_shard_count(),
            ({
                let s = shard_of(tx.spec_client_id(), old(self).spec_shard_count());
                &&& final(self).banks@[s]@ == ledger_step(old(self).banks@[s]@, tx)
                &&& r == ledger_result(old(self).banks@[s]@, tx)
                &&& forall|i: int|
                    0 <= i < old(self).banks@.len() && i != s ==> final(self).banks@[i] == old(
                        self,
                    ).banks@[i]
            }),
    {
        let count = self.banks.len();
        let s = (tx.get_client_id() as usize) % count;
        let r = self.banks[s].apply_tx(tx);
        proof {
            let ghost sh = shard_of(tx.spec_client_id(), old(self).spec_shard_count());
            assert(sh == s as int);
            assert forall|i: int, c: ClientID|
                0 <= i < self.banks@.len() && #[trigger] self.banks@[i]@.contains_key(c)
                    implies shard_of(c, self.spec_shard_count()) == i by {
                if i != s as int {
                    assert(old(self).banks@[i]@.contains_key(c));
                } else {
                    if c != tx.spec_client_id() {
                        assert(old(self).banks@[i]@.contains_key(c));
                    }
                }
            }
        }
        r
    }

    /// Builds a sharded ledger with `count` shards by routing a whole
    /// transaction stream, in order: each shard ends up having run exactly
    /// its own subsequence of the stream.
    pub fn from_transactions(txs: &Vec<Transaction>, count: usize) -> (r: ShardedBank)
        requires
            count >= 1,
        ensures
            r.wf(),
            r.spec_shard_count() == count,
            forall|s: int|
                0 <= s < count ==> (#[trigger] r.banks@[s])@ == run(
                    shard_txs(txs@, count as int, s),
                ),
    {
        let mut bank = ShardedBank::new_with_shard_count(count);
        let mut i: usize = 0;
        proof {
            reveal(Seq::filter);
            assert forall|s: int| 0 <= s < count implies (#[trigger] bank.banks@[s])@ == run(
                shard_txs(txs@.take(0), count as int, s),
            ) by {
                assert(txs@.take(0) =~= Seq::<Transaction>::empty());
                assert(shard_txs(txs@.take(0), count as int, s) =~= Seq::<Transaction>::empty());
            }
        }
        while i < txs.len()
            invariant
                i <= txs.len(),
                bank.wf(),
                bank.spec_shard_count() == count,
                forall|s: int|
                    0 <= s < count ==> (#[trigger] bank.banks@[s])@ == run(
                        shard_txs(txs@.take(i as int), count as int, s),
                    ),
            decreases txs.len() - i,
        {
            let ghost pre = bank.banks@;
            let tx = txs[i];
            let _ = bank.apply_tx(tx);
            i = i + 1;
            proof {
                reveal(Seq::filter);
                let n = count as int;
                let prefix = txs@.take(i as int - 1);
                let full = txs@.take(i as int);
                assert(full.drop_last() =~= prefix);
                assert(full.last() == tx);
                let tsh = shard_of(tx.spec_client_id(), n);
                assert forall|s: int| 0 <= s < count implies (#[trigger] bank.banks@[s])@ == run(
                    shard_txs(full, n, s),
                ) by {
                    if s == tsh {
                        assert(shard_txs(full, n, s) == shard_txs(prefix, n, s).push(tx));
                        assert(shard_txs(full, n, s).drop_last() =~= shard_txs(prefix, n, s));
                        assert(shard_txs(full, n, s).last() == tx);
                        assert(shard_txs(full, n, s).len() > 0);
                        assert(bank.banks@[s]@ == ledger_step(pre[s]@, tx));
                    } else {
                        assert(shard_txs(full, n, s) == shard_txs(prefix, n, s));
                        assert(bank.banks@[s] == pre[s]);
                    }
                }
            }
        }
        proof {
            assert(txs@.take(txs@.len() as int) =~= txs@);
        }
        bank
    }

    /// Consumes the sharded ledger and returns every shard's accounts:
    /// one well-formed account per known client — the account count is
    /// exact and no client appears twice — each drawn from the shard that
    /// owns it.
    pub fn into_accounts(self) -> (r: Vec<Account>)
        requires
            self.wf(),
        ensures
            forall|k: int|
                0 <= k < r@.len() ==> {
                    let a = #[trigger] r@[k];
                    let s = shard_of(a.client_id, self.spec_shard_count());
                    &&& a.wf()
                    &&& self.banks@[s]@.contains_key(a.client_id)
                    &&& a@ == self.banks@[s]@[a.client_id]
                },
            forall|k1: int, k2: int|
                0 <= k1 < r@.len() && 0 <= k2 < r@.len() && k1 != k2 ==> r@[k1].client_id
                    != r@[k2].client_id,
            r@.len() == total_clients(self.banks@),
    {
        let ghost orig = self.banks@;
        let ghost n = self.banks@.len() as int;
        let mut banks = self.banks;
        let mut r: Vec<Account> = Vec::new();
        let ghost mut s: int = 0;
        proof {
            assert(banks@ =~= orig.skip(0));
            assert(orig.take(0) =~= Seq::<BasicBank>::empty());
        }
        while banks.len() > 0
            invariant
                0 <= s <= n,
                n == orig.len(),
                banks@ == orig.skip(s),
                forall|i: int| 0 <= i < n ==> (#[trigger] orig[i]).wf(),
                forall|i: int, c: ClientID|
                    0 <= i < n && #[trigger] orig[i]@.contains_key(c) ==> shard_of(c, n) == i,
                r@.len() == total_clients(orig.take(s)),
                forall|k: int|
                    0 <= k < r@.len() ==> {
                        let a = #[trigger] r@[k];
                        &&& a.wf()
                        &&& 0 <= shard_of(a.client_id, n) < s
                        &&& orig[shard_of(a.client_id, n)]@.contains_key(a.client_id)
                        &&& a@ == orig[shard_of(a.client_id, n)]@[a.client_id]
                    },
                forall|k1: int, k2: int|
                    0 <= k1 < r@.len() && 0 <= k2 < r@.len() && k1 != k2 ==> r@[k1].client_id
                        != r@[k2].client_id,
            decreases banks@.len(),
        {
            let ghost r_pre = r@;
            let bank = banks.remove(0);
            proof {
                assert(bank == orig[s]);
                assert(banks@ =~= orig.skip(s + 1));
                lemma_total_clients_take(orig, s);
            }
            let mut accs = bank.into_accounts();
            let ghost accs0 = accs@;
            r.append(&mut accs);
            proof {
                let clients = bank.clients@;
                assert(r@.len() == r_pre.len() + clients.len());
                assert forall|k: int| 0 <= k < r@.len() implies {
                    let a = #[trigger] r@[k];
                    &&& a.wf()
                    &&& 0 <= shard_of(a.client_id, n) < s + 1
                    &&& orig[shard_of(a.client_id, n)]@.contains_key(a.client_id)
                    &&& a@ == orig[shard_of(a.client_id, n)]@[a.client_id]
                } by {
                    if k < r_pre.len() {
                        assert(r@[k] == r_pre[k]);
                    } else {
                        let j = k - r_pre.len();
                        assert(r@[k] == accs0[j]);
                        assert(accs0[j].client_id == clients[j]);
                        assert(clients.contains(clients[j]));
                        assert(bank.accounts@.contains_key(clients[j]));
                        assert(bank@.contains_key(clients[j]));
                        assert(shard_of(clients[j], n) == s);
                    }
                }
                assert forall|k1: int, k2: int|
                    0 <= k1 < r@.len() && 0 <= k2 < r@.len() && k1 != k2 implies r@[k1].client_id
                    != r@[k2].client_id by {
                    if k1 < r_pre.len() && k2 < r_pre.len() {
                        assert(r@[k1] == r_pre[k1] && r@[k2] == r_pre[k2]);
                    } else if r_pre.len() <= k1 && r_pre.len() <= k2 {
                        let j1 = k1 - r_pre.len();
                        let j2 = k2 - r_pre.len();
                        assert(r@[k1].client_id == clients[j1]);
                        assert(r@[k2].client_id == clients[j2]);
                        assert(clients.no_duplicates());
                    } else {
                        let (ko, kn) = if k1 < r_pre.len() {
                            (k1, k2)
                        } else {
                            (k2, k1)
                        };
                        assert(r@[ko] == r_pre[ko]);
                        assert(shard_of(r@[ko].client_id, n) < s);
                        let j = kn - r_pre.len();
                        assert(r@[kn] == accs0[j]);
                        assert(accs0[j].client_id == clients[j]);
                        assert(clients.contains(clients[j]));
                        assert(bank.accounts@.contains_key(clients[j]));
                        assert(bank@.contains_key(clients[j]));
                        assert(orig[s]@.contains_key(clients[j]));
                        assert(shard_of(r@[kn].client_id, n) == s);
                    }
                }
                s = s + 1;
            }
        }
        proof {
            assert(s == n);
            assert(orig.take(n) =~= orig);
        }
        r
    }
}

/// The number of clients known across a sequence of shard ledgers.
pub open spec fn total_clients(banks: Seq<BasicBank>) -> int
    decreases banks.len(),
{
    if banks.len() == 0 {
        0
    } else {
        total_clients(banks.drop_last()) + banks.last().clients@.len()
    }
}

/// Unfolds `total_clients` at a cut point: the count over the first
/// `s + 1` shards is the count over the first `s` plus shard `s`'s own.
proof fn lemma_total_clients_take(banks: Seq<BasicBank>, s: int)
    requires
        0 <= s < banks.len(),
    ensures
        total_clients(banks.take(s + 1)) == total_clients(banks.take(s))
            + banks[s].clients@.len(),
{
    assert(banks.take(s + 1).drop_last() =~= banks.take(s));
    assert(banks.take(s + 1).last() == banks[s]);
}

} // verus!
