//! The transaction pool: admitted, signature-verified, not-yet-included
//! transactions, keyed by a monotonically increasing sequence id.

use vstd::prelude::*;

use crate::kv::{
    no_pool_entries, pool_entries, pool_get, pool_insert, pool_len, pool_new, pool_remove,
    pool_view, PoolMap,
};
use vstd::slice::slice_index_get;

use crate::structures::{tx_eq, ChainError, Transaction, TransactionSign};

verus! {

/// How many pending transactions a block takes at most, and the threshold
/// below which the builder reports an idle pool.
pub const MAX_TRANSACTIONS_PER_BLOCK: usize = 2;

/// Every transaction of `r` is a value of `pool`.
pub open spec fn spec_txs_from_pool(r: Seq<Transaction>, pool: Map<u64, Transaction>) -> bool {
    forall|i: int|
        0 <= i < r.len() ==> exists|id: u64| pool.contains_key(id) && pool[id] == #[trigger] r[i]
}

/// Every transaction of `r` is drawn from a pool entry of its own: some
/// pairwise-distinct sequence ids map the draws to entries one for one.
pub open spec fn spec_txs_from_distinct_entries(
    r: Seq<Transaction>,
    pool: Map<u64, Transaction>,
) -> bool {
    exists|ids: Seq<u64>|
        #![auto]
        {
            &&& ids.len() == r.len()
            &&& (forall|i: int|
                0 <= i < ids.len() ==> pool.contains_key(#[trigger] ids[i]) && pool[ids[i]]
                    == r[i])
            &&& (forall|i: int, j: int| 0 <= i < j < ids.len() ==> ids[i] != ids[j])
        }
}

/// `m` with every entry holding `tx` removed.
pub open spec fn spec_prune(m: Map<u64, Transaction>, tx: Transaction) -> Map<u64, Transaction> {
    Map::new(|id: u64| m.contains_key(id) && m[id] != tx, |id: u64| m[id])
}

/// `m` with every entry holding any transaction of `txs` removed.
pub open spec fn spec_prune_all(m: Map<u64, Transaction>, txs: Seq<Transaction>) -> Map<
    u64,
    Transaction,
> {
    Map::new(|id: u64| m.contains_key(id) && !txs.contains(m[id]), |id: u64| m[id])
}

/// The pool of pending transactions with its sequence-id counter.
#[derive(Debug)]
pub struct Mempool {
    pool: PoolMap,
    counter: u64,
}

impl Mempool {
    /// The pending transactions, keyed by sequence id.
    pub closed spec fn pool(&self) -> Map<u64, Transaction> {
        pool_view(self.pool)
    }

    /// The sequence id the next admitted transaction receives.
    pub closed spec fn spec_counter(&self) -> u64 {
        self.counter
    }

    /// An empty pool whose counter starts at zero.
    pub fn new() -> (r: Mempool)
        ensures
            r.pool() == no_pool_entries(),
            r.spec_counter() == 0,
    {
        Mempool { pool: pool_new(), counter: 0 }
    }

    /// How many transactions are pending.
    pub fn len(&self) -> (r: usize)
        ensures
            r == self.pool().len(),
    {
        pool_len(&self.pool)
    }

    /// Admit a transaction: verify its signature against its claimed signer,
    /// and on success store it under the next sequence id. A transaction
    /// whose signature does not verify is rejected without admission.
    pub fn send_transaction(&mut self, tx: Transaction) -> (r: Result<u64, ChainError>)
        ensures
            tx.spec_sig_ok() ==> r == Ok::<u64, ChainError>(old(self).spec_counter())
                && final(self).pool() == old(self).pool().insert(old(self).spec_counter(), tx)
                && final(self).spec_counter() == (if old(self).spec_counter() == u64::MAX {
                0u64
            } else {
                (old(self).spec_counter() + 1) as u64
            }),
            !tx.spec_sig_ok() ==> r == Err::<u64, ChainError>(ChainError::SignatureInvalid)
                && final(self).pool() == old(self).pool()
                && final(self).spec_counter() == old(self).spec_counter(),
    {
        let signer = tx.get_signer();
        if !tx.verify_signature(&signer) {
            return Err(ChainError::SignatureInvalid);
        }
        let id = self.counter;
        self.counter = if self.counter == u64::MAX {
            0
        } else {
            self.counter + 1
        };
        pool_insert(&mut self.pool, id, tx);
        Ok(id)
    }

    /// A snapshot copy of the transaction under the given sequence id.
    pub fn get_transaction(&self, id: &u64) -> (r: Option<Transaction>)
        ensures
            r == if self.pool().contains_key(*id) {
                Some(self.pool()[*id])
            } else {
                None::<Transaction>
            },
    {
        pool_get(&self.pool, id)
    }

    /// Remove the transaction under the given sequence id; removing an
    /// absent id changes nothing.
    pub fn remove_transaction(&mut self, id: &u64)
        ensures
            final(self).pool() == old(self).pool().remove(*id),
            final(self).spec_counter() == old(self).spec_counter(),
    {
        pool_remove(&mut self.pool, id);
    }

    /// Remove every transaction whose sequence id is listed.
    pub fn remove_transactions(&mut self, transactions: &[u64])
        ensures
            final(self).pool() == old(self).pool().remove_keys(transactions@.to_set()),
            final(self).spec_counter() == old(self).spec_counter(),
    {
        let n = transactions.len();
        let mut i: usize = 0;
        proof {
            assert(self.pool() =~= old(self).pool().remove_keys(
                transactions@.subrange(0, 0).to_set(),
            ));
        }
        while i < n
            invariant
                0 <= i <= n,
                n == transactions@.len(),
                self.pool() == old(self).pool().remove_keys(
                    transactions@.subrange(0, i as int).to_set(),
                ),
                self.spec_counter() == old(self).spec_counter(),
            decreases n - i,
        {
            let id = *slice_index_get(transactions, i);
            pool_remove(&mut self.pool, &id);
            proof {
                let s = transactions@;
                let longer = s.subrange(0, i + 1 as int);
                let shorter = s.subrange(0, i as int);
                assert forall|x: u64| longer.to_set().contains(x) implies shorter.to_set().insert(
                    s[i as int],
                ).contains(x) by {
                    let j = choose|j: int| 0 <= j < longer.len() && longer[j] == x;
                    if j < i {
                        assert(shorter[j] == x);
                        assert(shorter.contains(x));
                    } else {
                        assert(longer[j] == s[i as int]);
                    }
                }
                assert forall|x: u64|
                    shorter.to_set().insert(s[i as int]).contains(x) implies longer.to_set()
                    .contains(x) by {
                    if shorter.to_set().contains(x) {
                        let j = choose|j: int| 0 <= j < shorter.len() && shorter[j] == x;
                        assert(longer[j] == x);
                    } else {
                        assert(x == s[i as int]);
                        assert(longer[i as int] == x);
                    }
                }
                assert(transactions@.subrange(0, i + 1 as int).to_set() =~= transactions@.subrange(
                    0,
                    i as int,
                ).to_set().insert(transactions@[i as int]));
                assert(self.pool() =~= old(self).pool().remove_keys(
                    transactions@.subrange(0, i + 1 as int).to_set(),
                ));
            }
            i += 1;
        }
        proof {
            assert(transactions@.subrange(0, n as int) =~= transactions@);
        }
    }

    /// Remove every entry that holds the given transaction.
    pub fn remove_matching(&mut self, tx: &Transaction)
        ensures
            final(self).pool() == spec_prune(old(self).pool(), *tx),
            final(self).spec_counter() == old(self).spec_counter(),
    {
        let entries = pool_entries(&self.pool);
        let n = entries.len();
        let ghost entries_seq = entries@;
        let mut i: usize = 0;
        while i < n
            invariant
                0 <= i <= n,
                n == entries_seq.len(),
                entries@ == entries_seq,
                forall|j: int|
                    0 <= j < entries_seq.len() ==> old(self).pool().contains_key(
                        (#[trigger] entries_seq[j]).0,
                    ) && old(self).pool()[entries_seq[j].0] == entries_seq[j].1,
                forall|j: int, l: int|
                    0 <= j < l < entries_seq.len() ==> entries_seq[j].0 != entries_seq[l].0,
                forall|k: u64|
                    old(self).pool().contains_key(k) ==> exists|j: int|
                        0 <= j < entries_seq.len() && (#[trigger] entries_seq[j]).0 == k,
                forall|k: u64|
                    #[trigger] self.pool().contains_key(k) <==> old(self).pool().contains_key(k)
                        && !(old(self).pool()[k] == *tx && (exists|j: int|
                        0 <= j < i && (#[trigger] entries_seq[j]).0 == k)),
                forall|k: u64|
                    self.pool().contains_key(k) ==> #[trigger] self.pool()[k]
                        == old(self).pool()[k],
                self.spec_counter() == old(self).spec_counter(),
            decreases n - i,
        {
            let ghost pool_before = self.pool();
            let entry_id = entries[i].0;
            let matched = tx_eq(&entries[i].1, tx);
            if matched {
                pool_remove(&mut self.pool, &entry_id);
            }
            proof {
                assert(old(self).pool().contains_key(entries_seq[i as int].0) && old(
                    self,
                ).pool()[entries_seq[i as int].0] == entries_seq[i as int].1);
                assert forall|k: u64| #[trigger] self.pool().contains_key(k) <==> (old(
                    self,
                ).pool().contains_key(k) && !(old(self).pool()[k] == *tx && (exists|j: int|
                    0 <= j < i + 1 && (#[trigger] entries_seq[j]).0 == k))) by {
                    if matched {
                        if self.pool().contains_key(k) {
                            assert(k != entry_id@ || k != entries_seq[i as int].0);
                            assert(pool_before.contains_key(k));
                            assert(!(old(self).pool()[k] == *tx && (exists|j: int|
                                0 <= j < i && (#[trigger] entries_seq[j]).0 == k)));
                            assert forall|j: int|
                                0 <= j < i + 1 && (#[trigger] entries_seq[j]).0 == k implies !(old(
                                self,
                            ).pool()[k] == *tx) by {
                                if j == i {
                                    assert(entries_seq[j].0 == entry_id);
                                    assert(!self.pool().contains_key(k));
                                }
                            }
                        } else {
                            if old(self).pool().contains_key(k) && !(old(self).pool()[k] == *tx
                                && (exists|j: int|
                                0 <= j < i + 1 && (#[trigger] entries_seq[j]).0 == k)) {
                                assert(!(old(self).pool()[k] == *tx && (exists|j: int|
                                    0 <= j < i && (#[trigger] entries_seq[j]).0 == k)));
                                assert(pool_before.contains_key(k));
                                assert(k == entry_id);
                                assert((entries_seq[i as int]).0 == k);
                                assert(old(self).pool()[k] == *tx);
                                assert(false);
                            }
                        }
                    } else {
                        assert(self.pool() == pool_before);
                        assert(entries_seq[i as int].1 != *tx);
                        if old(self).pool().contains_key(k) && old(self).pool()[k] == *tx {
                            assert forall|j: int|
                                0 <= j < i + 1 && (#[trigger] entries_seq[j]).0 == k implies 0 <= j
                                < i by {
                                if j == i {
                                    assert(old(self).pool()[k] == entries_seq[i as int].1);
                                    assert(false);
                                }
                            }
                        }
                    }
                }
            }
            i += 1;
        }
        proof {
            assert(self.pool() =~= spec_prune(old(self).pool(), *tx));
        }
    }

    /// A snapshot of at most `MAX_TRANSACTIONS_PER_BLOCK` pending
    /// transactions, each drawn from a pool entry of its own, in the
    /// unspecified order the store yields them.
    pub fn get_transactions_for_block(&self) -> (r: Vec<Transaction>)
        ensures
            r@.len() == if self.pool().len() < MAX_TRANSACTIONS_PER_BLOCK {
                self.pool().len()
            } else {
                MAX_TRANSACTIONS_PER_BLOCK as nat
            },
            spec_txs_from_pool(r@, self.pool()),
            spec_txs_from_distinct_entries(r@, self.pool()),
    {
        let entries = pool_entries(&self.pool);
        let mut result: Vec<Transaction> = Vec::new();
        let ghost mut ids: Seq<u64> = Seq::empty();
        let mut i: usize = 0;
        while i < entries.len() && i < MAX_TRANSACTIONS_PER_BLOCK
            invariant
                0 <= i <= entries@.len(),
                i <= MAX_TRANSACTIONS_PER_BLOCK,
                result@.len() == i,
                ids.len() == i,
                forall|j: int| 0 <= j < i ==> #[trigger] ids[j] == entries@[j].0,
                entries@.len() == self.pool().len(),
                forall|j: int|
                    0 <= j < entries@.len() ==> self.pool().contains_key(
                        (#[trigger] entries@[j]).0,
                    ) && self.pool()[entries@[j].0] == entries@[j].1,
                forall|j: int, l: int|
                    0 <= j < l < entries@.len() ==> entries@[j].0 != entries@[l].0,
                spec_txs_from_pool(result@, self.pool()),
                forall|j: int|
                    0 <= j < i ==> self.pool().contains_key(#[trigger] ids[j]) && self.pool()[
                        ids[j]
                    ] == result@[j],
            decreases entries@.len() - i,
        {
            let entry_tx = entries[i].1;
            proof {
                let id = entries@[i as int].0;
                assert(self.pool().contains_key(id) && self.pool()[id] == entry_tx);
                ids = ids.push(id);
            }
            result.push(entry_tx);
            i += 1;
        }
        proof {
            assert forall|j: int, l: int| 0 <= j < l < ids.len() implies ids[j] != ids[l] by {
                assert(ids[j] == entries@[j].0 && ids[l] == entries@[l].0);
            }
            assert(spec_txs_from_distinct_entries(result@, self.pool()));
        }
        result
    }
}

} // verus!
