//! Laws of the ledger: properties that hold of all inputs, stated over the
//! same spec functions the public contracts use, and proved here once.

use vstd::prelude::*;
use vstd::bytes::{lemma_auto_spec_u64_to_from_le_bytes, spec_u64_to_le_bytes};

use crate::builder::{spec_batch_admissible, spec_tx_admissible};
use crate::kv::no_pool_entries;
use crate::pool::{spec_prune_all, spec_txs_from_distinct_entries, Mempool};
use crate::structures::{
    genesis_hash, spec_block_bytes, spec_vote_count, Block, Transaction, TransactionSign,
    TransferTransaction, UserAccount, ValidatorAccount,
};

verus! {

/// Total supply across the two accounts of a transfer is preserved: when a
/// transfer between two distinct accounts executes successfully and the
/// credit does not saturate, the debited and credited balances sum to what
/// the two accounts held before.
pub proof fn lemma_transfer_preserves_supply(
    tx: TransferTransaction,
    accounts: Map<Seq<u8>, UserAccount>,
    validators: Map<Seq<u8>, ValidatorAccount>,
)
    requires
        tx.spec_execute(accounts, validators).2 is Ok,
        tx.from@ != tx.to@,
        accounts.contains_key(tx.to@),
        accounts[tx.to@].balance + tx.amt <= u64::MAX,
    ensures
        tx.spec_execute(accounts, validators).0[tx.from@].balance + tx.spec_execute(
            accounts,
            validators,
        ).0[tx.to@].balance == accounts[tx.from@].balance + accounts[tx.to@].balance,
{
    let after = tx.spec_execute(accounts, validators).0;
    assert(after[tx.from@].balance == accounts[tx.from@].balance - tx.amt);
    assert(after[tx.to@].balance == accounts[tx.to@].balance + tx.amt);
}

/// A transaction with an invalid signature never appears in an admissible
/// batch: every transaction of a batch that passes block validation carries
/// a signature that verifies against its claimed signer.
pub proof fn lemma_admissible_batch_is_signed(
    txs: Seq<Transaction>,
    accounts: Map<Seq<u8>, UserAccount>,
    validators: Map<Seq<u8>, ValidatorAccount>,
)
    requires
        spec_batch_admissible(txs, accounts, validators),
    ensures
        forall|i: int| 0 <= i < txs.len() ==> (#[trigger] txs[i]).spec_sig_ok(),
{
    assert forall|i: int| 0 <= i < txs.len() implies (#[trigger] txs[i]).spec_sig_ok() by {
        assert(spec_tx_admissible(txs[i], accounts, validators));
    }
}

/// Genesis is deterministic: any two blocks carrying the reserved sentinel
/// hash, as every block the genesis constructor returns does, carry the same
/// hash, whatever their timestamps.
pub proof fn lemma_genesis_hashes_equal(g1: Block, g2: Block)
    requires
        g1.hash@ == genesis_hash(),
        g2.hash@ == genesis_hash(),
    ensures
        g1.hash == g2.hash,
{
    assert(g1.hash@ =~= g2.hash@);
    assert(g1.hash =~= g2.hash);
}

/// The block hash is deterministic: two well-formed blocks over the same
/// previous hash, the same timestamp and the same transaction batch carry
/// the same hash.
pub proof fn lemma_block_hash_deterministic(b1: Block, b2: Block)
    requires
        b1.wf(),
        b2.wf(),
        b1.prev_hash@ == b2.prev_hash@,
        b1.timestamp == b2.timestamp,
        b1.transactions@ == b2.transactions@,
    ensures
        b1.hash@ == b2.hash@,
{
}

/// The bytes a block's hash is computed over pin the timestamp: the same
/// previous hash and transaction batch with different timestamps give
/// different digest inputs. That different inputs give different digests is
/// the collision resistance of the digest, a property of the trusted hashing
/// collaborator that no proof here can supply.
pub proof fn lemma_block_bytes_pin_timestamp(
    prev: Seq<u8>,
    t1: u64,
    t2: u64,
    txs: Seq<Transaction>,
)
    requires
        t1 != t2,
    ensures
        spec_block_bytes(prev, t1, txs) != spec_block_bytes(prev, t2, txs),
{
    lemma_auto_spec_u64_to_from_le_bytes();
    let le1 = spec_u64_to_le_bytes(t1);
    let le2 = spec_u64_to_le_bytes(t2);
    assert(le1.len() == 8 && le2.len() == 8);
    if le1 =~= le2 {
        assert(false);
    }
    let k = choose|k: int| 0 <= k < 8 && le1[k] != le2[k];
    let bytes1 = spec_block_bytes(prev, t1, txs);
    let bytes2 = spec_block_bytes(prev, t2, txs);
    let n = prev.len() as int;
    assert(bytes1[n + k] == le1[k]);
    assert(bytes2[n + k] == le2[k]);
}

/// Sequence ids are distinct and strictly increasing: two successful
/// admissions in a row, as the pool's contract describes them, hand out the
/// old counter and its successor, and both transactions sit in the pool
/// under their own ids.
pub proof fn lemma_sequence_ids_strictly_increase(
    m0: Mempool,
    m1: Mempool,
    m2: Mempool,
    tx1: Transaction,
    tx2: Transaction,
    id1: u64,
    id2: u64,
)
    requires
        m0.spec_counter() < u64::MAX,
        id1 == m0.spec_counter(),
        m1.pool() == m0.pool().insert(id1, tx1),
        m1.spec_counter() == m0.spec_counter() + 1,
        id2 == m1.spec_counter(),
        m2.pool() == m1.pool().insert(id2, tx2),
    ensures
        id2 == id1 + 1,
        id1 != id2,
        m2.pool().contains_key(id1) && m2.pool()[id1] == tx1,
        m2.pool().contains_key(id2) && m2.pool()[id2] == tx2,
{
}

/// A full draw covers the pool: when as many pairwise-distinct entries as
/// the pool holds are drawn, every pool value appears among the draws, and
/// pruning the drawn transactions empties the pool. With the batch
/// threshold met by a pool of exactly that size, this is why a finalized
/// round leaves the pool empty.
pub proof fn lemma_full_draw_drains_pool(r: Seq<Transaction>, pool: Map<u64, Transaction>)
    requires
        spec_txs_from_distinct_entries(r, pool),
        r.len() == pool.len(),
        pool.dom().finite(),
    ensures
        forall|k: u64| #[trigger] pool.contains_key(k) ==> r.contains(pool[k]),
        spec_prune_all(pool, r) == no_pool_entries(),
{
    let ids = choose|ids: Seq<u64>|
        #![auto]
        {
            &&& ids.len() == r.len()
            &&& (forall|i: int|
                0 <= i < ids.len() ==> pool.contains_key(#[trigger] ids[i]) && pool[ids[i]]
                    == r[i])
            &&& (forall|i: int, j: int| 0 <= i < j < ids.len() ==> ids[i] != ids[j])
        };
    assert(ids.no_duplicates());
    ids.unique_seq_to_set();
    assert(ids.to_set().len() == pool.dom().len());
    assert forall|x: u64| ids.to_set().contains(x) implies pool.dom().contains(x) by {
        let i = choose|i: int| 0 <= i < ids.len() && ids[i] == x;
        assert(pool.contains_key(ids[i]));
    }
    assert(ids.to_set().subset_of(pool.dom()));
    assert forall|k: u64| #[trigger] pool.contains_key(k) implies r.contains(pool[k]) by {
        if !ids.to_set().contains(k) {
            ids.to_set().lemma_subset_not_in_lt(pool.dom(), k);
        }
        assert(ids.to_set().contains(k));
        assert(ids.contains(k));
        let i = choose|i: int| 0 <= i < ids.len() && ids[i] == k;
        assert(pool[ids[i]] == r[i]);
    }
    assert(spec_prune_all(pool, r) =~= no_pool_entries());
}

/// Quorum is met exactly when the candidate is admissible: with every
/// validator independently re-validating the same batch against the same
/// ledger, the vote count reaches the majority threshold `total / 2 + 1`
/// if and only if the batch passes validation.
pub proof fn lemma_quorum_iff_admissible(
    txs: Seq<Transaction>,
    accounts: Map<Seq<u8>, UserAccount>,
    validators: Map<Seq<u8>, ValidatorAccount>,
)
    requires
        validators.dom().finite(),
        validators.len() >= 1,
    ensures
        spec_vote_count(txs, accounts, validators) >= validators.len() / 2 + 1
            <==> spec_batch_admissible(txs, accounts, validators),
{
    let n = validators.len();
    if spec_batch_admissible(txs, accounts, validators) {
        assert(spec_vote_count(txs, accounts, validators) == n);
        assert(n >= n / 2 + 1);
    } else {
        assert(spec_vote_count(txs, accounts, validators) == 0);
        assert(n / 2 + 1 > 0);
    }
}

} // verus!
