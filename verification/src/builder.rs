//! The block builder: assembles a candidate block from the pool, re-validates
//! it against the ledger, and picks the leader by stake.

use vstd::prelude::*;

use crate::byteops::{lemma_lex_lt_transitive, lex_cmp32, lex_le, lex_lt, KeyOrder};
use crate::db::AccountsDB;
use crate::pool::{spec_txs_from_distinct_entries, spec_txs_from_pool, Mempool, MAX_TRANSACTIONS_PER_BLOCK};
use crate::structures::{
    genesis_hash, Block, Blockhash, ChainError, Transaction, TransactionSign, UserAccount,
    ValidatorAccount,
};

verus! {

/// A transaction both carries a signature that verifies against its claimed
/// signer and passes validation against the given ledger contents.
pub open spec fn spec_tx_admissible(
    tx: Transaction,
    accounts: Map<Seq<u8>, UserAccount>,
    validators: Map<Seq<u8>, ValidatorAccount>,
) -> bool {
    tx.spec_sig_ok() && tx.spec_valid(accounts, validators)
}

/// Every transaction of the batch is admissible.
pub open spec fn spec_batch_admissible(
    txs: Seq<Transaction>,
    accounts: Map<Seq<u8>, UserAccount>,
    validators: Map<Seq<u8>, ValidatorAccount>,
) -> bool {
    forall|i: int| 0 <= i < txs.len() ==> spec_tx_admissible(#[trigger] txs[i], accounts, validators)
}

/// The outcome of checking a batch front to back: the first transaction
/// whose signature fails yields `SignatureInvalid`, the first that fails
/// ledger validation yields `InvalidTransaction`, and a batch with neither
/// passes.
pub open spec fn spec_check_batch(
    txs: Seq<Transaction>,
    accounts: Map<Seq<u8>, UserAccount>,
    validators: Map<Seq<u8>, ValidatorAccount>,
) -> Result<(), ChainError>
    decreases txs.len(),
{
    if txs.len() == 0 {
        Ok(())
    } else if !txs[0].spec_sig_ok() {
        Err(ChainError::SignatureInvalid)
    } else if !txs[0].spec_valid(accounts, validators) {
        Err(ChainError::InvalidTransaction)
    } else {
        spec_check_batch(txs.skip(1), accounts, validators)
    }
}

/// A batch check passes exactly when every transaction is admissible.
pub proof fn lemma_check_batch_ok(
    txs: Seq<Transaction>,
    accounts: Map<Seq<u8>, UserAccount>,
    validators: Map<Seq<u8>, ValidatorAccount>,
)
    ensures
        spec_check_batch(txs, accounts, validators) is Ok <==> spec_batch_admissible(
            txs,
            accounts,
            validators,
        ),
        spec_check_batch(txs, accounts, validators) matches Err(e) ==> (e
            == ChainError::SignatureInvalid || e == ChainError::InvalidTransaction),
    decreases txs.len(),
{
    if txs.len() > 0 {
        lemma_check_batch_ok(txs.skip(1), accounts, validators);
        assert(forall|i: int| 0 <= i < txs.skip(1).len() ==> txs.skip(1)[i] == txs[i + 1]);
        if spec_tx_admissible(txs[0], accounts, validators) && spec_batch_admissible(
            txs.skip(1),
            accounts,
            validators,
        ) {
            assert forall|i: int| 0 <= i < txs.len() implies spec_tx_admissible(
                #[trigger] txs[i],
                accounts,
                validators,
            ) by {
                if i > 0 {
                    assert(txs.skip(1)[i - 1] == txs[i]);
                }
            }
        }
    }
}

/// Check a batch of transactions against the ledger, front to back.
pub fn check_transactions(txs: &Vec<Transaction>, db: &AccountsDB) -> (r: Result<(), ChainError>)
    ensures
        r == spec_check_batch(txs@, db.accounts(), db.validators()),
{
    let n = txs.len();
    let mut i: usize = 0;
    proof {
        assert(txs@.skip(0) =~= txs@);
    }
    while i < n
        invariant
            0 <= i <= n,
            n == txs@.len(),
            spec_check_batch(txs@, db.accounts(), db.validators()) == spec_check_batch(
                txs@.skip(i as int),
                db.accounts(),
                db.validators(),
            ),
        decreases n - i,
    {
        let tx = txs[i];
        proof {
            assert(txs@.skip(i as int)[0] == txs@[i as int]);
        }
        let signer = tx.get_signer();
        if !tx.verify_signature(&signer) {
            return Err(ChainError::SignatureInvalid);
        }
        if !tx.validate(db) {
            return Err(ChainError::InvalidTransaction);
        }
        proof {
            assert(txs@.skip(i as int).skip(1) =~= txs@.skip(i + 1 as int));
        }
        i += 1;
    }
    proof {
        assert(txs@.skip(n as int) =~= Seq::<Transaction>::empty());
    }
    Ok(())
}

/// The key of the stake-maximal validator, ties broken towards the
/// lexicographically smallest key.
pub open spec fn spec_is_leader_key(
    k: Seq<u8>,
    validators: Map<Seq<u8>, ValidatorAccount>,
) -> bool {
    &&& validators.contains_key(k)
    &&& forall|k2: Seq<u8>|
        #[trigger] validators.contains_key(k2) ==> validators[k2].stake <= validators[k].stake
    &&& forall|k2: Seq<u8>|
        #[trigger] validators.contains_key(k2) && validators[k2].stake == validators[k].stake
            ==> lex_le(k, k2)
}

/// Whether `pk` is the public key stored in the leading validator's account.
pub open spec fn spec_is_leader(pk: Seq<u8>, validators: Map<Seq<u8>, ValidatorAccount>) -> bool {
    exists|k: Seq<u8>|
        #[trigger] spec_is_leader_key(k, validators) && validators[k].public_key@ == pk
}

/// The leader key is unique: the stake maximum pins the stake, and the
/// lexicographic tie-break pins the key.
pub proof fn lemma_leader_key_unique(
    k1: Seq<u8>,
    k2: Seq<u8>,
    validators: Map<Seq<u8>, ValidatorAccount>,
)
    requires
        spec_is_leader_key(k1, validators),
        spec_is_leader_key(k2, validators),
    ensures
        k1 == k2,
{
    assert(validators[k1].stake <= validators[k2].stake);
    assert(validators[k2].stake <= validators[k1].stake);
    assert(lex_le(k1, k2));
    assert(lex_le(k2, k1));
    if k1 != k2 {
        crate::byteops::lemma_lex_lt_asymmetric(k1, k2);
    }
}

/// Builds and checks candidate blocks. The ledger and pool it works against
/// are handed in by the caller, which holds them for the whole process.
#[derive(Clone, Copy, Debug, PartialEq, Eq, Structural)]
pub struct BlockBuilder;

impl BlockBuilder {
    /// A fresh builder.
    pub fn new() -> (r: BlockBuilder)
        ensures
            r == (BlockBuilder),
    {
        BlockBuilder
    }

    /// The distinguished genesis block.
    pub fn build_genesis(&self) -> (r: Block)
        ensures
            r.transactions@.len() == 0,
            r.hash@ == genesis_hash(),
            r.prev_hash@ == genesis_hash(),
    {
        Block::create_genesis()
    }

    /// Build a candidate block chained to `prev_hash`. With fewer pending
    /// transactions than the batch threshold the genesis block comes back as
    /// an idle signal. Otherwise a batch is drawn from the pool and every
    /// transaction re-verified and re-validated; one bad transaction aborts
    /// the whole build, so a pool whose every entry is admissible is owed a
    /// block.
    pub fn build(&self, db: &AccountsDB, mempool: &Mempool, prev_hash: Blockhash) -> (r: Result<
        Block,
        ChainError,
    >)
        ensures
            mempool.pool().len() < MAX_TRANSACTIONS_PER_BLOCK ==> (r matches Ok(b)
                && b.transactions@.len() == 0 && b.hash@ == genesis_hash() && b.prev_hash@
                == genesis_hash()),
            mempool.pool().len() >= MAX_TRANSACTIONS_PER_BLOCK ==> (match r {
                Ok(block) => {
                    &&& block.prev_hash@ == prev_hash@
                    &&& block.transactions@.len() == MAX_TRANSACTIONS_PER_BLOCK
                    &&& spec_txs_from_pool(block.transactions@, mempool.pool())
                    &&& spec_txs_from_distinct_entries(block.transactions@, mempool.pool())
                    &&& spec_batch_admissible(
                        block.transactions@,
                        db.accounts(),
                        db.validators(),
                    )
                    &&& block.wf()
                },
                Err(e) => {
                    &&& (e == ChainError::SignatureInvalid || e == ChainError::InvalidTransaction)
                    &&& exists|id: u64|
                        #[trigger] mempool.pool().contains_key(id) && !spec_tx_admissible(
                            mempool.pool()[id],
                            db.accounts(),
                            db.validators(),
                        )
                },
            }),
    {
        if mempool.len() >= MAX_TRANSACTIONS_PER_BLOCK {
            let transactions = mempool.get_transactions_for_block();
            match check_transactions(&transactions, db) {
                Ok(_) => {
                    proof {
                        lemma_check_batch_ok(transactions@, db.accounts(), db.validators());
                    }
                    Ok(Block::new(transactions, prev_hash))
                },
                Err(e) => {
                    proof {
                        lemma_check_batch_ok(transactions@, db.accounts(), db.validators());
                        let i = choose|i: int|
                            0 <= i < transactions@.len() && !spec_tx_admissible(
                                #[trigger] transactions@[i],
                                db.accounts(),
                                db.validators(),
                            );
                        let id = choose|id: u64|
                            mempool.pool().contains_key(id) && mempool.pool()[id]
                                == transactions@[i];
                        assert(mempool.pool().contains_key(id) && !spec_tx_admissible(
                            mempool.pool()[id],
                            db.accounts(),
                            db.validators(),
                        ));
                    }
                    Err(e)
                },
            }
        } else {
            Ok(self.build_genesis())
        }
    }

    /// Re-run signature and ledger validation over every transaction of an
    /// already-built block, read-only. Passes exactly when every transaction
    /// is admissible.
    pub fn validate_block(&self, db: &AccountsDB, block: &Block) -> (r: Result<(), ChainError>)
        ensures
            r == spec_check_batch(block.transactions@, db.accounts(), db.validators()),
            r is Ok <==> spec_batch_admissible(
                block.transactions@,
                db.accounts(),
                db.validators(),
            ),
    {
        let r = check_transactions(&block.transactions, db);
        proof {
            lemma_check_batch_ok(block.transactions@, db.accounts(), db.validators());
        }
        r
    }

    /// The registered validator with the maximum stake; a tie goes to the
    /// lexicographically smallest registered key, so the leader is a
    /// function of the store's contents alone.
    pub fn get_leader(&self, db: &AccountsDB) -> (r: ValidatorAccount)
        requires
            db.validators().len() > 0,
        ensures
            exists|k: Seq<u8>|
                #[trigger] spec_is_leader_key(k, db.validators()) && r == db.validators()[k],
    {
        let mut entries = db.validator_entries();
        let ghost entries_seq = entries@;
        let n = entries.len();
        let mut best: usize = 0;
        let mut i: usize = 1;
        while i < n
            invariant
                entries@ == entries_seq,
                n == entries_seq.len(),
                entries_seq.len() == db.validators().len(),
                db.validators().len() > 0,
                forall|j: int|
                    0 <= j < entries_seq.len() ==> db.validators().contains_key(
                        (#[trigger] entries_seq[j]).0@,
                    ) && db.validators()[entries_seq[j].0@] == entries_seq[j].1,
                forall|j: int, l: int|
                    0 <= j < l < entries_seq.len() ==> entries_seq[j].0@ != entries_seq[l].0@,
                forall|k: Seq<u8>|
                    db.validators().contains_key(k) ==> exists|j: int|
                        0 <= j < entries_seq.len() && (#[trigger] entries_seq[j]).0@ == k,
                0 <= best < i <= n,
                forall|j: int|
                    0 <= j < i ==> (#[trigger] entries_seq[j]).1.stake <= entries_seq[best as int].1.stake,
                forall|j: int|
                    0 <= j < i && (#[trigger] entries_seq[j]).1.stake == entries_seq[best as int].1.stake
                        ==> lex_le(entries_seq[best as int].0@, entries_seq[j].0@),
            decreases n - i,
        {
            let cand_stake = entries[i].1.stake;
            let best_stake = entries[best].1.stake;
            if cand_stake > best_stake {
                best = i;
            } else if cand_stake == best_stake {
                let order = lex_cmp32(&entries[i].0, &entries[best].0);
                if order == KeyOrder::Less {
                    proof {
                        let candk = entries_seq[i as int].0@;
                        let bestk = entries_seq[best as int].0@;
                        assert forall|j: int|
                            0 <= j < i + 1 && (#[trigger] entries_seq[j]).1.stake
                                == entries_seq[i as int].1.stake implies lex_le(
                            candk,
                            entries_seq[j].0@,
                        ) by {
                            if j < i {
                                assert(lex_le(bestk, entries_seq[j].0@));
                                if bestk == entries_seq[j].0@ {
                                    assert(lex_lt(candk, entries_seq[j].0@));
                                } else {
                                    lemma_lex_lt_transitive(candk, bestk, entries_seq[j].0@);
                                }
                            }
                        }
                    }
                    best = i;
                }
            }
            i += 1;
        }
        proof {
            let bestk = entries_seq[best as int].0@;
            assert(db.validators().contains_key(bestk));
            assert(db.validators()[bestk] == entries_seq[best as int].1);
            assert forall|k2: Seq<u8>| #[trigger]
                db.validators().contains_key(k2) implies db.validators()[k2].stake
                <= db.validators()[bestk].stake by {
                let j = choose|j: int|
                    0 <= j < entries_seq.len() && (#[trigger] entries_seq[j]).0@ == k2;
                assert(db.validators()[k2] == entries_seq[j].1);
            }
            assert forall|k2: Seq<u8>| #[trigger]
                db.validators().contains_key(k2) && db.validators()[k2].stake
                == db.validators()[bestk].stake implies lex_le(bestk, k2) by {
                let j = choose|j: int|
                    0 <= j < entries_seq.len() && (#[trigger] entries_seq[j]).0@ == k2;
                assert(db.validators()[k2] == entries_seq[j].1);
                assert(lex_le(bestk, entries_seq[j].0@));
            }
            assert(spec_is_leader_key(bestk, db.validators()));
        }
        let winner = entries.remove(best);
        winner.1
    }
}

} // verus!
