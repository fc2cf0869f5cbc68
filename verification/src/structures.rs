//! The data model: keys, errors, accounts, transactions and blocks.

use vstd::prelude::*;
use vstd::bytes::{spec_u64_to_le_bytes, u64_to_le_bytes};
use vstd::slice::slice_to_vec;

use crate::byteops::{bytes32_eq, bytes64_eq, lemma_take_contains};
use crate::db::AccountsDB;
use crate::pool::{
    spec_prune_all, spec_txs_from_distinct_entries, spec_txs_from_pool, Mempool,
    MAX_TRANSACTIONS_PER_BLOCK,
};
use crate::crypto::{
    generate_keypair, hex_encode, hex_of, now_seconds, pubkey_of, sha256, sha256_of, sig_verifies,
    sign_bytes, signature_of, verify_bytes,
};

verus! {

/// A block hash: 32 bytes.
pub type Blockhash = [u8; 32];

/// An account identity: the 32 public-key bytes.
pub type Pubkey = [u8; 32];

/// A secret key: 32 bytes, held only by its owning identity.
pub type Seckey = [u8; 32];

/// A signature: 64 bytes.
pub type SigBytes = [u8; 64];

/// A display-only hex encoding of a public key.
pub type Address = String;

/// Every way a ledger operation can be refused.
#[derive(Clone, Copy, Debug, PartialEq, Eq, Structural)]
pub enum ChainError {
    /// A signature does not verify against its claimed signer.
    SignatureInvalid,
    /// A referenced user account is absent from the ledger.
    AccountNotFound,
    /// A referenced validator is absent from the ledger.
    ValidatorNotFound,
    /// A debit would leave the paying account at or below zero.
    InsufficientBalance,
    /// Some transaction of a candidate block fails validation.
    InvalidTransaction,
    /// A transaction failed during commit after its block was accepted.
    ExecutionFailed,
}

/// The reserved all-ones sentinel that marks the genesis block's hashes.
pub open spec fn genesis_hash() -> Seq<u8> {
    Seq::new(32, |i: int| 1u8)
}

/// A transaction that moves `amt` from `from` to `to`; signer = `from`.
///
/// The nonce is carried in the signed bytes so a submitter can make two
/// otherwise equal transactions distinct; replay protection is out of scope
/// here, and admission never compares it against the account's stored nonce.
#[derive(Clone, Copy, Debug, PartialEq)]
pub struct TransferTransaction {
    pub to: Pubkey,
    pub from: Pubkey,
    pub amt: u64,
    pub nonce: u64,
    pub signature: SigBytes,
}

/// A transaction that moves `amt` of `staker`'s balance onto `validator`'s
/// stake; signer = `staker`. The nonce is carried as in a transfer, and is
/// likewise never checked against the account's stored nonce.
#[derive(Clone, Copy, Debug, PartialEq)]
pub struct StakeTransaction {
    pub validator: Pubkey,
    pub staker: Pubkey,
    pub amt: u64,
    pub nonce: u64,
    pub signature: SigBytes,
}

/// The closed set of transaction kinds.
#[derive(Clone, Copy, Debug, PartialEq)]
pub enum Transaction {
    Stake(StakeTransaction),
    Transfer(TransferTransaction),
}

impl TransferTransaction {
    /// A fresh transfer carrying the all-zero placeholder signature.
    pub fn new(to: Pubkey, from: Pubkey, amt: u64, nonce: u64) -> (r: TransferTransaction)
        ensures
            r.to@ == to@,
            r.from@ == from@,
            r.amt == amt,
            r.nonce == nonce,
            r.signature@ == Seq::new(64, |i: int| 0u8),
    {
        let signature: SigBytes = [0u8; 64];
        proof {
            assert(signature@ =~= Seq::new(64, |i: int| 0u8));
        }
        TransferTransaction { to, from, amt, nonce, signature }
    }
}

impl StakeTransaction {
    /// A fresh stake transaction carrying the all-zero placeholder signature.
    pub fn new(validator: Pubkey, staker: Pubkey, amt: u64, nonce: u64) -> (r: StakeTransaction)
        ensures
            r.validator@ == validator@,
            r.staker@ == staker@,
            r.amt == amt,
            r.nonce == nonce,
            r.signature@ == Seq::new(64, |i: int| 0u8),
    {
        let signature: SigBytes = [0u8; 64];
        proof {
            assert(signature@ =~= Seq::new(64, |i: int| 0u8));
        }
        StakeTransaction { validator, staker, amt, nonce, signature }
    }
}

impl Transaction {
    /// The public key a transaction's signature must verify against.
    pub open spec fn spec_signer(&self) -> Seq<u8> {
        match self {
            Transaction::Stake(tx) => tx.staker@,
            Transaction::Transfer(tx) => tx.from@,
        }
    }

    /// Whether the signature verifies against the claimed signer.
    pub open spec fn spec_sig_ok(&self) -> bool {
        sig_verifies(self.spec_signer(), self.spec_serialized(), self.spec_signature())
    }

    /// The claimed signer: `staker` for a stake, `from` for a transfer.
    pub fn get_signer(&self) -> (r: Pubkey)
        ensures
            r@ == self.spec_signer(),
    {
        match self {
            Transaction::Stake(tx) => tx.staker,
            Transaction::Transfer(tx) => tx.from,
        }
    }
}

/// A staking or user identity that can produce signatures.
pub trait Signer {
    /// The stored public-key bytes.
    spec fn spec_public_key(&self) -> Seq<u8>;

    /// The stored secret-key bytes.
    spec fn spec_secret_key(&self) -> Seq<u8>;

    /// The identity's public key.
    fn public_key(&self) -> (r: &Pubkey)
        ensures
            r@ == self.spec_public_key(),
    ;

    /// The identity's secret key.
    fn secret_key(&self) -> (r: &Seckey)
        ensures
            r@ == self.spec_secret_key(),
    ;
}

/// A user account: identity, spendable balance and nonce.
#[derive(Debug, PartialEq, Eq, Clone)]
pub struct UserAccount {
    pub address: Address,
    pub public_key: Pubkey,
    pub balance: u64,
    pub nonce: u64,
    pub secret_key: Seckey,
}

impl Signer for UserAccount {
    open spec fn spec_public_key(&self) -> Seq<u8> {
        self.public_key@
    }

    open spec fn spec_secret_key(&self) -> Seq<u8> {
        self.secret_key@
    }

    fn public_key(&self) -> (r: &Pubkey) {
        &self.public_key
    }

    fn secret_key(&self) -> (r: &Seckey) {
        &self.secret_key
    }
}

impl UserAccount {
    /// The stored public key is the one derived from the stored secret key.
    pub open spec fn wf(&self) -> bool {
        self.public_key@ == pubkey_of(self.spec_secret_key())
    }

    /// A fresh account with a newly generated keypair, zero balance and
    /// zero nonce; its address is the hex encoding of its public key.
    pub fn new() -> (r: UserAccount)
        ensures
            r.balance == 0,
            r.nonce == 0,
            r.wf(),
            r.address@ == hex_of(r.public_key@),
    {
        let (public_key, secret_key) = generate_keypair();
        let address = hex_encode(public_key.as_slice());
        UserAccount { address, public_key, balance: 0, nonce: 0, secret_key }
    }

    /// Sign a transfer's payload with this account's secret key and store
    /// the signature in the transaction.
    pub fn sign_transaction(&self, transaction: &mut TransferTransaction)
        ensures
            final(transaction).to == old(transaction).to,
            final(transaction).from == old(transaction).from,
            final(transaction).amt == old(transaction).amt,
            final(transaction).nonce == old(transaction).nonce,
            final(transaction).spec_serialized() == old(transaction).spec_serialized(),
            final(transaction).signature@ == signature_of(
                self.spec_secret_key(),
                old(transaction).spec_serialized(),
            ),
            sig_verifies(
                pubkey_of(self.spec_secret_key()),
                old(transaction).spec_serialized(),
                final(transaction).signature@,
            ),
    {
        let data = transaction.serialize();
        let sig = sign_bytes(&self.secret_key, data.as_slice());
        transaction.signature = sig;
    }
}

/// A validator account: identity, voting stake, and the hash of the last
/// block it saw finalized.
#[derive(Debug, Clone)]
pub struct ValidatorAccount {
    pub address: Address,
    pub public_key: Pubkey,
    pub stake: u64,
    pub builder: crate::builder::BlockBuilder,
    pub last_finalized_hash: Blockhash,
    pub secret_key: Seckey,
}

impl Signer for ValidatorAccount {
    open spec fn spec_public_key(&self) -> Seq<u8> {
        self.public_key@
    }

    open spec fn spec_secret_key(&self) -> Seq<u8> {
        self.secret_key@
    }

    fn public_key(&self) -> (r: &Pubkey) {
        &self.public_key
    }

    fn secret_key(&self) -> (r: &Seckey) {
        &self.secret_key
    }
}

impl ValidatorAccount {
    /// The hash of the last block this validator saw finalized.
    pub open spec fn spec_last_finalized_hash(&self) -> Seq<u8> {
        self.last_finalized_hash@
    }

    /// The stored public key is the one derived from the stored secret key.
    pub open spec fn wf(&self) -> bool {
        self.public_key@ == pubkey_of(self.spec_secret_key())
    }

    /// A fresh validator with a newly generated keypair, zero stake, and the
    /// genesis sentinel as its last finalized hash.
    pub fn new(builder: crate::builder::BlockBuilder) -> (r: ValidatorAccount)
        ensures
            r.stake == 0,
            r.wf(),
            r.address@ == hex_of(r.public_key@),
            r.spec_last_finalized_hash() == genesis_hash(),
            r.builder == builder,
    {
        let (public_key, secret_key) = generate_keypair();
        let address = hex_encode(public_key.as_slice());
        let last_finalized_hash: Blockhash = [1u8; 32];
        proof {
            assert(last_finalized_hash@ =~= genesis_hash());
        }
        ValidatorAccount { address, public_key, stake: 0, builder, last_finalized_hash, secret_key }
    }

    /// Record a newly finalized block hash.
    pub fn update_last_finalized_hash(&mut self, new_hash: Blockhash)
        ensures
            final(self).spec_last_finalized_hash() == new_hash@,
            final(self).address == old(self).address,
            final(self).public_key == old(self).public_key,
            final(self).stake == old(self).stake,
            final(self).builder == old(self).builder,
            final(self).spec_secret_key() == old(self).spec_secret_key(),
    {
        self.last_finalized_hash = new_hash;
    }
}

/// How many validators vote for a candidate batch: every registered one
/// when the batch is admissible, none otherwise, since each validator
/// re-validates the same batch against the same ledger.
pub open spec fn spec_vote_count(
    txs: Seq<Transaction>,
    accounts: Map<Seq<u8>, UserAccount>,
    validators: Map<Seq<u8>, ValidatorAccount>,
) -> nat {
    if crate::builder::spec_batch_admissible(txs, accounts, validators) {
        validators.len()
    } else {
        0
    }
}

/// What one tick of the consensus loop decided.
#[derive(Debug)]
pub enum RoundOutcome {
    /// This validator is not the current leader; nothing happened.
    NotLeader,
    /// The pool is below the batch threshold: the cooperative shutdown
    /// signal.
    Idle,
    /// The candidate could not be built; retry next tick.
    BuildFailed(ChainError),
    /// The candidate did not gather a majority; the pool is untouched.
    /// With votes collected in-process against the one shared store, every
    /// validator judges a built candidate the same way, so this outcome is
    /// proved unreachable; it stands for deployments where votes arrive
    /// from elsewhere.
    Rejected,
    /// The candidate was finalized: its transactions were applied to the
    /// ledger and removed from the pool, and every validator's last
    /// finalized hash was advanced to its hash.
    Finalized(Block),
    /// A transaction failed during commit after the block was accepted.
    CommitFailed(ChainError),
}

impl ValidatorAccount {
    /// This validator's vote on a candidate block: whether it re-validates
    /// against the ledger.
    pub fn vote(&self, db: &AccountsDB, block: &Block) -> (r: bool)
        ensures
            r == crate::builder::spec_batch_admissible(
                block.transactions@,
                db.accounts(),
                db.validators(),
            ),
    {
        self.builder.validate_block(db, block).is_ok()
    }

    /// One tick of the proposal/voting loop: determine the leader, report an
    /// idle pool if leading with fewer pending transactions than the batch
    /// threshold, otherwise build a candidate, collect one vote per
    /// registered validator, and on majority apply the block to the ledger,
    /// prune its transactions from the pool, and advance every validator's
    /// last finalized hash. The idle signal is an explicit outcome decided
    /// by the pool's size, never read off a block's hash.
    #[verifier::loop_isolation(false)]
    pub fn run_round(&self, db: &mut AccountsDB, mempool: &mut Mempool) -> (r: RoundOutcome)
        requires
            old(db).validators().len() > 0,
        ensures
            (r == RoundOutcome::NotLeader <==> !crate::builder::spec_is_leader(
                self.public_key@,
                old(db).validators(),
            )),
            (r == RoundOutcome::NotLeader || r == RoundOutcome::Idle || r
                == RoundOutcome::Rejected || r matches RoundOutcome::BuildFailed(_)) ==> final(db).accounts() == old(db).accounts() && final(db).validators() == old(db).validators()
                && final(mempool).pool() == old(mempool).pool()
                && final(mempool).spec_counter() == old(mempool).spec_counter(),
            (r == RoundOutcome::Idle <==> crate::builder::spec_is_leader(
                self.public_key@,
                old(db).validators(),
            ) && old(mempool).pool().len() < MAX_TRANSACTIONS_PER_BLOCK),
            r matches RoundOutcome::BuildFailed(e) ==> (e == ChainError::SignatureInvalid || e
                == ChainError::InvalidTransaction) && (exists|id: u64|
                #[trigger] old(mempool).pool().contains_key(id)
                    && !crate::builder::spec_tx_admissible(
                    old(mempool).pool()[id],
                    old(db).accounts(),
                    old(db).validators(),
                )),
            r matches RoundOutcome::Finalized(block) ==> {
                &&& block.wf()
                &&& block.prev_hash@ == self.last_finalized_hash@
                &&& block.transactions@.len() == MAX_TRANSACTIONS_PER_BLOCK
                &&& spec_txs_from_pool(block.transactions@, old(mempool).pool())
                &&& spec_txs_from_distinct_entries(block.transactions@, old(mempool).pool())
                &&& crate::builder::spec_batch_admissible(
                    block.transactions@,
                    old(db).accounts(),
                    old(db).validators(),
                )
                &&& spec_vote_count(block.transactions@, old(db).accounts(), old(db).validators())
                    >= old(db).validators().len() / 2 + 1
                &&& crate::db::spec_apply_batch(
                    old(db).accounts(),
                    old(db).validators(),
                    block.transactions@,
                ).2 is Ok
                &&& final(db).accounts() == crate::db::spec_apply_batch(
                    old(db).accounts(),
                    old(db).validators(),
                    block.transactions@,
                ).0
                &&& final(db).validators() == crate::db::spec_set_hashes(
                    crate::db::spec_apply_batch(
                        old(db).accounts(),
                        old(db).validators(),
                        block.transactions@,
                    ).1,
                    block.hash,
                )
                &&& final(mempool).pool() == spec_prune_all(
                    old(mempool).pool(),
                    block.transactions@,
                )
                &&& final(mempool).spec_counter() == old(mempool).spec_counter()
            },
            r != RoundOutcome::Rejected,
            r matches RoundOutcome::CommitFailed(e) ==> final(mempool).pool() == old(mempool).pool() && (exists|txs: Seq<Transaction>|
                {
                    &&& #[trigger] crate::db::spec_apply_batch(
                        old(db).accounts(),
                        old(db).validators(),
                        txs,
                    ).2 == Err::<(), ChainError>(e)
                    &&& spec_txs_from_pool(txs, old(mempool).pool())
                    &&& txs.len() == MAX_TRANSACTIONS_PER_BLOCK
                    &&& crate::builder::spec_batch_admissible(
                        txs,
                        old(db).accounts(),
                        old(db).validators(),
                    )
                    &&& final(db).accounts() == crate::db::spec_apply_batch(
                        old(db).accounts(),
                        old(db).validators(),
                        txs,
                    ).0
                    &&& final(db).validators() == crate::db::spec_apply_batch(
                        old(db).accounts(),
                        old(db).validators(),
                        txs,
                    ).1
                }),
    {
        let leader = self.builder.get_leader(db);
        if !bytes32_eq(&leader.public_key, &self.public_key) {
            proof {
                let k = choose|k: Seq<u8>|
                    #[trigger] crate::builder::spec_is_leader_key(k, db.validators()) && leader
                        == db.validators()[k];
                if crate::builder::spec_is_leader(self.public_key@, db.validators()) {
                    let k2 = choose|k2: Seq<u8>|
                        #[trigger] crate::builder::spec_is_leader_key(k2, db.validators())
                            && db.validators()[k2].public_key@ == self.public_key@;
                    crate::builder::lemma_leader_key_unique(k, k2, db.validators());
                }
            }
            return RoundOutcome::NotLeader;
        }
        proof {
            let k = choose|k: Seq<u8>|
                #[trigger] crate::builder::spec_is_leader_key(k, db.validators()) && leader
                    == db.validators()[k];
            assert(db.validators()[k].public_key@ == self.public_key@);
            assert(crate::builder::spec_is_leader(self.public_key@, db.validators()));
        }
        if mempool.len() < MAX_TRANSACTIONS_PER_BLOCK {
            return RoundOutcome::Idle;
        }
        let build_result = self.builder.build(db, mempool, self.last_finalized_hash);
        let block = match build_result {
            Ok(b) => b,
            Err(e) => {
                return RoundOutcome::BuildFailed(e);
            },
        };
        let entries = db.validator_entries();
        let total = entries.len();
        let mut votes: usize = 0;
        let mut j: usize = 0;
        while j < total
            invariant
                0 <= j <= total,
                votes == if crate::builder::spec_batch_admissible(
                    block.transactions@,
                    db.accounts(),
                    db.validators(),
                ) {
                    j as int
                } else {
                    0
                },
            decreases total - j,
        {
            let voted = entries[j].1.vote(db, &block);
            if voted {
                votes += 1;
            }
            j += 1;
        }
        let min_votes = db.validator_count() / 2 + 1;
        proof {
            assert(total >= 1);
            assert(votes == total);
            assert(votes >= min_votes);
        }
        if votes >= min_votes {
            proof {
                assert(crate::builder::spec_batch_admissible(
                    block.transactions@,
                    db.accounts(),
                    db.validators(),
                ));
            }
            match db.finalize_block(&block) {
                Ok(_) => (),
                Err(e) => {
                    return RoundOutcome::CommitFailed(e);
                },
            };
            let ghost pool0 = mempool.pool();
            let ntx = block.transactions.len();
            let mut t: usize = 0;
            proof {
                assert(block.transactions@.take(0) =~= Seq::<Transaction>::empty());
                assert(mempool.pool() =~= Map::new(
                    |id: u64| pool0.contains_key(id) && !block.transactions@.take(0).contains(
                        pool0[id],
                    ),
                    |id: u64| pool0[id],
                ));
            }
            while t < ntx
                invariant
                    0 <= t <= ntx,
                    mempool.pool() == Map::new(
                        |id: u64| pool0.contains_key(id) && !block.transactions@.take(
                            t as int,
                        ).contains(pool0[id]),
                        |id: u64| pool0[id],
                    ),
                    mempool.spec_counter() == old(mempool).spec_counter(),
                decreases ntx - t,
            {
                mempool.remove_matching(&block.transactions[t]);
                proof {
                    let txs = block.transactions@;
                    assert forall|id: u64| #[trigger]
                        mempool.pool().contains_key(id) <==> (pool0.contains_key(id)
                            && !txs.take(t + 1 as int).contains(pool0[id])) by {
                        if pool0.contains_key(id) {
                            lemma_take_contains(txs, t as int, pool0[id]);
                        }
                    }
                    assert(mempool.pool() =~= Map::new(
                        |id: u64| pool0.contains_key(id) && !txs.take(t + 1 as int).contains(
                            pool0[id],
                        ),
                        |id: u64| pool0[id],
                    ));
                }
                t += 1;
            }
            proof {
                assert(block.transactions@.take(ntx as int) =~= block.transactions@);
                assert(mempool.pool() =~= spec_prune_all(pool0, block.transactions@));
            }
            db.update_validator_hashes(block.hash);
            RoundOutcome::Finalized(block)
        } else {
            RoundOutcome::Rejected
        }
    }
}

/// Either kind of signing identity.
pub enum Account {
    UserAccount(UserAccount),
    ValidatorAccount(ValidatorAccount),
}

impl Signer for Account {
    open spec fn spec_public_key(&self) -> Seq<u8> {
        match self {
            Account::UserAccount(user) => user.spec_public_key(),
            Account::ValidatorAccount(validator) => validator.spec_public_key(),
        }
    }

    open spec fn spec_secret_key(&self) -> Seq<u8> {
        match self {
            Account::UserAccount(user) => user.spec_secret_key(),
            Account::ValidatorAccount(validator) => validator.spec_secret_key(),
        }
    }

    fn public_key(&self) -> (r: &Pubkey) {
        match self {
            Account::UserAccount(user) => user.public_key(),
            Account::ValidatorAccount(validator) => validator.public_key(),
        }
    }

    fn secret_key(&self) -> (r: &Seckey) {
        match self {
            Account::UserAccount(user) => user.secret_key(),
            Account::ValidatorAccount(validator) => validator.secret_key(),
        }
    }
}

/// The capability interface of a transaction: serializing, signing and
/// signature checking, validation against a ledger, and execution on it.
pub trait TransactionSign: Sized {
    /// The signed byte layout, the signature itself excluded.
    spec fn spec_serialized(&self) -> Seq<u8>;

    /// The stored signature bytes.
    spec fn spec_signature(&self) -> Seq<u8>;

    /// Whether the transaction passes admission checks against the given
    /// ledger contents: referenced identities exist, the signature verifies
    /// against the stored signer account's key, and the paying balance
    /// covers the amount.
    spec fn spec_valid(
        &self,
        accounts: Map<Seq<u8>, UserAccount>,
        validators: Map<Seq<u8>, ValidatorAccount>,
    ) -> bool;

    /// The ledger contents after executing the transaction, together with
    /// the outcome: re-validation happens first, then the debit (which
    /// refuses an exact drain), then the credit or stake increase.
    spec fn spec_execute(
        &self,
        accounts: Map<Seq<u8>, UserAccount>,
        validators: Map<Seq<u8>, ValidatorAccount>,
    ) -> (Map<Seq<u8>, UserAccount>, Map<Seq<u8>, ValidatorAccount>, Result<(), ChainError>);

    /// The stored signature.
    fn get_signature(&self) -> (r: &SigBytes)
        ensures
            r@ == self.spec_signature(),
    ;

    /// Replace the stored signature, leaving the signed payload unchanged.
    fn set_signature(&mut self, sig: SigBytes)
        ensures
            final(self).spec_signature() == sig@,
            final(self).spec_serialized() == old(self).spec_serialized(),
    ;

    /// The signed byte layout of this transaction.
    fn serialize(&self) -> (r: Vec<u8>)
        ensures
            r@ == self.spec_serialized(),
    ;

    /// Check the transaction against the ledger.
    fn validate(&self, db: &AccountsDB) -> (r: bool)
        ensures
            r == self.spec_valid(db.accounts(), db.validators()),
    ;

    /// Apply the transaction to the ledger.
    fn execute(&self, db: &mut AccountsDB) -> (r: Result<(), ChainError>)
        ensures
            final(db).accounts() == self.spec_execute(
                old(db).accounts(),
                old(db).validators(),
            ).0,
            final(db).validators() == self.spec_execute(
                old(db).accounts(),
                old(db).validators(),
            ).1,
            r == self.spec_execute(old(db).accounts(), old(db).validators()).2,
    ;

    /// Sign the serialized payload with the given identity's secret key and
    /// store the signature.
    fn sign(&mut self, signer: &Account)
        ensures
            final(self).spec_serialized() == old(self).spec_serialized(),
            final(self).spec_signature() == signature_of(
                signer.spec_secret_key(),
                old(self).spec_serialized(),
            ),
            sig_verifies(
                pubkey_of(signer.spec_secret_key()),
                old(self).spec_serialized(),
                final(self).spec_signature(),
            ),
    ;

    /// Whether the stored signature verifies the serialized payload under
    /// the given public key.
    fn verify_signature(&self, signer: &Pubkey) -> (r: bool)
        ensures
            r == sig_verifies(signer@, self.spec_serialized(), self.spec_signature()),
    ;
}

impl TransactionSign for TransferTransaction {
    /// `to || from || nonce (le) || amt (le)`.
    open spec fn spec_serialized(&self) -> Seq<u8> {
        self.to@ + self.from@ + spec_u64_to_le_bytes(self.nonce) + spec_u64_to_le_bytes(self.amt)
    }

    open spec fn spec_signature(&self) -> Seq<u8> {
        self.signature@
    }

    /// `from` and `to` exist, the signature verifies against the key stored
    /// in the `from` account, and `from`'s balance covers the amount.
    open spec fn spec_valid(
        &self,
        accounts: Map<Seq<u8>, UserAccount>,
        validators: Map<Seq<u8>, ValidatorAccount>,
    ) -> bool {
        &&& accounts.contains_key(self.from@)
        &&& accounts.contains_key(self.to@)
        &&& sig_verifies(
            accounts[self.from@].public_key@,
            self.spec_serialized(),
            self.signature@,
        )
        &&& accounts[self.from@].balance >= self.amt
    }

    /// Re-validate, debit `from` under the strict policy, then credit `to`.
    open spec fn spec_execute(
        &self,
        accounts: Map<Seq<u8>, UserAccount>,
        validators: Map<Seq<u8>, ValidatorAccount>,
    ) -> (Map<Seq<u8>, UserAccount>, Map<Seq<u8>, ValidatorAccount>, Result<(), ChainError>) {
        if !self.spec_valid(accounts, validators) {
            (accounts, validators, Err(ChainError::InvalidTransaction))
        } else if accounts[self.from@].balance <= self.amt {
            (accounts, validators, Err(ChainError::ExecutionFailed))
        } else {
            let debited = accounts.insert(
                self.from@,
                crate::db::spec_debit(accounts[self.from@], self.amt),
            );
            let credited = debited.insert(
                self.to@,
                crate::db::spec_credit(debited[self.to@], self.amt),
            );
            (credited, validators, Ok(()))
        }
    }

    fn get_signature(&self) -> (r: &SigBytes) {
        &self.signature
    }

    fn set_signature(&mut self, sig: SigBytes)
        ensures
            *final(self) == (TransferTransaction { signature: sig, ..*old(self) }),
    {
        self.signature = sig;
    }

    fn serialize(&self) -> (r: Vec<u8>) {
        let mut data: Vec<u8> = slice_to_vec(self.to.as_slice());
        let mut part = slice_to_vec(self.from.as_slice());
        data.append(&mut part);
        let mut nonce_bytes = u64_to_le_bytes(self.nonce);
        data.append(&mut nonce_bytes);
        let mut amt_bytes = u64_to_le_bytes(self.amt);
        data.append(&mut amt_bytes);
        proof {
            assert(data@ =~= self.spec_serialized());
        }
        data
    }

    fn validate(&self, db: &AccountsDB) -> (r: bool) {
        let from = match db.get_account(&self.from) {
            Some(account) => account,
            None => return false,
        };
        match db.get_account(&self.to) {
            Some(_) => (),
            None => return false,
        };
        if !self.verify_signature(from.public_key()) {
            return false;
        }
        if from.balance < self.amt {
            return false;
        }
        true
    }

    fn execute(&self, db: &mut AccountsDB) -> (r: Result<(), ChainError>) {
        if !self.validate(db) {
            return Err(ChainError::InvalidTransaction);
        }
        let from = db.get_account(&self.from).unwrap();
        if from.balance < self.amt {
            return Err(ChainError::ExecutionFailed);
        }
        match db.decrease_account_balance(&self.from, self.amt) {
            Ok(_) => (),
            Err(_) => return Err(ChainError::ExecutionFailed),
        };
        match db.increase_account_balance(&self.to, self.amt) {
            Ok(_) => (),
            Err(_) => return Err(ChainError::ExecutionFailed),
        };
        Ok(())
    }

    fn sign(&mut self, signer: &Account)
        ensures
            final(self).to == old(self).to,
            final(self).from == old(self).from,
            final(self).amt == old(self).amt,
            final(self).nonce == old(self).nonce,
    {
        let data = self.serialize();
        let sig = sign_bytes(signer.secret_key(), data.as_slice());
        self.set_signature(sig);
    }

    fn verify_signature(&self, signer: &Pubkey) -> (r: bool) {
        let data = self.serialize();
        verify_bytes(signer, data.as_slice(), self.get_signature())
    }
}

impl TransactionSign for StakeTransaction {
    /// `validator || staker || nonce (le) || amt (le)`.
    open spec fn spec_serialized(&self) -> Seq<u8> {
        self.validator@ + self.staker@ + spec_u64_to_le_bytes(self.nonce) + spec_u64_to_le_bytes(
            self.amt,
        )
    }

    open spec fn spec_signature(&self) -> Seq<u8> {
        self.signature@
    }

    /// `validator` is registered, `staker` exists, the signature verifies
    /// against the key stored in the staker account, and the staker's
    /// balance covers the amount.
    open spec fn spec_valid(
        &self,
        accounts: Map<Seq<u8>, UserAccount>,
        validators: Map<Seq<u8>, ValidatorAccount>,
    ) -> bool {
        &&& validators.contains_key(self.validator@)
        &&& accounts.contains_key(self.staker@)
        &&& sig_verifies(
            accounts[self.staker@].public_key@,
            self.spec_serialized(),
            self.signature@,
        )
        &&& accounts[self.staker@].balance >= self.amt
    }

    /// Re-validate, debit the staker under the strict policy, then add the
    /// amount to the validator's stake.
    open spec fn spec_execute(
        &self,
        accounts: Map<Seq<u8>, UserAccount>,
        validators: Map<Seq<u8>, ValidatorAccount>,
    ) -> (Map<Seq<u8>, UserAccount>, Map<Seq<u8>, ValidatorAccount>, Result<(), ChainError>) {
        if !self.spec_valid(accounts, validators) {
            (accounts, validators, Err(ChainError::InvalidTransaction))
        } else if accounts[self.staker@].balance <= self.amt {
            (accounts, validators, Err(ChainError::ExecutionFailed))
        } else {
            let debited = accounts.insert(
                self.staker@,
                crate::db::spec_debit(accounts[self.staker@], self.amt),
            );
            let staked = validators.insert(
                self.validator@,
                crate::db::spec_add_stake(validators[self.validator@], self.amt),
            );
            (debited, staked, Ok(()))
        }
    }

    fn get_signature(&self) -> (r: &SigBytes) {
        &self.signature
    }

    fn set_signature(&mut self, sig: SigBytes)
        ensures
            *final(self) == (StakeTransaction { signature: sig, ..*old(self) }),
    {
        self.signature = sig;
    }

    fn serialize(&self) -> (r: Vec<u8>) {
        let mut data: Vec<u8> = slice_to_vec(self.validator.as_slice());
        let mut part = slice_to_vec(self.staker.as_slice());
        data.append(&mut part);
        let mut nonce_bytes = u64_to_le_bytes(self.nonce);
        data.append(&mut nonce_bytes);
        let mut amt_bytes = u64_to_le_bytes(self.amt);
        data.append(&mut amt_bytes);
        proof {
            assert(data@ =~= self.spec_serialized());
        }
        data
    }

    fn validate(&self, db: &AccountsDB) -> (r: bool) {
        if !db.is_validator(&self.validator) {
            return false;
        }
        let staker = match db.get_account(&self.staker) {
            Some(account) => account,
            None => return false,
        };
        if !self.verify_signature(staker.public_key()) {
            return false;
        }
        if staker.balance < self.amt {
            return false;
        }
        true
    }

    fn execute(&self, db: &mut AccountsDB) -> (r: Result<(), ChainError>) {
        if !self.validate(db) {
            return Err(ChainError::InvalidTransaction);
        }
        let staker = db.get_account(&self.staker).unwrap();
        if staker.balance < self.amt {
            return Err(ChainError::ExecutionFailed);
        }
        match db.decrease_account_balance(&self.staker, self.amt) {
            Ok(_) => (),
            Err(_) => return Err(ChainError::ExecutionFailed),
        };
        match db.increase_validator_stake(&self.validator, self.amt) {
            Ok(_) => (),
            Err(_) => return Err(ChainError::ExecutionFailed),
        };
        Ok(())
    }

    fn sign(&mut self, signer: &Account)
        ensures
            final(self).validator == old(self).validator,
            final(self).staker == old(self).staker,
            final(self).amt == old(self).amt,
            final(self).nonce == old(self).nonce,
    {
        let data = self.serialize();
        let sig = sign_bytes(signer.secret_key(), data.as_slice());
        self.set_signature(sig);
    }

    fn verify_signature(&self, signer: &Pubkey) -> (r: bool) {
        let data = self.serialize();
        verify_bytes(signer, data.as_slice(), self.get_signature())
    }
}

impl TransactionSign for Transaction {
    open spec fn spec_serialized(&self) -> Seq<u8> {
        match self {
            Transaction::Stake(tx) => tx.spec_serialized(),
            Transaction::Transfer(tx) => tx.spec_serialized(),
        }
    }

    open spec fn spec_signature(&self) -> Seq<u8> {
        match self {
            Transaction::Stake(tx) => tx.signature@,
            Transaction::Transfer(tx) => tx.signature@,
        }
    }

    open spec fn spec_valid(
        &self,
        accounts: Map<Seq<u8>, UserAccount>,
        validators: Map<Seq<u8>, ValidatorAccount>,
    ) -> bool {
        match self {
            Transaction::Stake(tx) => tx.spec_valid(accounts, validators),
            Transaction::Transfer(tx) => tx.spec_valid(accounts, validators),
        }
    }

    open spec fn spec_execute(
        &self,
        accounts: Map<Seq<u8>, UserAccount>,
        validators: Map<Seq<u8>, ValidatorAccount>,
    ) -> (Map<Seq<u8>, UserAccount>, Map<Seq<u8>, ValidatorAccount>, Result<(), ChainError>) {
        match self {
            Transaction::Stake(tx) => tx.spec_execute(accounts, validators),
            Transaction::Transfer(tx) => tx.spec_execute(accounts, validators),
        }
    }

    fn get_signature(&self) -> (r: &SigBytes) {
        match self {
            Transaction::Stake(tx) => tx.get_signature(),
            Transaction::Transfer(tx) => tx.get_signature(),
        }
    }

    fn set_signature(&mut self, sig: SigBytes)
        ensures
            *old(self) matches Transaction::Transfer(t) ==> *final(self) == Transaction::Transfer(
                (TransferTransaction { signature: sig, ..t }),
            ),
            *old(self) matches Transaction::Stake(t) ==> *final(self) == Transaction::Stake(
                (StakeTransaction { signature: sig, ..t }),
            ),
    {
        match self {
            Transaction::Stake(tx) => tx.set_signature(sig),
            Transaction::Transfer(tx) => tx.set_signature(sig),
        }
    }

    fn serialize(&self) -> (r: Vec<u8>) {
        match self {
            Transaction::Stake(tx) => tx.serialize(),
            Transaction::Transfer(tx) => tx.serialize(),
        }
    }

    fn validate(&self, db: &AccountsDB) -> (r: bool) {
        match self {
            Transaction::Stake(tx) => tx.validate(db),
            Transaction::Transfer(tx) => tx.validate(db),
        }
    }

    fn execute(&self, db: &mut AccountsDB) -> (r: Result<(), ChainError>) {
        match self {
            Transaction::Stake(tx) => tx.execute(db),
            Transaction::Transfer(tx) => tx.execute(db),
        }
    }

    fn sign(&mut self, signer: &Account)
        ensures
            final(self).spec_signer() == old(self).spec_signer(),
            *old(self) matches Transaction::Transfer(t) ==> (*final(self) matches
                Transaction::Transfer(t2) && t2.to == t.to && t2.from == t.from && t2.amt == t.amt
                && t2.nonce == t.nonce),
            *old(self) matches Transaction::Stake(t) ==> (*final(self) matches Transaction::Stake(
                t2,
            ) && t2.validator == t.validator && t2.staker == t.staker && t2.amt == t.amt
                && t2.nonce == t.nonce),
    {
        match self {
            Transaction::Stake(tx) => tx.sign(signer),
            Transaction::Transfer(tx) => tx.sign(signer),
        }
    }

    fn verify_signature(&self, signer: &Pubkey) -> (r: bool) {
        match self {
            Transaction::Stake(tx) => tx.verify_signature(signer),
            Transaction::Transfer(tx) => tx.verify_signature(signer),
        }
    }
}

/// The serialized bytes of a batch of transactions, in order.
pub open spec fn concat_serialized(txs: Seq<Transaction>) -> Seq<u8>
    decreases txs.len(),
{
    if txs.len() == 0 {
        Seq::empty()
    } else {
        txs[0].spec_serialized() + concat_serialized(txs.skip(1))
    }
}

/// Appending one transaction appends its serialized bytes.
pub proof fn lemma_concat_serialized_push(txs: Seq<Transaction>, tx: Transaction)
    ensures
        concat_serialized(txs.push(tx)) == concat_serialized(txs) + tx.spec_serialized(),
    decreases txs.len(),
{
    if txs.len() == 0 {
        assert(txs.push(tx)[0] == tx);
        assert(txs.push(tx).skip(1) =~= Seq::<Transaction>::empty());
        assert(concat_serialized(txs.push(tx)) == tx.spec_serialized() + concat_serialized(
            Seq::<Transaction>::empty(),
        ));
        assert(concat_serialized(Seq::<Transaction>::empty()) == Seq::<u8>::empty());
        assert(concat_serialized(txs) == Seq::<u8>::empty());
        assert(tx.spec_serialized() + Seq::<u8>::empty() =~= Seq::<u8>::empty()
            + tx.spec_serialized());
    } else {
        assert(txs.push(tx)[0] == txs[0]);
        assert(txs.push(tx).skip(1) =~= txs.skip(1).push(tx));
        lemma_concat_serialized_push(txs.skip(1), tx);
        assert(concat_serialized(txs.push(tx)) == txs[0].spec_serialized() + concat_serialized(
            txs.skip(1).push(tx),
        ));
        assert(concat_serialized(txs.push(tx)) == txs[0].spec_serialized() + (concat_serialized(
            txs.skip(1),
        ) + tx.spec_serialized()));
        assert(concat_serialized(txs) == txs[0].spec_serialized() + concat_serialized(txs.skip(1)));
        assert(txs[0].spec_serialized() + (concat_serialized(txs.skip(1)) + tx.spec_serialized())
            =~= (txs[0].spec_serialized() + concat_serialized(txs.skip(1)))
            + tx.spec_serialized());
    }
}

/// The exact bytes a block's hash is computed over: the previous hash, the
/// little-endian 64-bit timestamp, then every transaction's serialized
/// bytes in sequence order.
pub open spec fn spec_block_bytes(prev: Seq<u8>, timestamp: u64, txs: Seq<Transaction>) -> Seq<
    u8,
> {
    prev + spec_u64_to_le_bytes(timestamp) + concat_serialized(txs)
}

/// An immutable, hash-linked container of an ordered transaction batch plus
/// a derived content hash.
#[derive(Debug, Clone)]
pub struct Block {
    pub transactions: Vec<Transaction>,
    pub hash: Blockhash,
    pub prev_hash: Blockhash,
    pub timestamp: u64,
}

impl Block {
    /// A block whose stored hash is the digest of its own contents chained
    /// to its stored previous hash.
    pub open spec fn wf(&self) -> bool {
        self.hash@ == sha256_of(
            spec_block_bytes(self.prev_hash@, self.timestamp, self.transactions@),
        )
    }

    /// The digest of this block's contents chained to the given previous
    /// hash: a pure function of `prev_hash`, the timestamp and the
    /// transaction batch.
    pub fn get_hash(&self, prev_hash: Blockhash) -> (r: Blockhash)
        ensures
            r@ == sha256_of(spec_block_bytes(prev_hash@, self.timestamp, self.transactions@)),
    {
        let mut data: Vec<u8> = slice_to_vec(prev_hash.as_slice());
        let mut ts_bytes = u64_to_le_bytes(self.timestamp);
        data.append(&mut ts_bytes);
        proof {
            assert(self.transactions@.take(0) =~= Seq::<Transaction>::empty());
            assert(data@ =~= prev_hash@ + spec_u64_to_le_bytes(self.timestamp)
                + concat_serialized(self.transactions@.take(0)));
        }
        let n = self.transactions.len();
        let mut i: usize = 0;
        while i < n
            invariant
                0 <= i <= n,
                n == self.transactions@.len(),
                data@ == prev_hash@ + spec_u64_to_le_bytes(self.timestamp) + concat_serialized(
                    self.transactions@.take(i as int),
                ),
            decreases n - i,
        {
            let mut tx_bytes = self.transactions[i].serialize();
            data.append(&mut tx_bytes);
            proof {
                assert(self.transactions@.take(i + 1 as int) =~= self.transactions@.take(
                    i as int,
                ).push(self.transactions@[i as int]));
                lemma_concat_serialized_push(
                    self.transactions@.take(i as int),
                    self.transactions@[i as int],
                );
                assert(data@ =~= prev_hash@ + spec_u64_to_le_bytes(self.timestamp)
                    + concat_serialized(self.transactions@.take(i + 1 as int)));
            }
            i += 1;
        }
        proof {
            assert(self.transactions@.take(n as int) =~= self.transactions@);
        }
        sha256(data.as_slice())
    }

    /// A block over the given batch, chained to `prev_hash`, stamped with
    /// the clock's current second and carrying its derived hash.
    pub fn new(transactions: Vec<Transaction>, prev_hash: Blockhash) -> (r: Block)
        ensures
            r.transactions@ == transactions@,
            r.prev_hash@ == prev_hash@,
            r.wf(),
    {
        let timestamp = now_seconds();
        let mut block = Block { transactions, hash: [0u8; 32], prev_hash, timestamp };
        let hash = block.get_hash(prev_hash);
        block.hash = hash;
        block
    }

    /// The distinguished genesis block: no transactions, and both hashes
    /// set to the reserved all-ones sentinel.
    pub fn create_genesis() -> (r: Block)
        ensures
            r.transactions@.len() == 0,
            r.hash@ == genesis_hash(),
            r.prev_hash@ == genesis_hash(),
    {
        let sentinel: Blockhash = [1u8; 32];
        proof {
            assert(sentinel@ =~= genesis_hash());
        }
        Block {
            transactions: Vec::new(),
            hash: sentinel,
            prev_hash: sentinel,
            timestamp: now_seconds(),
        }
    }
}

/// Equality of two transactions, decided field by field.
pub fn tx_eq(a: &Transaction, b: &Transaction) -> (r: bool)
    ensures
        r == (a == b),
{
    match (a, b) {
        (Transaction::Stake(x), Transaction::Stake(y)) => {
            let r = bytes32_eq(&x.validator, &y.validator) && bytes32_eq(&x.staker, &y.staker)
                && x.amt == y.amt && x.nonce == y.nonce && bytes64_eq(&x.signature, &y.signature);
            proof {
                if r {
                    assert(x.validator@ =~= y.validator@);
                    assert(x.validator == y.validator);
                    assert(x.staker == y.staker);
                    assert(x.signature == y.signature);
                }
            }
            r
        },
        (Transaction::Transfer(x), Transaction::Transfer(y)) => {
            let r = bytes32_eq(&x.to, &y.to) && bytes32_eq(&x.from, &y.from) && x.amt == y.amt
                && x.nonce == y.nonce && bytes64_eq(&x.signature, &y.signature);
            proof {
                if r {
                    assert(x.to == y.to);
                    assert(x.from == y.from);
                    assert(x.signature == y.signature);
                }
            }
            r
        },
        _ => false,
    }
}

} // verus!
