//! A minimal proof-of-stake ledger core: an account/stake registry, a
//! pending-transaction pool, a block builder/validator, and a stake-weighted
//! voting step that finalizes blocks and applies their transactions.

pub mod builder;
pub mod byteops;
pub mod crypto;
pub mod db;
pub mod kv;
pub mod laws;
pub mod pool;
pub mod structures;

pub use builder::BlockBuilder;
pub use db::AccountsDB;
pub use pool::{Mempool, MAX_TRANSACTIONS_PER_BLOCK};
pub use byteops::{bytes32_eq, bytes64_eq, lex_cmp32, KeyOrder};
pub use structures::{
    tx_eq, Account, Address, Block, Blockhash, RoundOutcome, ChainError, Pubkey, Seckey, SigBytes, Signer,
    StakeTransaction, Transaction, TransactionSign, TransferTransaction, UserAccount,
    ValidatorAccount,
};
