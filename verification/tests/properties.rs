use sha2::{Digest, Sha256};
use stakechain::{
    Account, AccountsDB, Block, BlockBuilder, ChainError, Mempool, RoundOutcome, Signer,
    StakeTransaction, Transaction, TransactionSign, TransferTransaction, UserAccount,
    ValidatorAccount,
};

fn funded_account(db: &mut AccountsDB, balance: u64) -> UserAccount {
    let account = UserAccount::new();
    db.add_account(account.public_key, account.clone());
    let _ = db.increase_account_balance(&account.public_key, balance);
    account
}

#[test]
fn transfer_preserves_total_supply() {
    let mut db = AccountsDB::new();
    let sender = funded_account(&mut db, 1000);
    let receiver = funded_account(&mut db, 250);

    let mut tx =
        TransferTransaction::new(receiver.public_key, sender.public_key, 500, sender.nonce);
    tx.sign(&Account::UserAccount(sender.clone()));

    assert!(tx.execute(&mut db).is_ok());

    let sender_after = db.get_account(&sender.public_key).unwrap().balance;
    let receiver_after = db.get_account(&receiver.public_key).unwrap().balance;
    assert_eq!(sender_after, 500);
    assert_eq!(receiver_after, 750);
    assert_eq!(sender_after + receiver_after, 1000 + 250);
}

#[test]
fn unsigned_transaction_is_never_admitted() {
    let mut db = AccountsDB::new();
    let mut mempool = Mempool::new();
    let sender = funded_account(&mut db, 1000);
    let receiver = funded_account(&mut db, 0);

    let tx = TransferTransaction::new(receiver.public_key, sender.public_key, 10, sender.nonce);
    let result = mempool.send_transaction(Transaction::Transfer(tx));
    assert_eq!(result, Err(ChainError::SignatureInvalid));
    assert_eq!(mempool.len(), 0);
}

#[test]
fn tampered_transaction_fails_verification() {
    let sender = UserAccount::new();
    let receiver = UserAccount::new();
    let mut tx =
        TransferTransaction::new(receiver.public_key, sender.public_key, 10, sender.nonce);
    tx.sign(&Account::UserAccount(sender.clone()));
    assert!(tx.verify_signature(&sender.public_key));

    let mut tampered = tx.clone();
    tampered.amt = 11;
    assert!(!tampered.verify_signature(&sender.public_key));
}

#[test]
fn genesis_is_deterministic() {
    let builder = BlockBuilder::new();
    let g1 = builder.build_genesis();
    let g2 = builder.build_genesis();
    assert!(g1.transactions.is_empty());
    assert_eq!(g1.hash, [1u8; 32]);
    assert_eq!(g1.prev_hash, [1u8; 32]);
    assert_eq!(g1.hash, g2.hash);
}

#[test]
fn block_hash_depends_on_timestamp_and_nothing_else_changes_it() {
    let prev = [7u8; 32];
    let block_a = Block { transactions: Vec::new(), hash: [0u8; 32], prev_hash: prev, timestamp: 11 };
    let block_b = Block { transactions: Vec::new(), hash: [0u8; 32], prev_hash: prev, timestamp: 12 };
    let block_c = Block { transactions: Vec::new(), hash: [0u8; 32], prev_hash: prev, timestamp: 11 };

    assert_ne!(block_a.get_hash(prev), block_b.get_hash(prev));
    assert_eq!(block_a.get_hash(prev), block_c.get_hash(prev));
}

#[test]
fn block_hash_matches_digest_of_layout() {
    let mut db = AccountsDB::new();
    let sender = funded_account(&mut db, 1000);
    let receiver = funded_account(&mut db, 0);
    let mut tx =
        TransferTransaction::new(receiver.public_key, sender.public_key, 42, sender.nonce);
    tx.sign(&Account::UserAccount(sender.clone()));

    let prev = [9u8; 32];
    let block = Block {
        transactions: vec![Transaction::Transfer(tx.clone())],
        hash: [0u8; 32],
        prev_hash: prev,
        timestamp: 1234567,
    };

    let mut bytes: Vec<u8> = Vec::new();
    bytes.extend_from_slice(&prev);
    bytes.extend_from_slice(&1234567u64.to_le_bytes());
    bytes.extend_from_slice(&tx.serialize());
    let mut hasher = Sha256::new();
    hasher.update(&bytes);
    let mut expected = [0u8; 32];
    expected.copy_from_slice(hasher.finalize().as_slice());

    assert_eq!(block.get_hash(prev), expected);
}

#[test]
fn serialization_layout_is_exact() {
    let sender = UserAccount::new();
    let receiver = UserAccount::new();
    let tx = TransferTransaction::new(receiver.public_key, sender.public_key, 77, 3);

    let mut expected: Vec<u8> = Vec::new();
    expected.extend_from_slice(&receiver.public_key);
    expected.extend_from_slice(&sender.public_key);
    expected.extend_from_slice(&3u64.to_le_bytes());
    expected.extend_from_slice(&77u64.to_le_bytes());
    assert_eq!(tx.serialize(), expected);

    let validator = ValidatorAccount::new(BlockBuilder::new());
    let stake = StakeTransaction::new(validator.public_key, sender.public_key, 55, 4);
    let mut expected_stake: Vec<u8> = Vec::new();
    expected_stake.extend_from_slice(&validator.public_key);
    expected_stake.extend_from_slice(&sender.public_key);
    expected_stake.extend_from_slice(&4u64.to_le_bytes());
    expected_stake.extend_from_slice(&55u64.to_le_bytes());
    assert_eq!(stake.serialize(), expected_stake);
}

#[test]
fn address_is_hex_of_public_key() {
    let account = UserAccount::new();
    assert_eq!(account.address, hex::encode(account.public_key));
    assert_eq!(account.address.len(), 64);
}

#[test]
fn exact_drain_is_refused_and_one_less_succeeds() {
    let mut db = AccountsDB::new();
    let account = funded_account(&mut db, 100);

    let drain = db.decrease_account_balance(&account.public_key, 100);
    assert_eq!(drain, Err(ChainError::InsufficientBalance));
    assert_eq!(db.get_account(&account.public_key).unwrap().balance, 100);

    let almost = db.decrease_account_balance(&account.public_key, 99);
    assert_eq!(almost, Ok(()));
    assert_eq!(db.get_account(&account.public_key).unwrap().balance, 1);
}

#[test]
fn exact_drain_fails_commit_after_validation() {
    let mut db = AccountsDB::new();
    let sender = funded_account(&mut db, 500);
    let receiver = funded_account(&mut db, 0);

    let mut tx =
        TransferTransaction::new(receiver.public_key, sender.public_key, 500, sender.nonce);
    tx.sign(&Account::UserAccount(sender.clone()));

    assert!(tx.validate(&db));
    assert_eq!(tx.execute(&mut db), Err(ChainError::ExecutionFailed));
    assert_eq!(db.get_account(&sender.public_key).unwrap().balance, 500);
    assert_eq!(db.get_account(&receiver.public_key).unwrap().balance, 0);
}

#[test]
fn missing_account_and_validator_are_reported() {
    let mut db = AccountsDB::new();
    let stranger = UserAccount::new();
    assert_eq!(
        db.increase_account_balance(&stranger.public_key, 5),
        Err(ChainError::AccountNotFound)
    );
    assert_eq!(
        db.decrease_account_balance(&stranger.public_key, 5),
        Err(ChainError::AccountNotFound)
    );
    assert_eq!(
        db.increase_validator_stake(&stranger.public_key, 5),
        Err(ChainError::ValidatorNotFound)
    );
}

#[test]
fn transfer_scenario_applies_and_leaves_pool() {
    let mut db = AccountsDB::new();
    let mut mempool = Mempool::new();
    let a = funded_account(&mut db, 1000);
    let b = funded_account(&mut db, 0);

    let mut tx = TransferTransaction::new(b.public_key, a.public_key, 500, a.nonce);
    tx.sign(&Account::UserAccount(a.clone()));
    let signed = Transaction::Transfer(tx);

    let id = mempool.send_transaction(signed.clone()).expect("admission should succeed");
    assert!(mempool.get_transaction(&id).is_some());

    let builder = BlockBuilder::new();
    let genesis = builder.build_genesis();
    let block = Block::new(vec![signed.clone()], genesis.hash);
    assert!(builder.validate_block(&db, &block).is_ok());
    assert!(db.finalize_block(&block).is_ok());
    mempool.remove_matching(&signed);

    assert_eq!(db.get_account(&a.public_key).unwrap().balance, 500);
    assert_eq!(db.get_account(&b.public_key).unwrap().balance, 500);
    assert!(mempool.get_transaction(&id).is_none());
    assert_eq!(mempool.len(), 0);
}

#[test]
fn stake_scenario_moves_balance_onto_stake() {
    let mut db = AccountsDB::new();
    let mut mempool = Mempool::new();
    let validator = ValidatorAccount::new(BlockBuilder::new());
    db.add_validator(validator.public_key, validator.clone());
    let a = funded_account(&mut db, 1000);

    let mut stake1 = StakeTransaction::new(validator.public_key, a.public_key, 250, a.nonce);
    let mut stake2 = StakeTransaction::new(validator.public_key, a.public_key, 250, a.nonce + 1);
    stake1.sign(&Account::UserAccount(a.clone()));
    stake2.sign(&Account::UserAccount(a.clone()));

    mempool.send_transaction(Transaction::Stake(stake1)).expect("admission should succeed");
    mempool.send_transaction(Transaction::Stake(stake2)).expect("admission should succeed");

    let outcome = validator.run_round(&mut db, &mut mempool);
    assert!(matches!(outcome, RoundOutcome::Finalized(_)));

    assert_eq!(db.get_account(&a.public_key).unwrap().balance, 500);
    assert_eq!(db.get_validator(&validator.public_key).unwrap().stake, 500);
    assert_eq!(mempool.len(), 0);
}

#[test]
fn sequence_ids_are_distinct_and_increasing() {
    let mut db = AccountsDB::new();
    let mut mempool = Mempool::new();
    let a = funded_account(&mut db, 1000);
    let b = funded_account(&mut db, 0);

    let mut last: Option<u64> = None;
    let mut seen: Vec<u64> = Vec::new();
    for k in 0..5u64 {
        let mut tx = TransferTransaction::new(b.public_key, a.public_key, 1 + k, k);
        tx.sign(&Account::UserAccount(a.clone()));
        let id = mempool.send_transaction(Transaction::Transfer(tx)).expect("admission");
        if let Some(prev) = last {
            assert!(id > prev);
        }
        assert!(!seen.contains(&id));
        seen.push(id);
        last = Some(id);
    }
    assert_eq!(mempool.len(), 5);
}

#[test]
fn quorum_follows_the_votes() {
    let mut db = AccountsDB::new();
    let mut mempool = Mempool::new();
    let validator1 = ValidatorAccount::new(BlockBuilder::new());
    let validator2 = ValidatorAccount::new(BlockBuilder::new());
    db.add_validator(validator1.public_key, validator1.clone());
    db.add_validator(validator2.public_key, validator2.clone());
    let a = funded_account(&mut db, 1000);
    let b = funded_account(&mut db, 0);

    // A valid candidate gathers every vote: 2 of 2 meets floor(2/2)+1 = 2.
    let mut good = TransferTransaction::new(b.public_key, a.public_key, 10, a.nonce);
    good.sign(&Account::UserAccount(a.clone()));
    let good_block = Block::new(vec![Transaction::Transfer(good)], [1u8; 32]);
    assert!(validator1.vote(&db, &good_block));
    assert!(validator2.vote(&db, &good_block));

    // A candidate with an overdrawn transaction gathers none: 0 < 2.
    let mut bad = TransferTransaction::new(b.public_key, a.public_key, 5000, a.nonce);
    bad.sign(&Account::UserAccount(a.clone()));
    let bad_block = Block::new(vec![Transaction::Transfer(bad)], [1u8; 32]);
    assert!(!validator1.vote(&db, &bad_block));
    assert!(!validator2.vote(&db, &bad_block));

    // An inadmissible pool entry aborts the build; nothing is applied.
    let mut overdrawn = TransferTransaction::new(b.public_key, a.public_key, 5000, a.nonce);
    overdrawn.sign(&Account::UserAccount(a.clone()));
    let mut fine = TransferTransaction::new(b.public_key, a.public_key, 10, a.nonce);
    fine.sign(&Account::UserAccount(a.clone()));
    mempool.send_transaction(Transaction::Transfer(overdrawn)).expect("admission");
    mempool.send_transaction(Transaction::Transfer(fine)).expect("admission");

    let leader = BlockBuilder::new().get_leader(&db);
    let actor = if leader.public_key == validator1.public_key {
        &validator1
    } else {
        &validator2
    };
    let outcome = actor.run_round(&mut db, &mut mempool);
    assert!(matches!(outcome, RoundOutcome::BuildFailed(ChainError::InvalidTransaction)));
    assert_eq!(mempool.len(), 2);
    assert_eq!(db.get_account(&a.public_key).unwrap().balance, 1000);
    assert_eq!(db.get_account(&b.public_key).unwrap().balance, 0);
}

#[test]
fn pool_cancellation_is_idempotent() {
    let mut db = AccountsDB::new();
    let mut mempool = Mempool::new();
    let a = funded_account(&mut db, 100);
    let b = funded_account(&mut db, 0);

    let mut tx = TransferTransaction::new(b.public_key, a.public_key, 10, a.nonce);
    tx.sign(&Account::UserAccount(a.clone()));
    let id = mempool.send_transaction(Transaction::Transfer(tx)).expect("admission");

    mempool.remove_transaction(&id);
    assert!(mempool.get_transaction(&id).is_none());
    mempool.remove_transaction(&id);
    assert_eq!(mempool.len(), 0);
}

#[test]
fn credit_saturates_at_the_top() {
    let mut db = AccountsDB::new();
    let a = funded_account(&mut db, u64::MAX - 10);
    assert!(db.increase_account_balance(&a.public_key, 100).is_ok());
    assert_eq!(db.get_account(&a.public_key).unwrap().balance, u64::MAX);
}

#[test]
fn leader_is_the_stake_maximum() {
    let mut db = AccountsDB::new();
    let validator1 = ValidatorAccount::new(BlockBuilder::new());
    let validator2 = ValidatorAccount::new(BlockBuilder::new());
    db.add_validator(validator1.public_key, validator1.clone());
    db.add_validator(validator2.public_key, validator2.clone());
    let _ = db.increase_validator_stake(&validator2.public_key, 42);

    let leader = BlockBuilder::new().get_leader(&db);
    assert_eq!(leader.public_key, validator2.public_key);
    assert_eq!(leader.stake, 42);

    let signer_key = Signer::public_key(&validator2);
    assert_eq!(*signer_key, validator2.public_key);
}
