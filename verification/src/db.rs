//! The ledger store: the authoritative mapping of accounts and validator
//! stakes, with per-key balance and stake operations.

use vstd::prelude::*;

use crate::kv::{
    accounts_get, accounts_insert, accounts_new, accounts_view, validators_contains,
    validators_entries, validators_get, validators_insert, validators_len, validators_new,
    validators_view, AccountMap, ValidatorMap,
};
use crate::structures::{
    Block, Blockhash, ChainError, Pubkey, Transaction, TransactionSign, UserAccount,
    ValidatorAccount,
};

verus! {

/// The ledger contents after attempting a batch in order, with the overall
/// outcome: the first failing transaction stops the batch, leaving the
/// earlier ones applied.
pub open spec fn spec_apply_batch(
    accounts: Map<Seq<u8>, UserAccount>,
    validators: Map<Seq<u8>, ValidatorAccount>,
    txs: Seq<Transaction>,
) -> (Map<Seq<u8>, UserAccount>, Map<Seq<u8>, ValidatorAccount>, Result<(), ChainError>)
    decreases txs.len(),
{
    if txs.len() == 0 {
        (accounts, validators, Ok(()))
    } else {
        let step = txs[0].spec_execute(accounts, validators);
        if step.2 is Err {
            step
        } else {
            spec_apply_batch(step.0, step.1, txs.skip(1))
        }
    }
}

/// A user account with `delta` added to its balance, saturating at the top.
pub open spec fn spec_credit(a: UserAccount, delta: u64) -> UserAccount {
    UserAccount {
        balance: if a.balance + delta > u64::MAX {
            u64::MAX
        } else {
            (a.balance + delta) as u64
        },
        ..a
    }
}

/// A user account with `delta` taken off its balance.
pub open spec fn spec_debit(a: UserAccount, delta: u64) -> UserAccount
    recommends
        delta < a.balance,
{
    UserAccount { balance: (a.balance - delta) as u64, ..a }
}

/// A validator with `delta` added to its stake, saturating at the top.
pub open spec fn spec_add_stake(v: ValidatorAccount, delta: u64) -> ValidatorAccount {
    ValidatorAccount {
        stake: if v.stake + delta > u64::MAX {
            u64::MAX
        } else {
            (v.stake + delta) as u64
        },
        ..v
    }
}

/// Every validator of `m`, with its last finalized hash set to `hash`.
pub open spec fn spec_set_hashes(m: Map<Seq<u8>, ValidatorAccount>, hash: Blockhash) -> Map<
    Seq<u8>,
    ValidatorAccount,
> {
    Map::new(
        |k: Seq<u8>| m.contains_key(k),
        |k: Seq<u8>| ValidatorAccount { last_finalized_hash: hash, ..m[k] },
    )
}

/// The authoritative mapping of accounts and validator stakes; the single
/// source of truth balances and stake weights are checked against.
#[derive(Debug)]
pub struct AccountsDB {
    latest_blockhash: Blockhash,
    accounts: AccountMap,
    validators: ValidatorMap,
}

impl AccountsDB {
    /// The user accounts this store holds, keyed by registered key bytes.
    pub closed spec fn accounts(&self) -> Map<Seq<u8>, UserAccount> {
        accounts_view(self.accounts)
    }

    /// The validators this store holds, keyed by registered key bytes.
    pub closed spec fn validators(&self) -> Map<Seq<u8>, ValidatorAccount> {
        validators_view(self.validators)
    }

    /// An empty store.
    pub fn new() -> (r: AccountsDB)
        ensures
            r.accounts() == Map::<Seq<u8>, UserAccount>::empty(),
            r.validators() == Map::<Seq<u8>, ValidatorAccount>::empty(),
    {
        AccountsDB {
            latest_blockhash: [0u8; 32],
            accounts: accounts_new(),
            validators: validators_new(),
        }
    }

    /// Insert or overwrite the account registered under `pubkey`.
    pub fn add_account(&mut self, pubkey: Pubkey, account: UserAccount)
        ensures
            final(self).accounts() == old(self).accounts().insert(pubkey@, account),
            final(self).validators() == old(self).validators(),
    {
        accounts_insert(&mut self.accounts, pubkey, account);
    }

    /// A snapshot copy of the account registered under `pubkey`.
    pub fn get_account(&self, pubkey: &Pubkey) -> (r: Option<UserAccount>)
        ensures
            r == if self.accounts().contains_key(pubkey@) {
                Some(self.accounts()[pubkey@])
            } else {
                None::<UserAccount>
            },
    {
        accounts_get(&self.accounts, pubkey)
    }

    /// Add `delta` to the account's balance, saturating at the top; fails
    /// exactly when the account is absent.
    pub fn increase_account_balance(&mut self, pubkey: &Pubkey, delta: u64) -> (r: Result<
        (),
        ChainError,
    >)
        ensures
            old(self).accounts().contains_key(pubkey@) ==> r == Ok::<(), ChainError>(())
                && final(self).accounts() == old(self).accounts().insert(
                pubkey@,
                spec_credit(old(self).accounts()[pubkey@], delta),
            ),
            !old(self).accounts().contains_key(pubkey@) ==> r == Err::<(), ChainError>(
                ChainError::AccountNotFound,
            ) && final(self).accounts() == old(self).accounts(),
            final(self).validators() == old(self).validators(),
    {
        match accounts_get(&self.accounts, pubkey) {
            Some(account) => {
                let updated = UserAccount {
                    balance: account.balance.saturating_add(delta),
                    ..account
                };
                accounts_insert(&mut self.accounts, *pubkey, updated);
                Ok(())
            },
            None => Err(ChainError::AccountNotFound),
        }
    }

    /// Take `delta` off the account's balance. Fails with `AccountNotFound`
    /// when the account is absent and with `InsufficientBalance` unless the
    /// balance is strictly greater than `delta`: a debit that would exactly
    /// drain the account is refused.
    pub fn decrease_account_balance(&mut self, pubkey: &Pubkey, delta: u64) -> (r: Result<
        (),
        ChainError,
    >)
        ensures
            old(self).accounts().contains_key(pubkey@) && old(self).accounts()[pubkey@].balance
                > delta ==> r == Ok::<(), ChainError>(()) && final(self).accounts()
                == old(self).accounts().insert(
                pubkey@,
                spec_debit(old(self).accounts()[pubkey@], delta),
            ),
            old(self).accounts().contains_key(pubkey@) && old(self).accounts()[pubkey@].balance
                <= delta ==> r == Err::<(), ChainError>(ChainError::InsufficientBalance)
                && final(self).accounts() == old(self).accounts(),
            !old(self).accounts().contains_key(pubkey@) ==> r == Err::<(), ChainError>(
                ChainError::AccountNotFound,
            ) && final(self).accounts() == old(self).accounts(),
            final(self).validators() == old(self).validators(),
    {
        match accounts_get(&self.accounts, pubkey) {
            Some(account) => {
                if account.balance > delta {
                    let updated = UserAccount { balance: account.balance - delta, ..account };
                    accounts_insert(&mut self.accounts, *pubkey, updated);
                    Ok(())
                } else {
                    Err(ChainError::InsufficientBalance)
                }
            },
            None => Err(ChainError::AccountNotFound),
        }
    }

    /// Insert or overwrite the validator registered under `pubkey`.
    pub fn add_validator(&mut self, pubkey: Pubkey, validator: ValidatorAccount)
        ensures
            final(self).validators() == old(self).validators().insert(pubkey@, validator),
            final(self).accounts() == old(self).accounts(),
    {
        validators_insert(&mut self.validators, pubkey, validator);
    }

    /// Whether a validator is registered under `pubkey`.
    pub fn is_validator(&self, pubkey: &Pubkey) -> (r: bool)
        ensures
            r == self.validators().contains_key(pubkey@),
    {
        validators_contains(&self.validators, pubkey)
    }

    /// A snapshot copy of the validator registered under `pubkey`.
    pub fn get_validator(&self, pubkey: &Pubkey) -> (r: Option<ValidatorAccount>)
        ensures
            r == if self.validators().contains_key(pubkey@) {
                Some(self.validators()[pubkey@])
            } else {
                None::<ValidatorAccount>
            },
    {
        validators_get(&self.validators, pubkey)
    }

    /// Add `amt` to the validator's stake, saturating at the top; fails
    /// exactly when the validator is absent.
    pub fn increase_validator_stake(&mut self, pubkey: &Pubkey, amt: u64) -> (r: Result<
        (),
        ChainError,
    >)
        ensures
            old(self).validators().contains_key(pubkey@) ==> r == Ok::<(), ChainError>(())
                && final(self).validators() == old(self).validators().insert(
                pubkey@,
                spec_add_stake(old(self).validators()[pubkey@], amt),
            ),
            !old(self).validators().contains_key(pubkey@) ==> r == Err::<(), ChainError>(
                ChainError::ValidatorNotFound,
            ) && final(self).validators() == old(self).validators(),
            final(self).accounts() == old(self).accounts(),
    {
        match validators_get(&self.validators, pubkey) {
            Some(validator) => {
                let updated = ValidatorAccount {
                    stake: validator.stake.saturating_add(amt),
                    ..validator
                };
                validators_insert(&mut self.validators, *pubkey, updated);
                Ok(())
            },
            None => Err(ChainError::ValidatorNotFound),
        }
    }

    /// How many validators are registered.
    pub fn validator_count(&self) -> (r: usize)
        ensures
            r == self.validators().len(),
    {
        validators_len(&self.validators)
    }

    /// Apply every transaction of the block to the ledger, in block order,
    /// stopping at the first failure; the transactions already applied stay
    /// applied.
    pub fn finalize_block(&mut self, block: &Block) -> (r: Result<(), ChainError>)
        ensures
            final(self).accounts() == spec_apply_batch(
                old(self).accounts(),
                old(self).validators(),
                block.transactions@,
            ).0,
            final(self).validators() == spec_apply_batch(
                old(self).accounts(),
                old(self).validators(),
                block.transactions@,
            ).1,
            r == spec_apply_batch(
                old(self).accounts(),
                old(self).validators(),
                block.transactions@,
            ).2,
    {
        let txs = &block.transactions;
        let n = txs.len();
        let mut i: usize = 0;
        proof {
            assert(txs@.skip(0) =~= txs@);
        }
        while i < n
            invariant
                0 <= i <= n,
                n == txs@.len(),
                txs@ == block.transactions@,
                spec_apply_batch(old(self).accounts(), old(self).validators(), txs@)
                    == spec_apply_batch(self.accounts(), self.validators(), txs@.skip(i as int)),
            decreases n - i,
        {
            proof {
                assert(txs@.skip(i as int)[0] == txs@[i as int]);
                assert(txs@.skip(i as int).skip(1) =~= txs@.skip(i + 1 as int));
            }
            let tx = txs[i];
            let ghost pre_accounts = self.accounts();
            let ghost pre_validators = self.validators();
            let step = tx.execute(self);
            proof {
                let spec_step = tx.spec_execute(pre_accounts, pre_validators);
                if spec_step.2 is Err {
                    assert(spec_apply_batch(pre_accounts, pre_validators, txs@.skip(i as int))
                        == spec_step);
                } else {
                    assert(spec_apply_batch(pre_accounts, pre_validators, txs@.skip(i as int))
                        == spec_apply_batch(spec_step.0, spec_step.1, txs@.skip(i + 1 as int)));
                }
            }
            match step {
                Ok(_) => (),
                Err(e) => {
                    return Err(e);
                },
            };
            i += 1;
        }
        proof {
            assert(txs@.skip(n as int) =~= Seq::<Transaction>::empty());
        }
        Ok(())
    }

    /// Record `hash` as the last finalized hash of every registered
    /// validator, leaving their other fields and the accounts untouched.
    pub fn update_validator_hashes(&mut self, hash: Blockhash)
        ensures
            final(self).accounts() == old(self).accounts(),
            final(self).validators() == spec_set_hashes(old(self).validators(), hash),
    {
        let entries = validators_entries(&self.validators);
        let ghost entries_seq = entries@;
        let n = entries.len();
        let mut i: usize = 0;
        while i < n
            invariant
                0 <= i <= n,
                n == entries_seq.len(),
                entries@ == entries_seq,
                forall|j: int|
                    0 <= j < entries_seq.len() ==> old(self).validators().contains_key(
                        (#[trigger] entries_seq[j]).0@,
                    ) && old(self).validators()[entries_seq[j].0@] == entries_seq[j].1,
                forall|j: int, l: int|
                    0 <= j < l < entries_seq.len() ==> entries_seq[j].0@ != entries_seq[l].0@,
                forall|k: Seq<u8>|
                    old(self).validators().contains_key(k) ==> exists|j: int|
                        0 <= j < entries_seq.len() && (#[trigger] entries_seq[j]).0@ == k,
                self.accounts() == old(self).accounts(),
                forall|k: Seq<u8>|
                    #[trigger] self.validators().contains_key(k) <==> old(
                        self,
                    ).validators().contains_key(k),
                forall|k: Seq<u8>|
                    old(self).validators().contains_key(k) ==> #[trigger] self.validators()[k]
                        == (if (exists|j: int| 0 <= j < i && (#[trigger] entries_seq[j]).0@ == k) {
                        ValidatorAccount {
                            last_finalized_hash: hash,
                            ..old(self).validators()[k]
                        }
                    } else {
                        old(self).validators()[k]
                    }),
            decreases n - i,
        {
            let key = entries[i].0;
            let current = &entries[i].1;
            let updated = ValidatorAccount {
                address: current.address.clone(),
                public_key: current.public_key,
                stake: current.stake,
                builder: current.builder,
                last_finalized_hash: hash,
                secret_key: current.secret_key,
            };
            proof {
                assert(old(self).validators().contains_key((entries_seq[i as int]).0@) && old(
                    self,
                ).validators()[entries_seq[i as int].0@] == entries_seq[i as int].1);
                assert(*current == entries_seq[i as int].1);
                assert(updated == ValidatorAccount {
                    last_finalized_hash: hash,
                    ..old(self).validators()[entries_seq[i as int].0@]
                });
            }
            let ghost prev_validators = self.validators();
            validators_insert(&mut self.validators, key, updated);
            proof {
                assert(key@ == entries_seq[i as int].0@);
                assert(self.validators() == prev_validators.insert(key@, updated));
                assert forall|k: Seq<u8>| #[trigger]
                    self.validators().contains_key(k) <==> old(self).validators().contains_key(
                    k,
                ) by {
                    if k == key@ {
                        assert(self.validators().contains_key(k));
                        assert(old(self).validators().contains_key(k));
                    } else {
                        assert(self.validators().contains_key(k) <==> prev_validators.contains_key(
                            k,
                        ));
                        assert(prev_validators.contains_key(k) <==> old(
                            self,
                        ).validators().contains_key(k));
                    }
                }
                assert forall|k: Seq<u8>|
                    old(self).validators().contains_key(k) implies #[trigger] self.validators()[k]
                    == (if (exists|j: int| 0 <= j < i + 1 && (#[trigger] entries_seq[j]).0@ == k) {
                    ValidatorAccount { last_finalized_hash: hash, ..old(self).validators()[k] }
                } else {
                    old(self).validators()[k]
                }) by {
                    if k == entries_seq[i as int].0@ {
                        assert((entries_seq[i as int]).0@ == k);
                        assert(self.validators()[k] == updated);
                    } else {
                        assert(self.validators()[k] == prev_validators[k]);
                        assert(prev_validators[k] == (if (exists|j: int|
                            0 <= j < i && (#[trigger] entries_seq[j]).0@ == k) {
                            ValidatorAccount {
                                last_finalized_hash: hash,
                                ..old(self).validators()[k]
                            }
                        } else {
                            old(self).validators()[k]
                        }));
                        assert forall|j: int|
                            0 <= j < i + 1 && (#[trigger] entries_seq[j]).0@ == k implies j
                            < i by {}
                    }
                }
            }
            i += 1;
        }
        proof {
            assert(self.validators() =~= spec_set_hashes(old(self).validators(), hash));
        }
    }

    /// A snapshot of every registered validator with its key, in an
    /// unspecified order.
    pub fn validator_entries(&self) -> (r: Vec<(Pubkey, ValidatorAccount)>)
        ensures
            r@.len() == self.validators().len(),
            forall|i: int|
                0 <= i < r@.len() ==> self.validators().contains_key((#[trigger] r@[i]).0@)
                    && self.validators()[r@[i].0@] == r@[i].1,
            forall|i: int, j: int| 0 <= i < j < r@.len() ==> r@[i].0@ != r@[j].0@,
            forall|k: Seq<u8>|
                self.validators().contains_key(k) ==> exists|i: int|
                    0 <= i < r@.len() && (#[trigger] r@[i]).0@ == k,
    {
        validators_entries(&self.validators)
    }
}

} // verus!
