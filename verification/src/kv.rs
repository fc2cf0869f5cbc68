//! Trusted boundary to dashmap, the concurrent hash map that backs the
//! ledger's account, validator and pool stores.
//!
//! The map type is declared opaque; what each instantiation holds is named by
//! an uninterpreted view, and every operation the ledger calls is a wrapper
//! whose contract states, over that view, what dashmap's source shows. The
//! order in which dashmap walks its entries is unspecified, so the
//! enumeration wrappers promise membership and completeness, never an order.

use vstd::prelude::*;

use dashmap::DashMap;

use crate::structures::{Pubkey, Transaction, UserAccount, ValidatorAccount};

verus! {

#[verifier::external_type_specification]
#[verifier::external_body]
#[verifier::reject_recursive_types(K)]
#[verifier::reject_recursive_types(V)]
#[verifier::reject_recursive_types(S)]
pub struct ExDashMap<K, V, S>(dashmap::DashMap<K, V, S>);

/// The store of user accounts.
pub type AccountMap = DashMap<Pubkey, UserAccount>;

/// The store of validators.
pub type ValidatorMap = DashMap<Pubkey, ValidatorAccount>;

/// The store of pending transactions.
pub type PoolMap = DashMap<u64, Transaction>;

/// A user-account map that holds nothing.
pub open spec fn no_accounts() -> Map<Seq<u8>, UserAccount> {
    Map::empty()
}

/// A validator map that holds nothing.
pub open spec fn no_validators() -> Map<Seq<u8>, ValidatorAccount> {
    Map::empty()
}

/// A pool map that holds nothing.
pub open spec fn no_pool_entries() -> Map<u64, Transaction> {
    Map::empty()
}

/// What the user-account store holds, keyed by the registered key bytes.
pub uninterp spec fn accounts_view(m: AccountMap) -> Map<Seq<u8>, UserAccount>;

/// What the validator store holds, keyed by the registered key bytes.
pub uninterp spec fn validators_view(m: ValidatorMap) -> Map<Seq<u8>, ValidatorAccount>;

/// What the transaction pool holds, keyed by sequence id.
pub uninterp spec fn pool_view(m: PoolMap) -> Map<u64, Transaction>;

/// Relies on dashmap::DashMap::new: a fresh map holds nothing.
#[verifier::external_body]
pub(crate) fn accounts_new() -> (r: AccountMap)
    ensures
        accounts_view(r) == no_accounts(),
{
    DashMap::new()
}

/// Relies on dashmap::DashMap::insert: maps the key to the new value and
/// leaves every other key unchanged.
#[verifier::external_body]
pub(crate) fn accounts_insert(m: &mut AccountMap, k: Pubkey, v: UserAccount)
    ensures
        accounts_view(*final(m)) == accounts_view(*old(m)).insert(k@, v),
{
    m.insert(k, v);
}

/// Relies on dashmap::DashMap::get: a copy of the value mapped to the key,
/// `None` when the key is absent.
#[verifier::external_body]
pub(crate) fn accounts_get(m: &AccountMap, k: &Pubkey) -> (r: Option<
    UserAccount,
>)
    ensures
        r == if accounts_view(*m).contains_key(k@) {
            Some(accounts_view(*m)[k@])
        } else {
            None::<UserAccount>
        },
{
    m.get(k).map(|entry| entry.value().clone())
}

/// Relies on dashmap::DashMap::new: a fresh map holds nothing.
#[verifier::external_body]
pub(crate) fn validators_new() -> (r: ValidatorMap)
    ensures
        validators_view(r) == no_validators(),
{
    DashMap::new()
}

/// Relies on dashmap::DashMap::insert: maps the key to the new value and
/// leaves every other key unchanged.
#[verifier::external_body]
pub(crate) fn validators_insert(m: &mut ValidatorMap, k: Pubkey, v: ValidatorAccount)
    ensures
        validators_view(*final(m)) == validators_view(*old(m)).insert(k@, v),
{
    m.insert(k, v);
}

/// Relies on dashmap::DashMap::get: a copy of the value mapped to the key,
/// `None` when the key is absent.
#[verifier::external_body]
pub(crate) fn validators_get(m: &ValidatorMap, k: &Pubkey) -> (r: Option<
    ValidatorAccount,
>)
    ensures
        r == if validators_view(*m).contains_key(k@) {
            Some(validators_view(*m)[k@])
        } else {
            None::<ValidatorAccount>
        },
{
    m.get(k).map(|entry| entry.value().clone())
}

/// Relies on dashmap::DashMap::contains_key.
#[verifier::external_body]
pub(crate) fn validators_contains(m: &ValidatorMap, k: &Pubkey) -> (r: bool)
    ensures
        r == validators_view(*m).contains_key(k@),
{
    m.contains_key(k)
}

/// Relies on dashmap::DashMap::len: how many entries the map holds.
#[verifier::external_body]
pub(crate) fn validators_len(m: &ValidatorMap) -> (r: usize)
    ensures
        r == validators_view(*m).len(),
{
    m.len()
}

/// Relies on dashmap::DashMap::iter: every entry exactly once, in an
/// unspecified order.
#[verifier::external_body]
pub(crate) fn validators_entries(m: &ValidatorMap) -> (r: Vec<
    (Pubkey, ValidatorAccount),
>)
    ensures
        r@.len() == validators_view(*m).len(),
        forall|i: int|
            0 <= i < r@.len() ==> validators_view(*m).contains_key((#[trigger] r@[i]).0@)
                && validators_view(*m)[r@[i].0@] == r@[i].1,
        forall|i: int, j: int| 0 <= i < j < r@.len() ==> r@[i].0@ != r@[j].0@,
        forall|k: Seq<u8>|
            validators_view(*m).contains_key(k) ==> exists|i: int|
                0 <= i < r@.len() && (#[trigger] r@[i]).0@ == k,
{
    m.iter().map(|entry| (*entry.key(), entry.value().clone())).collect()
}

/// Relies on dashmap::DashMap::new: a fresh map holds nothing.
#[verifier::external_body]
pub(crate) fn pool_new() -> (r: PoolMap)
    ensures
        pool_view(r) == no_pool_entries(),
{
    DashMap::new()
}

/// Relies on dashmap::DashMap::insert: maps the key to the new value and
/// leaves every other key unchanged.
#[verifier::external_body]
pub(crate) fn pool_insert(m: &mut PoolMap, k: u64, v: Transaction)
    ensures
        pool_view(*final(m)) == pool_view(*old(m)).insert(k, v),
{
    m.insert(k, v);
}

/// Relies on dashmap::DashMap::get: a copy of the value mapped to the key,
/// `None` when the key is absent.
#[verifier::external_body]
pub(crate) fn pool_get(m: &PoolMap, k: &u64) -> (r: Option<Transaction>)
    ensures
        r == if pool_view(*m).contains_key(*k) {
            Some(pool_view(*m)[*k])
        } else {
            None::<Transaction>
        },
{
    m.get(k).map(|entry| *entry.value())
}

/// Relies on dashmap::DashMap::remove: unmaps the key and leaves every other
/// key unchanged; removing an absent key changes nothing.
#[verifier::external_body]
pub(crate) fn pool_remove(m: &mut PoolMap, k: &u64)
    ensures
        pool_view(*final(m)) == pool_view(*old(m)).remove(*k),
{
    m.remove(k);
}

/// Relies on dashmap::DashMap::len: how many entries the map holds.
#[verifier::external_body]
pub(crate) fn pool_len(m: &PoolMap) -> (r: usize)
    ensures
        r == pool_view(*m).len(),
{
    m.len()
}

/// Relies on dashmap::DashMap::iter: every entry exactly once, in an
/// unspecified order.
#[verifier::external_body]
pub(crate) fn pool_entries(m: &PoolMap) -> (r: Vec<(u64, Transaction)>)
    ensures
        r@.len() == pool_view(*m).len(),
        forall|i: int|
            0 <= i < r@.len() ==> pool_view(*m).contains_key((#[trigger] r@[i]).0) && pool_view(
                *m,
            )[r@[i].0] == r@[i].1,
        forall|i: int, j: int| 0 <= i < j < r@.len() ==> r@[i].0 != r@[j].0,
        forall|k: u64|
            pool_view(*m).contains_key(k) ==> exists|i: int|
                0 <= i < r@.len() && (#[trigger] r@[i]).0 == k,
{
    m.iter().map(|entry| (*entry.key(), *entry.value())).collect()
}

} // verus!
