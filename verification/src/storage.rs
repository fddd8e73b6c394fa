//! Storage helpers of the purchase flow: collectibles by id, the ids each
//! user owns, and the collectible counter.

use vstd::prelude::*;
use crate::address::Address;
use crate::state::{lemma_owned_by_push, ContractState, StateView};
use crate::types::{Collectible, CollectibleRecord};

verus! {

/// Stores `collectible` under `id`.
pub fn save_collectible(env: &mut ContractState, id: u64, collectible: &Collectible)
    ensures
        final(env)@ == (StateView { records: old(env)@.records.insert(id, collectible@), ..old(env)@ }),
{
    env.store_record(id, collectible.clone());
}

/// The collectible stored under `id`, if any.
pub fn get_collectible(env: &ContractState, id: u64) -> (found: Option<Collectible>)
    ensures
        match found {
            Some(c) => env@.records.contains_key(id) && c@ == env@.records[id],
            None => !env@.records.contains_key(id),
        },
{
    env.record(id)
}

/// Appends `id` to the collection of `user`.
pub fn add_to_user(env: &mut ContractState, user: Address, id: u64)
    ensures
        final(env)@ == (StateView {
            collection_entries: old(env)@.collection_entries.push((user, id)),
            ..old(env)@
        }),
{
    env.append_to_collection(user, id);
}

/// Whether the collection of `user` holds `id`.
pub fn has_collectible(env: &ContractState, user: Address, id: u64) -> (owned: bool)
    ensures
        owned == env@.collection(user).contains(id),
{
    let collection = env.collection_of(&user);
    let mut i: usize = 0;
    while i < collection.len()
        invariant
            i <= collection@.len(),
            collection@ == env@.collection(user),
            forall|j: int| 0 <= j < i ==> collection@[j] != id,
        decreases collection@.len() - i,
    {
        if collection[i] == id {
            assert(collection@[i as int] == id);
            return true;
        }
        i = i + 1;
    }
    false
}

/// The id the next collectible gets: one more than the stored count.
pub fn get_next_id(env: &ContractState) -> (id: u64)
    requires
        env@.count_value() < u64::MAX,
    ensures
        id == env@.count_value() + 1,
{
    let count: u64 = match env.collectible_count() {
        Some(n) => n,
        None => 0,
    };
    count + 1
}

/// Stores the next id as the collectible count.
pub fn increment_id(env: &mut ContractState)
    requires
        old(env)@.count_value() < u64::MAX,
    ensures
        final(env)@ == (StateView {
            collectible_count: Some((old(env)@.count_value() + 1) as u64),
            ..old(env)@
        }),
{
    let next = get_next_id(env);
    env.set_collectible_count(next);
}

/// The number of collectibles created.
pub fn get_count(env: &ContractState) -> (count: u64)
    ensures
        count == env@.count_value(),
{
    match env.collectible_count() {
        Some(n) => n,
        None => 0,
    }
}

/// The ids in the collection of `user`, in the order they were added.
pub fn get_user_collection(env: &ContractState, user: Address) -> (ids: Vec<u64>)
    ensures
        ids@ == env@.collection(user),
{
    env.collection_of(&user)
}

// --- Laws ---

/// A collectible read back after it was saved is the one saved; entries
/// under other ids are unaffected.
pub proof fn lemma_get_after_save(s: StateView, id: u64, record: CollectibleRecord, other: u64)
    ensures
        ({
            let after = StateView { records: s.records.insert(id, record), ..s };
            &&& after.records.contains_key(id)
            &&& after.records[id] == record
            &&& other != id ==> (after.records.contains_key(other) == s.records.contains_key(other)
                && after.records[other] == s.records[other])
        }),
{
}

/// After `add_to_user` the user owns the id, which ends the user's
/// collection; other users' collections are unaffected.
pub proof fn lemma_has_after_add(s: StateView, user: Address, id: u64, other: Address)
    ensures
        ({
            let after = StateView { collection_entries: s.collection_entries.push((user, id)), ..s };
            &&& after.collection(user) == s.collection(user).push(id)
            &&& after.collection(user).contains(id)
            &&& other != user ==> after.collection(other) == s.collection(other)
        }),
{
    lemma_owned_by_push(s.collection_entries, user, id, other);
    assert(s.collection(user).push(id).last() == id);
}

/// `get_next_id` is one more than `get_count`, and `increment_id` makes the
/// count that next id.
pub proof fn lemma_increment_advances_count(s: StateView)
    requires
        s.count_value() < u64::MAX,
    ensures
        ({
            let after = StateView { collectible_count: Some((s.count_value() + 1) as u64), ..s };
            after.count_value() == s.count_value() + 1
        }),
{
}

} // verus!
