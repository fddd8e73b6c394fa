//! The contract's entry points.

use vstd::prelude::*;
use crate::address::Address;
use crate::mint::{self, mint_refusal, mint_result, state_after_mint, MintError};
use crate::purchase::{self, purchasable, purchase_transfers, state_after_purchase, Transfer};
use crate::state::{ContractState, StateView};
use crate::storage::{get_collectible, get_count, get_user_collection};
use crate::types::{Collectible, CollectibleRecord};

verus! {

/// The stored collectibles with ids 1 to `n`, in id order, skipping the
/// ids under which nothing is stored.
pub open spec fn records_up_to(s: StateView, n: nat) -> Seq<CollectibleRecord>
    decreases n,
{
    if n == 0 {
        seq![]
    } else {
        let earlier = records_up_to(s, (n - 1) as nat);
        if s.records.contains_key(n as u64) {
            earlier.push(s.records[n as u64])
        } else {
            earlier
        }
    }
}

/// The stored collectibles with the ids in `ids`, in that order, skipping
/// the ids under which nothing is stored.
pub open spec fn records_listed(s: StateView, ids: Seq<u64>) -> Seq<CollectibleRecord>
    decreases ids.len(),
{
    if ids.len() == 0 {
        seq![]
    } else {
        let earlier = records_listed(s, ids.drop_last());
        if s.records.contains_key(ids.last()) {
            earlier.push(s.records[ids.last()])
        } else {
            earlier
        }
    }
}

/// What a list of collectibles holds.
pub open spec fn records_of(list: Seq<Collectible>) -> Seq<CollectibleRecord> {
    list.map_values(|c: Collectible| c@)
}

/// The HeritageChain contract.
pub struct HeritageChain;

impl HeritageChain {
    /// Mints a collectible; see [`mint::mint_collectible`].
    pub fn mint_collectible(
        env: &mut ContractState,
        admin: Address,
        artist: Address,
        site: Address,
        price: i128,
        total_supply: u32,
    ) -> (result: Result<u32, MintError>)
        requires
            old(env).wf(),
            old(env)@.admin is Some,
            mint_refusal(old(env)@, admin, price, total_supply) is None ==> old(env)@.next_id_value() < u32::MAX,
        ensures
            final(env).wf(),
            result == mint_result(old(env)@, admin, price, total_supply),
            final(env)@ == state_after_mint(old(env)@, admin, artist, site, price, total_supply),
    {
        mint::mint_collectible(env, admin, artist, site, price, total_supply)
    }

    /// Buys a collectible; see [`purchase::purchase_collectible`].
    pub fn purchase_collectible(
        env: &mut ContractState,
        buyer: Address,
        collectible_id: u64,
        token: Address,
        treasury: Address,
        site_fund: Address,
    ) -> (transfers: Vec<Transfer>)
        requires
            old(env).wf(),
            purchasable(old(env)@, buyer, collectible_id),
        ensures
            final(env).wf(),
            transfers@ == purchase_transfers(old(env)@.records[collectible_id], buyer, token, treasury, site_fund),
            final(env)@ == state_after_purchase(old(env)@, buyer, collectible_id),
    {
        purchase::purchase_collectible(env, buyer, collectible_id, token, treasury, site_fund)
    }

    /// All stored collectibles with ids from 1 to the collectible count, in
    /// id order.
    pub fn get_collectibles(env: &ContractState) -> (list: Vec<Collectible>)
        ensures
            records_of(list@) == records_up_to(env@, env@.count_value() as nat),
    {
        let count = get_count(env);
        let mut list: Vec<Collectible> = Vec::new();
        let mut done: u64 = 0;
        while done < count
            invariant
                count == env@.count_value(),
                done <= count,
                records_of(list@) == records_up_to(env@, done as nat),
            decreases count - done,
        {
            let id = done + 1;
            let ghost before = list@;
            if let Some(col) = get_collectible(env, id) {
                list.push(col);
                proof {
                    assert(records_of(list@) =~= records_of(before).push(env@.records[id]));
                }
            }
            done = id;
        }
        list
    }

    /// The stored collectibles in the collection of `user`, in the order
    /// the user acquired them.
    pub fn get_user_collection(env: &ContractState, user: Address) -> (list: Vec<Collectible>)
        ensures
            records_of(list@) == records_listed(env@, env@.collection(user)),
    {
        let collection_ids = get_user_collection(env, user);
        let mut list: Vec<Collectible> = Vec::new();
        let mut i: usize = 0;
        while i < collection_ids.len()
            invariant
                i <= collection_ids@.len(),
                collection_ids@ == env@.collection(user),
                records_of(list@) == records_listed(env@, collection_ids@.take(i as int)),
            decreases collection_ids@.len() - i,
        {
            let id = collection_ids[i];
            let ghost before = list@;
            proof {
                assert(collection_ids@.take(i + 1).drop_last() =~= collection_ids@.take(i as int));
            }
            if let Some(col) = get_collectible(env, id) {
                list.push(col);
                proof {
                    assert(records_of(list@) =~= records_of(before).push(env@.records[id]));
                }
            }
            i = i + 1;
        }
        proof {
            assert(collection_ids@.take(collection_ids@.len() as int) =~= collection_ids@);
        }
        list
    }
}


// --- Laws ---

/// After a purchase the bought collectible, owned by the buyer, is the last
/// one listed in the buyer's collection.
pub proof fn lemma_purchase_listed_last_in_buyer_collection(s: StateView, buyer: Address, id: u64)
    requires
        purchasable(s, buyer, id),
    ensures
        ({
            let after = state_after_purchase(s, buyer, id);
            let listed = records_listed(after, after.collection(buyer));
            &&& listed.len() > 0
            &&& listed.last() == (CollectibleRecord { owner: buyer, ..s.records[id] })
        }),
{
    let after = state_after_purchase(s, buyer, id);
    crate::state::lemma_owned_by_push(s.collection_entries, buyer, id, buyer);
    assert(after.collection(buyer).drop_last() =~= s.collection(buyer));
}

/// Minting writes only the minting service's entries: the collectibles of
/// the purchase flow, and so what `get_collectibles` and
/// `get_user_collection` list, stay as they were.
pub proof fn lemma_mint_leaves_purchase_flow_unchanged(
    s: StateView,
    admin: Address,
    artist: Address,
    site: Address,
    price: i128,
    total_supply: u32,
    user: Address,
)
    ensures
        ({
            let after = state_after_mint(s, admin, artist, site, price, total_supply);
            &&& after.records == s.records
            &&& after.collectible_count == s.collectible_count
            &&& records_up_to(after, after.count_value() as nat) == records_up_to(s, s.count_value() as nat)
            &&& records_listed(after, after.collection(user)) == records_listed(s, s.collection(user))
        }),
{
    let after = state_after_mint(s, admin, artist, site, price, total_supply);
    lemma_same_records_same_listing(s, after, s.count_value() as nat);
    lemma_same_records_same_listed(s, after, s.collection(user));
}

proof fn lemma_same_records_same_listing(s: StateView, t: StateView, n: nat)
    requires
        s.records == t.records,
    ensures
        records_up_to(s, n) == records_up_to(t, n),
    decreases n,
{
    if n > 0 {
        lemma_same_records_same_listing(s, t, (n - 1) as nat);
    }
}

proof fn lemma_same_records_same_listed(s: StateView, t: StateView, ids: Seq<u64>)
    requires
        s.records == t.records,
    ensures
        records_listed(s, ids) == records_listed(t, ids),
    decreases ids.len(),
{
    if ids.len() > 0 {
        lemma_same_records_same_listed(s, t, ids.drop_last());
    }
}

/// The records of a list of collectibles are the records of its elements,
/// one for one and in order.
pub proof fn lemma_records_of_elementwise(list: Seq<Collectible>)
    ensures
        records_of(list).len() == list.len(),
        forall|i: int| 0 <= i < list.len() ==> #[trigger] records_of(list)[i] == list[i]@,
{
}

/// Listing the collectibles of two id sequences one after the other lists
/// those of the first, then those of the second: every stored id of a
/// collection contributes its record, in order, whatever comes before or
/// after it.
pub proof fn lemma_records_listed_concat(s: StateView, first: Seq<u64>, second: Seq<u64>)
    ensures
        records_listed(s, first + second) == records_listed(s, first) + records_listed(s, second),
    decreases second.len(),
{
    if second.len() == 0 {
        assert(first + second =~= first);
        assert(records_listed(s, first) + records_listed(s, second) =~= records_listed(s, first));
    } else {
        lemma_records_listed_concat(s, first, second.drop_last());
        assert((first + second).drop_last() =~= first + second.drop_last());
        assert((first + second).last() == second.last());
        let head = records_listed(s, first);
        let rest = records_listed(s, second.drop_last());
        if s.records.contains_key(second.last()) {
            assert(head + rest.push(s.records[second.last()]) =~= (head + rest).push(s.records[second.last()]));
        }
    }
}

/// Listing a collection with one more id appends that id's record when it
/// is stored, and nothing otherwise.
pub proof fn lemma_records_listed_push(s: StateView, ids: Seq<u64>, id: u64)
    ensures
        s.records.contains_key(id) ==> records_listed(s, ids.push(id)) == records_listed(s, ids).push(s.records[id]),
        !s.records.contains_key(id) ==> records_listed(s, ids.push(id)) == records_listed(s, ids),
{
    assert(ids.push(id).drop_last() =~= ids);
}

/// Whether `record` is the collectible stored under one of `ids`.
pub open spec fn stored_under_one_of(s: StateView, ids: Seq<u64>, record: CollectibleRecord) -> bool {
    exists|i: int| 0 <= i < ids.len() && #[trigger] s.records.contains_key(ids[i]) && s.records[ids[i]] == record
}

/// Every stored collectible whose id is in `ids` is listed, and everything
/// listed is the record stored under one of the ids; the listing is never
/// longer than `ids`.
pub proof fn lemma_records_listed_members(s: StateView, ids: Seq<u64>)
    ensures
        records_listed(s, ids).len() <= ids.len(),
        forall|i: int|
            0 <= i < ids.len() && s.records.contains_key(ids[i]) ==> records_listed(s, ids).contains(
                #[trigger] s.records[ids[i]],
            ),
        forall|j: int|
            0 <= j < records_listed(s, ids).len() ==> stored_under_one_of(s, ids, #[trigger] records_listed(s, ids)[j]),
    decreases ids.len(),
{
    if ids.len() > 0 {
        let init = ids.drop_last();
        lemma_records_listed_members(s, init);
        lemma_records_listed_push(s, init, ids.last());
        assert(init.push(ids.last()) =~= ids);
        let listed = records_listed(s, ids);
        let earlier = records_listed(s, init);
        assert forall|i: int| 0 <= i < ids.len() && s.records.contains_key(ids[i]) implies listed.contains(
            #[trigger] s.records[ids[i]],
        ) by {
            if i < ids.len() - 1 {
                assert(init[i] == ids[i]);
                let k = choose|k: int| 0 <= k < earlier.len() && earlier[k] == s.records[init[i]];
                assert(listed[k] == earlier[k]);
            } else {
                assert(listed[listed.len() - 1] == s.records[ids[i]]);
            }
        }
        assert forall|j: int| 0 <= j < listed.len() implies stored_under_one_of(s, ids, #[trigger] listed[j]) by {
            if j < earlier.len() {
                assert(listed[j] == earlier[j]);
                assert(stored_under_one_of(s, init, earlier[j]));
                let i = choose|i: int|
                    0 <= i < init.len() && #[trigger] s.records.contains_key(init[i]) && s.records[init[i]]
                        == earlier[j];
                assert(ids[i] == init[i]);
                assert(s.records.contains_key(ids[i]));
            } else {
                let i = ids.len() - 1;
                assert(listed[j] == s.records[ids[i]]);
                assert(s.records.contains_key(ids[i]));
            }
        }
    }
}

/// The ids 1 to `n`, in order.
pub open spec fn ids_one_to(n: nat) -> Seq<u64> {
    Seq::new(n, |i: int| (i + 1) as u64)
}

/// The listing of ids 1 to `n` extends the listing of ids 1 to `n - 1` by
/// the record stored under `n`, if any.
pub proof fn lemma_records_up_to_step(s: StateView, n: nat)
    requires
        n >= 1,
    ensures
        s.records.contains_key(n as u64) ==> records_up_to(s, n) == records_up_to(s, (n - 1) as nat).push(
            s.records[n as u64],
        ),
        !s.records.contains_key(n as u64) ==> records_up_to(s, n) == records_up_to(s, (n - 1) as nat),
{
}

/// `get_collectibles` lists exactly what listing the ids 1 to the count one
/// by one lists.
pub proof fn lemma_records_up_to_lists_ids_one_to(s: StateView, n: nat)
    requires
        n <= u64::MAX,
    ensures
        records_up_to(s, n) == records_listed(s, ids_one_to(n)),
    decreases n,
{
    if n > 0 {
        lemma_records_up_to_lists_ids_one_to(s, (n - 1) as nat);
        assert(ids_one_to(n).drop_last() =~= ids_one_to((n - 1) as nat));
        assert(ids_one_to(n).last() == n as u64);
    } else {
        assert(ids_one_to(n) =~= seq![]);
    }
}

/// Whether `record` is the collectible stored under some id from 1 to `n`.
pub open spec fn stored_under_id_up_to(s: StateView, n: nat, record: CollectibleRecord) -> bool {
    exists|k: u64| 1 <= k <= n && #[trigger] s.records.contains_key(k) && s.records[k] == record
}

/// `get_collectibles` lists every collectible stored under an id from 1 to
/// the count, and nothing but such collectibles.
pub proof fn lemma_records_up_to_members(s: StateView, n: nat)
    requires
        n <= u64::MAX,
    ensures
        forall|k: u64|
            1 <= k <= n && s.records.contains_key(k) ==> records_up_to(s, n).contains(#[trigger] s.records[k]),
        forall|j: int|
            0 <= j < records_up_to(s, n).len() ==> stored_under_id_up_to(s, n, #[trigger] records_up_to(s, n)[j]),
{
    let ids = ids_one_to(n);
    lemma_records_up_to_lists_ids_one_to(s, n);
    lemma_records_listed_members(s, ids);
    assert forall|k: u64| 1 <= k <= n && s.records.contains_key(k) implies records_up_to(s, n).contains(
        #[trigger] s.records[k],
    ) by {
        assert(ids[k - 1] == k);
    }
    assert forall|j: int| 0 <= j < records_up_to(s, n).len() implies stored_under_id_up_to(
        s,
        n,
        #[trigger] records_up_to(s, n)[j],
    ) by {
        assert(records_listed(s, ids)[j] == records_up_to(s, n)[j]);
        assert(stored_under_one_of(s, ids, records_listed(s, ids)[j]));
        let i = choose|i: int|
            0 <= i < ids.len() && #[trigger] s.records.contains_key(ids[i]) && s.records[ids[i]] == records_listed(
                s,
                ids,
            )[j];
        let k = (i + 1) as u64;
        assert(ids[i] == k);
        assert(s.records.contains_key(k));
    }
}

} // verus!
