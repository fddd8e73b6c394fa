//! The contract's state as plain values: its instance and persistent
//! storage entries, the events published in the current invocation and the
//! ledger sequence.

use std::collections::HashMap;
use vstd::prelude::*;
use crate::address::Address;
use crate::mint::{Collectible as MintedCollectible, MintEvent};
use crate::types::{Collectible, CollectibleRecord};

verus! {

broadcast use vstd::std_specs::hash::group_hash_axioms;

/// The items recorded for `owner` in an ownership log, in recording order.
pub open spec fn owned_by<T>(entries: Seq<(Address, T)>, owner: Address) -> Seq<T>
    decreases entries.len(),
{
    if entries.len() == 0 {
        seq![]
    } else {
        let earlier = owned_by(entries.drop_last(), owner);
        if entries.last().0 == owner {
            earlier.push(entries.last().1)
        } else {
            earlier
        }
    }
}

/// Recording an item extends the owner's list by that item and leaves the
/// lists of all other owners as they were.
pub proof fn lemma_owned_by_push<T>(entries: Seq<(Address, T)>, owner: Address, item: T, other: Address)
    ensures
        owned_by(entries.push((owner, item)), owner) == owned_by(entries, owner).push(item),
        other != owner ==> owned_by(entries.push((owner, item)), other) == owned_by(entries, other),
{
    assert(entries.push((owner, item)).drop_last() =~= entries);
}

/// A fresh contract: no admin, the first id handed out is 1, nothing minted
/// or counted, and every catalogue and collection empty.
pub proof fn lemma_empty_state(owner: Address)
    ensures
        StateView::empty().admin is None,
        StateView::empty().next_id_value() == 1,
        StateView::empty().minted_count() == 0,
        StateView::empty().templates_value() == 0,
        StateView::empty().count_value() == 0,
        StateView::empty().minted.dom().is_empty(),
        StateView::empty().records.dom().is_empty(),
        StateView::empty().catalogue(owner).len() == 0,
        StateView::empty().collection(owner).len() == 0,
        StateView::empty().events.len() == 0,
        StateView::empty().ids_below_counter(),
{
}

/// What the contract's state holds.
pub struct StateView {
    /// Instance entry `admin`: the platform admin.
    pub admin: Option<Address>,
    /// Instance entry `nxtcol`: the id the next minted collectible gets.
    pub next_collectible_id: Option<u32>,
    /// Instance entry `tmplcnt`: the number of collectible templates.
    pub templates_count: Option<u32>,
    /// Instance entry `CollectibleCount` of the purchase flow.
    pub collectible_count: Option<u64>,
    /// Persistent entries `(col, id)`: the minted collectibles.
    pub minted: Map<u32, MintedCollectible>,
    /// Persistent entries `(ucol, owner)`, as the log of `(owner, id)`
    /// records from which each owner's catalogue is read.
    pub catalogue_entries: Seq<(Address, u32)>,
    /// Persistent entries `Collectible(id)` of the purchase flow.
    pub records: Map<u64, CollectibleRecord>,
    /// Persistent entries `UserCollection(user)` of the purchase flow, as
    /// the log of `(user, id)` records from which each collection is read.
    pub collection_entries: Seq<(Address, u64)>,
    /// The events published since the log was last cleared; the host
    /// clears it at the start of every invocation.
    pub events: Seq<MintEvent>,
    /// The sequence number of the current ledger.
    pub ledger_sequence: u32,
}

impl StateView {
    /// A contract whose storage holds nothing, at ledger 0.
    pub open spec fn empty() -> StateView {
        StateView {
            admin: None,
            next_collectible_id: None,
            templates_count: None,
            collectible_count: None,
            minted: Map::empty(),
            catalogue_entries: seq![],
            records: Map::empty(),
            collection_entries: seq![],
            events: seq![],
            ledger_sequence: 0,
        }
    }

    /// The id the next minted collectible gets: the stored counter, or 1.
    pub open spec fn next_id_value(self) -> u32 {
        match self.next_collectible_id {
            Some(n) => n,
            None => 1,
        }
    }

    /// The number of collectibles minted so far.
    pub open spec fn minted_count(self) -> u32 {
        if self.next_id_value() == 0 {
            0
        } else {
            (self.next_id_value() - 1) as u32
        }
    }

    /// The stored number of templates, or 0.
    pub open spec fn templates_value(self) -> u32 {
        match self.templates_count {
            Some(n) => n,
            None => 0,
        }
    }

    /// The stored collectible count of the purchase flow, or 0.
    pub open spec fn count_value(self) -> u64 {
        match self.collectible_count {
            Some(n) => n,
            None => 0,
        }
    }

    /// The ids in `owner`'s catalogue of minted collectibles.
    pub open spec fn catalogue(self, owner: Address) -> Seq<u32> {
        owned_by(self.catalogue_entries, owner)
    }

    /// The ids in `user`'s collection.
    pub open spec fn collection(self, user: Address) -> Seq<u64> {
        owned_by(self.collection_entries, user)
    }

    /// The id counter is at least 1; every minted collectible is stored
    /// under its own id, and that id is at least 1 and below the counter.
    pub open spec fn ids_below_counter(self) -> bool {
        &&& self.next_id_value() >= 1
        &&& forall|k: u32|
            #[trigger] self.minted.contains_key(k) ==> 1 <= k < self.next_id_value()
                && self.minted[k].id == k
    }
}

/// The contract's storage, events and ledger sequence.
pub struct ContractState {
    admin: Option<Address>,
    next_collectible_id: Option<u32>,
    templates_count: Option<u32>,
    collectible_count: Option<u64>,
    minted: HashMap<u32, MintedCollectible>,
    catalogue_entries: Vec<(Address, u32)>,
    records: HashMap<u64, Collectible>,
    collection_entries: Vec<(Address, u64)>,
    events: Vec<MintEvent>,
    ledger_sequence: u32,
}

impl View for ContractState {
    type V = StateView;

    closed spec fn view(&self) -> StateView {
        StateView {
            admin: self.admin,
            next_collectible_id: self.next_collectible_id,
            templates_count: self.templates_count,
            collectible_count: self.collectible_count,
            minted: self.minted@,
            catalogue_entries: self.catalogue_entries@,
            records: self.records@.map_values(|c: Collectible| c@),
            collection_entries: self.collection_entries@,
            events: self.events@,
            ledger_sequence: self.ledger_sequence,
        }
    }
}

/// The items recorded for `owner` in `entries`, in recording order.
fn items_owned_by<T: Copy>(entries: &Vec<(Address, T)>, owner: &Address) -> (items: Vec<T>)
    ensures
        items@ == owned_by(entries@, *owner),
{
    let mut items: Vec<T> = Vec::new();
    let mut i: usize = 0;
    while i < entries.len()
        invariant
            i <= entries@.len(),
            items@ == owned_by(entries@.take(i as int), *owner),
        decreases entries@.len() - i,
    {
        let (entry_owner, item) = entries[i];
        proof {
            assert(entries@.take(i + 1).drop_last() =~= entries@.take(i as int));
        }
        if entry_owner == *owner {
            items.push(item);
        }
        i = i + 1;
    }
    proof {
        assert(entries@.take(entries@.len() as int) =~= entries@);
    }
    items
}

impl ContractState {
    /// The state's invariant: minted collectibles are stored under their
    /// ids, all below the id counter.
    pub open spec fn wf(&self) -> bool {
        self@.ids_below_counter()
    }

    /// A contract whose storage holds nothing, at ledger 0.
    pub fn new() -> (state: ContractState)
        ensures
            state@ == StateView::empty(),
            state.wf(),
    {
        let state = ContractState {
            admin: None,
            next_collectible_id: None,
            templates_count: None,
            collectible_count: None,
            minted: HashMap::new(),
            catalogue_entries: Vec::new(),
            records: HashMap::new(),
            collection_entries: Vec::new(),
            events: Vec::new(),
            ledger_sequence: 0,
        };
        proof {
            assert(state@.minted =~= Map::empty());
            assert(state@.records =~= Map::empty());
        }
        state
    }

    /// The stored admin.
    pub fn admin(&self) -> (admin: Option<Address>)
        ensures
            admin == self@.admin,
    {
        self.admin
    }

    /// Stores `admin` as the platform admin.
    pub fn set_admin(&mut self, admin: Address)
        ensures
            final(self)@ == (StateView { admin: Some(admin), ..old(self)@ }),
    {
        self.admin = Some(admin);
    }

    /// The sequence number of the current ledger.
    pub fn ledger_sequence(&self) -> (sequence: u32)
        ensures
            sequence == self@.ledger_sequence,
    {
        self.ledger_sequence
    }

    /// Moves to the ledger with sequence number `sequence`.
    pub fn set_ledger_sequence(&mut self, sequence: u32)
        ensures
            final(self)@ == (StateView { ledger_sequence: sequence, ..old(self)@ }),
    {
        self.ledger_sequence = sequence;
    }

    /// The stored id counter of the minting service.
    pub fn next_collectible_id(&self) -> (next: Option<u32>)
        ensures
            next == self@.next_collectible_id,
    {
        self.next_collectible_id
    }

    /// Stores `next` as the id counter of the minting service.
    pub fn set_next_collectible_id(&mut self, next: u32)
        requires
            old(self).wf(),
            next >= 1,
            forall|k: u32| #[trigger] old(self)@.minted.contains_key(k) ==> k < next,
        ensures
            final(self)@ == (StateView { next_collectible_id: Some(next), ..old(self)@ }),
            final(self).wf(),
    {
        self.next_collectible_id = Some(next);
    }

    /// The stored number of templates.
    pub fn templates_count(&self) -> (count: Option<u32>)
        ensures
            count == self@.templates_count,
    {
        self.templates_count
    }

    /// Stores `count` as the number of templates.
    pub fn set_templates_count(&mut self, count: u32)
        ensures
            final(self)@ == (StateView { templates_count: Some(count), ..old(self)@ }),
    {
        self.templates_count = Some(count);
    }

    /// The stored collectible count of the purchase flow.
    pub fn collectible_count(&self) -> (count: Option<u64>)
        ensures
            count == self@.collectible_count,
    {
        self.collectible_count
    }

    /// Stores `count` as the collectible count of the purchase flow.
    pub fn set_collectible_count(&mut self, count: u64)
        ensures
            final(self)@ == (StateView { collectible_count: Some(count), ..old(self)@ }),
    {
        self.collectible_count = Some(count);
    }

    /// The minted collectible stored under `id`.
    pub fn minted(&self, id: u32) -> (found: Option<MintedCollectible>)
        ensures
            found == (if self@.minted.contains_key(id) { Some(self@.minted[id]) } else { None }),
    {
        match self.minted.get(&id) {
            Some(c) => Some(*c),
            None => None,
        }
    }

    /// Stores `collectible` under its id.
    pub fn store_minted(&mut self, collectible: MintedCollectible)
        requires
            old(self).wf(),
            1 <= collectible.id < old(self)@.next_id_value(),
        ensures
            final(self)@ == (StateView {
                minted: old(self)@.minted.insert(collectible.id, collectible),
                ..old(self)@
            }),
            final(self).wf(),
    {
        self.minted.insert(collectible.id, collectible);
    }

    /// The ids in `owner`'s catalogue of minted collectibles.
    pub fn catalogue_of(&self, owner: &Address) -> (ids: Vec<u32>)
        ensures
            ids@ == self@.catalogue(*owner),
    {
        items_owned_by(&self.catalogue_entries, owner)
    }

    /// Appends `id` to `owner`'s catalogue.
    pub fn append_to_catalogue(&mut self, owner: Address, id: u32)
        ensures
            final(self)@ == (StateView {
                catalogue_entries: old(self)@.catalogue_entries.push((owner, id)),
                ..old(self)@
            }),
    {
        self.catalogue_entries.push((owner, id));
    }

    /// The collectible of the purchase flow stored under `id`.
    pub fn record(&self, id: u64) -> (found: Option<Collectible>)
        ensures
            match found {
                Some(c) => self@.records.contains_key(id) && c@ == self@.records[id],
                None => !self@.records.contains_key(id),
            },
    {
        match self.records.get(&id) {
            Some(c) => Some(c.clone()),
            None => None,
        }
    }

    /// Stores `collectible` under `id` for the purchase flow.
    pub fn store_record(&mut self, id: u64, collectible: Collectible)
        ensures
            final(self)@ == (StateView {
                records: old(self)@.records.insert(id, collectible@),
                ..old(self)@
            }),
    {
        let ghost view = collectible@;
        self.records.insert(id, collectible);
        proof {
            assert(self@.records =~= old(self)@.records.insert(id, view));
        }
    }

    /// The ids in `user`'s collection.
    pub fn collection_of(&self, user: &Address) -> (ids: Vec<u64>)
        ensures
            ids@ == self@.collection(*user),
    {
        items_owned_by(&self.collection_entries, user)
    }

    /// Appends `id` to `user`'s collection.
    pub fn append_to_collection(&mut self, user: Address, id: u64)
        ensures
            final(self)@ == (StateView {
                collection_entries: old(self)@.collection_entries.push((user, id)),
                ..old(self)@
            }),
    {
        self.collection_entries.push((user, id));
    }

    /// The events published since the log was last cleared.
    pub fn events(&self) -> (events: &Vec<MintEvent>)
        ensures
            events@ == self@.events,
    {
        &self.events
    }

    /// Clears the event log, as the host does when an invocation starts.
    pub fn clear_events(&mut self)
        ensures
            final(self)@ == (StateView { events: seq![], ..old(self)@ }),
    {
        self.events.clear();
    }

    /// Publishes `event`.
    pub fn publish(&mut self, event: MintEvent)
        ensures
            final(self)@ == (StateView { events: old(self)@.events.push(event), ..old(self)@ }),
    {
        self.events.push(event);
    }
}

} // verus!
