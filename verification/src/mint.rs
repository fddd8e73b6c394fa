//! Minting service: creation of limited-edition collectibles by the
//! platform admin, their activation and deactivation, and queries.
//!
//! Invariants kept by this module:
//!   - ids are assigned from a counter that starts at 1 and only grows, so
//!     no id is ever assigned twice;
//!   - `total_supply` is fixed at mint time and never changes;
//!   - `available_supply` equals `total_supply` at mint time and is never
//!     touched by this module; only a purchase lowers it;
//!   - `is_active` controls whether purchases are allowed.

use vstd::prelude::*;
use crate::address::Address;
use crate::state::{lemma_owned_by_push, ContractState, StateView};

verus! {

/// Largest number of units in one edition.
pub const MAX_TOTAL_SUPPLY: u32 = 1_000_000;

/// Master record for a limited-edition collectible created by the admin.
#[derive(Clone, Copy, Debug, PartialEq, Eq, Structural)]
pub struct Collectible {
    /// Assigned from the id counter; the first collectible gets 1.
    pub id: u32,
    /// Address of the artist who created the artwork.
    pub artist: Address,
    /// Address of the heritage site this collectible represents.
    pub site: Address,
    /// Price per unit in stroops; always greater than 0.
    pub price: i128,
    /// Controls the full supply at mint time: always the admin.
    pub owner: Address,
    /// Number of units in this edition; fixed at mint time.
    pub total_supply: u32,
    /// Units still available for purchase; starts equal to `total_supply`.
    pub available_supply: u32,
    /// Whether this collectible accepts purchases.
    pub is_active: bool,
    /// Ledger sequence at the moment this collectible was minted.
    pub minted_at: u32,
}

/// Data published after every successful mint.
#[derive(Clone, Copy, Debug, PartialEq, Eq, Structural)]
pub struct MintedEvent {
    pub id: u32,
    pub admin: Address,
    pub artist: Address,
    pub site: Address,
    pub price: i128,
    pub total_supply: u32,
    pub ledger: u32,
}

/// The events published by the minting service, under the topic `mint`.
#[derive(Clone, Copy, Debug, PartialEq, Eq, Structural)]
pub enum MintEvent {
    /// Topic `minted`: a collectible was created.
    Minted(MintedEvent),
    /// Topic `toggled`: the admin changed whether a collectible is active.
    Toggled { id: u32, admin: Address, is_active: bool },
    /// Topic `supply`: the available supply of a collectible dropped.
    SupplyChanged { id: u32, available_supply: u32, delta: u32 },
}

/// Errors of the minting service.
#[derive(Clone, Copy, Debug, PartialEq, Eq, PartialOrd, Ord, Structural)]
pub enum MintError {
    /// The caller is not the stored admin.
    Unauthorized,
    /// No collectible has the requested id.
    CollectibleNotFound,
    /// The price is not positive.
    InvalidPrice,
    /// A counter would overflow.
    OverflowError,
    /// The supply is 0 or above [`MAX_TOTAL_SUPPLY`].
    InvalidSupply,
}

impl MintError {
    /// The number under which the error is reported by the contract.
    pub fn code(&self) -> (code: u32)
        ensures
            code == match *self {
                MintError::Unauthorized => 3u32,
                MintError::CollectibleNotFound => 6u32,
                MintError::InvalidPrice => 10u32,
                MintError::OverflowError => 15u32,
                MintError::InvalidSupply => 16u32,
            },
    {
        match self {
            MintError::Unauthorized => 3,
            MintError::CollectibleNotFound => 6,
            MintError::InvalidPrice => 10,
            MintError::OverflowError => 15,
            MintError::InvalidSupply => 16,
        }
    }
}

// --- Specification ---

/// The error a mint request is refused with, if any: the caller must be the
/// stored admin, the price positive and the supply between 1 and
/// [`MAX_TOTAL_SUPPLY`], checked in this order.
pub open spec fn mint_refusal(s: StateView, admin: Address, price: i128, total_supply: u32) -> Option<MintError> {
    if s.admin != Some(admin) {
        Some(MintError::Unauthorized)
    } else if price <= 0 {
        Some(MintError::InvalidPrice)
    } else if total_supply == 0 || total_supply > MAX_TOTAL_SUPPLY {
        Some(MintError::InvalidSupply)
    } else {
        None
    }
}

/// The collectible an accepted mint request creates in state `s`: it gets
/// the next id, is owned by the admin, has all its supply available, is
/// active, and records the current ledger.
pub open spec fn new_collectible(
    s: StateView,
    admin: Address,
    artist: Address,
    site: Address,
    price: i128,
    total_supply: u32,
) -> Collectible {
    Collectible {
        id: s.next_id_value(),
        artist,
        site,
        price,
        owner: admin,
        total_supply,
        available_supply: total_supply,
        is_active: true,
        minted_at: s.ledger_sequence,
    }
}

/// What `mint_collectible` returns in state `s`.
pub open spec fn mint_result(s: StateView, admin: Address, price: i128, total_supply: u32) -> Result<u32, MintError> {
    match mint_refusal(s, admin, price, total_supply) {
        Some(e) => Err(e),
        None => if s.templates_value() == u32::MAX {
            Err(MintError::OverflowError)
        } else {
            Ok(s.next_id_value())
        },
    }
}

/// The state after `mint_collectible` in state `s`.  A refused request
/// changes nothing.  An accepted one takes the next id, stores the
/// new collectible and appends its id to the admin's catalogue; then, unless
/// the template counter is at its maximum (which fails with
/// `OverflowError` and leaves those entries written), it counts one more
/// template and publishes the `minted` event.  When the request runs as a
/// contract invocation, the host rolls back every entry written by an
/// invocation that returns an error, so on chain an `OverflowError` leaves
/// storage as it was.
pub open spec fn state_after_mint(
    s: StateView,
    admin: Address,
    artist: Address,
    site: Address,
    price: i128,
    total_supply: u32,
) -> StateView {
    match mint_refusal(s, admin, price, total_supply) {
        Some(_) => s,
        None => {
            let id = s.next_id_value();
            let stored = StateView {
                minted: s.minted.insert(id, new_collectible(s, admin, artist, site, price, total_supply)),
                catalogue_entries: s.catalogue_entries.push((admin, id)),
                ..next_id_step(s)
            };
            if s.templates_value() == u32::MAX {
                stored
            } else {
                StateView {
                    templates_count: Some((s.templates_value() + 1) as u32),
                    events: s.events.push(MintEvent::Minted(MintedEvent {
                        id,
                        admin,
                        artist,
                        site,
                        price,
                        total_supply,
                        ledger: s.ledger_sequence,
                    })),
                    ..stored
                }
            }
        },
    }
}

/// What `toggle_collectible` returns in state `s`.
pub open spec fn toggle_result(s: StateView, admin: Address, id: u32) -> Result<(), MintError> {
    if s.admin != Some(admin) {
        Err(MintError::Unauthorized)
    } else if !s.minted.contains_key(id) {
        Err(MintError::CollectibleNotFound)
    } else {
        Ok(())
    }
}

/// The state after `toggle_collectible` in state `s`: when the request is
/// accepted and changes the collectible's activity, the new activity is
/// stored and the `toggled` event published; otherwise nothing changes.
pub open spec fn state_after_toggle(s: StateView, admin: Address, id: u32, is_active: bool) -> StateView {
    if toggle_result(s, admin, id) is Ok && s.minted[id].is_active != is_active {
        StateView {
            minted: s.minted.insert(id, Collectible { is_active, ..s.minted[id] }),
            events: s.events.push(MintEvent::Toggled { id, admin, is_active }),
            ..s
        }
    } else {
        s
    }
}

/// The state after one id is taken from the counter: the counter holds the
/// id after it.
pub open spec fn next_id_step(s: StateView) -> StateView {
    StateView { next_collectible_id: Some((s.next_id_value() + 1) as u32), ..s }
}

/// The state after `n` ids are taken from the counter in a row.
pub open spec fn next_id_steps(s: StateView, n: nat) -> StateView
    decreases n,
{
    if n == 0 {
        s
    } else {
        next_id_step(next_id_steps(s, (n - 1) as nat))
    }
}

// --- Storage ---

/// Returns the next available collectible id and increments the stored
/// counter.  Ids start at 1 and are never reused.
fn get_next_id(env: &mut ContractState) -> (id: u32)
    requires
        old(env).wf(),
        old(env)@.next_id_value() < u32::MAX,
    ensures
        id == old(env)@.next_id_value(),
        final(env)@ == next_id_step(old(env)@),
        final(env).wf(),
{
    let id: u32 = match env.next_collectible_id() {
        Some(n) => n,
        None => 1,
    };
    env.set_next_collectible_id(id + 1);
    id
}

/// Persists a collectible under its id.
fn save_collectible(env: &mut ContractState, collectible: &Collectible)
    requires
        old(env).wf(),
        1 <= collectible.id < old(env)@.next_id_value(),
    ensures
        final(env)@ == (StateView {
            minted: old(env)@.minted.insert(collectible.id, *collectible),
            ..old(env)@
        }),
        final(env).wf(),
{
    env.store_minted(*collectible);
}

/// Retrieves a collectible by id; `None` if the id has never been minted.
fn get_collectible_by_id(env: &ContractState, id: u32) -> (found: Option<Collectible>)
    ensures
        found == (if env@.minted.contains_key(id) { Some(env@.minted[id]) } else { None }),
{
    env.minted(id)
}

/// Appends a collectible id to the owner's catalogue.
fn add_to_user(env: &mut ContractState, owner: &Address, collectible_id: u32)
    ensures
        final(env)@ == (StateView {
            catalogue_entries: old(env)@.catalogue_entries.push((*owner, collectible_id)),
            ..old(env)@
        }),
{
    env.append_to_catalogue(*owner, collectible_id);
}

/// Retrieves all collectible ids owned by an address.
fn get_user_collectibles(env: &ContractState, owner: &Address) -> (ids: Vec<u32>)
    ensures
        ids@ == env@.catalogue(*owner),
{
    env.catalogue_of(owner)
}

/// The total number of collectibles minted so far.
fn get_collectible_count(env: &ContractState) -> (count: u32)
    ensures
        count == env@.minted_count(),
{
    let next: u32 = match env.next_collectible_id() {
        Some(n) => n,
        None => 1,
    };
    next.saturating_sub(1)
}

// --- Events ---

/// Publishes the `minted` event.
fn emit_minted(
    env: &mut ContractState,
    id: u32,
    admin: &Address,
    artist: &Address,
    site: &Address,
    price: i128,
    total_supply: u32,
)
    ensures
        final(env)@ == (StateView {
            events: old(env)@.events.push(MintEvent::Minted(MintedEvent {
                id,
                admin: *admin,
                artist: *artist,
                site: *site,
                price,
                total_supply,
                ledger: old(env)@.ledger_sequence,
            })),
            ..old(env)@
        }),
{
    let ledger = env.ledger_sequence();
    env.publish(MintEvent::Minted(MintedEvent {
        id,
        admin: *admin,
        artist: *artist,
        site: *site,
        price,
        total_supply,
        ledger,
    }));
}

/// Publishes the `toggled` event.
fn emit_toggled(env: &mut ContractState, id: u32, admin: &Address, is_active: bool)
    ensures
        final(env)@ == (StateView {
            events: old(env)@.events.push(MintEvent::Toggled { id, admin: *admin, is_active }),
            ..old(env)@
        }),
{
    env.publish(MintEvent::Toggled { id, admin: *admin, is_active });
}

/// Publishes the `supply` event, by which the purchase flow reports that
/// the available supply of a collectible dropped by `delta`.
pub fn emit_supply_changed(env: &mut ContractState, id: u32, available_supply: u32, delta: u32)
    ensures
        final(env)@ == (StateView {
            events: old(env)@.events.push(MintEvent::SupplyChanged { id, available_supply, delta }),
            ..old(env)@
        }),
{
    env.publish(MintEvent::SupplyChanged { id, available_supply, delta });
}

/// The stored platform admin.
fn get_stored_admin(env: &ContractState) -> (admin: Address)
    requires
        env@.admin is Some,
    ensures
        env@.admin == Some(admin),
{
    env.admin().unwrap()
}

/// The number of collectible templates recorded in the platform stats.
pub fn get_templates_count(env: &ContractState) -> (count: u32)
    ensures
        count == env@.templates_value(),
{
    match env.templates_count() {
        Some(n) => n,
        None => 0,
    }
}

fn set_templates_count(env: &mut ContractState, count: u32)
    ensures
        final(env)@ == (StateView { templates_count: Some(count), ..old(env)@ }),
{
    env.set_templates_count(count);
}


// --- Business logic ---

/// Creates a new limited-edition collectible and registers it in the
/// contract's storage; returns the id assigned to it.
///
/// The caller's signature is checked by the host before this is called;
/// here the caller must also equal the stored admin.  The price must be
/// positive and the supply between 1 and [`MAX_TOTAL_SUPPLY`].  The new
/// collectible is owned by the admin, has all its supply available and is
/// active; its id is appended to the admin's catalogue, the template count
/// grows by one and the `minted` event is published last.
pub fn mint_collectible(
    env: &mut ContractState,
    admin: Address,
    artist: Address,
    site: Address,
    price: i128,
    total_supply: u32,
) -> (result: Result<u32, MintError>)
    requires
        old(env).wf(),
        old(env)@.admin is Some,
        mint_refusal(old(env)@, admin, price, total_supply) is None ==> old(env)@.next_id_value() < u32::MAX,
    ensures
        final(env).wf(),
        result == mint_result(old(env)@, admin, price, total_supply),
        final(env)@ == state_after_mint(old(env)@, admin, artist, site, price, total_supply),
{
    let stored_admin = get_stored_admin(env);
    if admin != stored_admin {
        return Err(MintError::Unauthorized);
    }
    if price <= 0 {
        return Err(MintError::InvalidPrice);
    }
    if total_supply == 0 || total_supply > MAX_TOTAL_SUPPLY {
        return Err(MintError::InvalidSupply);
    }
    let id = get_next_id(env);
    let collectible = Collectible {
        id,
        artist,
        site,
        price,
        owner: admin,
        total_supply,
        available_supply: total_supply,
        is_active: true,
        minted_at: env.ledger_sequence(),
    };
    save_collectible(env, &collectible);
    add_to_user(env, &admin, id);
    let templates_count = get_templates_count(env);
    let templates_count = match templates_count.checked_add(1) {
        Some(n) => n,
        None => return Err(MintError::OverflowError),
    };
    set_templates_count(env, templates_count);
    emit_minted(env, id, &admin, &artist, &site, price, total_supply);
    Ok(id)
}

/// Activates or deactivates a collectible without destroying it.
///
/// Admin only; the collectible must exist.  When the collectible already
/// has the requested activity nothing is written and no event published.
/// While a collectible is inactive every purchase of it is refused;
/// reactivating it resumes purchases from the supply left.  No supply is
/// restored or consumed.
pub fn toggle_collectible(env: &mut ContractState, admin: Address, id: u32, is_active: bool) -> (result: Result<(), MintError>)
    requires
        old(env).wf(),
        old(env)@.admin is Some,
    ensures
        final(env).wf(),
        result == toggle_result(old(env)@, admin, id),
        final(env)@ == state_after_toggle(old(env)@, admin, id, is_active),
{
    let stored_admin = get_stored_admin(env);
    if admin != stored_admin {
        return Err(MintError::Unauthorized);
    }
    let mut collectible = match get_collectible_by_id(env, id) {
        Some(c) => c,
        None => return Err(MintError::CollectibleNotFound),
    };
    assert(env@.minted.contains_key(id));
    if collectible.is_active == is_active {
        return Ok(());
    }
    collectible.is_active = is_active;
    save_collectible(env, &collectible);
    emit_toggled(env, id, &admin, is_active);
    Ok(())
}

/// Whether an accepted mint request would find the id counter at its
/// maximum, so that no id is left to assign.  Callers test this before
/// calling [`mint_collectible`], which requires it to be false.
pub fn mint_ids_exhausted(env: &ContractState, admin: &Address, price: i128, total_supply: u32) -> (exhausted: bool)
    requires
        env@.admin is Some,
    ensures
        exhausted == (mint_refusal(env@, *admin, price, total_supply) is None && env@.next_id_value() == u32::MAX),
{
    let stored_admin = get_stored_admin(env);
    let accepted = *admin == stored_admin && price > 0 && total_supply != 0 && total_supply <= MAX_TOTAL_SUPPLY;
    let next: u32 = match env.next_collectible_id() {
        Some(n) => n,
        None => 1,
    };
    accepted && next == u32::MAX
}

/// Retrieves a collectible by its id; `None` if not found.
pub fn get_collectible(env: &ContractState, id: u32) -> (found: Option<Collectible>)
    ensures
        found == (if env@.minted.contains_key(id) { Some(env@.minted[id]) } else { None }),
{
    get_collectible_by_id(env, id)
}

/// All collectible ids in an owner's catalogue, in minting order.
pub fn get_admin_collectibles(env: &ContractState, admin: &Address) -> (ids: Vec<u32>)
    ensures
        ids@ == env@.catalogue(*admin),
{
    get_user_collectibles(env, admin)
}

/// The total number of collectibles minted so far.
pub fn collectible_count(env: &ContractState) -> (count: u32)
    ensures
        count == env@.minted_count(),
{
    get_collectible_count(env)
}


/// Taking ids from the counter `n` times in a row (`get_next_id`, whose
/// new state is `next_id_step`) hands out the ids `k`,
/// `k + 1`, ..., `k + n - 1` where `k` is the counter before (1 when it was
/// never set): each id once, and then the counter holds `k + n` and the
/// count of minted collectibles (`get_collectible_count`, which returns
/// `minted_count`) has grown by `n`.  Starting from an unset counter, the
/// count is `n`, and the ids handed out are 1 to `n`.
pub proof fn lemma_successive_ids(s: StateView, n: nat)
    requires
        s.next_id_value() >= 1,
        s.next_id_value() + n <= u32::MAX,
    ensures
        next_id_steps(s, n).next_id_value() == s.next_id_value() + n,
        next_id_steps(s, n).minted_count() == s.minted_count() + n,
        s.next_collectible_id is None ==> next_id_steps(s, n).minted_count() == n,
        s.next_collectible_id is None ==> forall|i: nat|
            i < n ==> #[trigger] next_id_steps(s, i).next_id_value() == i + 1,
        forall|i: nat, j: nat|
            i < j <= n ==> #[trigger] next_id_steps(s, i).next_id_value() < #[trigger] next_id_steps(
                s,
                j,
            ).next_id_value(),
        next_id_steps(s, n).minted == s.minted,
        next_id_steps(s, n).catalogue_entries == s.catalogue_entries,
    decreases n,
{
    if n > 0 {
        lemma_successive_ids(s, (n - 1) as nat);
    }
    assert forall|i: nat, j: nat| i < j <= n implies #[trigger] next_id_steps(s, i).next_id_value()
        < #[trigger] next_id_steps(s, j).next_id_value() by {
        lemma_id_after_steps(s, i, n);
        lemma_id_after_steps(s, j, n);
    }
}

proof fn lemma_id_after_steps(s: StateView, i: nat, n: nat)
    requires
        i <= n,
        s.next_id_value() + n <= u32::MAX,
    ensures
        next_id_steps(s, i).next_id_value() == s.next_id_value() + i,
    decreases i,
{
    if i > 0 {
        lemma_id_after_steps(s, (i - 1) as nat, n);
    }
}

/// A collectible saved under its id (`save_collectible`) is read back
/// unchanged by `get_collectible_by_id`; the entries of other ids stay as
/// they were, and an id never saved reads as absent.
pub proof fn lemma_minted_read_after_save(s: StateView, collectible: Collectible, other: u32)
    ensures
        ({
            let after = StateView { minted: s.minted.insert(collectible.id, collectible), ..s };
            &&& after.minted.contains_key(collectible.id)
            &&& after.minted[collectible.id] == collectible
            &&& other != collectible.id ==> after.minted.contains_key(other) == s.minted.contains_key(other)
            &&& other != collectible.id && s.minted.contains_key(other) ==> after.minted[other]
                == s.minted[other]
        }),
{
}

// --- Laws ---

/// An accepted mint gets the id the counter holds (1 for the first mint),
/// which no stored collectible has, and moves the counter one past it, so
/// the count of minted collectibles grows by one and ids are never reused.
pub proof fn lemma_mint_assigns_fresh_sequential_id(
    s: StateView,
    admin: Address,
    artist: Address,
    site: Address,
    price: i128,
    total_supply: u32,
)
    requires
        s.ids_below_counter(),
        mint_refusal(s, admin, price, total_supply) is None ==> s.next_id_value() < u32::MAX,
    ensures
        mint_result(s, admin, price, total_supply) matches Ok(id) ==> {
            let after = state_after_mint(s, admin, artist, site, price, total_supply);
            &&& id == s.next_id_value()
            &&& id >= 1
            &&& s.next_collectible_id is None ==> id == 1
            &&& !s.minted.contains_key(id)
            &&& forall|k: u32| #[trigger] s.minted.contains_key(k) ==> k < id
            &&& after.next_id_value() == id + 1
            &&& after.minted_count() == s.minted_count() + 1
            &&& after.ids_below_counter()
        },
{
}

/// A successful mint stores the new collectible under its id, read back
/// unchanged: owned by the admin, all its supply available, active, minted
/// at the current ledger; every other collectible stays as it was.
pub proof fn lemma_mint_stores_new_collectible(
    s: StateView,
    admin: Address,
    artist: Address,
    site: Address,
    price: i128,
    total_supply: u32,
)
    requires
        s.ids_below_counter(),
    ensures
        mint_result(s, admin, price, total_supply) matches Ok(id) ==> {
            let after = state_after_mint(s, admin, artist, site, price, total_supply);
            let c = after.minted[id];
            &&& after.minted.contains_key(id)
            &&& c == new_collectible(s, admin, artist, site, price, total_supply)
            &&& c.id == id
            &&& c.owner == admin && c.artist == artist && c.site == site
            &&& c.price == price && c.price > 0
            &&& c.total_supply == total_supply && 1 <= total_supply <= MAX_TOTAL_SUPPLY
            &&& c.available_supply == c.total_supply
            &&& c.is_active
            &&& c.minted_at == s.ledger_sequence
            &&& forall|k: u32| k != id ==> (after.minted.contains_key(k) == s.minted.contains_key(k)
                && after.minted[k] == s.minted[k])
        },
{
}

/// A successful mint appends the new id to the admin's catalogue and leaves
/// every other catalogue unchanged.
pub proof fn lemma_mint_appends_to_admin_catalogue(
    s: StateView,
    admin: Address,
    artist: Address,
    site: Address,
    price: i128,
    total_supply: u32,
    other: Address,
)
    ensures
        mint_result(s, admin, price, total_supply) matches Ok(id) ==> {
            let after = state_after_mint(s, admin, artist, site, price, total_supply);
            &&& after.catalogue(admin) == s.catalogue(admin).push(id)
            &&& other != admin ==> after.catalogue(other) == s.catalogue(other)
        },
{
    lemma_owned_by_push(s.catalogue_entries, admin, s.next_id_value(), other);
}

/// A successful mint counts one more template and publishes exactly one
/// event, the `minted` event of the new collectible, after the events
/// published before; a failed one publishes nothing.  A refused request
/// changes nothing at all.
pub proof fn lemma_mint_outcome(
    s: StateView,
    admin: Address,
    artist: Address,
    site: Address,
    price: i128,
    total_supply: u32,
)
    ensures
        ({
            let after = state_after_mint(s, admin, artist, site, price, total_supply);
            &&& mint_result(s, admin, price, total_supply) matches Ok(id) ==> {
                &&& after.templates_value() == s.templates_value() + 1
                &&& after.events == s.events.push(MintEvent::Minted(MintedEvent {
                    id,
                    admin,
                    artist,
                    site,
                    price,
                    total_supply,
                    ledger: s.ledger_sequence,
                }))
            }
            &&& mint_result(s, admin, price, total_supply) is Err ==> after.events == s.events
            &&& mint_refusal(s, admin, price, total_supply) is Some ==> {
                &&& mint_result(s, admin, price, total_supply) is Err
                &&& after == s
            }
        }),
{
}

/// Toggling changes at most the activity of the one requested collectible:
/// no collectible appears or disappears, supplies, prices and owners stay as
/// they were, and no other storage entry changes.  On success the
/// collectible has the requested activity, and the `toggled` event is
/// published exactly when the activity changed.
pub proof fn lemma_toggle_changes_only_activity(s: StateView, admin: Address, id: u32, is_active: bool)
    ensures
        ({
            let after = state_after_toggle(s, admin, id, is_active);
            &&& after.minted.dom() == s.minted.dom()
            &&& forall|k: u32| #[trigger] s.minted.contains_key(k) ==> after.minted[k] == (Collectible {
                is_active: after.minted[k].is_active,
                ..s.minted[k]
            })
            &&& forall|k: u32| k != id ==> after.minted[k] == s.minted[k]
            &&& after.next_collectible_id == s.next_collectible_id
            &&& after.templates_count == s.templates_count
            &&& after.catalogue_entries == s.catalogue_entries
            &&& after.admin == s.admin
            &&& toggle_result(s, admin, id) is Ok ==> after.minted[id].is_active == is_active
            &&& after.events == (if toggle_result(s, admin, id) is Ok && s.minted[id].is_active
                != is_active {
                s.events.push(MintEvent::Toggled { id, admin, is_active })
            } else {
                s.events
            })
        }),
{
    let after = state_after_toggle(s, admin, id, is_active);
    if toggle_result(s, admin, id) is Ok && s.minted[id].is_active != is_active {
        assert(after.minted.dom() =~= s.minted.dom());
    }
}

/// A mint request is accepted exactly when the caller is the stored admin,
/// the price is positive and the supply is between 1 and one million; it
/// then succeeds unless the template counter is at its maximum.  Each
/// refusal names the first check that fails.
pub proof fn lemma_mint_accepted_exactly_when(s: StateView, admin: Address, price: i128, total_supply: u32)
    ensures
        mint_refusal(s, admin, price, total_supply) is None <==> (s.admin == Some(admin) && price > 0
            && 1 <= total_supply <= 1_000_000),
        mint_result(s, admin, price, total_supply) is Ok <==> (s.admin == Some(admin) && price > 0 && 1
            <= total_supply <= 1_000_000 && s.templates_value() < u32::MAX),
        s.admin != Some(admin) ==> mint_result(s, admin, price, total_supply) == Err::<u32, MintError>(
            MintError::Unauthorized,
        ),
        s.admin == Some(admin) && price <= 0 ==> mint_result(s, admin, price, total_supply) == Err::<
            u32,
            MintError,
        >(MintError::InvalidPrice),
        s.admin == Some(admin) && price > 0 && (total_supply == 0 || total_supply > 1_000_000) ==> mint_result(
            s,
            admin,
            price,
            total_supply,
        ) == Err::<u32, MintError>(MintError::InvalidSupply),
        s.admin == Some(admin) && price > 0 && 1 <= total_supply <= 1_000_000 && s.templates_value()
            == u32::MAX ==> mint_result(s, admin, price, total_supply) == Err::<u32, MintError>(
            MintError::OverflowError,
        ),
{
}

/// Toggling is refused only for a caller who is not the stored admin
/// (`Unauthorized`) or an id never minted (`CollectibleNotFound`); for the
/// admin and a minted collectible it succeeds whatever the collectible's
/// supply, sales or current activity, and afterwards the collectible has
/// the requested activity.
pub proof fn lemma_toggle_refused_only_for_stranger_or_unknown_id(
    s: StateView,
    admin: Address,
    id: u32,
    is_active: bool,
)
    ensures
        s.admin == Some(admin) && s.minted.contains_key(id) ==> toggle_result(s, admin, id) == Ok::<(), MintError>(()),
        s.admin == Some(admin) && s.minted.contains_key(id) ==> state_after_toggle(s, admin, id, is_active).minted[id]
            == (Collectible { is_active, ..s.minted[id] }),
        s.admin != Some(admin) ==> toggle_result(s, admin, id) == Err::<(), MintError>(MintError::Unauthorized),
        s.admin == Some(admin) && !s.minted.contains_key(id) ==> toggle_result(s, admin, id) == Err::<
            (),
            MintError,
        >(MintError::CollectibleNotFound),
        toggle_result(s, admin, id) is Err ==> state_after_toggle(s, admin, id, is_active) == s,
{
}

/// Deactivating an active collectible and activating it again restores
/// every collectible exactly: no supply is restored or consumed.
pub proof fn lemma_toggle_off_on_restores(s: StateView, admin: Address, id: u32)
    requires
        s.minted.contains_key(id) ==> s.minted[id].is_active,
    ensures
        state_after_toggle(state_after_toggle(s, admin, id, false), admin, id, true).minted == s.minted,
{
    let mid = state_after_toggle(s, admin, id, false);
    let end = state_after_toggle(mid, admin, id, true);
    if toggle_result(s, admin, id) is Ok {
        assert(end.minted =~= s.minted);
    }
}

} // verus!
