//! Purchase of a collectible: the price is split between the treasury, the
//! site fund and the artist, the buyer becomes the owner, and one unit of
//! the minted edition's available supply is consumed.
//!
//! A collectible is bought by the id under which both its record and its
//! minted edition are stored.  Purchases are rejected while the admin has
//! deactivated the edition, and once its supply is sold out.

use vstd::prelude::*;
use crate::address::Address;
use crate::mint::{self, lemma_minted_read_after_save, state_after_toggle, toggle_result, Collectible as MintedCollectible, MintEvent};
use crate::split::{split_of, split_payment, splittable, lemma_split_preserves_total};
use crate::state::{lemma_owned_by_push, ContractState, StateView};
use crate::storage::{add_to_user, get_collectible, has_collectible, save_collectible};
use crate::types::CollectibleRecord;

verus! {

/// A token transfer the purchase asks the token contract to make.
#[derive(Clone, Copy, Debug, PartialEq, Eq, Structural)]
pub struct Transfer {
    /// The token contract.
    pub token: Address,
    pub from: Address,
    pub to: Address,
    pub amount: i128,
}

/// Why a purchase is rejected.
#[derive(Clone, Copy, Debug, PartialEq, Eq, Structural)]
pub enum PurchaseRefusal {
    /// No collectible record, or no minted edition, is stored under the id.
    CollectibleNotFound,
    /// The buyer already owns the collectible.
    AlreadyOwned,
    /// The admin has deactivated the edition.
    NotActive,
    /// No unit of the edition is left.
    SoldOut,
    /// The price is too large to be split.
    PriceOverflow,
}

/// The minted edition of the collectible bought under `id`.
pub open spec fn edition(s: StateView, id: u64) -> MintedCollectible {
    s.minted[id as u32]
}

/// Why `buyer` may not buy collectible `id`, if anything stops it: the
/// collectible must exist with its record and its minted edition, the buyer
/// must not own it yet, the edition must be active with a unit left, and
/// the price must split without overflow; checked in this order.
pub open spec fn purchase_refusal(s: StateView, buyer: Address, id: u64) -> Option<PurchaseRefusal> {
    if !s.records.contains_key(id) || id > u32::MAX || !s.minted.contains_key(id as u32) {
        Some(PurchaseRefusal::CollectibleNotFound)
    } else if s.collection(buyer).contains(id) {
        Some(PurchaseRefusal::AlreadyOwned)
    } else if !edition(s, id).is_active {
        Some(PurchaseRefusal::NotActive)
    } else if edition(s, id).available_supply == 0 {
        Some(PurchaseRefusal::SoldOut)
    } else if !splittable(s.records[id].price as int) {
        Some(PurchaseRefusal::PriceOverflow)
    } else {
        None
    }
}

/// Whether `buyer` may buy collectible `id`.
pub open spec fn purchasable(s: StateView, buyer: Address, id: u64) -> bool {
    purchase_refusal(s, buyer, id) is None
}

/// The transfers that pay for `record` bought by `buyer`: its price split
/// 70/20/10 between the treasury, the site fund and the artist, in that
/// order.
pub open spec fn purchase_transfers(
    record: CollectibleRecord,
    buyer: Address,
    token: Address,
    treasury: Address,
    site_fund: Address,
) -> Seq<Transfer> {
    let split = split_of(record.price as int);
    seq![
        Transfer { token, from: buyer, to: treasury, amount: split.treasury_amount },
        Transfer { token, from: buyer, to: site_fund, amount: split.site_fund_amount },
        Transfer { token, from: buyer, to: record.artist, amount: split.artist_amount },
    ]
}

/// The state after `buyer` bought collectible `id`: the buyer is its owner,
/// the id ends the buyer's collection, the edition has one unit less
/// available, and the `supply` event reports the drop.
pub open spec fn state_after_purchase(s: StateView, buyer: Address, id: u64) -> StateView {
    let remaining = (edition(s, id).available_supply - 1) as u32;
    StateView {
        records: s.records.insert(id, CollectibleRecord { owner: buyer, ..s.records[id] }),
        collection_entries: s.collection_entries.push((buyer, id)),
        minted: s.minted.insert(id as u32, MintedCollectible { available_supply: remaining, ..edition(s, id) }),
        events: s.events.push(MintEvent::SupplyChanged { id: id as u32, available_supply: remaining, delta: 1 }),
        ..s
    }
}

/// Why `buyer` may not buy collectible `collectible_id`, if anything stops
/// it.  Callers test this before calling [`purchase_collectible`], which
/// requires that nothing does.
pub fn check_purchase(env: &ContractState, buyer: Address, collectible_id: u64) -> (refusal: Option<PurchaseRefusal>)
    ensures
        refusal == purchase_refusal(env@, buyer, collectible_id),
{
    let record = match get_collectible(env, collectible_id) {
        Some(r) => r,
        None => return Some(PurchaseRefusal::CollectibleNotFound),
    };
    if collectible_id > 0xffff_ffffu64 {
        return Some(PurchaseRefusal::CollectibleNotFound);
    }
    let minted = match mint::get_collectible(env, collectible_id as u32) {
        Some(m) => m,
        None => return Some(PurchaseRefusal::CollectibleNotFound),
    };
    if has_collectible(env, buyer, collectible_id) {
        return Some(PurchaseRefusal::AlreadyOwned);
    }
    if !minted.is_active {
        return Some(PurchaseRefusal::NotActive);
    }
    if minted.available_supply == 0 {
        return Some(PurchaseRefusal::SoldOut);
    }
    if record.price.checked_mul(70).is_none() {
        return Some(PurchaseRefusal::PriceOverflow);
    }
    None
}

/// Buys collectible `collectible_id` for `buyer`, paying in `token`.
///
/// The buyer's signature is checked by the host before this is called.
/// Returns the three transfers, from the buyer to the treasury, the site
/// fund and the artist, that pay the split price; the buyer becomes the
/// owner, the id is recorded in the buyer's collection, and one unit of the
/// edition's available supply is consumed and reported.
pub fn purchase_collectible(
    env: &mut ContractState,
    buyer: Address,
    collectible_id: u64,
    token: Address,
    treasury: Address,
    site_fund: Address,
) -> (transfers: Vec<Transfer>)
    requires
        old(env).wf(),
        purchasable(old(env)@, buyer, collectible_id),
    ensures
        final(env).wf(),
        transfers@ == purchase_transfers(old(env)@.records[collectible_id], buyer, token, treasury, site_fund),
        final(env)@ == state_after_purchase(old(env)@, buyer, collectible_id),
{
    let mut collectible = get_collectible(env, collectible_id).unwrap();
    let owned = has_collectible(env, buyer, collectible_id);
    assert(!owned);
    let split = split_payment(collectible.price);
    let treasury_share = split.treasury_amount;
    let site_share = split.site_fund_amount;
    let artist_share = split.artist_amount;
    let mut transfers: Vec<Transfer> = Vec::new();
    transfers.push(Transfer { token, from: buyer, to: treasury, amount: treasury_share });
    transfers.push(Transfer { token, from: buyer, to: site_fund, amount: site_share });
    transfers.push(Transfer { token, from: buyer, to: collectible.artist, amount: artist_share });
    collectible.owner = buyer;
    save_collectible(env, collectible_id, &collectible);
    add_to_user(env, buyer, collectible_id);

    let edition_id = collectible_id as u32;
    let mut edition = mint::get_collectible(env, edition_id).unwrap();
    assert(env@.minted.contains_key(edition_id));
    edition.available_supply = edition.available_supply - 1;
    env.store_minted(edition);
    mint::emit_supply_changed(env, edition_id, edition.available_supply, 1);
    proof {
        assert(transfers@ =~= purchase_transfers(old(env)@.records[collectible_id], buyer, token, treasury, site_fund));
    }
    transfers
}

// --- Laws ---

/// A purchase pays exactly the price, all of it from the buyer; afterwards
/// the buyer owns the collectible and holds it in its collection, so the
/// same buyer cannot buy it again; the edition has one unit less available
/// and the same total supply, and the drop is reported; no other
/// collectible or edition changes.
pub proof fn lemma_purchase_outcome(
    s: StateView,
    buyer: Address,
    id: u64,
    token: Address,
    treasury: Address,
    site_fund: Address,
    other: u64,
    other_edition: u32,
    other_user: Address,
)
    requires
        purchasable(s, buyer, id),
    ensures
        ({
            let t = purchase_transfers(s.records[id], buyer, token, treasury, site_fund);
            let after = state_after_purchase(s, buyer, id);
            &&& t.len() == 3
            &&& t[0].amount + t[1].amount + t[2].amount == s.records[id].price
            &&& forall|i: int| 0 <= i < 3 ==> #[trigger] t[i].from == buyer && t[i].token == token
            &&& after.records[id].owner == buyer
            &&& after.records[id] == (CollectibleRecord { owner: buyer, ..s.records[id] })
            &&& after.collection(buyer).contains(id)
            &&& after.collection(buyer) == s.collection(buyer).push(id)
            &&& other_user != buyer ==> after.collection(other_user) == s.collection(other_user)
            &&& !purchasable(after, buyer, id)
            &&& other != id ==> after.records[other] == s.records[other]
            &&& after.minted.contains_key(id as u32)
            &&& edition(after, id).available_supply == edition(s, id).available_supply - 1
            &&& edition(after, id).total_supply == edition(s, id).total_supply
            &&& edition(after, id).is_active
            &&& after.events == s.events.push(MintEvent::SupplyChanged {
                id: id as u32,
                available_supply: edition(after, id).available_supply,
                delta: 1,
            })
            &&& other_edition != id as u32 ==> after.minted.contains_key(other_edition)
                == s.minted.contains_key(other_edition)
            &&& other_edition != id as u32 && s.minted.contains_key(other_edition)
                ==> after.minted[other_edition] == s.minted[other_edition]
        }),
{
    lemma_split_preserves_total(s.records[id].price);
    lemma_owned_by_push(s.collection_entries, buyer, id, buyer);
    lemma_owned_by_push(s.collection_entries, buyer, id, other_user);
    assert(s.collection(buyer).push(id).last() == id);
    let remaining = (edition(s, id).available_supply - 1) as u32;
    lemma_minted_read_after_save(
        s,
        MintedCollectible { available_supply: remaining, ..edition(s, id) },
        other_edition,
    );
}

/// A purchase is allowed exactly when the collectible's record and its
/// minted edition exist under the id, the buyer does not own it yet, the
/// edition is active with at least one unit available (the last unit
/// included), and the price splits without overflow.  Sold out is
/// reported only when no unit is left.
pub proof fn lemma_purchase_allowed_exactly_when(s: StateView, buyer: Address, id: u64)
    ensures
        purchasable(s, buyer, id) <==> {
            &&& s.records.contains_key(id)
            &&& id <= u32::MAX
            &&& s.minted.contains_key(id as u32)
            &&& !s.collection(buyer).contains(id)
            &&& s.minted[id as u32].is_active
            &&& s.minted[id as u32].available_supply >= 1
            &&& i128::MIN <= s.records[id].price * 70 <= i128::MAX
        },
        purchase_refusal(s, buyer, id) == Some(PurchaseRefusal::SoldOut) ==> s.minted[id as u32].available_supply
            == 0,
        purchase_refusal(s, buyer, id) == Some(PurchaseRefusal::NotActive) ==> !s.minted[id as u32].is_active,
        purchase_refusal(s, buyer, id) == Some(PurchaseRefusal::AlreadyOwned) ==> s.collection(buyer).contains(id),
        purchase_refusal(s, buyer, id) == Some(PurchaseRefusal::CollectibleNotFound) ==> !s.records.contains_key(id)
            || id > u32::MAX || !s.minted.contains_key(id as u32),
{
}

/// The purchase pays the treasury 70% and the site fund 20% of the price
/// (rounded toward zero), and the artist of the record the rest, all from
/// the buyer in the given token, in that order.
pub proof fn lemma_purchase_pays_the_three_recipients(
    record: CollectibleRecord,
    buyer: Address,
    token: Address,
    treasury: Address,
    site_fund: Address,
)
    requires
        splittable(record.price as int),
    ensures
        ({
            let t = purchase_transfers(record, buyer, token, treasury, site_fund);
            let p = record.price as int;
            &&& t.len() == 3
            &&& t[0].to == treasury && t[1].to == site_fund && t[2].to == record.artist
            &&& t[0].from == buyer && t[1].from == buyer && t[2].from == buyer
            &&& t[0].token == token && t[1].token == token && t[2].token == token
            &&& p >= 0 ==> 100 * t[0].amount <= 70 * p < 100 * t[0].amount + 100
            &&& p >= 0 ==> 100 * t[1].amount <= 20 * p < 100 * t[1].amount + 100
            &&& t[0].amount + t[1].amount + t[2].amount == p
        }),
{
    crate::split::lemma_split_shares_are_percentages(record.price);
}

/// An edition the admin has deactivated cannot be bought, by anyone, until
/// it is activated again: after a successful `toggle_collectible(.., false)`
/// every purchase of it is refused (`purchase_collectible` requires
/// `purchasable`, and `check_purchase` reports the refusal, `NotActive` for
/// a buyer who could otherwise buy it), so no transfer is made and no owner
/// or collection changes.
pub proof fn lemma_deactivated_collectible_cannot_be_bought(s: StateView, admin: Address, id: u64, buyer: Address)
    requires
        id <= u32::MAX,
        toggle_result(s, admin, id as u32) is Ok,
    ensures
        !purchasable(state_after_toggle(s, admin, id as u32, false), buyer, id),
        purchase_refusal(state_after_toggle(s, admin, id as u32, false), buyer, id) != Some(PurchaseRefusal::SoldOut),
        s.records.contains_key(id) && !s.collection(buyer).contains(id) ==> purchase_refusal(
            state_after_toggle(s, admin, id as u32, false),
            buyer,
            id,
        ) == Some(PurchaseRefusal::NotActive),
{
}

/// Any inactive edition refuses purchases, and so does a sold-out one: no
/// purchase ever takes the available supply below zero.
pub proof fn lemma_inactive_or_sold_out_cannot_be_bought(s: StateView, buyer: Address, id: u64)
    requires
        id <= u32::MAX,
        s.minted.contains_key(id as u32),
        !edition(s, id).is_active || edition(s, id).available_supply == 0,
    ensures
        !purchasable(s, buyer, id),
{
}

/// Reactivating an edition restores exactly the purchases that were
/// possible before it was deactivated.
pub proof fn lemma_reactivated_collectible_can_be_bought_again(s: StateView, admin: Address, id: u64, buyer: Address)
    requires
        id <= u32::MAX,
        purchasable(s, buyer, id),
    ensures
        purchasable(
            state_after_toggle(state_after_toggle(s, admin, id as u32, false), admin, id as u32, true),
            buyer,
            id,
        ),
{
    mint::lemma_toggle_off_on_restores(s, admin, id as u32);
}

} // verus!
