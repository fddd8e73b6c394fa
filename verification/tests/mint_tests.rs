use heritagechain::address::{Address, AddressKind};
use heritagechain::mint::{
    collectible_count, get_admin_collectibles, get_collectible, get_templates_count, mint_collectible,
    toggle_collectible, Collectible, MintError,
};
use heritagechain::state::ContractState;

struct TestEnv {
    env: ContractState,
    next_key: u128,
    admin: Address,
    artist: Address,
    site: Address,
}

fn generate(next_key: &mut u128) -> Address {
    *next_key += 1;
    Address::new(AddressKind::Account, *next_key, *next_key * 7)
}

fn make_env() -> TestEnv {
    let mut env = ContractState::new();
    let mut next_key = 0;
    let admin = generate(&mut next_key);
    let artist = generate(&mut next_key);
    let site = generate(&mut next_key);

    // Bootstrap the stored admin so auth checks pass
    env.set_admin(admin);

    TestEnv { env, next_key, admin, artist, site }
}

fn mint(t: &mut TestEnv, price: i128, supply: u32) -> u32 {
    mint_collectible(&mut t.env, t.admin, t.artist, t.site, price, supply).unwrap()
}

fn get(t: &TestEnv, id: u32) -> Option<Collectible> {
    get_collectible(&t.env, id)
}

fn toggle(t: &mut TestEnv, id: u32, is_active: bool) -> Result<(), MintError> {
    toggle_collectible(&mut t.env, t.admin, id, is_active)
}

fn admin_list(t: &TestEnv) -> Vec<u32> {
    get_admin_collectibles(&t.env, &t.admin)
}

fn count(t: &TestEnv) -> u32 {
    collectible_count(&t.env)
}

fn templates(t: &TestEnv) -> u32 {
    get_templates_count(&t.env)
}

// ── Happy-path ────────────────────────────────────────────────────────

#[test]
fn ids_are_sequential_from_one() {
    let mut t = make_env();
    let i1 = mint(&mut t, 100_0000000, 10_000);
    let i2 = mint(&mut t, 100_0000000, 100);
    let i3 = mint(&mut t, 500_0000000, 1);
    assert_eq!(i1, 1);
    assert_eq!(i2, 2);
    assert_eq!(i3, 3);
}

#[test]
fn available_supply_equals_total_supply_at_mint() {
    let mut t = make_env();
    let id = mint(&mut t, 100_0000000, 250);
    let c = get(&t, id).unwrap();
    assert_eq!(
        c.available_supply, c.total_supply,
        "INVARIANT BROKEN: available_supply must equal total_supply at birth"
    );
}

#[test]
fn is_active_is_true_after_mint() {
    let mut t = make_env();
    let id = mint(&mut t, 50_0000000, 500);
    assert!(get(&t, id).unwrap().is_active);
}

#[test]
fn price_stored_correctly() {
    let mut t = make_env();
    let id = mint(&mut t, 999_0000000, 10);
    assert_eq!(get(&t, id).unwrap().price, 999_0000000);
}

#[test]
fn artist_and_site_stored_correctly() {
    let mut t = make_env();
    let id = mint(&mut t, 10_0000000, 100);
    let c = get(&t, id).unwrap();
    assert_eq!(c.artist, t.artist);
    assert_eq!(c.site, t.site);
}

#[test]
fn owner_is_admin_at_mint_time() {
    let mut t = make_env();
    let id = mint(&mut t, 10_0000000, 100);
    assert_eq!(get(&t, id).unwrap().owner, t.admin);
}

#[test]
fn minted_at_is_current_ledger() {
    let mut t = make_env();
    let before = t.env.ledger_sequence();
    let id = mint(&mut t, 10_0000000, 100);
    let after = t.env.ledger_sequence();
    let minted = get(&t, id).unwrap().minted_at;
    assert!(minted >= before && minted <= after);
}

#[test]
fn admin_catalogue_updated_after_mint() {
    let mut t = make_env();
    let id1 = mint(&mut t, 10_0000000, 100);
    let id2 = mint(&mut t, 50_0000000, 50);
    let id3 = mint(&mut t, 500_0000000, 1);
    let list = admin_list(&t);
    assert_eq!(list.len(), 3);
    assert_eq!(list[0], id1);
    assert_eq!(list[1], id2);
    assert_eq!(list[2], id3);
}

#[test]
fn collectible_count_increments_per_mint() {
    let mut t = make_env();
    assert_eq!(count(&t), 0);
    mint(&mut t, 10_0000000, 100);
    assert_eq!(count(&t), 1);
    mint(&mut t, 10_0000000, 100);
    assert_eq!(count(&t), 2);
}

#[test]
fn templates_stat_increments_per_mint() {
    let mut t = make_env();
    let before = templates(&t);
    mint(&mut t, 10_0000000, 100);
    mint(&mut t, 10_0000000, 200);
    assert_eq!(templates(&t), before + 2);
}

// ── All three edition types ───────────────────────────────────────────

#[test]
fn pilgrim_edition_10k_supply() {
    let mut t = make_env();
    let id = mint(&mut t, 10_0000000, 10_000);
    let c = get(&t, id).unwrap();
    assert_eq!(c.total_supply, 10_000);
}

#[test]
fn collector_edition_100_supply() {
    let mut t = make_env();
    let id = mint(&mut t, 100_0000000, 100);
    let c = get(&t, id).unwrap();
    assert_eq!(c.total_supply, 100);
}

#[test]
fn guardian_edition_supply_one() {
    let mut t = make_env();
    let id = mint(&mut t, 500_0000000, 1);
    let c = get(&t, id).unwrap();
    assert_eq!(c.total_supply, 1);
    assert_eq!(c.available_supply, 1);
}

// ── Authorization ─────────────────────────────────────────────────────

#[test]
fn non_admin_cannot_mint() {
    let mut t = make_env();
    let intruder = generate(&mut t.next_key);
    let res = mint_collectible(&mut t.env, intruder, t.artist, t.site, 10_0000000, 100);
    assert_eq!(res, Err(MintError::Unauthorized));
}

#[test]
fn artist_address_cannot_mint() {
    let mut t = make_env();
    let res = mint_collectible(
        &mut t.env,
        t.artist, // artist ≠ admin
        t.artist,
        t.site,
        10_0000000,
        100,
    );
    assert_eq!(res, Err(MintError::Unauthorized));
}

// ── Input validation ──────────────────────────────────────────────────

#[test]
fn zero_price_rejected() {
    let mut t = make_env();
    let res = mint_collectible(&mut t.env, t.admin, t.artist, t.site, 0, 100);
    assert_eq!(res, Err(MintError::InvalidPrice));
}

#[test]
fn negative_price_rejected() {
    let mut t = make_env();
    let res = mint_collectible(&mut t.env, t.admin, t.artist, t.site, -1, 100);
    assert_eq!(res, Err(MintError::InvalidPrice));
}

#[test]
fn zero_supply_rejected() {
    let mut t = make_env();
    let res = mint_collectible(&mut t.env, t.admin, t.artist, t.site, 10_0000000, 0);
    assert_eq!(res, Err(MintError::InvalidSupply));
}

#[test]
fn supply_above_cap_rejected() {
    let mut t = make_env();
    let res = mint_collectible(&mut t.env, t.admin, t.artist, t.site, 10_0000000, 1_000_001);
    assert_eq!(res, Err(MintError::InvalidSupply));
}

#[test]
fn minimum_price_one_stroop_accepted() {
    let mut t = make_env();
    let id = mint(&mut t, 1, 100);
    assert_eq!(get(&t, id).unwrap().price, 1);
}

#[test]
fn minimum_supply_one_accepted() {
    let mut t = make_env();
    let id = mint(&mut t, 10_0000000, 1);
    let c = get(&t, id).unwrap();
    assert_eq!(c.total_supply, 1);
    assert_eq!(c.available_supply, 1);
}

#[test]
fn maximum_supply_one_million_accepted() {
    let mut t = make_env();
    let id = mint(&mut t, 1, 1_000_000);
    let c = get(&t, id).unwrap();
    assert_eq!(c.total_supply, 1_000_000);
    assert_eq!(c.available_supply, 1_000_000);
}

// ── toggle_collectible ────────────────────────────────────────────────

#[test]
fn toggle_deactivates_collectible() {
    let mut t = make_env();
    let id = mint(&mut t, 10_0000000, 100);
    assert!(get(&t, id).unwrap().is_active);

    toggle(&mut t, id, false).unwrap();
    assert!(!get(&t, id).unwrap().is_active);
}

#[test]
fn toggle_reactivates_collectible() {
    let mut t = make_env();
    let id = mint(&mut t, 10_0000000, 100);
    toggle(&mut t, id, false).unwrap();
    toggle(&mut t, id, true).unwrap();
    assert!(get(&t, id).unwrap().is_active);
}

#[test]
fn toggle_noop_on_same_state_succeeds() {
    let mut t = make_env();
    let id = mint(&mut t, 10_0000000, 100);
    // Already active — toggling to true is a no-op, should not error
    toggle(&mut t, id, true).unwrap();
    assert!(get(&t, id).unwrap().is_active);
}

#[test]
fn non_admin_cannot_toggle() {
    let mut t = make_env();
    let id = mint(&mut t, 10_0000000, 100);
    let intruder = generate(&mut t.next_key);
    let res = toggle_collectible(&mut t.env, intruder, id, false);
    assert_eq!(res, Err(MintError::Unauthorized));
}

#[test]
fn toggle_unknown_id_rejected() {
    let mut t = make_env();
    let res = toggle(&mut t, 999, false);
    assert_eq!(res, Err(MintError::CollectibleNotFound));
}

// ── get_collectible ───────────────────────────────────────────────────

#[test]
fn get_returns_none_for_unknown_id() {
    let t = make_env();
    assert!(get(&t, 999).is_none());
}

#[test]
fn get_returns_some_after_mint() {
    let mut t = make_env();
    let id = mint(&mut t, 10_0000000, 100);
    assert!(get(&t, id).is_some());
}

// ── Supply isolation ──────────────────────────────────────────────────

#[test]
fn mint_never_decrements_available_supply() {
    let mut t = make_env();
    let id = mint(&mut t, 10_0000000, 500);
    let c = get(&t, id).unwrap();
    assert_eq!(
        c.available_supply, c.total_supply,
        "mint must NEVER decrement available_supply (purchase module's job)"
    );
}

#[test]
fn multiple_collectibles_have_independent_supplies() {
    let mut t = make_env();
    let id1 = mint(&mut t, 10_0000000, 100);
    let id2 = mint(&mut t, 50_0000000, 50);
    let id3 = mint(&mut t, 500_0000000, 1);

    assert_eq!(get(&t, id1).unwrap().total_supply, 100);
    assert_eq!(get(&t, id2).unwrap().total_supply, 50);
    assert_eq!(get(&t, id3).unwrap().total_supply, 1);
}

// ── Idempotency & determinism ─────────────────────────────────────────

#[test]
fn twenty_mints_produce_twenty_unique_ids() {
    let mut t = make_env();
    let mut seen: Vec<u32> = Vec::new();
    for _ in 0..20_u32 {
        let id = mint(&mut t, 10_0000000, 10);
        for i in 0..seen.len() {
            assert_ne!(seen[i], id, "duplicate ID");
        }
        seen.push(id);
    }
    assert_eq!(seen.len(), 20);
}

#[test]
fn identical_inputs_still_produce_different_ids() {
    let mut t = make_env();
    let id1 = mint(&mut t, 10_0000000, 100);
    let id2 = mint(&mut t, 10_0000000, 100);
    assert_ne!(id1, id2, "IDs must differ even for identical inputs");
}

// ── Event emission ────────────────────────────────────────────────────

#[test]
fn mint_emits_at_least_one_event() {
    let mut t = make_env();
    let _id = mint(&mut t, 100_0000000, 250);
    assert!(!t.env.events().is_empty(), "mint_collectible must emit at least one event");
}

#[test]
fn toggle_emits_event_when_state_changes() {
    let mut t = make_env();
    let id = mint(&mut t, 10_0000000, 100);

    // Clear events from minting
    t.env.clear_events();

    toggle(&mut t, id, false).unwrap();

    assert_eq!(t.env.events().len(), 1, "toggle must emit exactly one event when state changes");
}

#[test]
fn toggle_noop_does_not_emit_event() {
    let mut t = make_env();
    let id = mint(&mut t, 10_0000000, 100);

    // Clear events from minting
    t.env.clear_events();

    // Already active — no-op
    toggle(&mut t, id, true).unwrap();

    assert_eq!(t.env.events().len(), 0, "no-op toggle must NOT emit an event");
}

// ── No side-effects ───────────────────────────────────────────────────

#[test]
fn mint_does_not_alter_available_supply_after_construction() {
    let mut t = make_env();
    let id = mint(&mut t, 10_0000000, 777);

    // Read back three times — value must be stable
    for _ in 0..3 {
        let c = get(&t, id).unwrap();
        assert_eq!(
            c.available_supply, 777,
            "available_supply changed without a purchase — module boundary violated"
        );
    }
}
