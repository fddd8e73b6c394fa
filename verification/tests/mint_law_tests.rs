use heritagechain::address::{Address, AddressKind};
use heritagechain::mint::{
    collectible_count, emit_supply_changed, get_admin_collectibles, get_collectible, get_templates_count,
    mint_collectible, toggle_collectible, MintError, MintEvent, MintedEvent, MAX_TOTAL_SUPPLY,
};
use heritagechain::state::ContractState;

#[test]
fn successive_ids_from_an_unset_counter() {
    let (mut env, admin, artist, site) = setup();
    for n in 1..=5u32 {
        assert_eq!(mint_collectible(&mut env, admin, artist, site, 10, 10), Ok(n));
        assert_eq!(collectible_count(&env), n);
    }
}

fn account(n: u128) -> Address {
    Address::new(AddressKind::Account, n, n)
}

fn setup() -> (ContractState, Address, Address, Address) {
    let mut env = ContractState::new();
    let admin = account(1);
    let artist = account(2);
    let site = Address::new(AddressKind::Contract, 3, 3);
    env.set_admin(admin);
    (env, admin, artist, site)
}

#[test]
fn minted_event_carries_the_new_collectible() {
    let (mut env, admin, artist, site) = setup();
    env.set_ledger_sequence(42);
    let id = mint_collectible(&mut env, admin, artist, site, 25, 3).unwrap();
    assert_eq!(
        env.events(),
        &vec![MintEvent::Minted(MintedEvent { id, admin, artist, site, price: 25, total_supply: 3, ledger: 42 })]
    );
    assert_eq!(get_collectible(&env, id).unwrap().minted_at, 42);
}

#[test]
fn refused_mint_consumes_no_id() {
    let (mut env, admin, artist, site) = setup();
    assert_eq!(mint_collectible(&mut env, artist, artist, site, 5, 5), Err(MintError::Unauthorized));
    assert_eq!(mint_collectible(&mut env, admin, artist, site, 0, 5), Err(MintError::InvalidPrice));
    assert_eq!(mint_collectible(&mut env, admin, artist, site, 5, 0), Err(MintError::InvalidSupply));
    assert!(env.events().is_empty());
    assert_eq!(collectible_count(&env), 0);
    assert_eq!(get_templates_count(&env), 0);
    assert!(get_admin_collectibles(&env, &admin).is_empty());
    assert_eq!(mint_collectible(&mut env, admin, artist, site, 5, 5), Ok(1));
}

#[test]
fn unauthorized_is_reported_before_invalid_inputs() {
    let (mut env, _admin, artist, site) = setup();
    assert_eq!(mint_collectible(&mut env, artist, artist, site, 0, 0), Err(MintError::Unauthorized));
}

#[test]
fn invalid_price_is_reported_before_invalid_supply() {
    let (mut env, admin, artist, site) = setup();
    assert_eq!(mint_collectible(&mut env, admin, artist, site, -5, 0), Err(MintError::InvalidPrice));
}

#[test]
fn supply_cap_is_one_million() {
    assert_eq!(MAX_TOTAL_SUPPLY, 1_000_000);
}

#[test]
fn template_counter_overflow_fails_after_storing() {
    let (mut env, admin, artist, site) = setup();
    env.set_templates_count(u32::MAX);
    let res = mint_collectible(&mut env, admin, artist, site, 10, 10);
    assert_eq!(res, Err(MintError::OverflowError));
    // The collectible was stored and the id taken before the counter check.
    assert_eq!(collectible_count(&env), 1);
    assert!(get_collectible(&env, 1).is_some());
    assert_eq!(get_admin_collectibles(&env, &admin), vec![1]);
    assert_eq!(get_templates_count(&env), u32::MAX);
    assert!(env.events().is_empty());
}

#[test]
fn stored_counter_decides_the_next_id() {
    let (mut env, admin, artist, site) = setup();
    env.set_next_collectible_id(10);
    assert_eq!(collectible_count(&env), 9);
    assert_eq!(mint_collectible(&mut env, admin, artist, site, 10, 10), Ok(10));
    assert_eq!(collectible_count(&env), 10);
}

#[test]
fn catalogues_of_other_owners_are_unaffected() {
    let (mut env, admin, artist, site) = setup();
    mint_collectible(&mut env, admin, artist, site, 10, 10).unwrap();
    assert_eq!(get_admin_collectibles(&env, &admin), vec![1]);
    assert!(get_admin_collectibles(&env, &artist).is_empty());
}

#[test]
fn toggle_event_carries_the_new_activity() {
    let (mut env, admin, artist, site) = setup();
    let id = mint_collectible(&mut env, admin, artist, site, 10, 10).unwrap();
    toggle_collectible(&mut env, admin, id, false).unwrap();
    assert_eq!(env.events().len(), 2);
    assert_eq!(env.events()[1], MintEvent::Toggled { id, admin, is_active: false });
}

#[test]
fn toggle_off_and_on_restores_the_collectible() {
    let (mut env, admin, artist, site) = setup();
    let id = mint_collectible(&mut env, admin, artist, site, 10, 10).unwrap();
    let before = get_collectible(&env, id).unwrap();
    toggle_collectible(&mut env, admin, id, false).unwrap();
    let off = get_collectible(&env, id).unwrap();
    assert_eq!(off.available_supply, before.available_supply);
    assert_eq!(off.total_supply, before.total_supply);
    toggle_collectible(&mut env, admin, id, true).unwrap();
    assert_eq!(get_collectible(&env, id).unwrap(), before);
}

#[test]
fn toggle_leaves_other_collectibles_alone() {
    let (mut env, admin, artist, site) = setup();
    let a = mint_collectible(&mut env, admin, artist, site, 10, 10).unwrap();
    let b = mint_collectible(&mut env, admin, artist, site, 20, 20).unwrap();
    let b_before = get_collectible(&env, b).unwrap();
    toggle_collectible(&mut env, admin, a, false).unwrap();
    assert_eq!(get_collectible(&env, b).unwrap(), b_before);
    assert_eq!(collectible_count(&env), 2);
}

#[test]
fn refused_toggle_publishes_nothing() {
    let (mut env, admin, artist, site) = setup();
    let id = mint_collectible(&mut env, admin, artist, site, 10, 10).unwrap();
    env.clear_events();
    assert_eq!(toggle_collectible(&mut env, artist, id, false), Err(MintError::Unauthorized));
    assert!(env.events().is_empty());
    assert!(get_collectible(&env, id).unwrap().is_active);
}

#[test]
fn events_accumulate_until_cleared() {
    let (mut env, admin, artist, site) = setup();
    mint_collectible(&mut env, admin, artist, site, 10, 10).unwrap();
    mint_collectible(&mut env, admin, artist, site, 10, 10).unwrap();
    assert_eq!(env.events().len(), 2);
    env.clear_events();
    assert!(env.events().is_empty());
    assert_eq!(mint_collectible(&mut env, admin, artist, site, 0, 10), Err(MintError::InvalidPrice));
    assert!(env.events().is_empty());
}

#[test]
fn supply_changed_event_is_published() {
    let (mut env, _admin, _artist, _site) = setup();
    emit_supply_changed(&mut env, 4, 90, 10);
    assert_eq!(env.events(), &vec![MintEvent::SupplyChanged { id: 4, available_supply: 90, delta: 10 }]);
}

#[test]
fn mint_error_codes() {
    assert_eq!(MintError::Unauthorized.code(), 3);
    assert_eq!(MintError::CollectibleNotFound.code(), 6);
    assert_eq!(MintError::InvalidPrice.code(), 10);
    assert_eq!(MintError::OverflowError.code(), 15);
    assert_eq!(MintError::InvalidSupply.code(), 16);
    assert!(MintError::Unauthorized < MintError::CollectibleNotFound);
    assert!(MintError::OverflowError < MintError::InvalidSupply);
}
