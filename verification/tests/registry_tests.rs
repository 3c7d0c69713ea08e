use name_registry::errors::Error;
use name_registry::name::{get_root_name, validate_name};
use name_registry::registry::{Event, Registry, ASSET_AMOUNT_PER_YEAR, ONE_YEAR_IN_SECONDS};
use name_registry::token::Token;

const MAX_ASSET_AMOUNT: u64 = 100000;

fn bytes(s: &str) -> Vec<u8> {
    s.as_bytes().to_vec()
}

fn setup() -> (Registry, Token, Vec<u8>, Vec<u8>, Vec<u8>) {
    let registry_id = bytes("registry");
    let com_tld = bytes("com");
    let owner = bytes("owner");
    let resolver = bytes("resolver");
    let mut token = Token::new();
    token.mint(&owner, MAX_ASSET_AMOUNT);
    let mut registry = Registry::new(registry_id.clone(), vec![com_tld.clone()]);
    registry.set_resolver(resolver).unwrap();
    (registry, token, registry_id, com_tld, owner)
}

#[test]
fn test_basic_funtional() {
    let (mut registry, mut token, registry_id, com_tld, owner) = setup();
    let name = bytes("ttt");
    let resolver = bytes("resolver");

    let is_registered = registry.is_name_registered(&name, &com_tld);
    assert_eq!(is_registered, false);

    registry
        .register_name(&mut token, &owner, name.clone(), com_tld.clone(), owner.clone(), 1, 0)
        .unwrap();

    assert_eq!(
        registry.events,
        vec![Event::Register {
            owner: owner.clone(),
            name: name.clone(),
            tld: com_tld.clone(),
            years: 1,
        }]
    );

    let is_registered = registry.is_name_registered(&name, &com_tld);
    assert_eq!(is_registered, true);

    assert_eq!(registry.get_owner(&name, &com_tld, 0), Ok(owner.clone()));
    assert_eq!(registry.get_resolver(&name, &com_tld, 0), Ok(resolver));
    assert_eq!(registry.is_name_expired(&name, &com_tld, 0), Ok(false));
    assert_eq!(token.balance(&owner), MAX_ASSET_AMOUNT - ASSET_AMOUNT_PER_YEAR);
    assert_eq!(token.balance(&registry_id), ASSET_AMOUNT_PER_YEAR);
}

#[test]
fn test_make_sell_offer() {
    let (mut registry, mut token, _registry_id, com_tld, owner) = setup();
    let name = bytes("ttt");

    registry
        .register_name(&mut token, &owner, name.clone(), com_tld.clone(), owner.clone(), 1, 0)
        .unwrap();

    registry.make_sell_offer(&owner, &name, &com_tld, 10, 0).unwrap();

    assert_eq!(
        registry.events.last(),
        Some(&Event::MakeOffer {
            seller: owner.clone(),
            name: name.clone(),
            tld: com_tld.clone(),
            price: 10,
        })
    );

    let offer = registry.get_sell_offer(&name, &com_tld).unwrap();
    assert_eq!(offer.seller, owner);

    let buyer = bytes("buyer");
    token.mint(&buyer, MAX_ASSET_AMOUNT);

    registry.buy_name(&mut token, &buyer, &name, &com_tld, buyer.clone()).unwrap();

    assert_eq!(
        registry.events.last(),
        Some(&Event::Buy {
            buyer: buyer.clone(),
            name: name.clone(),
            tld: com_tld.clone(),
            price: 10,
        })
    );

    assert_eq!(registry.get_owner(&name, &com_tld, 0), Ok(buyer));
    assert_eq!(token.balance(&owner), MAX_ASSET_AMOUNT - 10);
}

#[test]
fn test_cancel_sell_offer() {
    let (mut registry, mut token, _registry_id, com_tld, owner) = setup();
    let name = bytes("ttt");

    registry
        .register_name(&mut token, &owner, name.clone(), com_tld.clone(), owner.clone(), 1, 0)
        .unwrap();

    registry.make_sell_offer(&owner, &name, &com_tld, 10, 0).unwrap();

    registry.cancel_sell_offer(&owner, &name, &com_tld).unwrap();

    assert_eq!(
        registry.events.last(),
        Some(&Event::CancelOffer {
            seller: owner.clone(),
            name: name.clone(),
            tld: com_tld.clone(),
        })
    );

    assert_eq!(registry.get_sell_offer(&name, &com_tld), Err(Error::NoOffer));
}

#[test]
fn test_check_sub_domain() {
    let (mut registry, mut token, _registry_id, com_tld, owner) = setup();
    let name = bytes("ttt");

    let is_registered = registry.is_name_registered(&name, &com_tld);
    assert_eq!(is_registered, false);

    registry
        .register_name(&mut token, &owner, name.clone(), com_tld.clone(), owner.clone(), 1, 0)
        .unwrap();

    let sub_name = bytes("me.ttt");

    assert_eq!(registry.is_name_registered(&sub_name, &com_tld), true);
    assert_eq!(registry.get_owner(&sub_name, &com_tld, 0), Ok(owner));
    assert_eq!(registry.is_name_expired(&sub_name, &com_tld, 0), Ok(false));
}

#[test]
fn test_name_invalid_because_uppercase() {
    let (mut registry, mut token, _registry_id, com_tld, owner) = setup();
    let name = bytes("DOMAIN");

    let r = registry.register_name(&mut token, &owner, name, com_tld, owner.clone(), 1, 0);
    assert_eq!(r, Err(Error::NameInvalid));
}

#[test]
fn test_name_invalid_because_not_ascii_alphabetic() {
    let (mut registry, mut token, _registry_id, com_tld, owner) = setup();
    let name = bytes("domain-");

    let r = registry.register_name(&mut token, &owner, name, com_tld, owner.clone(), 1, 0);
    assert_eq!(r, Err(Error::NameInvalid));
}

#[test]
fn test_name_invalid_because_too_short() {
    let (mut registry, mut token, _registry_id, com_tld, owner) = setup();
    let name = bytes("d0");

    let r = registry.register_name(&mut token, &owner, name, com_tld, owner.clone(), 1, 0);
    assert_eq!(r, Err(Error::NameInvalid));
}

#[test]
fn test_name_invalid_because_too_long() {
    let (mut registry, mut token, _registry_id, com_tld, owner) = setup();
    let name = bytes("thisdomainisverylongsoitshouldbeinvalid");

    let r = registry.register_name(&mut token, &owner, name, com_tld, owner.clone(), 1, 0);
    assert_eq!(r, Err(Error::NameInvalid));
}

#[test]
fn test_transfer_owner_ship() {
    let (mut registry, mut token, _registry_id, com_tld, owner) = setup();
    let name = bytes("test");

    registry
        .register_name(&mut token, &owner, name.clone(), com_tld.clone(), owner.clone(), 1, 0)
        .unwrap();

    let new_owner = bytes("newowner");

    registry.transfer(&owner, &name, &com_tld, new_owner.clone(), 0).unwrap();

    assert_eq!(registry.get_owner(&name, &com_tld, 0), Ok(new_owner));
}

#[test]
fn test_register_unsupported_tld() {
    let (mut registry, mut token, _registry_id, _com_tld, owner) = setup();
    let net_tld = bytes("net");
    let name = bytes("test");

    let r = registry.register_name(&mut token, &owner, name, net_tld, owner.clone(), 1, 0);
    assert_eq!(r, Err(Error::TLDNotSupported));
}

#[test]
fn test_get_owner_from_unregistered_name() {
    let (registry, _token, _registry_id, com_tld, _owner) = setup();
    let name = bytes("test");

    assert_eq!(registry.get_owner(&name, &com_tld, 0), Err(Error::NameNotRegistered));
}

#[test]
fn test_name_should_be_expired() {
    let (mut registry, mut token, _registry_id, com_tld, owner) = setup();
    let name = bytes("test");

    registry
        .register_name(&mut token, &owner, name.clone(), com_tld.clone(), owner.clone(), 1, 0)
        .unwrap();

    let later: u64 = 1000000000000000;

    assert_eq!(registry.is_name_registered(&name, &com_tld), true);
    assert_eq!(registry.is_name_expired(&name, &com_tld, later), Ok(true));
}

#[test]
fn test_register_name_that_expired() {
    let (mut registry, mut token, _registry_id, com_tld, owner) = setup();
    let name = bytes("test");

    registry
        .register_name(&mut token, &owner, name.clone(), com_tld.clone(), owner.clone(), 1, 0)
        .unwrap();

    let later: u64 = 1000000000000000;

    registry
        .register_name(&mut token, &owner, name.clone(), com_tld.clone(), owner.clone(), 1, later)
        .unwrap();

    assert_eq!(registry.is_name_expired(&name, &com_tld, later), Ok(false));
    assert_eq!(
        registry.get_name(&name, &com_tld, later).unwrap().expiry,
        later + ONE_YEAR_IN_SECONDS
    );
}

#[test]
fn register_active_name_fails() {
    let (mut registry, mut token, _registry_id, com_tld, owner) = setup();
    let name = bytes("test");

    registry
        .register_name(&mut token, &owner, name.clone(), com_tld.clone(), owner.clone(), 1, 0)
        .unwrap();

    let other = bytes("other");
    token.mint(&other, MAX_ASSET_AMOUNT);
    let r = registry.register_name(&mut token, &other, name, com_tld, other.clone(), 1, 100);
    assert_eq!(r, Err(Error::NameAlreadyRegistered));
}

#[test]
fn register_fails_without_funds() {
    let (mut registry, mut token, _registry_id, com_tld, _owner) = setup();
    let poor = bytes("poor");
    let name = bytes("test");

    let r = registry.register_name(&mut token, &poor, name.clone(), com_tld.clone(), poor.clone(),
        1, 0);
    assert_eq!(r, Err(Error::TransferFailed));
    assert_eq!(registry.is_name_registered(&name, &com_tld), false);
    assert_eq!(token.balance(&poor), 0);
}

#[test]
fn register_charges_per_year() {
    let (mut registry, mut token, registry_id, com_tld, owner) = setup();
    let name = bytes("test");

    registry
        .register_name(&mut token, &owner, name.clone(), com_tld.clone(), owner.clone(), 3, 0)
        .unwrap();

    assert_eq!(token.balance(&owner), MAX_ASSET_AMOUNT - 3 * ASSET_AMOUNT_PER_YEAR);
    assert_eq!(token.balance(&registry_id), 3 * ASSET_AMOUNT_PER_YEAR);
    assert_eq!(
        registry.get_name(&name, &com_tld, 0).unwrap().expiry,
        3 * ONE_YEAR_IN_SECONDS
    );
}

#[test]
fn register_requires_callers_own_identity() {
    let (mut registry, mut token, _registry_id, com_tld, owner) = setup();
    let intruder = bytes("intruder");
    let name = bytes("test");

    let r = registry.register_name(&mut token, &intruder, name, com_tld, owner.clone(), 1, 0);
    assert_eq!(r, Err(Error::AuthorizationFailed));
}

#[test]
fn register_zero_years_expires_at_once() {
    let (mut registry, mut token, _registry_id, com_tld, owner) = setup();
    let name = bytes("test");

    registry
        .register_name(&mut token, &owner, name.clone(), com_tld.clone(), owner.clone(), 0, 50)
        .unwrap();

    assert_eq!(registry.is_name_expired(&name, &com_tld, 50), Ok(false));
    assert_eq!(registry.is_name_expired(&name, &com_tld, 51), Ok(true));
    assert_eq!(registry.get_owner(&name, &com_tld, 51), Err(Error::NameExpired));
}

#[test]
fn name_length_bounds() {
    let (mut registry, mut token, _registry_id, com_tld, owner) = setup();
    let longest = bytes("abcdefghijklmnopqrstuvwx");
    assert_eq!(longest.len(), 24);
    let r = registry.register_name(&mut token, &owner, longest.clone(), com_tld.clone(),
        owner.clone(), 1, 0);
    assert_eq!(r, Ok(()));

    let too_long = bytes("abcdefghijklmnopqrstuvwxy");
    let r = registry.register_name(&mut token, &owner, too_long, com_tld.clone(), owner.clone(),
        1, 0);
    assert_eq!(r, Err(Error::NameInvalid));

    let shortest = bytes("abc");
    let r = registry.register_name(&mut token, &owner, shortest, com_tld, owner.clone(), 1, 0);
    assert_eq!(r, Ok(()));
}

#[test]
fn validate_subdomain_forms() {
    assert_eq!(validate_name(&bytes("me.ttt"), true), Ok(()));
    assert_eq!(validate_name(&bytes("mettt"), true), Ok(()));
    assert_eq!(validate_name(&bytes(".mettt"), true), Err(Error::NameInvalid));
    assert_eq!(validate_name(&bytes("mettt."), true), Err(Error::NameInvalid));
    assert_eq!(validate_name(&bytes("me..ttt"), true), Err(Error::NameInvalid));
    assert_eq!(validate_name(&bytes("a.b.ttt"), true), Err(Error::NameInvalid));
    assert_eq!(validate_name(&bytes("me.ttt"), false), Err(Error::NameInvalid));
}

#[test]
fn root_of_qualified_and_root_names() {
    assert_eq!(get_root_name(&bytes("me.ttt")), bytes("ttt"));
    assert_eq!(get_root_name(&bytes("ttt")), bytes("ttt"));
}

#[test]
fn transfer_by_non_owner_fails() {
    let (mut registry, mut token, _registry_id, com_tld, owner) = setup();
    let name = bytes("test");

    registry
        .register_name(&mut token, &owner, name.clone(), com_tld.clone(), owner.clone(), 1, 0)
        .unwrap();

    let intruder = bytes("intruder");
    let r = registry.transfer(&intruder, &name, &com_tld, intruder.clone(), 0);
    assert_eq!(r, Err(Error::AuthorizationFailed));
    assert_eq!(registry.get_owner(&name, &com_tld, 0), Ok(owner));
}

#[test]
fn marketplace_round_trip_moves_the_price() {
    let (mut registry, mut token, _registry_id, com_tld, owner) = setup();
    let name = bytes("test");

    registry
        .register_name(&mut token, &owner, name.clone(), com_tld.clone(), owner.clone(), 1, 0)
        .unwrap();

    let owner_before = token.balance(&owner);
    let buyer = bytes("buyer");
    token.mint(&buyer, MAX_ASSET_AMOUNT);

    registry.make_sell_offer(&owner, &name, &com_tld, 77, 0).unwrap();
    registry.buy_name(&mut token, &buyer, &name, &com_tld, buyer.clone()).unwrap();

    assert_eq!(registry.get_owner(&name, &com_tld, 0), Ok(buyer.clone()));
    assert_eq!(registry.get_sell_offer(&name, &com_tld), Err(Error::NoOffer));
    assert_eq!(token.balance(&owner), owner_before + 77);
    assert_eq!(token.balance(&buyer), MAX_ASSET_AMOUNT - 77);
}

#[test]
fn buy_without_funds_changes_nothing() {
    let (mut registry, mut token, _registry_id, com_tld, owner) = setup();
    let name = bytes("test");

    registry
        .register_name(&mut token, &owner, name.clone(), com_tld.clone(), owner.clone(), 1, 0)
        .unwrap();
    registry.make_sell_offer(&owner, &name, &com_tld, 77, 0).unwrap();

    let poor = bytes("poor");
    let r = registry.buy_name(&mut token, &poor, &name, &com_tld, poor.clone());
    assert_eq!(r, Err(Error::TransferFailed));
    assert_eq!(registry.get_owner(&name, &com_tld, 0), Ok(owner));
    assert!(registry.get_sell_offer(&name, &com_tld).is_ok());
}

#[test]
fn cancel_offer_requires_seller() {
    let (mut registry, mut token, _registry_id, com_tld, owner) = setup();
    let name = bytes("test");

    registry
        .register_name(&mut token, &owner, name.clone(), com_tld.clone(), owner.clone(), 1, 0)
        .unwrap();
    registry.make_sell_offer(&owner, &name, &com_tld, 5, 0).unwrap();

    let intruder = bytes("intruder");
    let r = registry.cancel_sell_offer(&intruder, &name, &com_tld);
    assert_eq!(r, Err(Error::AuthorizationFailed));
    assert!(registry.get_sell_offer(&name, &com_tld).is_ok());
}

#[test]
fn cancel_offer_without_offer_fails() {
    let (mut registry, mut token, _registry_id, com_tld, owner) = setup();
    let name = bytes("test");

    registry
        .register_name(&mut token, &owner, name.clone(), com_tld.clone(), owner.clone(), 1, 0)
        .unwrap();

    let r = registry.cancel_sell_offer(&owner, &name, &com_tld);
    assert_eq!(r, Err(Error::NoOffer));
}

#[test]
fn set_resolver_is_one_time() {
    let mut registry = Registry::new(bytes("registry"), vec![bytes("com")]);
    assert_eq!(registry.default_resolver(), None);
    assert_eq!(registry.set_resolver(bytes("resone")), Ok(()));
    assert_eq!(registry.set_resolver(bytes("restwo")), Err(Error::ResolverAlreadySet));
    assert_eq!(registry.default_resolver(), Some(&bytes("resone")));
}

#[test]
fn expired_name_is_expired_exactly_past_expiry() {
    let (mut registry, mut token, _registry_id, com_tld, owner) = setup();
    let name = bytes("test");

    registry
        .register_name(&mut token, &owner, name.clone(), com_tld.clone(), owner.clone(), 1, 0)
        .unwrap();

    assert_eq!(registry.is_name_expired(&name, &com_tld, ONE_YEAR_IN_SECONDS), Ok(false));
    assert_eq!(registry.is_name_expired(&name, &com_tld, ONE_YEAR_IN_SECONDS + 1), Ok(true));
    assert_eq!(
        registry.is_name_expired(&bytes("other"), &com_tld, 0),
        Err(Error::NameNotRegistered)
    );
}

#[test]
fn offer_survives_ownership_transfer() {
    let (mut registry, mut token, _registry_id, com_tld, owner) = setup();
    let name = bytes("test");

    registry
        .register_name(&mut token, &owner, name.clone(), com_tld.clone(), owner.clone(), 1, 0)
        .unwrap();
    registry.make_sell_offer(&owner, &name, &com_tld, 30, 0).unwrap();

    let new_owner = bytes("newowner");
    registry.transfer(&owner, &name, &com_tld, new_owner.clone(), 0).unwrap();

    // The offer is keyed to the name, not the owner: it stays buyable,
    // and still pays the seller who posted it.
    let offer = registry.get_sell_offer(&name, &com_tld).unwrap();
    assert_eq!(offer.seller, owner);

    let buyer = bytes("buyer");
    token.mint(&buyer, MAX_ASSET_AMOUNT);
    let owner_before = token.balance(&owner);
    registry.buy_name(&mut token, &buyer, &name, &com_tld, buyer.clone()).unwrap();
    assert_eq!(registry.get_owner(&name, &com_tld, 0), Ok(buyer));
    assert_eq!(token.balance(&owner), owner_before + 30);
}

#[test]
fn expired_lease_can_still_be_sold() {
    let (mut registry, mut token, _registry_id, com_tld, owner) = setup();
    let name = bytes("test");

    registry
        .register_name(&mut token, &owner, name.clone(), com_tld.clone(), owner.clone(), 1, 0)
        .unwrap();
    registry.make_sell_offer(&owner, &name, &com_tld, 30, 0).unwrap();

    // Buying does not re-check expiry: a lapsed lease still settles.
    let later: u64 = 1000000000000000;
    assert_eq!(registry.is_name_expired(&name, &com_tld, later), Ok(true));

    let buyer = bytes("buyer");
    token.mint(&buyer, MAX_ASSET_AMOUNT);
    registry.buy_name(&mut token, &buyer, &name, &com_tld, buyer.clone()).unwrap();
    assert_eq!(registry.get_sell_offer(&name, &com_tld), Err(Error::NoOffer));
    assert_eq!(registry.get_name(&name, &com_tld, later), Err(Error::NameExpired));
    assert_eq!(registry.get_owner(&name, &com_tld, 0), Ok(buyer));
}
