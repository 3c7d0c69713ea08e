//! The registry: the authoritative mapping from a root name and suffix
//! to a lease, with registration, expiry, transfer, and a fixed-price
//! marketplace.
//!
//! Every operation takes the identity that authorized the call and the
//! current time as arguments, and the asset ledger as an explicit
//! value: all preconditions (authorization, validation, expiry, payment)
//! are checked before any state changes, and a failed payment changes
//! nothing.

use vstd::prelude::*;
use crate::errors::Error;
use crate::name::{root_of, tld_allowed, valid_name, get_root_name, validate_name, validate_tld,
    bytes_eq};
use crate::table::Table;
use crate::token::{Token, bal, spec_token_transfer};

verus! {

/// Seconds a lease gains per purchased year.
pub const ONE_YEAR_IN_SECONDS: u64 = 365 * 24 * 60 * 60;

/// Fee charged per purchased year.
pub const ASSET_AMOUNT_PER_YEAR: u64 = 20;

/// A lease: who owns the root name, which resolver identity it points
/// at, and when it lapses. Expired means `now > expiry`, read at call
/// time; the row itself may outlive its expiry.
#[derive(Debug, PartialEq, Eq)]
pub struct Domain {
    pub owner: Vec<u8>,
    pub resolver: Vec<u8>,
    pub expiry: u64,
}

/// A lease in view form.
#[verifier::ext_equal]
pub ghost struct DomainV {
    pub owner: Seq<u8>,
    pub resolver: Seq<u8>,
    pub expiry: u64,
}

impl View for Domain {
    type V = DomainV;

    open spec fn view(&self) -> DomainV {
        DomainV { owner: self.owner@, resolver: self.resolver@, expiry: self.expiry }
    }
}

impl Clone for Domain {
    fn clone(&self) -> (r: Self)
        ensures
            r@ == self@,
    {
        Domain { owner: self.owner.clone(), resolver: self.resolver.clone(), expiry: self.expiry }
    }
}

/// A seller-posted fixed price for a root name's lease.
#[derive(Debug, PartialEq, Eq)]
pub struct Offer {
    pub seller: Vec<u8>,
    pub name: Vec<u8>,
    pub tld: Vec<u8>,
    pub price: u64,
}

/// An offer in view form.
#[verifier::ext_equal]
pub ghost struct OfferV {
    pub seller: Seq<u8>,
    pub name: Seq<u8>,
    pub tld: Seq<u8>,
    pub price: u64,
}

impl View for Offer {
    type V = OfferV;

    open spec fn view(&self) -> OfferV {
        OfferV { seller: self.seller@, name: self.name@, tld: self.tld@, price: self.price }
    }
}

impl Clone for Offer {
    fn clone(&self) -> (r: Self)
        ensures
            r@ == self@,
    {
        Offer {
            seller: self.seller.clone(),
            name: self.name.clone(),
            tld: self.tld.clone(),
            price: self.price,
        }
    }
}

/// A notification the registry emits for external indexing; a side
/// channel, not part of the authoritative state.
#[derive(Debug, PartialEq, Eq)]
pub enum Event {
    Register { owner: Vec<u8>, name: Vec<u8>, tld: Vec<u8>, years: u64 },
    Transfer { owner: Vec<u8>, name: Vec<u8>, tld: Vec<u8>, new_owner: Vec<u8> },
    MakeOffer { seller: Vec<u8>, name: Vec<u8>, tld: Vec<u8>, price: u64 },
    CancelOffer { seller: Vec<u8>, name: Vec<u8>, tld: Vec<u8> },
    Buy { buyer: Vec<u8>, name: Vec<u8>, tld: Vec<u8>, price: u64 },
}

/// An event in view form.
#[verifier::ext_equal]
pub ghost enum EventV {
    Register { owner: Seq<u8>, name: Seq<u8>, tld: Seq<u8>, years: u64 },
    Transfer { owner: Seq<u8>, name: Seq<u8>, tld: Seq<u8>, new_owner: Seq<u8> },
    MakeOffer { seller: Seq<u8>, name: Seq<u8>, tld: Seq<u8>, price: u64 },
    CancelOffer { seller: Seq<u8>, name: Seq<u8>, tld: Seq<u8> },
    Buy { buyer: Seq<u8>, name: Seq<u8>, tld: Seq<u8>, price: u64 },
}

impl View for Event {
    type V = EventV;

    open spec fn view(&self) -> EventV {
        match self {
            Event::Register { owner, name, tld, years } => EventV::Register {
                owner: owner@,
                name: name@,
                tld: tld@,
                years: *years,
            },
            Event::Transfer { owner, name, tld, new_owner } => EventV::Transfer {
                owner: owner@,
                name: name@,
                tld: tld@,
                new_owner: new_owner@,
            },
            Event::MakeOffer { seller, name, tld, price } => EventV::MakeOffer {
                seller: seller@,
                name: name@,
                tld: tld@,
                price: *price,
            },
            Event::CancelOffer { seller, name, tld } => EventV::CancelOffer {
                seller: seller@,
                name: name@,
                tld: tld@,
            },
            Event::Buy { buyer, name, tld, price } => EventV::Buy {
                buyer: buyer@,
                name: name@,
                tld: tld@,
                price: *price,
            },
        }
    }
}

/// The registry's whole state in view form.
#[verifier::ext_equal]
pub ghost struct RegistryV {
    /// The registry's own custodial identity, which fees accrue to.
    pub address: Seq<u8>,
    /// The one-time default resolver slot.
    pub resolver: Option<Seq<u8>>,
    /// The suffix allow-list.
    pub tlds: Seq<Seq<u8>>,
    /// Leases, keyed by root name and suffix.
    pub leases: Map<(Seq<u8>, Seq<u8>), DomainV>,
    /// Live offers, keyed by root name and suffix.
    pub offers: Map<(Seq<u8>, Seq<u8>), OfferV>,
    /// Every notification emitted so far, oldest first.
    pub events: Seq<EventV>,
}

/// The view of the one-time resolver slot.
pub open spec fn opt_bytes_view(o: Option<Vec<u8>>) -> Option<Seq<u8>> {
    match o {
        Some(v) => Some(v@),
        None => None,
    }
}

/// The registry.
pub struct Registry {
    pub address: Vec<u8>,
    pub resolver: Option<Vec<u8>>,
    pub tlds: Vec<Vec<u8>>,
    pub leases: Table<Domain>,
    pub offers: Table<Offer>,
    pub events: Vec<Event>,
}

impl View for Registry {
    type V = RegistryV;

    open spec fn view(&self) -> RegistryV {
        RegistryV {
            address: self.address@,
            resolver: opt_bytes_view(self.resolver),
            tlds: self.tlds.deep_view(),
            leases: self.leases@,
            offers: self.offers@,
            events: self.events@.map_values(|e: Event| e@),
        }
    }
}

/// Every offer stands over an existing lease row and carries its own
/// key.
pub open spec fn offers_coherent(r: RegistryV) -> bool {
    forall|k: (Seq<u8>, Seq<u8>)| #[trigger]
        r.offers.dom().contains(k) ==> {
            &&& r.leases.dom().contains(k)
            &&& r.offers[k].name == k.0
            &&& r.offers[k].tld == k.1
        }
}

/// Whether a lease row exists under the name's root; expiry plays no
/// part.
pub open spec fn spec_is_registered(r: RegistryV, name: Seq<u8>, tld: Seq<u8>) -> bool {
    r.leases.dom().contains((root_of(name), tld))
}

/// Whether the lease under the name's root has lapsed at `now`;
/// demands the lease to exist.
pub open spec fn spec_is_expired(r: RegistryV, name: Seq<u8>, tld: Seq<u8>, now: u64) -> Result<
    bool,
    Error,
> {
    let key = (root_of(name), tld);
    if !r.leases.dom().contains(key) {
        Err(Error::NameNotRegistered)
    } else {
        Ok(r.leases[key].expiry < now)
    }
}

/// The lease under the name's root, owed exactly when a row exists and
/// has not lapsed at `now`.
pub open spec fn spec_get(r: RegistryV, name: Seq<u8>, tld: Seq<u8>, now: u64) -> Result<
    DomainV,
    Error,
> {
    let key = (root_of(name), tld);
    if !r.leases.dom().contains(key) {
        Err(Error::NameNotRegistered)
    } else if r.leases[key].expiry < now {
        Err(Error::NameExpired)
    } else {
        Ok(r.leases[key])
    }
}

/// The lease's owner, by `spec_get`.
pub open spec fn spec_get_owner(r: RegistryV, name: Seq<u8>, tld: Seq<u8>, now: u64) -> Result<
    Seq<u8>,
    Error,
> {
    match spec_get(r, name, tld, now) {
        Ok(d) => Ok(d.owner),
        Err(e) => Err(e),
    }
}

/// What `set_resolver` leaves behind and reports: the slot fills
/// exactly once.
pub open spec fn spec_set_resolver(r: RegistryV, resolver: Seq<u8>) -> (RegistryV, Result<
    (),
    Error,
>) {
    if r.resolver is Some {
        (r, Err(Error::ResolverAlreadySet))
    } else {
        (RegistryV { resolver: Some(resolver), ..r }, Ok(()))
    }
}

/// What `register_name` leaves behind and reports. The cascade:
/// authorization by the prospective owner, name syntax (root form
/// only), suffix membership, no live lease, then the fee moves from
/// the owner to the registry's custodial identity; only then is the
/// lease written, expiring `years` lease-years after `now`.
pub open spec fn spec_register(
    r: RegistryV,
    t: Map<Seq<u8>, u64>,
    caller: Seq<u8>,
    name: Seq<u8>,
    tld: Seq<u8>,
    owner: Seq<u8>,
    years: u64,
    now: u64,
) -> (RegistryV, Map<Seq<u8>, u64>, Result<(), Error>) {
    if caller != owner {
        (r, t, Err(Error::AuthorizationFailed))
    } else if !valid_name(name, false) {
        (r, t, Err(Error::NameInvalid))
    } else if !tld_allowed(tld, r.tlds) {
        (r, t, Err(Error::TLDNotSupported))
    } else if r.leases.dom().contains((name, tld)) && !(r.leases[(name, tld)].expiry < now) {
        (r, t, Err(Error::NameAlreadyRegistered))
    } else {
        let fee = (years * ASSET_AMOUNT_PER_YEAR) as u64;
        let (t2, pay) = spec_token_transfer(t, owner, r.address, fee);
        if pay is Err {
            (r, t, Err(Error::TransferFailed))
        } else {
            let lease = DomainV {
                owner,
                resolver: r.resolver->Some_0,
                expiry: (now + years * ONE_YEAR_IN_SECONDS) as u64,
            };
            let ev = EventV::Register { owner, name, tld, years };
            (
                RegistryV {
                    leases: r.leases.insert((name, tld), lease),
                    events: r.events.push(ev),
                    ..r
                },
                t2,
                Ok(()),
            )
        }
    }
}

/// What `transfer` leaves behind and reports: only the current owner
/// of a live lease may hand it over.
pub open spec fn spec_transfer(
    r: RegistryV,
    caller: Seq<u8>,
    name: Seq<u8>,
    tld: Seq<u8>,
    new_owner: Seq<u8>,
    now: u64,
) -> (RegistryV, Result<(), Error>) {
    let key = (root_of(name), tld);
    match spec_get(r, name, tld, now) {
        Err(e) => (r, Err(e)),
        Ok(lease) => if caller != lease.owner {
            (r, Err(Error::AuthorizationFailed))
        } else {
            let ev = EventV::Transfer { owner: lease.owner, name: key.0, tld, new_owner };
            (
                RegistryV {
                    leases: r.leases.insert(key, DomainV { owner: new_owner, ..lease }),
                    events: r.events.push(ev),
                    ..r
                },
                Ok(()),
            )
        },
    }
}

/// What `make_sell_offer` leaves behind and reports: the owner of a
/// live lease posts a price, overwriting any prior offer.
pub open spec fn spec_make_offer(
    r: RegistryV,
    caller: Seq<u8>,
    name: Seq<u8>,
    tld: Seq<u8>,
    price: u64,
    now: u64,
) -> (RegistryV, Result<(), Error>) {
    let key = (root_of(name), tld);
    match spec_get(r, name, tld, now) {
        Err(e) => (r, Err(e)),
        Ok(lease) => if caller != lease.owner {
            (r, Err(Error::AuthorizationFailed))
        } else {
            let offer = OfferV { seller: lease.owner, name: key.0, tld, price };
            let ev = EventV::MakeOffer { seller: lease.owner, name: key.0, tld, price };
            (
                RegistryV { offers: r.offers.insert(key, offer), events: r.events.push(ev), ..r },
                Ok(()),
            )
        },
    }
}

/// The live offer under the name's root.
pub open spec fn spec_get_offer(r: RegistryV, name: Seq<u8>, tld: Seq<u8>) -> Result<
    OfferV,
    Error,
> {
    let key = (root_of(name), tld);
    if !r.offers.dom().contains(key) {
        Err(Error::NoOffer)
    } else {
        Ok(r.offers[key])
    }
}

/// What `cancel_sell_offer` leaves behind and reports: only the offer's
/// seller may withdraw it.
pub open spec fn spec_cancel_offer(
    r: RegistryV,
    caller: Seq<u8>,
    name: Seq<u8>,
    tld: Seq<u8>,
) -> (RegistryV, Result<(), Error>) {
    let key = (root_of(name), tld);
    match spec_get_offer(r, name, tld) {
        Err(e) => (r, Err(e)),
        Ok(offer) => if caller != offer.seller {
            (r, Err(Error::AuthorizationFailed))
        } else {
            let ev = EventV::CancelOffer { seller: offer.seller, name: key.0, tld };
            (
                RegistryV { offers: r.offers.remove(key), events: r.events.push(ev), ..r },
                Ok(()),
            )
        },
    }
}

/// What `buy_name` leaves behind and reports. The cascade: buyer
/// authorization, a live offer, a lease row to hand over, then the
/// price moves from the buyer to the seller; only then does the lease's
/// owner become the buyer and the offer disappear. Expiry is not
/// re-checked: a lapsed lease can still be sold.
pub open spec fn spec_buy(
    r: RegistryV,
    t: Map<Seq<u8>, u64>,
    caller: Seq<u8>,
    name: Seq<u8>,
    tld: Seq<u8>,
    buyer: Seq<u8>,
) -> (RegistryV, Map<Seq<u8>, u64>, Result<(), Error>) {
    let key = (root_of(name), tld);
    if caller != buyer {
        (r, t, Err(Error::AuthorizationFailed))
    } else if !r.offers.dom().contains(key) {
        (r, t, Err(Error::NoOffer))
    } else if !r.leases.dom().contains(key) {
        (r, t, Err(Error::NameNotRegistered))
    } else {
        let offer = r.offers[key];
        let (t2, pay) = spec_token_transfer(t, buyer, offer.seller, offer.price);
        if pay is Err {
            (r, t, Err(Error::TransferFailed))
        } else {
            let lease = r.leases[key];
            let ev = EventV::Buy { buyer, name: key.0, tld, price: offer.price };
            (
                RegistryV {
                    leases: r.leases.insert(key, DomainV { owner: buyer, ..lease }),
                    offers: r.offers.remove(key),
                    events: r.events.push(ev),
                    ..r
                },
                t2,
                Ok(()),
            )
        }
    }
}

impl Registry {
    /// The tables are sound and every offer stands over a lease row.
    pub open spec fn wf(&self) -> bool {
        &&& self.leases.wf()
        &&& self.offers.wf()
        &&& offers_coherent(self@)
    }

    /// A fresh registry: custodial identity and suffix allow-list
    /// fixed at construction, resolver slot empty, no leases, no
    /// offers.
    pub fn new(address: Vec<u8>, tlds: Vec<Vec<u8>>) -> (r: Registry)
        ensures
            r.wf(),
            r@ == (RegistryV {
                address: address@,
                resolver: None,
                tlds: tlds.deep_view(),
                leases: Map::empty(),
                offers: Map::empty(),
                events: Seq::empty(),
            }),
    {
        let r = Registry {
            address,
            resolver: None,
            tlds,
            leases: Table::new(),
            offers: Table::new(),
            events: Vec::new(),
        };
        proof {
            assert(r.events@.map_values(|e: Event| e@) =~= Seq::<EventV>::empty());
        }
        r
    }

    /// Fills the one-time default-resolver slot; thereafter every
    /// attempt fails `ResolverAlreadySet` and changes nothing.
    pub fn set_resolver(&mut self, resolver: Vec<u8>) -> (r: Result<(), Error>)
        requires
            old(self).wf(),
        ensures
            final (self).wf(),
            final (self)@ == spec_set_resolver(old(self)@, resolver@).0,
            r == spec_set_resolver(old(self)@, resolver@).1,
    {
        match &self.resolver {
            Some(_) => Err(Error::ResolverAlreadySet),
            None => {
                self.resolver = Some(resolver);
                proof {
                    assert(self@ =~= spec_set_resolver(old(self)@, resolver@).0);
                }
                Ok(())
            },
        }
    }

    /// The default resolver identity, once set.
    pub fn default_resolver(&self) -> (r: Option<&Vec<u8>>)
        ensures
            match r {
                Some(v) => self@.resolver == Some(v@),
                None => self@.resolver is None,
            },
    {
        self.resolver.as_ref()
    }

    /// Whether a lease row exists under the name's root, lapsed or
    /// not.
    pub fn is_name_registered(&self, name: &Vec<u8>, tld: &Vec<u8>) -> (r: bool)
        requires
            self.wf(),
        ensures
            r == spec_is_registered(self@, name@, tld@),
    {
        let root = get_root_name(name);
        self.leases.contains(&root, tld)
    }

    /// Whether the lease under the name's root has lapsed at `now`;
    /// fails `NameNotRegistered` without a row.
    pub fn is_name_expired(&self, name: &Vec<u8>, tld: &Vec<u8>, now: u64) -> (r: Result<
        bool,
        Error,
    >)
        requires
            self.wf(),
        ensures
            r == spec_is_expired(self@, name@, tld@, now),
    {
        let root = get_root_name(name);
        match self.leases.get(&root, tld) {
            None => Err(Error::NameNotRegistered),
            Some(d) => Ok(d.expiry < now),
        }
    }

    /// The lease under the name's root: owed exactly when a row exists
    /// (`NameNotRegistered` otherwise) and has not lapsed at `now`
    /// (`NameExpired` otherwise).
    pub fn get_name(&self, name: &Vec<u8>, tld: &Vec<u8>, now: u64) -> (r: Result<Domain, Error>)
        requires
            self.wf(),
        ensures
            match r {
                Ok(d) => spec_get(self@, name@, tld@, now) == Ok::<DomainV, Error>(d@),
                Err(e) => spec_get(self@, name@, tld@, now) == Err::<DomainV, Error>(e),
            },
    {
        let root = get_root_name(name);
        match self.leases.get(&root, tld) {
            None => Err(Error::NameNotRegistered),
            Some(d) => {
                if d.expiry < now {
                    Err(Error::NameExpired)
                } else {
                    Ok(d.clone())
                }
            },
        }
    }

    /// The owner of the live lease under the name's root.
    pub fn get_owner(&self, name: &Vec<u8>, tld: &Vec<u8>, now: u64) -> (r: Result<Vec<u8>, Error>)
        requires
            self.wf(),
        ensures
            match r {
                Ok(o) => spec_get_owner(self@, name@, tld@, now) == Ok::<Seq<u8>, Error>(o@),
                Err(e) => spec_get_owner(self@, name@, tld@, now) == Err::<Seq<u8>, Error>(e),
            },
    {
        match self.get_name(name, tld, now) {
            Ok(d) => Ok(d.owner),
            Err(e) => Err(e),
        }
    }

    /// The resolver identity of the live lease under the name's root.
    pub fn get_resolver(&self, name: &Vec<u8>, tld: &Vec<u8>, now: u64) -> (r: Result<
        Vec<u8>,
        Error,
    >)
        requires
            self.wf(),
        ensures
            match r {
                Ok(v) => spec_get(self@, name@, tld@, now) matches Ok(d) && d.resolver == v@,
                Err(e) => spec_get(self@, name@, tld@, now) == Err::<DomainV, Error>(e),
            },
    {
        match self.get_name(name, tld, now) {
            Ok(d) => Ok(d.resolver),
            Err(e) => Err(e),
        }
    }

    /// Registers `name` under `tld` to `owner` for `number_of_years`,
    /// charging the per-year fee; a live lease blocks it, a lapsed one
    /// is overwritten in place.
    pub fn register_name(
        &mut self,
        token: &mut Token,
        caller: &Vec<u8>,
        name: Vec<u8>,
        tld: Vec<u8>,
        owner: Vec<u8>,
        number_of_years: u64,
        now: u64,
    ) -> (r: Result<(), Error>)
        requires
            old(self).wf(),
            old(token).wf(),
            old(self)@.resolver is Some,
            number_of_years * ASSET_AMOUNT_PER_YEAR <= u64::MAX,
            now + number_of_years * ONE_YEAR_IN_SECONDS <= u64::MAX,
        ensures
            final (self).wf(),
            final (token).wf(),
            ({
                let (r2, t2, res) = spec_register(
                    old(self)@,
                    old(token)@,
                    caller@,
                    name@,
                    tld@,
                    owner@,
                    number_of_years,
                    now,
                );
                &&& final (self)@ == r2
                &&& final (token)@ == t2
                &&& r == res
            }),
    {
        if !bytes_eq(caller, &owner) {
            return Err(Error::AuthorizationFailed);
        }
        if let Err(e) = validate_name(&name, false) {
            return Err(e);
        }
        if let Err(e) = validate_tld(&tld, &self.tlds) {
            return Err(e);
        }
        match self.leases.get(&name, &tld) {
            Some(d) => {
                if !(d.expiry < now) {
                    return Err(Error::NameAlreadyRegistered);
                }
            },
            None => {},
        }
        let fee = number_of_years * ASSET_AMOUNT_PER_YEAR;
        if let Err(e) = token.transfer(&owner, &self.address, fee) {
            return Err(e);
        }
        let resolver = match &self.resolver {
            Some(rv) => rv.clone(),
            None => vstd::pervasive::unreached(),
        };
        let expiry = now + number_of_years * ONE_YEAR_IN_SECONDS;
        let lease = Domain { owner: owner.clone(), resolver, expiry };
        self.leases.set(name.clone(), tld.clone(), lease);
        self.events.push(Event::Register { owner, name, tld, years: number_of_years });
        proof {
            let (r2, t2, res) = spec_register(
                old(self)@,
                old(token)@,
                caller@,
                name@,
                tld@,
                owner@,
                number_of_years,
                now,
            );
            assert(self.events@.drop_last() =~= old(self).events@);
            assert(self@.events =~= r2.events);
            assert(self@ =~= r2);
        }
        Ok(())
    }

    /// Hands the live lease under the name's root to `new_owner`;
    /// only the current owner may.
    pub fn transfer(
        &mut self,
        caller: &Vec<u8>,
        name: &Vec<u8>,
        tld: &Vec<u8>,
        new_owner: Vec<u8>,
        now: u64,
    ) -> (r: Result<(), Error>)
        requires
            old(self).wf(),
        ensures
            final (self).wf(),
            final (self)@ == spec_transfer(old(self)@, caller@, name@, tld@, new_owner@, now).0,
            r == spec_transfer(old(self)@, caller@, name@, tld@, new_owner@, now).1,
    {
        let root = get_root_name(name);
        let lease = match self.get_name(name, tld, now) {
            Err(e) => {
                return Err(e);
            },
            Ok(d) => d,
        };
        if !bytes_eq(caller, &lease.owner) {
            return Err(Error::AuthorizationFailed);
        }
        let updated = Domain {
            owner: new_owner.clone(),
            resolver: lease.resolver,
            expiry: lease.expiry,
        };
        self.leases.set(root.clone(), tld.clone(), updated);
        self.events.push(Event::Transfer { owner: lease.owner, name: root, tld: tld.clone(),
            new_owner });
        proof {
            let (r2, res) = spec_transfer(old(self)@, caller@, name@, tld@, new_owner@, now);
            assert(self.events@.drop_last() =~= old(self).events@);
            assert(self@.events =~= r2.events);
            assert(self@ =~= r2);
        }
        Ok(())
    }

    /// Posts the lease under the name's root for sale at `price`,
    /// overwriting any prior offer; only the current owner may.
    pub fn make_sell_offer(
        &mut self,
        caller: &Vec<u8>,
        name: &Vec<u8>,
        tld: &Vec<u8>,
        price: u64,
        now: u64,
    ) -> (r: Result<(), Error>)
        requires
            old(self).wf(),
        ensures
            final (self).wf(),
            final (self)@ == spec_make_offer(old(self)@, caller@, name@, tld@, price, now).0,
            r == spec_make_offer(old(self)@, caller@, name@, tld@, price, now).1,
    {
        let root = get_root_name(name);
        let lease = match self.get_name(name, tld, now) {
            Err(e) => {
                return Err(e);
            },
            Ok(d) => d,
        };
        if !bytes_eq(caller, &lease.owner) {
            return Err(Error::AuthorizationFailed);
        }
        let offer = Offer {
            seller: lease.owner.clone(),
            name: root.clone(),
            tld: tld.clone(),
            price,
        };
        self.offers.set(root.clone(), tld.clone(), offer);
        self.events.push(Event::MakeOffer { seller: lease.owner, name: root, tld: tld.clone(),
            price });
        proof {
            let (r2, res) = spec_make_offer(old(self)@, caller@, name@, tld@, price, now);
            assert(self.events@.drop_last() =~= old(self).events@);
            assert(self@.events =~= r2.events);
            assert(self@ =~= r2);
        }
        Ok(())
    }

    /// The live offer under the name's root; `NoOffer` without one.
    pub fn get_sell_offer(&self, name: &Vec<u8>, tld: &Vec<u8>) -> (r: Result<Offer, Error>)
        requires
            self.wf(),
        ensures
            match r {
                Ok(o) => spec_get_offer(self@, name@, tld@) == Ok::<OfferV, Error>(o@),
                Err(e) => spec_get_offer(self@, name@, tld@) == Err::<OfferV, Error>(e),
            },
    {
        let root = get_root_name(name);
        match self.offers.get(&root, tld) {
            None => Err(Error::NoOffer),
            Some(o) => Ok(o.clone()),
        }
    }

    /// Withdraws the offer under the name's root; only its seller may.
    pub fn cancel_sell_offer(&mut self, caller: &Vec<u8>, name: &Vec<u8>, tld: &Vec<u8>) -> (r:
        Result<(), Error>)
        requires
            old(self).wf(),
        ensures
            final (self).wf(),
            final (self)@ == spec_cancel_offer(old(self)@, caller@, name@, tld@).0,
            r == spec_cancel_offer(old(self)@, caller@, name@, tld@).1,
    {
        let root = get_root_name(name);
        let offer = match self.offers.get(&root, tld) {
            None => {
                return Err(Error::NoOffer);
            },
            Some(o) => o.clone(),
        };
        if !bytes_eq(caller, &offer.seller) {
            return Err(Error::AuthorizationFailed);
        }
        self.offers.remove(&root, tld);
        self.events.push(Event::CancelOffer { seller: offer.seller, name: root, tld: tld.clone() });
        proof {
            let (r2, res) = spec_cancel_offer(old(self)@, caller@, name@, tld@);
            assert(self.events@.drop_last() =~= old(self).events@);
            assert(self@.events =~= r2.events);
            assert(self@ =~= r2);
        }
        Ok(())
    }

    /// Settles the offer under the name's root: the price moves from
    /// the buyer to the seller, then the lease's owner becomes the
    /// buyer and the offer disappears. A failed payment changes
    /// nothing; expiry is not re-checked.
    pub fn buy_name(
        &mut self,
        token: &mut Token,
        caller: &Vec<u8>,
        name: &Vec<u8>,
        tld: &Vec<u8>,
        buyer: Vec<u8>,
    ) -> (r: Result<(), Error>)
        requires
            old(self).wf(),
            old(token).wf(),
        ensures
            final (self).wf(),
            final (token).wf(),
            ({
                let (r2, t2, res) = spec_buy(
                    old(self)@,
                    old(token)@,
                    caller@,
                    name@,
                    tld@,
                    buyer@,
                );
                &&& final (self)@ == r2
                &&& final (token)@ == t2
                &&& r == res
            }),
    {
        if !bytes_eq(caller, &buyer) {
            return Err(Error::AuthorizationFailed);
        }
        let root = get_root_name(name);
        let offer = match self.offers.get(&root, tld) {
            None => {
                return Err(Error::NoOffer);
            },
            Some(o) => o.clone(),
        };
        let lease = match self.leases.get(&root, tld) {
            None => {
                return Err(Error::NameNotRegistered);
            },
            Some(d) => d.clone(),
        };
        if let Err(e) = token.transfer(&buyer, &offer.seller, offer.price) {
            return Err(e);
        }
        let updated = Domain {
            owner: buyer.clone(),
            resolver: lease.resolver,
            expiry: lease.expiry,
        };
        self.leases.set(root.clone(), tld.clone(), updated);
        self.offers.remove(&root, tld);
        self.events.push(Event::Buy { buyer, name: root, tld: tld.clone(), price: offer.price });
        proof {
            let (r2, t2, res) = spec_buy(old(self)@, old(token)@, caller@, name@, tld@, buyer@);
            assert(self.events@.drop_last() =~= old(self).events@);
            assert(self@.events =~= r2.events);
            assert(self@ =~= r2);
        }
        Ok(())
    }
}

} // verus!
