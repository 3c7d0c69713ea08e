//! Laws of the registry and resolver, proved once and for all over the
//! transition specifications the executable operations are verified
//! against.

use vstd::prelude::*;
use crate::errors::Error;
use crate::name::{root_of, valid_name, tld_allowed, has_dot, is_lowercase_letter, DOT};
use crate::registry::{RegistryV, OfferV, spec_register, spec_transfer, spec_make_offer, spec_buy,
    spec_get, spec_get_owner, spec_get_offer, spec_is_registered, spec_is_expired,
    ASSET_AMOUNT_PER_YEAR, ONE_YEAR_IN_SECONDS};
use crate::resolver::{ResolverV, RecordV, spec_set_record, spec_resolve};
use crate::token::{bal};

verus! {

/// A name in root form (no separator) is its own root.
pub proof fn lemma_root_of_root_form(s: Seq<u8>)
    requires
        forall|i: int| 0 <= i < s.len() ==> is_lowercase_letter(#[trigger] s[i]),
    ensures
        root_of(s) == s,
{
    if has_dot(s) {
        let i = choose|i: int| 0 <= i < s.len() && s[i] == DOT;
        assert(is_lowercase_letter(s[i]));
    }
}

/// Registering a name whose lease is still alive fails
/// `NameAlreadyRegistered` and changes nothing, whatever else holds.
pub proof fn lemma_register_active_fails(
    r: RegistryV,
    t: Map<Seq<u8>, u64>,
    owner: Seq<u8>,
    name: Seq<u8>,
    tld: Seq<u8>,
    years: u64,
    now: u64,
)
    requires
        valid_name(name, false),
        tld_allowed(tld, r.tlds),
        r.leases.dom().contains((name, tld)),
        now <= r.leases[(name, tld)].expiry,
    ensures
        spec_register(r, t, owner, name, tld, owner, years, now) == (
            r,
            t,
            Err::<(), Error>(Error::NameAlreadyRegistered),
        ),
{
}

/// Registering the same name again once its lease has lapsed succeeds
/// and resets the expiry to `now` plus the purchased years.
pub proof fn lemma_register_after_expiry(
    r: RegistryV,
    t: Map<Seq<u8>, u64>,
    owner: Seq<u8>,
    name: Seq<u8>,
    tld: Seq<u8>,
    years: u64,
    now: u64,
)
    requires
        valid_name(name, false),
        tld_allowed(tld, r.tlds),
        r.leases.dom().contains((name, tld)),
        r.leases[(name, tld)].expiry < now,
        r.resolver is Some,
        years * ASSET_AMOUNT_PER_YEAR <= u64::MAX,
        now + years * ONE_YEAR_IN_SECONDS <= u64::MAX,
        years * ASSET_AMOUNT_PER_YEAR <= bal(t, owner),
        owner == r.address || bal(t, r.address) + years * ASSET_AMOUNT_PER_YEAR <= u64::MAX,
    ensures
        ({
            let (r2, t2, res) = spec_register(r, t, owner, name, tld, owner, years, now);
            &&& res is Ok
            &&& r2.leases[(name, tld)].owner == owner
            &&& r2.leases[(name, tld)].expiry == now + years * ONE_YEAR_IN_SECONDS
        }),
{
}

/// After a successful registration the owner reads back and the lease
/// is not expired, at any query time up to the expiry.
pub proof fn lemma_ownership_after_register(
    r: RegistryV,
    t: Map<Seq<u8>, u64>,
    owner: Seq<u8>,
    name: Seq<u8>,
    tld: Seq<u8>,
    years: u64,
    now: u64,
    query: u64,
)
    requires
        spec_register(r, t, owner, name, tld, owner, years, now).2 is Ok,
        now + years * ONE_YEAR_IN_SECONDS <= u64::MAX,
        query <= now + years * ONE_YEAR_IN_SECONDS,
    ensures
        ({
            let r2 = spec_register(r, t, owner, name, tld, owner, years, now).0;
            &&& spec_get_owner(r2, name, tld, query) == Ok::<Seq<u8>, Error>(owner)
            &&& spec_is_expired(r2, name, tld, query) == Ok::<bool, Error>(false)
        }),
{
    lemma_root_of_root_form(name);
}

/// Only the current owner of a live lease can transfer it: any other
/// caller fails `AuthorizationFailed` and nothing changes.
pub proof fn lemma_transfer_requires_owner(
    r: RegistryV,
    caller: Seq<u8>,
    name: Seq<u8>,
    tld: Seq<u8>,
    new_owner: Seq<u8>,
    now: u64,
)
    requires
        spec_get(r, name, tld, now) is Ok,
        caller != spec_get(r, name, tld, now)->Ok_0.owner,
    ensures
        spec_transfer(r, caller, name, tld, new_owner, now) == (
            r,
            Err::<(), Error>(Error::AuthorizationFailed),
        ),
{
}

/// After a successful transfer the new owner reads back.
pub proof fn lemma_transfer_updates_owner(
    r: RegistryV,
    name: Seq<u8>,
    tld: Seq<u8>,
    new_owner: Seq<u8>,
    now: u64,
)
    requires
        spec_get(r, name, tld, now) is Ok,
    ensures
        ({
            let owner = spec_get(r, name, tld, now)->Ok_0.owner;
            let (r2, res) = spec_transfer(r, owner, name, tld, new_owner, now);
            &&& res is Ok
            &&& spec_get_owner(r2, name, tld, now) == Ok::<Seq<u8>, Error>(new_owner)
        }),
{
}

/// The marketplace round trip: the owner posts an offer at some price,
/// a distinct buyer with a sufficient balance buys; afterwards the
/// buyer owns the lease, the offer is gone, and exactly the price has
/// moved from the buyer to the seller.
pub proof fn lemma_marketplace_round_trip(
    r: RegistryV,
    t: Map<Seq<u8>, u64>,
    name: Seq<u8>,
    tld: Seq<u8>,
    owner: Seq<u8>,
    buyer: Seq<u8>,
    price: u64,
    now: u64,
)
    requires
        spec_get(r, name, tld, now) is Ok,
        owner == spec_get(r, name, tld, now)->Ok_0.owner,
        buyer != owner,
        price <= bal(t, buyer),
        bal(t, owner) + price <= u64::MAX,
    ensures
        ({
            let (r1, res1) = spec_make_offer(r, owner, name, tld, price, now);
            let (r2, t2, res2) = spec_buy(r1, t, buyer, name, tld, buyer);
            &&& res1 is Ok
            &&& res2 is Ok
            &&& spec_get_owner(r2, name, tld, now) == Ok::<Seq<u8>, Error>(buyer)
            &&& spec_get_offer(r2, name, tld) == Err::<OfferV, Error>(Error::NoOffer)
            &&& bal(t2, owner) == bal(t, owner) + price
            &&& bal(t2, buyer) == bal(t, buyer) - price
        }),
{
}

/// One registration of a root name answers for every subdomain of it:
/// any qualified name with that root reads as registered, with the
/// same owner, under the same single lease.
pub proof fn lemma_subdomain_sharing(
    r: RegistryV,
    t: Map<Seq<u8>, u64>,
    owner: Seq<u8>,
    name: Seq<u8>,
    tld: Seq<u8>,
    years: u64,
    now: u64,
    sub: Seq<u8>,
    query: u64,
)
    requires
        spec_register(r, t, owner, name, tld, owner, years, now).2 is Ok,
        root_of(sub) == name,
        now + years * ONE_YEAR_IN_SECONDS <= u64::MAX,
        query <= now + years * ONE_YEAR_IN_SECONDS,
    ensures
        ({
            let r2 = spec_register(r, t, owner, name, tld, owner, years, now).0;
            &&& spec_is_registered(r2, sub, tld)
            &&& spec_get_owner(r2, sub, tld, query) == Ok::<Seq<u8>, Error>(owner)
        }),
{
}

/// A record set while the root's lease was alive stays bound but stops
/// resolving — `NameExpired` — at any time past the lease's expiry.
pub proof fn lemma_record_unresolvable_after_expiry(
    rv: ResolverV,
    reg: RegistryV,
    caller: Seq<u8>,
    name: Seq<u8>,
    tld: Seq<u8>,
    record_type: Seq<u8>,
    data: Seq<u8>,
    set_time: u64,
    query: u64,
)
    requires
        spec_set_record(rv, reg, caller, name, tld, record_type, data, set_time).1 is Ok,
        query > reg.leases[(root_of(name), tld)].expiry,
    ensures
        ({
            let rv1 = spec_set_record(rv, reg, caller, name, tld, record_type, data, set_time).0;
            &&& rv1.records.dom().contains((name, tld))
            &&& spec_resolve(rv1, reg, name, tld, query) == Err::<RecordV, Error>(
                Error::NameExpired,
            )
        }),
{
}

/// Registering for `years` costs the registrant exactly `years` times
/// the per-year fee and credits the registry's custodial identity by
/// the same amount, when the two are distinct parties.
pub proof fn lemma_fee_accounting(
    r: RegistryV,
    t: Map<Seq<u8>, u64>,
    owner: Seq<u8>,
    name: Seq<u8>,
    tld: Seq<u8>,
    years: u64,
    now: u64,
)
    requires
        spec_register(r, t, owner, name, tld, owner, years, now).2 is Ok,
        years * ASSET_AMOUNT_PER_YEAR <= u64::MAX,
        owner != r.address,
    ensures
        ({
            let t2 = spec_register(r, t, owner, name, tld, owner, years, now).1;
            &&& bal(t2, owner) == bal(t, owner) - years * ASSET_AMOUNT_PER_YEAR
            &&& bal(t2, r.address) == bal(t, r.address) + years * ASSET_AMOUNT_PER_YEAR
        }),
{
}

} // verus!

