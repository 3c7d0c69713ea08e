//! The resolver: typed records bound to a full (possibly qualified)
//! name and suffix. It holds no notion of ownership or expiry of its
//! own: every mutating or reading operation re-derives authorization
//! and liveness from the registry it is handed, through the name's
//! root.

use vstd::prelude::*;
use crate::errors::Error;
use crate::name::{valid_name, validate_name, bytes_eq};
use crate::registry::{Registry, RegistryV, spec_is_expired, spec_get};
use crate::table::Table;

verus! {

/// A typed payload bound to a name: an identity reference, an opaque
/// content address, or free text.
#[derive(Debug, PartialEq, Eq)]
pub enum Record {
    NullRecord,
    Name(Vec<u8>),
    Ipfs(Vec<u8>),
    Text(Vec<u8>),
}

/// A record in view form.
#[verifier::ext_equal]
pub ghost enum RecordV {
    NullRecord,
    Name(Seq<u8>),
    Ipfs(Seq<u8>),
    Text(Seq<u8>),
}

impl View for Record {
    type V = RecordV;

    open spec fn view(&self) -> RecordV {
        match self {
            Record::NullRecord => RecordV::NullRecord,
            Record::Name(v) => RecordV::Name(v@),
            Record::Ipfs(v) => RecordV::Ipfs(v@),
            Record::Text(v) => RecordV::Text(v@),
        }
    }
}

impl Clone for Record {
    fn clone(&self) -> (r: Self)
        ensures
            r@ == self@,
    {
        match self {
            Record::NullRecord => Record::NullRecord,
            Record::Name(v) => Record::Name(v.clone()),
            Record::Ipfs(v) => Record::Ipfs(v.clone()),
            Record::Text(v) => Record::Text(v.clone()),
        }
    }
}

/// The tag selecting an identity-reference record.
pub open spec fn tag_name() -> Seq<u8> {
    seq![110u8, 97u8, 109u8, 101u8]
}

/// The tag selecting a content-address record.
pub open spec fn tag_ipfs() -> Seq<u8> {
    seq![105u8, 112u8, 102u8, 115u8]
}

/// The tag selecting a free-text record.
pub open spec fn tag_text() -> Seq<u8> {
    seq![116u8, 101u8, 120u8, 116u8]
}

/// The record a tag and payload stand for; an unknown tag is refused.
pub open spec fn spec_record_of(record_type: Seq<u8>, data: Seq<u8>) -> Result<RecordV, Error> {
    if record_type == tag_name() {
        Ok(RecordV::Name(data))
    } else if record_type == tag_ipfs() {
        Ok(RecordV::Ipfs(data))
    } else if record_type == tag_text() {
        Ok(RecordV::Text(data))
    } else {
        Err(Error::RecordTypeInvalid)
    }
}

/// The resolver's whole state in view form.
#[verifier::ext_equal]
pub ghost struct ResolverV {
    /// The identity allowed to replace the resolver's code.
    pub admin: Seq<u8>,
    /// Records, keyed by the full name (root or qualified) and suffix.
    pub records: Map<(Seq<u8>, Seq<u8>), RecordV>,
}

/// The resolver.
pub struct Resolver {
    pub admin: Vec<u8>,
    pub records: Table<Record>,
}

impl View for Resolver {
    type V = ResolverV;

    open spec fn view(&self) -> ResolverV {
        ResolverV { admin: self.admin@, records: self.records@ }
    }
}

/// What `set_record` leaves behind and reports. The cascade: name
/// syntax with one optional subdomain label, then liveness and
/// ownership re-derived from the registry through the name's root,
/// then the record tag; only then is the record written at the exact
/// full-name key, overwriting any prior one.
pub open spec fn spec_set_record(
    rv: ResolverV,
    reg: RegistryV,
    caller: Seq<u8>,
    name: Seq<u8>,
    tld: Seq<u8>,
    record_type: Seq<u8>,
    data: Seq<u8>,
    now: u64,
) -> (ResolverV, Result<(), Error>) {
    if !valid_name(name, true) {
        (rv, Err(Error::NameInvalid))
    } else {
        match spec_is_expired(reg, name, tld, now) {
            Err(e) => (rv, Err(e)),
            Ok(true) => (rv, Err(Error::NameExpired)),
            Ok(false) => {
                let owner = spec_get(reg, name, tld, now)->Ok_0.owner;
                if caller != owner {
                    (rv, Err(Error::AuthorizationFailed))
                } else {
                    match spec_record_of(record_type, data) {
                        Err(e) => (rv, Err(e)),
                        Ok(rec) => (
                            ResolverV { records: rv.records.insert((name, tld), rec), ..rv },
                            Ok(()),
                        ),
                    }
                }
            },
        }
    }
}

/// What `resolve_name` returns: the record at the exact full-name key,
/// owed exactly when one is bound there and the root's lease is alive
/// at `now`.
pub open spec fn spec_resolve(
    rv: ResolverV,
    reg: RegistryV,
    name: Seq<u8>,
    tld: Seq<u8>,
    now: u64,
) -> Result<RecordV, Error> {
    if !rv.records.dom().contains((name, tld)) {
        Err(Error::NameHasNoRecord)
    } else {
        match spec_is_expired(reg, name, tld, now) {
            Err(e) => Err(e),
            Ok(true) => Err(Error::NameExpired),
            Ok(false) => Ok(rv.records[(name, tld)]),
        }
    }
}

impl Resolver {
    /// The record table is sound.
    pub open spec fn wf(&self) -> bool {
        self.records.wf()
    }

    /// A fresh resolver: an admin identity and no records.
    pub fn new(admin: Vec<u8>) -> (r: Resolver)
        ensures
            r.wf(),
            r@ == (ResolverV { admin: admin@, records: Map::empty() }),
    {
        Resolver { admin, records: Table::new() }
    }

    /// Whether a record is bound at the exact full-name key; no
    /// registry call, no canonicalization.
    pub fn is_name_has_record(&self, name: &Vec<u8>, tld: &Vec<u8>) -> (r: bool)
        ensures
            r == self@.records.dom().contains((name@, tld@)),
    {
        self.records.contains(name, tld)
    }

    /// Binds a record at the exact full-name key, after re-deriving
    /// liveness and ownership of the name's root from the registry.
    pub fn set_record(
        &mut self,
        registry: &Registry,
        caller: &Vec<u8>,
        name: Vec<u8>,
        tld: Vec<u8>,
        record_type: &Vec<u8>,
        data: Vec<u8>,
        now: u64,
    ) -> (r: Result<(), Error>)
        requires
            old(self).wf(),
            registry.wf(),
        ensures
            final (self).wf(),
            ({
                let (rv2, res) = spec_set_record(
                    old(self)@,
                    registry@,
                    caller@,
                    name@,
                    tld@,
                    record_type@,
                    data@,
                    now,
                );
                &&& final (self)@ == rv2
                &&& r == res
            }),
    {
        if let Err(e) = validate_name(&name, true) {
            return Err(e);
        }
        match registry.is_name_expired(&name, &tld, now) {
            Err(e) => {
                return Err(e);
            },
            Ok(true) => {
                return Err(Error::NameExpired);
            },
            Ok(false) => {},
        }
        let owner = match registry.get_owner(&name, &tld, now) {
            Ok(o) => o,
            Err(_) => vstd::pervasive::unreached(),
        };
        if !bytes_eq(caller, &owner) {
            return Err(Error::AuthorizationFailed);
        }
        let name_tag: Vec<u8> = vec![110u8, 97u8, 109u8, 101u8];
        let ipfs_tag: Vec<u8> = vec![105u8, 112u8, 102u8, 115u8];
        let text_tag: Vec<u8> = vec![116u8, 101u8, 120u8, 116u8];
        proof {
            assert(name_tag@ =~= tag_name());
            assert(ipfs_tag@ =~= tag_ipfs());
            assert(text_tag@ =~= tag_text());
        }
        let record = if bytes_eq(record_type, &name_tag) {
            Record::Name(data)
        } else if bytes_eq(record_type, &ipfs_tag) {
            Record::Ipfs(data)
        } else if bytes_eq(record_type, &text_tag) {
            Record::Text(data)
        } else {
            return Err(Error::RecordTypeInvalid);
        };
        self.records.set(name, tld, record);
        proof {
            let (rv2, res) = spec_set_record(
                old(self)@,
                registry@,
                caller@,
                name@,
                tld@,
                record_type@,
                data@,
                now,
            );
            assert(self@ =~= rv2);
        }
        Ok(())
    }

    /// The record at the exact full-name key, gated live against the
    /// registry: once the root's lease lapses the record stays bound
    /// but stops resolving.
    pub fn resolve_name(&self, registry: &Registry, name: &Vec<u8>, tld: &Vec<u8>, now: u64) -> (r:
        Result<Record, Error>)
        requires
            self.wf(),
            registry.wf(),
        ensures
            match r {
                Ok(rec) => spec_resolve(self@, registry@, name@, tld@, now) == Ok::<
                    RecordV,
                    Error,
                >(rec@),
                Err(e) => spec_resolve(self@, registry@, name@, tld@, now) == Err::<
                    RecordV,
                    Error,
                >(e),
            },
    {
        match self.records.get(name, tld) {
            None => Err(Error::NameHasNoRecord),
            Some(rec) => {
                match registry.is_name_expired(name, tld, now) {
                    Err(e) => Err(e),
                    Ok(true) => Err(Error::NameExpired),
                    Ok(false) => Ok(rec.clone()),
                }
            },
        }
    }

    /// The decision behind replacing the resolver's code: only the
    /// admin fixed at construction may, and the hash names the new
    /// code. Loading the code itself is the host's work.
    pub fn upgrade(&self, caller: &Vec<u8>, new_wasm_hash: &Vec<u8>) -> (r: Result<(), Error>)
        requires
            new_wasm_hash@.len() == 32,
        ensures
            r is Ok <==> caller@ == self@.admin,
            r is Err ==> r == Err::<(), Error>(Error::AuthorizationFailed),
    {
        if bytes_eq(caller, &self.admin) {
            Ok(())
        } else {
            Err(Error::AuthorizationFailed)
        }
    }
}

} // verus!
