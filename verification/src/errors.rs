//! The error taxonomy shared by the registry and the resolver.

use vstd::prelude::*;

verus! {

/// Every failure an operation can report. Each error aborts the whole
/// call with no state mutation.
#[derive(Clone, Copy, Debug, PartialEq, Eq, Structural)]
pub enum Error {
    /// A live (unexpired) lease already holds the name.
    NameAlreadyRegistered,
    /// No lease row exists for the name's root.
    NameNotRegistered,
    /// The name breaks the syntactic rules.
    NameInvalid,
    /// The lease exists but its expiry lies strictly in the past.
    NameExpired,
    /// The resolver holds no record at the queried key.
    NameHasNoRecord,
    /// The one-time default-resolver slot was already filled.
    ResolverAlreadySet,
    /// The suffix is not in the configured allow-list.
    TLDNotSupported,
    /// No offer exists for the name's root.
    NoOffer,
    /// The record tag is none of the known kinds.
    RecordTypeInvalid,
    /// The caller is not the identity the operation demands.
    AuthorizationFailed,
    /// The asset ledger refused the payment.
    TransferFailed,
}

} // verus!
