//! A naming registry with time-bounded leases, ownership transfer, a
//! fixed-price marketplace, and a resolver that binds typed records to
//! names while re-deriving ownership and liveness from the registry.
//!
//! Names and identities are byte strings. The host that persists state,
//! proves authorization, moves funds and supplies the clock is out of
//! scope: callers hand each operation the authorized caller identity and
//! the current time, and the fungible asset is an explicit ledger value.

pub mod errors;
pub mod name;
pub mod table;
pub mod token;
pub mod registry;
pub mod resolver;
pub mod laws;
