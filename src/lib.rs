//! State core of a configurable non-fungible-token registry: token records,
//! ownership and delegation, the ordinal/hash identifier index, and the
//! policy-gated operations that move a registry from one consistent state to
//! the next.
pub mod accounts;
pub mod delegation;
pub mod events;
pub mod index;
pub mod ledger;
pub mod tally;
pub mod types;
