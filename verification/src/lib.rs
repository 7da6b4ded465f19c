//! A small membership registry: a single owner account maintains a list of
//! member identities, each tagged with a priority value.  The registry offers
//! three operations — add a member, remove a member, and list the current
//! members — guarded by a simple authorization rule: only the owner may
//! mutate the list.
//!
//! The registry state is an explicit value handed into each operation; the
//! hosting environment is expected to load it before a call and persist it
//! afterwards.

pub mod contract;
pub mod error;
pub mod msg;
pub mod state;

pub use crate::error::ContractError;
