//! A token-custody and authorization library: named fungible tokens are
//! created, minted and burned under a layered authorization model (one
//! admin, one sub-admin, a maintainer set and a per-deployment whitelist).
//! Every operation validates before it mutates, and every successful
//! operation appends a typed event record to the deployment's audit log.
pub mod bytes;
pub mod constants;
pub mod errors;
pub mod events;
pub mod holder;
pub mod identity;
pub mod laws;
pub mod lifecycle;
pub mod resource;
