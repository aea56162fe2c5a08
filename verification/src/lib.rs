//! Scoped overrides of environment variables with a verified core.
//!
//! The guard's lifecycle — capture the prior state of a variable, install a
//! new value, and restore exactly the captured state on release — is the
//! whole logic of this crate, and it is verified here against an in-memory
//! model of the environment table. The process environment itself is
//! global, unsynchronized state reached through read/write/remove
//! primitives; a thin unverified layer can perform those calls and reuse
//! the save/restore policy defined here.

pub mod model;
pub mod scope;
pub mod table;
