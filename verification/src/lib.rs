//! A reputation registry: platforms register the drivers that work for them,
//! and end users leave reviews that feed each driver's running rating
//! aggregate.
//!
//! Records live in an atomic key-value store ([`store::RegistryStore`]) and
//! are addressed deterministically from a namespace tag and seed values
//! ([`address`]); an attempt to create a record at an occupied address fails,
//! which is the sole uniqueness-enforcement mechanism. The three operations
//! ([`ops`]) commit all of their writes or none of them.

pub mod address;
pub mod errors;
pub mod laws;
pub mod ops;
pub mod records;
pub mod store;
