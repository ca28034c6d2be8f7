//! An in-memory registry of protocol packet identifiers.
//!
//! The registry maps numeric packet ids (kept in their decimal string form)
//! to packet names, separately for the two traffic directions, preserving
//! insertion order for enumeration.  It is populated once at startup from a
//! source document and then serves read-only lookup queries.

pub mod model;
pub mod registry;
pub mod service;
