//! Fetch negotiation for cloning a project from a single peer: which
//! advertised refs are accepted, which objects are wanted and which are
//! already present, and which local tracking refs may be updated once the
//! fetched identity history has been verified.
pub mod clone;
pub mod error;
pub mod fetch;
pub mod identities;
pub mod ids;
pub mod refdb;
pub mod refs;
