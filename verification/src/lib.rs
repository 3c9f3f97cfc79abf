//! A relational persistence layer over two entities — users and their
//! multi-factor-authentication (MFA) methods — with point lookups,
//! affected-row-verified deletes, and one composite transactional operation
//! that inserts a user and an MFA method atomically.
//!
//! The store itself is modeled in [`store::StoreState`]: every repository
//! operation is specified against the mathematical state in [`model`], the
//! invariant the store maintains is [`model::store_inv`], and the laws the
//! operations obey together are proved in [`laws`].  The asynchronous SQL
//! surface that executes the same statements against a real Postgres pool
//! sits outside the verified library and converts rows and driver outcomes
//! to the plain values defined here.

pub mod errors;
pub mod executor;
pub mod laws;
pub mod model;
pub mod records;
pub mod store;
