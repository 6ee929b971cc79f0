//! The wire-facing request and response shapes, one module per
//! operation family.  They carry plain values only; the serialization
//! layer around the library owns the encodings.

pub mod addresses;
pub mod auth;
pub mod system;
pub mod thorchain;
pub mod transactions;
