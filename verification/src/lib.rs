//! Orchestration core for a single-purpose hardware security device.
//!
//! The library holds the logic that mediates between client software and the
//! device: a status evaluator over feature snapshots, interactive session
//! state machines for PIN entry and seed recovery, the multi-round
//! transaction-signing protocol engine, a derivation cache, and the request
//! gate that decides whether a device may accept an ordinary request.
//! Transport, persistence and user interfaces live outside; the library
//! works on plain values and is verified.

pub mod api;
pub mod cache;
pub mod dispatch;
pub mod errors;
pub mod eth;
pub mod events;
pub mod flows;
pub mod hexcodec;
pub mod ids;
pub mod path;
pub mod pinflow;
pub mod plan;
pub mod recovery;
pub mod responses;
pub mod signing;
pub mod status;
pub mod strutil;
pub mod txparse;
pub mod version;

pub use path::parse_derivation_path;
pub use status::evaluate_device_status;
