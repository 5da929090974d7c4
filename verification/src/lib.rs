//! Knowledge-graph ingestion and schema-governance core.
//!
//! The crate holds the semantic layer of a knowledge-graph service: the
//! schema type system with single-parent inheritance, the delta validator,
//! label resolution, the block-derivation engine, the two-store commit
//! decision protocol, the bootstrap deltas and the candidate scorer.  Every
//! function here is a pure computation with a verified contract; the stores
//! and the transport that feed it live outside the library and exchange
//! plain values with it.

pub mod bootstrap;
pub mod config;
pub mod domain;
pub mod hierarchy;
pub mod ingest;
pub mod inherit;
pub mod labels;
pub mod queryfmt;
pub mod report;
pub mod schema;
pub mod scorer;
pub mod text;
pub mod validate;
pub mod wire;
