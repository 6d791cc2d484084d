//! Chunk abstraction and table unification for a columnar database's query
//! path.
//!
//! Disjoint storage tiers (a mutable in-memory write buffer, a compressed
//! read-optimized column store, and a reserved immutable-file tier) are
//! presented to a query planner as one logical table. A [`chunk::DBChunk`]
//! dispatches capability calls to the tier holding its data; a
//! [`provider::ProviderBuilder`] accumulates chunks for one named table while
//! enforcing that all of them expose an identical schema, and finalizes into
//! an immutable [`provider::ChunkTableProvider`] that answers schema, scan and
//! statistics requests.

pub mod chunk;
pub mod data;
pub mod lex;
pub mod mutable;
pub mod plan;
pub mod predicate;
pub mod provider;
pub mod read;
pub mod schema;
pub mod selection;
pub mod table;
