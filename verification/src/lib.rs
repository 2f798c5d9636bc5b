//! A benchmarking harness for a full-text search engine: translation of a
//! compact query shorthand into the engine's structured predicate syntax,
//! dispatch of a fixed vocabulary of benchmark commands, and a batching
//! ingestion controller with a coarse backpressure throttle.
//!
//! The engine itself is an external collaborator: the library plans
//! batches and queries and proves the laws of that planning, while a thin
//! driver performs the engine calls and the line-oriented input handling.

pub mod command;
pub mod ingest;
pub mod schema;
pub mod text;
pub mod translate;
