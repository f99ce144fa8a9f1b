//! Execution core of a database-agnostic query engine.
//!
//! The crate turns a validated request document into query graphs of
//! primitive storage operations, runs each graph inside one transaction
//! obtained from a pluggable connector, and collects one response per
//! operation, in document order.

pub mod values;
pub mod filter;
pub mod document;
pub mod graph;
pub mod connector;
pub mod memory;
pub mod builder;
pub mod interpreter;
pub mod pipeline;
pub mod executor;
pub mod render;
