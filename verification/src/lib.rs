//! Core of a typed query engine over a graph-structured schema database:
//! schema-agnostic query IR, a function-signature index, a fetch-annotation
//! pass that validates projections against live schema metadata, and a
//! pull-based execution pipeline with a verified delete stage.

pub mod annotation;
pub mod bytes;
pub mod execution;
pub mod fetch;
pub mod function;
pub mod function_signature;
pub mod pattern;
pub mod property;
pub mod schema;
pub mod storage;
pub mod variable;
