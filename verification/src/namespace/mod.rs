//! Lowers namespace requests into deterministic, in-memory NAMESPACE text.
//!
//! The lowering pipeline is deliberately independent of Rd generation:
//! collect, validate, normalize, deduplicate, merge, sort, and render. Raw
//! [`crate::tags::NamespaceTag`] values do not cross the validation boundary.
pub mod collect;
pub mod determinism;
pub mod ir;
pub mod pipeline;
pub mod render;
pub mod s3;
