//! Merges documented blocks into ordered package topics and namespace requests.
//!
//! This module owns traversal order and delegates cohesive binding, package,
//! and block responsibilities to the sibling modules in this directory.
pub mod assembly;
pub mod bindings;
pub mod block;
pub mod contribution;
pub mod laws;
pub mod package;
pub mod precedence;
