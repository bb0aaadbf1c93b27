//! Combines parsed tags and static object facts into topic and namespace IR.
//!
//! The model is divided by responsibility so its intermediate representation
//! remains stable while merge, identity, slot, usage, and tag lookup rules can
//! stay local to the work they perform.
pub mod identity;
pub mod ir;
pub mod lookup;
pub mod merge;
pub mod slots;
pub mod usage;
pub mod view;
