//! What holds of whole operations, stated over what goes in and what comes out.
//!
//! Each law speaks of all inputs. It says which results an input must have, or how
//! the results of two inputs are related, and does not lean on the way in which a
//! result is computed.
pub mod author_fields;
pub mod block_merging;
pub mod classification;
pub mod help_links;
pub mod indexing;
pub mod inline_r;
pub mod markdown_shapes;
pub mod markdown_spacing;
pub mod metadata;
pub mod names;
pub mod namespace_requests;
pub mod origins;
pub mod package_topics;
pub mod packages;
pub mod raw_macros;
pub mod reports;
pub mod s7_classes;
pub mod section_keys;
pub mod tag_effects;
pub mod usages;
pub mod values;
