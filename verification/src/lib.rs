//! Static documentation model for R packages.
//!
//! The crate turns parsed roxygen blocks and static syntax facts into package
//! topics, NAMESPACE text and Rd fragments. Nothing here evaluates R code or
//! touches the file system.
pub mod authors;
pub mod diagnostic;
pub mod facts;
pub mod inherit;
pub mod laws;
pub mod marc_roles;
pub mod markdown_conversion;
pub mod model;
pub mod namespace;
pub mod package;
pub mod pipeline;
pub mod r_parse;
pub mod r_source;
pub mod r_syntax;
pub mod rd;
pub mod runs;
pub mod s3_register;
pub mod source;
pub mod tags;
pub mod text;
pub mod usage;
