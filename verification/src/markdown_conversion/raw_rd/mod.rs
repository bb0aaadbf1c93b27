//! Restricted raw Rd support for Markdown prose.
//!
//! Raw Rd is spliced into the events of the text it stands in. The text is
//! parsed once: the same events say what is code, where constructs begin and
//! end, and where a raw node may stand.
pub mod accept;
pub mod facts;
pub mod prepare;
pub mod scan;
