//! Source positions of byte offsets in a Markdown text.
use crate::source::{Span, TextRange};
use crate::tags::SourcedText;
use vstd::prelude::*;

verus! {

/// A byte offset as a source position; offsets past the largest position stay
/// there.
pub open spec fn clamped(offset: usize) -> u32 {
    if offset <= u32::MAX {
        offset as u32
    } else {
        u32::MAX
    }
}

fn clamp(offset: usize) -> (r: u32)
    ensures
        r == clamped(offset),
{
    if offset <= u32::MAX as usize {
        offset as u32
    } else {
        u32::MAX
    }
}

/// The source spans of a byte range.
pub open spec fn spans_of(source: SourcedText, start: usize, end: usize) -> Seq<Span> {
    source.mapping.spans(clamped(start), clamped(end))
}

/// The source position of a byte offset.
pub open spec fn anchor_of(source: SourcedText, offset: usize) -> Option<Span> {
    source.mapping.anchor(clamped(offset))
}

/// The source spans of a byte range.
pub fn range_spans(source: &SourcedText, start: usize, end: usize) -> (r: Vec<Span>)
    ensures
        r@ == spans_of(*source, start, end),
{
    source.mapping.source_spans(TextRange { from: clamp(start), to: clamp(end) })
}

/// The source position of a byte offset.
pub fn range_anchor(source: &SourcedText, offset: usize) -> (r: Option<Span>)
    ensures
        r == anchor_of(*source, offset),
{
    source.mapping.source_anchor_at(clamp(offset))
}

} // verus!
