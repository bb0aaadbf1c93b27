//! Converts the supported Markdown subset into source-backed Rd fragments.
//!
//! The text is parsed once into events. The events are converted one after the
//! other; constructs that are open are kept as frames, and what a construct
//! has collected becomes Rd nodes when it closes.
pub mod balance;
pub mod code;
pub mod context;
pub mod convert;
pub mod events;
pub mod finish;
pub mod fragment;
pub mod frame;
pub mod laws;
pub mod leaf;
pub mod lines;
pub mod link;
pub mod list;
pub mod lookups;
pub mod origin;
pub mod position;
pub mod raw_rd;
pub mod section_key;
pub mod separator;
pub mod table;
pub mod unsupported;

use crate::diagnostic::{DiagnosticView, Diagnostics};
use crate::rd::{node_views, RdNode};
use crate::tags::{MarkdownText, SourcedText};
use vstd::prelude::*;
use vstd::utf8::encode_utf8;

use self::context::{ContextView, HelpLinkResolver, MarkdownContext};
use self::convert::{outcome, Setting};
use self::events::{
    event_views, markdown_events, markdown_reading, SourcedEvent, SourcedEventView,
};
use self::fragment::{fragment_of, FragmentView, LatexFragment};
use self::raw_rd::prepare::{prepared, PreparationView, RawRdPreparation};
use self::raw_rd::scan::ByteRange;
use self::section_key::{key_of_nodes, SectionTitleKey};
use self::unsupported::{diagnose_raw_macro, raw_macro_report};

verus! {

/// A Markdown conversion result.
#[derive(Debug, PartialEq, Eq)]
pub struct MarkdownConversion {
    /// The converted nodes and their source origins.
    pub fragment: LatexFragment,
    /// Problems found while converting.
    pub diagnostics: Diagnostics,
}

/// The model of [`MarkdownConversion`].
pub struct ConversionView {
    pub fragment: FragmentView,
    pub diagnostics: Seq<DiagnosticView>,
}

impl View for MarkdownConversion {
    type V = ConversionView;

    open spec fn view(&self) -> ConversionView {
        ConversionView { fragment: self.fragment@, diagnostics: self.diagnostics@ }
    }
}

/// What is reported of the first `count` raw macros that have no place in
/// prose.
pub open spec fn raw_reports(source: SourcedText, places: Seq<ByteRange>, count: int) -> Seq<
    DiagnosticView,
>
    decreases count,
{
    if count <= 0 {
        Seq::empty()
    } else {
        let place = places[count - 1];
        raw_reports(source, places, count - 1) + raw_macro_report(source, place.start, place.end)
    }
}

/// The raw macros of a text, or none where raw macros are literal.
pub open spec fn preparation(
    source: SourcedText,
    events: Seq<SourcedEventView>,
    enable_raw_rd: bool,
) -> PreparationView {
    if enable_raw_rd {
        prepared(source.text@, events)
    } else {
        PreparationView { macros: Seq::empty(), unsupported: Seq::empty() }
    }
}

/// The length of a text in bytes.
pub open spec fn text_end(source: SourcedText) -> usize {
    encode_utf8(source.text@).len() as usize
}

/// The fragment that events of a text convert to, and what is reported.
pub open spec fn conversion_of(
    source: SourcedText,
    context: ContextView,
    events: Seq<SourcedEventView>,
    enable_raw_rd: bool,
) -> ConversionView {
    let raw = preparation(source, events, enable_raw_rd);
    let done = outcome(
        Setting { source, context, macros: raw.macros },
        raw_reports(source, raw.unsupported, raw.unsupported.len() as int),
        events,
    );
    ConversionView { fragment: fragment_of(done.0), diagnostics: done.1 }
}

fn report_raw_macros(source: &SourcedText, places: &Vec<ByteRange>) -> (r: Diagnostics)
    ensures
        r@ == raw_reports(*source, places@, places@.len() as int),
{
    let mut diagnostics = Diagnostics::new();
    let mut i: usize = 0;
    while i < places.len()
        invariant
            i <= places@.len(),
            diagnostics@ == raw_reports(*source, places@, i as int),
        decreases places@.len() - i,
    {
        diagnose_raw_macro(source, places[i].start, places[i].end, &mut diagnostics);
        i = i + 1;
    }
    diagnostics
}

/// Converts the events of a text. Where `enable_raw_rd` is false, raw macros are
/// literal text.
pub fn convert_markdown_events<L: HelpLinkResolver>(
    value: &MarkdownText,
    context: &MarkdownContext<'_, L>,
    events: Vec<SourcedEvent>,
    enable_raw_rd: bool,
) -> (r: MarkdownConversion)
    ensures
        r@ == conversion_of(*value.source, context@, event_views(events@), enable_raw_rd),
{
    let source: &SourcedText = &value.source;
    let raw = if enable_raw_rd {
        RawRdPreparation::new(&source.text, &events)
    } else {
        RawRdPreparation::disabled()
    };
    let diagnostics = report_raw_macros(source, &raw.unsupported);
    let (nodes, diagnostics) = convert::run(source, context, &raw.macros, events, diagnostics);
    MarkdownConversion { fragment: fragment::flatten(&nodes), diagnostics }
}

/// Converts a Markdown text, with or without raw Rd macros.
fn convert_markdown_with_raw_rd<L: HelpLinkResolver>(
    value: &MarkdownText,
    context: &MarkdownContext<'_, L>,
    enable_raw_rd: bool,
) -> (r: MarkdownConversion)
    ensures
        r@ == conversion_of(
            *value.source,
            context@,
            markdown_reading(value.source.text@),
            enable_raw_rd,
        ),
{
    let events = markdown_events(value.as_str());
    convert_markdown_events(value, context, events, enable_raw_rd)
}

/// Converts a Markdown text into an Rd fragment.
pub fn convert_markdown<L: HelpLinkResolver>(
    value: &MarkdownText,
    context: &MarkdownContext<'_, L>,
) -> (r: MarkdownConversion)
    ensures
        r@ == conversion_of(*value.source, context@, markdown_reading(value.source.text@), true),
{
    convert_markdown_with_raw_rd(value, context, true)
}

/// Converts a Markdown text into an Rd fragment and takes raw Rd macros as
/// literal text.
pub fn convert_markdown_without_raw_rd<L: HelpLinkResolver>(
    value: &MarkdownText,
    context: &MarkdownContext<'_, L>,
) -> (r: MarkdownConversion)
    ensures
        r@ == conversion_of(*value.source, context@, markdown_reading(value.source.text@), false),
{
    convert_markdown_with_raw_rd(value, context, false)
}

/// The key of a section title. What the conversion reports is dropped: the
/// title is reported when it is rendered.
pub fn markdown_section_key<L: HelpLinkResolver>(
    value: &MarkdownText,
    context: &MarkdownContext<'_, L>,
) -> (r: SectionTitleKey)
    ensures
        r@ == key_of_nodes(
            conversion_of(
                *value.source,
                context@,
                markdown_reading(value.source.text@),
                true,
            ).fragment.nodes,
        ),
{
    let conversion = convert_markdown(value, context);
    SectionTitleKey::from_rd(&conversion.fragment.nodes)
}

/// The key of a section title that is Rd already.
pub fn rd_section_key(nodes: &Vec<RdNode>) -> (r: SectionTitleKey)
    ensures
        r@ == key_of_nodes(node_views(*nodes)),
{
    SectionTitleKey::from_rd(nodes)
}

} // verus!
