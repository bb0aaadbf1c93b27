//! What a frame becomes when its construct closes.
use crate::diagnostic::{DiagnosticView, Diagnostics};
use crate::rd::RdMacro;
use crate::source::Span;
use crate::tags::SourcedText;
use vstd::prelude::*;

use super::context::{ContextView, HelpLinkResolver, MarkdownContext};
use super::frame::{
    append_span, flush_pending, flushed, merged_span, Frame, FrameKind, FrameKindView, FrameView,
};
use super::link::{lower_link, lowered_link};
use super::list::{lower_list, lowered_list};
use super::origin::{
    copy_spans, group, make_group, make_tagged, make_text, make_verb_leaves, one_node,
    origin_views, origin_views_index, push_node, span_list, span_seq, tagged, text_leaf, two_nodes,
    verb_leaves, NodeWithOrigin, OriginView, Shape, ShapeView,
};
use super::position::{anchor_of, range_anchor, range_spans, spans_of};
use super::separator::{is_blank, materialize_separator, with_separator, PendingSeparator};
use super::table::{lower_row, lower_table, lowered_row, lowered_table, CellView, CompletedCell};
use super::unsupported::{chunk_report, diagnose_chunk};

verus! {

/// What a closed construct hands to the one around it.
#[derive(Debug, PartialEq, Eq)]
pub enum FinishedFrame {
    /// Nodes.
    Nodes(Vec<NodeWithOrigin>),
    /// A table cell.
    Cell(CompletedCell),
    /// The nodes of a table row.
    Row(Vec<NodeWithOrigin>),
}

/// The model of [`FinishedFrame`].
pub enum FinishedView {
    Nodes(Seq<OriginView>),
    Cell(CellView),
    Row(Seq<OriginView>),
}

impl View for FinishedFrame {
    type V = FinishedView;

    open spec fn view(&self) -> FinishedView {
        match self {
            FinishedFrame::Nodes(nodes) => FinishedView::Nodes(origin_views(*nodes)),
            FinishedFrame::Cell(cell) => FinishedView::Cell(cell@),
            FinishedFrame::Row(nodes) => FinishedView::Row(origin_views(*nodes)),
        }
    }
}

/// What a frame becomes and what is reported of it.
pub struct Finish {
    pub finished: FinishedView,
    pub diagnostics: Seq<DiagnosticView>,
}

/// A finish that reports nothing.
pub open spec fn quiet(nodes: Seq<OriginView>) -> Finish {
    Finish { finished: FinishedView::Nodes(nodes), diagnostics: Seq::empty() }
}

/// A frame with nothing left to flush. A list always ends with the whitespace
/// that its last item owes, and a section with what its last subsection owes.
#[verifier::opaque]
pub open spec fn settled(source: SourcedText, frame: FrameView, end: usize) -> FrameView {
    let owing = frame.kind is List || (frame.kind is Subsection && frame.separator
        == PendingSeparator::Section);
    flushed(
        if owing {
            with_separator(frame, anchor_of(source, end))
        } else {
            frame
        },
    )
}

/// The body of a section, which always ends with a line break.
#[verifier::opaque]
pub open spec fn closed_body(nodes: Seq<OriginView>, close: Option<Span>) -> Seq<OriginView> {
    if nodes.len() > 0 && (nodes.last().shape matches ShapeView::Text(text) && !(text.len() > 0
        && text.last() == '\n')) {
        let text = nodes.last().shape->Text_0;
        let spans = nodes.last().spans;
        nodes.drop_last().push(
            text_leaf(
                text.push('\n'),
                match close {
                    Some(close) => merged_span(spans, close),
                    None => spans,
                },
            ),
        )
    } else {
        nodes.push(text_leaf(seq!['\n'], span_seq(close)))
    }
}

/// The Rd form of a section.
#[verifier::opaque]
pub open spec fn section_node(
    title: Seq<OriginView>,
    body: Seq<OriginView>,
    spans: Seq<Span>,
) -> OriginView {
    tagged(RdMacro::Subsection, seq![group(title, spans), group(body, spans)], spans)
}

/// The Rd form of a code block. An empty one holds a line break.
#[verifier::opaque]
pub open spec fn code_block_node(text: Seq<char>, text_spans: Seq<Span>, spans: Seq<Span>) -> OriginView {
    let body = if text.len() == 0 {
        seq!['\n']
    } else {
        text
    };
    tagged(RdMacro::Preformatted, verb_leaves(body, text_spans), spans)
}

/// What a frame becomes when its construct closes at a byte offset.
pub open spec fn finish_of(
    source: SourcedText,
    context: ContextView,
    frame: FrameView,
    end: usize,
) -> Finish {
    let nodes = settled(source, frame, end).nodes;
    match frame.kind {
        FrameKindView::TableCell => Finish {
            finished: FinishedView::Cell(CellView { nodes, anchor: anchor_of(source, end) }),
            diagnostics: Seq::empty(),
        },
        FrameKindView::TableRow { cells, width, start } => Finish {
            finished: FinishedView::Row(lowered_row(source, cells, width, start, end)),
            diagnostics: Seq::empty(),
        },
        FrameKindView::Table { alignments, rows, start } => quiet(
            seq![lowered_table(source, alignments, rows, start, end)],
        ),
        FrameKindView::CodeBlock { executable_r, start } => Finish {
            finished: FinishedView::Nodes(
                seq![code_block_node(frame.text, frame.text_spans, spans_of(source, start, end))],
            ),
            diagnostics: if executable_r {
                chunk_report(source, start, end)
            } else {
                Seq::empty()
            },
        },
        FrameKindView::Subsection { level, start, title } => quiet(
            seq![
                section_node(
                    title,
                    closed_body(nodes, anchor_of(source, end)),
                    spans_of(source, start, end),
                ),
            ],
        ),
        FrameKindView::Link { destination, start } => {
            let lowered = lowered_link(source, context, destination, start, end, nodes);
            Finish {
                finished: FinishedView::Nodes(lowered.nodes),
                diagnostics: lowered.diagnostics,
            }
        },
        FrameKindView::List { tag, start } => quiet(
            seq![lowered_list(tag, nodes, spans_of(source, start, end))],
        ),
        FrameKindView::Tagged { tag, start } => quiet(
            seq![tagged(tag, nodes, spans_of(source, start, end))],
        ),
        FrameKindView::Root
        | FrameKindView::Paragraph
        | FrameKindView::Heading { .. }
        | FrameKindView::Item
        | FrameKindView::Unsupported { .. } => quiet(nodes),
    }
}

fn settle(source: &SourcedText, frame: &mut Frame, end: usize)
    ensures
        final(frame)@ == settled(*source, old(frame)@, end),
        final(frame)@.kind == old(frame)@.kind,
{
    proof {
        reveal(settled);
    }
    let owing = match &frame.kind {
        FrameKind::List { .. } => true,
        FrameKind::Subsection { .. } => frame.separator == PendingSeparator::Section,
        _ => false,
    };
    if owing {
        materialize_separator(frame, range_anchor(source, end));
    }
    flush_pending(frame);
}

fn one_line_break() -> (r: String)
    ensures
        r@ == seq!['\n'],
{
    let mut text: String = String::new();
    text.push('\n');
    proof {
        assert(text@ =~= seq!['\n']);
    }
    text
}

fn close_body(nodes: Vec<NodeWithOrigin>, close: Option<Span>) -> (r: Vec<NodeWithOrigin>)
    ensures
        origin_views(r) == closed_body(origin_views(nodes), close),
{
    proof {
        reveal(closed_body);
    }
    let ghost shown = origin_views(nodes);
    proof {
        origin_views_index(nodes);
    }
    let mut nodes = nodes;
    if nodes.len() > 0 {
        let open = match &nodes[nodes.len() - 1].shape {
            Shape::Text(text) => !ends_with_line(text),
            _ => false,
        };
        if open {
            let ghost full = nodes;
            if let Some(NodeWithOrigin { shape: Shape::Text(text), spans }) = nodes.pop() {
                proof {
                    origin_views_index(full);
                    origin_views_index(nodes);
                    assert(origin_views(nodes) =~= shown.drop_last());
                    assert(shown.last() == full@.last()@);
                }
                let mut text = text;
                let mut spans = spans;
                text.push('\n');
                if let Some(close) = close {
                    append_span(&mut spans, close);
                }
                push_node(&mut nodes, make_text(text, spans));
                return nodes;
            }
        }
    }
    push_node(&mut nodes, make_text(one_line_break(), span_list(close)));
    nodes
}

fn ends_with_line(text: &str) -> (r: bool)
    ensures
        r == (text@.len() > 0 && text@.last() == '\n'),
{
    let chars = crate::text::char_vec(text);
    chars.len() > 0 && chars[chars.len() - 1] == '\n'
}

fn finish_code_block(text: String, text_spans: Vec<Span>, spans: Vec<Span>) -> (r: NodeWithOrigin)
    ensures
        r@ == code_block_node(text@, text_spans@, spans@),
{
    proof {
        reveal(code_block_node);
    }
    let body = if is_blank(&text) {
        one_line_break()
    } else {
        text
    };
    make_tagged(RdMacro::Preformatted, make_verb_leaves(&body, &text_spans), spans)
}

fn finish_section(title: Vec<NodeWithOrigin>, body: Vec<NodeWithOrigin>, spans: Vec<Span>) -> (r:
    NodeWithOrigin)
    ensures
        r@ == section_node(origin_views(title), origin_views(body), spans@),
{
    proof {
        reveal(section_node);
    }
    let title = make_group(title, copy_spans(&spans));
    let body = make_group(body, copy_spans(&spans));
    make_tagged(RdMacro::Subsection, two_nodes(title, body), spans)
}

/// Closes a frame.
pub fn finish_frame<L: HelpLinkResolver>(
    source: &SourcedText,
    context: &MarkdownContext<'_, L>,
    frame: Frame,
    end: usize,
    diagnostics: &mut Diagnostics,
) -> (r: FinishedFrame)
    ensures
        r@ == finish_of(*source, context@, frame@, end).finished,
        final(diagnostics)@ == old(diagnostics)@ + finish_of(
            *source,
            context@,
            frame@,
            end,
        ).diagnostics,
{
    proof {
        assert(diagnostics@ + Seq::<DiagnosticView>::empty() =~= diagnostics@);
    }
    if let FrameKind::CodeBlock { executable_r, start } = frame.kind {
        if executable_r {
            diagnose_chunk(source, start, end, diagnostics);
        }
        let spans = range_spans(source, start, end);
        return FinishedFrame::Nodes(
            one_node(finish_code_block(frame.text, frame.text_spans, spans)),
        );
    }
    let mut frame = frame;
    settle(source, &mut frame, end);
    let Frame { kind, text: _, text_spans: _, nodes, separator: _ } = frame;
    match kind {
        FrameKind::TableCell => FinishedFrame::Cell(
            CompletedCell { nodes, anchor: range_anchor(source, end) },
        ),
        FrameKind::TableRow { cells, width, start } => FinishedFrame::Row(
            lower_row(source, cells, width, start, end),
        ),
        FrameKind::Table { alignments, rows, start } => FinishedFrame::Nodes(
            one_node(lower_table(source, alignments, rows, start, end)),
        ),
        FrameKind::Subsection { level: _, start, title } => {
            let body = close_body(nodes, range_anchor(source, end));
            let spans = range_spans(source, start, end);
            FinishedFrame::Nodes(one_node(finish_section(title, body, spans)))
        },
        FrameKind::Link { destination, start } => FinishedFrame::Nodes(
            lower_link(source, context, &destination, start, end, nodes, diagnostics),
        ),
        FrameKind::List { tag, start } => FinishedFrame::Nodes(
            one_node(lower_list(tag, nodes, range_spans(source, start, end))),
        ),
        FrameKind::Tagged { tag, start } => FinishedFrame::Nodes(
            one_node(make_tagged(tag, nodes, range_spans(source, start, end))),
        ),
        FrameKind::CodeBlock { .. }
        | FrameKind::Root
        | FrameKind::Paragraph
        | FrameKind::Heading { .. }
        | FrameKind::Item
        | FrameKind::Unsupported { .. } => FinishedFrame::Nodes(nodes),
    }
}

} // verus!
