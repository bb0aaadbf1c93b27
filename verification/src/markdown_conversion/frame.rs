//! Conversion frames: what a construct has collected so far.
use crate::source::{Span, TextRange};
use vstd::prelude::*;

use super::events::ColumnAlignment;
use super::origin::{
    make_text_leaves, no_nodes, origin_views, push_node, push_nodes, text_leaves, NodeWithOrigin,
    OriginView,
};
use super::separator::{is_blank, PendingSeparator};
use super::table::{cell_views, CellView, CompletedCell};
use crate::rd::RdMacro;

verus! {

/// What a frame collects for.
#[derive(Debug, PartialEq, Eq)]
pub enum FrameKind {
    Root,
    Paragraph,
    Heading { level: usize, start: usize },
    Subsection { level: usize, start: usize, title: Vec<NodeWithOrigin> },
    Item,
    List { tag: RdMacro, start: usize },
    Table { alignments: Vec<ColumnAlignment>, rows: Vec<Vec<NodeWithOrigin>>, start: usize },
    TableRow { cells: Vec<CompletedCell>, width: usize, start: usize },
    TableCell,
    CodeBlock { executable_r: bool, start: usize },
    Link { destination: String, start: usize },
    Tagged { tag: RdMacro, start: usize },
    Unsupported { name: String, start: usize },
}

/// The model of [`FrameKind`].
#[allow(inconsistent_fields)]
pub enum FrameKindView {
    Root,
    Paragraph,
    Heading { level: usize, start: usize },
    Subsection { level: usize, start: usize, title: Seq<OriginView> },
    Item,
    List { tag: RdMacro, start: usize },
    Table { alignments: Seq<ColumnAlignment>, rows: Seq<Seq<OriginView>>, start: usize },
    TableRow { cells: Seq<CellView>, width: usize, start: usize },
    TableCell,
    CodeBlock { executable_r: bool, start: usize },
    Link { destination: Seq<char>, start: usize },
    Tagged { tag: RdMacro, start: usize },
    Unsupported { name: Seq<char>, start: usize },
}

impl View for FrameKind {
    type V = FrameKindView;

    open spec fn view(&self) -> FrameKindView {
        match self {
            FrameKind::Root => FrameKindView::Root,
            FrameKind::Paragraph => FrameKindView::Paragraph,
            FrameKind::Heading { level, start } => FrameKindView::Heading {
                level: *level,
                start: *start,
            },
            FrameKind::Subsection { level, start, title } => FrameKindView::Subsection {
                level: *level,
                start: *start,
                title: origin_views(*title),
            },
            FrameKind::Item => FrameKindView::Item,
            FrameKind::List { tag, start } => FrameKindView::List { tag: *tag, start: *start },
            FrameKind::Table { alignments, rows, start } => FrameKindView::Table {
                alignments: alignments@,
                rows: row_views(rows@),
                start: *start,
            },
            FrameKind::TableRow { cells, width, start } => FrameKindView::TableRow {
                cells: cell_views(cells@),
                width: *width,
                start: *start,
            },
            FrameKind::TableCell => FrameKindView::TableCell,
            FrameKind::CodeBlock { executable_r, start } => FrameKindView::CodeBlock {
                executable_r: *executable_r,
                start: *start,
            },
            FrameKind::Link { destination, start } => FrameKindView::Link {
                destination: destination@,
                start: *start,
            },
            FrameKind::Tagged { tag, start } => FrameKindView::Tagged { tag: *tag, start: *start },
            FrameKind::Unsupported { name, start } => FrameKindView::Unsupported {
                name: name@,
                start: *start,
            },
        }
    }
}

/// The models of table rows.
pub open spec fn row_views(rows: Seq<Vec<NodeWithOrigin>>) -> Seq<Seq<OriginView>> {
    rows.map_values(|row: Vec<NodeWithOrigin>| origin_views(row))
}

/// A construct that is still open: the nodes it holds, the text behind them
/// that is not a node yet, and the whitespace owed to what comes next.
#[derive(Debug, PartialEq, Eq)]
pub struct Frame {
    pub kind: FrameKind,
    pub text: String,
    pub text_spans: Vec<Span>,
    pub nodes: Vec<NodeWithOrigin>,
    pub separator: PendingSeparator,
}

/// The model of [`Frame`].
pub struct FrameView {
    pub kind: FrameKindView,
    pub text: Seq<char>,
    pub text_spans: Seq<Span>,
    pub nodes: Seq<OriginView>,
    pub separator: PendingSeparator,
}

impl View for Frame {
    type V = FrameView;

    open spec fn view(&self) -> FrameView {
        FrameView {
            kind: self.kind@,
            text: self.text@,
            text_spans: self.text_spans@,
            nodes: origin_views(self.nodes),
            separator: self.separator,
        }
    }
}

/// The models of frames.
pub open spec fn frame_views(frames: Seq<Frame>) -> Seq<FrameView> {
    frames.map_values(|frame: Frame| frame@)
}

/// A frame that has collected nothing.
pub open spec fn empty_frame(kind: FrameKindView) -> FrameView {
    FrameView {
        kind,
        text: Seq::empty(),
        text_spans: Seq::empty(),
        nodes: Seq::empty(),
        separator: PendingSeparator::Nothing,
    }
}

impl Frame {
    /// A frame that has collected nothing.
    pub fn new(kind: FrameKind) -> (r: Self)
        ensures
            r@ == empty_frame(kind@),
    {
        let r = Frame {
            kind,
            text: String::new(),
            text_spans: Vec::new(),
            nodes: no_nodes(),
            separator: PendingSeparator::Nothing,
        };
        proof {
            assert(r@.text =~= Seq::<char>::empty());
            assert(r@.text_spans =~= Seq::<Span>::empty());
        }
        r
    }

    /// The frame of the whole text.
    pub fn root() -> (r: Self)
        ensures
            r@ == empty_frame(FrameKindView::Root),
    {
        Frame::new(FrameKind::Root)
    }

    /// The frame of a section body, which owes its first block a line break.
    pub fn subsection(level: usize, start: usize, title: Vec<NodeWithOrigin>) -> (r: Self)
        ensures
            r@ == subsection_frame(level, start, origin_views(title)),
    {
        let mut frame = Frame::new(FrameKind::Subsection { level, start, title });
        frame.separator = PendingSeparator::Line;
        frame
    }
}

/// The frame of a section body.
pub open spec fn subsection_frame(level: usize, start: usize, title: Seq<OriginView>) -> FrameView {
    FrameView {
        separator: PendingSeparator::Line,
        ..empty_frame(FrameKindView::Subsection { level, start, title })
    }
}

/// A frame whose text has become nodes, one for each physical line. Each gets
/// all spans of the text. A separator that is still owed has nothing to
/// separate and is dropped.
pub open spec fn flushed(frame: FrameView) -> FrameView {
    if frame.text.len() == 0 {
        FrameView { separator: PendingSeparator::Nothing, ..frame }
    } else {
        FrameView {
            text: Seq::empty(),
            text_spans: Seq::empty(),
            nodes: frame.nodes + text_leaves(frame.text, frame.text_spans),
            separator: PendingSeparator::Nothing,
            ..frame
        }
    }
}

/// Turns the collected text into nodes.
pub fn flush_pending(frame: &mut Frame)
    ensures
        final(frame)@ == flushed(old(frame)@),
{
    frame.separator = PendingSeparator::Nothing;
    if is_blank(&frame.text) {
        return;
    }
    let leaves = make_text_leaves(&frame.text, &frame.text_spans);
    frame.text = String::new();
    frame.text_spans = Vec::new();
    push_nodes(&mut frame.nodes, leaves);
    proof {
        assert(frame@.text =~= Seq::<char>::empty());
        assert(frame@.text_spans =~= Seq::<Span>::empty());
    }
}

/// A frame with one more node.
pub open spec fn with_node(frame: FrameView, node: OriginView) -> FrameView {
    let before = flushed(frame);
    FrameView { nodes: before.nodes.push(node), ..before }
}

/// Appends a node.
pub fn append_node(frame: &mut Frame, node: NodeWithOrigin)
    ensures
        final(frame)@ == with_node(old(frame)@, node@),
{
    flush_pending(frame);
    push_node(&mut frame.nodes, node);
}

/// Whether a span continues the one before it.
pub open spec fn continues(before: Span, span: Span) -> bool {
    span.range.width() > 0 && before.range.width() > 0 && before.file == span.file
        && before.range.to == span.range.from
}

/// Spans with one more, which is joined to the last one where it continues it.
pub open spec fn merged_span(spans: Seq<Span>, span: Span) -> Seq<Span> {
    if spans.len() > 0 && continues(spans.last(), span) {
        spans.drop_last().push(
            Span {
                file: spans.last().file,
                range: TextRange { from: spans.last().range.from, to: span.range.to },
            },
        )
    } else {
        spans.push(span)
    }
}

/// Spans with more of them.
pub open spec fn merged_spans(spans: Seq<Span>, more: Seq<Span>) -> Seq<Span>
    decreases more.len(),
{
    if more.len() == 0 {
        spans
    } else {
        merged_span(merged_spans(spans, more.drop_last()), more.last())
    }
}

/// Appends spans, joining those that continue each other.
pub fn append_spans(target: &mut Vec<Span>, spans: &Vec<Span>)
    ensures
        final(target)@ == merged_spans(old(target)@, spans@),
{
    let mut i: usize = 0;
    proof {
        assert(spans@.take(0) =~= Seq::<Span>::empty());
    }
    while i < spans.len()
        invariant
            i <= spans@.len(),
            target@ == merged_spans(old(target)@, spans@.take(i as int)),
        decreases spans@.len() - i,
    {
        proof {
            let prefix = spans@.take(i + 1);
            assert(prefix.drop_last() =~= spans@.take(i as int));
            assert(prefix.last() == spans@[i as int]);
        }
        append_span(target, spans[i]);
        i = i + 1;
    }
    proof {
        assert(spans@.take(spans@.len() as int) =~= spans@);
    }
}

/// Appends a span, joining it to the last one where it continues it.
pub fn append_span(target: &mut Vec<Span>, span: Span)
    ensures
        final(target)@ == merged_span(old(target)@, span),
{
    let count = target.len();
    if count > 0 {
        let last = target[count - 1];
        if !span.range.is_empty() && !last.range.is_empty() && last.file == span.file
            && last.range.to == span.range.from {
            target.pop();
            target.push(
                Span {
                    file: last.file,
                    range: TextRange { from: last.range.from, to: span.range.to },
                },
            );
            return;
        }
    }
    target.push(span);
}

} // verus!
