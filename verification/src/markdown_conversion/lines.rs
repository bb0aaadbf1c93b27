//! Converted leaves hold one physical line each.
use crate::rd::{NodeView, RdMacro, TagView};
use crate::source::{byte_slice, Span};
use crate::tags::SourcedText;
use crate::text::{after_prefix, has_prefix};
use vstd::prelude::*;

use super::code::{code_form, CodeForm};
use super::context::ContextView;
use super::convert::{
    advanced_is_further, after_code, after_end, after_events, after_expression, after_heading,
    after_literal, after_node, after_opening, after_plain_event, after_section, after_sections,
    after_slice, after_start, after_text_from, caught_up, closing_report, code_node,
    crosses_lines, finished_nodes, frame_before_block, frame_before_heading, frame_before_nested,
    frame_kind_for, frame_with_finished, frame_with_text, in_section_from, item_frame,
    opening_report, outcome, starts_section, ConverterView, Setting,
};
use super::events::{
    kind_of, ColumnAlignment, MarkdownEventView, MarkdownTagView, SourcedEventView, TagKind,
};
use super::finish::{closed_body, code_block_node, finish_of, section_node, settled, FinishedView};
use super::frame::{empty_frame, flushed, subsection_frame, with_node, FrameKindView, FrameView};
use super::leaf::{is_chunk, line_chunks, line_chunks_partition};
use super::link::{
    first_spans, link_label, link_marker, link_option, link_package, link_reading, lowered_link,
    lowered_topic, lowered_url, percent_decoded, rendered_all, text_nodes,
};
use super::origin::{
    bare, bare_all, bare_all_index, group, span_seq, spread, spread_all, tagged, text_leaf,
    text_leaves, verb_leaf, verb_leaves, OriginView, ShapeView,
};
use super::position::{anchor_of, spans_of};
use super::raw_rd::prepare::{
    advanced, argument_body, argument_groups, body_range, raw_node, RawRdMacroView,
};
use super::raw_rd::scan::{ByteRange, RawRdArgument, RawRdKindView};
use super::separator::{
    boundary_after, stronger, with_flattened_all, with_separator, PendingSeparator,
};
use super::table::{
    body_upto, column_letter, column_letters, content_anchor, first_of, fitted, lowered_row,
    lowered_table, mark, row_upto, with_text, CellView,
};
use super::unsupported::{
    construct_report, evaluation_report, multiline_report, undefined_report,
};
use super::{conversion_of, preparation, raw_reports, text_end};

verus! {

/// A text with a line break nowhere but at its end.
pub open spec fn one_line(text: Seq<char>) -> bool {
    forall|i: int| 0 <= i < text.len() - 1 ==> #[trigger] text[i] != '\n'
}

/// A node all of whose leaves hold one line. What stands in an option or in a
/// raw node is not looked into.
pub open spec fn lined(node: NodeView) -> bool
    decreases node,
{
    match node {
        NodeView::Text(text)
        | NodeView::RCode(text)
        | NodeView::Verb(text)
        | NodeView::Comment(text) => one_line(text),
        NodeView::Group(children) => forall|i: int|
            0 <= i < children.len() ==> lined(#[trigger] children[i]),
        NodeView::Tagged { children, .. } => forall|i: int|
            0 <= i < children.len() ==> lined(#[trigger] children[i]),
        NodeView::Raw { .. } => true,
    }
}

/// Nodes all of whose leaves hold one line.
pub open spec fn all_lined(nodes: Seq<NodeView>) -> bool {
    forall|i: int| 0 <= i < nodes.len() ==> lined(#[trigger] nodes[i])
}

/// A node with spans all of whose leaves hold one line.
#[verifier::opaque]
pub open spec fn clean(node: OriginView) -> bool {
    lined(bare(node))
}

/// Nodes with spans all of whose leaves hold one line.
pub open spec fn all_clean(nodes: Seq<OriginView>) -> bool {
    forall|i: int| 0 <= i < nodes.len() ==> clean(#[trigger] nodes[i])
}

proof fn text_is_clean(text: Seq<char>, spans: Seq<Span>)
    requires
        one_line(text),
    ensures
        clean(text_leaf(text, spans)),
        clean(verb_leaf(text, spans)),
        clean(OriginView { shape: ShapeView::RCode(text), spans }),
{
    reveal(clean);
}

proof fn leaves_are_clean(text: Seq<char>, spans: Seq<Span>)
    ensures
        all_clean(text_leaves(text, spans)),
        all_clean(verb_leaves(text, spans)),
{
    line_chunks_partition(text);
    assert forall|i: int| 0 <= i < text_leaves(text, spans).len() implies clean(
        #[trigger] text_leaves(text, spans)[i],
    ) by {
        assert(is_chunk(line_chunks(text)[i]));
        text_is_clean(line_chunks(text)[i], spans);
    }
    assert forall|i: int| 0 <= i < verb_leaves(text, spans).len() implies clean(
        #[trigger] verb_leaves(text, spans)[i],
    ) by {
        assert(is_chunk(line_chunks(text)[i]));
        text_is_clean(line_chunks(text)[i], spans);
    }
}

proof fn node_is_clean(node: OriginView, children: Seq<OriginView>)
    requires
        all_clean(children),
        match node.shape {
            ShapeView::Group(own) => own == children,
            ShapeView::Tagged { children: own, .. } => own == children,
            _ => false,
        },
    ensures
        clean(node),
{
    reveal(clean);
    bare_all_index(children);
    assert forall|i: int| 0 <= i < bare_all(children).len() implies lined(
        #[trigger] bare_all(children)[i],
    ) by {
        assert(clean(children[i]));
    }
}

proof fn tagged_is_clean(tag: RdMacro, children: Seq<OriginView>, spans: Seq<Span>)
    requires
        all_clean(children),
    ensures
        clean(tagged(tag, children, spans)),
        clean(group(children, spans)),
{
    node_is_clean(tagged(tag, children, spans), children);
    node_is_clean(group(children, spans), children);
}

proof fn spread_is_bare_again(node: NodeView, spans: Seq<Span>)
    ensures
        bare(spread(node, spans)) == node,
    decreases node, 0nat,
{
    match node {
        NodeView::Group(children) => {
            spread_all_is_bare_again(children, spans);
        },
        NodeView::Tagged { children, .. } => {
            spread_all_is_bare_again(children, spans);
        },
        _ => {},
    }
}

proof fn spread_all_is_bare_again(nodes: Seq<NodeView>, spans: Seq<Span>)
    ensures
        bare_all(spread_all(nodes, spans)) == nodes,
    decreases nodes, nodes.len(),
{
    if nodes.len() > 0 {
        let front = nodes.drop_last();
        spread_all_is_bare_again(front, spans);
        spread_is_bare_again(nodes.last(), spans);
        let all = spread_all(nodes, spans);
        assert(all.drop_last() =~= spread_all(front, spans));
        assert(bare_all(all) =~= nodes);
    } else {
        assert(bare_all(spread_all(nodes, spans)) =~= nodes);
    }
}

proof fn spread_is_clean(nodes: Seq<NodeView>, spans: Seq<Span>)
    requires
        all_lined(nodes),
    ensures
        all_clean(spread_all(nodes, spans)),
{
    spread_all_is_bare_again(nodes, spans);
    let all = spread_all(nodes, spans);
    bare_all_index(all);
    assert forall|i: int| 0 <= i < all.len() implies clean(#[trigger] all[i]) by {
        reveal(clean);
        assert(bare_all(all)[i] == bare(all[i]));
        assert(lined(nodes[i]));
    }
}

/// Table cells whose nodes are clean.
pub open spec fn cells_clean(cells: Seq<CellView>) -> bool {
    forall|i: int| 0 <= i < cells.len() ==> all_clean((#[trigger] cells[i]).nodes)
}

/// Table rows whose nodes are clean.
pub open spec fn rows_clean(rows: Seq<Seq<OriginView>>) -> bool {
    forall|i: int| 0 <= i < rows.len() ==> all_clean(#[trigger] rows[i])
}

/// A frame that holds clean nodes only.
pub open spec fn frame_clean(frame: FrameView) -> bool {
    &&& all_clean(frame.nodes)
    &&& match frame.kind {
        FrameKindView::Subsection { title, .. } => all_clean(title),
        FrameKindView::Table { rows, .. } => rows_clean(rows),
        FrameKindView::TableRow { cells, .. } => cells_clean(cells),
        _ => true,
    }
}

/// A state with open constructs that all hold clean nodes only.
pub open spec fn state_clean(state: ConverterView) -> bool {
    &&& state.frames.len() > 0
    &&& forall|i: int| 0 <= i < state.frames.len() ==> frame_clean(#[trigger] state.frames[i])
}

proof fn flushing_is_clean(frame: FrameView)
    requires
        frame_clean(frame),
    ensures
        frame_clean(flushed(frame)),
{
    leaves_are_clean(frame.text, frame.text_spans);
}

proof fn with_node_is_clean(frame: FrameView, node: OriginView)
    requires
        frame_clean(frame),
        clean(node),
    ensures
        frame_clean(with_node(frame, node)),
{
    flushing_is_clean(frame);
}

proof fn flattening_is_clean(frame: FrameView, nodes: Seq<OriginView>, anchor: Option<Span>)
    requires
        frame_clean(frame),
        all_clean(nodes),
    ensures
        frame_clean(with_flattened_all(frame, nodes, anchor)),
    decreases nodes.len(),
{
    if nodes.len() > 0 {
        let front = nodes.drop_last();
        assert forall|i: int| 0 <= i < front.len() implies clean(#[trigger] front[i]) by {
            assert(clean(nodes[i]));
        }
        flattening_is_clean(frame, front, anchor);
        let before = with_flattened_all(frame, front, anchor);
        let node = nodes.last();
        assert(clean(nodes[nodes.len() - 1]));
        match node.shape {
            ShapeView::Text(_) => {},
            _ => {
                with_node_is_clean(with_separator(before, anchor), node);
            },
        }
    }
}

proof fn code_is_clean(code: Seq<char>, form: CodeForm, spans: Seq<Span>)
    requires
        one_line(code),
    ensures
        clean(code_node(code, form, spans)),
{
    text_is_clean(code, spans);
    let code_leaf = OriginView { shape: ShapeView::RCode(code), spans };
    tagged_is_clean(RdMacro::Code, seq![code_leaf], spans);
    tagged_is_clean(RdMacro::Verb, seq![verb_leaf(code, spans)], spans);
}

proof fn arguments_are_clean(source: SourcedText, arguments: Seq<RawRdArgument>, count: int)
    ensures
        all_clean(argument_groups(source, arguments, count)),
    decreases count,
{
    if count > 0 {
        arguments_are_clean(source, arguments, count - 1);
        let argument = arguments[count - 1];
        let range = body_range(argument);
        let body = argument_body(source.text@, argument);
        let inner = spans_of(source, range.start, range.end);
        let outer = spans_of(source, argument.open, argument.close);
        leaves_are_clean(body, inner);
        tagged_is_clean(RdMacro::Eqn, verb_leaves(body, inner), outer);
    }
}

proof fn raw_node_is_clean(source: SourcedText, raw: RawRdMacroView)
    ensures
        clean(raw_node(source, raw)),
{
    let spans = spans_of(source, raw.source.start, raw.source.end);
    match raw.kind {
        RawRdKindView::ZeroArgument(tag) => {
            tagged_is_clean(tag, Seq::empty(), spans);
        },
        RawRdKindView::Equation { tag, arguments } => {
            let count = arguments.len() as int;
            arguments_are_clean(source, arguments, count);
            tagged_is_clean(tag, argument_groups(source, arguments, count), spans);
        },
    }
}

proof fn row_is_clean(
    cells: Seq<CellView>,
    count: int,
    from: Option<Span>,
    to: Option<Span>,
)
    requires
        cells_clean(cells),
        count <= cells.len(),
    ensures
        frame_clean(row_upto(cells, count, from, to)),
    decreases count,
{
    if count > 0 {
        let index = count - 1;
        row_is_clean(cells, index, from, to);
        let inner = content_anchor(cells, index, from, to);
        let opened = with_text(
            row_upto(cells, index, from, to),
            if index == 0 {
                "   "@
            } else {
                " "@
            },
            inner,
        );
        flattening_is_clean(opened, cells[index].nodes, inner);
        let filled = with_flattened_all(opened, cells[index].nodes, inner);
        let outer = first_of(cells[index].anchor, to);
        tagged_is_clean(RdMacro::Tab, Seq::empty(), span_seq(outer));
        tagged_is_clean(RdMacro::Cr, Seq::empty(), span_seq(to));
        with_node_is_clean(
            with_text(filled, " "@, outer),
            mark(RdMacro::Tab, outer),
        );
        with_node_is_clean(with_text(filled, " "@, to), mark(RdMacro::Cr, to));
    }
}

proof fn lowered_row_is_clean(
    source: SourcedText,
    cells: Seq<CellView>,
    width: usize,
    start: usize,
    end: usize,
)
    requires
        cells_clean(cells),
    ensures
        all_clean(lowered_row(source, cells, width, start, end)),
{
    reveal(lowered_row);
    let to = anchor_of(source, end);
    let all = fitted(cells, width as nat, to);
    assert forall|i: int| 0 <= i < all.len() implies all_clean((#[trigger] all[i]).nodes) by {
        if i < cells.len() {
            assert(all_clean(cells[i].nodes));
        }
    }
    row_is_clean(all, width as int, anchor_of(source, start), to);
}

proof fn line_break_is_clean(spans: Seq<Span>)
    ensures
        clean(text_leaf(seq!['\n'], spans)),
{
    text_is_clean(seq!['\n'], spans);
}

proof fn body_is_clean(rows: Seq<Seq<OriginView>>, count: int, spans: Seq<Span>)
    requires
        rows_clean(rows),
        count <= rows.len(),
    ensures
        all_clean(body_upto(rows, count, spans)),
    decreases count,
{
    line_break_is_clean(spans);
    if count > 0 {
        body_is_clean(rows, count - 1, spans);
        let before = body_upto(rows, count - 1, spans);
        line_break_is_clean(before.last().spans);
        assert(all_clean(rows[count - 1]));
    }
}

proof fn lowered_table_is_clean(
    source: SourcedText,
    alignments: Seq<ColumnAlignment>,
    rows: Seq<Seq<OriginView>>,
    start: usize,
    end: usize,
)
    requires
        rows_clean(rows),
    ensures
        clean(lowered_table(source, alignments, rows, start, end)),
{
    reveal(lowered_table);
    let spans = spans_of(source, start, end);
    let letters = column_letters(alignments);
    assert forall|i: int| 0 <= i < letters.len() - 1 implies #[trigger] letters[i] != '\n' by {
        assert(letters[i] == column_letter(alignments[i]));
    }
    text_is_clean(letters, spans);
    let head = seq![text_leaf(letters, spans)];
    body_is_clean(rows, rows.len() as int, spans);
    line_break_is_clean(spans);
    let body = body_upto(rows, rows.len() as int, spans).push(text_leaf(seq!['\n'], spans));
    let tag = RdMacro::Tabular;
    tagged_is_clean(tag, head, spans);
    tagged_is_clean(tag, body, spans);
    tagged_is_clean(tag, seq![group(head, spans), group(body, spans)], spans);
}

proof fn lowered_url_is_clean(
    destination: Seq<char>,
    display_text: Seq<char>,
    children: Seq<OriginView>,
    spans: Seq<Span>,
)
    requires
        all_clean(children),
    ensures
        clean(lowered_url(destination, display_text, children, spans)),
{
    let shown = first_spans(children, spans);
    leaves_are_clean(display_text, shown);
    leaves_are_clean(destination, spans);
    tagged_is_clean(RdMacro::Url, verb_leaves(display_text, shown), spans);
    let href = RdMacro::Href;
    tagged_is_clean(href, verb_leaves(destination, spans), spans);
    tagged_is_clean(href, children, spans);
    tagged_is_clean(
        href,
        seq![group(verb_leaves(destination, spans), spans), group(children, spans)],
        spans,
    );
}

proof fn lowered_topic_is_clean(
    source: SourcedText,
    context: ContextView,
    target: Seq<char>,
    start: usize,
    end: usize,
    children: Seq<OriginView>,
)
    requires
        all_clean(children),
    ensures
        all_clean(lowered_topic(source, context, target, start, end, children).nodes),
{
    reveal(lowered_topic);
    let spans = spans_of(source, start, end);
    let reading = link_reading(target, children);
    let parsed = reading.parsed;
    let label = link_label(reading, context, rendered_all(children));
    leaves_are_clean(label, first_spans(children, spans));
    let display = if reading.generated || reading.code_span {
        text_leaves(label, first_spans(children, spans))
    } else {
        children
    };
    let option = link_option(
        link_package(parsed, context),
        parsed.topic,
        label,
    );
    let link = OriginView {
        shape: ShapeView::Tagged {
            tag: TagView::Named(RdMacro::Link),
            option: match option {
                Some(option) => Some(text_nodes(option)),
                None => None,
            },
            children: display,
        },
        spans,
    };
    node_is_clean(link, display);
    tagged_is_clean(RdMacro::Code, seq![link], spans);
}

proof fn lowered_link_is_clean(
    source: SourcedText,
    context: ContextView,
    destination: Seq<char>,
    start: usize,
    end: usize,
    children: Seq<OriginView>,
)
    requires
        all_clean(children),
    ensures
        all_clean(lowered_link(source, context, destination, start, end, children).nodes),
{
    reveal(lowered_link);
    match after_prefix(destination, link_marker()) {
        Some(encoded) => {
            let target = percent_decoded(encoded);
            lowered_topic_is_clean(source, context, target, start, end, children);
        },
        None => {
            lowered_url_is_clean(
                destination,
                rendered_all(children),
                children,
                spans_of(source, start, end),
            );
        },
    }
}

proof fn closed_body_is_clean(nodes: Seq<OriginView>, close: Option<Span>)
    requires
        all_clean(nodes),
    ensures
        all_clean(closed_body(nodes, close)),
{
    reveal(closed_body);
    line_break_is_clean(span_seq(close));
    let after = closed_body(nodes, close);
    if nodes.len() > 0 && nodes.last().shape is Text {
        let text = nodes.last().shape->Text_0;
        assert(clean(nodes[nodes.len() - 1]));
        assert(one_line(text)) by {
            reveal(clean);
        }
        if !(text.len() > 0 && text.last() == '\n') {
            assert(one_line(text.push('\n'))) by {
                assert forall|i: int| 0 <= i < text.push('\n').len() - 1 implies
                    #[trigger] text.push('\n')[i] != '\n' by {
                    assert(text.push('\n')[i] == text[i]);
                }
            }
            text_is_clean(text.push('\n'), after.last().spans);
        }
    }
}

proof fn settling_is_clean(source: SourcedText, frame: FrameView, end: usize)
    requires
        frame_clean(frame),
    ensures
        frame_clean(settled(source, frame, end)),
{
    reveal(settled);
    flushing_is_clean(frame);
    flushing_is_clean(with_separator(frame, anchor_of(source, end)));
}

/// A finished construct that hands over clean nodes only.
pub open spec fn finished_clean(finished: FinishedView) -> bool {
    match finished {
        FinishedView::Nodes(nodes) => all_clean(nodes),
        FinishedView::Row(nodes) => all_clean(nodes),
        FinishedView::Cell(cell) => all_clean(cell.nodes),
    }
}

proof fn finishing_is_clean(
    source: SourcedText,
    context: ContextView,
    frame: FrameView,
    end: usize,
)
    requires
        frame_clean(frame),
    ensures
        finished_clean(finish_of(source, context, frame, end).finished),
{
    settling_is_clean(source, frame, end);
    let nodes = settled(source, frame, end).nodes;
    match frame.kind {
        FrameKindView::TableRow { cells, width, start } => {
            lowered_row_is_clean(source, cells, width, start, end);
        },
        FrameKindView::Table { alignments, rows, start } => {
            lowered_table_is_clean(source, alignments, rows, start, end);
        },
        FrameKindView::CodeBlock { start, .. } => {
            reveal(code_block_node);
            let spans = spans_of(source, start, end);
            let body = if frame.text.len() == 0 {
                seq!['\n']
            } else {
                frame.text
            };
            leaves_are_clean(body, frame.text_spans);
            tagged_is_clean(
                RdMacro::Preformatted,
                verb_leaves(body, frame.text_spans),
                spans,
            );
        },
        FrameKindView::Subsection { start, title, .. } => {
            reveal(section_node);
            let close = anchor_of(source, end);
            let spans = spans_of(source, start, end);
            let body = closed_body(nodes, close);
            let tag = RdMacro::Subsection;
            closed_body_is_clean(nodes, close);
            tagged_is_clean(tag, title, spans);
            tagged_is_clean(tag, body, spans);
            tagged_is_clean(tag, seq![group(title, spans), group(body, spans)], spans);
        },
        FrameKindView::Link { destination, start } => {
            lowered_link_is_clean(source, context, destination, start, end, nodes);
        },
        FrameKindView::List { tag, start } => {
            let spans = spans_of(source, start, end);
            line_break_is_clean(spans);
            tagged_is_clean(tag, seq![text_leaf(seq!['\n'], spans)] + nodes, spans);
        },
        FrameKindView::Tagged { tag, start } => {
            tagged_is_clean(tag, nodes, spans_of(source, start, end));
        },
        _ => {},
    }
}

proof fn last_replaced(state: ConverterView, frame: FrameView)
    requires
        state_clean(state),
        frame_clean(frame),
    ensures
        state_clean(state.with_last(frame)),
{
    let after = state.with_last(frame);
    assert forall|i: int| 0 <= i < after.frames.len() implies frame_clean(
        #[trigger] after.frames[i],
    ) by {
        if i < after.frames.len() - 1 {
            assert(after.frames[i] == state.frames[i]);
        }
    }
}

proof fn frame_added(state: ConverterView, frame: FrameView)
    requires
        state_clean(state),
        frame_clean(frame),
    ensures
        state_clean(state.with_frame(frame)),
{
    let after = state.with_frame(frame);
    assert forall|i: int| 0 <= i < after.frames.len() implies frame_clean(
        #[trigger] after.frames[i],
    ) by {
        if i < after.frames.len() - 1 {
            assert(after.frames[i] == state.frames[i]);
        }
    }
}

proof fn last_is_clean(state: ConverterView)
    requires
        state_clean(state),
    ensures
        frame_clean(state.frames.last()),
{
    assert(frame_clean(state.frames[state.frames.len() - 1]));
}

proof fn literal_is_clean(
    source: SourcedText,
    state: ConverterView,
    text: Seq<char>,
    start: usize,
    end: usize,
)
    requires
        state_clean(state),
    ensures
        state_clean(after_literal(source, state, text, start, end)),
{
    reveal(after_literal);
    last_is_clean(state);
    let frame = frame_with_text(source, state.frames.last(), text, start, end);
    assert(frame.nodes == state.frames.last().nodes && frame.kind == state.frames.last().kind);
    last_replaced(state, frame);
}

proof fn slice_is_clean(
    source: SourcedText,
    state: ConverterView,
    text: Seq<char>,
    event: ByteRange,
    from: usize,
    to: usize,
)
    requires
        state_clean(state),
    ensures
        state_clean(after_slice(source, state, text, event, from, to)),
{
    reveal(after_slice);
    match byte_slice(text, from - event.start, to - event.start) {
        Some(part) => {
            literal_is_clean(source, state, part, from, to);
        },
        None => {
            literal_is_clean(source, state, text, event.start, event.end);
        },
    }
}

proof fn placing_is_clean(
    source: SourcedText,
    state: ConverterView,
    node: OriginView,
    offset: usize,
)
    requires
        state_clean(state),
        clean(node),
    ensures
        state_clean(after_node(source, state, node, offset)),
{
    reveal(after_node);
    last_is_clean(state);
    let spaced = with_separator(
        state.frames.last(),
        anchor_of(source, offset),
    );
    with_node_is_clean(spaced, node);
    last_replaced(state, with_node(spaced, node));
}

proof fn text_is_placed_clean(
    setting: Setting,
    state: ConverterView,
    text: Seq<char>,
    event: ByteRange,
    from: usize,
)
    requires
        state_clean(state),
    ensures
        state_clean(after_text_from(setting, state, text, event, from)),
    decreases setting.macros.len() - advanced(setting.macros, state.next_macro, from),
{
    let next = advanced(setting.macros, state.next_macro, from);
    let here = state.with_next(next);
    assert(state_clean(here));
    if next < 0 || next >= setting.macros.len() || setting.macros[next].source.start >= event.end {
        slice_is_clean(setting.source, here, text, event, from, event.end);
    } else {
        let raw = setting.macros[next];
        advanced_is_further(setting.macros, next + 1, raw.source.end);
        if raw.source.start < event.start {
            if raw.source.end < event.end {
                let onward = here.with_next(next + 1);
                assert(state_clean(onward));
                text_is_placed_clean(setting, onward, text, event, raw.source.end);
            }
        } else {
            if from < raw.source.start {
                slice_is_clean(setting.source, here, text, event, from, raw.source.start);
            }
            let before = if from < raw.source.start {
                after_slice(setting.source, here, text, event, from, raw.source.start)
            } else {
                here
            };
            let node = raw_node(setting.source, raw);
            raw_node_is_clean(setting.source, raw);
            placing_is_clean(setting.source, before, node, raw.source.start);
            let placed = after_node(setting.source, before, node, raw.source.start);
            if raw.source.end <= event.end {
                let onward = placed.with_next(next + 1);
                assert(state_clean(onward));
                text_is_placed_clean(setting, onward, text, event, raw.source.end);
            }
        }
    }
}

/// A context whose substitutions hold one line in every leaf.
pub open spec fn lined_context(context: ContextView) -> bool {
    match context.inline_r {
        Some(lookup) => forall|expression: Seq<char>|
            #![trigger lookup(expression)]
            lookup(expression) is Some ==> all_lined(lookup(expression)->0),
        None => true,
    }
}

proof fn code_is_placed_clean(
    setting: Setting,
    state: ConverterView,
    code: Seq<char>,
    start: usize,
    end: usize,
)
    requires
        state_clean(state),
        one_line(code),
        lined_context(setting.context),
    ensures
        state_clean(after_code(setting, state, code, start, end)),
{
    let source = setting.source;
    let spans = spans_of(source, start, end);
    code_is_clean(code, CodeForm::Verbatim, spans);
    code_is_clean(code, code_form(code), spans);
    match after_prefix(code, "r "@) {
        Some(expression) => {
            reveal(after_expression);
            let verbatim = code_node(code, CodeForm::Verbatim, spans);
            if crosses_lines(source.text@, start, end) {
                let reported = state.with_reports(
                    multiline_report(source, start, end),
                );
                assert(state_clean(reported));
                placing_is_clean(source, reported, verbatim, start);
            } else {
                match setting.context.inline_r {
                    Some(lookup) => match lookup(expression) {
                        Some(nodes) => {
                            let anchor = anchor_of(source, start);
                            last_is_clean(state);
                            spread_is_clean(nodes, spans);
                            flattening_is_clean(
                                state.frames.last(),
                                spread_all(nodes, spans),
                                anchor,
                            );
                            last_replaced(
                                state,
                                with_flattened_all(
                                    state.frames.last(),
                                    spread_all(nodes, spans),
                                    anchor,
                                ),
                            );
                        },
                        None => {
                            let reported = state.with_reports(
                                undefined_report(source, start, end),
                            );
                            assert(state_clean(reported));
                            placing_is_clean(source, reported, verbatim, start);
                        },
                    },
                    None => {
                        let reported = state.with_reports(
                            evaluation_report(source, start, end),
                        );
                        assert(state_clean(reported));
                        placing_is_clean(source, reported, verbatim, start);
                    },
                }
            }
        },
        None => {
            let reports = if has_prefix(code, "Rd "@) {
                evaluation_report(source, start, end)
            } else {
                Seq::empty()
            };
            let reported = state.with_reports(reports);
            assert(state_clean(reported));
            placing_is_clean(
                source,
                reported,
                code_node(code, code_form(code), spans),
                start,
            );
        },
    }
}

proof fn section_is_clean(setting: Setting, state: ConverterView, end: usize)
    requires
        state_clean(state),
        state.frames.len() > 1,
    ensures
        state_clean(after_section(setting, state, end)),
{
    reveal(after_section);
    last_is_clean(state);
    finishing_is_clean(setting.source, setting.context, state.frames.last(), end);
    let finish = finish_of(setting.source, setting.context, state.frames.last(), end);
    let outer = ConverterView { frames: state.frames.drop_last(), ..state }.with_reports(
        finish.diagnostics,
    );
    assert(state_clean(outer)) by {
        assert forall|i: int| 0 <= i < outer.frames.len() implies frame_clean(
            #[trigger] outer.frames[i],
        ) by {
            assert(outer.frames[i] == state.frames[i]);
        }
    }
    last_is_clean(outer);
    let anchor = anchor_of(setting.source, end);
    let nodes = finished_nodes(finish.finished);
    flattening_is_clean(outer.frames.last(), nodes, anchor);
    let filled = with_flattened_all(outer.frames.last(), nodes, anchor);
    last_replaced(
        outer,
        FrameView { separator: PendingSeparator::Section, ..filled },
    );
}

proof fn sections_are_clean(setting: Setting, state: ConverterView, level: usize, end: usize)
    requires
        state_clean(state),
    ensures
        state_clean(after_sections(setting, state, level, end)),
    decreases state.frames.len(),
{
    if in_section_from(state.frames, level) {
        section_is_clean(setting, state, end);
        let closed = after_section(setting, state, end);
        if closed.frames.len() < state.frames.len() {
            sections_are_clean(setting, closed, level, end);
        }
    }
}

proof fn opening_is_clean(
    setting: Setting,
    state: ConverterView,
    tag: MarkdownTagView,
    start: usize,
    end: usize,
)
    requires
        state_clean(state),
    ensures
        state_clean(after_start(setting, state, tag, start, end)),
{
    let source = setting.source;
    let anchor = anchor_of(source, start);
    if starts_section(tag, state.frames) {
        reveal(after_heading);
        let level = tag->Heading_0 as usize;
        sections_are_clean(setting, state, level, start);
        let outer = after_sections(setting, state, level, start);
        last_is_clean(outer);
        let parent = frame_before_heading(outer.frames.last(), anchor);
        assert(parent.nodes == outer.frames.last().nodes && parent.kind
            == outer.frames.last().kind);
        last_replaced(outer, parent);
        frame_added(
            outer.with_last(parent),
            empty_frame(FrameKindView::Heading { level, start }),
        );
    } else {
        reveal(after_opening);
        let kind = kind_of(tag);
        last_is_clean(state);
        let parent = frame_before_nested(
            frame_before_block(state.frames.last(), kind, anchor),
            kind,
        );
        assert(parent.nodes == state.frames.last().nodes && parent.kind
            == state.frames.last().kind);
        last_replaced(state, parent);
        let ready = state.with_last(parent);
        if kind == TagKind::Item {
            let spans = spans_of(source, start, end);
            let item = tagged(RdMacro::Item, Seq::empty(), spans);
            tagged_is_clean(RdMacro::Item, Seq::empty(), spans);
            placing_is_clean(source, ready, item, start);
            frame_added(after_node(source, ready, item, start), item_frame(anchor));
        } else {
            let reported = ready.with_reports(
                opening_report(source, tag, start, end),
            );
            assert(state_clean(reported));
            frame_added(
                reported,
                empty_frame(frame_kind_for(tag, parent.kind, start)),
            );
        }
    }
}

proof fn filling_is_clean(frame: FrameView, finished: FinishedView, anchor: Option<Span>)
    requires
        frame_clean(frame),
        finished_clean(finished),
    ensures
        frame_clean(frame_with_finished(frame, finished, anchor)),
{
    match finished {
        FinishedView::Nodes(nodes) => {
            flattening_is_clean(frame, nodes, anchor);
        },
        _ => {},
    }
}

proof fn closing_is_clean(
    setting: Setting,
    state: ConverterView,
    kind: TagKind,
    start: usize,
    end: usize,
)
    requires
        state_clean(state),
    ensures
        state_clean(after_end(setting, state, kind, start, end)),
{
    reveal(after_end);
    if state.frames.len() > 1 {
        let frame = state.frames.last();
        last_is_clean(state);
        finishing_is_clean(setting.source, setting.context, frame, end);
        let finish = finish_of(setting.source, setting.context, frame, end);
        let outer = ConverterView { frames: state.frames.drop_last(), ..state }.with_reports(
            finish.diagnostics,
        );
        assert(state_clean(outer)) by {
            assert forall|i: int| 0 <= i < outer.frames.len() implies frame_clean(
                #[trigger] outer.frames[i],
            ) by {
                assert(outer.frames[i] == state.frames[i]);
            }
        }
        match frame.kind {
            FrameKindView::Heading { level, start: opened } => {
                frame_added(
                    outer,
                    subsection_frame(level, opened, finished_nodes(finish.finished)),
                );
            },
            _ => {
                let reported = outer.with_reports(
                    closing_report(
                        setting.source,
                        outer.frames,
                        frame.kind,
                        end,
                    ),
                );
                assert(state_clean(reported));
                last_is_clean(reported);
                let anchor = anchor_of(setting.source, start);
                filling_is_clean(reported.frames.last(), finish.finished, anchor);
                let filled = frame_with_finished(
                    reported.frames.last(),
                    finish.finished,
                    anchor,
                );
                last_replaced(
                    reported,
                    FrameView {
                        separator: stronger(
                            filled.separator,
                            boundary_after(kind),
                        ),
                        ..filled
                    },
                );
            },
        }
    }
}

/// An event whose inline code, if it is one, holds one line.
pub open spec fn lined_event(event: MarkdownEventView) -> bool {
    event matches MarkdownEventView::Code(code) ==> one_line(code)
}

proof fn event_is_clean(
    setting: Setting,
    state: ConverterView,
    event: MarkdownEventView,
    start: usize,
    end: usize,
)
    requires
        state_clean(state),
        lined_event(event),
        lined_context(setting.context),
    ensures
        state_clean(after_plain_event(setting, state, event, start, end)),
{
    reveal(after_plain_event);
    let source = setting.source;
    match event {
        MarkdownEventView::Start(tag) => {
            opening_is_clean(setting, state, tag, start, end);
        },
        MarkdownEventView::End(kind) => {
            closing_is_clean(setting, state, kind, start, end);
        },
        MarkdownEventView::SoftBreak | MarkdownEventView::HardBreak => {
            text_is_placed_clean(setting, state, seq!['\n'], ByteRange { start, end }, start);
        },
        MarkdownEventView::InlineMath(text)
        | MarkdownEventView::DisplayMath(text)
        | MarkdownEventView::FootnoteReference(text) => {
            let reported = state.with_reports(
                construct_report(
                    source,
                    "inline Markdown construct"@,
                    start,
                    end,
                ),
            );
            assert(state_clean(reported));
            literal_is_clean(source, reported, text, start, end);
        },
        MarkdownEventView::Html(text) | MarkdownEventView::InlineHtml(text) => {
            let reported = state.with_reports(
                construct_report(source, "raw HTML"@, start, end),
            );
            assert(state_clean(reported));
            literal_is_clean(source, reported, text, start, end);
            literal_is_clean(source, state, text, start, end);
        },
        MarkdownEventView::TaskListMarker => {},
        MarkdownEventView::Text(text) => {
            text_is_placed_clean(setting, state, text, ByteRange { start, end }, start);
        },
        MarkdownEventView::Code(code) => {
            code_is_placed_clean(setting, state, code, start, end);
        },
        MarkdownEventView::Rule => {
            let last = state.frames.last();
            last_is_clean(state);
            let reported = state.with_reports(
                construct_report(
                    source,
                    "Markdown construct"@,
                    start,
                    end,
                ),
            );
            assert(state_clean(reported));
            last_replaced(
                reported,
                FrameView {
                    separator: stronger(
                        last.separator,
                        PendingSeparator::Paragraph,
                    ),
                    ..last
                },
            );
        },
    }
}

proof fn events_are_clean(setting: Setting, state: ConverterView, events: Seq<SourcedEventView>)
    requires
        state_clean(state),
        forall|i: int| 0 <= i < events.len() ==> lined_event((#[trigger] events[i]).event),
        lined_context(setting.context),
    ensures
        state_clean(after_events(setting, state, events)),
    decreases events.len(),
{
    if events.len() > 0 {
        let front = events.drop_last();
        assert forall|i: int| 0 <= i < front.len() implies lined_event(
            (#[trigger] front[i]).event,
        ) by {
            assert(lined_event(events[i].event));
        }
        events_are_clean(setting, state, front);
        let before = after_events(setting, state, front);
        let event = events.last();
        assert(lined_event(events[events.len() - 1].event));
        event_is_clean(setting, before, event.event, event.start, event.end);
        let ready = caught_up(setting, before, event.start);
        assert(state_clean(ready));
        event_is_clean(setting, ready, event.event, event.start, event.end);
    }
}

/// Every leaf of a converted fragment holds one physical line: a line break
/// stands nowhere in it but at its end. Inline code and the nodes of
/// substitutions are taken over as they are, so they have to keep to it.
pub proof fn leaves_hold_one_line(
    source: SourcedText,
    context: ContextView,
    events: Seq<SourcedEventView>,
    enable_raw_rd: bool,
)
    requires
        forall|i: int| 0 <= i < events.len() ==> lined_event((#[trigger] events[i]).event),
        lined_context(context),
    ensures
        all_lined(conversion_of(source, context, events, enable_raw_rd).fragment.nodes),
{
    reveal(outcome);
    let raw = preparation(source, events, enable_raw_rd);
    let setting = Setting { source, context, macros: raw.macros };
    let reports = raw_reports(source, raw.unsupported, raw.unsupported.len() as int);
    let end = text_end(source);
    let start = ConverterView {
        frames: seq![empty_frame(FrameKindView::Root)],
        diagnostics: reports,
        next_macro: 0,
    };
    assert(state_clean(start));
    events_are_clean(setting, start, events);
    let done = after_events(setting, start, events);
    sections_are_clean(setting, done, 0, end);
    let closed = after_sections(setting, done, 0, end);
    last_is_clean(closed);
    finishing_is_clean(source, context, closed.frames.last(), end);
    let nodes = outcome(setting, reports, events).0;
    assert(all_clean(nodes));
    bare_all_index(nodes);
    assert forall|i: int| 0 <= i < bare_all(nodes).len() implies lined(
        #[trigger] bare_all(nodes)[i],
    ) by {
        reveal(clean);
        assert(clean(nodes[i]));
    }
}

} // verus!
