//! Laws of the Rd shapes that Markdown constructs become.
use crate::markdown_conversion::code::{form_of, CodeForm};
use crate::markdown_conversion::context::ContextView;
use crate::markdown_conversion::convert::{
    after_end, after_heading, after_literal, after_node, after_opening, after_plain_event,
    after_slice, after_start, code_node, starts_section, ConverterView, Setting,
};
use crate::markdown_conversion::events::{
    ColumnAlignment, MarkdownEventView, MarkdownTagView, TagKind,
};
use crate::markdown_conversion::finish::{
    closed_body, code_block_node, finish_of, section_node, settled, FinishedView,
};
use crate::markdown_conversion::frame::{flushed, with_node, FrameKindView, FrameView};
use crate::markdown_conversion::leaf::{joined_chunks, line_chunks, line_chunks_partition};
use crate::markdown_conversion::link::{rendered, rendered_all};
use crate::markdown_conversion::origin::{text_leaves, verb_leaves, OriginView, ShapeView};
use crate::markdown_conversion::position::{anchor_of, spans_of};
use crate::markdown_conversion::separator::{
    boundary_after, stronger, with_flattened, with_flattened_all, with_separator, PendingSeparator,
};
use crate::markdown_conversion::table::{
    body_upto, column_letters, fitted, lowered_row, lowered_table, row_upto, CellView,
};
use crate::markdown_conversion::unsupported::construct_report;
use crate::rd::{RdMacro, TagView};
use crate::source::{byte_slice, Span};
use crate::tags::SourcedText;
use vstd::prelude::*;

use super::help_links::nodes_show_their_text;

verus! {

/// The text that a frame shows so far.
pub open spec fn so_far(frame: FrameView) -> Seq<char> {
    rendered_all(frame.nodes) + frame.text
}

/// The white space that a frame puts before what comes next: a line break behind an
/// item or a section, an empty line behind any other block, and nothing at the start.
pub open spec fn gap(frame: FrameView) -> Seq<char> {
    if frame.text.len() == 0 && frame.nodes.len() == 0 {
        Seq::empty()
    } else {
        match frame.separator {
            PendingSeparator::Nothing => Seq::empty(),
            PendingSeparator::Line => seq!['\n'],
            PendingSeparator::Paragraph => seq!['\n', '\n'],
            PendingSeparator::Section => seq!['\n'],
        }
    }
}

/// A node of a macro without option.
pub open spec fn macro_node(name: RdMacro, children: Seq<OriginView>, spans: Seq<Span>) -> OriginView {
    OriginView {
        shape: ShapeView::Tagged { tag: TagView::Named(name), option: None, children },
        spans,
    }
}

proof fn leaves_show(leaves: Seq<OriginView>, chunks: Seq<Seq<char>>)
    requires
        leaves.len() == chunks.len(),
        forall|i: int| 0 <= i < leaves.len() ==> rendered(#[trigger] leaves[i]) == chunks[i],
    ensures
        rendered_all(leaves) == joined_chunks(chunks),
    decreases leaves.len(),
{
    if leaves.len() > 0 {
        assert(rendered(leaves[leaves.len() - 1]) == chunks[chunks.len() - 1]);
        assert forall|i: int| 0 <= i < leaves.len() - 1 implies rendered(
            #[trigger] leaves.drop_last()[i],
        ) == chunks.drop_last()[i] by {
            assert(rendered(leaves[i]) == chunks[i]);
        }
        leaves_show(leaves.drop_last(), chunks.drop_last());
    }
}

/// Leaves show the text that they are made of, line by line.
pub proof fn leaves_show_their_text(text: Seq<char>, spans: Seq<Span>)
    ensures
        rendered_all(text_leaves(text, spans)) == text,
        rendered_all(verb_leaves(text, spans)) == text,
        forall|i: int|
            0 <= i < text_leaves(text, spans).len() ==> (#[trigger] text_leaves(text, spans)[i]).shape
                is Text && text_leaves(text, spans)[i].spans == spans,
        forall|i: int|
            0 <= i < verb_leaves(text, spans).len() ==> (#[trigger] verb_leaves(text, spans)[i]).shape
                is Verb && verb_leaves(text, spans)[i].spans == spans,
{
    line_chunks_partition(text);
    leaves_show(text_leaves(text, spans), line_chunks(text));
    leaves_show(verb_leaves(text, spans), line_chunks(text));
}

pub(crate) proof fn flushing_keeps_text(frame: FrameView)
    ensures
        so_far(flushed(frame)) == so_far(frame),
        flushed(frame).text.len() == 0,
        flushed(frame).kind == frame.kind,
        rendered_all(flushed(frame).nodes) == so_far(frame),
        flushed(frame).nodes.len() >= frame.nodes.len(),
        flushed(frame).nodes.take(frame.nodes.len() as int) == frame.nodes,
        frame.text.len() == 0 ==> flushed(frame).nodes == frame.nodes,
{
    let leaves = text_leaves(frame.text, frame.text_spans);
    leaves_show_their_text(frame.text, frame.text_spans);
    if frame.text.len() > 0 {
        nodes_show_their_text(frame.nodes, leaves, arbitrary());
        assert((frame.nodes + leaves).take(frame.nodes.len() as int) =~= frame.nodes);
        assert(rendered_all(flushed(frame).nodes) + Seq::<char>::empty() =~= rendered_all(
            flushed(frame).nodes,
        ));
    } else {
        assert(rendered_all(frame.nodes) + frame.text =~= rendered_all(frame.nodes));
        assert(frame.nodes.take(frame.nodes.len() as int) =~= frame.nodes);
    }
}

proof fn spacing_adds_the_gap(frame: FrameView, anchor: Option<Span>)
    ensures
        so_far(with_separator(frame, anchor)) == so_far(frame) + gap(frame),
        with_separator(frame, anchor).separator == PendingSeparator::Nothing,
        with_separator(frame, anchor).nodes == frame.nodes,
        with_separator(frame, anchor).kind == frame.kind,
{
    assert(so_far(with_separator(frame, anchor)) =~= so_far(frame) + gap(frame));
}

/// Literal text is shown behind what its construct shows, after the white space that is
/// due. No other construct changes and nothing is reported.
pub proof fn literal_text_is_shown(
    source: SourcedText,
    state: ConverterView,
    text: Seq<char>,
    start: usize,
    end: usize,
)
    requires
        state.frames.len() > 0,
        text.len() > 0,
    ensures
        ({
            let after = after_literal(source, state, text, start, end);
            &&& after.frames.len() == state.frames.len()
            &&& after.frames.drop_last() == state.frames.drop_last()
            &&& after.diagnostics == state.diagnostics
            &&& so_far(after.frames.last()) == so_far(state.frames.last()) + gap(
                state.frames.last(),
            ) + text
            &&& after.frames.last().kind == state.frames.last().kind
            &&& after.frames.last().nodes == state.frames.last().nodes
        }),
{
    reveal(after_literal);
    let frame = state.frames.last();
    spacing_adds_the_gap(frame, anchor_of(source, start));
    let after = after_literal(source, state, text, start, end);
    assert(after.frames.drop_last() =~= state.frames.drop_last());
    assert(so_far(after.frames.last()) =~= so_far(frame) + gap(frame) + text);
}

/// A text event outside raw macros shows its text: all of it where it is as long as its
/// place, or where its place cannot be cut out of it.
pub proof fn text_events_are_shown(
    setting: Setting,
    state: ConverterView,
    text: Seq<char>,
    start: usize,
    end: usize,
)
    requires
        state.frames.len() > 0,
        text.len() > 0,
        setting.macros.len() == 0,
        start < end,
        byte_slice(text, 0, end - start) is None || byte_slice(text, 0, end - start) == Some(text),
    ensures
        ({
            let after = after_plain_event(setting, state, MarkdownEventView::Text(text), start, end);
            &&& after.frames.len() == state.frames.len()
            &&& after.frames.drop_last() == state.frames.drop_last()
            &&& after.diagnostics == state.diagnostics
            &&& so_far(after.frames.last()) == so_far(state.frames.last()) + gap(
                state.frames.last(),
            ) + text
        }),
{
    reveal(after_plain_event);
    reveal(after_slice);
    let next = crate::markdown_conversion::raw_rd::prepare::advanced(
        setting.macros,
        state.next_macro,
        start,
    );
    literal_text_is_shown(setting.source, state.with_next(next), text, start, end);
}

/// A node stands behind what its construct shows, after the white space that is due.
pub proof fn nodes_are_placed(
    source: SourcedText,
    state: ConverterView,
    node: OriginView,
    offset: usize,
)
    requires
        state.frames.len() > 0,
    ensures
        ({
            let after = after_node(source, state, node, offset);
            &&& after.frames.len() == state.frames.len()
            &&& after.frames.drop_last() == state.frames.drop_last()
            &&& after.diagnostics == state.diagnostics
            &&& after.frames.last().nodes.len() > 0
            &&& after.frames.last().nodes.last() == node
            &&& after.frames.last().text.len() == 0
            &&& so_far(after.frames.last()) == so_far(state.frames.last()) + gap(
                state.frames.last(),
            ) + rendered(node)
        }),
{
    reveal(after_node);
    let frame = state.frames.last();
    let spaced = with_separator(frame, anchor_of(source, offset));
    spacing_adds_the_gap(frame, anchor_of(source, offset));
    flushing_keeps_text(spaced);
    let after = after_node(source, state, node, offset);
    assert(after.frames.drop_last() =~= state.frames.drop_last());
    let nodes = flushed(spaced).nodes;
    nodes_show_their_text(nodes, seq![node], node);
    assert(nodes.push(node) =~= nodes + seq![node]);
    assert(so_far(after.frames.last()) =~= so_far(frame) + gap(frame) + rendered(node));
}

/// Inline code that asks for no evaluation becomes one node. It is `\code` of R code
/// when it is an R expression that can be written, and `\verb` of verbatim text when it
/// can not. Either way it holds the code and nothing is reported.
pub proof fn inline_code_is_one_node(
    setting: Setting,
    state: ConverterView,
    code: Seq<char>,
    start: usize,
    end: usize,
)
    requires
        state.frames.len() > 0,
        !(seq!['r', ' '].is_prefix_of(code)),
        !(seq!['R', 'd', ' '].is_prefix_of(code)),
    ensures
        ({
            let after = after_plain_event(setting, state, MarkdownEventView::Code(code), start, end);
            let node = after.frames.last().nodes.last();
            let spans = spans_of(setting.source, start, end);
            &&& after.frames.len() == state.frames.len()
            &&& after.frames.last().nodes.len() > 0
            &&& after.diagnostics == state.diagnostics
            &&& rendered(node) == code
            &&& node.spans == spans
            &&& crate::r_source::r_single_expression(code)
                && crate::markdown_conversion::code::code_is_writable(code) ==> node == macro_node(
                RdMacro::Code,
                seq![OriginView { shape: ShapeView::RCode(code), spans }],
                spans,
            )
            &&& !crate::markdown_conversion::code::code_is_writable(code) ==> node == macro_node(
                RdMacro::Verb,
                seq![OriginView { shape: ShapeView::Verb(code), spans }],
                spans,
            )
        }),
{
    reveal(after_plain_event);
    reveal_strlit("r ");
    reveal_strlit("Rd ");
    assert("r "@ =~= seq!['r', ' ']);
    assert("Rd "@ =~= seq!['R', 'd', ' ']);
    let spans = spans_of(setting.source, start, end);
    let form = crate::markdown_conversion::code::code_form(code);
    let node = code_node(code, form, spans);
    assert(state.diagnostics + Seq::empty() =~= state.diagnostics);
    nodes_are_placed(setting.source, state.with_reports(Seq::empty()), node, start);
    let leaf = OriginView { shape: ShapeView::RCode(code), spans };
    let verb = OriginView { shape: ShapeView::Verb(code), spans };
    nodes_show_their_text(Seq::empty(), Seq::empty(), leaf);
    nodes_show_their_text(Seq::empty(), Seq::empty(), verb);
    nodes_show_their_text(Seq::empty(), Seq::empty(), node);
}

/// Code that asks for an evaluation is verbatim; an R expression that can be written is
/// code; anything else that is no operator or keyword is verbatim, and so is what cannot
/// be written.
pub proof fn code_forms(code: Seq<char>, parses: bool, writable: bool)
    ensures
        seq!['r', ' '].is_prefix_of(code) || seq!['R', 'd', ' '].is_prefix_of(code) ==> form_of(
            code,
            parses,
            writable,
        ) == CodeForm::Verbatim,
        !writable ==> form_of(code, parses, writable) == CodeForm::Verbatim,
        parses && writable && !(seq!['r', ' '].is_prefix_of(code)) && !(seq![
            'R',
            'd',
            ' ',
        ].is_prefix_of(code)) ==> form_of(code, parses, writable) == CodeForm::Code,
        !parses && code.len() > 8 ==> form_of(code, parses, writable) == CodeForm::Verbatim,
{
    reveal_strlit("r ");
    reveal_strlit("Rd ");
    assert("r "@ =~= seq!['r', ' ']);
    assert("Rd "@ =~= seq!['R', 'd', ' ']);
    reveal_strlit("-");
    reveal_strlit(":");
    reveal_strlit("::");
    reveal_strlit(":::");
    reveal_strlit("!");
    reveal_strlit("!=");
    reveal_strlit("(");
    reveal_strlit("[");
    reveal_strlit("[[");
    reveal_strlit("@");
    reveal_strlit("*");
    reveal_strlit("/");
    reveal_strlit("&");
    reveal_strlit("&&");
    reveal_strlit("%*%");
    reveal_strlit("%/%");
    reveal_strlit("%%");
    reveal_strlit("%in%");
    reveal_strlit("%o%");
    reveal_strlit("%x%");
    reveal_strlit("^");
    reveal_strlit("+");
    reveal_strlit("<");
    reveal_strlit("<=");
    reveal_strlit("=");
    reveal_strlit("==");
    reveal_strlit(">");
    reveal_strlit(">=");
    reveal_strlit("|");
    reveal_strlit("||");
    reveal_strlit("~");
    reveal_strlit("$");
    reveal_strlit("for");
    reveal_strlit("function");
    reveal_strlit("if");
    reveal_strlit("repeat");
    reveal_strlit("while");
}

/// A construct that opens becomes the innermost one and holds nothing yet. Emphasis,
/// strong emphasis, links, code blocks, lists and tables open as such, with what the
/// Markdown says of them; what has no Rd form opens as unsupported.
pub proof fn constructs_open(
    setting: Setting,
    state: ConverterView,
    tag: MarkdownTagView,
    start: usize,
    end: usize,
)
    requires
        state.frames.len() > 0,
        tag != MarkdownTagView::Other(TagKind::Item),
        !starts_section(tag, state.frames),
    ensures
        ({
            let after = after_start(setting, state, tag, start, end);
            let opened = after.frames.last();
            let around = state.frames.last().kind;
            &&& after.frames.len() == state.frames.len() + 1
            &&& opened.nodes.len() == 0
            &&& opened.text.len() == 0
            &&& opened.separator == PendingSeparator::Nothing
            &&& after.frames[state.frames.len() - 1].kind == around
            &&& tag == MarkdownTagView::Other(TagKind::Paragraph) ==> opened.kind is Paragraph
            &&& tag == MarkdownTagView::Other(TagKind::Emphasis) ==> opened.kind == (
            FrameKindView::Tagged { tag: RdMacro::Emph, start })
            &&& tag == MarkdownTagView::Other(TagKind::Strong) ==> opened.kind == (
            FrameKindView::Tagged { tag: RdMacro::Strong, start })
            &&& tag matches MarkdownTagView::Link { destination, .. } ==> opened.kind == (
            FrameKindView::Link { destination, start })
            &&& tag == MarkdownTagView::List(None) ==> opened.kind == (FrameKindView::List {
                tag: RdMacro::Itemize,
                start,
            })
            &&& tag matches MarkdownTagView::List(Some(_)) ==> opened.kind == (
            FrameKindView::List { tag: RdMacro::Enumerate, start })
            &&& tag == MarkdownTagView::CodeBlock(None) ==> opened.kind == (
            FrameKindView::CodeBlock { executable_r: false, start })
            &&& tag matches MarkdownTagView::CodeBlock(Some(info)) ==> opened.kind == (
            FrameKindView::CodeBlock {
                executable_r: seq!['{', 'r', '}'].is_prefix_of(info) || seq![
                    '{',
                    'r',
                    ',',
                ].is_prefix_of(info) || seq!['{', 'r', ' '].is_prefix_of(info),
                start,
            })
            &&& tag matches MarkdownTagView::Table(alignments) ==> if alignments.len() > 0 {
                opened.kind matches FrameKindView::Table { alignments: kept, rows, start: at }
                    && kept == alignments && rows.len() == 0 && at == start
            } else {
                opened.kind is Unsupported
            }
            &&& tag is Heading ==> opened.kind is Unsupported
            &&& tag matches MarkdownTagView::Other(kind) ==> (kind == TagKind::BlockQuote || kind
                == TagKind::HtmlBlock || kind == TagKind::FootnoteDefinition || kind
                == TagKind::DefinitionList || kind == TagKind::DefinitionListTitle || kind
                == TagKind::DefinitionListDefinition || kind == TagKind::Strikethrough || kind
                == TagKind::Superscript || kind == TagKind::Subscript || kind == TagKind::Image
                || kind == TagKind::MetadataBlock) ==> opened.kind is Unsupported
            &&& (tag == MarkdownTagView::Other(TagKind::TableRow) || tag
                == MarkdownTagView::Other(TagKind::TableHead)) ==> match around {
                FrameKindView::Table { alignments, .. } => opened.kind matches
                    FrameKindView::TableRow { cells, width, .. } && cells.len() == 0 && width
                    == alignments.len() as usize,
                _ => opened.kind is Unsupported,
            }
            &&& tag == MarkdownTagView::Other(TagKind::TableCell) ==> if around is TableRow {
                opened.kind is TableCell
            } else {
                opened.kind is Unsupported
            }
            &&& (tag matches MarkdownTagView::List(Some(first)) && first != 1 && spans_of(
                setting.source,
                start,
                end,
            ).len() > 0) ==> after.diagnostics.len() == state.diagnostics.len() + 1
            &&& !(tag matches MarkdownTagView::List(Some(first)) && first != 1)
                ==> after.diagnostics == state.diagnostics
        }),
{
    reveal(after_opening);
    assert(state.diagnostics + Seq::empty() =~= state.diagnostics);
    if let MarkdownTagView::CodeBlock(Some(info)) = tag {
        assert(crate::markdown_conversion::code::is_r_chunk(info) == (seq![
            '{',
            'r',
            '}',
        ].is_prefix_of(info) || seq!['{', 'r', ','].is_prefix_of(info) || seq![
            '{',
            'r',
            ' ',
        ].is_prefix_of(info))) by {
            if info.len() > 2 {
                assert(info.subrange(0, 3) =~= seq![info[0], info[1], info[2]]);
            }
        }
    }
    reports_count(setting.source, "ordered Markdown list does not start at 1"@, start, end);
}

proof fn reports_count(source: SourcedText, name: Seq<char>, start: usize, end: usize)
    ensures
        spans_of(source, start, end).len() > 0 ==> construct_report(source, name, start, end).len()
            == 1,
{
}

/// A list item becomes an `\item` in its list, and opens a frame for what it holds, which
/// a blank separates from the macro.
pub proof fn items_open(setting: Setting, state: ConverterView, start: usize, end: usize)
    requires
        state.frames.len() > 0,
    ensures
        ({
            let after = after_start(
                setting,
                state,
                MarkdownTagView::Other(TagKind::Item),
                start,
                end,
            );
            let list = after.frames[state.frames.len() - 1];
            &&& after.frames.len() == state.frames.len() + 1
            &&& after.frames.last().kind is Item
            &&& so_far(after.frames.last()) == seq![' ']
            &&& list.nodes.len() > 0
            &&& list.nodes.last() == macro_node(
                RdMacro::Item,
                Seq::empty(),
                spans_of(setting.source, start, end),
            )
            &&& after.diagnostics == state.diagnostics
        }),
{
    reveal(after_opening);
    reveal(after_node);
    let after = after_start(setting, state, MarkdownTagView::Other(TagKind::Item), start, end);
    assert(rendered_all(Seq::<OriginView>::empty()) =~= Seq::<char>::empty());
    assert(so_far(after.frames.last()) =~= seq![' ']);
}

/// Whether a list of nodes shows something: it has a node that is no empty text.
pub open spec fn shows_something(nodes: Seq<OriginView>) -> bool {
    exists|i: int| #![trigger nodes[i]]
        0 <= i < nodes.len() && !(nodes[i].shape matches ShapeView::Text(text) && text.len() == 0)
}

proof fn flattening_keeps_text(frame: FrameView, nodes: Seq<OriginView>, anchor: Option<Span>)
    ensures
        ({
            let after = with_flattened_all(frame, nodes, anchor);
            &&& after.kind == frame.kind
            &&& shows_something(nodes) ==> so_far(after) == so_far(frame) + gap(frame)
                + rendered_all(nodes) && after.separator == PendingSeparator::Nothing
            &&& !shows_something(nodes) ==> after == frame && rendered_all(nodes).len() == 0
        }),
    decreases nodes.len(),
{
    if nodes.len() == 0 {
        assert(rendered_all(nodes) =~= Seq::<char>::empty());
    } else {
        let front = nodes.drop_last();
        let node = nodes.last();
        flattening_keeps_text(frame, front, anchor);
        let middle = with_flattened_all(frame, front, anchor);
        let after = with_flattened(middle, node, anchor);
        spacing_adds_the_gap(middle, anchor);
        flushing_keeps_text(with_separator(middle, anchor));
        if shows_something(front) {
            let i = choose|i: int| #![trigger front[i]]
                0 <= i < front.len() && !(front[i].shape matches ShapeView::Text(text)
                    && text.len() == 0);
            assert(nodes[i] == front[i]);
            assert(gap(middle) =~= Seq::<char>::empty());
        }
        let silent = node.shape matches ShapeView::Text(text) && text.len() == 0;
        if !silent {
            assert(nodes[nodes.len() - 1] == node);
            if !(node.shape is Text) {
                let spaced = flushed(with_separator(middle, anchor));
                nodes_show_their_text(spaced.nodes, seq![node], node);
                assert(spaced.nodes.push(node) =~= spaced.nodes + seq![node]);
                assert(so_far(after) =~= so_far(middle) + gap(middle) + rendered(node));
            } else {
                assert(so_far(after) =~= so_far(middle) + gap(middle) + rendered(node));
            }
            if shows_something(front) {
                assert(so_far(after) =~= so_far(frame) + gap(frame) + rendered_all(nodes));
            } else {
                assert(rendered_all(front) =~= Seq::<char>::empty());
                assert(rendered_all(nodes) =~= rendered(node));
                assert(so_far(after) =~= so_far(frame) + gap(frame) + rendered_all(nodes));
            }
        } else {
            assert(rendered(node) =~= Seq::<char>::empty());
            assert(rendered_all(nodes) =~= rendered_all(front));
            if !shows_something(front) {
                assert forall|i: int| 0 <= i < nodes.len() implies (
                #[trigger] nodes[i].shape matches ShapeView::Text(text) && text.len() == 0) by {
                    if i < front.len() {
                        assert(front[i] == nodes[i]);
                    }
                }
            }
        }
    }
}

/// Inline markup closes into one node of its macro, which holds what stood between the
/// markers. Nothing is reported.
pub proof fn inline_markup_closes(
    setting: Setting,
    state: ConverterView,
    kind: TagKind,
    name: RdMacro,
    opened: usize,
    start: usize,
    end: usize,
)
    requires
        state.frames.len() > 1,
        state.frames.last().kind == (FrameKindView::Tagged { tag: name, start: opened }),
    ensures
        ({
            let after = after_end(setting, state, kind, start, end);
            let outer = state.frames[state.frames.len() - 2];
            let node = after.frames.last().nodes.last();
            &&& after.frames.len() == state.frames.len() - 1
            &&& after.diagnostics == state.diagnostics
            &&& after.frames.last().nodes.len() > 0
            &&& node.spans == spans_of(setting.source, opened, end)
            &&& node.shape matches ShapeView::Tagged { tag, option, children } && tag
                == TagView::Named(name) && option is None && rendered_all(children) == so_far(
                state.frames.last(),
            ) && children.take(state.frames.last().nodes.len() as int)
                == state.frames.last().nodes
            &&& so_far(after.frames.last()) == so_far(outer) + gap(outer) + so_far(
                state.frames.last(),
            )
        }),
{
    reveal(after_end);
    reveal(settled);
    let frame = state.frames.last();
    flushing_keeps_text(frame);
    let inside = flushed(frame).nodes;
    let spans = spans_of(setting.source, opened, end);
    let node = macro_node(name, inside, spans);
    let outer = state.frames[state.frames.len() - 2];
    let anchor = anchor_of(setting.source, start);
    assert(state.frames.drop_last().last() == outer);
    assert(seq![node].drop_last() =~= Seq::<OriginView>::empty());
    assert(seq![node].last() == node);
    nodes_show_their_text(Seq::empty(), Seq::empty(), node);
    flattening_keeps_text(outer, seq![node], anchor);
    assert(seq![node][0] == node);
    assert(shows_something(seq![node]));
    assert(with_flattened_all(outer, Seq::empty(), anchor) == outer);
    assert(with_flattened_all(outer, seq![node], anchor) == with_flattened(outer, node, anchor));
    assert(state.diagnostics + Seq::empty() =~= state.diagnostics);
}

/// A list closes into one node of its macro, which begins with a line break and holds the
/// items.
pub proof fn lists_close(
    source: SourcedText,
    context: ContextView,
    frame: FrameView,
    name: RdMacro,
    opened: usize,
    end: usize,
)
    requires
        frame.kind == (FrameKindView::List { tag: name, start: opened }),
    ensures
        ({
            let finish = finish_of(source, context, frame, end);
            &&& finish.diagnostics.len() == 0
            &&& finish.finished matches FinishedView::Nodes(nodes)
            &&& nodes.len() == 1
            &&& nodes[0].shape matches ShapeView::Tagged { tag, option, children }
            &&& tag == TagView::Named(name)
            &&& option is None
            &&& children.len() > 0
            &&& children[0].shape == ShapeView::Text(seq!['\n'])
            &&& rendered_all(children) == seq!['\n'] + so_far(frame) + gap(frame)
        }),
{
    reveal(settled);
    let anchor = anchor_of(source, end);
    let spaced = with_separator(frame, anchor);
    spacing_adds_the_gap(frame, anchor);
    flushing_keeps_text(spaced);
    let spans = spans_of(source, opened, end);
    let head = OriginView { shape: ShapeView::Text(seq!['\n']), spans };
    nodes_show_their_text(seq![head], flushed(spaced).nodes, head);
    assert(seq!['\n'] + so_far(frame) + gap(frame) =~= seq!['\n'] + (so_far(frame) + gap(frame)));
}

/// A code block closes into one `\preformatted` node that shows its text verbatim, or a
/// line break where it has none. A chunk of R code is reported.
pub proof fn code_blocks_close(
    source: SourcedText,
    context: ContextView,
    frame: FrameView,
    executable: bool,
    opened: usize,
    end: usize,
)
    requires
        frame.kind == (FrameKindView::CodeBlock { executable_r: executable, start: opened }),
    ensures
        ({
            let finish = finish_of(source, context, frame, end);
            let text = if frame.text.len() == 0 {
                seq!['\n']
            } else {
                frame.text
            };
            &&& !executable ==> finish.diagnostics.len() == 0
            &&& executable && spans_of(source, opened, end).len() > 0 ==> finish.diagnostics.len()
                == 1
            &&& finish.finished matches FinishedView::Nodes(nodes)
            &&& nodes.len() == 1
            &&& nodes[0].spans == spans_of(source, opened, end)
            &&& nodes[0].shape matches ShapeView::Tagged { tag, option, children }
            &&& tag == TagView::Named(RdMacro::Preformatted)
            &&& option is None
            &&& rendered_all(children) == text
            &&& forall|i: int| 0 <= i < children.len() ==> (#[trigger] children[i]).shape is Verb
        }),
{
    reveal(code_block_node);
    let text = if frame.text.len() == 0 {
        seq!['\n']
    } else {
        frame.text
    };
    leaves_show_their_text(text, frame.text_spans);
}

/// A paragraph, a list item and a construct without Rd form close into what they hold.
pub proof fn transparent_constructs_close(
    source: SourcedText,
    context: ContextView,
    frame: FrameView,
    end: usize,
)
    requires
        frame.kind is Paragraph || frame.kind is Item || frame.kind is Unsupported || frame.kind
            is Root || frame.kind is Heading,
    ensures
        ({
            let finish = finish_of(source, context, frame, end);
            &&& finish.diagnostics.len() == 0
            &&& finish.finished matches FinishedView::Nodes(nodes) && rendered_all(nodes) == so_far(
                frame,
            ) && nodes.len() >= frame.nodes.len() && nodes.take(frame.nodes.len() as int)
                == frame.nodes
        }),
{
    reveal(settled);
    flushing_keeps_text(frame);
}

/// A construct without Rd form is reported when it closes, once, unless a construct of the
/// same name around it is; what it shows stays in the construct around it.
pub proof fn unsupported_constructs_are_reported(
    setting: Setting,
    state: ConverterView,
    kind: TagKind,
    name: Seq<char>,
    opened: usize,
    start: usize,
    end: usize,
)
    requires
        state.frames.len() > 1,
        state.frames.last().kind == (FrameKindView::Unsupported { name, start: opened }),
        spans_of(setting.source, opened, end).len() > 0,
        forall|i: int|
            0 <= i < state.frames.len() - 1 ==> !((#[trigger] state.frames[i]).kind is Unsupported),
        so_far(state.frames.last()).len() > 0,
    ensures
        ({
            let after = after_end(setting, state, kind, start, end);
            let outer = state.frames[state.frames.len() - 2];
            &&& after.frames.len() == state.frames.len() - 1
            &&& after.diagnostics.len() == state.diagnostics.len() + 1
            &&& so_far(after.frames.last()) == so_far(outer) + gap(outer) + so_far(
                state.frames.last(),
            )
        }),
{
    reveal(after_end);
    reveal(settled);
    let frame = state.frames.last();
    let outer = state.frames[state.frames.len() - 2];
    let rest = state.frames.drop_last();
    flushing_keeps_text(frame);
    let inside = flushed(frame).nodes;
    flattening_keeps_text(outer, inside, anchor_of(setting.source, start));
    assert(rest.last() == outer);
    assert forall|i: int| 0 <= i < rest.len() implies !((#[trigger] rest[i]).kind is Unsupported) by {
        assert(rest[i] == state.frames[i]);
    }
    reports_count(setting.source, name, opened, end);
}

/// A heading of the second level or deeper, outside other constructs, opens a section: it
/// closes the sections of its level and deeper, and the heading is the innermost construct.
pub proof fn headings_open_sections(
    setting: Setting,
    state: ConverterView,
    level: u8,
    start: usize,
    end: usize,
)
    requires
        state.frames.len() > 0,
        level >= 2,
        state.frames.last().kind is Root || state.frames.last().kind is Subsection,
    ensures
        ({
            let after = after_start(setting, state, MarkdownTagView::Heading(level), start, end);
            &&& after.frames.len() > 0
            &&& after.frames.last().kind == (FrameKindView::Heading {
                level: level as usize,
                start,
            })
            &&& so_far(after.frames.last()).len() == 0
        }),
{
    reveal(after_heading);
    let after = after_start(setting, state, MarkdownTagView::Heading(level), start, end);
    assert(rendered_all(Seq::<OriginView>::empty()) =~= Seq::<char>::empty());
}

/// A heading that closes leaves its section open, with the text of the heading as its
/// title.
pub proof fn headings_become_titles(
    setting: Setting,
    state: ConverterView,
    kind: TagKind,
    level: usize,
    opened: usize,
    start: usize,
    end: usize,
)
    requires
        state.frames.len() > 1,
        state.frames.last().kind == (FrameKindView::Heading { level, start: opened }),
    ensures
        ({
            let after = after_end(setting, state, kind, start, end);
            &&& after.frames.len() == state.frames.len()
            &&& after.frames.drop_last() == state.frames.drop_last()
            &&& after.diagnostics == state.diagnostics
            &&& after.frames.last().nodes.len() == 0
            &&& after.frames.last().text.len() == 0
            &&& after.frames.last().kind matches FrameKindView::Subsection {
                level: own,
                start: from,
                title,
            } && own == level && from == opened && rendered_all(title) == so_far(
                state.frames.last(),
            )
        }),
{
    reveal(after_end);
    reveal(settled);
    flushing_keeps_text(state.frames.last());
    assert(state.diagnostics + Seq::empty() =~= state.diagnostics);
    let after = after_end(setting, state, kind, start, end);
    assert(after.frames.drop_last() =~= state.frames.drop_last());
}

/// A section closes into one `\subsection` node of its title and its body. The body shows
/// what the section holds and ends with a line break.
pub proof fn sections_close(
    source: SourcedText,
    context: ContextView,
    frame: FrameView,
    level: usize,
    opened: usize,
    title: Seq<OriginView>,
    end: usize,
)
    requires
        frame.kind == (FrameKindView::Subsection { level, start: opened, title }),
    ensures
        ({
            let finish = finish_of(source, context, frame, end);
            &&& finish.diagnostics.len() == 0
            &&& finish.finished matches FinishedView::Nodes(nodes)
            &&& nodes.len() == 1
            &&& nodes[0].spans == spans_of(source, opened, end)
            &&& nodes[0].shape matches ShapeView::Tagged { tag, option, children }
            &&& tag == TagView::Named(RdMacro::Subsection)
            &&& option is None
            &&& children.len() == 2
            &&& children[0].shape == ShapeView::Group(title)
            &&& children[1].shape matches ShapeView::Group(body)
            &&& rendered_all(body).len() > 0
            &&& rendered_all(body).last() == '\n'
            &&& so_far(frame).is_prefix_of(rendered_all(body))
        }),
{
    reveal(settled);
    reveal(section_node);
    reveal(closed_body);
    let anchor = anchor_of(source, end);
    let ready = if frame.separator == PendingSeparator::Section {
        with_separator(frame, anchor)
    } else {
        frame
    };
    spacing_adds_the_gap(frame, anchor);
    flushing_keeps_text(ready);
    let nodes = flushed(ready).nodes;
    let body = closed_body(nodes, anchor);
    let last = body.last();
    nodes_show_their_text(nodes, seq![last], last);
    nodes_show_their_text(nodes.drop_last(), seq![last], last);
    if nodes.len() > 0 {
        nodes_show_their_text(nodes.drop_last(), seq![nodes.last()], nodes.last());
        assert(nodes =~= nodes.drop_last() + seq![nodes.last()]);
    }
    if body.len() == nodes.len() {
        assert(body =~= nodes.drop_last() + seq![last]);
        assert(rendered_all(body) =~= rendered_all(nodes).push('\n'));
    } else {
        assert(body =~= nodes + seq![last]);
        assert(rendered_all(body) =~= rendered_all(nodes).push('\n'));
    }
    assert(so_far(frame).is_prefix_of(rendered_all(body)));
}

/// What is due behind a construct: an empty line behind blocks, a line break behind items,
/// nothing behind inline markup and the parts of tables.
pub proof fn constructs_are_set_apart()
    ensures
        boundary_after(TagKind::Paragraph) == PendingSeparator::Paragraph,
        boundary_after(TagKind::Heading) == PendingSeparator::Paragraph,
        boundary_after(TagKind::BlockQuote) == PendingSeparator::Paragraph,
        boundary_after(TagKind::CodeBlock) == PendingSeparator::Paragraph,
        boundary_after(TagKind::HtmlBlock) == PendingSeparator::Paragraph,
        boundary_after(TagKind::List) == PendingSeparator::Paragraph,
        boundary_after(TagKind::Table) == PendingSeparator::Paragraph,
        boundary_after(TagKind::Item) == PendingSeparator::Line,
        boundary_after(TagKind::Emphasis) == PendingSeparator::Nothing,
        boundary_after(TagKind::Strong) == PendingSeparator::Nothing,
        boundary_after(TagKind::Link) == PendingSeparator::Nothing,
        boundary_after(TagKind::Image) == PendingSeparator::Nothing,
        boundary_after(TagKind::Strikethrough) == PendingSeparator::Nothing,
        boundary_after(TagKind::TableHead) == PendingSeparator::Nothing,
        boundary_after(TagKind::TableRow) == PendingSeparator::Nothing,
        boundary_after(TagKind::TableCell) == PendingSeparator::Nothing,
        forall|a: PendingSeparator|
            #![trigger stronger(PendingSeparator::Nothing, a)]
            stronger(PendingSeparator::Nothing, a) == a && stronger(a, PendingSeparator::Nothing)
                == a,
        stronger(PendingSeparator::Line, PendingSeparator::Paragraph)
            == PendingSeparator::Paragraph,
        stronger(PendingSeparator::Paragraph, PendingSeparator::Line)
            == PendingSeparator::Paragraph,
        stronger(PendingSeparator::Paragraph, PendingSeparator::Section)
            == PendingSeparator::Section,
{
}

/// A table has one letter for each column: `c` for a centred one, `r` for one that is
/// aligned right, and `l` for any other.
pub proof fn columns_have_letters(alignments: Seq<ColumnAlignment>, i: int)
    requires
        0 <= i < alignments.len(),
    ensures
        column_letters(alignments).len() == alignments.len(),
        match alignments[i] {
            ColumnAlignment::Center => column_letters(alignments)[i] == 'c',
            ColumnAlignment::Right => column_letters(alignments)[i] == 'r',
            ColumnAlignment::Left => column_letters(alignments)[i] == 'l',
            ColumnAlignment::Unset => column_letters(alignments)[i] == 'l',
        },
{
}

/// The text of the first cells of a row: each between two blanks, the first one behind
/// three.
pub open spec fn cells_text(cells: Seq<CellView>, count: int) -> Seq<char>
    decreases count,
{
    if count <= 0 {
        Seq::empty()
    } else {
        cells_text(cells, count - 1) + (if count == 1 {
            seq![' ', ' ', ' ']
        } else {
            seq![' ']
        }) + rendered_all(cells[count - 1].nodes) + seq![' ']
    }
}

/// A row shows its cells, cut or filled up to the width of the table, each between
/// blanks. It ends with a `\cr`.
pub proof fn rows_show_their_cells(
    source: SourcedText,
    cells: Seq<CellView>,
    width: usize,
    start: usize,
    end: usize,
)
    requires
        width > 0,
    ensures
        ({
            let row = lowered_row(source, cells, width, start, end);
            let kept = fitted(cells, width as nat, anchor_of(source, end));
            &&& rendered_all(row) == cells_text(kept, width as int)
            &&& row.len() > 0
            &&& row.last().shape matches ShapeView::Tagged { tag, .. } && tag == TagView::Named(
                RdMacro::Cr,
            )
            &&& kept.len() == width
            &&& forall|i: int|
                0 <= i < width ==> if i < cells.len() {
                    #[trigger] kept[i] == cells[i]
                } else {
                    kept[i].nodes.len() == 0
                }
        }),
{
    reveal(lowered_row);
    let to = anchor_of(source, end);
    let kept = fitted(cells, width as nat, to);
    cells_so_far(kept, width as int, anchor_of(source, start), to);
    let frame = row_upto(kept, width as int, anchor_of(source, start), to);
    assert(rendered_all(frame.nodes) + frame.text =~= rendered_all(frame.nodes));
}

proof fn cells_so_far(cells: Seq<CellView>, count: int, from: Option<Span>, to: Option<Span>)
    requires
        0 <= count <= cells.len(),
    ensures
        ({
            let frame = row_upto(cells, count, from, to);
            &&& so_far(frame) == cells_text(cells, count)
            &&& frame.separator == PendingSeparator::Nothing
            &&& frame.text.len() == 0
            &&& count > 0 ==> frame.nodes.len() > 0 && (frame.nodes.last().shape matches
                ShapeView::Tagged { tag, .. } && tag == TagView::Named(
                if count < cells.len() {
                    RdMacro::Tab
                } else {
                    RdMacro::Cr
                },
            ))
        }),
    decreases count,
{
    if count == 0 {
        assert(rendered_all(Seq::<OriginView>::empty()) =~= Seq::<char>::empty());
        assert(so_far(row_upto(cells, count, from, to)) =~= Seq::<char>::empty());
    } else {
        cells_so_far(cells, count - 1, from, to);
        reveal_strlit(" ");
        reveal_strlit("   ");
        let index = count - 1;
        let before = row_upto(cells, index, from, to);
        let inner = crate::markdown_conversion::table::content_anchor(cells, index, from, to);
        let lead = if index == 0 {
            "   "@
        } else {
            " "@
        };
        let opened = crate::markdown_conversion::table::with_text(before, lead, inner);
        assert(so_far(opened) =~= so_far(before) + lead);
        let filled = with_flattened_all(opened, cells[index].nodes, inner);
        flattening_keeps_text(opened, cells[index].nodes, inner);
        assert(gap(opened) =~= Seq::<char>::empty());
        assert(so_far(filled) =~= so_far(opened) + rendered_all(cells[index].nodes));
        let outer = if count < cells.len() {
            crate::markdown_conversion::table::first_of(cells[index].anchor, to)
        } else {
            to
        };
        let spaced = crate::markdown_conversion::table::with_text(filled, " "@, outer);
        assert(so_far(spaced) =~= so_far(filled) + " "@);
        let name = if count < cells.len() {
            RdMacro::Tab
        } else {
            RdMacro::Cr
        };
        let node = crate::markdown_conversion::table::mark(name, outer);
        flushing_keeps_text(spaced);
        let nodes = flushed(spaced).nodes;
        nodes_show_their_text(nodes, seq![node], node);
        assert(nodes.push(node) =~= nodes + seq![node]);
        let after = with_node(spaced, node);
        assert(rendered_all(Seq::<OriginView>::empty()) =~= Seq::<char>::empty());
        assert(so_far(after) =~= so_far(spaced));
        assert("   "@ =~= seq![' ', ' ', ' ']);
        assert(" "@ =~= seq![' ']);
        assert(so_far(after) =~= cells_text(cells, count));
    }
}

/// The text of rows, each on a line of its own.
pub open spec fn rows_text(rows: Seq<Seq<OriginView>>, count: int) -> Seq<char>
    decreases count,
{
    if count <= 0 {
        Seq::empty()
    } else {
        rows_text(rows, count - 1) + seq!['\n'] + rendered_all(rows[count - 1])
    }
}

/// A table is a `\tabular` of its column letters and its rows, in their order, each on a
/// line of its own.
pub proof fn tables_show_their_rows(
    source: SourcedText,
    alignments: Seq<ColumnAlignment>,
    rows: Seq<Seq<OriginView>>,
    start: usize,
    end: usize,
)
    requires
        rows.len() > 0,
    ensures
        ({
            let node = lowered_table(source, alignments, rows, start, end);
            &&& node.spans == spans_of(source, start, end)
            &&& node.shape matches ShapeView::Tagged { tag, option, children }
            &&& tag == TagView::Named(RdMacro::Tabular)
            &&& option is None
            &&& children.len() == 2
            &&& children[0].shape matches ShapeView::Group(columns)
            &&& rendered_all(columns) == column_letters(alignments)
            &&& children[1].shape matches ShapeView::Group(body)
            &&& rendered_all(body) == rows_text(rows, rows.len() as int) + seq!['\n']
        }),
{
    reveal(lowered_table);
    let spans = spans_of(source, start, end);
    let letters = OriginView { shape: ShapeView::Text(column_letters(alignments)), spans };
    let last = OriginView { shape: ShapeView::Text(seq!['\n']), spans };
    let body = body_upto(rows, rows.len() as int, spans);
    rows_so_far(rows, rows.len() as int, spans);
    nodes_show_their_text(body, seq![last], last);
    nodes_show_their_text(body, seq![last], letters);
    assert(body.push(last) =~= body + seq![last]);
}

proof fn rows_so_far(rows: Seq<Seq<OriginView>>, count: int, spans: Seq<Span>)
    requires
        0 < count <= rows.len(),
    ensures
        rendered_all(body_upto(rows, count, spans)) == rows_text(rows, count),
        body_upto(rows, count, spans).len() > 0,
    decreases count,
{
    let first = OriginView { shape: ShapeView::Text(seq!['\n']), spans };
    nodes_show_their_text(seq![first], rows[0], first);
    if count == 1 {
        assert(body_upto(rows, 0, spans) =~= seq![first]);
        assert(rows_text(rows, 1) =~= seq!['\n'] + rendered_all(rows[0])) by {
            assert(rows_text(rows, 0) =~= Seq::<char>::empty());
        }
    } else {
        rows_so_far(rows, count - 1, spans);
        let before = body_upto(rows, count - 1, spans);
        let line = OriginView { shape: ShapeView::Text(seq!['\n']), spans: before.last().spans };
        nodes_show_their_text(before, seq![line], line);
        assert(before.push(line) =~= before + seq![line]);
        nodes_show_their_text(before.push(line), rows[count - 1], line);
        assert(rendered_all(body_upto(rows, count, spans)) =~= rows_text(rows, count));
    }
}

/// Cells are collected by their row and rows by their table, in their order.
pub proof fn tables_collect_their_parts(
    setting: Setting,
    state: ConverterView,
    kind: TagKind,
    start: usize,
    end: usize,
)
    requires
        state.frames.len() > 1,
    ensures
        ({
            let after = after_end(setting, state, kind, start, end);
            let inner = state.frames.last();
            let outer = state.frames[state.frames.len() - 2];
            &&& inner.kind is TableCell && outer.kind is TableRow ==> {
                &&& after.frames.last().kind matches FrameKindView::TableRow { cells, .. }
                &&& cells.len() == outer.kind->TableRow_cells.len() + 1
                &&& cells.drop_last() == outer.kind->TableRow_cells
                &&& rendered_all(cells.last().nodes) == so_far(inner)
            }
            &&& inner.kind is TableRow && outer.kind is Table ==> {
                &&& after.frames.last().kind matches FrameKindView::Table { rows, alignments, .. }
                &&& alignments == outer.kind->Table_alignments
                &&& rows.len() == outer.kind->Table_rows.len() + 1
                &&& rows.drop_last() == outer.kind->Table_rows
                &&& rows.last() == lowered_row(
                    setting.source,
                    inner.kind->TableRow_cells,
                    inner.kind->TableRow_width,
                    inner.kind->TableRow_start,
                    end,
                )
            }
        }),
{
    reveal(after_end);
    reveal(settled);
    let inner = state.frames.last();
    let outer = state.frames[state.frames.len() - 2];
    assert(state.frames.drop_last().last() == outer);
    flushing_keeps_text(inner);
    let after = after_end(setting, state, kind, start, end);
    if inner.kind is TableCell && outer.kind is TableRow {
        assert(after.frames.last().kind->TableRow_cells.drop_last()
            =~= outer.kind->TableRow_cells);
    }
    if inner.kind is TableRow && outer.kind is Table {
        assert(after.frames.last().kind->Table_rows.drop_last() =~= outer.kind->Table_rows);
    }
}

/// Line breaks are shown as such, whether soft or hard, outside raw macros.
pub proof fn line_breaks_are_shown(setting: Setting, state: ConverterView, start: usize, end: usize)
    requires
        state.frames.len() > 0,
        setting.macros.len() == 0,
        start < end,
        byte_slice(seq!['\n'], 0, end - start) is None || byte_slice(seq!['\n'], 0, end - start)
            == Some(seq!['\n']),
    ensures
        ({
            let soft = after_plain_event(setting, state, MarkdownEventView::SoftBreak, start, end);
            let hard = after_plain_event(setting, state, MarkdownEventView::HardBreak, start, end);
            &&& soft == hard
            &&& soft.diagnostics == state.diagnostics
            &&& so_far(soft.frames.last()) == so_far(state.frames.last()) + gap(
                state.frames.last(),
            ) + seq!['\n']
        }),
{
    reveal(after_plain_event);
    text_events_are_shown(setting, state, seq!['\n'], start, end);
}

} // verus!
