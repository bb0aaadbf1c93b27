//! Lowering of rectangular Markdown tables.
use crate::rd::RdMacro;
use crate::source::Span;
use crate::tags::SourcedText;
use vstd::prelude::*;

use super::events::ColumnAlignment;
use super::frame::{
    append_node, empty_frame, row_views, with_node, Frame, FrameKindView, FrameView,
};
use super::origin::{
    copy_spans, group, make_group, make_tagged, make_text, no_nodes, one_node, origin_views,
    origin_views_index, push_node, push_nodes, span_list, span_seq, tagged, text_leaf, two_nodes,
    NodeWithOrigin, OriginView,
};
use super::position::{anchor_of, range_anchor, range_spans, spans_of};
use super::separator::{append_flattened_nodes, with_flattened_all};

verus! {

/// A table cell that is complete.
#[derive(Debug, PartialEq, Eq)]
pub struct CompletedCell {
    pub nodes: Vec<NodeWithOrigin>,
    /// The boundary that closes the cell: the markers and the whitespace
    /// around it go by this position.
    pub anchor: Option<Span>,
}

/// The model of [`CompletedCell`].
pub struct CellView {
    pub nodes: Seq<OriginView>,
    pub anchor: Option<Span>,
}

impl View for CompletedCell {
    type V = CellView;

    open spec fn view(&self) -> CellView {
        CellView { nodes: origin_views(self.nodes), anchor: self.anchor }
    }
}

/// The models of cells.
pub open spec fn cell_views(cells: Seq<CompletedCell>) -> Seq<CellView> {
    cells.map_values(|cell: CompletedCell| cell@)
}

/// The first of two positions that there is.
pub open spec fn first_of(a: Option<Span>, b: Option<Span>) -> Option<Span> {
    match a {
        Some(span) => Some(span),
        None => b,
    }
}

fn either(a: Option<Span>, b: Option<Span>) -> (r: Option<Span>)
    ensures
        r == first_of(a, b),
{
    match a {
        Some(span) => Some(span),
        None => b,
    }
}

/// Cells cut or filled up to the width of the table.
pub open spec fn fitted(cells: Seq<CellView>, width: nat, fill: Option<Span>) -> Seq<CellView> {
    Seq::new(
        width,
        |i: int|
            if i < cells.len() {
                cells[i]
            } else {
                CellView { nodes: Seq::empty(), anchor: fill }
            },
    )
}

/// A frame with more text at a position.
pub open spec fn with_text(frame: FrameView, text: Seq<char>, anchor: Option<Span>) -> FrameView {
    FrameView {
        text: frame.text + text,
        text_spans: frame.text_spans + span_seq(anchor),
        ..frame
    }
}

/// Appends text at a position.
pub fn append_text_at(frame: &mut Frame, text: &str, anchor: Option<Span>)
    ensures
        final(frame)@ == with_text(old(frame)@, text@, anchor),
{
    frame.text.push_str(text);
    if let Some(anchor) = anchor {
        frame.text_spans.push(anchor);
    }
    proof {
        assert(frame@.text_spans =~= old(frame)@.text_spans + span_seq(anchor));
    }
}

/// The position that the content of a cell goes by: the boundary before it, or
/// its own where it is empty.
pub open spec fn content_anchor(
    cells: Seq<CellView>,
    index: int,
    from: Option<Span>,
    to: Option<Span>,
) -> Option<Span> {
    if cells[index].nodes.len() == 0 {
        first_of(cells[index].anchor, to)
    } else if index == 0 {
        from
    } else {
        first_of(cells[index - 1].anchor, to)
    }
}

/// The first `count` cells of a row, which lies between two positions: three
/// spaces before the row, one space on either side of every cell, and a `\\tab`
/// behind each cell but the last, behind which a `\\cr` stands.
pub open spec fn row_upto(
    cells: Seq<CellView>,
    count: int,
    from: Option<Span>,
    to: Option<Span>,
) -> FrameView
    decreases count,
{
    if count <= 0 {
        empty_frame(FrameKindView::Root)
    } else {
        let index = count - 1;
        let inner = content_anchor(cells, index, from, to);
        let opened = with_text(
            row_upto(cells, index, from, to),
            if index == 0 {
                "   "@
            } else {
                " "@
            },
            inner,
        );
        let filled = with_flattened_all(opened, cells[index].nodes, inner);
        if count < cells.len() {
            let outer = first_of(cells[index].anchor, to);
            with_node(with_text(filled, " "@, outer), mark(RdMacro::Tab, outer))
        } else {
            with_node(with_text(filled, " "@, to), mark(RdMacro::Cr, to))
        }
    }
}

/// A macro without arguments at a position.
pub open spec fn mark(tag: RdMacro, anchor: Option<Span>) -> OriginView {
    tagged(tag, Seq::empty(), span_seq(anchor))
}

fn marker(tag: RdMacro, anchor: Option<Span>) -> (r: NodeWithOrigin)
    ensures
        r@ == mark(tag, anchor),
{
    make_tagged(tag, no_nodes(), span_list(anchor))
}

/// The nodes of a table row.
#[verifier::opaque]
pub open spec fn lowered_row(
    source: SourcedText,
    cells: Seq<CellView>,
    width: usize,
    start: usize,
    end: usize,
) -> Seq<OriginView> {
    let to = anchor_of(source, end);
    row_upto(fitted(cells, width as nat, to), width as int, anchor_of(source, start), to).nodes
}

fn fit_cells(cells: Vec<CompletedCell>, width: usize, fill: Option<Span>) -> (r: Vec<
    CompletedCell,
>)
    ensures
        cell_views(r@) == fitted(cell_views(cells@), width as nat, fill),
{
    let ghost given = cell_views(cells@);
    let mut cells = cells;
    cells.truncate(width);
    while cells.len() < width
        invariant
            cells@.len() <= width,
            cells@.len() >= given.len() || cells@.len() == width,
            forall|i: int|
                0 <= i < cells@.len() ==> (#[trigger] cells@[i])@ == (if i < given.len() {
                    given[i]
                } else {
                    CellView { nodes: Seq::empty(), anchor: fill }
                }),
        decreases width - cells@.len(),
    {
        cells.push(CompletedCell { nodes: no_nodes(), anchor: fill });
    }
    proof {
        assert(cell_views(cells@) =~= fitted(given, width as nat, fill));
    }
    cells
}

/// Lowers the cells of a table row. A row that does not have the width of the
/// table is cut or filled up.
pub fn lower_row(
    source: &SourcedText,
    cells: Vec<CompletedCell>,
    width: usize,
    start: usize,
    end: usize,
) -> (r: Vec<NodeWithOrigin>)
    ensures
        origin_views(r) == lowered_row(*source, cell_views(cells@), width, start, end),
{
    proof {
        reveal(lowered_row);
    }
    let to = range_anchor(source, end);
    let from = range_anchor(source, start);
    let cells = fit_cells(cells, width, to);
    let ghost shown = cell_views(cells@);
    let ghost all = cells@;
    let mut linear = Frame::root();
    let mut boundary: Option<Span> = from;
    let mut index: usize = 0;
    for cell in it: cells
        invariant
            it.seq() == all,
            shown == cell_views(all),
            all.len() == width,
            index == it.index(),
            boundary == (if index == 0 {
                from
            } else {
                first_of(shown[index - 1].anchor, to)
            }),
            linear@ == row_upto(shown, index as int, from, to),
    {
        let CompletedCell { nodes, anchor } = cell;
        proof {
            assert(shown[index as int] == cell@);
            origin_views_index(nodes);
        }
        let outer = either(anchor, to);
        let inner = if nodes.len() == 0 {
            outer
        } else {
            boundary
        };
        append_text_at(
            &mut linear,
            if index == 0 {
                "   "
            } else {
                " "
            },
            inner,
        );
        append_flattened_nodes(&mut linear, nodes, inner);
        if index + 1 < width {
            append_text_at(&mut linear, " ", outer);
            append_node(&mut linear, marker(RdMacro::Tab, outer));
        } else {
            append_text_at(&mut linear, " ", to);
            append_node(&mut linear, marker(RdMacro::Cr, to));
        }
        boundary = outer;
        index = index + 1;
    }
    linear.nodes
}

/// The letter of a column in an Rd table.
pub open spec fn column_letter(alignment: ColumnAlignment) -> char {
    match alignment {
        ColumnAlignment::Unset | ColumnAlignment::Left => 'l',
        ColumnAlignment::Center => 'c',
        ColumnAlignment::Right => 'r',
    }
}

/// The column letters of a table.
pub open spec fn column_letters(alignments: Seq<ColumnAlignment>) -> Seq<char> {
    alignments.map_values(|alignment: ColumnAlignment| column_letter(alignment))
}

fn column_spec(alignments: &Vec<ColumnAlignment>) -> (r: String)
    ensures
        r@ == column_letters(alignments@),
{
    let mut out: String = String::new();
    let mut i: usize = 0;
    while i < alignments.len()
        invariant
            i <= alignments@.len(),
            out@ == column_letters(alignments@.take(i as int)),
        decreases alignments@.len() - i,
    {
        out.push(
            match alignments[i] {
                ColumnAlignment::Unset | ColumnAlignment::Left => 'l',
                ColumnAlignment::Center => 'c',
                ColumnAlignment::Right => 'r',
            },
        );
        proof {
            assert(out@ =~= column_letters(alignments@.take(i + 1)));
        }
        i = i + 1;
    }
    proof {
        assert(alignments@.take(alignments@.len() as int) =~= alignments@);
    }
    out
}

/// The first `count` rows of a table body, behind the line break that follows
/// the opening brace. A line break between two rows has the spans of what
/// stands before it.
pub open spec fn body_upto(rows: Seq<Seq<OriginView>>, count: int, spans: Seq<Span>) -> Seq<
    OriginView,
>
    decreases count,
{
    if count <= 0 {
        seq![text_leaf(seq!['\n'], spans)]
    } else {
        let before = body_upto(rows, count - 1, spans);
        if count == 1 {
            before + rows[0]
        } else {
            before.push(text_leaf(seq!['\n'], before.last().spans)) + rows[count - 1]
        }
    }
}

/// The Rd table of a Markdown table.
#[verifier::opaque]
pub open spec fn lowered_table(
    source: SourcedText,
    alignments: Seq<ColumnAlignment>,
    rows: Seq<Seq<OriginView>>,
    start: usize,
    end: usize,
) -> OriginView {
    let spans = spans_of(source, start, end);
    tagged(
        RdMacro::Tabular,
        seq![
            group(seq![text_leaf(column_letters(alignments), spans)], spans),
            group(
                body_upto(rows, rows.len() as int, spans).push(text_leaf(seq!['\n'], spans)),
                spans,
            ),
        ],
        spans,
    )
}

fn line_break(spans: Vec<Span>) -> (r: NodeWithOrigin)
    ensures
        r@ == text_leaf(seq!['\n'], spans@),
{
    let mut text: String = String::new();
    text.push('\n');
    proof {
        assert(text@ =~= seq!['\n']);
    }
    make_text(text, spans)
}

/// Lowers a table.
pub fn lower_table(
    source: &SourcedText,
    alignments: Vec<ColumnAlignment>,
    rows: Vec<Vec<NodeWithOrigin>>,
    start: usize,
    end: usize,
) -> (r: NodeWithOrigin)
    ensures
        r@ == lowered_table(*source, alignments@, row_views(rows@), start, end),
{
    proof {
        reveal(lowered_table);
    }
    let spans = range_spans(source, start, end);
    let letters = one_node(make_text(column_spec(&alignments), copy_spans(&spans)));
    let columns = make_group(letters, copy_spans(&spans));
    let ghost shown = row_views(rows@);
    let ghost all = rows@;
    let mut body = one_node(line_break(copy_spans(&spans)));
    let mut has_row: bool = false;
    proof {
        origin_views_index(body);
    }
    for row in it: rows
        invariant
            it.seq() == all,
            shown == row_views(all),
            has_row == (it.index() > 0),
            body@.len() > 0,
            origin_views(body) == body_upto(shown, it.index() as int, spans@),
    {
        proof {
            assert(shown[it.index() as int] == origin_views(row));
            origin_views_index(body);
        }
        if has_row {
            let last = copy_spans(&body[body.len() - 1].spans);
            push_node(&mut body, line_break(last));
        }
        push_nodes(&mut body, row);
        proof {
            origin_views_index(body);
        }
        has_row = true;
    }
    push_node(&mut body, line_break(copy_spans(&spans)));
    let group = make_group(body, copy_spans(&spans));
    make_tagged(RdMacro::Tabular, two_nodes(columns, group), spans)
}

} // verus!
