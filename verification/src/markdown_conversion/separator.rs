//! Pending separators and the text that they become.
use crate::source::Span;
use vstd::prelude::*;

use super::events::TagKind;
use super::frame::{append_node, append_spans, merged_spans, with_node, Frame, FrameView};
use super::origin::{
    origin_views, same_spans, span_seq, NodeWithOrigin, OriginView, Shape, ShapeView,
};

verus! {

/// Whitespace that a closing construct owes the text that follows it.
#[derive(Debug, Clone, Copy, PartialEq, Eq, Structural)]
pub enum PendingSeparator {
    /// Nothing is owed.
    Nothing,
    /// The next text starts on a new line.
    Line,
    /// A blank line stands before the next text.
    Paragraph,
    /// A subsection has closed. It renders as a line break; `Line` on a fresh
    /// subsection says that the subsection has no content yet, which this one
    /// does not.
    Section,
}

/// The strength of a separator: a stronger one replaces a weaker one.
pub open spec fn separator_rank(separator: PendingSeparator) -> int {
    match separator {
        PendingSeparator::Nothing => 0,
        PendingSeparator::Line => 1,
        PendingSeparator::Paragraph => 2,
        PendingSeparator::Section => 3,
    }
}

/// The stronger of two separators.
pub open spec fn stronger(a: PendingSeparator, b: PendingSeparator) -> PendingSeparator {
    if separator_rank(a) < separator_rank(b) {
        b
    } else {
        a
    }
}

impl PendingSeparator {
    fn rank(self) -> (r: u8)
        ensures
            r == separator_rank(self),
    {
        match self {
            PendingSeparator::Nothing => 0,
            PendingSeparator::Line => 1,
            PendingSeparator::Paragraph => 2,
            PendingSeparator::Section => 3,
        }
    }

    /// The stronger of two separators.
    pub fn or_stronger(self, other: PendingSeparator) -> (r: PendingSeparator)
        ensures
            r == stronger(self, other),
    {
        if self.rank() < other.rank() {
            other
        } else {
            self
        }
    }
}

/// The text that a separator becomes.
pub open spec fn separator_text(separator: PendingSeparator) -> Seq<char> {
    match separator {
        PendingSeparator::Nothing => Seq::empty(),
        PendingSeparator::Line => seq!['\n'],
        PendingSeparator::Paragraph => seq!['\n', '\n'],
        PendingSeparator::Section => seq!['\n'],
    }
}

/// A frame whose pending separator has become text. It is dropped where the
/// frame has nothing before it.
pub open spec fn with_separator(frame: FrameView, anchor: Option<Span>) -> FrameView {
    if frame.separator == PendingSeparator::Nothing || (frame.text.len() == 0 && frame.nodes.len()
        == 0) {
        FrameView { separator: PendingSeparator::Nothing, ..frame }
    } else {
        FrameView {
            separator: PendingSeparator::Nothing,
            text: frame.text + separator_text(frame.separator),
            text_spans: frame.text_spans + span_seq(anchor),
            ..frame
        }
    }
}

/// Turns the pending separator into text.
pub fn materialize_separator(frame: &mut Frame, anchor: Option<Span>)
    ensures
        final(frame)@ == with_separator(old(frame)@, anchor),
{
    proof {
        super::origin::origin_views_index(frame.nodes);
    }
    let boundary = frame.separator;
    frame.separator = PendingSeparator::Nothing;
    if boundary == PendingSeparator::Nothing {
        return;
    }
    if is_blank(&frame.text) && frame.nodes.len() == 0 {
        return;
    }
    frame.text.push('\n');
    if boundary == PendingSeparator::Paragraph {
        frame.text.push('\n');
    }
    if let Some(anchor) = anchor {
        frame.text_spans.push(anchor);
    }
    proof {
        assert(frame@.text =~= old(frame)@.text + separator_text(boundary));
        assert(frame@.text_spans =~= old(frame)@.text_spans + span_seq(anchor));
    }
}

/// Whether a text holds no character.
pub fn is_blank(text: &str) -> (r: bool)
    ensures
        r == (text@.len() == 0),
{
    proof {
        reveal_strlit("");
    }
    let r = crate::text::same_text(text, "");
    proof {
        if text@.len() == 0 {
            assert(text@ =~= ""@);
        }
    }
    r
}

/// A frame with one more piece of output: text joins the text before it, any
/// other node stands for itself.
pub open spec fn with_flattened(frame: FrameView, node: OriginView, anchor: Option<Span>) -> FrameView {
    match node.shape {
        ShapeView::Text(text) => if text.len() == 0 {
            frame
        } else {
            let spaced = with_separator(frame, anchor);
            FrameView {
                text: spaced.text + text,
                text_spans: if spaced.text_spans == node.spans {
                    spaced.text_spans
                } else {
                    merged_spans(spaced.text_spans, node.spans)
                },
                ..spaced
            }
        },
        _ => with_node(with_separator(frame, anchor), node),
    }
}

/// A frame with more output.
pub open spec fn with_flattened_all(
    frame: FrameView,
    nodes: Seq<OriginView>,
    anchor: Option<Span>,
) -> FrameView
    decreases nodes.len(),
{
    if nodes.len() == 0 {
        frame
    } else {
        with_flattened(with_flattened_all(frame, nodes.drop_last(), anchor), nodes.last(), anchor)
    }
}

/// Appends one piece of output.
pub fn append_flattened_node(frame: &mut Frame, node: NodeWithOrigin, anchor: Option<Span>)
    ensures
        final(frame)@ == with_flattened(old(frame)@, node@, anchor),
{
    let NodeWithOrigin { shape, spans } = node;
    match shape {
        Shape::Text(text) => {
            if is_blank(&text) {
                return;
            }
            materialize_separator(frame, anchor);
            frame.text.push_str(&text);
            if !same_spans(&frame.text_spans, &spans) {
                append_spans(&mut frame.text_spans, &spans);
            }
        },
        shape => {
            materialize_separator(frame, anchor);
            append_node(frame, NodeWithOrigin { shape, spans });
        },
    }
}

/// Appends several pieces of output.
pub fn append_flattened_nodes(frame: &mut Frame, nodes: Vec<NodeWithOrigin>, anchor: Option<Span>)
    ensures
        final(frame)@ == with_flattened_all(old(frame)@, origin_views(nodes), anchor),
{
    let ghost shown = origin_views(nodes);
    let ghost all = nodes;
    proof {
        super::origin::origin_views_index(nodes);
        assert(shown.take(0) =~= Seq::<OriginView>::empty());
    }
    for node in it: nodes
        invariant
            it.seq() == all@,
            shown.len() == all@.len(),
            forall|i: int| 0 <= i < all@.len() ==> #[trigger] shown[i] == all@[i]@,
            frame@ == with_flattened_all(old(frame)@, shown.take(it.index() as int), anchor),
    {
        proof {
            let prefix = shown.take(it.index() + 1);
            assert(prefix.drop_last() =~= shown.take(it.index() as int));
            assert(prefix.last() == node@);
        }
        append_flattened_node(frame, node, anchor);
    }
    proof {
        assert(shown.take(shown.len() as int) =~= shown);
    }
}

/// The whitespace that a construct owes the text behind it.
pub open spec fn boundary_after(kind: TagKind) -> PendingSeparator {
    match kind {
        TagKind::Paragraph
        | TagKind::Heading
        | TagKind::BlockQuote
        | TagKind::CodeBlock
        | TagKind::HtmlBlock
        | TagKind::List
        | TagKind::Table
        | TagKind::FootnoteDefinition
        | TagKind::DefinitionList
        | TagKind::MetadataBlock => PendingSeparator::Paragraph,
        TagKind::Item | TagKind::DefinitionListTitle | TagKind::DefinitionListDefinition =>
            PendingSeparator::Line,
        _ => PendingSeparator::Nothing,
    }
}

/// The whitespace that a closed construct owes the text behind it.
pub fn separator_after(kind: TagKind) -> (r: PendingSeparator)
    ensures
        r == boundary_after(kind),
{
    match kind {
        TagKind::Paragraph
        | TagKind::Heading
        | TagKind::BlockQuote
        | TagKind::CodeBlock
        | TagKind::HtmlBlock
        | TagKind::List
        | TagKind::Table
        | TagKind::FootnoteDefinition
        | TagKind::DefinitionList
        | TagKind::MetadataBlock => PendingSeparator::Paragraph,
        TagKind::Item | TagKind::DefinitionListTitle | TagKind::DefinitionListDefinition => {
            PendingSeparator::Line
        },
        TagKind::TableHead
        | TagKind::TableRow
        | TagKind::TableCell
        | TagKind::Emphasis
        | TagKind::Strong
        | TagKind::Strikethrough
        | TagKind::Superscript
        | TagKind::Subscript
        | TagKind::Link
        | TagKind::Image => PendingSeparator::Nothing,
    }
}

} // verus!
