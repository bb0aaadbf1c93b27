//! Laws of the white space and of the reports of Markdown constructs.
use crate::diagnostic::DiagnosticCode;
use crate::markdown_conversion::convert::{
    closing_report, frame_before_block, frame_before_nested, opening_report,
};
use crate::markdown_conversion::events::{MarkdownTagView, TagKind};
use crate::markdown_conversion::frame::{FrameKindView, FrameView};
use crate::markdown_conversion::link::{decoded_bytes, reference_topic, solid, without_backticks};
use crate::markdown_conversion::position::spans_of;
use crate::markdown_conversion::separator::PendingSeparator;
use crate::markdown_conversion::unsupported::{construct_name, construct_report};
use crate::source::{byte_slice, Span};
use crate::tags::SourcedText;
use crate::text::is_space;
use vstd::prelude::*;

use super::inline_r::code_reports_stand_at_their_place;

verus! {

/// The first block of a section stands on a line of its own behind the title: an empty line
/// before a paragraph, a line break before a list, a table, code or a quotation.
pub proof fn sections_start_on_their_own_line(
    frame: FrameView,
    kind: TagKind,
    anchor: Option<Span>,
)
    requires
        frame.kind is Subsection,
        frame.nodes.len() == 0,
        frame.text.len() == 0,
        frame.separator == PendingSeparator::Line,
    ensures
        ({
            let after = frame_before_block(frame, kind, anchor);
            &&& after.nodes == frame.nodes
            &&& kind == TagKind::Paragraph ==> after.text == seq!['\n', '\n']
            &&& kind == TagKind::CodeBlock || kind == TagKind::List || kind == TagKind::BlockQuote
                || kind == TagKind::HtmlBlock || kind == TagKind::Table ==> after.text == seq!['\n']
            &&& kind == TagKind::Emphasis || kind == TagKind::Strong || kind == TagKind::Link
                ==> after == frame
        }),
{
    assert(Seq::<char>::empty() + seq!['\n', '\n'] =~= seq!['\n', '\n']);
    assert(Seq::<char>::empty() + seq!['\n'] =~= seq!['\n']);
    assert(frame.text =~= Seq::<char>::empty());
}

/// Blocks outside sections add nothing of their own.
pub proof fn other_blocks_start_as_they_are(frame: FrameView, kind: TagKind, anchor: Option<Span>)
    requires
        !(frame.kind is Subsection),
    ensures
        frame_before_block(frame, kind, anchor) == frame,
{
}

/// A list, a table or code in an item stands on the next line, and so does a list behind a
/// paragraph. Nothing else changes what is due.
pub proof fn nested_blocks_stand_on_the_next_line(frame: FrameView, kind: TagKind)
    ensures
        frame.kind is Item && (kind == TagKind::List || kind == TagKind::Table || kind
            == TagKind::CodeBlock) ==> frame_before_nested(frame, kind).separator
            == PendingSeparator::Line,
        kind == TagKind::List && frame.separator == PendingSeparator::Paragraph
            ==> frame_before_nested(frame, kind).separator == PendingSeparator::Line,
        !(frame.kind is Item) && kind != TagKind::List ==> frame_before_nested(frame, kind)
            == frame,
        kind == TagKind::Paragraph || kind == TagKind::BlockQuote ==> frame_before_nested(
            frame,
            kind,
        ) == frame,
        frame_before_nested(frame, kind).text == frame.text,
        frame_before_nested(frame, kind).nodes == frame.nodes,
{
}

/// An ordered list that does not start at one is reported; no other opening is.
pub proof fn lists_start_at_one(
    source: SourcedText,
    tag: MarkdownTagView,
    start: usize,
    end: usize,
)
    ensures
        tag matches MarkdownTagView::List(Some(first)) && first != 1 && spans_of(
            source,
            start,
            end,
        ).len() > 0 ==> opening_report(source, tag, start, end).len() == 1 && opening_report(
            source,
            tag,
            start,
            end,
        )[0].primary.span == spans_of(source, start, end)[0],
        tag == MarkdownTagView::List(Some(1)) || tag == MarkdownTagView::List(None) || !(tag
            is List) ==> opening_report(source, tag, start, end).len() == 0,
{
    reveal_strlit("ordered Markdown list does not start at 1");
    reveal_strlit("level-one heading");
    let name = "ordered Markdown list does not start at 1"@;
    assert(name.len() != "level-one heading"@.len());
    code_reports_stand_at_their_place(
        source,
        DiagnosticCode::UnsupportedMarkdownConstruct,
        "unsupported Markdown construct: "@ + name,
        "unsupported Markdown construct"@,
        start,
        end,
    );
}

/// A construct without Rd form is reported when it closes, unless what is around it has been
/// reported for both: a part of a table in a table, or a heading in any such construct. Other
/// constructs are not reported.
pub proof fn unsupported_constructs_are_reported_once(
    source: SourcedText,
    frames: Seq<FrameView>,
    name: Seq<char>,
    start: usize,
    end: usize,
    kind: FrameKindView,
    i: int,
)
    ensures
        ({
            let own = FrameKindView::Unsupported { name, start };
            let report = closing_report(source, frames, own, end);
            &&& (forall|k: int| 0 <= k < frames.len() ==> !((#[trigger] frames[k]).kind is Unsupported))
                ==> report == construct_report(source, name, start, end)
            &&& name != "table"@ && name != "heading"@ && name != "level-one heading"@ ==> report
                == construct_report(source, name, start, end)
            &&& (name == "heading"@ || name == "level-one heading"@) && 0 <= i < frames.len()
                && frames[i].kind is Unsupported ==> report.len() == 0
            &&& name == "table"@ && frames.len() > 0 && frames.last().kind is Unsupported
                && frames.last().kind->Unsupported_name == "table"@ ==> report.len() == 0
        }),
        !(kind is Unsupported) ==> closing_report(source, frames, kind, end).len() == 0,
{
    if frames.len() > 0 {
        assert(frames.last() == frames[frames.len() - 1]);
    }
}

/// Constructs are reported by their common names.
pub proof fn constructs_have_names(tag: MarkdownTagView)
    ensures
        tag == MarkdownTagView::Heading(1) ==> construct_name(tag) == "level-one heading"@,
        tag is Heading && tag != MarkdownTagView::Heading(1) ==> construct_name(tag) == "heading"@,
        tag is Table ==> construct_name(tag) == "table"@,
        tag is CodeBlock ==> construct_name(tag) == "code block"@,
        tag is List ==> construct_name(tag) == "list"@,
        tag is Link ==> construct_name(tag) == "link"@,
        tag == MarkdownTagView::Other(TagKind::Image) ==> construct_name(tag) == "image"@,
        tag == MarkdownTagView::Other(TagKind::BlockQuote) ==> construct_name(tag)
            == "block quote"@,
        tag == MarkdownTagView::Other(TagKind::HtmlBlock) ==> construct_name(tag) == "HTML block"@,
        tag == MarkdownTagView::Other(TagKind::FootnoteDefinition) ==> construct_name(tag)
            == "footnote definition"@,
        tag == MarkdownTagView::Other(TagKind::Strikethrough) ==> construct_name(tag)
            == "strikethrough"@,
        tag == MarkdownTagView::Other(TagKind::Item) ==> construct_name(tag) == "list item"@,
        tag == MarkdownTagView::Other(TagKind::TableRow) || tag == MarkdownTagView::Other(
            TagKind::TableCell,
        ) || tag == MarkdownTagView::Other(TagKind::TableHead) ==> construct_name(tag) == "table"@,
{
}

/// The white space of a text does not count where labels are compared: what counts is the rest,
/// in its order.
pub proof fn labels_are_compared_without_white_space(text: Seq<char>)
    ensures
        solid(text) == text.filter(|c: char| !is_space(c)),
    decreases text.len(),
{
    reveal(Seq::filter);
    if text.len() > 0 {
        labels_are_compared_without_white_space(text.drop_last());
    }
}

/// A reference link goes to the label as it is written in the source, where that is the label of
/// the reference up to white space, and else to the reference.
pub proof fn references_go_to_their_labels(
    text: Seq<char>,
    start: int,
    end: int,
    label: Seq<char>,
    reference: Seq<char>,
)
    requires
        byte_slice(text, start + 1, end - 1) == Some(label),
    ensures
        label.filter(|c: char| !is_space(c)) == reference.filter(|c: char| !is_space(c))
            ==> reference_topic(text, start, end, reference) == label,
        label.filter(|c: char| !is_space(c)) != reference.filter(|c: char| !is_space(c))
            ==> reference_topic(text, start, end, reference) == reference,
{
    labels_are_compared_without_white_space(label);
    labels_are_compared_without_white_space(reference);
}

/// Backticks around a topic do not belong to it.
pub proof fn backticks_do_not_belong_to_topics(text: Seq<char>)
    ensures
        without_backticks(seq!['`'] + text + seq!['`']) == text,
        text.len() == 0 || text[0] != '`' || text.last() != '`' ==> without_backticks(text) == text,
{
    let quoted = seq!['`'] + text + seq!['`'];
    assert(quoted.subrange(1, quoted.len() - 1) =~= text);
}

/// The value of a hexadecimal digit of either case.
pub open spec fn hex_digit(byte: u8) -> int {
    if 0x30 <= byte <= 0x39 {
        byte - 0x30
    } else if 0x41 <= byte <= 0x46 {
        byte - 0x41 + 10
    } else {
        byte - 0x61 + 10
    }
}

/// Whether a byte is a hexadecimal digit.
pub open spec fn is_hex_digit(byte: u8) -> bool {
    0x30 <= byte <= 0x39 || 0x41 <= byte <= 0x46 || 0x61 <= byte <= 0x66
}

/// A percent sign with two hexadecimal digits in a destination stands for the byte with that
/// number; any other byte, and a percent sign without two digits, stands for itself.
pub proof fn escapes_in_destinations_stand_for_bytes(high: u8, low: u8, byte: u8, rest: Seq<u8>)
    ensures
        is_hex_digit(high) && is_hex_digit(low) ==> decoded_bytes(seq![0x25u8, high, low] + rest)
            == seq![(hex_digit(high) * 16 + hex_digit(low)) as u8] + decoded_bytes(rest),
        byte != 0x25 ==> decoded_bytes(seq![byte] + rest) == seq![byte] + decoded_bytes(rest),
        rest.len() < 2 || !is_hex_digit(rest[0]) || !is_hex_digit(rest[1]) ==> decoded_bytes(
            seq![0x25u8] + rest,
        ) == seq![0x25u8] + decoded_bytes(rest),
{
    let escaped = seq![0x25u8, high, low] + rest;
    assert(escaped.skip(3) =~= rest);
    assert(escaped[0] == 0x25 && escaped[1] == high && escaped[2] == low);
    let plain = seq![byte] + rest;
    assert(plain.skip(1) =~= rest);
    assert(plain[0] == byte);
    let sign = seq![0x25u8] + rest;
    assert(sign.skip(1) =~= rest);
    assert(sign[0] == 0x25);
    if rest.len() >= 2 {
        assert(sign[1] == rest[0] && sign[2] == rest[1]);
    }
}

} // verus!
