//! Laws of inline R code, and of macros within text.
use crate::diagnostic::{DiagnosticCode, Severity};
use crate::markdown_conversion::code::{form_of, is_r_chunk, CodeForm};
use crate::markdown_conversion::convert::{
    after_event, after_expression, after_plain_event, after_slice, after_text_from, code_node,
    crosses_lines, ConverterView, Setting,
};
use crate::markdown_conversion::events::{MarkdownEventView, SourcedEventView};
use crate::markdown_conversion::link::{rendered, rendered_all};
use crate::markdown_conversion::lookups::asked_expressions;
use crate::markdown_conversion::origin::{spread, spread_all, OriginView, ShapeView};
use crate::markdown_conversion::position::{anchor_of, spans_of};
use crate::markdown_conversion::raw_rd::prepare::{advanced, raw_node};
use crate::markdown_conversion::raw_rd::scan::ByteRange;
use crate::markdown_conversion::separator::{
    with_flattened, with_flattened_all, with_separator, PendingSeparator,
};
use crate::markdown_conversion::unsupported::{
    code_report, evaluation_report, multiline_report, undefined_report, with_parts,
};
use crate::rd::{NodeView, RdMacro};
use crate::source::{byte_slice, Span};
use crate::tags::SourcedText;
use vstd::prelude::*;

use super::help_links::nodes_show_their_text;
use super::markdown_shapes::{gap, literal_text_is_shown, macro_node, nodes_are_placed, so_far};

verus! {

/// The operators and keywords of R that are code although they are no expressions.
pub open spec fn operators() -> Seq<Seq<char>> {
    seq![
        "-"@,
        ":"@,
        "::"@,
        ":::"@,
        "!"@,
        "!="@,
        "("@,
        "["@,
        "[["@,
        "@"@,
        "*"@,
        "/"@,
        "&"@,
        "&&"@,
        "%*%"@,
        "%/%"@,
        "%%"@,
        "%in%"@,
        "%o%"@,
        "%x%"@,
        "^"@,
        "+"@,
        "<"@,
        "<="@,
        "="@,
        "=="@,
        ">"@,
        ">="@,
        "|"@,
        "||"@,
        "~"@,
        "$"@,
        "for"@,
        "function"@,
        "if"@,
        "repeat"@,
        "while"@,
    ]
}

/// Of the code that is no R expression, exactly the operators and keywords of R that can be
/// written are shown as code.
pub proof fn operators_are_code(code: Seq<char>, i: int)
    ensures
        0 <= i < operators().len() && code == operators()[i] && !(seq!['r', ' '].is_prefix_of(
            code,
        )) && !(seq!['R', 'd', ' '].is_prefix_of(code)) ==> form_of(code, false, true)
            == CodeForm::Code,
        !operators().contains(code) ==> form_of(code, false, true) == CodeForm::Verbatim,
{
    reveal_strlit("r ");
    reveal_strlit("Rd ");
    assert("r "@ =~= seq!['r', ' ']);
    assert("Rd "@ =~= seq!['R', 'd', ' ']);
    if !operators().contains(code) {
        assert forall|k: int| 0 <= k < operators().len() implies operators()[k] != code by {
            assert(operators().contains(operators()[k]));
        }
        operators_are_listed(code);
    }
}

proof fn operators_are_listed(code: Seq<char>)
    requires
        forall|k: int| 0 <= k < operators().len() ==> operators()[k] != code,
    ensures
        !crate::markdown_conversion::code::is_special_token(code),
{
    assert(operators()[0] == "-"@ && operators()[1] == ":"@ && operators()[2] == "::"@);
    assert(operators()[3] == ":::"@ && operators()[4] == "!"@ && operators()[5] == "!="@);
    assert(operators()[6] == "("@ && operators()[7] == "["@ && operators()[8] == "[["@);
    assert(operators()[9] == "@"@ && operators()[10] == "*"@ && operators()[11] == "/"@);
    assert(operators()[12] == "&"@ && operators()[13] == "&&"@ && operators()[14] == "%*%"@);
    assert(operators()[15] == "%/%"@ && operators()[16] == "%%"@ && operators()[17] == "%in%"@);
    assert(operators()[18] == "%o%"@ && operators()[19] == "%x%"@ && operators()[20] == "^"@);
    assert(operators()[21] == "+"@ && operators()[22] == "<"@ && operators()[23] == "<="@);
    assert(operators()[24] == "="@ && operators()[25] == "=="@ && operators()[26] == ">"@);
    assert(operators()[27] == ">="@ && operators()[28] == "|"@ && operators()[29] == "||"@);
    assert(operators()[30] == "~"@ && operators()[31] == "$"@ && operators()[32] == "for"@);
    assert(operators()[33] == "function"@ && operators()[34] == "if"@);
    assert(operators()[35] == "repeat"@ && operators()[36] == "while"@);
}

/// A fenced block asks for an evaluation where its info string starts with `{r` and a closing
/// brace, a comma or a blank. A block of another language does not.
pub proof fn r_chunks_ask_for_evaluation(rest: Seq<char>, info: Seq<char>)
    ensures
        is_r_chunk(seq!['{', 'r', '}'] + rest),
        is_r_chunk(seq!['{', 'r', ','] + rest),
        is_r_chunk(seq!['{', 'r', ' '] + rest),
        !(seq!['{', 'r'].is_prefix_of(info)) ==> !is_r_chunk(info),
        rest.len() > 0 && rest[0] != '}' && rest[0] != ',' && rest[0] != ' ' ==> !is_r_chunk(
            seq!['{', 'r'] + rest,
        ),
        !is_r_chunk(seq!['{', 'r']),
{
    if is_r_chunk(info) {
        assert(info.take(2) =~= seq!['{', 'r']);
        assert(seq!['{', 'r'].is_prefix_of(info));
    }
}

/// The expressions that events ask for are those that the first part asks for, and then those
/// that the rest asks for.
pub proof fn expressions_are_asked_in_order(
    source: SourcedText,
    first: Seq<SourcedEventView>,
    second: Seq<SourcedEventView>,
)
    ensures
        asked_expressions(source, first + second) == asked_expressions(source, first)
            + asked_expressions(source, second),
    decreases second.len(),
{
    if second.len() == 0 {
        assert(first + second =~= first);
        assert(asked_expressions(source, first) + Seq::empty() =~= asked_expressions(
            source,
            first,
        ));
    } else {
        expressions_are_asked_in_order(source, first, second.drop_last());
        assert((first + second).drop_last() =~= first + second.drop_last());
        assert(asked_expressions(source, first + second) =~= asked_expressions(source, first)
            + asked_expressions(source, second));
    }
}

/// Inline code of `r`, a blank and an expression, on one line, asks for the expression. No other
/// event asks for anything.
pub proof fn inline_r_asks_for_its_expression(
    source: SourcedText,
    expression: Seq<char>,
    start: usize,
    end: usize,
    other: SourcedEventView,
)
    ensures
        ({
            let event = SourcedEventView {
                event: MarkdownEventView::Code(seq!['r', ' '] + expression),
                start,
                end,
            };
            let part = byte_slice(source.text@, start as int, end as int);
            &&& part is None || !(part->0.contains('\n') || part->0.contains('\r'))
                ==> asked_expressions(source, seq![event]) == seq![expression]
            &&& part is Some && (part->0.contains('\n') || part->0.contains('\r'))
                ==> asked_expressions(source, seq![event]).len() == 0
        }),
        !(other.event is Code) || !(seq!['r', ' '].is_prefix_of(other.event->Code_0))
            ==> asked_expressions(source, seq![other]).len() == 0,
{
    reveal_strlit("r ");
    assert("r "@ =~= seq!['r', ' ']);
    let code = seq!['r', ' '] + expression;
    let event = SourcedEventView { event: MarkdownEventView::Code(code), start, end };
    assert(seq![event].drop_last() =~= Seq::<SourcedEventView>::empty());
    assert(seq![other].drop_last() =~= Seq::<SourcedEventView>::empty());
    assert(code.take(2) =~= seq!['r', ' ']);
    assert("r "@.is_prefix_of(code));
    assert(code.skip(2) =~= expression);
    assert(asked_expressions(source, Seq::empty()) =~= Seq::<Seq<char>>::empty());
    assert(Seq::<Seq<char>>::empty().push(expression) =~= seq![expression]);
    if let Some(part) = byte_slice(source.text@, start as int, end as int) {
        if crosses_lines(source.text@, start, end) {
            let i = choose|i: int|
                0 <= i < part.len() && (#[trigger] part[i] == '\n' || part[i] == '\r');
            assert(part.contains(part[i]));
        } else {
            assert forall|i: int| 0 <= i < part.len() implies #[trigger] part[i] != '\n' && part[i]
                != '\r' by {}
        }
    }
}

proof fn flattened_nodes_show(
    frame: crate::markdown_conversion::frame::FrameView,
    nodes: Seq<OriginView>,
    anchor: Option<Span>,
)
    requires
        frame.separator == PendingSeparator::Nothing,
    ensures
        ({
            let after = with_flattened_all(frame, nodes, anchor);
            &&& so_far(after) == so_far(frame) + rendered_all(nodes)
            &&& after.separator == PendingSeparator::Nothing
            &&& after.kind == frame.kind
        }),
    decreases nodes.len(),
{
    if nodes.len() == 0 {
        assert(so_far(frame) + rendered_all(nodes) =~= so_far(frame));
    } else {
        let before = with_flattened_all(frame, nodes.drop_last(), anchor);
        flattened_nodes_show(frame, nodes.drop_last(), anchor);
        let node = nodes.last();
        assert(nodes =~= nodes.drop_last() + seq![node]);
        nodes_show_their_text(nodes.drop_last(), seq![node], node);
        nodes_show_their_text(Seq::empty(), Seq::empty(), node);
        assert(rendered_all(seq![node]) =~= rendered(node));
        match node.shape {
            ShapeView::Text(text) => {
                assert(rendered(node) == text);
                assert(rendered_all(nodes) =~= rendered_all(nodes.drop_last()) + text);
                if text.len() == 0 {
                    assert(rendered_all(nodes) =~= rendered_all(nodes.drop_last()));
                } else {
                    assert(with_flattened(before, node, anchor).nodes == before.nodes);
                    assert(with_flattened(before, node, anchor).text == before.text + text);
                }
                let shown = rendered_all(nodes.drop_last());
                assert(before.text + text =~= with_flattened(before, node, anchor).text);
                assert(with_flattened(before, node, anchor).nodes == before.nodes);
                assert(so_far(with_flattened(before, node, anchor)) =~= so_far(before) + text);
                assert(so_far(frame) + shown + text =~= so_far(frame) + (shown + text));
            },
            _ => {
                super::markdown_shapes::flushing_keeps_text(with_separator(before, anchor));
                let placed = with_flattened(before, node, anchor);
                let kept = crate::markdown_conversion::frame::flushed(
                    with_separator(before, anchor),
                );
                assert(placed.nodes =~= kept.nodes + seq![node]);
                nodes_show_their_text(kept.nodes, seq![node], node);
                assert(so_far(placed) =~= so_far(frame) + rendered_all(nodes));
            },
        }
    }
}

/// An inline R expression with a substitution shows the nodes of the substitution, behind what
/// its construct shows. Nothing is reported.
pub proof fn substitutions_are_shown(
    setting: Setting,
    state: ConverterView,
    expression: Seq<char>,
    lookup: spec_fn(Seq<char>) -> Option<Seq<NodeView>>,
    nodes: Seq<NodeView>,
    start: usize,
    end: usize,
)
    requires
        state.frames.len() > 0,
        state.frames.last().separator == PendingSeparator::Nothing,
        !crosses_lines(setting.source.text@, start, end),
        setting.context.inline_r == Some(lookup),
        lookup(expression) == Some(nodes),
    ensures
        ({
            let code = seq!['r', ' '] + expression;
            let after = after_plain_event(setting, state, MarkdownEventView::Code(code), start, end);
            &&& after.frames.len() == state.frames.len()
            &&& after.frames.drop_last() == state.frames.drop_last()
            &&& after.diagnostics == state.diagnostics
            &&& so_far(after.frames.last()) == so_far(state.frames.last()) + rendered_all(
                spread_all(nodes, spans_of(setting.source, start, end)),
            )
        }),
{
    reveal(after_plain_event);
    reveal(after_expression);
    reveal_strlit("r ");
    assert("r "@ =~= seq!['r', ' ']);
    let code = seq!['r', ' '] + expression;
    assert(code.take(2) =~= seq!['r', ' ']);
    assert("r "@.is_prefix_of(code));
    assert(code.skip(2) =~= expression);
    let spans = spans_of(setting.source, start, end);
    flattened_nodes_show(
        state.frames.last(),
        spread_all(nodes, spans),
        anchor_of(setting.source, start),
    );
    let after = after_plain_event(setting, state, MarkdownEventView::Code(code), start, end);
    assert(after.frames.drop_last() =~= state.frames.drop_last());
}

/// The nodes of a substitution keep their shapes and their order, and all have the place of the
/// expression.
pub proof fn substituted_nodes_keep_their_shapes(nodes: Seq<NodeView>, spans: Seq<Span>, i: int)
    requires
        0 <= i < nodes.len(),
    ensures
        spread_all(nodes, spans).len() == nodes.len(),
        spread_all(nodes, spans)[i].spans == spans,
        match nodes[i] {
            NodeView::Text(text) => spread_all(nodes, spans)[i].shape == ShapeView::Text(text),
            NodeView::RCode(text) => spread_all(nodes, spans)[i].shape == ShapeView::RCode(text),
            NodeView::Verb(text) => spread_all(nodes, spans)[i].shape == ShapeView::Verb(text),
            NodeView::Comment(text) => spread_all(nodes, spans)[i].shape == ShapeView::Comment(
                text,
            ),
            NodeView::Group(children) => spread_all(nodes, spans)[i].shape == ShapeView::Group(
                spread_all(children, spans),
            ),
            NodeView::Tagged { tag, option, children } => spread_all(nodes, spans)[i].shape
                == (ShapeView::Tagged { tag, option, children: spread_all(children, spans) }),
            NodeView::Raw { tag, opaque, option, children } => spread_all(nodes, spans)[i].shape
                == (ShapeView::Raw { tag, opaque, option, children }),
        },
    decreases nodes.len(),
{
    spread_keeps_length(nodes, spans);
    spread_keeps_length(nodes.drop_last(), spans);
    if i < nodes.len() - 1 {
        substituted_nodes_keep_their_shapes(nodes.drop_last(), spans, i);
        assert(nodes.drop_last()[i] == nodes[i]);
    } else {
        assert(nodes.last() == nodes[i]);
        assert(spread_all(nodes, spans)[i] == spread(nodes[i], spans));
    }
}

proof fn spread_keeps_length(nodes: Seq<NodeView>, spans: Seq<Span>)
    ensures
        spread_all(nodes, spans).len() == nodes.len(),
    decreases nodes.len(),
{
    if nodes.len() > 0 {
        spread_keeps_length(nodes.drop_last(), spans);
    }
}

/// An inline R expression that cannot be replaced stays as verbatim code, and one report says
/// why, at the place of the code: no substitution for it is an error; several lines, or no
/// session, are not supported.
pub proof fn missing_substitutions_are_reported(
    setting: Setting,
    state: ConverterView,
    expression: Seq<char>,
    start: usize,
    end: usize,
)
    requires
        state.frames.len() > 0,
        spans_of(setting.source, start, end).len() > 0,
    ensures
        ({
            let code = seq!['r', ' '] + expression;
            let after = after_plain_event(setting, state, MarkdownEventView::Code(code), start, end);
            let spans = spans_of(setting.source, start, end);
            let lines = crosses_lines(setting.source.text@, start, end);
            let report = after.diagnostics.last();
            let node = macro_node(
                RdMacro::Verb,
                seq![OriginView { shape: ShapeView::Verb(code), spans }],
                spans,
            );
            let missing = setting.context.inline_r is Some && (setting.context.inline_r->0)(
                expression,
            ) is None;
            &&& lines || missing || setting.context.inline_r is None ==> {
                &&& after.frames.len() == state.frames.len()
                &&& after.frames.last().nodes.len() > 0
                &&& after.frames.last().nodes.last() == node
                &&& after.diagnostics.len() == state.diagnostics.len() + 1
                &&& after.diagnostics.drop_last() == state.diagnostics
                &&& report.primary.span == spans[0]
            }
            &&& lines || setting.context.inline_r is None ==> report.code
                == DiagnosticCode::UnsupportedInlineR
            &&& !lines && missing ==> report.code == DiagnosticCode::UndefinedInlineRSubstitution
                && report.severity == Severity::Error
        }),
{
    reveal(after_plain_event);
    reveal(after_expression);
    reveal_strlit("r ");
    assert("r "@ =~= seq!['r', ' ']);
    let code = seq!['r', ' '] + expression;
    assert(code.take(2) =~= seq!['r', ' ']);
    assert("r "@.is_prefix_of(code));
    assert(code.skip(2) =~= expression);
    let source = setting.source;
    let spans = spans_of(source, start, end);
    let verbatim = code_node(code, CodeForm::Verbatim, spans);
    reports_are_single(source, start, end);
    let lines = multiline_report(source, start, end);
    let undefined = undefined_report(source, start, end);
    let evaluation = evaluation_report(source, start, end);
    nodes_are_placed(source, state.with_reports(lines), verbatim, start);
    nodes_are_placed(source, state.with_reports(undefined), verbatim, start);
    nodes_are_placed(source, state.with_reports(evaluation), verbatim, start);
    assert((state.diagnostics + lines).drop_last() =~= state.diagnostics);
    assert((state.diagnostics + undefined).drop_last() =~= state.diagnostics);
    assert((state.diagnostics + evaluation).drop_last() =~= state.diagnostics);
}

proof fn parts_keep_the_rest(
    diagnostic: crate::diagnostic::DiagnosticView,
    spans: Seq<Span>,
    from: int,
    message: Seq<char>,
)
    ensures
        ({
            let after = with_parts(diagnostic, spans, from, message);
            &&& after.code == diagnostic.code
            &&& after.severity == diagnostic.severity
            &&& after.primary == diagnostic.primary
            &&& after.message == diagnostic.message
            &&& 0 <= from <= spans.len() ==> after.secondary.len() == diagnostic.secondary.len()
                + spans.len() - from
        }),
    decreases spans.len() - from,
{
    if 0 <= from < spans.len() {
        parts_keep_the_rest(
            diagnostic.and_label(
                crate::diagnostic::LabelView { span: spans[from], message },
            ),
            spans,
            from + 1,
            message,
        );
    }
}

proof fn reports_are_single(source: SourcedText, start: usize, end: usize)
    requires
        spans_of(source, start, end).len() > 0,
    ensures
        multiline_report(source, start, end).len() == 1,
        multiline_report(source, start, end)[0].code == DiagnosticCode::UnsupportedInlineR,
        multiline_report(source, start, end)[0].primary.span == spans_of(source, start, end)[0],
        evaluation_report(source, start, end).len() == 1,
        evaluation_report(source, start, end)[0].code == DiagnosticCode::UnsupportedInlineR,
        evaluation_report(source, start, end)[0].primary.span == spans_of(source, start, end)[0],
        undefined_report(source, start, end).len() == 1,
{
    code_reports_stand_at_their_place(
        source,
        DiagnosticCode::UnsupportedInlineR,
        "multi-line inline R code is not supported"@,
        "unsupported inline R code"@,
        start,
        end,
    );
    code_reports_stand_at_their_place(
        source,
        DiagnosticCode::UnsupportedInlineR,
        "unsupported inline R code: evaluation is not supported"@,
        "unsupported inline R code"@,
        start,
        end,
    );
}

/// What is reported over a byte range stands at its first source span, and names each other span
/// as a part. A range without source is not reported.
pub proof fn code_reports_stand_at_their_place(
    source: SourcedText,
    code: DiagnosticCode,
    message: Seq<char>,
    label: Seq<char>,
    start: usize,
    end: usize,
)
    ensures
        ({
            let spans = spans_of(source, start, end);
            let reports = code_report(source, code, message, label, start, end);
            &&& spans.len() == 0 ==> reports.len() == 0
            &&& spans.len() > 0 ==> {
                &&& reports.len() == 1
                &&& reports[0].code == code
                &&& reports[0].message == message
                &&& reports[0].primary.span == spans[0]
                &&& reports[0].primary.message == label
                &&& reports[0].secondary.len() == spans.len() - 1
            }
        }),
{
    let spans = spans_of(source, start, end);
    if spans.len() > 0 {
        parts_keep_the_rest(
            crate::diagnostic::plain_diagnostic(
                crate::diagnostic::severity_of(code),
                code,
                message,
                crate::diagnostic::LabelView { span: spans[0], message: label },
            ),
            spans,
            1,
            "part of this Markdown construct"@,
        );
    }
}

/// A raw macro within a text event stands between the text before it and the text behind it.
pub proof fn macros_stand_within_text(
    setting: Setting,
    state: ConverterView,
    text: Seq<char>,
    start: usize,
    end: usize,
    before: Seq<char>,
    behind: Seq<char>,
)
    requires
        state.frames.len() > 0,
        state.next_macro == 0,
        setting.macros.len() == 1,
        start < setting.macros[0].source.start < setting.macros[0].source.end < end,
        byte_slice(text, 0, setting.macros[0].source.start - start) == Some(before),
        byte_slice(text, setting.macros[0].source.end - start, end - start) == Some(behind),
        before.len() > 0,
        behind.len() > 0,
    ensures
        ({
            let after = after_plain_event(setting, state, MarkdownEventView::Text(text), start, end);
            let frame = state.frames.last();
            let node = raw_node(setting.source, setting.macros[0]);
            &&& after.frames.len() == state.frames.len()
            &&& after.frames.drop_last() == state.frames.drop_last()
            &&& after.diagnostics == state.diagnostics
            &&& so_far(after.frames.last()) == so_far(frame) + gap(frame) + before + rendered(node)
                + behind
        }),
{
    reveal(after_plain_event);
    reveal(after_slice);
    let event = ByteRange { start, end };
    let raw = setting.macros[0];
    let node = raw_node(setting.source, raw);
    assert(advanced(setting.macros, 0, start) == 0);
    let here = state.with_next(0);
    literal_text_is_shown(setting.source, here, before, start, raw.source.start);
    let first = after_slice(setting.source, here, text, event, start, raw.source.start);
    nodes_are_placed(setting.source, first, node, raw.source.start);
    let placed = crate::markdown_conversion::convert::after_node(
        setting.source,
        first,
        node,
        raw.source.start,
    ).with_next(1);
    assert(advanced(setting.macros, 1, raw.source.end) == 1);
    let last = placed.with_next(1);
    literal_text_is_shown(setting.source, last, behind, raw.source.end, end);
    let after = after_plain_event(setting, state, MarkdownEventView::Text(text), start, end);
    assert(after_text_from(setting, placed, text, event, raw.source.end) == after_slice(
        setting.source,
        last,
        text,
        event,
        raw.source.end,
        end,
    ));
    reveal(crate::markdown_conversion::convert::after_literal);
    reveal(crate::markdown_conversion::convert::after_node);
    assert(so_far(after.frames.last()) =~= so_far(state.frames.last()) + gap(state.frames.last())
        + before + rendered(node) + behind);
}

/// Markup that lies in a raw macro, and is not all of it, changes nothing: the macro stands for
/// it.
pub proof fn markup_in_macros_is_left_out(
    setting: Setting,
    state: ConverterView,
    event: SourcedEventView,
)
    requires
        0 <= state.next_macro < setting.macros.len(),
        setting.macros[state.next_macro].source.start <= event.start,
        event.start < setting.macros[state.next_macro].source.end,
        event.end <= setting.macros[state.next_macro].source.end,
        event.start != setting.macros[state.next_macro].source.start || event.end
            != setting.macros[state.next_macro].source.end,
        event.event is Start || event.event is End || event.event is SoftBreak || event.event
            is HardBreak || event.event is InlineHtml,
    ensures
        after_event(setting, state, event) == state,
{
}

} // verus!
