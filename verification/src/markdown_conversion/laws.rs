//! What holds of every conversion.
use crate::diagnostic::DiagnosticView;
use crate::tags::SourcedText;
use vstd::prelude::*;

use super::context::ContextView;
use super::convert::{
    advanced_is_further, after_code, after_end, after_events, after_expression, after_heading,
    after_literal, after_node, after_opening, after_plain_event, after_section, after_sections,
    after_slice, after_start, after_text_from, in_section_from, outcome, starts_section,
    ConverterView, Setting,
};
use super::events::{MarkdownEventView, MarkdownTagView, SourcedEventView, TagKind};
use super::finish::finish_of;
use super::fragment::{
    child_path, fragment_of, node_origins, sibling_origins, FragmentOriginView,
    FragmentPathSegment,
};
use super::frame::{empty_frame, FrameKindView};
use super::origin::{bare_all_index, OriginView};
use super::raw_rd::prepare::{advanced, prepared, RawRdMacroView};
use super::raw_rd::scan::ByteRange;
use super::separator::{stronger, PendingSeparator};
use super::{conversion_of, raw_reports, text_end};

verus! {

/// A state with reports before its own.
pub open spec fn behind(reports: Seq<DiagnosticView>, state: ConverterView) -> ConverterView {
    ConverterView { diagnostics: reports + state.diagnostics, ..state }
}

proof fn behind_reports(
    reports: Seq<DiagnosticView>,
    state: ConverterView,
    more: Seq<DiagnosticView>,
)
    ensures
        behind(reports, state).with_reports(more) == behind(reports, state.with_reports(more)),
{
    assert((reports + state.diagnostics) + more =~= reports + (state.diagnostics + more));
}

proof fn literal_behind(
    reports: Seq<DiagnosticView>,
    source: SourcedText,
    state: ConverterView,
    text: Seq<char>,
    start: usize,
    end: usize,
)
    ensures
        after_literal(source, behind(reports, state), text, start, end) == behind(
            reports,
            after_literal(source, state, text, start, end),
        ),
{
    reveal(after_literal);
}

proof fn slice_behind(
    reports: Seq<DiagnosticView>,
    source: SourcedText,
    state: ConverterView,
    text: Seq<char>,
    event: ByteRange,
    from: usize,
    to: usize,
)
    ensures
        after_slice(source, behind(reports, state), text, event, from, to) == behind(
            reports,
            after_slice(source, state, text, event, from, to),
        ),
{
    reveal(after_slice);
    reveal(after_literal);
}

proof fn node_behind(
    reports: Seq<DiagnosticView>,
    source: SourcedText,
    state: ConverterView,
    node: OriginView,
    offset: usize,
)
    ensures
        after_node(source, behind(reports, state), node, offset) == behind(
            reports,
            after_node(source, state, node, offset),
        ),
{
    reveal(after_node);
}

proof fn text_behind(
    reports: Seq<DiagnosticView>,
    setting: Setting,
    state: ConverterView,
    text: Seq<char>,
    event: ByteRange,
    from: usize,
)
    ensures
        after_text_from(setting, behind(reports, state), text, event, from) == behind(
            reports,
            after_text_from(setting, state, text, event, from),
        ),
    decreases setting.macros.len() - advanced(setting.macros, state.next_macro, from),
{
    let next = advanced(setting.macros, state.next_macro, from);
    let here = state.with_next(next);
    assert(behind(reports, state).with_next(next) == behind(reports, here));
    if next < 0 || next >= setting.macros.len() || setting.macros[next].source.start >= event.end {
        slice_behind(reports, setting.source, here, text, event, from, event.end);
    } else {
        let raw = setting.macros[next];
        advanced_is_further(setting.macros, next + 1, raw.source.end);
        if raw.source.start < event.start {
            if raw.source.end < event.end {
                let onward = here.with_next(next + 1);
                assert(behind(reports, here).with_next(next + 1) == behind(reports, onward));
                text_behind(reports, setting, onward, text, event, raw.source.end);
            }
        } else {
            let before = if from < raw.source.start {
                after_slice(setting.source, here, text, event, from, raw.source.start)
            } else {
                here
            };
            if from < raw.source.start {
                slice_behind(reports, setting.source, here, text, event, from, raw.source.start);
            }
            let node = super::raw_rd::prepare::raw_node(setting.source, raw);
            node_behind(reports, setting.source, before, node, raw.source.start);
            let placed = after_node(setting.source, before, node, raw.source.start);
            if raw.source.end <= event.end {
                let onward = placed.with_next(next + 1);
                assert(behind(reports, placed).with_next(next + 1) == behind(reports, onward));
                text_behind(reports, setting, onward, text, event, raw.source.end);
            }
        }
    }
}

proof fn code_behind(
    reports: Seq<DiagnosticView>,
    setting: Setting,
    state: ConverterView,
    code: Seq<char>,
    start: usize,
    end: usize,
)
    ensures
        after_code(setting, behind(reports, state), code, start, end) == behind(
            reports,
            after_code(setting, state, code, start, end),
        ),
{
    reveal(after_expression);
    let source = setting.source;
    let multi = super::unsupported::multiline_report(source, start, end);
    let undefined = super::unsupported::undefined_report(source, start, end);
    let evaluation = super::unsupported::evaluation_report(source, start, end);
    let none = Seq::<DiagnosticView>::empty();
    behind_reports(reports, state, multi);
    behind_reports(reports, state, undefined);
    behind_reports(reports, state, evaluation);
    behind_reports(reports, state, none);
    let spans = super::position::spans_of(source, start, end);
    let verbatim = super::convert::code_node(code, super::code::CodeForm::Verbatim, spans);
    let formed = super::convert::code_node(code, super::code::code_form(code), spans);
    node_behind(reports, source, state.with_reports(multi), verbatim, start);
    node_behind(reports, source, state.with_reports(undefined), verbatim, start);
    node_behind(reports, source, state.with_reports(evaluation), verbatim, start);
    node_behind(reports, source, state.with_reports(evaluation), formed, start);
    node_behind(reports, source, state.with_reports(none), formed, start);
}

proof fn section_behind(
    reports: Seq<DiagnosticView>,
    setting: Setting,
    state: ConverterView,
    end: usize,
)
    ensures
        after_section(setting, behind(reports, state), end) == behind(
            reports,
            after_section(setting, state, end),
        ),
{
    reveal(after_section);
    let finish = finish_of(setting.source, setting.context, state.frames.last(), end);
    let outer = ConverterView { frames: state.frames.drop_last(), ..state };
    behind_reports(reports, outer, finish.diagnostics);
}

proof fn sections_behind(
    reports: Seq<DiagnosticView>,
    setting: Setting,
    state: ConverterView,
    level: usize,
    end: usize,
)
    ensures
        after_sections(setting, behind(reports, state), level, end) == behind(
            reports,
            after_sections(setting, state, level, end),
        ),
    decreases state.frames.len(),
{
    if in_section_from(state.frames, level) {
        let closed = after_section(setting, state, end);
        section_behind(reports, setting, state, end);
        if closed.frames.len() < state.frames.len() {
            sections_behind(reports, setting, closed, level, end);
        }
    }
}

proof fn start_behind(
    reports: Seq<DiagnosticView>,
    setting: Setting,
    state: ConverterView,
    tag: MarkdownTagView,
    start: usize,
    end: usize,
)
    ensures
        after_start(setting, behind(reports, state), tag, start, end) == behind(
            reports,
            after_start(setting, state, tag, start, end),
        ),
{
    if starts_section(tag, state.frames) {
        reveal(after_heading);
        sections_behind(reports, setting, state, tag->Heading_0 as usize, start);
    } else {
        reveal(after_opening);
        let source = setting.source;
        let anchor = super::position::anchor_of(source, start);
        let kind = super::events::kind_of(tag);
        let parent = super::convert::frame_before_nested(
            super::convert::frame_before_block(state.frames.last(), kind, anchor),
            kind,
        );
        let ready = state.with_last(parent);
        assert(behind(reports, state).with_last(parent) == behind(reports, ready));
        let item = super::origin::tagged(
            crate::rd::RdMacro::Item,
            Seq::empty(),
            super::position::spans_of(source, start, end),
        );
        node_behind(reports, source, ready, item, start);
        behind_reports(
            reports,
            ready,
            super::convert::opening_report(source, tag, start, end),
        );
    }
}

proof fn end_behind(
    reports: Seq<DiagnosticView>,
    setting: Setting,
    state: ConverterView,
    kind: TagKind,
    start: usize,
    end: usize,
)
    ensures
        after_end(setting, behind(reports, state), kind, start, end) == behind(
            reports,
            after_end(setting, state, kind, start, end),
        ),
{
    reveal(after_end);
    if state.frames.len() > 1 {
        let frame = state.frames.last();
        let finish = finish_of(setting.source, setting.context, frame, end);
        let popped = ConverterView { frames: state.frames.drop_last(), ..state };
        behind_reports(reports, popped, finish.diagnostics);
        let outer = popped.with_reports(finish.diagnostics);
        behind_reports(
            reports,
            outer,
            super::convert::closing_report(setting.source, outer.frames, frame.kind, end),
        );
    }
}

proof fn plain_event_behind(
    reports: Seq<DiagnosticView>,
    setting: Setting,
    state: ConverterView,
    event: MarkdownEventView,
    start: usize,
    end: usize,
)
    ensures
        after_plain_event(setting, behind(reports, state), event, start, end) == behind(
            reports,
            after_plain_event(setting, state, event, start, end),
        ),
{
    reveal(after_plain_event);
    let source = setting.source;
    let range = ByteRange { start, end };
    match event {
        MarkdownEventView::Start(tag) => start_behind(reports, setting, state, tag, start, end),
        MarkdownEventView::End(kind) => end_behind(reports, setting, state, kind, start, end),
        MarkdownEventView::SoftBreak | MarkdownEventView::HardBreak => text_behind(
            reports,
            setting,
            state,
            seq!['\n'],
            range,
            start,
        ),
        MarkdownEventView::InlineMath(text)
        | MarkdownEventView::DisplayMath(text)
        | MarkdownEventView::FootnoteReference(text) => {
            let more = super::unsupported::construct_report(
                source,
                "inline Markdown construct"@,
                start,
                end,
            );
            behind_reports(reports, state, more);
            literal_behind(reports, source, state.with_reports(more), text, start, end);
        },
        MarkdownEventView::Html(text) | MarkdownEventView::InlineHtml(text) => {
            let more = super::unsupported::construct_report(source, "raw HTML"@, start, end);
            behind_reports(reports, state, more);
            literal_behind(reports, source, state.with_reports(more), text, start, end);
            literal_behind(reports, source, state, text, start, end);
        },
        MarkdownEventView::TaskListMarker | MarkdownEventView::Rule => {
            let more = super::unsupported::construct_report(
                source,
                "Markdown construct"@,
                start,
                end,
            );
            behind_reports(reports, state, more);
        },
        MarkdownEventView::Text(text) => text_behind(reports, setting, state, text, range, start),
        MarkdownEventView::Code(code) => code_behind(reports, setting, state, code, start, end),
    }
}

proof fn events_behind(
    reports: Seq<DiagnosticView>,
    setting: Setting,
    state: ConverterView,
    events: Seq<SourcedEventView>,
)
    ensures
        after_events(setting, behind(reports, state), events) == behind(
            reports,
            after_events(setting, state, events),
        ),
    decreases events.len(),
{
    if events.len() > 0 {
        events_behind(reports, setting, state, events.drop_last());
        let before = after_events(setting, state, events.drop_last());
        let event = events.last();
        let ready = super::convert::caught_up(setting, before, event.start);
        assert(super::convert::caught_up(setting, behind(reports, before), event.start) == behind(
            reports,
            ready,
        ));
        plain_event_behind(reports, setting, before, event.event, event.start, event.end);
        plain_event_behind(reports, setting, ready, event.event, event.start, event.end);
    }
}

/// What was reported before a conversion changes none of its nodes, and stands
/// before what the conversion reports.
pub proof fn earlier_reports_change_nothing(
    setting: Setting,
    reports: Seq<DiagnosticView>,
    events: Seq<SourcedEventView>,
)
    ensures
        outcome(setting, reports, events).0 == outcome(setting, Seq::empty(), events).0,
        outcome(setting, reports, events).1 == reports + outcome(
            setting,
            Seq::empty(),
            events,
        ).1,
{
    reveal(outcome);
    let end = text_end(setting.source);
    let start = ConverterView {
        frames: seq![empty_frame(FrameKindView::Root)],
        diagnostics: Seq::empty(),
        next_macro: 0,
    };
    let given = ConverterView {
        frames: seq![empty_frame(FrameKindView::Root)],
        diagnostics: reports,
        next_macro: 0,
    };
    assert(reports + Seq::<DiagnosticView>::empty() =~= reports);
    assert(given == behind(reports, start));
    events_behind(reports, setting, start, events);
    let last = after_events(setting, start, events);
    sections_behind(reports, setting, last, 0, end);
    let closed = after_sections(setting, last, 0, end);
    let finish = finish_of(setting.source, setting.context, closed.frames.last(), end);
    assert((reports + closed.diagnostics) + finish.diagnostics =~= reports + (closed.diagnostics
        + finish.diagnostics));
}

/// A text whose raw macros are all refused converts as if they were literal
/// text; the refusals are reported before everything else.
pub proof fn refused_macros_stay_literal(
    source: SourcedText,
    context: ContextView,
    events: Seq<SourcedEventView>,
)
    requires
        prepared(source.text@, events).macros.len() == 0,
    ensures
        conversion_of(source, context, events, true).fragment == conversion_of(
            source,
            context,
            events,
            false,
        ).fragment,
        conversion_of(source, context, events, true).diagnostics == raw_reports(
            source,
            prepared(source.text@, events).unsupported,
            prepared(source.text@, events).unsupported.len() as int,
        ) + conversion_of(source, context, events, false).diagnostics,
{
    let raw = prepared(source.text@, events);
    assert(raw.macros =~= Seq::<RawRdMacroView>::empty());
    let setting = Setting { source, context, macros: Seq::empty() };
    earlier_reports_change_nothing(
        setting,
        raw_reports(source, raw.unsupported, raw.unsupported.len() as int),
        events,
    );
}

proof fn sibling_origins_hold(nodes: Seq<OriginView>, count: int, path: Seq<FragmentPathSegment>, at: int)
    requires
        0 <= at < count <= nodes.len(),
    ensures
        sibling_origins(nodes, count, path).contains(
            FragmentOriginView { path: child_path(path, at), spans: nodes[at].spans },
        ),
    decreases count,
{
    let entry = FragmentOriginView { path: child_path(path, at), spans: nodes[at].spans };
    let before = sibling_origins(nodes, count - 1, path);
    let last = node_origins(nodes[count - 1], child_path(path, count - 1));
    let all = sibling_origins(nodes, count, path);
    assert(all == before + last);
    if at == count - 1 {
        assert(last[0] == entry);
        assert(all[before.len() as int] == entry);
    } else {
        sibling_origins_hold(nodes, count - 1, path, at);
        let k = choose|k: int| 0 <= k < before.len() && before[k] == entry;
        assert(all[k] == entry);
    }
}

/// A fragment has one node for each converted node, and for each of them an
/// origin at its place, with its spans.
pub proof fn fragments_keep_places(nodes: Seq<OriginView>, at: int)
    requires
        0 <= at < nodes.len(),
    ensures
        fragment_of(nodes).nodes.len() == nodes.len(),
        fragment_of(nodes).nodes[at] == super::origin::bare(nodes[at]),
        fragment_of(nodes).origins.contains(
            FragmentOriginView {
                path: seq![FragmentPathSegment::Child(at as usize)],
                spans: nodes[at].spans,
            },
        ),
{
    bare_all_index(nodes);
    sibling_origins_hold(nodes, nodes.len() as int, Seq::empty(), at);
    assert(child_path(Seq::empty(), at) =~= seq![FragmentPathSegment::Child(at as usize)]);
}

/// Of several separators the strongest stays, in whatever order they come.
pub proof fn separators_join(a: PendingSeparator, b: PendingSeparator, c: PendingSeparator)
    ensures
        stronger(a, a) == a,
        stronger(a, b) == stronger(b, a),
        stronger(stronger(a, b), c) == stronger(a, stronger(b, c)),
        stronger(a, PendingSeparator::Nothing) == a,
{
}

} // verus!
