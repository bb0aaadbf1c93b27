//! Balanced events close every construct that they open.
use crate::source::Span;
use crate::tags::SourcedText;
use vstd::prelude::*;

use super::convert::{
    after_code, after_end, after_event, after_events, after_expression, after_heading,
    after_literal, after_node, after_opening, after_plain_event, after_section, after_sections,
    after_slice, after_start, after_text, frame_with_finished, in_section_from, starts_section,
    ConverterView, Setting,
};
use super::events::{MarkdownEventView, MarkdownTagView, SourcedEventView, TagKind};
use super::finish::{finish_of, FinishedView};
use super::frame::{FrameKindView, FrameView};
use super::origin::OriginView;
use super::raw_rd::prepare::advanced;
use super::raw_rd::scan::ByteRange;
use super::separator::with_flattened_all;

verus! {

/// What an event does to the number of open constructs.
pub open spec fn depth_change(event: MarkdownEventView) -> int {
    match event {
        MarkdownEventView::Start(_) => 1,
        MarkdownEventView::End(_) => -1,
        _ => 0,
    }
}

/// The number of constructs that are open after the first `count` events.
pub open spec fn open_count(events: Seq<SourcedEventView>, count: int) -> int
    decreases count,
{
    if count <= 0 {
        0
    } else {
        open_count(events, count - 1) + depth_change(events[count - 1].event)
    }
}

/// Whether every closing has its opening, and every opening its closing.
pub open spec fn balanced(events: Seq<SourcedEventView>) -> bool {
    (forall|count: int|
        0 <= count <= events.len() ==> #[trigger] open_count(events, count) >= 0) && open_count(
        events,
        events.len() as int,
    ) == 0
}

/// What a frame is to the frames around it.
enum FrameClass {
    Root,
    Section,
    Heading,
    Construct,
}

spec fn class_of(kind: FrameKindView) -> FrameClass {
    match kind {
        FrameKindView::Root => FrameClass::Root,
        FrameKindView::Subsection { .. } => FrameClass::Section,
        FrameKindView::Heading { .. } => FrameClass::Heading,
        _ => FrameClass::Construct,
    }
}

/// Frames are the root, then sections, then open constructs, of which only the
/// outermost may be a heading.
spec fn stacked(frames: Seq<FrameView>, sections: int, open: int) -> bool {
    &&& sections >= 0
    &&& open >= 0
    &&& frames.len() == 1 + sections + open
    &&& class_of(frames[0].kind) == FrameClass::Root
    &&& forall|i: int|
        1 <= i <= sections ==> class_of((#[trigger] frames[i]).kind) == FrameClass::Section
    &&& forall|i: int|
        sections < i < frames.len() ==> class_of((#[trigger] frames[i]).kind)
            == FrameClass::Construct || (i == sections + 1 && class_of(frames[i].kind)
            == FrameClass::Heading)
}

/// Whether two states have frames of the same classes.
spec fn alike(a: ConverterView, b: ConverterView) -> bool {
    &&& a.frames.len() == b.frames.len()
    &&& forall|i: int|
        0 <= i < a.frames.len() ==> class_of((#[trigger] a.frames[i]).kind) == class_of(
            b.frames[i].kind,
        )
}

proof fn alike_stacks(a: ConverterView, b: ConverterView, sections: int, open: int)
    requires
        alike(a, b),
        stacked(a.frames, sections, open),
    ensures
        stacked(b.frames, sections, open),
{
    assert(class_of(a.frames[0].kind) == class_of(b.frames[0].kind));
    assert forall|i: int| 1 <= i <= sections implies class_of((#[trigger] b.frames[i]).kind)
        == FrameClass::Section by {
        assert(class_of(a.frames[i].kind) == FrameClass::Section);
    }
    assert forall|i: int| sections < i < b.frames.len() implies class_of(
        (#[trigger] b.frames[i]).kind,
    ) == FrameClass::Construct || (i == sections + 1 && class_of(b.frames[i].kind)
        == FrameClass::Heading) by {
        assert(class_of(a.frames[i].kind) == class_of(b.frames[i].kind));
    }
}

proof fn same_last_is_alike(state: ConverterView, frame: FrameView)
    requires
        state.frames.len() > 0,
        class_of(frame.kind) == class_of(state.frames.last().kind),
    ensures
        alike(state, state.with_last(frame)),
{
}

proof fn flattening_keeps_kind(frame: FrameView, nodes: Seq<OriginView>, anchor: Option<Span>)
    ensures
        with_flattened_all(frame, nodes, anchor).kind == frame.kind,
    decreases nodes.len(),
{
    if nodes.len() > 0 {
        flattening_keeps_kind(frame, nodes.drop_last(), anchor);
    }
}

proof fn literal_is_alike(
    source: SourcedText,
    state: ConverterView,
    text: Seq<char>,
    start: usize,
    end: usize,
)
    requires
        state.frames.len() > 0,
    ensures
        alike(state, after_literal(source, state, text, start, end)),
{
    reveal(after_literal);
}

proof fn node_is_alike(
    source: SourcedText,
    state: ConverterView,
    node: OriginView,
    offset: usize,
)
    requires
        state.frames.len() > 0,
    ensures
        alike(state, after_node(source, state, node, offset)),
{
    reveal(after_node);
}

proof fn text_is_alike(
    setting: Setting,
    state: ConverterView,
    text: Seq<char>,
    event: ByteRange,
)
    requires
        state.frames.len() > 0,
        setting.macros.len() == 0,
    ensures
        alike(state, after_text(setting, state, text, event)),
{
    reveal(after_slice);
    let here = state.with_next(advanced(setting.macros, state.next_macro, event.start));
    literal_is_alike(setting.source, here, text, event.start, event.end);
    if let Some(part) = crate::source::byte_slice(text, 0, event.end - event.start) {
        literal_is_alike(setting.source, here, part, event.start, event.end);
    }
}

proof fn code_is_alike(
    setting: Setting,
    state: ConverterView,
    code: Seq<char>,
    start: usize,
    end: usize,
)
    requires
        state.frames.len() > 0,
    ensures
        alike(state, after_code(setting, state, code, start, end)),
{
    reveal(after_expression);
    reveal(after_node);
    assert forall|nodes: Seq<OriginView>, anchor: Option<Span>|
        (#[trigger] with_flattened_all(state.frames.last(), nodes, anchor)).kind
            == state.frames.last().kind by {
        flattening_keeps_kind(state.frames.last(), nodes, anchor);
    }
}

proof fn section_closes(setting: Setting, state: ConverterView, end: usize, sections: int)
    requires
        stacked(state.frames, sections, 0),
        sections > 0,
    ensures
        stacked(after_section(setting, state, end).frames, sections - 1, 0),
{
    reveal(after_section);
    let outer = state.frames.drop_last();
    let finish = finish_of(setting.source, setting.context, state.frames.last(), end);
    let nodes = super::convert::finished_nodes(finish.finished);
    let anchor = super::position::anchor_of(setting.source, end);
    flattening_keeps_kind(outer.last(), nodes, anchor);
    let after = after_section(setting, state, end).frames;
    assert(after.len() == sections);
    assert forall|i: int| 0 <= i < after.len() implies class_of((#[trigger] after[i]).kind)
        == class_of(state.frames[i].kind) by {
        if i == after.len() - 1 {
            assert(outer.last() == state.frames[i]);
        } else {
            assert(after[i] == outer[i]);
        }
    }
    assert forall|i: int| 1 <= i <= sections - 1 implies class_of((#[trigger] after[i]).kind)
        == FrameClass::Section by {
        assert(class_of(state.frames[i].kind) == FrameClass::Section);
    }
}

proof fn sections_close(
    setting: Setting,
    state: ConverterView,
    level: usize,
    end: usize,
    sections: int,
) -> (left: int)
    requires
        stacked(state.frames, sections, 0),
    ensures
        stacked(after_sections(setting, state, level, end).frames, left, 0),
        level == 0 ==> left == 0,
    decreases sections,
{
    if in_section_from(state.frames, level) {
        let last = state.frames.len() - 1;
        assert(class_of(state.frames[last].kind) == FrameClass::Section);
        assert(sections > 0);
        section_closes(setting, state, end, sections);
        let closed = after_section(setting, state, end);
        sections_close(setting, closed, level, end, sections - 1)
    } else {
        if level == 0 && sections > 0 {
            assert(class_of(state.frames[sections].kind) == FrameClass::Section);
            assert(state.frames.last() == state.frames[sections]);
        }
        sections
    }
}

proof fn start_opens(
    setting: Setting,
    state: ConverterView,
    tag: MarkdownTagView,
    start: usize,
    end: usize,
    sections: int,
    open: int,
) -> (left: int)
    requires
        stacked(state.frames, sections, open),
    ensures
        stacked(after_start(setting, state, tag, start, end).frames, left, open + 1),
{
    let last = state.frames.len() - 1;
    if starts_section(tag, state.frames) {
        reveal(after_heading);
        let level = tag->Heading_0 as usize;
        if open > 0 {
            assert(class_of(state.frames[last].kind) == FrameClass::Construct || class_of(
                state.frames[last].kind,
            ) == FrameClass::Heading);
        }
        assert(open == 0);
        let left = sections_close(setting, state, level, start, sections);
        let outer = after_sections(setting, state, level, start);
        let parent = super::convert::frame_before_heading(
            outer.frames.last(),
            super::position::anchor_of(setting.source, start),
        );
        let ready = outer.with_last(parent);
        same_last_is_alike(outer, parent);
        alike_stacks(outer, ready, left, 0);
        let after = after_start(setting, state, tag, start, end).frames;
        assert(after == ready.frames.push(
            super::frame::empty_frame(FrameKindView::Heading { level, start }),
        ));
        assert forall|i: int| 1 <= i <= left implies class_of((#[trigger] after[i]).kind)
            == FrameClass::Section by {
            assert(after[i] == ready.frames[i]);
        }
        left
    } else {
        reveal(after_opening);
        reveal(after_node);
        let source = setting.source;
        let anchor = super::position::anchor_of(source, start);
        let kind = super::events::kind_of(tag);
        let parent = super::convert::frame_before_nested(
            super::convert::frame_before_block(state.frames.last(), kind, anchor),
            kind,
        );
        let ready = state.with_last(parent);
        same_last_is_alike(state, parent);
        alike_stacks(state, ready, sections, open);
        let item = super::origin::tagged(
            crate::rd::RdMacro::Item,
            Seq::empty(),
            super::position::spans_of(source, start, end),
        );
        node_is_alike(source, ready, item, start);
        alike_stacks(ready, after_node(source, ready, item, start), sections, open);
        let under = if kind == TagKind::Item {
            after_node(source, ready, item, start).frames
        } else {
            ready.frames
        };
        let after = after_start(setting, state, tag, start, end).frames;
        let top = after.last();
        assert(after =~= under.push(top));
        assert(class_of(top.kind) == FrameClass::Construct);
        assert forall|i: int| 1 <= i <= sections implies class_of((#[trigger] after[i]).kind)
            == FrameClass::Section by {
            assert(after[i] == under[i]);
        }
        assert forall|i: int| sections < i < after.len() implies class_of(
            (#[trigger] after[i]).kind,
        ) == FrameClass::Construct || (i == sections + 1 && class_of(after[i].kind)
            == FrameClass::Heading) by {
            if i < after.len() - 1 {
                assert(after[i] == under[i]);
            }
        }
        sections
    }
}

proof fn end_closes(
    setting: Setting,
    state: ConverterView,
    kind: TagKind,
    start: usize,
    end: usize,
    sections: int,
    open: int,
) -> (now: int)
    requires
        stacked(state.frames, sections, open),
        open > 0,
    ensures
        stacked(after_end(setting, state, kind, start, end).frames, now, open - 1),
{
    reveal(after_end);
    let last = state.frames.len() - 1;
    let frame = state.frames[last];
    let outer = state.frames.drop_last();
    let after = after_end(setting, state, kind, start, end).frames;
    let finish = finish_of(setting.source, setting.context, frame, end);
    if frame.kind is Heading {
        assert(class_of(frame.kind) == FrameClass::Heading);
        assert(open == 1);
        assert(after.drop_last() =~= outer);
        assert forall|i: int| 1 <= i <= sections + 1 implies class_of((#[trigger] after[i]).kind)
            == FrameClass::Section by {
            if i <= sections {
                assert(after[i] == state.frames[i]);
            }
        }
        sections + 1
    } else {
        let anchor = super::position::anchor_of(setting.source, start);
        if let FinishedView::Nodes(nodes) = finish.finished {
            flattening_keeps_kind(outer.last(), nodes, anchor);
        }
        let filled = frame_with_finished(outer.last(), finish.finished, anchor);
        assert(class_of(filled.kind) == class_of(outer.last().kind));
        assert(after.len() == outer.len());
        assert forall|i: int| 0 <= i < after.len() implies class_of((#[trigger] after[i]).kind)
            == class_of(state.frames[i].kind) by {
            if i == after.len() - 1 {
                assert(outer.last() == state.frames[i]);
                assert(after[i].kind == filled.kind);
            } else {
                assert(after[i] == outer[i]);
            }
        }
        assert forall|i: int| 1 <= i <= sections implies class_of((#[trigger] after[i]).kind)
            == FrameClass::Section by {
            assert(class_of(state.frames[i].kind) == FrameClass::Section);
        }
        assert forall|i: int| sections < i < after.len() implies class_of(
            (#[trigger] after[i]).kind,
        ) == FrameClass::Construct || (i == sections + 1 && class_of(after[i].kind)
            == FrameClass::Heading) by {
            assert(class_of(after[i].kind) == class_of(state.frames[i].kind));
        }
        sections
    }
}

proof fn event_stacks(
    setting: Setting,
    state: ConverterView,
    event: SourcedEventView,
    sections: int,
    open: int,
) -> (now: int)
    requires
        setting.macros.len() == 0,
        stacked(state.frames, sections, open),
        open + depth_change(event.event) >= 0,
    ensures
        stacked(
            after_event(setting, state, event).frames,
            now,
            open + depth_change(event.event),
        ),
{
    reveal(after_plain_event);
    let ready = super::convert::caught_up(setting, state, event.start);
    assert(ready.frames == state.frames);
    let source = setting.source;
    let range = ByteRange { start: event.start, end: event.end };
    let after = after_event(setting, state, event);
    match event.event {
        MarkdownEventView::Start(tag) => {
            start_opens(setting, ready, tag, event.start, event.end, sections, open)
        },
        MarkdownEventView::End(kind) => {
            end_closes(setting, ready, kind, event.start, event.end, sections, open)
        },
        MarkdownEventView::Text(text) => {
            text_is_alike(setting, state, text, range);
            alike_stacks(state, after, sections, open);
            sections
        },
        MarkdownEventView::SoftBreak | MarkdownEventView::HardBreak => {
            text_is_alike(setting, ready, seq!['\n'], range);
            alike_stacks(ready, after, sections, open);
            sections
        },
        MarkdownEventView::Code(code) => {
            code_is_alike(setting, state, code, event.start, event.end);
            alike_stacks(state, after, sections, open);
            sections
        },
        MarkdownEventView::InlineMath(text)
        | MarkdownEventView::DisplayMath(text)
        | MarkdownEventView::FootnoteReference(text) => {
            let more = super::unsupported::construct_report(
                source,
                "inline Markdown construct"@,
                event.start,
                event.end,
            );
            let noted = ready.with_reports(more);
            literal_is_alike(source, noted, text, event.start, event.end);
            alike_stacks(noted, after, sections, open);
            sections
        },
        MarkdownEventView::Html(text) | MarkdownEventView::InlineHtml(text) => {
            let more = super::unsupported::construct_report(
                source,
                "raw HTML"@,
                event.start,
                event.end,
            );
            let noted = if super::unsupported::in_unsupported(ready.frames, "HTML block"@) {
                ready
            } else {
                ready.with_reports(more)
            };
            literal_is_alike(source, noted, text, event.start, event.end);
            alike_stacks(noted, after, sections, open);
            sections
        },
        MarkdownEventView::TaskListMarker => sections,
        MarkdownEventView::Rule => {
            assert(alike(state, after));
            alike_stacks(state, after, sections, open);
            sections
        },
    }
}

proof fn events_stack(
    setting: Setting,
    state: ConverterView,
    events: Seq<SourcedEventView>,
    count: int,
) -> (now: int)
    requires
        setting.macros.len() == 0,
        stacked(state.frames, 0, 0),
        balanced(events),
        0 <= count <= events.len(),
    ensures
        stacked(
            after_events(setting, state, events.take(count)).frames,
            now,
            open_count(events, count),
        ),
    decreases count,
{
    let prefix = events.take(count);
    if count > 0 {
        let before = events_stack(setting, state, events, count - 1);
        assert(prefix.drop_last() =~= events.take(count - 1));
        assert(prefix.last() == events[count - 1]);
        assert(open_count(events, count) >= 0);
        event_stacks(
            setting,
            after_events(setting, state, events.take(count - 1)),
            events[count - 1],
            before,
            open_count(events, count - 1),
        )
    } else {
        assert(prefix =~= Seq::<SourcedEventView>::empty());
        0
    }
}

/// In a text without raw macros, balanced events never close more than they
/// opened, and behind the last one only the root is left open once all sections
/// have closed.
pub proof fn balanced_events_close_everything(
    setting: Setting,
    state: ConverterView,
    events: Seq<SourcedEventView>,
    end: usize,
)
    requires
        setting.macros.len() == 0,
        state.frames.len() == 1,
        state.frames[0].kind is Root,
        balanced(events),
    ensures
        forall|at: int|
            0 <= at < events.len() && (#[trigger] events[at]).event is End ==> after_events(
                setting,
                state,
                events.take(at),
            ).frames.len() > 1,
        after_sections(setting, after_events(setting, state, events), 0, end).frames.len() == 1,
        after_sections(
            setting,
            after_events(setting, state, events),
            0,
            end,
        ).frames[0].kind is Root,
{
    assert forall|at: int| 0 <= at < events.len() && (#[trigger] events[at]).event is End implies after_events(
        setting,
        state,
        events.take(at),
    ).frames.len() > 1 by {
        let now = events_stack(setting, state, events, at);
        assert(open_count(events, at + 1) >= 0);
    }
    let sections = events_stack(setting, state, events, events.len() as int);
    assert(events.take(events.len() as int) =~= events);
    let left = sections_close(
        setting,
        after_events(setting, state, events),
        0,
        end,
        sections,
    );
}

} // verus!
