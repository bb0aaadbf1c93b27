//! Which substitutions a text asks for.
use crate::tags::{MarkdownText, SourcedText};
use crate::text::{after_prefix, same_text, strip_prefix, texts};
use vstd::prelude::*;

use super::context::{ContextView, InlineRSession, InlineRSubstitution};
use super::convert::{
    advanced_is_further, after_end, after_events, after_expression, after_heading, after_node,
    after_opening, after_plain_event, after_section, after_sections, after_slice, after_start,
    after_text_from, caught_up, crosses_lines, does_cross_lines, in_section_from,
    outcome, starts_section, ConverterView, Setting,
};
use super::events::{
    event_views, markdown_events, markdown_reading, MarkdownEvent, MarkdownEventView,
    MarkdownTagView, SourcedEvent, SourcedEventView, TagKind,
};
use super::finish::finish_of;
use super::frame::{empty_frame, FrameKindView, FrameView};
use super::link::{lowered_link, lowered_topic};
use super::origin::OriginView;
use super::raw_rd::prepare::{advanced, raw_node};
use super::raw_rd::scan::ByteRange;
use super::{conversion_of, preparation, raw_reports, text_end};

verus! {

/// The expression that an event asks the value of: inline code that starts with
/// `r` and a space, on one line.
pub open spec fn asked_expression(source: SourcedText, event: SourcedEventView) -> Option<
    Seq<char>,
> {
    match event.event {
        MarkdownEventView::Code(code) => if crosses_lines(source.text@, event.start, event.end) {
            None
        } else {
            after_prefix(code, "r "@)
        },
        _ => None,
    }
}

/// The expressions that events ask the values of, in their order.
pub open spec fn asked_expressions(source: SourcedText, events: Seq<SourcedEventView>) -> Seq<
    Seq<char>,
>
    decreases events.len(),
{
    if events.len() == 0 {
        Seq::empty()
    } else {
        let before = asked_expressions(source, events.drop_last());
        match asked_expression(source, events.last()) {
            Some(expression) => before.push(expression),
            None => before,
        }
    }
}

/// Lists the expressions that the events of a text ask the values of.
pub fn expressions_of_events(value: &MarkdownText, events: &Vec<SourcedEvent>) -> (r: Vec<String>)
    ensures
        texts(r@) == asked_expressions(*value.source, event_views(events@)),
{
    let source: &SourcedText = &value.source;
    let ghost shown = event_views(events@);
    let mut asked: Vec<String> = Vec::new();
    let mut i: usize = 0;
    proof {
        assert(texts(asked@) =~= asked_expressions(*source, shown.take(0)));
    }
    while i < events.len()
        invariant
            i <= events@.len(),
            shown == event_views(events@),
            texts(asked@) == asked_expressions(*source, shown.take(i as int)),
        decreases events@.len() - i,
    {
        let ghost before = texts(asked@);
        let event = &events[i];
        proof {
            let prefix = shown.take(i + 1);
            assert(prefix.drop_last() =~= shown.take(i as int));
            assert(prefix.last() == event@);
        }
        if let MarkdownEvent::Code(code) = &event.event {
            if !does_cross_lines(&source.text, event.start, event.end) {
                if let Some(expression) = strip_prefix(code, "r ") {
                    let ghost one = expression@;
                    asked.push(expression);
                    proof {
                        assert(texts(asked@) =~= before.push(one));
                    }
                }
            }
        }
        i = i + 1;
    }
    proof {
        assert(shown.take(shown.len() as int) =~= shown);
    }
    asked
}

/// Lists the expressions that a text asks the values of: those that its
/// conversion looks up among the substitutions.
pub fn inline_r_expressions(value: &MarkdownText) -> (r: Vec<String>)
    ensures
        texts(r@) == asked_expressions(*value.source, markdown_reading(value.source.text@)),
{
    let events = markdown_events(value.as_str());
    expressions_of_events(value, &events)
}

/// The configured expressions among the first `count` substitutions that nothing
/// asks for. Built-in substitutions are not counted.
pub open spec fn unused_expressions(
    substitutions: Seq<InlineRSubstitution>,
    asked: Seq<Seq<char>>,
    count: int,
) -> Seq<Seq<char>>
    decreases count,
{
    if count <= 0 {
        Seq::empty()
    } else {
        let before = unused_expressions(substitutions, asked, count - 1);
        let entry = substitutions[count - 1];
        if !entry.built_in && !asked.contains(entry.expression@) {
            before.push(entry.expression@)
        } else {
            before
        }
    }
}

fn is_asked(asked: &Vec<String>, expression: &str) -> (r: bool)
    ensures
        r == texts(asked@).contains(expression@),
{
    let mut i: usize = 0;
    while i < asked.len()
        invariant
            i <= asked@.len(),
            forall|k: int| 0 <= k < i ==> (#[trigger] texts(asked@)[k]) != expression@,
        decreases asked@.len() - i,
    {
        assert(texts(asked@)[i as int] == asked@[i as int]@);
        if same_text(asked[i].as_str(), expression) {
            return true;
        }
        i = i + 1;
    }
    false
}

impl InlineRSession {
    /// Lists the configured expressions that nothing asks for.
    pub fn unused(&self, asked: &Vec<String>) -> (r: Vec<String>)
        ensures
            texts(r@) == unused_expressions(
                self.substitutions@,
                texts(asked@),
                self.substitutions@.len() as int,
            ),
    {
        let mut unused: Vec<String> = Vec::new();
        let mut i: usize = 0;
        proof {
            assert(texts(unused@) =~= Seq::<Seq<char>>::empty());
        }
        while i < self.substitutions.len()
            invariant
                i <= self.substitutions@.len(),
                texts(unused@) == unused_expressions(
                    self.substitutions@,
                    texts(asked@),
                    i as int,
                ),
            decreases self.substitutions@.len() - i,
        {
            let ghost before = texts(unused@);
            let entry = &self.substitutions[i];
            if !entry.built_in && !is_asked(asked, entry.expression.as_str()) {
                unused.push(entry.expression.clone());
                proof {
                    assert(texts(unused@) =~= before.push(entry.expression@));
                }
            }
            i = i + 1;
        }
        unused
    }
}

/// An expression is unused exactly where it is configured, not built in, and
/// nothing asks for it.
pub proof fn only_unasked_entries_are_unused(
    session: InlineRSession,
    asked: Seq<Seq<char>>,
    expression: Seq<char>,
)
    ensures
        unused_expressions(
            session.substitutions@,
            asked,
            session.substitutions@.len() as int,
        ).contains(expression) <==> !asked.contains(expression) && exists|i: int|
            0 <= i < session.substitutions@.len() && !(
            #[trigger] session.substitutions@[i]).built_in
                && session.substitutions@[i].expression@ == expression,
{
    first_entries_are_unused(
        session.substitutions@,
        asked,
        expression,
        session.substitutions@.len() as int,
    );
}

proof fn first_entries_are_unused(
    substitutions: Seq<InlineRSubstitution>,
    asked: Seq<Seq<char>>,
    expression: Seq<char>,
    count: int,
)
    requires
        0 <= count <= substitutions.len(),
    ensures
        unused_expressions(substitutions, asked, count).contains(expression) <==> !asked.contains(
            expression,
        ) && exists|i: int|
            0 <= i < count && !(#[trigger] substitutions[i]).built_in
                && substitutions[i].expression@ == expression,
    decreases count,
{
    if count > 0 {
        first_entries_are_unused(substitutions, asked, expression, count - 1);
        let before = unused_expressions(substitutions, asked, count - 1);
        let entry = substitutions[count - 1];
        let all = unused_expressions(substitutions, asked, count);
        if !entry.built_in && !asked.contains(entry.expression@) {
            assert(all == before.push(entry.expression@));
            if before.contains(expression) {
                let k = choose|k: int| 0 <= k < before.len() && before[k] == expression;
                assert(all[k] == expression);
            }
            if entry.expression@ == expression {
                assert(all[before.len() as int] == expression);
            }
            if all.contains(expression) && entry.expression@ != expression {
                let k = choose|k: int| 0 <= k < all.len() && all[k] == expression;
                assert(before[k] == expression);
            }
        }
    }
}

/// Whether two contexts differ at most in their substitutions.
pub open spec fn same_links(a: ContextView, b: ContextView) -> bool {
    &&& a.current_package == b.current_package
    &&& forall|topic: Seq<char>| #[trigger] (a.links)(topic) == (b.links)(topic)
    &&& a.inline_r is Some == b.inline_r is Some
}

/// Whether two contexts have the same substitution for an expression.
pub open spec fn agree_on(a: ContextView, b: ContextView, expression: Seq<char>) -> bool {
    a.inline_r matches Some(x) ==> (b.inline_r matches Some(y) ==> x(expression) == y(expression))
}

proof fn links_lower_alike(
    source: SourcedText,
    a: ContextView,
    b: ContextView,
    destination: Seq<char>,
    start: usize,
    end: usize,
    children: Seq<OriginView>,
)
    requires
        same_links(a, b),
    ensures
        lowered_link(source, a, destination, start, end, children) == lowered_link(
            source,
            b,
            destination,
            start,
            end,
            children,
        ),
{
    reveal(lowered_link);
    reveal(lowered_topic);
}

proof fn frames_finish_alike(
    source: SourcedText,
    a: ContextView,
    b: ContextView,
    frame: FrameView,
    end: usize,
)
    requires
        same_links(a, b),
    ensures
        finish_of(source, a, frame, end) == finish_of(source, b, frame, end),
{
    reveal(finish_of);
    if let FrameKindView::Link { destination, start } = frame.kind {
        let nodes = super::finish::settled(source, frame, end).nodes;
        links_lower_alike(source, a, b, destination, start, end, nodes);
    }
}

/// A setting with another context.
pub open spec fn in_context(setting: Setting, context: ContextView) -> Setting {
    Setting { context, ..setting }
}

proof fn text_alike(
    setting: Setting,
    context: ContextView,
    state: ConverterView,
    text: Seq<char>,
    event: ByteRange,
    from: usize,
)
    ensures
        after_text_from(setting, state, text, event, from) == after_text_from(
            in_context(setting, context),
            state,
            text,
            event,
            from,
        ),
    decreases setting.macros.len() - advanced(setting.macros, state.next_macro, from),
{
    let next = advanced(setting.macros, state.next_macro, from);
    let here = state.with_next(next);
    if 0 <= next < setting.macros.len() && setting.macros[next].source.start < event.end {
        let raw = setting.macros[next];
        advanced_is_further(setting.macros, next + 1, raw.source.end);
        if raw.source.start < event.start {
            if raw.source.end < event.end {
                text_alike(
                    setting,
                    context,
                    here.with_next(next + 1),
                    text,
                    event,
                    raw.source.end,
                );
            }
        } else {
            let before = if from < raw.source.start {
                after_slice(setting.source, here, text, event, from, raw.source.start)
            } else {
                here
            };
            let placed = after_node(
                setting.source,
                before,
                raw_node(setting.source, raw),
                raw.source.start,
            );
            if raw.source.end <= event.end {
                text_alike(
                    setting,
                    context,
                    placed.with_next(next + 1),
                    text,
                    event,
                    raw.source.end,
                );
            }
        }
    }
}

proof fn sections_alike(
    setting: Setting,
    context: ContextView,
    state: ConverterView,
    level: usize,
    end: usize,
)
    requires
        same_links(setting.context, context),
    ensures
        after_sections(setting, state, level, end) == after_sections(
            in_context(setting, context),
            state,
            level,
            end,
        ),
    decreases state.frames.len(),
{
    if in_section_from(state.frames, level) {
        reveal(after_section);
        frames_finish_alike(setting.source, setting.context, context, state.frames.last(), end);
        let closed = after_section(setting, state, end);
        assert(closed == after_section(in_context(setting, context), state, end));
        if closed.frames.len() < state.frames.len() {
            sections_alike(setting, context, closed, level, end);
        }
    }
}

proof fn start_alike(
    setting: Setting,
    context: ContextView,
    state: ConverterView,
    tag: MarkdownTagView,
    start: usize,
    end: usize,
)
    requires
        same_links(setting.context, context),
    ensures
        after_start(setting, state, tag, start, end) == after_start(
            in_context(setting, context),
            state,
            tag,
            start,
            end,
        ),
{
    if starts_section(tag, state.frames) {
        reveal(after_heading);
        sections_alike(setting, context, state, tag->Heading_0 as usize, start);
    } else {
        reveal(after_opening);
    }
}

proof fn end_alike(
    setting: Setting,
    context: ContextView,
    state: ConverterView,
    kind: TagKind,
    start: usize,
    end: usize,
)
    requires
        same_links(setting.context, context),
    ensures
        after_end(setting, state, kind, start, end) == after_end(
            in_context(setting, context),
            state,
            kind,
            start,
            end,
        ),
{
    reveal(after_end);
    frames_finish_alike(setting.source, setting.context, context, state.frames.last(), end);
}

proof fn event_alike(
    setting: Setting,
    context: ContextView,
    state: ConverterView,
    event: SourcedEventView,
)
    requires
        same_links(setting.context, context),
        asked_expression(setting.source, event) matches Some(expression) ==> agree_on(
            setting.context,
            context,
            expression,
        ),
    ensures
        after_plain_event(setting, state, event.event, event.start, event.end)
            == after_plain_event(
            in_context(setting, context),
            state,
            event.event,
            event.start,
            event.end,
        ),
{
    reveal(after_plain_event);
    let range = ByteRange { start: event.start, end: event.end };
    match event.event {
        MarkdownEventView::Start(tag) => start_alike(
            setting,
            context,
            state,
            tag,
            event.start,
            event.end,
        ),
        MarkdownEventView::End(kind) => end_alike(
            setting,
            context,
            state,
            kind,
            event.start,
            event.end,
        ),
        MarkdownEventView::SoftBreak | MarkdownEventView::HardBreak => text_alike(
            setting,
            context,
            state,
            seq!['\n'],
            range,
            event.start,
        ),
        MarkdownEventView::Text(text) => text_alike(
            setting,
            context,
            state,
            text,
            range,
            event.start,
        ),
        MarkdownEventView::Code(code) => {
            reveal(after_expression);
        },
        _ => {},
    }
}

proof fn events_alike(
    setting: Setting,
    context: ContextView,
    state: ConverterView,
    events: Seq<SourcedEventView>,
)
    requires
        same_links(setting.context, context),
        forall|expression: Seq<char>| #[trigger]
            asked_expressions(setting.source, events).contains(expression) ==> agree_on(
                setting.context,
                context,
                expression,
            ),
    ensures
        after_events(setting, state, events) == after_events(
            in_context(setting, context),
            state,
            events,
        ),
    decreases events.len(),
{
    if events.len() > 0 {
        let all = asked_expressions(setting.source, events);
        let before = asked_expressions(setting.source, events.drop_last());
        let event = events.last();
        assert forall|expression: Seq<char>| #[trigger] before.contains(expression) implies
            agree_on(setting.context, context, expression) by {
            let k = choose|k: int| 0 <= k < before.len() && before[k] == expression;
            assert(all[k] == expression);
            assert(all.contains(expression));
        }
        events_alike(setting, context, state, events.drop_last());
        if let Some(expression) = asked_expression(setting.source, event) {
            assert(all[before.len() as int] == expression);
            assert(all.contains(expression));
        }
        let reached = after_events(setting, state, events.drop_last());
        event_alike(setting, context, reached, event);
        event_alike(setting, context, caught_up(setting, reached, event.start), event);
    }
}

/// A conversion looks up no expression but those that its text asks for:
/// contexts that have the same substitutions for these, and differ in no other
/// way, give the same fragment and the same reports.
pub proof fn only_asked_expressions_matter(
    source: SourcedText,
    a: ContextView,
    b: ContextView,
    events: Seq<SourcedEventView>,
    enable_raw_rd: bool,
)
    requires
        same_links(a, b),
        forall|expression: Seq<char>| #[trigger]
            asked_expressions(source, events).contains(expression) ==> agree_on(a, b, expression),
    ensures
        conversion_of(source, a, events, enable_raw_rd) == conversion_of(
            source,
            b,
            events,
            enable_raw_rd,
        ),
{
    reveal(outcome);
    let raw = preparation(source, events, enable_raw_rd);
    let setting = Setting { source, context: a, macros: raw.macros };
    let end = text_end(source);
    let start = ConverterView {
        frames: seq![empty_frame(FrameKindView::Root)],
        diagnostics: raw_reports(source, raw.unsupported, raw.unsupported.len() as int),
        next_macro: 0,
    };
    events_alike(setting, b, start, events);
    let last = after_events(setting, start, events);
    sections_alike(setting, b, last, 0, end);
    let closed = after_sections(setting, last, 0, end);
    frames_finish_alike(source, a, b, closed.frames.last(), end);
    assert(in_context(setting, b) == (Setting { source, context: b, macros: raw.macros }));
}

} // verus!
