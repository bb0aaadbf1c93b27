//! The conversion of Markdown events, one after the other.
use crate::diagnostic::{DiagnosticView, Diagnostics};
use crate::rd::RdMacro;
use crate::source::{byte_slice, slice_bytes, Span};
use crate::tags::SourcedText;
use crate::text::{after_prefix, char_vec, has_prefix, starts_with, strip_prefix};
use vstd::prelude::*;

use super::code::{classify_code, code_form, is_executable_r_chunk, is_r_chunk, CodeForm};
use super::context::{ContextView, HelpLinkResolver, MarkdownContext};
use super::events::{
    event_views, kind_of, MarkdownEvent, MarkdownEventView, MarkdownTag, MarkdownTagView,
    SourcedEvent, SourcedEventView, TagKind,
};
use super::finish::{finish_frame, finish_of, FinishedFrame, FinishedView};
use super::frame::{
    append_node, append_spans, empty_frame, frame_views, merged_spans, row_views, subsection_frame,
    with_node, Frame, FrameKind, FrameKindView, FrameView,
};
use super::origin::{
    copy_spans, make_tagged, make_verb, no_nodes, one_node, origin_views, spread_all, spread_nodes,
    tagged, verb_leaf, NodeWithOrigin, OriginView, Shape, ShapeView,
};
use super::position::{anchor_of, range_anchor, range_spans, spans_of};
use super::raw_rd::prepare::{
    advance_before, advanced, hidden_at, is_hidden_at, macro_views, make_node, raw_node,
    RawRdMacro, RawRdMacroView,
};
use super::raw_rd::scan::ByteRange;
use super::separator::{
    append_flattened_nodes, boundary_after, is_blank, materialize_separator, separator_after,
    stronger, with_flattened_all, with_separator, PendingSeparator,
};
use super::table::{append_text_at, with_text, CompletedCell};
use super::unsupported::{
    construct_name, construct_report, diagnose_evaluation, diagnose_multiline_inline_r,
    diagnose_range, diagnose_undefined_inline_r, evaluation_report, in_unsupported,
    is_in_unsupported, is_redundant, is_redundant_unsupported_envelope, multiline_report,
    undefined_report, unsupported_tag_name,
};

verus! {

/// The state of a conversion: the open constructs, outermost first, what was
/// reported, and the raw macro that comes next.
pub struct Converter {
    pub frames: Vec<Frame>,
    pub diagnostics: Diagnostics,
    pub next_macro: usize,
}

/// The model of [`Converter`].
pub struct ConverterView {
    pub frames: Seq<FrameView>,
    pub diagnostics: Seq<DiagnosticView>,
    pub next_macro: int,
}

impl View for Converter {
    type V = ConverterView;

    open spec fn view(&self) -> ConverterView {
        ConverterView {
            frames: frame_views(self.frames@),
            diagnostics: self.diagnostics@,
            next_macro: self.next_macro as int,
        }
    }
}

/// What a conversion reads and does not change.
pub struct Setting {
    pub source: SourcedText,
    pub context: ContextView,
    pub macros: Seq<RawRdMacroView>,
}

impl ConverterView {
    /// The state with another innermost frame in place of the present one.
    pub open spec fn with_last(self, frame: FrameView) -> ConverterView {
        ConverterView { frames: self.frames.drop_last().push(frame), ..self }
    }

    /// The state with one more frame.
    pub open spec fn with_frame(self, frame: FrameView) -> ConverterView {
        ConverterView { frames: self.frames.push(frame), ..self }
    }

    /// The state with more reports.
    pub open spec fn with_reports(self, reports: Seq<DiagnosticView>) -> ConverterView {
        ConverterView { diagnostics: self.diagnostics + reports, ..self }
    }

    /// The state with another macro next.
    pub open spec fn with_next(self, next_macro: int) -> ConverterView {
        ConverterView { next_macro, ..self }
    }
}

/// Whether a converter has a frame and a valid place among the macros.
pub open spec fn is_sound(state: ConverterView, macros: Seq<RawRdMacroView>) -> bool {
    state.frames.len() > 0 && 0 <= state.next_macro <= macros.len()
}

/// A frame with text from a byte range.
pub open spec fn frame_with_text(
    source: SourcedText,
    frame: FrameView,
    text: Seq<char>,
    start: usize,
    end: usize,
) -> FrameView {
    let spaced = with_separator(frame, anchor_of(source, start));
    FrameView {
        text: spaced.text + text,
        text_spans: merged_spans(spaced.text_spans, spans_of(source, start, end)),
        ..spaced
    }
}

/// The state after literal text from a byte range.
#[verifier::opaque]
pub open spec fn after_literal(
    source: SourcedText,
    state: ConverterView,
    text: Seq<char>,
    start: usize,
    end: usize,
) -> ConverterView {
    if text.len() == 0 {
        state
    } else {
        state.with_last(frame_with_text(source, state.frames.last(), text, start, end))
    }
}

/// The state after a part of a text event. A part that cannot be cut out of the
/// event stands for all of it.
#[verifier::opaque]
pub open spec fn after_slice(
    source: SourcedText,
    state: ConverterView,
    text: Seq<char>,
    event: ByteRange,
    from: usize,
    to: usize,
) -> ConverterView {
    match byte_slice(text, from - event.start, to - event.start) {
        Some(part) => after_literal(source, state, part, from, to),
        None => after_literal(source, state, text, event.start, event.end),
    }
}

/// The state after a node that stands at a byte offset.
#[verifier::opaque]
pub open spec fn after_node(
    source: SourcedText,
    state: ConverterView,
    node: OriginView,
    offset: usize,
) -> ConverterView {
    state.with_last(
        with_node(with_separator(state.frames.last(), anchor_of(source, offset)), node),
    )
}

/// The state after the rest of a text event.
pub open spec fn after_rest(
    source: SourcedText,
    state: ConverterView,
    text: Seq<char>,
    event: ByteRange,
    from: usize,
) -> ConverterView {
    if from < event.end {
        after_slice(source, state, text, event, from, event.end)
    } else {
        state
    }
}

/// The state after a text event from a byte on, with the raw macros in it
/// spliced in. A macro that starts before the event hides what it covers of it.
pub open spec fn after_text_from(
    setting: Setting,
    state: ConverterView,
    text: Seq<char>,
    event: ByteRange,
    from: usize,
) -> ConverterView
    decreases setting.macros.len() - advanced(setting.macros, state.next_macro, from),
{
    let next = advanced(setting.macros, state.next_macro, from);
    let here = state.with_next(next);
    if next < 0 || next >= setting.macros.len() || setting.macros[next].source.start >= event.end {
        after_rest(setting.source, here, text, event, from)
    } else {
        let raw = setting.macros[next];
        if raw.source.start < event.start {
            if raw.source.end >= event.end {
                here
            } else {
                proof {
                    advanced_is_further(setting.macros, next + 1, raw.source.end);
                }
                after_text_from(
                    setting,
                    here.with_next(next + 1),
                    text,
                    event,
                    raw.source.end,
                )
            }
        } else {
            let before = if from < raw.source.start {
                after_slice(setting.source, here, text, event, from, raw.source.start)
            } else {
                here
            };
            let placed = after_node(
                setting.source,
                before,
                raw_node(setting.source, raw),
                raw.source.start,
            );
            if raw.source.end > event.end {
                placed
            } else {
                proof {
                    advanced_is_further(setting.macros, next + 1, raw.source.end);
                }
                after_text_from(
                    setting,
                    placed.with_next(next + 1),
                    text,
                    event,
                    raw.source.end,
                )
            }
        }
    }
}

/// Going on to a later position never goes back to an earlier macro.
pub proof fn advanced_is_further(macros: Seq<RawRdMacroView>, next: int, position: usize)
    ensures
        next <= advanced(macros, next, position),
        0 <= next <= macros.len() ==> advanced(macros, next, position) <= macros.len(),
    decreases macros.len() - next,
{
    if 0 <= next < macros.len() && macros[next].source.end <= position {
        advanced_is_further(macros, next + 1, position);
    }
}

/// The state after a text event.
pub open spec fn after_text(
    setting: Setting,
    state: ConverterView,
    text: Seq<char>,
    event: ByteRange,
) -> ConverterView {
    after_text_from(setting, state, text, event, event.start)
}

impl Converter {
    fn take_last(&mut self) -> (r: Frame)
        requires
            old(self)@.frames.len() > 0,
        ensures
            r@ == old(self)@.frames.last(),
            final(self)@ == (ConverterView {
                frames: old(self)@.frames.drop_last(),
                ..old(self)@
            }),
    {
        let ghost before = self.frames@;
        let frame = self.frames.pop().unwrap();
        proof {
            assert(frame_views(self.frames@) =~= frame_views(before).drop_last());
        }
        frame
    }

    fn push_frame(&mut self, frame: Frame)
        ensures
            final(self)@ == old(self)@.with_frame(frame@),
    {
        let ghost before = self.frames@;
        self.frames.push(frame);
        proof {
            assert(frame_views(self.frames@) =~= frame_views(before).push(frame@));
        }
    }

    fn append_text(&mut self, source: &SourcedText, text: &str, start: usize, end: usize)
        requires
            old(self)@.frames.len() > 0,
        ensures
            final(self)@ == after_literal(*source, old(self)@, text@, start, end),
            final(self)@.frames.len() == old(self)@.frames.len(),
            final(self).next_macro == old(self).next_macro,
    {
        proof {
            reveal(after_literal);
        }
        if is_blank(text) {
            return;
        }
        let spans = range_spans(source, start, end);
        let mut frame = self.take_last();
        materialize_separator(&mut frame, range_anchor(source, start));
        frame.text.push_str(text);
        append_spans(&mut frame.text_spans, &spans);
        self.push_frame(frame);
    }

    fn append_literal_slice(
        &mut self,
        source: &SourcedText,
        text: &str,
        event: ByteRange,
        from: usize,
        to: usize,
    )
        requires
            old(self)@.frames.len() > 0,
            event.start <= from <= to,
        ensures
            final(self)@ == after_slice(*source, old(self)@, text@, event, from, to),
            final(self)@.frames.len() == old(self)@.frames.len(),
            final(self).next_macro == old(self).next_macro,
    {
        proof {
            reveal(after_slice);
        }
        match slice_bytes(text, from - event.start, to - event.start) {
            Some(part) => self.append_text(source, part, from, to),
            None => self.append_text(source, text, event.start, event.end),
        }
    }

    fn append_node_at(&mut self, source: &SourcedText, node: NodeWithOrigin, offset: usize)
        requires
            old(self)@.frames.len() > 0,
        ensures
            final(self)@ == after_node(*source, old(self)@, node@, offset),
            final(self)@.frames.len() == old(self)@.frames.len(),
            final(self).next_macro == old(self).next_macro,
    {
        proof {
            reveal(after_node);
        }
        let mut frame = self.take_last();
        materialize_separator(&mut frame, range_anchor(source, offset));
        append_node(&mut frame, node);
        self.push_frame(frame);
    }

    /// Appends a text event, with the raw macros in it spliced in.
    fn text<L: HelpLinkResolver>(
        &mut self,
        source: &SourcedText,
        context: &MarkdownContext<'_, L>,
        macros: &Vec<RawRdMacro>,
        text: &str,
        event: ByteRange,
    )
        requires
            is_sound(old(self)@, macro_views(macros@)),
        ensures
            final(self)@ == after_text(
                (Setting { source: *source, context: context@, macros: macro_views(macros@) }),
                old(self)@,
                text@,
                event,
            ),
            is_sound(final(self)@, macro_views(macros@)),
    {
        let ghost setting = Setting {
            source: *source,
            context: context@,
            macros: macro_views(macros@),
        };
        let ghost all = macro_views(macros@);
        let mut from: usize = event.start;
        let mut going: bool = true;
        while going
            invariant
                all == macro_views(macros@),
                setting == (Setting { source: *source, context: context@, macros: all }),
                is_sound(self@, all),
                event.start <= from,
                going ==> after_text(setting, old(self)@, text@, event) == after_text_from(
                    setting,
                    self@,
                    text@,
                    event,
                    from,
                ),
                !going ==> after_text(setting, old(self)@, text@, event) == self@,
            decreases macros@.len() - self.next_macro, going as int,
        {
            let ghost before = self@;
            self.next_macro = advance_before(macros, self.next_macro, from);
            let next = self.next_macro;
            proof {
                assert(self@ == before.with_next(next as int));
            }
            if next >= macros.len() || macros[next].source.start >= event.end {
                proof {
                    if next < macros@.len() {
                        assert(all[next as int] == macros@[next as int]@);
                    }
                }
                if from < event.end {
                    self.append_literal_slice(source, text, event, from, event.end);
                }
                going = false;
            } else {
                let place = macros[next].source;
                proof {
                    assert(all[next as int] == macros@[next as int]@);
                }
                if place.start < event.start {
                    if place.end >= event.end {
                        going = false;
                    } else {
                        from = place.end;
                        self.next_macro = next + 1;
                    }
                } else {
                    if from < place.start {
                        self.append_literal_slice(source, text, event, from, place.start);
                    }
                    let node = make_node(source, &macros[next]);
                    self.append_node_at(source, node, place.start);
                    if place.end > event.end {
                        going = false;
                    } else {
                        from = place.end;
                        let ghost placed = self@;
                        self.next_macro = next + 1;
                        proof {
                            assert(self@ == placed.with_next(next + 1));
                        }
                    }
                }
            }
        }
    }
}

/// Whether a text holds a line break.
pub open spec fn holds_line_break(text: Seq<char>) -> bool {
    exists|i: int| 0 <= i < text.len() && (#[trigger] text[i] == '\n' || text[i] == '\r')
}

fn has_line_break(text: &str) -> (r: bool)
    ensures
        r == holds_line_break(text@),
{
    let chars = char_vec(text);
    let mut i: usize = 0;
    while i < chars.len()
        invariant
            i <= chars@.len(),
            chars@ == text@,
            forall|k: int| 0 <= k < i ==> !(#[trigger] chars@[k] == '\n' || chars@[k] == '\r'),
        decreases chars@.len() - i,
    {
        if chars[i] == '\n' || chars[i] == '\r' {
            assert(text@[i as int] == chars@[i as int]);
            return true;
        }
        i = i + 1;
    }
    false
}

/// Whether a byte range crosses a line break.
pub open spec fn crosses_lines(text: Seq<char>, start: usize, end: usize) -> bool {
    match byte_slice(text, start as int, end as int) {
        Some(part) => holds_line_break(part),
        None => false,
    }
}

/// Whether a byte range crosses a line break.
pub(crate) fn does_cross_lines(text: &str, start: usize, end: usize) -> (r: bool)
    ensures
        r == crosses_lines(text@, start, end),
{
    match slice_bytes(text, start, end) {
        Some(part) => has_line_break(part),
        None => false,
    }
}

/// The node of inline code in a form.
pub open spec fn code_node(code: Seq<char>, form: CodeForm, spans: Seq<Span>) -> OriginView {
    match form {
        CodeForm::Code => tagged(
            RdMacro::Code,
            seq![OriginView { shape: ShapeView::RCode(code), spans }],
            spans,
        ),
        CodeForm::Verbatim => tagged(RdMacro::Verb, seq![verb_leaf(code, spans)], spans),
    }
}

fn make_code_node(code: &str, form: CodeForm, spans: Vec<Span>) -> (r: NodeWithOrigin)
    ensures
        r@ == code_node(code@, form, spans@),
{
    let inner = copy_spans(&spans);
    match form {
        CodeForm::Code => {
            let leaf = NodeWithOrigin { shape: Shape::RCode(code.to_owned()), spans: inner };
            make_tagged(RdMacro::Code, one_node(leaf), spans)
        },
        CodeForm::Verbatim => make_tagged(
            RdMacro::Verb,
            one_node(make_verb(code.to_owned(), inner)),
            spans,
        ),
    }
}

/// The state after inline code that asks for the value of an R expression: the
/// nodes of its substitution, or the code itself with a report.
#[verifier::opaque]
pub open spec fn after_expression(
    setting: Setting,
    state: ConverterView,
    code: Seq<char>,
    expression: Seq<char>,
    start: usize,
    end: usize,
) -> ConverterView {
    let source = setting.source;
    let spans = spans_of(source, start, end);
    let verbatim = code_node(code, CodeForm::Verbatim, spans);
    if crosses_lines(source.text@, start, end) {
        after_node(
            source,
            state.with_reports(multiline_report(source, start, end)),
            verbatim,
            start,
        )
    } else {
        match setting.context.inline_r {
            Some(lookup) => match lookup(expression) {
                Some(nodes) => state.with_last(
                    with_flattened_all(
                        state.frames.last(),
                        spread_all(nodes, spans),
                        anchor_of(source, start),
                    ),
                ),
                None => after_node(
                    source,
                    state.with_reports(undefined_report(source, start, end)),
                    verbatim,
                    start,
                ),
            },
            None => after_node(
                source,
                state.with_reports(evaluation_report(source, start, end)),
                verbatim,
                start,
            ),
        }
    }
}

/// The state after inline code.
pub open spec fn after_code(
    setting: Setting,
    state: ConverterView,
    code: Seq<char>,
    start: usize,
    end: usize,
) -> ConverterView {
    match after_prefix(code, "r "@) {
        Some(expression) => after_expression(setting, state, code, expression, start, end),
        None => {
            let reports = if has_prefix(code, "Rd "@) {
                evaluation_report(setting.source, start, end)
            } else {
                Seq::empty()
            };
            after_node(
                setting.source,
                state.with_reports(reports),
                code_node(code, code_form(code), spans_of(setting.source, start, end)),
                start,
            )
        },
    }
}

impl Converter {
    fn code_expression<L: HelpLinkResolver>(
        &mut self,
        source: &SourcedText,
        context: &MarkdownContext<'_, L>,
        code: &str,
        expression: &str,
        start: usize,
        end: usize,
        Ghost(setting): Ghost<Setting>,
    )
        requires
            old(self)@.frames.len() > 0,
            setting.source == *source,
            setting.context == context@,
        ensures
            final(self)@ == after_expression(
                setting,
                old(self)@,
                code@,
                expression@,
                start,
                end,
            ),
            final(self)@.frames.len() == old(self)@.frames.len(),
            final(self).next_macro == old(self).next_macro,
    {
        proof {
            reveal(after_expression);
        }
        let spans = range_spans(source, start, end);
        if does_cross_lines(&source.text, start, end) {
            diagnose_multiline_inline_r(source, start, end, &mut self.diagnostics);
        } else {
            match context.inline_r_session {
                Some(session) => {
                    let found = session.lookup(expression);
                    proof {
                        assert((setting.context.inline_r->0)(expression@) == session.substitution(
                            expression@,
                        ));
                    }
                    if let Some(nodes) = found {
                        let placed = spread_nodes(&nodes, &spans);
                        let mut frame = self.take_last();
                        append_flattened_nodes(&mut frame, placed, range_anchor(source, start));
                        self.push_frame(frame);
                        return;
                    }
                    diagnose_undefined_inline_r(source, start, end, &mut self.diagnostics);
                },
                None => {
                    diagnose_evaluation(source, start, end, &mut self.diagnostics);
                },
            }
        }
        let node = make_code_node(code, CodeForm::Verbatim, spans);
        self.append_node_at(source, node, start);
    }

    /// Appends inline code.
    fn code<L: HelpLinkResolver>(
        &mut self,
        source: &SourcedText,
        context: &MarkdownContext<'_, L>,
        code: &str,
        start: usize,
        end: usize,
        Ghost(setting): Ghost<Setting>,
    )
        requires
            old(self)@.frames.len() > 0,
            setting.source == *source,
            setting.context == context@,
        ensures
            final(self)@ == after_code(setting, old(self)@, code@, start, end),
            final(self)@.frames.len() == old(self)@.frames.len(),
            final(self).next_macro == old(self).next_macro,
    {
        if let Some(expression) = strip_prefix(code, "r ") {
            self.code_expression(
                source,
                context,
                code,
                &expression,
                start,
                end,
                Ghost(setting),
            );
            return;
        }
        let ghost before = self@;
        let form = classify_code(code);
        if starts_with(code, "Rd ") {
            diagnose_evaluation(source, start, end, &mut self.diagnostics);
        } else {
            proof {
                assert(before.diagnostics + Seq::<DiagnosticView>::empty()
                    =~= before.diagnostics);
            }
        }
        let node = make_code_node(code, form, range_spans(source, start, end));
        self.append_node_at(source, node, start);
    }
}

/// Whether the innermost frame is a section of a level or deeper.
pub open spec fn in_section_from(frames: Seq<FrameView>, level: usize) -> bool {
    frames.len() > 1 && (frames.last().kind matches FrameKindView::Subsection { level: own, .. }
        && own >= level)
}

/// The nodes that a finished frame gives to the one around it.
pub open spec fn finished_nodes(finished: FinishedView) -> Seq<OriginView> {
    match finished {
        FinishedView::Nodes(nodes) => nodes,
        _ => Seq::empty(),
    }
}

/// The state after the innermost section has closed.
#[verifier::opaque]
pub open spec fn after_section(setting: Setting, state: ConverterView, end: usize) -> ConverterView {
    let finish = finish_of(setting.source, setting.context, state.frames.last(), end);
    let outer = ConverterView { frames: state.frames.drop_last(), ..state }.with_reports(
        finish.diagnostics,
    );
    let filled = with_flattened_all(
        outer.frames.last(),
        finished_nodes(finish.finished),
        anchor_of(setting.source, end),
    );
    outer.with_last(FrameView { separator: PendingSeparator::Section, ..filled })
}

/// The state after all sections of a level or deeper have closed at a byte
/// offset.
pub open spec fn after_sections(
    setting: Setting,
    state: ConverterView,
    level: usize,
    end: usize,
) -> ConverterView
    decreases state.frames.len(),
{
    if in_section_from(state.frames, level) {
        let closed = after_section(setting, state, end);
        if closed.frames.len() < state.frames.len() {
            after_sections(setting, closed, level, end)
        } else {
            closed
        }
    } else {
        state
    }
}

/// The parent of a heading: what its last section owes becomes text, any other
/// separator is dropped, and the heading starts on a new line where something
/// stands before it or it lies in a section.
pub open spec fn frame_before_heading(frame: FrameView, anchor: Option<Span>) -> FrameView {
    let settled = if frame.separator == PendingSeparator::Section {
        with_separator(frame, anchor)
    } else {
        FrameView { separator: PendingSeparator::Nothing, ..frame }
    };
    if frame.kind is Subsection || settled.text.len() > 0 || settled.nodes.len() > 0 {
        with_text(settled, seq!['\n'], anchor)
    } else {
        settled
    }
}

/// The state after the opening of a heading that starts a section.
#[verifier::opaque]
pub open spec fn after_heading(
    setting: Setting,
    state: ConverterView,
    level: usize,
    start: usize,
) -> ConverterView {
    let outer = after_sections(setting, state, level, start);
    outer.with_last(
        frame_before_heading(outer.frames.last(), anchor_of(setting.source, start)),
    ).with_frame(empty_frame(FrameKindView::Heading { level, start }))
}

/// The text that a block starts with when it is the first one of a section.
pub open spec fn block_lead(kind: TagKind) -> Seq<char> {
    match kind {
        TagKind::Paragraph => seq!['\n', '\n'],
        TagKind::CodeBlock
        | TagKind::List
        | TagKind::BlockQuote
        | TagKind::HtmlBlock
        | TagKind::Table => seq!['\n'],
        _ => Seq::empty(),
    }
}

/// A frame that is ready for a construct: in a section, what the last
/// subsection owes becomes text, and the first block gets its lead.
pub open spec fn frame_before_block(frame: FrameView, kind: TagKind, anchor: Option<Span>) -> FrameView {
    if frame.kind is Subsection {
        let settled = if frame.separator == PendingSeparator::Section {
            with_separator(frame, anchor)
        } else {
            frame
        };
        if settled.nodes.len() == 0 && settled.text.len() == 0 && settled.separator
            == PendingSeparator::Line && block_lead(kind).len() > 0 {
            with_text(
                FrameView { separator: PendingSeparator::Nothing, ..settled },
                block_lead(kind),
                anchor,
            )
        } else {
            settled
        }
    } else {
        frame
    }
}

/// A frame that is ready for a nested block, which starts on a new line.
pub open spec fn frame_before_nested(frame: FrameView, kind: TagKind) -> FrameView {
    let nested = (kind == TagKind::List || kind == TagKind::Table || kind == TagKind::CodeBlock)
        && frame.kind is Item;
    if nested || (kind == TagKind::List && frame.separator == PendingSeparator::Paragraph) {
        FrameView { separator: PendingSeparator::Line, ..frame }
    } else {
        frame
    }
}

/// The frame of a list item. Its text starts with the blank that separates it
/// from the item macro.
pub open spec fn item_frame(anchor: Option<Span>) -> FrameView {
    with_text(empty_frame(FrameKindView::Item), seq![' '], anchor)
}

/// The frame that a construct opens in a frame of another kind.
pub open spec fn frame_kind_for(tag: MarkdownTagView, parent: FrameKindView, start: usize) -> FrameKindView {
    let unsupported = FrameKindView::Unsupported { name: construct_name(tag), start };
    match tag {
        MarkdownTagView::Link { destination, autolink } => FrameKindView::Link {
            destination,
            start,
        },
        MarkdownTagView::CodeBlock(info) => FrameKindView::CodeBlock {
            executable_r: info is Some && is_r_chunk(info->0),
            start,
        },
        MarkdownTagView::List(first) => FrameKindView::List {
            tag: if first is Some {
                RdMacro::Enumerate
            } else {
                RdMacro::Itemize
            },
            start,
        },
        MarkdownTagView::Table(alignments) => if alignments.len() == 0 {
            unsupported
        } else {
            FrameKindView::Table { alignments, rows: Seq::empty(), start }
        },
        MarkdownTagView::Heading(_) => unsupported,
        MarkdownTagView::Other(kind) => match kind {
            TagKind::Paragraph => FrameKindView::Paragraph,
            TagKind::Emphasis => FrameKindView::Tagged { tag: RdMacro::Emph, start },
            TagKind::Strong => FrameKindView::Tagged { tag: RdMacro::Strong, start },
            TagKind::TableHead | TagKind::TableRow => match parent {
                FrameKindView::Table { alignments, rows, start: table } => FrameKindView::TableRow {
                    cells: Seq::empty(),
                    width: alignments.len() as usize,
                    start,
                },
                _ => unsupported,
            },
            TagKind::TableCell => if parent is TableRow {
                FrameKindView::TableCell
            } else {
                unsupported
            },
            _ => unsupported,
        },
    }
}

/// What is reported of the opening of a construct: an ordered list that does
/// not start at one.
pub open spec fn opening_report(
    source: SourcedText,
    tag: MarkdownTagView,
    start: usize,
    end: usize,
) -> Seq<DiagnosticView> {
    match tag {
        MarkdownTagView::List(Some(first)) => if first != 1 {
            construct_report(source, "ordered Markdown list does not start at 1"@, start, end)
        } else {
            Seq::empty()
        },
        _ => Seq::empty(),
    }
}

/// Whether a heading starts a section where it stands.
pub open spec fn starts_section(tag: MarkdownTagView, frames: Seq<FrameView>) -> bool {
    tag matches MarkdownTagView::Heading(level) && level >= 2 && (frames.last().kind is Root
        || frames.last().kind is Subsection)
}

/// The state after the opening of a construct that starts no section.
#[verifier::opaque]
pub open spec fn after_opening(
    setting: Setting,
    state: ConverterView,
    tag: MarkdownTagView,
    start: usize,
    end: usize,
) -> ConverterView {
    let source = setting.source;
    let anchor = anchor_of(source, start);
    let kind = kind_of(tag);
    let parent = frame_before_nested(
        frame_before_block(state.frames.last(), kind, anchor),
        kind,
    );
    let ready = state.with_last(parent);
    if kind == TagKind::Item {
        let item = tagged(RdMacro::Item, Seq::empty(), spans_of(source, start, end));
        after_node(source, ready, item, start).with_frame(item_frame(anchor))
    } else {
        ready.with_reports(opening_report(source, tag, start, end)).with_frame(
            empty_frame(frame_kind_for(tag, parent.kind, start)),
        )
    }
}

/// The state after the opening of a construct.
pub open spec fn after_start(
    setting: Setting,
    state: ConverterView,
    tag: MarkdownTagView,
    start: usize,
    end: usize,
) -> ConverterView {
    if starts_section(tag, state.frames) {
        after_heading(setting, state, tag->Heading_0 as usize, start)
    } else {
        after_opening(setting, state, tag, start, end)
    }
}

impl Converter {
    fn close_section<L: HelpLinkResolver>(
        &mut self,
        source: &SourcedText,
        context: &MarkdownContext<'_, L>,
        end: usize,
        Ghost(setting): Ghost<Setting>,
    )
        requires
            old(self)@.frames.len() > 1,
            setting.source == *source,
            setting.context == context@,
        ensures
            final(self)@ == after_section(setting, old(self)@, end),
            final(self)@.frames.len() == old(self)@.frames.len() - 1,
            final(self).next_macro == old(self).next_macro,
    {
        proof {
            reveal(after_section);
        }
        let frame = self.take_last();
        let finished = finish_frame(source, context, frame, end, &mut self.diagnostics);
        let nodes = match finished {
            FinishedFrame::Nodes(nodes) => nodes,
            _ => no_nodes(),
        };
        let mut parent = self.take_last();
        append_flattened_nodes(&mut parent, nodes, range_anchor(source, end));
        parent.separator = PendingSeparator::Section;
        self.push_frame(parent);
    }

    fn is_in_section_from(&self, level: usize) -> (r: bool)
        ensures
            r == in_section_from(self@.frames, level),
    {
        if self.frames.len() <= 1 {
            return false;
        }
        proof {
            assert(self@.frames.last() == self.frames@.last()@);
        }
        match &self.frames[self.frames.len() - 1].kind {
            FrameKind::Subsection { level: own, start: _, title: _ } => *own >= level,
            _ => false,
        }
    }

    /// Closes all sections of a level or deeper.
    fn close_sections<L: HelpLinkResolver>(
        &mut self,
        source: &SourcedText,
        context: &MarkdownContext<'_, L>,
        level: usize,
        end: usize,
        Ghost(setting): Ghost<Setting>,
    )
        requires
            old(self)@.frames.len() > 0,
            setting.source == *source,
            setting.context == context@,
        ensures
            final(self)@ == after_sections(setting, old(self)@, level, end),
            final(self)@.frames.len() > 0,
            final(self).next_macro == old(self).next_macro,
    {
        while self.is_in_section_from(level)
            invariant
                setting.source == *source,
                setting.context == context@,
                self@.frames.len() > 0,
                self.next_macro == old(self).next_macro,
                after_sections(setting, old(self)@, level, end) == after_sections(
                    setting,
                    self@,
                    level,
                    end,
                ),
            decreases self@.frames.len(),
        {
            self.close_section(source, context, end, Ghost(setting));
        }
    }

    fn open_heading<L: HelpLinkResolver>(
        &mut self,
        source: &SourcedText,
        context: &MarkdownContext<'_, L>,
        level: usize,
        start: usize,
        Ghost(setting): Ghost<Setting>,
    )
        requires
            old(self)@.frames.len() > 0,
            setting.source == *source,
            setting.context == context@,
        ensures
            final(self)@ == after_heading(setting, old(self)@, level, start),
            final(self)@.frames.len() > 0,
            final(self).next_macro == old(self).next_macro,
    {
        proof {
            reveal(after_heading);
        }
        self.close_sections(source, context, level, start, Ghost(setting));
        let anchor = range_anchor(source, start);
        let mut parent = self.take_last();
        prepare_heading(&mut parent, anchor);
        self.push_frame(parent);
        self.push_frame(Frame::new(FrameKind::Heading { level, start }));
    }

    fn open_construct<L: HelpLinkResolver>(
        &mut self,
        source: &SourcedText,
        context: &MarkdownContext<'_, L>,
        tag: MarkdownTag,
        start: usize,
        end: usize,
        Ghost(setting): Ghost<Setting>,
    )
        requires
            old(self)@.frames.len() > 0,
            setting.source == *source,
            setting.context == context@,
        ensures
            final(self)@ == after_opening(setting, old(self)@, tag@, start, end),
            final(self)@.frames.len() > 0,
            final(self).next_macro == old(self).next_macro,
    {
        proof {
            reveal(after_opening);
        }
        let kind = tag.kind();
        let anchor = range_anchor(source, start);
        let mut parent = self.take_last();
        prepare_block(&mut parent, kind, anchor);
        prepare_nested(&mut parent, kind);
        if kind == TagKind::Item {
            self.push_frame(parent);
            let spans = range_spans(source, start, end);
            self.append_node_at(source, make_tagged(RdMacro::Item, no_nodes(), spans), start);
            let mut item = Frame::new(FrameKind::Item);
            append_text_at(&mut item, " ", anchor);
            proof {
                reveal_strlit(" ");
                assert(" "@ =~= seq![' ']);
            }
            self.push_frame(item);
            return;
        }
        report_opening(source, &tag, start, end, &mut self.diagnostics);
        let opened = make_frame_kind(tag, &parent.kind, start);
        self.push_frame(parent);
        self.push_frame(Frame::new(opened));
    }

    /// Opens a construct.
    fn start<L: HelpLinkResolver>(
        &mut self,
        source: &SourcedText,
        context: &MarkdownContext<'_, L>,
        tag: MarkdownTag,
        start: usize,
        end: usize,
        Ghost(setting): Ghost<Setting>,
    )
        requires
            old(self)@.frames.len() > 0,
            setting.source == *source,
            setting.context == context@,
        ensures
            final(self)@ == after_start(setting, old(self)@, tag@, start, end),
            final(self)@.frames.len() > 0,
            final(self).next_macro == old(self).next_macro,
    {
        proof {
            assert(self@.frames.last() == self.frames@.last()@);
        }
        if let MarkdownTag::Heading(level) = &tag {
            let level: u8 = *level;
            let top = match &self.frames[self.frames.len() - 1].kind {
                FrameKind::Root => true,
                FrameKind::Subsection { .. } => true,
                _ => false,
            };
            if level >= 2 && top {
                self.open_heading(source, context, level as usize, start, Ghost(setting));
                return;
            }
        }
        self.open_construct(source, context, tag, start, end, Ghost(setting));
    }
}

fn prepare_heading(frame: &mut Frame, anchor: Option<Span>)
    ensures
        final(frame)@ == frame_before_heading(old(frame)@, anchor),
{
    let nested = match &frame.kind {
        FrameKind::Subsection { .. } => true,
        _ => false,
    };
    if frame.separator == PendingSeparator::Section {
        materialize_separator(frame, anchor);
    } else {
        frame.separator = PendingSeparator::Nothing;
    }
    proof {
        super::origin::origin_views_index(frame.nodes);
        reveal_strlit("\n");
        assert("\n"@ =~= seq!['\n']);
    }
    if nested || !is_blank(&frame.text) || frame.nodes.len() > 0 {
        append_text_at(frame, "\n", anchor);
    }
}

fn prepare_block(frame: &mut Frame, kind: TagKind, anchor: Option<Span>)
    ensures
        final(frame)@ == frame_before_block(old(frame)@, kind, anchor),
{
    let section = match &frame.kind {
        FrameKind::Subsection { .. } => true,
        _ => false,
    };
    if !section {
        return;
    }
    if frame.separator == PendingSeparator::Section {
        materialize_separator(frame, anchor);
    }
    proof {
        super::origin::origin_views_index(frame.nodes);
        reveal_strlit("\n");
        assert("\n"@ =~= seq!['\n']);
        reveal_strlit("\n\n");
        assert("\n\n"@ =~= seq!['\n', '\n']);
    }
    if frame.nodes.len() == 0 && is_blank(&frame.text) && frame.separator
        == PendingSeparator::Line {
        let lead = match kind {
            TagKind::Paragraph => "\n\n",
            TagKind::CodeBlock
            | TagKind::List
            | TagKind::BlockQuote
            | TagKind::HtmlBlock
            | TagKind::Table => "\n",
            _ => {
                return;
            },
        };
        frame.separator = PendingSeparator::Nothing;
        append_text_at(frame, lead, anchor);
    }
}

fn prepare_nested(frame: &mut Frame, kind: TagKind)
    ensures
        final(frame)@ == frame_before_nested(old(frame)@, kind),
{
    let item = match &frame.kind {
        FrameKind::Item => true,
        _ => false,
    };
    let nested = item && (kind == TagKind::List || kind == TagKind::Table || kind
        == TagKind::CodeBlock);
    if nested || (kind == TagKind::List && frame.separator == PendingSeparator::Paragraph) {
        frame.separator = PendingSeparator::Line;
    }
}

fn report_opening(
    source: &SourcedText,
    tag: &MarkdownTag,
    start: usize,
    end: usize,
    diagnostics: &mut Diagnostics,
)
    ensures
        final(diagnostics)@ == old(diagnostics)@ + opening_report(*source, tag@, start, end),
{
    proof {
        assert(diagnostics@ + Seq::<DiagnosticView>::empty() =~= diagnostics@);
    }
    if let MarkdownTag::List(Some(first)) = tag {
        if *first != 1 {
            diagnose_range(
                source,
                "ordered Markdown list does not start at 1",
                start,
                end,
                diagnostics,
            );
        }
    }
}

fn make_frame_kind(tag: MarkdownTag, parent: &FrameKind, start: usize) -> (r: FrameKind)
    ensures
        r@ == frame_kind_for(tag@, parent@, start),
{
    let name = unsupported_tag_name(&tag);
    match tag {
        MarkdownTag::Link { destination, autolink: _ } => FrameKind::Link { destination, start },
        MarkdownTag::CodeBlock(info) => FrameKind::CodeBlock {
            executable_r: match &info {
                Some(info) => is_executable_r_chunk(info),
                None => false,
            },
            start,
        },
        MarkdownTag::List(first) => FrameKind::List {
            tag: if first.is_some() {
                RdMacro::Enumerate
            } else {
                RdMacro::Itemize
            },
            start,
        },
        MarkdownTag::Table(alignments) => if alignments.len() == 0 {
            FrameKind::Unsupported { name, start }
        } else {
            let rows: Vec<Vec<NodeWithOrigin>> = Vec::new();
            proof {
                assert(row_views(rows@) =~= Seq::<Seq<OriginView>>::empty());
            }
            FrameKind::Table { alignments, rows, start }
        },
        MarkdownTag::Heading(_) => FrameKind::Unsupported { name, start },
        MarkdownTag::Other(kind) => match kind {
            TagKind::Paragraph => FrameKind::Paragraph,
            TagKind::Emphasis => FrameKind::Tagged { tag: RdMacro::Emph, start },
            TagKind::Strong => FrameKind::Tagged { tag: RdMacro::Strong, start },
            TagKind::TableHead | TagKind::TableRow => match parent {
                FrameKind::Table { alignments, rows: _, start: _ } => {
                    let cells: Vec<CompletedCell> = Vec::new();
                    proof {
                        assert(super::table::cell_views(cells@) =~= Seq::<
                            super::table::CellView,
                        >::empty());
                    }
                    FrameKind::TableRow { cells, width: alignments.len(), start }
                },
                _ => FrameKind::Unsupported { name, start },
            },
            TagKind::TableCell => match parent {
                FrameKind::TableRow { .. } => FrameKind::TableCell,
                _ => FrameKind::Unsupported { name, start },
            },
            _ => FrameKind::Unsupported { name, start },
        },
    }
}

/// A frame with what a finished construct hands to it.
pub open spec fn frame_with_finished(
    frame: FrameView,
    finished: FinishedView,
    anchor: Option<Span>,
) -> FrameView {
    match finished {
        FinishedView::Cell(cell) => match frame.kind {
            FrameKindView::TableRow { cells, width, start } => FrameView {
                kind: FrameKindView::TableRow { cells: cells.push(cell), width, start },
                ..frame
            },
            _ => frame,
        },
        FinishedView::Row(nodes) => match frame.kind {
            FrameKindView::Table { alignments, rows, start } => FrameView {
                kind: FrameKindView::Table { alignments, rows: rows.push(nodes), start },
                ..frame
            },
            _ => frame,
        },
        FinishedView::Nodes(nodes) => with_flattened_all(frame, nodes, anchor),
    }
}

/// What is reported of a construct that closes inside the given frames.
pub open spec fn closing_report(
    source: SourcedText,
    frames: Seq<FrameView>,
    kind: FrameKindView,
    end: usize,
) -> Seq<DiagnosticView> {
    match kind {
        FrameKindView::Unsupported { name, start } => if is_redundant(frames, name) {
            Seq::empty()
        } else {
            construct_report(source, name, start, end)
        },
        _ => Seq::empty(),
    }
}

/// The state after the innermost construct has closed. A heading makes way for
/// the section below it. A closing without an open construct changes nothing.
#[verifier::opaque]
pub open spec fn after_end(
    setting: Setting,
    state: ConverterView,
    kind: TagKind,
    start: usize,
    end: usize,
) -> ConverterView {
    if state.frames.len() <= 1 {
        state
    } else {
        let frame = state.frames.last();
        let finish = finish_of(setting.source, setting.context, frame, end);
        let outer = ConverterView { frames: state.frames.drop_last(), ..state }.with_reports(
            finish.diagnostics,
        );
        match frame.kind {
            FrameKindView::Heading { level, start: opened } => outer.with_frame(
                subsection_frame(level, opened, finished_nodes(finish.finished)),
            ),
            _ => {
                let reported = outer.with_reports(
                    closing_report(setting.source, outer.frames, frame.kind, end),
                );
                let filled = frame_with_finished(
                    reported.frames.last(),
                    finish.finished,
                    anchor_of(setting.source, start),
                );
                reported.with_last(
                    FrameView {
                        separator: stronger(filled.separator, boundary_after(kind)),
                        ..filled
                    },
                )
            },
        }
    }
}

/// The state after an event that may lie in a raw macro; one that does is
/// skipped.
pub open spec fn hides(setting: Setting, state: ConverterView, range: ByteRange) -> bool {
    hidden_at(setting.macros, advanced(setting.macros, state.next_macro, range.start), range)
}

/// The state with the macro next that ends behind a position.
pub open spec fn caught_up(setting: Setting, state: ConverterView, position: usize) -> ConverterView {
    state.with_next(advanced(setting.macros, state.next_macro, position))
}

/// The state after an event that does not lie in a raw macro.
#[verifier::opaque]
pub open spec fn after_plain_event(
    setting: Setting,
    state: ConverterView,
    event: MarkdownEventView,
    start: usize,
    end: usize,
) -> ConverterView {
    let source = setting.source;
    match event {
        MarkdownEventView::Start(tag) => after_start(setting, state, tag, start, end),
        MarkdownEventView::End(kind) => after_end(setting, state, kind, start, end),
        MarkdownEventView::SoftBreak | MarkdownEventView::HardBreak => after_text(
            setting,
            state,
            seq!['\n'],
            ByteRange { start, end },
        ),
        MarkdownEventView::InlineMath(text)
        | MarkdownEventView::DisplayMath(text)
        | MarkdownEventView::FootnoteReference(text) => after_literal(
            source,
            state.with_reports(
                construct_report(source, "inline Markdown construct"@, start, end),
            ),
            text,
            start,
            end,
        ),
        MarkdownEventView::Html(text) | MarkdownEventView::InlineHtml(text) => after_literal(
            source,
            if in_unsupported(state.frames, "HTML block"@) {
                state
            } else {
                state.with_reports(construct_report(source, "raw HTML"@, start, end))
            },
            text,
            start,
            end,
        ),
        MarkdownEventView::TaskListMarker => state.with_reports(
            construct_report(source, "Markdown construct"@, start, end),
        ),
        MarkdownEventView::Text(text) => after_text(setting, state, text, ByteRange { start, end }),
        MarkdownEventView::Code(code) => after_code(setting, state, code, start, end),
        MarkdownEventView::Rule => {
            let last = state.frames.last();
            state.with_reports(
                construct_report(source, "Markdown construct"@, start, end),
            ).with_last(
                FrameView {
                    separator: stronger(last.separator, PendingSeparator::Paragraph),
                    ..last
                },
            )
        },
    }
}

/// Whether an event never gives way to a raw macro around it: text is split,
/// and code and rules stand for themselves.
pub open spec fn stands_for_itself(event: MarkdownEventView) -> bool {
    event is Text || event is Code || event is Rule
}

/// The state after an event. What lies in a raw macro is left to the macro.
pub open spec fn after_event(setting: Setting, state: ConverterView, event: SourcedEventView) -> ConverterView {
    if stands_for_itself(event.event) {
        after_plain_event(setting, state, event.event, event.start, event.end)
    } else {
        let ready = caught_up(setting, state, event.start);
        if hides(setting, state, ByteRange { start: event.start, end: event.end }) {
            ready
        } else {
            after_plain_event(setting, ready, event.event, event.start, event.end)
        }
    }
}

/// The state after events.
pub open spec fn after_events(
    setting: Setting,
    state: ConverterView,
    events: Seq<SourcedEventView>,
) -> ConverterView
    decreases events.len(),
{
    if events.len() == 0 {
        state
    } else {
        after_event(setting, after_events(setting, state, events.drop_last()), events.last())
    }
}

fn fill_frame(frame: &mut Frame, finished: FinishedFrame, anchor: Option<Span>)
    ensures
        final(frame)@ == frame_with_finished(old(frame)@, finished@, anchor),
{
    match finished {
        FinishedFrame::Nodes(nodes) => {
            append_flattened_nodes(frame, nodes, anchor);
        },
        FinishedFrame::Cell(cell) => {
            if let FrameKind::TableRow { cells, width: _, start: _ } = &mut frame.kind {
                let ghost before = cells@;
                cells.push(cell);
                proof {
                    assert(super::table::cell_views(cells@) =~= super::table::cell_views(
                        before,
                    ).push(cell@));
                }
            }
        },
        FinishedFrame::Row(nodes) => {
            if let FrameKind::Table { alignments: _, rows, start: _ } = &mut frame.kind {
                let ghost before = rows@;
                rows.push(nodes);
                proof {
                    assert(row_views(rows@) =~= row_views(before).push(origin_views(nodes)));
                }
            }
        },
    }
}

impl Converter {
    /// Closes the innermost construct.
    fn end<L: HelpLinkResolver>(
        &mut self,
        source: &SourcedText,
        context: &MarkdownContext<'_, L>,
        kind: TagKind,
        start: usize,
        end: usize,
        Ghost(setting): Ghost<Setting>,
    )
        requires
            old(self)@.frames.len() > 0,
            setting.source == *source,
            setting.context == context@,
        ensures
            final(self)@ == after_end(setting, old(self)@, kind, start, end),
            final(self)@.frames.len() > 0,
            final(self).next_macro == old(self).next_macro,
    {
        proof {
            reveal(after_end);
        }
        if self.frames.len() <= 1 {
            return;
        }
        let frame = self.take_last();
        let mut heading: Option<(usize, usize)> = None;
        let mut unsupported: Option<(String, usize)> = None;
        match &frame.kind {
            FrameKind::Heading { level, start: opened } => {
                heading = Some((*level, *opened));
            },
            FrameKind::Unsupported { name, start: opened } => {
                unsupported = Some((name.clone(), *opened));
            },
            _ => {},
        }
        let finished = finish_frame(source, context, frame, end, &mut self.diagnostics);
        if let Some((level, opened)) = heading {
            let title = match finished {
                FinishedFrame::Nodes(nodes) => nodes,
                _ => no_nodes(),
            };
            self.push_frame(Frame::subsection(level, opened, title));
            return;
        }
        let ghost outer = self@;
        if let Some((name, opened)) = unsupported {
            if !is_redundant_unsupported_envelope(&self.frames, &name) {
                diagnose_range(source, &name, opened, end, &mut self.diagnostics);
            } else {
                proof {
                    assert(outer.diagnostics + Seq::<DiagnosticView>::empty()
                        =~= outer.diagnostics);
                }
            }
        } else {
            proof {
                assert(outer.diagnostics + Seq::<DiagnosticView>::empty() =~= outer.diagnostics);
            }
        }
        let mut parent = self.take_last();
        fill_frame(&mut parent, finished, range_anchor(source, start));
        parent.separator = parent.separator.or_stronger(separator_after(kind));
        self.push_frame(parent);
    }

    fn plain_event<L: HelpLinkResolver>(
        &mut self,
        source: &SourcedText,
        context: &MarkdownContext<'_, L>,
        macros: &Vec<RawRdMacro>,
        event: MarkdownEvent,
        start: usize,
        end: usize,
        Ghost(setting): Ghost<Setting>,
    )
        requires
            is_sound(old(self)@, macro_views(macros@)),
            setting == (Setting {
                source: *source,
                context: context@,
                macros: macro_views(macros@),
            }),
        ensures
            final(self)@ == after_plain_event(setting, old(self)@, event@, start, end),
            is_sound(final(self)@, macro_views(macros@)),
    {
        proof {
            reveal(after_plain_event);
        }
        match event {
            MarkdownEvent::Start(tag) => {
                self.start(source, context, tag, start, end, Ghost(setting));
            },
            MarkdownEvent::End(kind) => {
                self.end(source, context, kind, start, end, Ghost(setting));
            },
            MarkdownEvent::SoftBreak | MarkdownEvent::HardBreak => {
                proof {
                    reveal_strlit("\n");
                    assert("\n"@ =~= seq!['\n']);
                }
                self.text(source, context, macros, "\n", ByteRange { start, end });
            },
            MarkdownEvent::InlineMath(text)
            | MarkdownEvent::DisplayMath(text)
            | MarkdownEvent::FootnoteReference(text) => {
                diagnose_range(
                    source,
                    "inline Markdown construct",
                    start,
                    end,
                    &mut self.diagnostics,
                );
                self.append_text(source, &text, start, end);
            },
            MarkdownEvent::Html(text) | MarkdownEvent::InlineHtml(text) => {
                if !is_in_unsupported(&self.frames, "HTML block") {
                    diagnose_range(source, "raw HTML", start, end, &mut self.diagnostics);
                }
                self.append_text(source, &text, start, end);
            },
            MarkdownEvent::TaskListMarker => {
                diagnose_range(source, "Markdown construct", start, end, &mut self.diagnostics);
            },
            MarkdownEvent::Text(text) => {
                self.text(source, context, macros, &text, ByteRange { start, end });
            },
            MarkdownEvent::Code(code) => {
                self.code(source, context, &code, start, end, Ghost(setting));
            },
            MarkdownEvent::Rule => {
                diagnose_range(source, "Markdown construct", start, end, &mut self.diagnostics);
                let mut frame = self.take_last();
                frame.separator = frame.separator.or_stronger(PendingSeparator::Paragraph);
                self.push_frame(frame);
            },
        }
    }

    /// Handles an event.
    fn handle<L: HelpLinkResolver>(
        &mut self,
        source: &SourcedText,
        context: &MarkdownContext<'_, L>,
        macros: &Vec<RawRdMacro>,
        event: SourcedEvent,
        Ghost(setting): Ghost<Setting>,
    )
        requires
            is_sound(old(self)@, macro_views(macros@)),
            setting == (Setting {
                source: *source,
                context: context@,
                macros: macro_views(macros@),
            }),
        ensures
            final(self)@ == after_event(setting, old(self)@, event@),
            is_sound(final(self)@, macro_views(macros@)),
    {
        let SourcedEvent { event, start, end } = event;
        let itself = match &event {
            MarkdownEvent::Text(_) => true,
            MarkdownEvent::Code(_) => true,
            MarkdownEvent::Rule => true,
            _ => false,
        };
        if !itself {
            let ghost before = self@;
            self.next_macro = advance_before(macros, self.next_macro, start);
            proof {
                assert(self@ == caught_up(setting, before, start));
            }
            if is_hidden_at(macros, self.next_macro, ByteRange { start, end }) {
                return;
            }
        }
        self.plain_event(source, context, macros, event, start, end, Ghost(setting));
    }
}

/// The nodes behind the last event and what was reported.
#[verifier::opaque]
pub open spec fn outcome(
    setting: Setting,
    reports: Seq<DiagnosticView>,
    events: Seq<SourcedEventView>,
) -> (Seq<OriginView>, Seq<DiagnosticView>) {
    let end = super::text_end(setting.source);
    let start = ConverterView {
        frames: seq![empty_frame(FrameKindView::Root)],
        diagnostics: reports,
        next_macro: 0,
    };
    let closed = after_sections(setting, after_events(setting, start, events), 0, end);
    let finish = finish_of(setting.source, setting.context, closed.frames.last(), end);
    (finished_nodes(finish.finished), closed.diagnostics + finish.diagnostics)
}

/// Converts events, behind what has been reported already.
pub(crate) fn run<L: HelpLinkResolver>(
    source: &SourcedText,
    context: &MarkdownContext<'_, L>,
    macros: &Vec<RawRdMacro>,
    events: Vec<SourcedEvent>,
    reports: Diagnostics,
) -> (r: (Vec<NodeWithOrigin>, Diagnostics))
    ensures
        (origin_views(r.0), r.1@) == outcome(
            (Setting { source: *source, context: context@, macros: macro_views(macros@) }),
            reports@,
            event_views(events@),
        ),
{
    let ghost setting = Setting {
        source: *source,
        context: context@,
        macros: macro_views(macros@),
    };
    let mut frames: Vec<Frame> = Vec::new();
    frames.push(Frame::root());
    let mut converter = Converter { frames, diagnostics: reports, next_macro: 0 };
    let ghost start = converter@;
    let ghost all = events@;
    let ghost shown = event_views(all);
    proof {
        reveal(outcome);
        assert(start.frames =~= seq![empty_frame(FrameKindView::Root)]);
        assert(shown.take(0) =~= Seq::<SourcedEventView>::empty());
    }
    for event in it: events
        invariant
            it.seq() == all,
            shown == event_views(all),
            setting == (Setting {
                source: *source,
                context: context@,
                macros: macro_views(macros@),
            }),
            is_sound(converter@, macro_views(macros@)),
            converter@ == after_events(setting, start, shown.take(it.index() as int)),
    {
        proof {
            let prefix = shown.take(it.index() + 1);
            assert(prefix.drop_last() =~= shown.take(it.index() as int));
            assert(prefix.last() == event@);
        }
        converter.handle(source, context, macros, event, Ghost(setting));
    }
    proof {
        assert(shown.take(shown.len() as int) =~= shown);
    }
    let end = source.text.as_str().as_bytes().len();
    converter.close_sections(source, context, 0, end, Ghost(setting));
    let last = converter.take_last();
    let finished = finish_frame(source, context, last, end, &mut converter.diagnostics);
    let nodes = match finished {
        FinishedFrame::Nodes(nodes) => nodes,
        _ => no_nodes(),
    };
    (nodes, converter.diagnostics)
}

} // verus!
