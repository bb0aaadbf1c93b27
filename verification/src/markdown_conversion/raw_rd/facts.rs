//! What the Markdown events say about the places where a raw macro may stand.
use vstd::prelude::*;

use super::super::events::{
    event_views, kind_of, MarkdownEvent, MarkdownEventView, MarkdownTag, MarkdownTagView,
    SourcedEvent, SourcedEventView, TagKind,
};
use super::scan::ByteRange;

verus! {

/// What matters of a construct to a macro in or around it.
#[derive(Debug, Clone, Copy, PartialEq, Eq, Structural)]
pub enum ConstructKind {
    Block,
    Inline,
    Link,
    Autolink,
    Image,
    Html,
}

/// A construct and the bytes that it covers.
#[derive(Debug, Clone, Copy, PartialEq, Eq, Structural)]
pub struct Construct {
    pub start: usize,
    pub end: usize,
    pub kind: ConstructKind,
}

/// A text event.
#[derive(Debug, PartialEq, Eq)]
pub struct TextEvent {
    pub range: ByteRange,
    pub text: String,
}

/// The model of [`TextEvent`].
pub struct TextEventView {
    pub range: ByteRange,
    pub text: Seq<char>,
}

impl View for TextEvent {
    type V = TextEventView;

    open spec fn view(&self) -> TextEventView {
        TextEventView { range: self.range, text: self.text@ }
    }
}

/// The models of text events.
pub open spec fn text_event_views(events: Seq<TextEvent>) -> Seq<TextEventView> {
    events.map_values(|event: TextEvent| event@)
}

/// What the events of a text say, each list in text order.
#[derive(Debug, PartialEq, Eq)]
pub struct EventFacts {
    /// All constructs.
    pub constructs: Vec<Construct>,
    /// The constructs that are still open, outermost first.
    pub open: Vec<Construct>,
    /// The text.
    pub text_events: Vec<TextEvent>,
    /// The raw HTML.
    pub html: Vec<ByteRange>,
    /// The code.
    pub opaque: Vec<ByteRange>,
    /// What becomes prose: text, line breaks and HTML.
    pub coverage: Vec<ByteRange>,
}

/// The model of [`EventFacts`].
pub struct FactsView {
    pub constructs: Seq<Construct>,
    pub open: Seq<Construct>,
    pub text_events: Seq<TextEventView>,
    pub html: Seq<ByteRange>,
    pub opaque: Seq<ByteRange>,
    pub coverage: Seq<ByteRange>,
}

impl View for EventFacts {
    type V = FactsView;

    open spec fn view(&self) -> FactsView {
        FactsView {
            constructs: self.constructs@,
            open: self.open@,
            text_events: text_event_views(self.text_events@),
            html: self.html@,
            opaque: self.opaque@,
            coverage: self.coverage@,
        }
    }
}

/// Whether one range comes before another, or both are the same.
pub open spec fn range_le(a: ByteRange, b: ByteRange) -> bool {
    a.start < b.start || (a.start == b.start && a.end <= b.end)
}

fn is_range_le(a: ByteRange, b: ByteRange) -> (r: bool)
    ensures
        r == range_le(a, b),
{
    a.start < b.start || (a.start == b.start && a.end <= b.end)
}

/// Ranges with one more at its place.
pub open spec fn with_range(ranges: Seq<ByteRange>, range: ByteRange) -> Seq<ByteRange>
    decreases ranges.len(),
{
    if ranges.len() == 0 || range_le(ranges.last(), range) {
        ranges.push(range)
    } else {
        with_range(ranges.drop_last(), range).push(ranges.last())
    }
}

fn insert_range(ranges: &mut Vec<ByteRange>, range: ByteRange)
    ensures
        final(ranges)@ == with_range(old(ranges)@, range),
{
    let mut at: usize = ranges.len();
    let ghost given = ranges@;
    proof {
        assert(given.take(given.len() as int) =~= given);
        assert(with_range(given, range) + given.skip(given.len() as int) =~= with_range(
            given,
            range,
        ));
    }
    while at > 0 && !is_range_le(ranges[at - 1], range)
        invariant
            at <= ranges@.len(),
            ranges@ == given,
            with_range(given, range) == with_range(given.take(at as int), range) + given.skip(
                at as int,
            ),
        decreases at,
    {
        proof {
            let front = given.take(at as int);
            assert(front.drop_last() =~= given.take(at - 1));
            assert(with_range(given.take(at - 1), range).push(given[at - 1]) + given.skip(
                at as int,
            ) =~= with_range(given.take(at - 1), range) + given.skip(at - 1));
        }
        at = at - 1;
    }
    proof {
        let front = given.take(at as int);
        assert(with_range(front, range) == front.push(range));
        assert(given.insert(at as int, range) =~= front.push(range) + given.skip(at as int));
    }
    ranges.insert(at, range);
}

/// The bytes of a construct.
pub open spec fn construct_range(construct: Construct) -> ByteRange {
    ByteRange { start: construct.start, end: construct.end }
}

fn range_of(construct: Construct) -> (r: ByteRange)
    ensures
        r == construct_range(construct),
{
    ByteRange { start: construct.start, end: construct.end }
}

/// Constructs with one more at its place.
pub open spec fn with_construct(constructs: Seq<Construct>, construct: Construct) -> Seq<Construct>
    decreases constructs.len(),
{
    if constructs.len() == 0 || range_le(
        construct_range(constructs.last()),
        construct_range(construct),
    ) {
        constructs.push(construct)
    } else {
        with_construct(constructs.drop_last(), construct).push(constructs.last())
    }
}

fn insert_construct(constructs: &mut Vec<Construct>, construct: Construct)
    ensures
        final(constructs)@ == with_construct(old(constructs)@, construct),
{
    let mut at: usize = constructs.len();
    let range = range_of(construct);
    let ghost given = constructs@;
    proof {
        assert(given.take(given.len() as int) =~= given);
        assert(with_construct(given, construct) + given.skip(given.len() as int)
            =~= with_construct(given, construct));
    }
    while at > 0 && !is_range_le(range_of(constructs[at - 1]), range)
        invariant
            at <= constructs@.len(),
            constructs@ == given,
            range == construct_range(construct),
            with_construct(given, construct) == with_construct(given.take(at as int), construct)
                + given.skip(at as int),
        decreases at,
    {
        proof {
            let front = given.take(at as int);
            assert(front.drop_last() =~= given.take(at - 1));
            assert(with_construct(given.take(at - 1), construct).push(given[at - 1]) + given.skip(
                at as int,
            ) =~= with_construct(given.take(at - 1), construct) + given.skip(at - 1));
        }
        at = at - 1;
    }
    proof {
        let front = given.take(at as int);
        assert(with_construct(front, construct) == front.push(construct));
        assert(given.insert(at as int, construct) =~= front.push(construct) + given.skip(
            at as int,
        ));
    }
    constructs.insert(at, construct);
}

/// Text events with one more at its place.
pub open spec fn with_text_event(events: Seq<TextEventView>, event: TextEventView) -> Seq<
    TextEventView,
>
    decreases events.len(),
{
    if events.len() == 0 || range_le(events.last().range, event.range) {
        events.push(event)
    } else {
        with_text_event(events.drop_last(), event).push(events.last())
    }
}

fn insert_text_event(events: &mut Vec<TextEvent>, event: TextEvent)
    ensures
        text_event_views(final(events)@) == with_text_event(text_event_views(old(events)@), event@),
{
    let mut at: usize = events.len();
    let ghost given = text_event_views(events@);
    let ghost held = events@;
    proof {
        assert(given.take(given.len() as int) =~= given);
        assert(with_text_event(given, event@) + given.skip(given.len() as int) =~= with_text_event(
            given,
            event@,
        ));
    }
    while at > 0 && !is_range_le(events[at - 1].range, event.range)
        invariant
            at <= events@.len(),
            events@ == held,
            given == text_event_views(held),
            with_text_event(given, event@) == with_text_event(given.take(at as int), event@)
                + given.skip(at as int),
        decreases at,
    {
        proof {
            let front = given.take(at as int);
            assert(front.last() == held[at - 1]@);
            assert(front.drop_last() =~= given.take(at - 1));
            assert(with_text_event(given.take(at - 1), event@).push(given[at - 1]) + given.skip(
                at as int,
            ) =~= with_text_event(given.take(at - 1), event@) + given.skip(at - 1));
        }
        at = at - 1;
    }
    proof {
        let front = given.take(at as int);
        if at > 0 {
            assert(front.last() == held[at - 1]@);
        }
        assert(with_text_event(front, event@) == front.push(event@));
        assert(text_event_views(held.insert(at as int, event)) =~= front.push(event@) + given.skip(
            at as int,
        ));
    }
    events.insert(at, event);
}

/// The construct that a tag opens.
pub open spec fn construct_kind(tag: MarkdownTagView) -> ConstructKind {
    match tag {
        MarkdownTagView::Link { destination, autolink } => if autolink {
            ConstructKind::Autolink
        } else {
            ConstructKind::Link
        },
        _ => match kind_of(tag) {
            TagKind::Link => ConstructKind::Link,
            TagKind::Image => ConstructKind::Image,
            TagKind::HtmlBlock => ConstructKind::Html,
            TagKind::Emphasis
            | TagKind::Strong
            | TagKind::Strikethrough
            | TagKind::Superscript
            | TagKind::Subscript => ConstructKind::Inline,
            _ => ConstructKind::Block,
        },
    }
}

fn classify_tag(tag: &MarkdownTag) -> (r: ConstructKind)
    ensures
        r == construct_kind(tag@),
{
    if let MarkdownTag::Link { destination: _, autolink } = tag {
        return if *autolink {
            ConstructKind::Autolink
        } else {
            ConstructKind::Link
        };
    }
    match tag.kind() {
        TagKind::Link => ConstructKind::Link,
        TagKind::Image => ConstructKind::Image,
        TagKind::HtmlBlock => ConstructKind::Html,
        TagKind::Emphasis
        | TagKind::Strong
        | TagKind::Strikethrough
        | TagKind::Superscript
        | TagKind::Subscript => ConstructKind::Inline,
        TagKind::Paragraph
        | TagKind::Heading
        | TagKind::BlockQuote
        | TagKind::CodeBlock
        | TagKind::List
        | TagKind::Item
        | TagKind::FootnoteDefinition
        | TagKind::DefinitionList
        | TagKind::DefinitionListTitle
        | TagKind::DefinitionListDefinition
        | TagKind::Table
        | TagKind::TableHead
        | TagKind::TableRow
        | TagKind::TableCell
        | TagKind::MetadataBlock => ConstructKind::Block,
    }
}

/// No facts.
pub open spec fn no_facts() -> FactsView {
    FactsView {
        constructs: Seq::empty(),
        open: Seq::empty(),
        text_events: Seq::empty(),
        html: Seq::empty(),
        opaque: Seq::empty(),
        coverage: Seq::empty(),
    }
}

/// The bytes of an event.
pub open spec fn event_range(event: SourcedEventView) -> ByteRange {
    ByteRange { start: event.start, end: event.end }
}

/// The facts after one more event.
pub open spec fn with_event(facts: FactsView, event: SourcedEventView) -> FactsView {
    let range = event_range(event);
    match event.event {
        MarkdownEventView::Start(tag) => FactsView {
            open: facts.open.push(
                Construct { start: event.start, end: event.end, kind: construct_kind(tag) },
            ),
            ..facts
        },
        MarkdownEventView::End(kind) => if facts.open.len() == 0 {
            facts
        } else {
            let opened = facts.open.last();
            let closed = Construct { end: event.end, ..opened };
            FactsView {
                constructs: with_construct(facts.constructs, closed),
                open: facts.open.drop_last(),
                opaque: if kind == TagKind::CodeBlock {
                    with_range(facts.opaque, construct_range(closed))
                } else {
                    facts.opaque
                },
                ..facts
            }
        },
        MarkdownEventView::Text(text) => FactsView {
            text_events: with_text_event(facts.text_events, TextEventView { range, text }),
            coverage: with_range(facts.coverage, range),
            ..facts
        },
        MarkdownEventView::SoftBreak | MarkdownEventView::HardBreak => FactsView {
            coverage: with_range(facts.coverage, range),
            ..facts
        },
        MarkdownEventView::Code(_) => FactsView {
            opaque: with_range(facts.opaque, range),
            ..facts
        },
        MarkdownEventView::Html(_) | MarkdownEventView::InlineHtml(_) => FactsView {
            html: with_range(facts.html, range),
            coverage: with_range(facts.coverage, range),
            ..facts
        },
        _ => facts,
    }
}

/// What events say.
pub open spec fn facts_of(events: Seq<SourcedEventView>) -> FactsView
    decreases events.len(),
{
    if events.len() == 0 {
        no_facts()
    } else {
        with_event(facts_of(events.drop_last()), events.last())
    }
}

impl EventFacts {
    fn empty() -> (r: Self)
        ensures
            r@ == no_facts(),
    {
        let r = EventFacts {
            constructs: Vec::new(),
            open: Vec::new(),
            text_events: Vec::new(),
            html: Vec::new(),
            opaque: Vec::new(),
            coverage: Vec::new(),
        };
        proof {
            assert(r@.text_events =~= Seq::<TextEventView>::empty());
        }
        r
    }

    fn add_event(&mut self, event: &SourcedEvent)
        ensures
            final(self)@ == with_event(old(self)@, event@),
    {
        let range = ByteRange { start: event.start, end: event.end };
        match &event.event {
            MarkdownEvent::Start(tag) => {
                self.open.push(
                    Construct { start: event.start, end: event.end, kind: classify_tag(tag) },
                );
            },
            MarkdownEvent::End(kind) => {
                if let Some(opened) = self.open.pop() {
                    let closed = Construct {
                        start: opened.start,
                        end: event.end,
                        kind: opened.kind,
                    };
                    if *kind == TagKind::CodeBlock {
                        insert_range(&mut self.opaque, range_of(closed));
                    }
                    insert_construct(&mut self.constructs, closed);
                }
            },
            MarkdownEvent::Text(text) => {
                insert_text_event(&mut self.text_events, TextEvent { range, text: text.clone() });
                insert_range(&mut self.coverage, range);
            },
            MarkdownEvent::SoftBreak | MarkdownEvent::HardBreak => {
                insert_range(&mut self.coverage, range);
            },
            MarkdownEvent::Code(_) => {
                insert_range(&mut self.opaque, range);
            },
            MarkdownEvent::Html(_) | MarkdownEvent::InlineHtml(_) => {
                insert_range(&mut self.html, range);
                insert_range(&mut self.coverage, range);
            },
            _ => {},
        }
    }

    /// Collects what events say.
    pub fn new(events: &Vec<SourcedEvent>) -> (r: Self)
        ensures
            r@ == facts_of(event_views(events@)),
    {
        let mut facts = EventFacts::empty();
        let mut i: usize = 0;
        let ghost shown = event_views(events@);
        proof {
            assert(shown.take(0) =~= Seq::<SourcedEventView>::empty());
        }
        while i < events.len()
            invariant
                i <= events@.len(),
                shown == event_views(events@),
                facts@ == facts_of(shown.take(i as int)),
            decreases events@.len() - i,
        {
            proof {
                let prefix = shown.take(i + 1);
                assert(prefix.drop_last() =~= shown.take(i as int));
                assert(prefix.last() == events@[i as int]@);
            }
            facts.add_event(&events[i]);
            i = i + 1;
        }
        proof {
            assert(shown.take(shown.len() as int) =~= shown);
        }
        facts
    }
}

} // verus!
