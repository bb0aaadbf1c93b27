//! Whether a raw macro may stand where it was found.
use crate::source::{byte_slice, slice_bytes};
use crate::text::same_text;
use vstd::prelude::*;

use super::super::events::SourcedEventView;
use super::facts::{
    construct_range, facts_of, range_le, with_range, with_text_event, Construct, ConstructKind,
    EventFacts, FactsView, TextEventView,
};
use super::scan::ByteRange;

verus! {

/// Whether two ranges share a byte.
pub open spec fn touches(a: ByteRange, b: ByteRange) -> bool {
    a.start < b.end && b.start < a.end
}

/// Whether one range lies in another.
pub open spec fn lies_in(inner: ByteRange, outer: ByteRange) -> bool {
    outer.start <= inner.start && inner.end <= outer.end
}

fn do_touch(a: ByteRange, b: ByteRange) -> (r: bool)
    ensures
        r == touches(a, b),
{
    a.start < b.end && b.start < a.end
}

fn does_lie_in(inner: ByteRange, outer: ByteRange) -> (r: bool)
    ensures
        r == lies_in(inner, outer),
{
    outer.start <= inner.start && inner.end <= outer.end
}

/// Whether no piece of HTML crosses the border of a macro.
pub open spec fn html_allows(html: Seq<ByteRange>, candidate: ByteRange) -> bool {
    forall|i: int|
        0 <= i < html.len() && touches(#[trigger] html[i], candidate) ==> lies_in(
            html[i],
            candidate,
        )
}

fn html_boundaries_allow(html: &Vec<ByteRange>, candidate: ByteRange) -> (r: bool)
    ensures
        r == html_allows(html@, candidate),
{
    let mut i: usize = 0;
    while i < html.len()
        invariant
            i <= html@.len(),
            forall|k: int|
                0 <= k < i && touches(#[trigger] html@[k], candidate) ==> lies_in(
                    html@[k],
                    candidate,
                ),
        decreases html@.len() - i,
    {
        if do_touch(html[i], candidate) && !does_lie_in(html[i], candidate) {
            assert(touches(html@[i as int], candidate));
            return false;
        }
        i = i + 1;
    }
    true
}

/// Whether every piece of code that a macro touches is around all of it.
pub open spec fn code_allows(opaque: Seq<ByteRange>, candidate: ByteRange) -> bool {
    forall|i: int|
        0 <= i < opaque.len() && touches(#[trigger] opaque[i], candidate) ==> lies_in(
            candidate,
            opaque[i],
        )
}

fn opaque_ranges_allow(opaque: &Vec<ByteRange>, candidate: ByteRange) -> (r: bool)
    ensures
        r == code_allows(opaque@, candidate),
{
    let mut i: usize = 0;
    while i < opaque.len()
        invariant
            i <= opaque@.len(),
            forall|k: int|
                0 <= k < i && touches(#[trigger] opaque@[k], candidate) ==> lies_in(
                    candidate,
                    opaque@[k],
                ),
        decreases opaque@.len() - i,
    {
        if do_touch(opaque[i], candidate) && !does_lie_in(candidate, opaque[i]) {
            assert(touches(opaque@[i as int], candidate));
            return false;
        }
        i = i + 1;
    }
    true
}

/// Whether a construct leaves room for a macro. One that starts before the
/// macro and reaches into it reaches to its end at least, and past its end
/// unless it is an automatic link or HTML. One that starts in the macro and
/// reaches past it is a block that starts with it. A block in the macro covers
/// all of it.
pub open spec fn construct_allows(construct: Construct, candidate: ByteRange) -> bool {
    if construct.start >= candidate.end {
        true
    } else if construct.start < candidate.start {
        construct.end <= candidate.start || construct.end == candidate.end || (construct.end
            > candidate.end && construct.kind != ConstructKind::Autolink && construct.kind
            != ConstructKind::Html)
    } else if construct.end > candidate.end {
        construct.start == candidate.start && construct.kind == ConstructKind::Block
    } else {
        construct.kind != ConstructKind::Block || construct_range(construct) == candidate
    }
}

fn does_construct_allow(construct: Construct, candidate: ByteRange) -> (r: bool)
    ensures
        r == construct_allows(construct, candidate),
{
    if construct.start >= candidate.end {
        true
    } else if construct.start < candidate.start {
        construct.end <= candidate.start || construct.end == candidate.end || (construct.end
            > candidate.end && construct.kind != ConstructKind::Autolink && construct.kind
            != ConstructKind::Html)
    } else if construct.end > candidate.end {
        construct.start == candidate.start && construct.kind == ConstructKind::Block
    } else {
        construct.kind != ConstructKind::Block || (construct.start == candidate.start
            && construct.end == candidate.end)
    }
}

/// Whether all constructs leave room for a macro.
pub open spec fn constructs_allow(constructs: Seq<Construct>, candidate: ByteRange) -> bool {
    forall|i: int|
        0 <= i < constructs.len() ==> construct_allows(#[trigger] constructs[i], candidate)
}

/// The constructs in a macro, among the first `count`.
pub open spec fn contained_upto(
    constructs: Seq<Construct>,
    count: int,
    candidate: ByteRange,
) -> Seq<ByteRange>
    decreases count,
{
    if count <= 0 {
        Seq::empty()
    } else {
        let before = contained_upto(constructs, count - 1, candidate);
        let range = construct_range(constructs[count - 1]);
        if range.start < candidate.end && lies_in(range, candidate) {
            before.push(range)
        } else {
            before
        }
    }
}

/// Looks at all constructs: those in the macro, unless one leaves no room for
/// it.
fn contained_constructs(constructs: &Vec<Construct>, candidate: ByteRange) -> (r: Option<
    Vec<ByteRange>,
>)
    ensures
        match r {
            Some(contained) => constructs_allow(constructs@, candidate) && contained@
                == contained_upto(constructs@, constructs@.len() as int, candidate),
            None => !constructs_allow(constructs@, candidate),
        },
{
    let mut contained: Vec<ByteRange> = Vec::new();
    let mut i: usize = 0;
    while i < constructs.len()
        invariant
            i <= constructs@.len(),
            forall|k: int|
                0 <= k < i ==> construct_allows(#[trigger] constructs@[k], candidate),
            contained@ == contained_upto(constructs@, i as int, candidate),
        decreases constructs@.len() - i,
    {
        let construct = constructs[i];
        if !does_construct_allow(construct, candidate) {
            assert(!construct_allows(constructs@[i as int], candidate));
            return None;
        }
        let range = ByteRange { start: construct.start, end: construct.end };
        if range.start < candidate.end && does_lie_in(range, candidate) {
            contained.push(range);
        }
        i = i + 1;
    }
    Some(contained)
}

/// Whether the text event around a position, if there is one, reads as the
/// source does, so that it can be split there.
pub open spec fn position_is_aligned(
    text: Seq<char>,
    events: Seq<TextEventView>,
    position: usize,
) -> bool {
    forall|i: int|
        0 <= i < events.len() && (#[trigger] events[i]).range.start < position
            < events[i].range.end ==> byte_slice(
            text,
            events[i].range.start as int,
            events[i].range.end as int,
        ) == Some(events[i].text)
}

/// The ranges that touch a macro, among the first `count`.
pub open spec fn touching_upto(ranges: Seq<ByteRange>, count: int, candidate: ByteRange) -> Seq<
    ByteRange,
>
    decreases count,
{
    if count <= 0 {
        Seq::empty()
    } else {
        let before = touching_upto(ranges, count - 1, candidate);
        if touches(ranges[count - 1], candidate) {
            before.push(ranges[count - 1])
        } else {
            before
        }
    }
}

/// How far two lists of ranges reach without a gap, from a position on, when
/// they are taken in text order. A single backslash is no gap.
pub open spec fn reach(
    text: Seq<char>,
    prose: Seq<ByteRange>,
    inner: Seq<ByteRange>,
    i: int,
    j: int,
    position: usize,
) -> Option<usize>
    decreases prose.len() - i + inner.len() - j,
{
    if i < 0 || j < 0 || i > prose.len() || j > inner.len() {
        None
    } else if i == prose.len() && j == inner.len() {
        Some(position)
    } else {
        let first = j == inner.len() || (i < prose.len() && prose[i].start <= inner[j].start);
        let next = if first {
            prose[i]
        } else {
            inner[j]
        };
        if next.start > position && byte_slice(text, position as int, next.start as int) != Some(
            "\\"@,
        ) {
            None
        } else {
            let further = if next.end > position {
                next.end
            } else {
                position
            };
            if first {
                reach(text, prose, inner, i + 1, j, further)
            } else {
                reach(text, prose, inner, i, j + 1, further)
            }
        }
    }
}

/// Whether text, line breaks, HTML and constructs cover all of a macro.
pub open spec fn is_covered(text: Seq<char>, facts: FactsView, candidate: ByteRange) -> bool {
    let prose = touching_upto(facts.coverage, facts.coverage.len() as int, candidate);
    let inner = contained_upto(facts.constructs, facts.constructs.len() as int, candidate);
    reach(text, prose, inner, 0, 0, candidate.start) matches Some(end) && end >= candidate.end
}

/// Whether a macro may stand where it was found.
pub open spec fn accepts(text: Seq<char>, facts: FactsView, candidate: ByteRange) -> bool {
    &&& candidate.start < candidate.end
    &&& html_allows(facts.html, candidate)
    &&& code_allows(facts.opaque, candidate)
    &&& constructs_allow(facts.constructs, candidate)
    &&& position_is_aligned(text, facts.text_events, candidate.start)
    &&& position_is_aligned(text, facts.text_events, candidate.end)
    &&& is_covered(text, facts, candidate)
}

/// Whether ranges are in text order.
pub open spec fn in_text_order(ranges: Seq<ByteRange>) -> bool {
    forall|i: int, j: int|
        0 <= i < j < ranges.len() ==> range_le(#[trigger] ranges[i], #[trigger] ranges[j])
}

/// Whether text events are in text order.
pub open spec fn events_in_text_order(events: Seq<TextEventView>) -> bool {
    forall|i: int, j: int|
        0 <= i < j < events.len() ==> range_le(
            (#[trigger] events[i]).range,
            (#[trigger] events[j]).range,
        )
}

proof fn with_range_keeps_order(ranges: Seq<ByteRange>, range: ByteRange)
    requires
        in_text_order(ranges),
    ensures
        in_text_order(with_range(ranges, range)),
        forall|k: int|
            0 <= k < with_range(ranges, range).len() ==> (#[trigger] with_range(ranges, range)[k])
                == range || ranges.contains(with_range(ranges, range)[k]),
    decreases ranges.len(),
{
    let after = with_range(ranges, range);
    if ranges.len() == 0 || range_le(ranges.last(), range) {
        assert forall|i: int, j: int| 0 <= i < j < after.len() implies range_le(
            #[trigger] after[i],
            #[trigger] after[j],
        ) by {
            if j < ranges.len() {
            } else {
                if i < ranges.len() - 1 {
                    assert(range_le(ranges[i], ranges[ranges.len() - 1]));
                }
            }
        }
        assert forall|k: int| 0 <= k < after.len() implies (#[trigger] after[k]) == range
            || ranges.contains(after[k]) by {
            if k < ranges.len() {
                assert(after[k] == ranges[k]);
            }
        }
    } else {
        let front = ranges.drop_last();
        let inner = with_range(front, range);
        with_range_keeps_order(front, range);
        assert forall|i: int, j: int| 0 <= i < j < after.len() implies range_le(
            #[trigger] after[i],
            #[trigger] after[j],
        ) by {
            if j < inner.len() {
                assert(after[i] == inner[i] && after[j] == inner[j]);
            } else {
                assert(after[i] == inner[i]);
                if inner[i] != range {
                    let k = choose|k: int| 0 <= k < front.len() && front[k] == inner[i];
                    assert(range_le(ranges[k], ranges[ranges.len() - 1]));
                }
            }
        }
        assert forall|k: int| 0 <= k < after.len() implies (#[trigger] after[k]) == range
            || ranges.contains(after[k]) by {
            if k < inner.len() {
                assert(after[k] == inner[k]);
                if inner[k] != range {
                    let m = choose|m: int| 0 <= m < front.len() && front[m] == inner[k];
                    assert(ranges[m] == inner[k]);
                }
            } else {
                assert(ranges[ranges.len() - 1] == after[k]);
            }
        }
    }
}

proof fn with_text_event_keeps_order(events: Seq<TextEventView>, event: TextEventView)
    requires
        events_in_text_order(events),
    ensures
        events_in_text_order(with_text_event(events, event)),
        forall|k: int|
            0 <= k < with_text_event(events, event).len() ==> (#[trigger] with_text_event(
                events,
                event,
            )[k]) == event || events.contains(with_text_event(events, event)[k]),
    decreases events.len(),
{
    let after = with_text_event(events, event);
    if events.len() == 0 || range_le(events.last().range, event.range) {
        assert forall|i: int, j: int| 0 <= i < j < after.len() implies range_le(
            (#[trigger] after[i]).range,
            (#[trigger] after[j]).range,
        ) by {
            if j < events.len() {
            } else {
                if i < events.len() - 1 {
                    assert(range_le(events[i].range, events[events.len() - 1].range));
                }
            }
        }
        assert forall|k: int| 0 <= k < after.len() implies (#[trigger] after[k]) == event
            || events.contains(after[k]) by {
            if k < events.len() {
                assert(after[k] == events[k]);
            }
        }
    } else {
        let front = events.drop_last();
        let inner = with_text_event(front, event);
        with_text_event_keeps_order(front, event);
        assert forall|i: int, j: int| 0 <= i < j < after.len() implies range_le(
            (#[trigger] after[i]).range,
            (#[trigger] after[j]).range,
        ) by {
            if j < inner.len() {
                assert(after[i] == inner[i] && after[j] == inner[j]);
            } else {
                assert(after[i] == inner[i]);
                if inner[i] != event {
                    let k = choose|k: int| 0 <= k < front.len() && front[k] == inner[i];
                    assert(range_le(events[k].range, events[events.len() - 1].range));
                }
            }
        }
        assert forall|k: int| 0 <= k < after.len() implies (#[trigger] after[k]) == event
            || events.contains(after[k]) by {
            if k < inner.len() {
                assert(after[k] == inner[k]);
                if inner[k] != event {
                    let m = choose|m: int| 0 <= m < front.len() && front[m] == inner[k];
                    assert(events[m] == inner[k]);
                }
            } else {
                assert(events[events.len() - 1] == after[k]);
            }
        }
    }
}

/// What is read of a text is in text order, whatever order the events come in.
pub proof fn facts_are_in_text_order(events: Seq<SourcedEventView>)
    ensures
        in_text_order(facts_of(events).coverage),
        in_text_order(facts_of(events).html),
        in_text_order(facts_of(events).opaque),
        events_in_text_order(facts_of(events).text_events),
    decreases events.len(),
{
    if events.len() > 0 {
        let before = facts_of(events.drop_last());
        let event = events.last();
        facts_are_in_text_order(events.drop_last());
        let range = super::facts::event_range(event);
        with_range_keeps_order(before.coverage, range);
        with_range_keeps_order(before.html, range);
        with_range_keeps_order(before.opaque, range);
        if event.event is End && before.open.len() > 0 {
            let closed = Construct { end: event.end, ..before.open.last() };
            with_range_keeps_order(before.opaque, construct_range(closed));
        }
        if let super::super::events::MarkdownEventView::Text(text) = event.event {
            with_text_event_keeps_order(before.text_events, TextEventView { range, text });
        }
    }
}

proof fn untouched_part(ranges: Seq<ByteRange>, candidate: ByteRange, from: int, to: int)
    requires
        0 <= from <= to <= ranges.len(),
        forall|k: int| from <= k < to ==> !touches(#[trigger] ranges[k], candidate),
    ensures
        touching_upto(ranges, to, candidate) == touching_upto(ranges, from, candidate),
    decreases to - from,
{
    if from < to {
        untouched_part(ranges, candidate, from, to - 1);
        assert(!touches(ranges[to - 1], candidate));
    }
}

/// How far the lists have been read: the entries before these places end at or
/// before `from`.
pub struct CandidateSweep {
    from: usize,
    text_skip: usize,
    coverage_skip: usize,
}

impl CandidateSweep {
    /// Whether the places fit the lists.
    pub closed spec fn fits(&self, facts: FactsView) -> bool {
        &&& self.text_skip <= facts.text_events.len()
        &&& self.coverage_skip <= facts.coverage.len()
        &&& forall|k: int|
            0 <= k < self.text_skip ==> (#[trigger] facts.text_events[k]).range.end <= self.from
        &&& forall|k: int|
            0 <= k < self.coverage_skip ==> (#[trigger] facts.coverage[k]).end <= self.from
    }

    /// Nothing has been read.
    pub fn new() -> (r: Self)
        ensures
            forall|facts: FactsView| #[trigger] r.fits(facts),
    {
        CandidateSweep { from: 0, text_skip: 0, coverage_skip: 0 }
    }

    fn advance(&mut self, facts: &EventFacts, start: usize)
        requires
            old(self).fits(facts@),
        ensures
            final(self).fits(facts@),
            final(self).from == start,
    {
        if start < self.from {
            self.text_skip = 0;
            self.coverage_skip = 0;
        }
        self.from = start;
        while self.text_skip < facts.text_events.len() && facts.text_events[self.text_skip].range.end
            <= start
            invariant
                self.from == start,
                self.fits(facts@),
            decreases facts.text_events@.len() - self.text_skip,
        {
            proof {
                assert(facts@.text_events[self.text_skip as int]
                    == facts.text_events@[self.text_skip as int]@);
            }
            self.text_skip = self.text_skip + 1;
        }
        while self.coverage_skip < facts.coverage.len() && facts.coverage[self.coverage_skip].end
            <= start
            invariant
                self.from == start,
                self.fits(facts@),
            decreases facts.coverage@.len() - self.coverage_skip,
        {
            self.coverage_skip = self.coverage_skip + 1;
        }
    }

    fn boundaries_are_aligned(&self, text: &str, facts: &EventFacts, candidate: ByteRange) -> (r:
        bool)
        requires
            self.fits(facts@),
            self.from == candidate.start,
            candidate.start < candidate.end,
            events_in_text_order(facts@.text_events),
        ensures
            r == (position_is_aligned(text@, facts@.text_events, candidate.start)
                && position_is_aligned(text@, facts@.text_events, candidate.end)),
    {
        let ghost events = facts@.text_events;
        let mut i: usize = self.text_skip;
        while i < facts.text_events.len() && facts.text_events[i].range.start < candidate.end
            invariant
                self.fits(facts@),
                self.from == candidate.start,
                candidate.start < candidate.end,
                events == facts@.text_events,
                events.len() == facts.text_events@.len(),
                i <= events.len(),
                forall|k: int|
                    0 <= k < i && (#[trigger] events[k]).range.start < candidate.start
                        < events[k].range.end ==> byte_slice(
                        text@,
                        events[k].range.start as int,
                        events[k].range.end as int,
                    ) == Some(events[k].text),
                forall|k: int|
                    0 <= k < i && (#[trigger] events[k]).range.start < candidate.end
                        < events[k].range.end ==> byte_slice(
                        text@,
                        events[k].range.start as int,
                        events[k].range.end as int,
                    ) == Some(events[k].text),
            decreases facts.text_events@.len() - i,
        {
            let event = &facts.text_events[i];
            let range = event.range;
            proof {
                assert(events[i as int] == facts.text_events@[i as int]@);
            }
            if (range.start < candidate.start && candidate.start < range.end) || (range.start
                < candidate.end && candidate.end < range.end) {
                let same = match slice_bytes(text, range.start, range.end) {
                    Some(slice) => same_text(slice, &event.text),
                    None => false,
                };
                if !same {
                    assert(byte_slice(
                        text@,
                        events[i as int].range.start as int,
                        events[i as int].range.end as int,
                    ) != Some(events[i as int].text));
                    return false;
                }
            }
            i = i + 1;
        }
        proof {
            assert forall|k: int| i <= k < events.len() implies (#[trigger] events[k]).range.start
                >= candidate.end by {
                if i < k {
                    assert(range_le(events[i as int].range, events[k].range));
                }
                assert(events[i as int] == facts.text_events@[i as int]@);
            }
        }
        true
    }

    fn touching_ranges(&self, facts: &EventFacts, candidate: ByteRange) -> (r: Vec<ByteRange>)
        requires
            self.fits(facts@),
            self.from == candidate.start,
            in_text_order(facts@.coverage),
        ensures
            r@ == touching_upto(facts@.coverage, facts@.coverage.len() as int, candidate),
    {
        let ghost ranges = facts@.coverage;
        let mut out: Vec<ByteRange> = Vec::new();
        let mut i: usize = self.coverage_skip;
        proof {
            untouched_part(ranges, candidate, 0, i as int);
        }
        while i < facts.coverage.len() && facts.coverage[i].start < candidate.end
            invariant
                i <= facts.coverage@.len(),
                ranges == facts.coverage@,
                out@ == touching_upto(ranges, i as int, candidate),
            decreases facts.coverage@.len() - i,
        {
            if do_touch(facts.coverage[i], candidate) {
                out.push(facts.coverage[i]);
            }
            i = i + 1;
        }
        proof {
            assert forall|k: int| i <= k < ranges.len() implies !touches(
                #[trigger] ranges[k],
                candidate,
            ) by {
                if i < k {
                    assert(range_le(ranges[i as int], ranges[k]));
                }
            }
            untouched_part(ranges, candidate, i as int, ranges.len() as int);
        }
        out
    }

    /// Decides whether a macro may stand where it was found.
    pub fn accepts_candidate(&mut self, text: &str, facts: &EventFacts, candidate: ByteRange) -> (r:
        bool)
        requires
            old(self).fits(facts@),
            in_text_order(facts@.coverage),
            events_in_text_order(facts@.text_events),
        ensures
            final(self).fits(facts@),
            r == accepts(text@, facts@, candidate),
    {
        if candidate.start >= candidate.end {
            return false;
        }
        if !html_boundaries_allow(&facts.html, candidate) || !opaque_ranges_allow(
            &facts.opaque,
            candidate,
        ) {
            return false;
        }
        let contained = match contained_constructs(&facts.constructs, candidate) {
            Some(contained) => contained,
            None => {
                return false;
            },
        };
        self.advance(facts, candidate.start);
        if !self.boundaries_are_aligned(text, facts, candidate) {
            return false;
        }
        let prose = self.touching_ranges(facts, candidate);
        match reached(text, &prose, &contained, candidate.start) {
            Some(end) => end >= candidate.end,
            None => false,
        }
    }
}

fn reached(text: &str, prose: &Vec<ByteRange>, inner: &Vec<ByteRange>, from: usize) -> (r: Option<
    usize,
>)
    ensures
        r == reach(text@, prose@, inner@, 0, 0, from),
{
    let mut position: usize = from;
    let mut i: usize = 0;
    let mut j: usize = 0;
    while i < prose.len() || j < inner.len()
        invariant
            i <= prose@.len(),
            j <= inner@.len(),
            reach(text@, prose@, inner@, 0, 0, from) == reach(
                text@,
                prose@,
                inner@,
                i as int,
                j as int,
                position,
            ),
        decreases prose@.len() - i + inner@.len() - j,
    {
        let first = j == inner.len() || (i < prose.len() && prose[i].start <= inner[j].start);
        let next = if first {
            prose[i]
        } else {
            inner[j]
        };
        if next.start > position {
            let escape = match slice_bytes(text, position, next.start) {
                Some(slice) => same_text(slice, "\\"),
                None => false,
            };
            if !escape {
                return None;
            }
        }
        if next.end > position {
            position = next.end;
        }
        if first {
            i = i + 1;
        } else {
            j = j + 1;
        }
    }
    Some(position)
}

} // verus!
