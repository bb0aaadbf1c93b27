//! Laws of the places that converted nodes and words come from.
use crate::markdown_conversion::fragment::{
    fragment_of, node_origins, option_origins, sibling_origins, FragmentOriginView,
    FragmentPathSegment,
};
use crate::markdown_conversion::frame::{merged_span, merged_spans};
use crate::markdown_conversion::origin::{OriginView, ShapeView};
use crate::rd::NodeView;
use crate::source::Span;
use crate::tags::byte_position;
use vstd::prelude::*;

verus! {

proof fn siblings_hold(
    nodes: Seq<OriginView>,
    count: int,
    path: Seq<FragmentPathSegment>,
    i: int,
    origin: FragmentOriginView,
)
    requires
        0 <= i < count <= nodes.len(),
        node_origins(nodes[i], path.push(FragmentPathSegment::Child(i as usize))).contains(origin),
    ensures
        sibling_origins(nodes, count, path).contains(origin),
    decreases count,
{
    let before = sibling_origins(nodes, count - 1, path);
    let all = sibling_origins(nodes, count, path);
    if i < count - 1 {
        siblings_hold(nodes, count - 1, path, i, origin);
        let k = before.index_of(origin);
        assert(all[k] == origin);
    } else {
        let own = node_origins(nodes[i], path.push(FragmentPathSegment::Child(i as usize)));
        let k = own.index_of(origin);
        assert(all[before.len() + k] == origin);
    }
}

proof fn nodes_have_their_own(node: OriginView, path: Seq<FragmentPathSegment>)
    ensures
        node_origins(node, path).len() > 0,
        node_origins(node, path)[0] == (FragmentOriginView { path, spans: node.spans }),
{
}

/// A node has the origin of its place and its spans, and its arguments have theirs at the places
/// below it: whatever is known of an argument is known in the whole.
pub proof fn arguments_have_their_origins(
    node: OriginView,
    path: Seq<FragmentPathSegment>,
    children: Seq<OriginView>,
    i: int,
    origin: FragmentOriginView,
)
    requires
        node.shape == ShapeView::Group(children) || (node.shape is Tagged
            && node.shape->Tagged_children == children),
        0 <= i < children.len(),
    ensures
        node_origins(node, path).contains(FragmentOriginView { path, spans: node.spans }),
        node_origins(node, path).contains(
            FragmentOriginView {
                path: path.push(FragmentPathSegment::Child(i as usize)),
                spans: children[i].spans,
            },
        ),
        node_origins(children[i], path.push(FragmentPathSegment::Child(i as usize))).contains(
            origin,
        ) ==> node_origins(node, path).contains(origin),
{
    nodes_have_their_own(node, path);
    let all = node_origins(node, path);
    let below = sibling_origins(children, children.len() as int, path);
    let place = path.push(FragmentPathSegment::Child(i as usize));
    let own = FragmentOriginView { path: place, spans: children[i].spans };
    nodes_have_their_own(children[i], place);
    assert(node_origins(children[i], place).contains(own));
    siblings_hold(children, children.len() as int, path, i, own);
    let k = below.index_of(own);
    assert(all[1 + k] == own);
    if node_origins(children[i], place).contains(origin) {
        siblings_hold(children, children.len() as int, path, i, origin);
        let l = below.index_of(origin);
        assert(all[1 + l] == origin);
    }
}

/// What stands in the option of a macro goes by the spans of the macro, at places below the
/// option.
pub proof fn options_have_the_origin_of_their_macro(
    node: OriginView,
    path: Seq<FragmentPathSegment>,
    option: Seq<NodeView>,
    i: int,
)
    requires
        node.shape is Tagged,
        node.shape->Tagged_option == Some(option),
        0 <= i < option.len(),
    ensures
        node_origins(node, path).contains(
            FragmentOriginView {
                path: path.push(FragmentPathSegment::Option).push(
                    FragmentPathSegment::Child(i as usize),
                ),
                spans: node.spans,
            },
        ),
{
    let all = node_origins(node, path);
    let place = path.push(FragmentPathSegment::Option);
    let children = node.shape->Tagged_children;
    let below = sibling_origins(children, children.len() as int, path);
    let held = option_origins(option, option.len() as int, place, node.spans);
    options_hold(option, option.len() as int, place, node.spans, i);
    let own = FragmentOriginView {
        path: place.push(FragmentPathSegment::Child(i as usize)),
        spans: node.spans,
    };
    let k = held.index_of(own);
    assert(all[1 + below.len() + k] == own);
}

proof fn options_hold(
    nodes: Seq<NodeView>,
    count: int,
    path: Seq<FragmentPathSegment>,
    spans: Seq<Span>,
    i: int,
)
    requires
        0 <= i < count <= nodes.len(),
    ensures
        option_origins(nodes, count, path, spans).contains(
            FragmentOriginView { path: path.push(FragmentPathSegment::Child(i as usize)), spans },
        ),
    decreases count,
{
    let own = FragmentOriginView {
        path: path.push(FragmentPathSegment::Child(i as usize)),
        spans,
    };
    let before = option_origins(nodes, count - 1, path, spans);
    let all = option_origins(nodes, count, path, spans);
    if i < count - 1 {
        options_hold(nodes, count - 1, path, spans, i);
        let k = before.index_of(own);
        assert(all[k] == own);
    } else {
        assert(all[before.len() as int] == own);
    }
}

/// A fragment knows the origin of each of its nodes.
pub proof fn fragments_know_their_origins(nodes: Seq<OriginView>, i: int, origin: FragmentOriginView)
    requires
        0 <= i < nodes.len(),
        node_origins(
            nodes[i],
            Seq::<FragmentPathSegment>::empty().push(FragmentPathSegment::Child(i as usize)),
        ).contains(origin),
    ensures
        fragment_of(nodes).origins.contains(origin),
{
    siblings_hold(nodes, nodes.len() as int, Seq::empty(), i, origin);
}

/// Whether some span of a list covers an offset of a file.
pub open spec fn covered(spans: Seq<Span>, file: u32, at: int) -> bool {
    exists|i: int|
        0 <= i < spans.len() && (#[trigger] spans[i]).file.id == file && spans[i].range.from <= at
            < spans[i].range.to
}

proof fn one_more_is_covered(spans: Seq<Span>, span: Span, file: u32, at: int)
    requires
        forall|i: int|
            0 <= i < spans.len() ==> (#[trigger] spans[i]).range.from <= spans[i].range.to,
        span.range.from <= span.range.to,
    ensures
        covered(merged_span(spans, span), file, at) <==> covered(spans, file, at) || (span.file.id
            == file && span.range.from <= at < span.range.to),
        forall|i: int|
            0 <= i < merged_span(spans, span).len() ==> (#[trigger] merged_span(
                spans,
                span,
            )[i]).range.from <= merged_span(spans, span)[i].range.to,
{
    let after = merged_span(spans, span);
    if after == spans.push(span) {
        if covered(spans, file, at) {
            let i = choose|i: int|
                0 <= i < spans.len() && (#[trigger] spans[i]).file.id == file
                    && spans[i].range.from <= at < spans[i].range.to;
            assert(after[i] == spans[i]);
        }
        if span.file.id == file && span.range.from <= at < span.range.to {
            assert(after[spans.len() as int] == span);
        }
        if covered(after, file, at) {
            let i = choose|i: int|
                0 <= i < after.len() && (#[trigger] after[i]).file.id == file
                    && after[i].range.from <= at < after[i].range.to;
            if i < spans.len() {
                assert(spans[i] == after[i]);
            }
        }
    } else {
        let n: int = spans.len() - 1;
        let joined = after[n];
        assert(joined.file == spans[n].file && joined.range.from == spans[n].range.from
            && joined.range.to == span.range.to);
        assert(spans[n].range.to == span.range.from && spans[n].file == span.file);
        assert(spans[n].range.from <= spans[n].range.to);
        if covered(spans, file, at) {
            let i = choose|i: int|
                0 <= i < spans.len() && (#[trigger] spans[i]).file.id == file
                    && spans[i].range.from <= at < spans[i].range.to;
            assert(after[i].file.id == file && after[i].range.from <= at < after[i].range.to);
        }
        if span.file.id == file && span.range.from <= at < span.range.to {
            assert(after[n].range.from <= at < after[n].range.to);
        }
        if covered(after, file, at) {
            let i = choose|i: int|
                0 <= i < after.len() && (#[trigger] after[i]).file.id == file
                    && after[i].range.from <= at < after[i].range.to;
            if i < n {
                assert(spans[i] == after[i]);
            } else if at < span.range.from {
                assert(spans[n].range.from <= at < spans[n].range.to);
            }
        }
    }
}

/// Spans that are put together cover what they covered before, no more and no less. The order of
/// the spans does not change, and one that goes on where the last ended makes it longer.
pub proof fn joined_spans_cover_the_same(spans: Seq<Span>, more: Seq<Span>, file: u32, at: int)
    requires
        forall|i: int|
            0 <= i < spans.len() ==> (#[trigger] spans[i]).range.from <= spans[i].range.to,
        forall|i: int|
            0 <= i < more.len() ==> (#[trigger] more[i]).range.from <= more[i].range.to,
    ensures
        covered(merged_spans(spans, more), file, at) <==> covered(spans, file, at) || covered(
            more,
            file,
            at,
        ),
        forall|i: int|
            0 <= i < merged_spans(spans, more).len() ==> (#[trigger] merged_spans(
                spans,
                more,
            )[i]).range.from <= merged_spans(spans, more)[i].range.to,
        merged_spans(spans, more).len() <= spans.len() + more.len(),
    decreases more.len(),
{
    if more.len() > 0 {
        let front = more.drop_last();
        assert forall|i: int| 0 <= i < front.len() implies (#[trigger] front[i]).range.from
            <= front[i].range.to by {
            assert(front[i] == more[i]);
        }
        joined_spans_cover_the_same(spans, front, file, at);
        let last = more[more.len() - 1];
        assert(last.range.from <= last.range.to);
        one_more_is_covered(merged_spans(spans, front), last, file, at);
        if covered(front, file, at) {
            let i = choose|i: int|
                0 <= i < front.len() && (#[trigger] front[i]).file.id == file
                    && front[i].range.from <= at < front[i].range.to;
            assert(more[i] == front[i]);
        }
        if covered(more, file, at) {
            let i = choose|i: int|
                0 <= i < more.len() && (#[trigger] more[i]).file.id == file && more[i].range.from
                    <= at < more[i].range.to;
            if i < front.len() {
                assert(front[i] == more[i]);
            }
        }
    }
}

/// Two spans of a file that touch become one.
pub proof fn touching_spans_become_one(a: Span, b: Span)
    requires
        a.file == b.file,
        a.range.from < a.range.to,
        a.range.to == b.range.from,
        b.range.from < b.range.to,
    ensures
        merged_span(seq![a], b).len() == 1,
        merged_span(seq![a], b)[0].range.from == a.range.from,
        merged_span(seq![a], b)[0].range.to == b.range.to,
        merged_span(seq![a], b)[0].file == a.file,
{
    assert(seq![a].last() == a);
}

/// The offset behind a text is the sum of the bytes of its characters: one for ASCII, and two,
/// three or four for others. It stays at the greatest offset once it would pass it.
pub proof fn offsets_count_bytes(text: Seq<char>, c: char)
    ensures
        byte_position(Seq::empty()) == 0,
        ({
            let before = byte_position(text) as int;
            let after = byte_position(text.push(c)) as int;
            let most = u32::MAX as int;
            let width: int = if c <= '\u{7f}' {
                1
            } else if c <= '\u{7ff}' {
                2
            } else if c <= '\u{ffff}' {
                3
            } else {
                4
            };
            &&& before + width <= most ==> after == before + width
            &&& before + width > most ==> after == most
        }),
{
    assert(text.push(c).drop_last() =~= text);
}

} // verus!
