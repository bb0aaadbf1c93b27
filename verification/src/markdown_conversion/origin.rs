//! Rd nodes with the source spans that they come from.
use crate::rd::{
    copy_nodes, copy_option, node_views, node_views_index, opt_node_views, NodeView, RdMacro,
    RdNode, RdTag, TagView,
};
use crate::source::Span;
use crate::text::{opt_text, texts};
use vstd::prelude::*;

use super::leaf::{line_chunks, physical_line_chunks};

verus! {

/// A node and its source spans.
#[derive(Debug, PartialEq, Eq)]
pub struct NodeWithOrigin {
    pub shape: Shape,
    pub spans: Vec<Span>,
}

/// What a node is. The arguments of a macro and of a group have spans of their
/// own; what stands in an option or in a raw node goes by the node's spans.
#[derive(Debug, PartialEq, Eq)]
pub enum Shape {
    Text(String),
    RCode(String),
    Verb(String),
    Comment(String),
    Group(Vec<NodeWithOrigin>),
    Tagged { tag: RdTag, option: Option<Vec<RdNode>>, children: Vec<NodeWithOrigin> },
    Raw {
        tag: Option<String>,
        opaque: String,
        option: Option<Vec<RdNode>>,
        children: Vec<RdNode>,
    },
}

/// The model of [`NodeWithOrigin`].
pub struct OriginView {
    pub shape: ShapeView,
    pub spans: Seq<Span>,
}

/// The model of [`Shape`].
#[allow(inconsistent_fields)]
pub enum ShapeView {
    Text(Seq<char>),
    RCode(Seq<char>),
    Verb(Seq<char>),
    Comment(Seq<char>),
    Group(Seq<OriginView>),
    Tagged { tag: TagView, option: Option<Seq<NodeView>>, children: Seq<OriginView> },
    Raw {
        tag: Option<Seq<char>>,
        opaque: Seq<char>,
        option: Option<Seq<NodeView>>,
        children: Seq<NodeView>,
    },
}

/// The models of the first `count` nodes.
pub open spec fn origin_views_upto(nodes: Vec<NodeWithOrigin>, count: int) -> Seq<OriginView>
    decreases nodes, count,
{
    if count <= 0 || count > nodes@.len() {
        Seq::empty()
    } else {
        origin_views_upto(nodes, count - 1).push(origin_view(nodes@[count - 1]))
    }
}

/// The models of nodes.
pub open spec fn origin_views(nodes: Vec<NodeWithOrigin>) -> Seq<OriginView>
    decreases nodes, nodes@.len() + 1,
{
    origin_views_upto(nodes, nodes@.len() as int)
}

/// The model of a shape.
pub open spec fn shape_view(shape: Shape) -> ShapeView
    decreases shape, 0int,
{
    match shape {
        Shape::Text(text) => ShapeView::Text(text@),
        Shape::RCode(text) => ShapeView::RCode(text@),
        Shape::Verb(text) => ShapeView::Verb(text@),
        Shape::Comment(text) => ShapeView::Comment(text@),
        Shape::Group(children) => ShapeView::Group(origin_views(children)),
        Shape::Tagged { tag, option, children } => ShapeView::Tagged {
            tag: tag@,
            option: opt_node_views(option),
            children: origin_views(children),
        },
        Shape::Raw { tag, opaque, option, children } => ShapeView::Raw {
            tag: opt_text(tag),
            opaque: opaque@,
            option: opt_node_views(option),
            children: node_views(children),
        },
    }
}

/// The model of a node.
pub open spec fn origin_view(node: NodeWithOrigin) -> OriginView
    decreases node, 0int,
{
    OriginView { shape: shape_view(node.shape), spans: node.spans@ }
}

impl View for NodeWithOrigin {
    type V = OriginView;

    open spec fn view(&self) -> OriginView {
        origin_view(*self)
    }
}

/// Every node has its model at its place.
pub proof fn origin_views_index(nodes: Vec<NodeWithOrigin>)
    ensures
        origin_views(nodes).len() == nodes@.len(),
        forall|i: int|
            0 <= i < nodes@.len() ==> #[trigger] origin_views(nodes)[i] == origin_view(nodes@[i]),
{
    origin_views_upto_index(nodes, nodes@.len() as int);
}

proof fn origin_views_upto_index(nodes: Vec<NodeWithOrigin>, count: int)
    requires
        0 <= count <= nodes@.len(),
    ensures
        origin_views_upto(nodes, count).len() == count,
        forall|i: int|
            0 <= i < count ==> #[trigger] origin_views_upto(nodes, count)[i] == origin_view(
                nodes@[i],
            ),
    decreases count,
{
    if count > 0 {
        origin_views_upto_index(nodes, count - 1);
    }
}

/// The models of nodes after one more was added at the end.
pub proof fn origin_views_push(before: Vec<NodeWithOrigin>, after: Vec<NodeWithOrigin>)
    requires
        after@.len() > 0,
        after@.drop_last() == before@,
    ensures
        origin_views(after) == origin_views(before).push(origin_view(after@.last())),
{
    origin_views_index(before);
    origin_views_index(after);
    assert(after@.len() == before@.len() + 1);
    assert forall|i: int| 0 <= i < after@.len() implies origin_views(after)[i] == origin_views(
        before,
    ).push(origin_view(after@.last()))[i] by {
        if i < before@.len() {
            assert(after@[i] == before@[i]);
        }
    }
    assert(origin_views(after) =~= origin_views(before).push(origin_view(after@.last())));
}

/// The models of no nodes.
pub proof fn origin_views_empty(nodes: Vec<NodeWithOrigin>)
    requires
        nodes@.len() == 0,
    ensures
        origin_views(nodes) == Seq::<OriginView>::empty(),
{
}

/// Appends a node.
pub fn push_node(nodes: &mut Vec<NodeWithOrigin>, node: NodeWithOrigin)
    ensures
        origin_views(*final(nodes)) == origin_views(*old(nodes)).push(node@),
{
    let ghost before = *nodes;
    nodes.push(node);
    proof {
        assert(nodes@.drop_last() =~= before@);
        origin_views_push(before, *nodes);
    }
}

/// Appends nodes.
pub fn push_nodes(nodes: &mut Vec<NodeWithOrigin>, more: Vec<NodeWithOrigin>)
    ensures
        origin_views(*final(nodes)) == origin_views(*old(nodes)) + origin_views(more),
{
    let ghost before = *nodes;
    let ghost added = more;
    let mut more = more;
    nodes.append(&mut more);
    proof {
        origin_views_index(before);
        origin_views_index(added);
        origin_views_index(*nodes);
        assert forall|i: int| 0 <= i < nodes@.len() implies origin_views(*nodes)[i] == (
        origin_views(before) + origin_views(added))[i] by {
            if i < before@.len() {
                assert(nodes@[i] == before@[i]);
            } else {
                assert(nodes@[i] == added@[i - before@.len()]);
            }
        }
        assert(origin_views(*nodes) =~= origin_views(before) + origin_views(added));
    }
}

/// A single node as a list.
pub fn one_node(node: NodeWithOrigin) -> (r: Vec<NodeWithOrigin>)
    ensures
        origin_views(r) == seq![node@],
{
    let mut nodes: Vec<NodeWithOrigin> = Vec::new();
    proof {
        origin_views_empty(nodes);
    }
    push_node(&mut nodes, node);
    proof {
        assert(origin_views(nodes) =~= seq![node@]);
    }
    nodes
}

/// Two nodes as a list.
pub fn two_nodes(first: NodeWithOrigin, second: NodeWithOrigin) -> (r: Vec<NodeWithOrigin>)
    ensures
        origin_views(r) == seq![first@, second@],
{
    let mut nodes = one_node(first);
    push_node(&mut nodes, second);
    proof {
        assert(origin_views(nodes) =~= seq![first@, second@]);
    }
    nodes
}

/// No nodes.
pub fn no_nodes() -> (r: Vec<NodeWithOrigin>)
    ensures
        origin_views(r) == Seq::<OriginView>::empty(),
{
    let nodes: Vec<NodeWithOrigin> = Vec::new();
    proof {
        origin_views_empty(nodes);
    }
    nodes
}

/// Copies spans.
pub fn copy_spans(spans: &Vec<Span>) -> (r: Vec<Span>)
    ensures
        r@ == spans@,
{
    let mut out: Vec<Span> = Vec::new();
    let mut i: usize = 0;
    while i < spans.len()
        invariant
            i <= spans@.len(),
            out@ == spans@.take(i as int),
        decreases spans@.len() - i,
    {
        out.push(spans[i]);
        proof {
            assert(spans@.take(i + 1) =~= spans@.take(i as int).push(spans@[i as int]));
        }
        i = i + 1;
    }
    proof {
        assert(spans@.take(spans@.len() as int) =~= spans@);
    }
    out
}

/// Whether two lists of spans are the same.
pub fn same_spans(a: &Vec<Span>, b: &Vec<Span>) -> (r: bool)
    ensures
        r == (a@ == b@),
{
    if a.len() != b.len() {
        return false;
    }
    let mut i: usize = 0;
    while i < a.len()
        invariant
            i <= a@.len() == b@.len(),
            forall|k: int| 0 <= k < i ==> a@[k] == b@[k],
        decreases a@.len() - i,
    {
        if a[i] != b[i] {
            return false;
        }
        i = i + 1;
    }
    proof {
        assert(a@ =~= b@);
    }
    true
}

/// An optional span as a list.
pub open spec fn span_seq(span: Option<Span>) -> Seq<Span> {
    match span {
        Some(span) => seq![span],
        None => Seq::empty(),
    }
}

/// An optional span as a list.
pub fn span_list(span: Option<Span>) -> (r: Vec<Span>)
    ensures
        r@ == span_seq(span),
{
    let mut spans: Vec<Span> = Vec::new();
    if let Some(span) = span {
        spans.push(span);
    }
    proof {
        assert(spans@ =~= span_seq(span));
    }
    spans
}

/// A text leaf.
pub open spec fn text_leaf(text: Seq<char>, spans: Seq<Span>) -> OriginView {
    OriginView { shape: ShapeView::Text(text), spans }
}

/// A verbatim leaf.
pub open spec fn verb_leaf(text: Seq<char>, spans: Seq<Span>) -> OriginView {
    OriginView { shape: ShapeView::Verb(text), spans }
}

/// A macro without option.
pub open spec fn tagged(tag: RdMacro, children: Seq<OriginView>, spans: Seq<Span>) -> OriginView {
    OriginView {
        shape: ShapeView::Tagged { tag: TagView::Named(tag), option: None, children },
        spans,
    }
}

/// A brace group.
pub open spec fn group(children: Seq<OriginView>, spans: Seq<Span>) -> OriginView {
    OriginView { shape: ShapeView::Group(children), spans }
}

/// Makes a text leaf.
pub fn make_text(text: String, spans: Vec<Span>) -> (r: NodeWithOrigin)
    ensures
        r@ == text_leaf(text@, spans@),
{
    NodeWithOrigin { shape: Shape::Text(text), spans }
}

/// Makes a verbatim leaf.
pub fn make_verb(text: String, spans: Vec<Span>) -> (r: NodeWithOrigin)
    ensures
        r@ == verb_leaf(text@, spans@),
{
    NodeWithOrigin { shape: Shape::Verb(text), spans }
}

/// Makes a macro without option.
pub fn make_tagged(tag: RdMacro, children: Vec<NodeWithOrigin>, spans: Vec<Span>) -> (r:
    NodeWithOrigin)
    ensures
        r@ == tagged(tag, origin_views(children), spans@),
{
    NodeWithOrigin {
        shape: Shape::Tagged { tag: RdTag::Named(tag), option: None, children },
        spans,
    }
}

/// Makes a brace group.
pub fn make_group(children: Vec<NodeWithOrigin>, spans: Vec<Span>) -> (r: NodeWithOrigin)
    ensures
        r@ == group(origin_views(children), spans@),
{
    NodeWithOrigin { shape: Shape::Group(children), spans }
}

/// Text leaves, one for each physical line, all with the same spans.
pub open spec fn text_leaves(text: Seq<char>, spans: Seq<Span>) -> Seq<OriginView> {
    line_chunks(text).map_values(|line: Seq<char>| text_leaf(line, spans))
}

/// Verbatim leaves, one for each physical line, all with the same spans.
pub open spec fn verb_leaves(text: Seq<char>, spans: Seq<Span>) -> Seq<OriginView> {
    line_chunks(text).map_values(|line: Seq<char>| verb_leaf(line, spans))
}

/// Makes text leaves.
pub fn make_text_leaves(text: &str, spans: &Vec<Span>) -> (r: Vec<NodeWithOrigin>)
    ensures
        origin_views(r) == text_leaves(text@, spans@),
{
    let chunks = physical_line_chunks(text);
    let ghost shown = texts(chunks@);
    let ghost make = |line: Seq<char>| text_leaf(line, spans@);
    let mut nodes = no_nodes();
    proof {
        assert(origin_views(nodes) =~= shown.take(0).map_values(make));
    }
    for chunk in it: chunks
        invariant
            texts(it.seq()) == shown,
            make == (|line: Seq<char>| text_leaf(line, spans@)),
            origin_views(nodes) == shown.take(it.index() as int).map_values(make),
    {
        let ghost before = origin_views(nodes);
        proof {
            assert(shown[it.index() as int] == chunk@);
        }
        let ghost line = chunk@;
        push_node(&mut nodes, make_text(chunk, copy_spans(spans)));
        proof {
            assert(origin_views(nodes) =~= before.push(make(line)));
            assert(origin_views(nodes) =~= shown.take(it.index() + 1).map_values(make));
        }
    }
    proof {
        assert(shown.take(shown.len() as int) =~= shown);
    }
    nodes
}

/// Makes verbatim leaves.
pub fn make_verb_leaves(text: &str, spans: &Vec<Span>) -> (r: Vec<NodeWithOrigin>)
    ensures
        origin_views(r) == verb_leaves(text@, spans@),
{
    let chunks = physical_line_chunks(text);
    let ghost shown = texts(chunks@);
    let ghost make = |line: Seq<char>| verb_leaf(line, spans@);
    let mut nodes = no_nodes();
    proof {
        assert(origin_views(nodes) =~= shown.take(0).map_values(make));
    }
    for chunk in it: chunks
        invariant
            texts(it.seq()) == shown,
            make == (|line: Seq<char>| verb_leaf(line, spans@)),
            origin_views(nodes) == shown.take(it.index() as int).map_values(make),
    {
        let ghost before = origin_views(nodes);
        proof {
            assert(shown[it.index() as int] == chunk@);
        }
        let ghost line = chunk@;
        push_node(&mut nodes, make_verb(chunk, copy_spans(spans)));
        proof {
            assert(origin_views(nodes) =~= before.push(make(line)));
            assert(origin_views(nodes) =~= shown.take(it.index() + 1).map_values(make));
        }
    }
    proof {
        assert(shown.take(shown.len() as int) =~= shown);
    }
    nodes
}

/// The nodes of a list, all with the same spans.
pub open spec fn spread_all(nodes: Seq<NodeView>, spans: Seq<Span>) -> Seq<OriginView>
    decreases nodes, nodes.len(),
{
    if nodes.len() == 0 {
        Seq::empty()
    } else {
        spread_all(nodes.drop_last(), spans).push(spread(nodes.last(), spans))
    }
}

/// A node and its arguments, all with the same spans.
pub open spec fn spread(node: NodeView, spans: Seq<Span>) -> OriginView
    decreases node, 0nat,
{
    OriginView {
        shape: match node {
            NodeView::Text(text) => ShapeView::Text(text),
            NodeView::RCode(text) => ShapeView::RCode(text),
            NodeView::Verb(text) => ShapeView::Verb(text),
            NodeView::Comment(text) => ShapeView::Comment(text),
            NodeView::Group(children) => ShapeView::Group(spread_all(children, spans)),
            NodeView::Tagged { tag, option, children } => ShapeView::Tagged {
                tag,
                option,
                children: spread_all(children, spans),
            },
            NodeView::Raw { tag, opaque, option, children } => ShapeView::Raw {
                tag,
                opaque,
                option,
                children,
            },
        },
        spans,
    }
}

proof fn spread_all_step(nodes: Seq<NodeView>, spans: Seq<Span>, count: int)
    requires
        0 <= count < nodes.len(),
    ensures
        spread_all(nodes.take(count + 1), spans) == spread_all(nodes.take(count), spans).push(
            spread(nodes[count], spans),
        ),
{
    assert(nodes.take(count + 1).drop_last() =~= nodes.take(count));
}

/// Gives every node of a list the same spans.
pub fn spread_nodes(nodes: &Vec<RdNode>, spans: &Vec<Span>) -> (r: Vec<NodeWithOrigin>)
    ensures
        origin_views(r) == spread_all(node_views(*nodes), spans@),
    decreases *nodes, nodes@.len() + 1,
{
    let ghost shown = node_views(*nodes);
    let mut out = no_nodes();
    let mut i: usize = 0;
    proof {
        assert(shown.take(0) =~= Seq::<NodeView>::empty());
    }
    while i < nodes.len()
        invariant
            i <= nodes@.len(),
            shown == node_views(*nodes),
            origin_views(out) == spread_all(shown.take(i as int), spans@),
        decreases nodes@.len() - i,
    {
        push_node(&mut out, node_with_origin(&nodes[i], spans));
        proof {
            node_views_index(*nodes);
            spread_all_step(shown, spans@, i as int);
        }
        i = i + 1;
    }
    proof {
        node_views_index(*nodes);
        assert(shown.take(shown.len() as int) =~= shown);
    }
    out
}

/// Gives a node and all its arguments the same spans.
pub fn node_with_origin(node: &RdNode, spans: &Vec<Span>) -> (r: NodeWithOrigin)
    ensures
        r@ == spread(node@, spans@),
    decreases *node, 0int,
{
    let shape = match node {
        RdNode::Text(text) => Shape::Text(text.clone()),
        RdNode::RCode(text) => Shape::RCode(text.clone()),
        RdNode::Verb(text) => Shape::Verb(text.clone()),
        RdNode::Comment(text) => Shape::Comment(text.clone()),
        RdNode::Group(children) => Shape::Group(spread_nodes(children, spans)),
        RdNode::Tagged { tag, option, children } => Shape::Tagged {
            tag: tag.clone(),
            option: copy_option(option),
            children: spread_nodes(children, spans),
        },
        RdNode::Raw { tag, opaque, option, children } => Shape::Raw {
            tag: match tag {
                Some(tag) => Some(tag.clone()),
                None => None,
            },
            opaque: opaque.clone(),
            option: copy_option(option),
            children: copy_nodes(children),
        },
    };
    NodeWithOrigin { shape, spans: copy_spans(spans) }
}

/// The nodes without their spans.
pub open spec fn bare_all(nodes: Seq<OriginView>) -> Seq<NodeView>
    decreases nodes, nodes.len(),
{
    if nodes.len() == 0 {
        Seq::empty()
    } else {
        bare_all(nodes.drop_last()).push(bare(nodes.last()))
    }
}

/// A node without its spans.
pub open spec fn bare(node: OriginView) -> NodeView
    decreases node, 0nat,
{
    match node.shape {
        ShapeView::Text(text) => NodeView::Text(text),
        ShapeView::RCode(text) => NodeView::RCode(text),
        ShapeView::Verb(text) => NodeView::Verb(text),
        ShapeView::Comment(text) => NodeView::Comment(text),
        ShapeView::Group(children) => NodeView::Group(bare_all(children)),
        ShapeView::Tagged { tag, option, children } => NodeView::Tagged {
            tag,
            option,
            children: bare_all(children),
        },
        ShapeView::Raw { tag, opaque, option, children } => NodeView::Raw {
            tag,
            opaque,
            option,
            children,
        },
    }
}

/// Every node stands at its place.
pub proof fn bare_all_index(nodes: Seq<OriginView>)
    ensures
        bare_all(nodes).len() == nodes.len(),
        forall|i: int| 0 <= i < nodes.len() ==> #[trigger] bare_all(nodes)[i] == bare(nodes[i]),
    decreases nodes.len(),
{
    if nodes.len() > 0 {
        bare_all_index(nodes.drop_last());
        assert forall|i: int| 0 <= i < nodes.len() implies #[trigger] bare_all(nodes)[i] == bare(
            nodes[i],
        ) by {
            if i < nodes.len() - 1 {
                assert(nodes.drop_last()[i] == nodes[i]);
            }
        }
    }
}

/// Takes the spans off a list of nodes.
pub fn bare_nodes(nodes: &Vec<NodeWithOrigin>) -> (r: Vec<RdNode>)
    ensures
        node_views(r) == bare_all(origin_views(*nodes)),
    decreases *nodes, nodes@.len() + 1,
{
    let mut out: Vec<RdNode> = Vec::new();
    let mut i: usize = 0;
    while i < nodes.len()
        invariant
            i <= nodes@.len(),
            out@.len() == i,
            forall|k: int| 0 <= k < i ==> (#[trigger] out@[k])@ == bare(nodes@[k]@),
        decreases nodes@.len() - i,
    {
        out.push(bare_node(&nodes[i]));
        i = i + 1;
    }
    proof {
        let shown = origin_views(*nodes);
        origin_views_index(*nodes);
        node_views_index(out);
        bare_all_index(shown);
        assert forall|k: int| 0 <= k < out@.len() implies node_views(out)[k] == bare_all(
            shown,
        )[k] by {
            assert(out@[k]@ == bare(nodes@[k]@));
        }
        assert(node_views(out) =~= bare_all(shown));
    }
    out
}

/// Takes the spans off a node.
pub fn bare_node(node: &NodeWithOrigin) -> (r: RdNode)
    ensures
        r@ == bare(node@),
    decreases *node, 0int,
{
    match &node.shape {
        Shape::Text(text) => RdNode::Text(text.clone()),
        Shape::RCode(text) => RdNode::RCode(text.clone()),
        Shape::Verb(text) => RdNode::Verb(text.clone()),
        Shape::Comment(text) => RdNode::Comment(text.clone()),
        Shape::Group(children) => RdNode::Group(bare_nodes(children)),
        Shape::Tagged { tag, option, children } => RdNode::Tagged {
            tag: tag.clone(),
            option: copy_option(option),
            children: bare_nodes(children),
        },
        Shape::Raw { tag, opaque, option, children } => RdNode::Raw {
            tag: match tag {
                Some(tag) => Some(tag.clone()),
                None => None,
            },
            opaque: opaque.clone(),
            option: copy_option(option),
            children: copy_nodes(children),
        },
    }
}

} // verus!
