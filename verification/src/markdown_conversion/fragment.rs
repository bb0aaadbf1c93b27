//! Fragment nodes and their source origins.
use crate::rd::{node_view, node_views, node_views_index, NodeView, RdNode};
use crate::source::Span;
use vstd::prelude::*;

use super::origin::{
    bare_all, bare_nodes, copy_spans, origin_view, origin_views, origin_views_index,
    NodeWithOrigin, OriginView, Shape, ShapeView,
};

verus! {

/// An edge in a path from the root of a fragment to a node.
#[derive(Debug, Clone, Copy, PartialEq, Eq, Structural)]
pub enum FragmentPathSegment {
    /// An ordinary child.
    Child(usize),
    /// The option of a macro.
    Option,
}

/// A path from the root of a fragment through children and options.
#[derive(Debug, PartialEq, Eq)]
pub struct FragmentPath {
    pub segments: Vec<FragmentPathSegment>,
}

impl View for FragmentPath {
    type V = Seq<FragmentPathSegment>;

    open spec fn view(&self) -> Seq<FragmentPathSegment> {
        self.segments@
    }
}

impl Clone for FragmentPath {
    fn clone(&self) -> (r: Self)
        ensures
            r@ == self@,
    {
        let mut segments: Vec<FragmentPathSegment> = Vec::new();
        let mut i: usize = 0;
        while i < self.segments.len()
            invariant
                i <= self.segments@.len(),
                segments@ == self.segments@.take(i as int),
            decreases self.segments@.len() - i,
        {
            segments.push(self.segments[i]);
            proof {
                assert(self.segments@.take(i + 1) =~= self.segments@.take(i as int).push(
                    self.segments@[i as int],
                ));
            }
            i = i + 1;
        }
        proof {
            assert(self.segments@.take(self.segments@.len() as int) =~= self.segments@);
        }
        FragmentPath { segments }
    }
}

impl FragmentPath {
    /// The path of a node at the root.
    pub fn root(index: usize) -> (r: Self)
        ensures
            r@ == seq![FragmentPathSegment::Child(index)],
    {
        let mut segments: Vec<FragmentPathSegment> = Vec::new();
        segments.push(FragmentPathSegment::Child(index));
        proof {
            assert(segments@ =~= seq![FragmentPathSegment::Child(index)]);
        }
        FragmentPath { segments }
    }

    fn child(&self, index: usize) -> (r: Self)
        ensures
            r@ == self@.push(FragmentPathSegment::Child(index)),
    {
        let mut path = self.clone();
        path.segments.push(FragmentPathSegment::Child(index));
        path
    }

    fn option(&self) -> (r: Self)
        ensures
            r@ == self@.push(FragmentPathSegment::Option),
    {
        let mut path = self.clone();
        path.segments.push(FragmentPathSegment::Option);
        path
    }

    /// The edges of the path.
    pub fn segments(&self) -> (r: &[FragmentPathSegment])
        ensures
            r@ == self@,
    {
        self.segments.as_slice()
    }
}

/// Where one node of a fragment comes from.
#[derive(Debug, PartialEq, Eq)]
pub struct FragmentOrigin {
    /// The place of the node in the fragment.
    pub path: FragmentPath,
    /// The source that produced the node. A range of normalized text can cross
    /// several physical lines. The spans do not map single characters.
    pub spans: Vec<Span>,
}

/// The model of [`FragmentOrigin`].
pub struct FragmentOriginView {
    pub path: Seq<FragmentPathSegment>,
    pub spans: Seq<Span>,
}

impl View for FragmentOrigin {
    type V = FragmentOriginView;

    open spec fn view(&self) -> FragmentOriginView {
        FragmentOriginView { path: self.path@, spans: self.spans@ }
    }
}

/// The models of origins.
pub open spec fn fragment_origin_views(origins: Seq<FragmentOrigin>) -> Seq<FragmentOriginView> {
    origins.map_values(|origin: FragmentOrigin| origin@)
}

/// A sequence of Rd nodes that can be spliced into a topic.
#[derive(Debug, PartialEq, Eq)]
pub struct LatexFragment {
    /// The nodes, in order.
    pub nodes: Vec<RdNode>,
    /// The origins of the nodes at every depth.
    pub origins: Vec<FragmentOrigin>,
}

/// The model of [`LatexFragment`].
pub struct FragmentView {
    pub nodes: Seq<NodeView>,
    pub origins: Seq<FragmentOriginView>,
}

impl View for LatexFragment {
    type V = FragmentView;

    open spec fn view(&self) -> FragmentView {
        FragmentView {
            nodes: node_views(self.nodes),
            origins: fragment_origin_views(self.origins@),
        }
    }
}

/// A path one child deeper.
pub open spec fn child_path(path: Seq<FragmentPathSegment>, index: int) -> Seq<FragmentPathSegment> {
    path.push(FragmentPathSegment::Child(index as usize))
}

/// The origins of the first `count` nodes of an option and of what they hold.
/// All go by the spans of the macro.
pub open spec fn option_origins(
    nodes: Seq<NodeView>,
    count: int,
    path: Seq<FragmentPathSegment>,
    spans: Seq<Span>,
) -> Seq<FragmentOriginView>
    decreases nodes, count,
{
    if count <= 0 || count > nodes.len() {
        Seq::empty()
    } else {
        let here = child_path(path, count - 1);
        option_origins(nodes, count - 1, path, spans) + seq![
            FragmentOriginView { path: here, spans },
        ] + nested_origins(nodes[count - 1], here, spans)
    }
}

/// The origins of what a node in an option holds.
pub open spec fn nested_origins(
    node: NodeView,
    path: Seq<FragmentPathSegment>,
    spans: Seq<Span>,
) -> Seq<FragmentOriginView>
    decreases node, 0int,
{
    match node {
        NodeView::Tagged { tag, option, children } => option_origins(
            children,
            children.len() as int,
            path,
            spans,
        ),
        NodeView::Group(children) => option_origins(children, children.len() as int, path, spans),
        _ => Seq::empty(),
    }
}

/// The origins of the first `count` of some siblings and of what they hold.
pub open spec fn sibling_origins(
    nodes: Seq<OriginView>,
    count: int,
    path: Seq<FragmentPathSegment>,
) -> Seq<FragmentOriginView>
    decreases nodes, count,
{
    if count <= 0 || count > nodes.len() {
        Seq::empty()
    } else {
        sibling_origins(nodes, count - 1, path) + node_origins(
            nodes[count - 1],
            child_path(path, count - 1),
        )
    }
}

/// The origins of a node and of what it holds: the node, its arguments, its
/// option.
pub open spec fn node_origins(node: OriginView, path: Seq<FragmentPathSegment>) -> Seq<
    FragmentOriginView,
>
    decreases node, 0int,
{
    let own = seq![FragmentOriginView { path, spans: node.spans }];
    match node.shape {
        ShapeView::Tagged { tag, option, children } => own + sibling_origins(
            children,
            children.len() as int,
            path,
        ) + (match option {
            Some(option) => option_origins(
                option,
                option.len() as int,
                path.push(FragmentPathSegment::Option),
                node.spans,
            ),
            None => Seq::empty(),
        }),
        ShapeView::Group(children) => own + sibling_origins(
            children,
            children.len() as int,
            path,
        ),
        _ => own,
    }
}

/// The fragment of some nodes.
pub open spec fn fragment_of(nodes: Seq<OriginView>) -> FragmentView {
    FragmentView {
        nodes: bare_all(nodes),
        origins: sibling_origins(nodes, nodes.len() as int, Seq::empty()),
    }
}

fn push_origin(origins: &mut Vec<FragmentOrigin>, path: FragmentPath, spans: &Vec<Span>)
    ensures
        fragment_origin_views(final(origins)@) == fragment_origin_views(old(origins)@).push(
            FragmentOriginView { path: path@, spans: spans@ },
        ),
{
    origins.push(FragmentOrigin { path, spans: copy_spans(spans) });
    proof {
        assert(fragment_origin_views(origins@) =~= fragment_origin_views(old(origins)@).push(
            FragmentOriginView { path: path@, spans: spans@ },
        ));
    }
}

fn flatten_option(
    nodes: &Vec<RdNode>,
    path: &FragmentPath,
    spans: &Vec<Span>,
    origins: &mut Vec<FragmentOrigin>,
)
    ensures
        fragment_origin_views(final(origins)@) == fragment_origin_views(old(origins)@)
            + option_origins(node_views(*nodes), node_views(*nodes).len() as int, path@, spans@),
    decreases *nodes, nodes@.len() + 1,
{
    let ghost shown = node_views(*nodes);
    let ghost before = fragment_origin_views(origins@);
    let mut i: usize = 0;
    proof {
        node_views_index(*nodes);
        assert(before + option_origins(shown, 0, path@, spans@) =~= before);
    }
    while i < nodes.len()
        invariant
            i <= nodes@.len() == shown.len(),
            shown == node_views(*nodes),
            forall|k: int| 0 <= k < shown.len() ==> #[trigger] shown[k] == node_view(nodes@[k]),
            fragment_origin_views(origins@) == before + option_origins(
                shown,
                i as int,
                path@,
                spans@,
            ),
        decreases nodes@.len() - i,
    {
        let here = path.child(i);
        let ghost done = fragment_origin_views(origins@);
        push_origin(origins, here.clone(), spans);
        flatten_nested(&nodes[i], &here, spans, origins);
        proof {
            let entry = FragmentOriginView { path: here@, spans: spans@ };
            let nested = nested_origins(shown[i as int], here@, spans@);
            let old_part = option_origins(shown, i as int, path@, spans@);
            assert(here@ == child_path(path@, i as int));
            assert(done.push(entry) + nested =~= before + (old_part + seq![entry] + nested));
        }
        i = i + 1;
    }
}

fn flatten_nested(
    node: &RdNode,
    path: &FragmentPath,
    spans: &Vec<Span>,
    origins: &mut Vec<FragmentOrigin>,
)
    ensures
        fragment_origin_views(final(origins)@) == fragment_origin_views(old(origins)@)
            + nested_origins(node@, path@, spans@),
    decreases *node, 0int,
{
    proof {
        assert(fragment_origin_views(origins@) + Seq::<FragmentOriginView>::empty()
            =~= fragment_origin_views(origins@));
    }
    match node {
        RdNode::Tagged { tag: _, option: _, children } => {
            flatten_option(children, path, spans, origins);
        },
        RdNode::Group(children) => {
            flatten_option(children, path, spans, origins);
        },
        _ => {},
    }
}

fn flatten_siblings(
    nodes: &Vec<NodeWithOrigin>,
    path: &FragmentPath,
    origins: &mut Vec<FragmentOrigin>,
)
    ensures
        fragment_origin_views(final(origins)@) == fragment_origin_views(old(origins)@)
            + sibling_origins(origin_views(*nodes), origin_views(*nodes).len() as int, path@),
    decreases *nodes, nodes@.len() + 1,
{
    let ghost shown = origin_views(*nodes);
    let ghost before = fragment_origin_views(origins@);
    let mut i: usize = 0;
    proof {
        origin_views_index(*nodes);
        assert(before + sibling_origins(shown, 0, path@) =~= before);
    }
    while i < nodes.len()
        invariant
            i <= nodes@.len() == shown.len(),
            shown == origin_views(*nodes),
            forall|k: int| 0 <= k < shown.len() ==> #[trigger] shown[k] == origin_view(nodes@[k]),
            fragment_origin_views(origins@) == before + sibling_origins(shown, i as int, path@),
        decreases nodes@.len() - i,
    {
        let ghost done = sibling_origins(shown, i as int, path@);
        let here = path.child(i);
        flatten_origin(&nodes[i], &here, origins);
        proof {
            let more = node_origins(shown[i as int], here@);
            assert(here@ == child_path(path@, i as int));
            assert((before + done) + more =~= before + (done + more));
        }
        i = i + 1;
    }
}

fn flatten_origin(node: &NodeWithOrigin, path: &FragmentPath, origins: &mut Vec<FragmentOrigin>)
    ensures
        fragment_origin_views(final(origins)@) == fragment_origin_views(old(origins)@)
            + node_origins(node@, path@),
    decreases *node, 0int,
{
    let ghost before = fragment_origin_views(origins@);
    let ghost own = seq![FragmentOriginView { path: path@, spans: node.spans@ }];
    push_origin(origins, path.clone(), &node.spans);
    proof {
        assert(fragment_origin_views(origins@) =~= before + own);
    }
    match &node.shape {
        Shape::Tagged { tag: _, option, children } => {
            flatten_siblings(children, path, origins);
            let ghost held = sibling_origins(
                origin_views(*children),
                origin_views(*children).len() as int,
                path@,
            );
            proof {
                assert(fragment_origin_views(origins@) =~= before + (own + held));
            }
            if let Some(option) = option {
                let inner = path.option();
                flatten_option(option, &inner, &node.spans, origins);
                proof {
                    let more = option_origins(
                        node_views(*option),
                        node_views(*option).len() as int,
                        inner@,
                        node.spans@,
                    );
                    assert((before + (own + held)) + more =~= before + (own + held + more));
                }
            } else {
                proof {
                    assert(own + held + Seq::<FragmentOriginView>::empty() =~= own + held);
                }
            }
        },
        Shape::Group(children) => {
            flatten_siblings(children, path, origins);
            proof {
                let held = sibling_origins(
                    origin_views(*children),
                    origin_views(*children).len() as int,
                    path@,
                );
                assert((before + own) + held =~= before + (own + held));
            }
        },
        _ => {},
    }
}

/// Makes the fragment of some nodes.
pub fn flatten(nodes: &Vec<NodeWithOrigin>) -> (r: LatexFragment)
    ensures
        r@ == fragment_of(origin_views(*nodes)),
{
    let mut origins: Vec<FragmentOrigin> = Vec::new();
    let top = FragmentPath { segments: Vec::new() };
    proof {
        assert(top@ =~= Seq::<FragmentPathSegment>::empty());
        assert(fragment_origin_views(origins@) =~= Seq::<FragmentOriginView>::empty());
    }
    flatten_siblings(nodes, &top, &mut origins);
    let r = LatexFragment { nodes: bare_nodes(nodes), origins };
    proof {
        assert(r@.origins =~= fragment_of(origin_views(*nodes)).origins);
    }
    r
}

} // verus!
