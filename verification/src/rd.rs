//! Nodes of an Rd document.
//!
//! A node is a leaf, a brace group, or a macro with an optional bracket option
//! and arguments. Macros that this crate interprets have a name of their own;
//! all others are kept by their spelling.
use vstd::prelude::*;

verus! {

/// A macro that this crate interprets.
#[derive(Debug, Clone, Copy, PartialEq, Eq, Structural, Hash, PartialOrd, Ord)]
pub enum RdMacro {
    Subsection,
    Item,
    Itemize,
    Enumerate,
    Tabular,
    Tab,
    Cr,
    Code,
    Special,
    Verb,
    Preformatted,
    Emph,
    Strong,
    Bold,
    Href,
    Url,
    Email,
    File,
    Pkg,
    Samp,
    SQuote,
    DQuote,
    Kbd,
    Var,
    Env,
    Command,
    Option,
    Acronym,
    Abbr,
    Cite,
    Dfn,
    Link,
    LinkS4Class,
    Eqn,
    Deqn,
    R,
    Dots,
    LDots,
    Sspace,
    I,
}

/// The spelling of a macro, with its leading backslash.
pub open spec fn macro_spelling(name: RdMacro) -> Seq<char> {
    match name {
        RdMacro::Subsection => "\\subsection"@,
        RdMacro::Item => "\\item"@,
        RdMacro::Itemize => "\\itemize"@,
        RdMacro::Enumerate => "\\enumerate"@,
        RdMacro::Tabular => "\\tabular"@,
        RdMacro::Tab => "\\tab"@,
        RdMacro::Cr => "\\cr"@,
        RdMacro::Code => "\\code"@,
        RdMacro::Special => "\\special"@,
        RdMacro::Verb => "\\verb"@,
        RdMacro::Preformatted => "\\preformatted"@,
        RdMacro::Emph => "\\emph"@,
        RdMacro::Strong => "\\strong"@,
        RdMacro::Bold => "\\bold"@,
        RdMacro::Href => "\\href"@,
        RdMacro::Url => "\\url"@,
        RdMacro::Email => "\\email"@,
        RdMacro::File => "\\file"@,
        RdMacro::Pkg => "\\pkg"@,
        RdMacro::Samp => "\\samp"@,
        RdMacro::SQuote => "\\sQuote"@,
        RdMacro::DQuote => "\\dQuote"@,
        RdMacro::Kbd => "\\kbd"@,
        RdMacro::Var => "\\var"@,
        RdMacro::Env => "\\env"@,
        RdMacro::Command => "\\command"@,
        RdMacro::Option => "\\option"@,
        RdMacro::Acronym => "\\acronym"@,
        RdMacro::Abbr => "\\abbr"@,
        RdMacro::Cite => "\\cite"@,
        RdMacro::Dfn => "\\dfn"@,
        RdMacro::Link => "\\link"@,
        RdMacro::LinkS4Class => "\\linkS4class"@,
        RdMacro::Eqn => "\\eqn"@,
        RdMacro::Deqn => "\\deqn"@,
        RdMacro::R => "\\R"@,
        RdMacro::Dots => "\\dots"@,
        RdMacro::LDots => "\\ldots"@,
        RdMacro::Sspace => "\\sspace"@,
        RdMacro::I => "\\I"@,
    }
}

impl RdMacro {
    /// The spelling of the macro, with its leading backslash.
    pub fn spelling(self) -> (r: &'static str)
        ensures
            r@ == macro_spelling(self),
    {
        match self {
            RdMacro::Subsection => "\\subsection",
            RdMacro::Item => "\\item",
            RdMacro::Itemize => "\\itemize",
            RdMacro::Enumerate => "\\enumerate",
            RdMacro::Tabular => "\\tabular",
            RdMacro::Tab => "\\tab",
            RdMacro::Cr => "\\cr",
            RdMacro::Code => "\\code",
            RdMacro::Special => "\\special",
            RdMacro::Verb => "\\verb",
            RdMacro::Preformatted => "\\preformatted",
            RdMacro::Emph => "\\emph",
            RdMacro::Strong => "\\strong",
            RdMacro::Bold => "\\bold",
            RdMacro::Href => "\\href",
            RdMacro::Url => "\\url",
            RdMacro::Email => "\\email",
            RdMacro::File => "\\file",
            RdMacro::Pkg => "\\pkg",
            RdMacro::Samp => "\\samp",
            RdMacro::SQuote => "\\sQuote",
            RdMacro::DQuote => "\\dQuote",
            RdMacro::Kbd => "\\kbd",
            RdMacro::Var => "\\var",
            RdMacro::Env => "\\env",
            RdMacro::Command => "\\command",
            RdMacro::Option => "\\option",
            RdMacro::Acronym => "\\acronym",
            RdMacro::Abbr => "\\abbr",
            RdMacro::Cite => "\\cite",
            RdMacro::Dfn => "\\dfn",
            RdMacro::Link => "\\link",
            RdMacro::LinkS4Class => "\\linkS4class",
            RdMacro::Eqn => "\\eqn",
            RdMacro::Deqn => "\\deqn",
            RdMacro::R => "\\R",
            RdMacro::Dots => "\\dots",
            RdMacro::LDots => "\\ldots",
            RdMacro::Sspace => "\\sspace",
            RdMacro::I => "\\I",
        }
    }
}

/// The tag of a macro.
#[derive(Debug, PartialEq, Eq)]
pub enum RdTag {
    /// A macro that this crate interprets.
    Named(RdMacro),
    /// Another macro of the Rd vocabulary, by its spelling.
    Known(String),
    /// A tag outside the Rd vocabulary, as encountered.
    Unknown(String),
}

/// The model of [`RdTag`].
pub enum TagView {
    Named(RdMacro),
    Known(Seq<char>),
    Unknown(Seq<char>),
}

impl View for RdTag {
    type V = TagView;

    open spec fn view(&self) -> TagView {
        match self {
            RdTag::Named(name) => TagView::Named(*name),
            RdTag::Known(name) => TagView::Known(name@),
            RdTag::Unknown(name) => TagView::Unknown(name@),
        }
    }
}

impl Clone for RdTag {
    fn clone(&self) -> (r: Self)
        ensures
            r@ == self@,
    {
        match self {
            RdTag::Named(name) => RdTag::Named(*name),
            RdTag::Known(name) => RdTag::Known(name.clone()),
            RdTag::Unknown(name) => RdTag::Unknown(name.clone()),
        }
    }
}

/// A node of an Rd document.
#[derive(Debug, PartialEq, Eq)]
pub enum RdNode {
    /// Plain documentation text.
    Text(String),
    /// R source code.
    RCode(String),
    /// Verbatim text.
    Verb(String),
    /// A comment with its leading percent sign.
    Comment(String),
    /// An untagged brace group.
    Group(Vec<RdNode>),
    /// A macro.
    Tagged { tag: RdTag, option: Option<Vec<RdNode>>, children: Vec<RdNode> },
    /// A node that fits none of the other shapes. Its payload and attributes
    /// are kept as opaque text.
    Raw { tag: Option<String>, opaque: String, option: Option<Vec<RdNode>>, children: Vec<RdNode> },
}

/// The model of [`RdNode`].
#[allow(inconsistent_fields)]
pub enum NodeView {
    Text(Seq<char>),
    RCode(Seq<char>),
    Verb(Seq<char>),
    Comment(Seq<char>),
    Group(Seq<NodeView>),
    Tagged { tag: TagView, option: Option<Seq<NodeView>>, children: Seq<NodeView> },
    Raw {
        tag: Option<Seq<char>>,
        opaque: Seq<char>,
        option: Option<Seq<NodeView>>,
        children: Seq<NodeView>,
    },
}

/// The models of the first `count` nodes.
pub open spec fn node_views_upto(nodes: Vec<RdNode>, count: int) -> Seq<NodeView>
    decreases nodes, count,
{
    if count <= 0 || count > nodes@.len() {
        Seq::empty()
    } else {
        node_views_upto(nodes, count - 1).push(node_view(nodes@[count - 1]))
    }
}

/// The models of nodes.
pub open spec fn node_views(nodes: Vec<RdNode>) -> Seq<NodeView>
    decreases nodes, nodes@.len() + 1,
{
    node_views_upto(nodes, nodes@.len() as int)
}

/// The model of a node.
pub open spec fn node_view(node: RdNode) -> NodeView
    decreases node, 0int,
{
    match node {
        RdNode::Text(text) => NodeView::Text(text@),
        RdNode::RCode(text) => NodeView::RCode(text@),
        RdNode::Verb(text) => NodeView::Verb(text@),
        RdNode::Comment(text) => NodeView::Comment(text@),
        RdNode::Group(children) => NodeView::Group(node_views(children)),
        RdNode::Tagged { tag, option, children } => NodeView::Tagged {
            tag: tag@,
            option: match option {
                Some(option) => Some(node_views(option)),
                None => None,
            },
            children: node_views(children),
        },
        RdNode::Raw { tag, opaque, option, children } => NodeView::Raw {
            tag: crate::text::opt_text(tag),
            opaque: opaque@,
            option: match option {
                Some(option) => Some(node_views(option)),
                None => None,
            },
            children: node_views(children),
        },
    }
}

impl View for RdNode {
    type V = NodeView;

    open spec fn view(&self) -> NodeView {
        node_view(*self)
    }
}

/// Every node has its model at its place.
pub proof fn node_views_index(nodes: Vec<RdNode>)
    ensures
        node_views(nodes).len() == nodes@.len(),
        forall|i: int|
            0 <= i < nodes@.len() ==> #[trigger] node_views(nodes)[i] == node_view(nodes@[i]),
{
    node_views_upto_index(nodes, nodes@.len() as int);
}

proof fn node_views_upto_index(nodes: Vec<RdNode>, count: int)
    requires
        0 <= count <= nodes@.len(),
    ensures
        node_views_upto(nodes, count).len() == count,
        forall|i: int|
            0 <= i < count ==> #[trigger] node_views_upto(nodes, count)[i] == node_view(nodes@[i]),
    decreases count,
{
    if count > 0 {
        node_views_upto_index(nodes, count - 1);
    }
}

/// The model of optional nodes.
pub open spec fn opt_node_views(nodes: Option<Vec<RdNode>>) -> Option<Seq<NodeView>> {
    match nodes {
        Some(nodes) => Some(node_views(nodes)),
        None => None,
    }
}

/// Copies nodes.
pub fn copy_nodes(nodes: &Vec<RdNode>) -> (r: Vec<RdNode>)
    ensures
        node_views(r) == node_views(*nodes),
    decreases *nodes, nodes@.len() + 1,
{
    let mut out: Vec<RdNode> = Vec::new();
    let mut i: usize = 0;
    while i < nodes.len()
        invariant
            i <= nodes@.len(),
            out@.len() == i,
            forall|k: int| 0 <= k < i ==> (#[trigger] out@[k])@ == nodes@[k]@,
        decreases nodes@.len() - i,
    {
        out.push(copy_node(&nodes[i]));
        i = i + 1;
    }
    proof {
        node_views_index(*nodes);
        node_views_index(out);
        assert forall|k: int| 0 <= k < out@.len() implies node_views(out)[k] == node_views(
            *nodes,
        )[k] by {
            assert(out@[k]@ == nodes@[k]@);
        }
        assert(node_views(out) =~= node_views(*nodes));
    }
    out
}

/// Copies optional nodes.
pub fn copy_option(option: &Option<Vec<RdNode>>) -> (r: Option<Vec<RdNode>>)
    ensures
        opt_node_views(r) == opt_node_views(*option),
    decreases *option, 0int,
{
    match option {
        Some(nodes) => Some(copy_nodes(nodes)),
        None => None,
    }
}

/// Copies a node.
pub fn copy_node(node: &RdNode) -> (r: RdNode)
    ensures
        r@ == node@,
    decreases *node, 0int,
{
    match node {
        RdNode::Text(text) => RdNode::Text(text.clone()),
        RdNode::RCode(text) => RdNode::RCode(text.clone()),
        RdNode::Verb(text) => RdNode::Verb(text.clone()),
        RdNode::Comment(text) => RdNode::Comment(text.clone()),
        RdNode::Group(children) => RdNode::Group(copy_nodes(children)),
        RdNode::Tagged { tag, option, children } => {
            RdNode::Tagged {
                tag: tag.clone(),
                option: copy_option(option),
                children: copy_nodes(children),
            }
        },
        RdNode::Raw { tag, opaque, option, children } => {
            RdNode::Raw {
                tag: match tag {
                    Some(tag) => Some(tag.clone()),
                    None => None,
                },
                opaque: opaque.clone(),
                option: copy_option(option),
                children: copy_nodes(children),
            }
        },
    }
}

} // verus!
