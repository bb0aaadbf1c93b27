//! Structural keys for comparing section titles.
//!
//! A construct is flattened to visible text only when its visible characters
//! are known from the source alone. Everything else is kept structurally. A
//! key is for comparison, it is not rendered text. The kind of a leaf inside a
//! structural construct is not kept.
use crate::rd::{
    macro_spelling, node_view, node_views, node_views_index, opt_node_views, NodeView, RdMacro,
    RdNode, RdTag, TagView,
};
use crate::text::{contains_char, opt_text, starts_with};
use vstd::prelude::*;

use super::separator::is_blank;

verus! {

/// A construct whose visible output is not known from the source.
#[derive(Debug, Clone, PartialEq, Eq, PartialOrd, Ord)]
pub enum SectionKeyConstruct {
    /// A macro of the Rd vocabulary, by its spelling.
    KnownTag(String),
    /// Any other macro, as encountered.
    UnknownTag(String),
    /// A raw node.
    Raw { tag: Option<String>, opaque: String },
}

/// The model of [`SectionKeyConstruct`].
pub enum ConstructView {
    KnownTag(Seq<char>),
    UnknownTag(Seq<char>),
    Raw { tag: Option<Seq<char>>, opaque: Seq<char> },
}

impl View for SectionKeyConstruct {
    type V = ConstructView;

    open spec fn view(&self) -> ConstructView {
        match self {
            SectionKeyConstruct::KnownTag(name) => ConstructView::KnownTag(name@),
            SectionKeyConstruct::UnknownTag(name) => ConstructView::UnknownTag(name@),
            SectionKeyConstruct::Raw { tag, opaque } => ConstructView::Raw {
                tag: opt_text(*tag),
                opaque: opaque@,
            },
        }
    }
}

/// One token of a key.
#[derive(Debug, Clone, PartialEq, Eq, PartialOrd, Ord)]
pub enum SectionKeyToken {
    /// Visible text. Text next to text is one token.
    Text(String),
    /// The opening of a construct.
    Open(SectionKeyConstruct),
    /// The option of the construct follows.
    Option,
    /// An argument of the construct follows.
    Argument(usize),
    /// The end of a construct.
    Close,
}

/// The model of [`SectionKeyToken`].
pub enum TokenView {
    Text(Seq<char>),
    Open(ConstructView),
    Option,
    Argument(usize),
    Close,
}

impl View for SectionKeyToken {
    type V = TokenView;

    open spec fn view(&self) -> TokenView {
        match self {
            SectionKeyToken::Text(text) => TokenView::Text(text@),
            SectionKeyToken::Open(construct) => TokenView::Open(construct@),
            SectionKeyToken::Option => TokenView::Option,
            SectionKeyToken::Argument(index) => TokenView::Argument(*index),
            SectionKeyToken::Close => TokenView::Close,
        }
    }
}

/// A flat key of a section title.
#[derive(Debug, Clone, PartialEq, Eq, PartialOrd, Ord)]
pub struct SectionTitleKey {
    tokens: Vec<SectionKeyToken>,
}

impl View for SectionTitleKey {
    type V = Seq<TokenView>;

    closed spec fn view(&self) -> Seq<TokenView> {
        token_views(self.tokens@)
    }
}

/// The models of tokens.
pub open spec fn token_views(tokens: Seq<SectionKeyToken>) -> Seq<TokenView> {
    tokens.map_values(|token: SectionKeyToken| token@)
}

/// Tokens with visible text behind them.
pub open spec fn with_visible(tokens: Seq<TokenView>, text: Seq<char>) -> Seq<TokenView> {
    if text.len() == 0 {
        tokens
    } else if tokens.len() > 0 && tokens.last() is Text {
        tokens.drop_last().push(TokenView::Text(tokens.last()->Text_0 + text))
    } else {
        tokens.push(TokenView::Text(text))
    }
}

/// What a macro contributes to a key.
#[derive(Debug, Clone, Copy, PartialEq, Eq, Structural)]
pub enum KeyForm {
    /// Its arguments, in the open.
    Arguments,
    /// What its second argument holds, in the open.
    Second,
    /// The letter of the R language.
    Language,
    /// Three dots.
    Dots,
    /// Its structure.
    Structure,
}

/// Whether a macro shows its argument and nothing else.
pub open spec fn is_transparent(name: RdMacro) -> bool {
    match name {
        RdMacro::Emph
        | RdMacro::Strong
        | RdMacro::Bold
        | RdMacro::Code
        | RdMacro::Special
        | RdMacro::Verb
        | RdMacro::Url
        | RdMacro::Email
        | RdMacro::File
        | RdMacro::Pkg
        | RdMacro::Samp
        | RdMacro::Kbd
        | RdMacro::Var
        | RdMacro::Env
        | RdMacro::Command
        | RdMacro::Option
        | RdMacro::Acronym
        | RdMacro::Abbr
        | RdMacro::Cite
        | RdMacro::Dfn
        | RdMacro::I => true,
        _ => false,
    }
}

/// Whether all nodes are text.
pub open spec fn is_all_text(nodes: Seq<NodeView>) -> bool {
    forall|i: int| 0 <= i < nodes.len() ==> #[trigger] nodes[i] is Text
}

/// Whether a link has a known target: by an option that is a single text which
/// starts with an equals sign or holds a colon, or by a display that is text.
pub open spec fn has_link_target(option: Option<Seq<NodeView>>, children: Seq<NodeView>) -> bool {
    match option {
        None => is_all_text(children),
        Some(option) => option.len() == 1 && option[0] is Text && ({
            let text = option[0]->Text_0;
            (text.len() > 0 && text[0] == '=') || text.contains(':') || is_all_text(children)
        }),
    }
}

/// What a macro of this crate contributes to a key.
pub open spec fn key_form(
    name: RdMacro,
    option: Option<Seq<NodeView>>,
    children: Seq<NodeView>,
) -> KeyForm {
    if is_transparent(name) && option is None {
        KeyForm::Arguments
    } else if name == RdMacro::R && option is None && children.len() == 0 {
        KeyForm::Language
    } else if (name == RdMacro::Dots || name == RdMacro::LDots) && option is None && children.len()
        == 0 {
        KeyForm::Dots
    } else if name == RdMacro::Link && has_link_target(option, children) {
        KeyForm::Arguments
    } else if name == RdMacro::Href && option is None && children.len() == 2 && children[0] is Group
        && children[1] is Group {
        KeyForm::Second
    } else if name == RdMacro::LinkS4Class {
        KeyForm::Arguments
    } else {
        KeyForm::Structure
    }
}

/// The construct of a tag.
pub open spec fn tag_construct(tag: TagView) -> ConstructView {
    match tag {
        TagView::Named(name) => ConstructView::KnownTag(macro_spelling(name)),
        TagView::Known(name) => ConstructView::KnownTag(name),
        TagView::Unknown(name) => ConstructView::UnknownTag(name),
    }
}

/// Tokens with the first `count` of some nodes behind them.
pub open spec fn with_key_nodes(tokens: Seq<TokenView>, nodes: Seq<NodeView>, count: int) -> Seq<
    TokenView,
>
    decreases nodes, count,
{
    if count <= 0 || count > nodes.len() {
        tokens
    } else {
        with_key_node(with_key_nodes(tokens, nodes, count - 1), nodes[count - 1])
    }
}

/// Tokens with the first `count` arguments of a construct behind them.
pub open spec fn with_key_arguments(
    tokens: Seq<TokenView>,
    nodes: Seq<NodeView>,
    count: int,
) -> Seq<TokenView>
    decreases nodes, count,
{
    if count <= 0 || count > nodes.len() {
        tokens
    } else {
        with_key_node(
            with_key_arguments(tokens, nodes, count - 1).push(
                TokenView::Argument((count - 1) as usize),
            ),
            nodes[count - 1],
        )
    }
}

/// Tokens with a node behind them.
pub open spec fn with_key_node(tokens: Seq<TokenView>, node: NodeView) -> Seq<TokenView>
    decreases node, 0int,
{
    match node {
        NodeView::Text(text) | NodeView::Verb(text) | NodeView::RCode(text) => with_visible(
            tokens,
            text,
        ),
        NodeView::Comment(_) => tokens,
        NodeView::Group(children) => with_key_nodes(tokens, children, children.len() as int),
        NodeView::Raw { tag, opaque, option, children } => {
            let opened = tokens.push(TokenView::Open(ConstructView::Raw { tag, opaque }));
            let noted = match option {
                Some(option) => with_key_nodes(
                    opened.push(TokenView::Option),
                    option,
                    option.len() as int,
                ),
                None => opened,
            };
            with_key_arguments(noted, children, children.len() as int).push(TokenView::Close)
        },
        NodeView::Tagged { tag, option, children } => {
            let form = match tag {
                TagView::Named(name) => key_form(name, option, children),
                _ => KeyForm::Structure,
            };
            match form {
                KeyForm::Arguments => with_key_nodes(tokens, children, children.len() as int),
                KeyForm::Second => match children[1] {
                    NodeView::Group(display) => with_key_nodes(
                        tokens,
                        display,
                        display.len() as int,
                    ),
                    _ => tokens,
                },
                KeyForm::Language => with_visible(tokens, "R"@),
                KeyForm::Dots => with_visible(tokens, "..."@),
                KeyForm::Structure => {
                    let opened = tokens.push(TokenView::Open(tag_construct(tag)));
                    let noted = match option {
                        Some(option) => with_key_nodes(
                            opened.push(TokenView::Option),
                            option,
                            option.len() as int,
                        ),
                        None => opened,
                    };
                    with_key_arguments(noted, children, children.len() as int).push(
                        TokenView::Close,
                    )
                },
            }
        },
    }
}

/// The key of nodes.
pub open spec fn key_of_nodes(nodes: Seq<NodeView>) -> Seq<TokenView> {
    with_key_nodes(Seq::empty(), nodes, nodes.len() as int)
}

/// The key of a plain text.
pub open spec fn key_of_text(text: Seq<char>) -> Seq<TokenView> {
    with_visible(Seq::empty(), text)
}

fn push_token(tokens: &mut Vec<SectionKeyToken>, token: SectionKeyToken)
    ensures
        token_views(final(tokens)@) == token_views(old(tokens)@).push(token@),
{
    tokens.push(token);
    proof {
        assert(token_views(tokens@) =~= token_views(old(tokens)@).push(token@));
    }
}

fn push_visible(tokens: &mut Vec<SectionKeyToken>, text: &str)
    ensures
        token_views(final(tokens)@) == with_visible(token_views(old(tokens)@), text@),
{
    if is_blank(text) {
        return;
    }
    let ghost before = tokens@;
    let joins = tokens.len() > 0 && match &tokens[tokens.len() - 1] {
        SectionKeyToken::Text(_) => true,
        _ => false,
    };
    if joins {
        proof {
            assert(token_views(before).last() == before.last()@);
        }
        if let Some(SectionKeyToken::Text(previous)) = tokens.pop() {
            let mut joined = previous;
            joined.push_str(text);
            proof {
                assert(token_views(tokens@) =~= token_views(before).drop_last());
            }
            push_token(tokens, SectionKeyToken::Text(joined));
        }
    } else {
        proof {
            if before.len() > 0 {
                assert(token_views(before).last() == before.last()@);
            }
        }
        push_token(tokens, SectionKeyToken::Text(text.to_owned()));
    }
}

fn transparent(name: RdMacro) -> (r: bool)
    ensures
        r == is_transparent(name),
{
    match name {
        RdMacro::Emph
        | RdMacro::Strong
        | RdMacro::Bold
        | RdMacro::Code
        | RdMacro::Special
        | RdMacro::Verb
        | RdMacro::Url
        | RdMacro::Email
        | RdMacro::File
        | RdMacro::Pkg
        | RdMacro::Samp
        | RdMacro::Kbd
        | RdMacro::Var
        | RdMacro::Env
        | RdMacro::Command
        | RdMacro::Option
        | RdMacro::Acronym
        | RdMacro::Abbr
        | RdMacro::Cite
        | RdMacro::Dfn
        | RdMacro::I => true,
        _ => false,
    }
}

fn all_are_text(nodes: &Vec<RdNode>) -> (r: bool)
    ensures
        r == is_all_text(node_views(*nodes)),
{
    proof {
        node_views_index(*nodes);
    }
    let mut i: usize = 0;
    while i < nodes.len()
        invariant
            i <= nodes@.len(),
            node_views(*nodes).len() == nodes@.len(),
            forall|k: int|
                0 <= k < nodes@.len() ==> #[trigger] node_views(*nodes)[k] == node_view(nodes@[k]),
            forall|k: int| 0 <= k < i ==> #[trigger] node_views(*nodes)[k] is Text,
        decreases nodes@.len() - i,
    {
        match &nodes[i] {
            RdNode::Text(_) => {},
            _ => {
                assert(node_views(*nodes)[i as int] !is Text);
                return false;
            },
        }
        i = i + 1;
    }
    true
}

fn link_target_is_known(option: &Option<Vec<RdNode>>, children: &Vec<RdNode>) -> (r: bool)
    ensures
        r == has_link_target(opt_node_views(*option), node_views(*children)),
{
    match option {
        None => all_are_text(children),
        Some(option) => {
            proof {
                node_views_index(*option);
            }
            if option.len() != 1 {
                return false;
            }
            match &option[0] {
                RdNode::Text(text) => {
                    proof {
                        reveal_strlit("=");
                        assert(node_views(*option)[0] == NodeView::Text(text@));
                        if text@.len() > 0 {
                            assert(text@.take(1) =~= seq![text@[0]]);
                            assert("="@ =~= seq!['=']);
                            assert(text@.take(1)[0] == text@[0]);
                        }
                    }
                    starts_with(text, "=") || contains_char(text, ':') || all_are_text(children)
                },
                _ => false,
            }
        },
    }
}

fn is_group(node: &RdNode) -> (r: bool)
    ensures
        r == (node@ is Group),
{
    match node {
        RdNode::Group(_) => true,
        _ => false,
    }
}

fn classify(name: RdMacro, option: &Option<Vec<RdNode>>, children: &Vec<RdNode>) -> (r: KeyForm)
    ensures
        r == key_form(name, opt_node_views(*option), node_views(*children)),
{
    proof {
        node_views_index(*children);
    }
    let bare = option.is_none();
    if transparent(name) && bare {
        KeyForm::Arguments
    } else if name == RdMacro::R && bare && children.len() == 0 {
        KeyForm::Language
    } else if (name == RdMacro::Dots || name == RdMacro::LDots) && bare && children.len() == 0 {
        KeyForm::Dots
    } else if name == RdMacro::Link && link_target_is_known(option, children) {
        KeyForm::Arguments
    } else if name == RdMacro::Href && bare && children.len() == 2 && is_group(&children[0])
        && is_group(&children[1]) {
        KeyForm::Second
    } else if name == RdMacro::LinkS4Class {
        KeyForm::Arguments
    } else {
        KeyForm::Structure
    }
}

fn construct_of(tag: &RdTag) -> (r: SectionKeyConstruct)
    ensures
        r@ == tag_construct(tag@),
{
    match tag {
        RdTag::Named(name) => SectionKeyConstruct::KnownTag(name.spelling().to_owned()),
        RdTag::Known(name) => SectionKeyConstruct::KnownTag(name.clone()),
        RdTag::Unknown(name) => SectionKeyConstruct::UnknownTag(name.clone()),
    }
}

fn push_nodes(tokens: &mut Vec<SectionKeyToken>, nodes: &Vec<RdNode>)
    ensures
        token_views(final(tokens)@) == with_key_nodes(
            token_views(old(tokens)@),
            node_views(*nodes),
            node_views(*nodes).len() as int,
        ),
    decreases *nodes, nodes@.len() + 1,
{
    let ghost before = token_views(tokens@);
    let ghost shown = node_views(*nodes);
    proof {
        node_views_index(*nodes);
    }
    let mut i: usize = 0;
    while i < nodes.len()
        invariant
            i <= nodes@.len() == shown.len(),
            shown == node_views(*nodes),
            forall|k: int| 0 <= k < shown.len() ==> #[trigger] shown[k] == node_view(nodes@[k]),
            token_views(tokens@) == with_key_nodes(before, shown, i as int),
        decreases nodes@.len() - i,
    {
        push_node(tokens, &nodes[i]);
        proof {
            assert(shown[i as int] == nodes@[i as int]@);
        }
        i = i + 1;
    }
}

fn push_arguments(tokens: &mut Vec<SectionKeyToken>, nodes: &Vec<RdNode>)
    ensures
        token_views(final(tokens)@) == with_key_arguments(
            token_views(old(tokens)@),
            node_views(*nodes),
            node_views(*nodes).len() as int,
        ),
    decreases *nodes, nodes@.len() + 1,
{
    let ghost before = token_views(tokens@);
    let ghost shown = node_views(*nodes);
    proof {
        node_views_index(*nodes);
    }
    let mut i: usize = 0;
    while i < nodes.len()
        invariant
            i <= nodes@.len() == shown.len(),
            shown == node_views(*nodes),
            forall|k: int| 0 <= k < shown.len() ==> #[trigger] shown[k] == node_view(nodes@[k]),
            token_views(tokens@) == with_key_arguments(before, shown, i as int),
        decreases nodes@.len() - i,
    {
        push_token(tokens, SectionKeyToken::Argument(i));
        push_node(tokens, &nodes[i]);
        proof {
            assert(shown[i as int] == nodes@[i as int]@);
        }
        i = i + 1;
    }
}

fn push_option(tokens: &mut Vec<SectionKeyToken>, option: &Option<Vec<RdNode>>)
    ensures
        token_views(final(tokens)@) == (match opt_node_views(*option) {
            Some(option) => with_key_nodes(
                token_views(old(tokens)@).push(TokenView::Option),
                option,
                option.len() as int,
            ),
            None => token_views(old(tokens)@),
        }),
    decreases *option, 0int,
{
    if let Some(option) = option {
        push_token(tokens, SectionKeyToken::Option);
        push_nodes(tokens, option);
    }
}

fn push_node(tokens: &mut Vec<SectionKeyToken>, node: &RdNode)
    ensures
        token_views(final(tokens)@) == with_key_node(token_views(old(tokens)@), node@),
    decreases *node, 0int,
{
    match node {
        RdNode::Text(text) => push_visible(tokens, text),
        RdNode::Verb(text) => push_visible(tokens, text),
        RdNode::RCode(text) => push_visible(tokens, text),
        RdNode::Comment(_) => {},
        RdNode::Group(children) => push_nodes(tokens, children),
        RdNode::Raw { tag, opaque, option, children } => {
            let tag = match tag {
                Some(tag) => Some(tag.clone()),
                None => None,
            };
            push_token(
                tokens,
                SectionKeyToken::Open(SectionKeyConstruct::Raw { tag, opaque: opaque.clone() }),
            );
            push_option(tokens, option);
            push_arguments(tokens, children);
            push_token(tokens, SectionKeyToken::Close);
        },
        RdNode::Tagged { tag, option, children } => {
            let form = match tag {
                RdTag::Named(name) => classify(*name, option, children),
                _ => KeyForm::Structure,
            };
            match form {
                KeyForm::Arguments => push_nodes(tokens, children),
                KeyForm::Second => {
                    proof {
                        node_views_index(*children);
                    }
                    if let RdNode::Group(display) = &children[1] {
                        push_nodes(tokens, display);
                    }
                },
                KeyForm::Language => push_visible(tokens, "R"),
                KeyForm::Dots => push_visible(tokens, "..."),
                KeyForm::Structure => {
                    push_token(tokens, SectionKeyToken::Open(construct_of(tag)));
                    push_option(tokens, option);
                    push_arguments(tokens, children);
                    push_token(tokens, SectionKeyToken::Close);
                },
            }
        },
    }
}

impl SectionTitleKey {
    /// The key of nodes.
    pub fn from_rd(nodes: &Vec<RdNode>) -> (r: Self)
        ensures
            r@ == key_of_nodes(node_views(*nodes)),
    {
        let mut tokens: Vec<SectionKeyToken> = Vec::new();
        proof {
            assert(token_views(tokens@) =~= Seq::<TokenView>::empty());
        }
        push_nodes(&mut tokens, nodes);
        SectionTitleKey { tokens }
    }

    /// The key of a plain text.
    pub fn from_text(text: &str) -> (r: Self)
        ensures
            r@ == key_of_text(text@),
    {
        let mut tokens: Vec<SectionKeyToken> = Vec::new();
        proof {
            assert(token_views(tokens@) =~= Seq::<TokenView>::empty());
        }
        push_visible(&mut tokens, text);
        SectionTitleKey { tokens }
    }
}

/// A title that is a single leaf has the key of its text, whatever kind of leaf
/// it is.
pub proof fn leaves_key_as_text(text: Seq<char>)
    ensures
        key_of_nodes(seq![NodeView::Text(text)]) == key_of_text(text),
        key_of_nodes(seq![NodeView::Verb(text)]) == key_of_text(text),
        key_of_nodes(seq![NodeView::RCode(text)]) == key_of_text(text),
{
    reveal_with_fuel(with_key_nodes, 2);
}

/// Visible text is one run: two texts in a row have the key of the text that
/// they make up.
pub proof fn visible_text_coalesces(first: Seq<char>, second: Seq<char>)
    ensures
        key_of_nodes(seq![NodeView::Text(first), NodeView::Text(second)]) == key_of_text(
            first + second,
        ),
{
    reveal_with_fuel(with_key_nodes, 3);
    let nodes = seq![NodeView::Text(first), NodeView::Text(second)];
    assert(with_key_nodes(Seq::empty(), nodes, 0) == Seq::<TokenView>::empty());
    assert(with_key_nodes(Seq::empty(), nodes, 1) == key_of_text(first));
    if first.len() == 0 {
        assert(first + second =~= second);
    } else if second.len() == 0 {
        assert(first + second =~= first);
    } else {
        let one = key_of_text(first);
        assert(one =~= seq![TokenView::Text(first)]);
        assert(with_visible(one, second) =~= seq![TokenView::Text(first + second)]);
        assert(key_of_text(first + second) =~= seq![TokenView::Text(first + second)]);
    }
}

/// A macro that only shows its argument has the key of its argument.
pub proof fn transparent_macros_key_as_contents(name: RdMacro, children: Seq<NodeView>)
    requires
        is_transparent(name),
    ensures
        key_of_nodes(
            seq![NodeView::Tagged { tag: TagView::Named(name), option: None, children }],
        ) == key_of_nodes(children),
{
    reveal_with_fuel(with_key_nodes, 2);
    let node = NodeView::Tagged { tag: TagView::Named(name), option: None, children };
    let nodes = seq![node];
    assert(with_key_nodes(Seq::empty(), nodes, 0) == Seq::<TokenView>::empty());
    assert(with_key_nodes(Seq::empty(), nodes, 1) == with_key_node(Seq::empty(), node));
}

/// A construct with unknown output never has the key of a plain text.
pub proof fn structure_is_no_text(tag: TagView, children: Seq<NodeView>, text: Seq<char>)
    requires
        tag matches TagView::Named(name) ==> key_form(name, None, children)
            == KeyForm::Structure,
    ensures
        key_of_nodes(seq![NodeView::Tagged { tag, option: None, children }]) != key_of_text(text),
{
    reveal_with_fuel(with_key_nodes, 2);
    let node = NodeView::Tagged { tag, option: None, children };
    let nodes = seq![node];
    assert(with_key_nodes(Seq::empty(), nodes, 0) == Seq::<TokenView>::empty());
    assert(key_of_nodes(nodes) == with_key_node(Seq::empty(), node));
    assert(key_of_nodes(nodes).last() == TokenView::Close);
    assert(key_of_nodes(nodes).len() > 0);
    if text.len() > 0 {
        assert(key_of_text(text).last() == TokenView::Text(text));
    }
}

} // verus!
