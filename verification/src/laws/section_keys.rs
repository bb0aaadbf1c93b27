//! Laws of the keys that tell section titles apart.
use crate::markdown_conversion::section_key::{
    key_of_nodes, key_of_text, with_key_arguments, with_key_node, with_key_nodes, with_visible,
    ConstructView, TokenView,
};
use crate::rd::{NodeView, RdMacro, TagView};
use vstd::prelude::*;

verus! {

/// A node of a macro without option.
pub open spec fn plain_macro(name: RdMacro, children: Seq<NodeView>) -> NodeView {
    NodeView::Tagged { tag: TagView::Named(name), option: None, children }
}

proof fn nodes_split(tokens: Seq<TokenView>, first: Seq<NodeView>, second: Seq<NodeView>, count: int)
    requires
        0 <= count <= second.len(),
    ensures
        with_key_nodes(tokens, first + second, first.len() + count) == with_key_nodes(
            with_key_nodes(tokens, first, first.len() as int),
            second,
            count,
        ),
    decreases count,
{
    if count > 0 {
        nodes_split(tokens, first, second, count - 1);
        assert((first + second)[first.len() + count - 1] == second[count - 1]);
    } else {
        same_nodes(tokens, first + second, first, first.len() as int);
    }
}

proof fn same_nodes(tokens: Seq<TokenView>, a: Seq<NodeView>, b: Seq<NodeView>, count: int)
    requires
        0 <= count <= a.len(),
        count <= b.len(),
        forall|i: int| 0 <= i < count ==> #[trigger] a[i] == b[i],
    ensures
        with_key_nodes(tokens, a, count) == with_key_nodes(tokens, b, count),
    decreases count,
{
    if count > 0 {
        same_nodes(tokens, a, b, count - 1);
        assert(a[count - 1] == b[count - 1]);
    }
}

/// The key of a single node behind tokens.
proof fn single(tokens: Seq<TokenView>, node: NodeView)
    ensures
        with_key_nodes(tokens, seq![node], 1) == with_key_node(tokens, node),
        key_of_nodes(seq![node]) == with_key_node(Seq::empty(), node),
{
    assert(with_key_nodes(tokens, seq![node], 0) == tokens);
    assert(with_key_nodes(Seq::empty(), seq![node], 0) == Seq::<TokenView>::empty());
    assert(seq![node][0] == node);
}

/// Text in a title counts as it stands, also next to other text and in other kinds of leaf:
/// only the text decides, not how it is divided.
pub proof fn titles_with_one_text_have_one_key(a: Seq<char>, b: Seq<char>, c: Seq<char>, d: Seq<char>)
    requires
        a + b == c + d,
    ensures
        key_of_nodes(seq![NodeView::Text(a), NodeView::Text(b)]) == key_of_nodes(
            seq![NodeView::Text(c), NodeView::Text(d)],
        ),
        key_of_nodes(seq![NodeView::Text(a), NodeView::Verb(b)]) == key_of_nodes(
            seq![NodeView::RCode(c), NodeView::Text(d)],
        ),
        key_of_nodes(seq![NodeView::Text(a), NodeView::Text(b)]) == key_of_text(a + b),
{
    two_leaves(NodeView::Text(a), NodeView::Text(b), a, b);
    two_leaves(NodeView::Text(c), NodeView::Text(d), c, d);
    two_leaves(NodeView::Text(a), NodeView::Verb(b), a, b);
    two_leaves(NodeView::RCode(c), NodeView::Text(d), c, d);
}

proof fn two_leaves(x: NodeView, y: NodeView, a: Seq<char>, b: Seq<char>)
    requires
        x == NodeView::Text(a) || x == NodeView::Verb(a) || x == NodeView::RCode(a),
        y == NodeView::Text(b) || y == NodeView::Verb(b) || y == NodeView::RCode(b),
    ensures
        key_of_nodes(seq![x, y]) == key_of_text(a + b),
{
    let none = Seq::<TokenView>::empty();
    assert(with_key_nodes(none, seq![x, y], 0) == none);
    assert(seq![x, y][0] == x && seq![x, y][1] == y);
    assert(with_key_nodes(none, seq![x, y], 1) == with_key_node(none, x));
    assert(with_key_nodes(none, seq![x, y], 2) == with_key_node(with_key_node(none, x), y));
    let one = with_visible(none, a);
    if a.len() == 0 {
        assert(a + b =~= b);
    } else if b.len() == 0 {
        assert(a + b =~= a);
    } else {
        assert(one =~= seq![TokenView::Text(a)]);
        assert(with_visible(one, b) =~= seq![TokenView::Text(a + b)]);
        assert(with_visible(none, a + b) =~= seq![TokenView::Text(a + b)]);
    }
}

/// Titles with different texts have different keys.
pub proof fn other_texts_have_other_keys(a: Seq<char>, b: Seq<char>)
    requires
        a != b,
    ensures
        key_of_text(a) != key_of_text(b),
{
    if a.len() > 0 {
        assert(key_of_text(a)[0] == TokenView::Text(a));
    }
    if b.len() > 0 {
        assert(key_of_text(b)[0] == TokenView::Text(b));
    }
    if a.len() == 0 && b.len() == 0 {
        assert(a =~= b);
    }
}

/// Comments and the braces of a group do not count.
pub proof fn comments_and_braces_do_not_count(
    before: Seq<NodeView>,
    comment: Seq<char>,
    children: Seq<NodeView>,
)
    ensures
        key_of_nodes(before.push(NodeView::Comment(comment))) == key_of_nodes(before),
        key_of_nodes(before.push(NodeView::Group(children))) == key_of_nodes(before + children),
{
    let none = Seq::<TokenView>::empty();
    let remark = NodeView::Comment(comment);
    let group = NodeView::Group(children);
    nodes_split(none, before, seq![remark], 1);
    nodes_split(none, before, seq![group], 1);
    nodes_split(none, before, children, children.len() as int);
    assert(before.push(remark) =~= before + seq![remark]);
    assert(before.push(group) =~= before + seq![group]);
    let so_far = with_key_nodes(none, before, before.len() as int);
    single(so_far, remark);
    single(so_far, group);
}

/// Macros count as what they show: `\R` as the letter, `\dots` and `\ldots` as three dots, a
/// link with a known target as its display, and a hypertext reference as its display.
pub proof fn macros_count_as_what_they_show(
    address: Seq<NodeView>,
    display: Seq<NodeView>,
    target: Seq<char>,
    text: Seq<char>,
)
    ensures
        key_of_nodes(seq![plain_macro(RdMacro::R, Seq::empty())]) == key_of_text("R"@),
        key_of_nodes(seq![plain_macro(RdMacro::Dots, Seq::empty())]) == key_of_text("..."@),
        key_of_nodes(seq![plain_macro(RdMacro::LDots, Seq::empty())]) == key_of_text("..."@),
        key_of_nodes(
            seq![plain_macro(RdMacro::Href, seq![NodeView::Group(address), NodeView::Group(display)])],
        ) == key_of_nodes(display),
        key_of_nodes(seq![plain_macro(RdMacro::Link, seq![NodeView::Text(text)])]) == key_of_text(
            text,
        ),
        target.contains(':') || (target.len() > 0 && target[0] == '=') ==> key_of_nodes(
            seq![
                NodeView::Tagged {
                    tag: TagView::Named(RdMacro::Link),
                    option: Some(seq![NodeView::Text(target)]),
                    children: display,
                },
            ],
        ) == key_of_nodes(display),
{
    let none = Seq::<TokenView>::empty();
    single(none, plain_macro(RdMacro::R, Seq::empty()));
    single(none, plain_macro(RdMacro::Dots, Seq::empty()));
    single(none, plain_macro(RdMacro::LDots, Seq::empty()));
    let parts = seq![NodeView::Group(address), NodeView::Group(display)];
    assert(parts[1] == NodeView::Group(display));
    assert(parts[0] == NodeView::Group(address));
    single(none, plain_macro(RdMacro::Href, parts));
    let shown = seq![NodeView::Text(text)];
    single(none, plain_macro(RdMacro::Link, shown));
    single(none, NodeView::Text(text));
    assert(shown[0] == NodeView::Text(text));
    let option = seq![NodeView::Text(target)];
    assert(option[0] == NodeView::Text(target));
    let link = NodeView::Tagged {
        tag: TagView::Named(RdMacro::Link),
        option: Some(option),
        children: display,
    };
    single(none, link);
}

proof fn arguments_go_behind(tokens: Seq<TokenView>, nodes: Seq<NodeView>, count: int)
    requires
        0 <= count <= nodes.len(),
    ensures
        count == 0 ==> with_key_arguments(tokens, nodes, count) == tokens,
        count == 1 ==> with_key_arguments(tokens, nodes, count) == with_key_node(
            tokens.push(TokenView::Argument(0)),
            nodes[0],
        ),
{
    assert(with_key_arguments(tokens, nodes, 0) == tokens);
}

/// A macro with unknown output counts by its name and its arguments: what its argument shows
/// stands between its opening and its close.
pub proof fn unknown_macros_count_as_constructs(name: Seq<char>, opaque: Seq<char>, text: Seq<char>)
    requires
        text.len() > 0,
    ensures
        key_of_nodes(
            seq![
                NodeView::Tagged {
                    tag: TagView::Unknown(name),
                    option: None,
                    children: seq![NodeView::Text(text)],
                },
            ],
        ) == seq![
            TokenView::Open(ConstructView::UnknownTag(name)),
            TokenView::Argument(0),
            TokenView::Text(text),
            TokenView::Close,
        ],
        key_of_nodes(
            seq![
                NodeView::Tagged {
                    tag: TagView::Known(name),
                    option: None,
                    children: seq![NodeView::Text(text)],
                },
            ],
        ) == seq![
            TokenView::Open(ConstructView::KnownTag(name)),
            TokenView::Argument(0),
            TokenView::Text(text),
            TokenView::Close,
        ],
        key_of_nodes(
            seq![
                NodeView::Raw {
                    tag: Some(name),
                    opaque,
                    option: None,
                    children: seq![NodeView::Text(text)],
                },
            ],
        ) == seq![
            TokenView::Open(ConstructView::Raw { tag: Some(name), opaque }),
            TokenView::Argument(0),
            TokenView::Text(text),
            TokenView::Close,
        ],
        key_of_nodes(
            seq![
                NodeView::Tagged {
                    tag: TagView::Unknown(name),
                    option: Some(seq![NodeView::Text(text)]),
                    children: Seq::empty(),
                },
            ],
        ) == seq![
            TokenView::Open(ConstructView::UnknownTag(name)),
            TokenView::Option,
            TokenView::Text(text),
            TokenView::Close,
        ],
{
    let none = Seq::<TokenView>::empty();
    let inside = seq![NodeView::Text(text)];
    let unknown = NodeView::Tagged { tag: TagView::Unknown(name), option: None, children: inside };
    let known = NodeView::Tagged { tag: TagView::Known(name), option: None, children: inside };
    let raw = NodeView::Raw { tag: Some(name), opaque, option: None, children: inside };
    let optional = NodeView::Tagged {
        tag: TagView::Unknown(name),
        option: Some(inside),
        children: Seq::empty(),
    };
    single(none, unknown);
    single(none, known);
    single(none, raw);
    single(none, optional);
    assert(inside[0] == NodeView::Text(text));
    let a = none.push(TokenView::Open(ConstructView::UnknownTag(name)));
    let b = none.push(TokenView::Open(ConstructView::KnownTag(name)));
    let c = none.push(TokenView::Open(ConstructView::Raw { tag: Some(name), opaque }));
    arguments_go_behind(a, inside, 1);
    arguments_go_behind(b, inside, 1);
    arguments_go_behind(c, inside, 1);
    let d = a.push(TokenView::Option);
    single(d, NodeView::Text(text));
    arguments_go_behind(with_key_nodes(d, inside, 1), Seq::empty(), 0);
    assert(key_of_nodes(seq![unknown]) =~= seq![
        TokenView::Open(ConstructView::UnknownTag(name)),
        TokenView::Argument(0),
        TokenView::Text(text),
        TokenView::Close,
    ]);
    assert(key_of_nodes(seq![known]) =~= seq![
        TokenView::Open(ConstructView::KnownTag(name)),
        TokenView::Argument(0),
        TokenView::Text(text),
        TokenView::Close,
    ]);
    assert(key_of_nodes(seq![raw]) =~= seq![
        TokenView::Open(ConstructView::Raw { tag: Some(name), opaque }),
        TokenView::Argument(0),
        TokenView::Text(text),
        TokenView::Close,
    ]);
    assert(key_of_nodes(seq![optional]) =~= seq![
        TokenView::Open(ConstructView::UnknownTag(name)),
        TokenView::Option,
        TokenView::Text(text),
        TokenView::Close,
    ]);
}

/// The macros that only set their text count as their text.
pub proof fn set_text_counts_as_text(name: RdMacro, text: Seq<char>)
    requires
        name == RdMacro::Emph || name == RdMacro::Strong || name == RdMacro::Bold || name
            == RdMacro::Code || name == RdMacro::Verb || name == RdMacro::Url || name
            == RdMacro::Email || name == RdMacro::File || name == RdMacro::Pkg || name
            == RdMacro::Samp || name == RdMacro::Kbd || name == RdMacro::Var || name
            == RdMacro::Env || name == RdMacro::Command || name == RdMacro::Option || name
            == RdMacro::Acronym || name == RdMacro::Cite || name == RdMacro::Dfn,
    ensures
        key_of_nodes(seq![plain_macro(name, seq![NodeView::Text(text)])]) == key_of_text(text),
{
    let none = Seq::<TokenView>::empty();
    single(none, plain_macro(name, seq![NodeView::Text(text)]));
    single(none, NodeView::Text(text));
}

} // verus!
