//! Laws of links in Markdown.
use crate::diagnostic::{DiagnosticCode, Severity};
use crate::markdown_conversion::context::{ContextView, ResolutionView};
use crate::markdown_conversion::leaf::{joined_chunks, line_chunks, line_chunks_partition};
use crate::markdown_conversion::link::{
    first_double_colon, is_code, link_marker, link_reading, lowered_link, lowered_topic,
    parsed_topic, percent_decoded, plain_topics_survive_the_destination, rendered, rendered_all,
    text_nodes, unwritable_option, without_backticks, without_suffix,
};
use crate::markdown_conversion::origin::{text_leaves, OriginView, ShapeView};
use crate::markdown_conversion::position::spans_of;
use crate::rd::{NodeView, RdMacro, TagView};
use crate::source::Span;
use crate::tags::SourcedText;
use crate::text::is_control;
use vstd::prelude::*;

verus! {

/// Whether a link is shown as a single piece of inline code.
pub open spec fn shown_as_code(children: Seq<OriginView>) -> bool {
    &&& children.len() == 1
    &&& children[0].shape matches ShapeView::Tagged { tag, .. }
    &&& tag == TagView::Named(RdMacro::Code) || tag == TagView::Named(RdMacro::Verb)
}

/// Whether a target names a topic: it is the topic, or, where the link is shown as
/// code, the topic between backticks.
pub open spec fn target_names(target: Seq<char>, children: Seq<OriginView>, text: Seq<char>) -> bool {
    let quoted = shown_as_code(children) && target.len() >= 2 && target[0] == '`' && target.last()
        == '`';
    if quoted {
        target == seq!['`'] + text + seq!['`']
    } else {
        target == text
    }
}

/// Whether a name is that of a function, which may be written with parentheses.
pub open spec fn calls(function: Seq<char>, name: Seq<char>) -> bool {
    if seq!['(', ')'].is_suffix_of(function) {
        function == name + seq!['(', ')']
    } else {
        function == name
    }
}

/// Whether a text can stand in the option of a link.
pub open spec fn fits_option(text: Seq<char>) -> bool {
    forall|i: int|
        0 <= i < text.len() ==> #[trigger] text[i] != ']' && (text[i] == '\n' || !is_control(text[i]))
}

/// Whether a text has no `::` that begins before a place.
pub open spec fn unqualified_before(text: Seq<char>, at: int) -> bool {
    forall|i: int| 0 <= i < at && i + 1 < text.len() ==> !(#[trigger] text[i] == ':' && text[i + 1] == ':')
}

/// Whether a link shows nothing but the topic that it names.
pub open spec fn shows_topic(children: Seq<OriginView>, text: Seq<char>) -> bool {
    &&& forall|i: int| 0 <= i < children.len() ==> (#[trigger] children[i]).shape is Text
    &&& rendered_all(children) == text
}

/// The name that a link to a topic shows: that of an S4 class without its suffix.
pub open spec fn shown_name(function: Seq<char>) -> Seq<char> {
    if "-class"@.is_suffix_of(function) {
        function.take(function.len() - "-class"@.len())
    } else {
        function
    }
}

/// A `\link` node with an option, and inside `\code` where it is code.
pub open spec fn link_node(
    option: Option<Seq<char>>,
    shown: Seq<OriginView>,
    code: bool,
    spans: Seq<Span>,
) -> OriginView {
    let link = OriginView {
        shape: ShapeView::Tagged {
            tag: TagView::Named(RdMacro::Link),
            option: match option {
                Some(option) => Some(text_nodes(option)),
                None => None,
            },
            children: shown,
        },
        spans,
    };
    if code {
        OriginView {
            shape: ShapeView::Tagged {
                tag: TagView::Named(RdMacro::Code),
                option: None,
                children: seq![link],
            },
            spans,
        }
    } else {
        link
    }
}

/// What stands inside a link: a label where it is generated or code, else what the
/// Markdown shows.
pub open spec fn link_contents(
    children: Seq<OriginView>,
    text: Seq<char>,
    label: Seq<char>,
    spans: Seq<Span>,
) -> Seq<OriginView> {
    let places = if children.len() > 0 {
        children[0].spans
    } else {
        spans
    };
    if shows_topic(children, text) {
        text_leaves(label, places)
    } else if shown_as_code(children) {
        text_leaves(rendered_all(children), places)
    } else {
        children
    }
}

proof fn colons_begin_there(text: Seq<char>, from: int, at: int)
    requires
        0 <= from <= at,
        at + 1 < text.len(),
        text[at] == ':',
        text[at + 1] == ':',
        unqualified_before(text, at),
    ensures
        first_double_colon(text, from) == Some(at),
    decreases at - from,
{
    if from < at {
        assert(!(text[from] == ':' && text[from + 1] == ':'));
        colons_begin_there(text, from + 1, at);
    }
}

proof fn no_colons(text: Seq<char>, from: int)
    requires
        0 <= from,
        unqualified_before(text, text.len() as int),
    ensures
        first_double_colon(text, from) is None,
    decreases text.len() - from,
{
    if from + 1 < text.len() {
        assert(!(text[from] == ':' && text[from + 1] == ':'));
        no_colons(text, from + 1);
    }
}

proof fn names_are_read(function: Seq<char>, name: Seq<char>)
    requires
        calls(function, name),
    ensures
        without_suffix(function, "()"@) == name,
        crate::text::has_suffix(function, "()"@) == seq!['(', ')'].is_suffix_of(function),
        crate::text::has_suffix(function, "-class"@) == "-class"@.is_suffix_of(function),
        crate::text::has_suffix(function, "-class"@) ==> without_suffix(function, "-class"@)
            == shown_name(function),
{
    reveal_strlit("()");
    assert("()"@ =~= seq!['(', ')']);
    if seq!['(', ')'].is_suffix_of(function) {
        assert((name + seq!['(', ')']).take(name.len() as int) =~= name);
    }
}

proof fn topics_are_read(target: Seq<char>, children: Seq<OriginView>, text: Seq<char>)
    requires
        target_names(target, children, text),
    ensures
        link_reading(target, children).code_span == shown_as_code(children),
        link_reading(target, children).generated == shows_topic(children, text),
        link_reading(target, children).parsed == parsed_topic(text),
        shown_as_code(children) ==> !shows_topic(children, text),
{
    if shown_as_code(children) {
        assert(is_code(children[0]));
        assert(without_backticks(target) =~= text);
        assert(!(children[0].shape is Text));
    }
}

proof fn options_fit(text: Seq<char>)
    ensures
        unwritable_option(text) == !fits_option(text),
{
}

/// A link to a topic of another package goes there: the option of the link is the
/// package, a colon and the name of the topic without parentheses, whatever the link
/// shows, and nothing is looked up or reported. Where it shows the topic itself, it
/// shows package and name.
pub proof fn qualified_links_name_their_package(
    source: SourcedText,
    context: ContextView,
    target: Seq<char>,
    start: usize,
    end: usize,
    children: Seq<OriginView>,
    package: Seq<char>,
    function: Seq<char>,
    name: Seq<char>,
)
    requires
        target_names(target, children, package + "::"@ + function),
        unqualified_before(package + "::"@ + function, package.len() as int),
        context.current_package != Some(package),
        calls(function, name),
        fits_option(package + seq![':'] + name),
    ensures
        ({
            let spans = spans_of(source, start, end);
            let text = package + "::"@ + function;
            let lowered = lowered_topic(source, context, target, start, end, children);
            &&& lowered.diagnostics.len() == 0
            &&& lowered.nodes == seq![
                link_node(
                    Some(package + seq![':'] + name),
                    link_contents(
                        children,
                        text,
                        package + "::"@ + shown_name(function),
                        spans,
                    ),
                    shown_as_code(children) || (shows_topic(children, text)
                        && seq!['(', ')'].is_suffix_of(function)),
                    spans,
                ),
            ]
        }),
{
    reveal(lowered_topic);
    reveal_strlit("::");
    reveal_strlit(":");
    let text = package + "::"@ + function;
    let at = package.len() as int;
    assert(text[at] == ':' && text[at + 1] == ':');
    colons_begin_there(text, 0, at);
    assert(text.take(at) =~= package);
    assert(text.skip(at + 2) =~= function);
    topics_are_read(target, children, text);
    names_are_read(function, name);
    assert(":"@ =~= seq![':']);
    options_fit(package + seq![':'] + name);
}

/// A link to a topic of the package itself, named with the package, is a local link: it
/// is not looked up, nothing is reported, and where it shows the topic itself the
/// package is left out.
pub proof fn own_topics_are_local(
    source: SourcedText,
    context: ContextView,
    target: Seq<char>,
    start: usize,
    end: usize,
    children: Seq<OriginView>,
    package: Seq<char>,
    function: Seq<char>,
    name: Seq<char>,
)
    requires
        target_names(target, children, package + "::"@ + function),
        unqualified_before(package + "::"@ + function, package.len() as int),
        context.current_package == Some(package),
        calls(function, name),
        fits_option(name),
    ensures
        ({
            let spans = spans_of(source, start, end);
            let text = package + "::"@ + function;
            let label = if shows_topic(children, text) {
                shown_name(function)
            } else {
                rendered_all(children)
            };
            let lowered = lowered_topic(source, context, target, start, end, children);
            &&& lowered.diagnostics.len() == 0
            &&& lowered.nodes == seq![
                link_node(
                    if label == name {
                        None
                    } else {
                        Some(seq!['='] + name)
                    },
                    link_contents(children, text, label, spans),
                    shown_as_code(children) || (shows_topic(children, text)
                        && seq!['(', ')'].is_suffix_of(function)),
                    spans,
                ),
            ]
        }),
{
    reveal(lowered_topic);
    reveal_strlit("::");
    reveal_strlit("=");
    let text = package + "::"@ + function;
    let at = package.len() as int;
    assert(text[at] == ':' && text[at + 1] == ':');
    colons_begin_there(text, 0, at);
    assert(text.take(at) =~= package);
    assert(text.skip(at + 2) =~= function);
    topics_are_read(target, children, text);
    names_are_read(function, name);
    assert("="@ =~= seq!['=']);
    assert(fits_option(seq!['='] + name));
    options_fit(seq!['='] + name);
}

/// The option that a link without a package has.
pub open spec fn found_option(found: ResolutionView, name: Seq<char>, label: Seq<char>) -> Option<
    Seq<char>,
> {
    match found {
        ResolutionView::External(package) => Some(package + seq![':'] + name),
        _ => if label == name {
            None
        } else {
            Some(seq!['='] + name)
        },
    }
}

/// A link to a topic without a package goes where its name is found: to the package
/// that an outside topic is found in, else to the local topic. A topic that is not found
/// or found in several packages is warned of once, where the link stands.
pub proof fn unqualified_links_are_looked_up(
    source: SourcedText,
    context: ContextView,
    target: Seq<char>,
    start: usize,
    end: usize,
    children: Seq<OriginView>,
    function: Seq<char>,
    name: Seq<char>,
)
    requires
        target_names(target, children, function),
        unqualified_before(function, function.len() as int),
        calls(function, name),
        found_option(
            (context.links)(name),
            name,
            if shows_topic(children, function) {
                shown_name(function)
            } else {
                rendered_all(children)
            },
        ) matches Some(option) ==> fits_option(option),
    ensures
        ({
            let spans = spans_of(source, start, end);
            let found = (context.links)(name);
            let label = if shows_topic(children, function) {
                shown_name(function)
            } else {
                rendered_all(children)
            };
            let lowered = lowered_topic(source, context, target, start, end, children);
            &&& lowered.nodes == seq![
                link_node(
                    found_option(found, name, label),
                    link_contents(children, function, label, spans),
                    shown_as_code(children) || (shows_topic(children, function)
                        && seq!['(', ')'].is_suffix_of(function)),
                    spans,
                ),
            ]
            &&& found is Local || found is Unchecked || found is External
                ==> lowered.diagnostics.len() == 0
            &&& (found is Unresolved || found is Ambiguous) && spans.len() > 0
                ==> lowered.diagnostics.len() == 1 && lowered.diagnostics[0].severity
                == Severity::Warning && lowered.diagnostics[0].code
                == DiagnosticCode::AmbiguousExternalAlias && lowered.diagnostics[0].primary.span
                == spans[0]
        }),
{
    reveal(lowered_topic);
    reveal_strlit(":");
    reveal_strlit("=");
    no_colons(function, 0);
    topics_are_read(target, children, function);
    names_are_read(function, name);
    assert("="@ =~= seq!['=']);
    assert(":"@ =~= seq![':']);
    let label = if shows_topic(children, function) {
        shown_name(function)
    } else {
        rendered_all(children)
    };
    if found_option((context.links)(name), name, label) is Some {
        options_fit(found_option((context.links)(name), name, label)->0);
    }
}

/// A link whose option cannot be written is no link: what it shows stays, and an error
/// is reported.
pub proof fn unwritable_links_keep_their_text(
    source: SourcedText,
    context: ContextView,
    target: Seq<char>,
    start: usize,
    end: usize,
    children: Seq<OriginView>,
    package: Seq<char>,
    function: Seq<char>,
    name: Seq<char>,
)
    requires
        target_names(target, children, package + "::"@ + function),
        unqualified_before(package + "::"@ + function, package.len() as int),
        context.current_package != Some(package),
        calls(function, name),
        !fits_option(package + seq![':'] + name),
        spans_of(source, start, end).len() > 0,
    ensures
        ({
            let lowered = lowered_topic(source, context, target, start, end, children);
            &&& !shows_topic(children, package + "::"@ + function) ==> lowered.nodes == children
            &&& lowered.diagnostics.len() == 1
            &&& lowered.diagnostics[0].severity == Severity::Error
            &&& lowered.diagnostics[0].code == DiagnosticCode::UnsupportedMarkdownConstruct
        }),
{
    reveal(lowered_topic);
    reveal_strlit("::");
    reveal_strlit(":");
    let text = package + "::"@ + function;
    let at = package.len() as int;
    assert(text[at] == ':' && text[at + 1] == ':');
    colons_begin_there(text, 0, at);
    assert(text.take(at) =~= package);
    assert(text.skip(at + 2) =~= function);
    topics_are_read(target, children, text);
    names_are_read(function, name);
    assert(":"@ =~= seq![':']);
    options_fit(package + seq![':'] + name);
}

/// A destination that begins with `R:` is a link to the topic behind it.
pub proof fn marked_destinations_are_topics(
    source: SourcedText,
    context: ContextView,
    topic: Seq<char>,
    start: usize,
    end: usize,
    children: Seq<OriginView>,
)
    requires
        !topic.contains('%'),
    ensures
        lowered_link(source, context, seq!['R', ':'] + topic, start, end, children)
            == lowered_topic(source, context, topic, start, end, children),
{
    reveal(lowered_link);
    reveal_strlit("R:");
    assert("R:"@ =~= seq!['R', ':']);
    plain_topics_survive_the_destination(topic);
}

/// Any other destination is a URL. It is shown alone, as `\url`, when it is empty or
/// what the link shows; else it is a `\href` of the destination and what is shown. Nothing
/// is reported.
pub proof fn other_destinations_are_urls(
    source: SourcedText,
    context: ContextView,
    destination: Seq<char>,
    start: usize,
    end: usize,
    children: Seq<OriginView>,
)
    requires
        !(seq!['R', ':'].is_prefix_of(destination)),
    ensures
        ({
            let lowered = lowered_link(source, context, destination, start, end, children);
            let alone = destination.len() == 0 || destination == rendered_all(children);
            &&& lowered.diagnostics.len() == 0
            &&& lowered.nodes.len() == 1
            &&& lowered.nodes[0].spans == spans_of(source, start, end)
            &&& lowered.nodes[0].shape matches ShapeView::Tagged { tag, option, children: inside }
                && option is None && (if alone {
                tag == TagView::Named(RdMacro::Url) && rendered_all(inside) == rendered_all(
                    children,
                ) && forall|i: int|
                    0 <= i < inside.len() ==> (#[trigger] inside[i]).shape is Verb
            } else {
                &&& tag == TagView::Named(RdMacro::Href)
                &&& inside.len() == 2
                &&& inside[0].shape matches ShapeView::Group(address)
                &&& rendered_all(address) == destination
                &&& forall|i: int|
                    0 <= i < address.len() ==> (#[trigger] address[i]).shape is Verb
                &&& inside[1].shape == ShapeView::Group(children)
            })
        }),
{
    reveal(lowered_link);
    reveal_strlit("R:");
    assert("R:"@ =~= seq!['R', ':']);
    let spans = spans_of(source, start, end);
    let places = if children.len() > 0 {
        children[0].spans
    } else {
        spans
    };
    verbatim_leaves_show_the_text(rendered_all(children), places);
    verbatim_leaves_show_the_text(destination, spans);
}

proof fn verbatim_leaves_show_the_text(text: Seq<char>, spans: Seq<Span>)
    ensures
        rendered_all(crate::markdown_conversion::origin::verb_leaves(text, spans)) == text,
        forall|i: int|
            0 <= i < crate::markdown_conversion::origin::verb_leaves(text, spans).len() ==> (
            #[trigger] crate::markdown_conversion::origin::verb_leaves(text, spans)[i]).shape is Verb,
{
    line_chunks_partition(text);
    let leaves = crate::markdown_conversion::origin::verb_leaves(text, spans);
    leaves_show_chunks(leaves, line_chunks(text));
}

proof fn leaves_show_chunks(leaves: Seq<OriginView>, chunks: Seq<Seq<char>>)
    requires
        leaves.len() == chunks.len(),
        forall|i: int| 0 <= i < leaves.len() ==> rendered(#[trigger] leaves[i]) == chunks[i],
    ensures
        rendered_all(leaves) == joined_chunks(chunks),
    decreases leaves.len(),
{
    if leaves.len() > 0 {
        assert(rendered(leaves[leaves.len() - 1]) == chunks[chunks.len() - 1]);
        assert forall|i: int| 0 <= i < leaves.len() - 1 implies rendered(
            #[trigger] leaves.drop_last()[i],
        ) == chunks.drop_last()[i] by {
            assert(rendered(leaves[i]) == chunks[i]);
        }
        leaves_show_chunks(leaves.drop_last(), chunks.drop_last());
    }
}

/// The text that nodes show is the text that each of them shows, in their order, and a
/// leaf shows itself.
pub proof fn nodes_show_their_text(first: Seq<OriginView>, second: Seq<OriginView>, node: OriginView)
    ensures
        rendered_all(first + second) == rendered_all(first) + rendered_all(second),
        rendered_all(seq![node]) == rendered(node),
        node.shape matches ShapeView::Text(text) ==> rendered(node) == text,
        node.shape matches ShapeView::RCode(text) ==> rendered(node) == text,
        node.shape matches ShapeView::Verb(text) ==> rendered(node) == text,
        node.shape matches ShapeView::Group(children) ==> rendered(node) == rendered_all(children),
        node.shape matches ShapeView::Tagged { children, .. } ==> rendered(node) == rendered_all(
            children,
        ),
    decreases second.len(),
{
    assert(seq![node].drop_last() =~= Seq::<OriginView>::empty());
    assert(rendered_all(Seq::<OriginView>::empty()) =~= Seq::<char>::empty());
    assert(seq![node].last() == node);
    assert(rendered_all(seq![node]) == rendered_all(seq![node].drop_last()) + rendered(node));
    assert(rendered_all(seq![node]) =~= rendered(node));
    if second.len() == 0 {
        assert(first + second =~= first);
        assert(rendered_all(first) + rendered_all(second) =~= rendered_all(first));
    } else {
        nodes_show_their_text(first, second.drop_last(), node);
        assert((first + second).drop_last() =~= first + second.drop_last());
        assert(rendered_all(first + second) =~= rendered_all(first) + rendered_all(second));
    }
}

/// The text of an option stands in it, line by line.
pub proof fn options_hold_their_text(text: Seq<char>)
    ensures
        text_nodes(text).len() == line_chunks(text).len(),
        forall|i: int|
            0 <= i < text_nodes(text).len() ==> #[trigger] text_nodes(text)[i] == NodeView::Text(
                line_chunks(text)[i],
            ),
        joined_chunks(line_chunks(text)) == text,
{
    line_chunks_partition(text);
}

/// Escapes in a destination are undone byte by byte: a text without percent signs stays
/// as it is.
pub proof fn plain_destinations_stay(text: Seq<char>)
    requires
        !text.contains('%'),
    ensures
        percent_decoded(text) == text,
        link_marker().len() == 2,
{
    plain_topics_survive_the_destination(text);
    reveal_strlit("R:");
}

} // verus!
