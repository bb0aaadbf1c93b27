//! Lowering of Markdown links.
use crate::diagnostic::{
    plain_diagnostic, Diagnostic, DiagnosticCode, DiagnosticView, Diagnostics, Label, LabelView,
    Severity,
};
use crate::rd::{node_views, NodeView, RdMacro, RdNode, RdTag, TagView};
use crate::source::{byte_slice, slice_bytes, Span};
use crate::tags::SourcedText;
use crate::text::{
    after_prefix, before_suffix, char_vec, debug_text, ends_with, has_suffix, is_space, opt_text,
    same_text, space, strip_prefix, strip_suffix, text2, text3, text_of, texts, written_debug,
};
use vstd::prelude::*;
use vstd::utf8::{decode_utf8, encode_utf8, valid_utf8};

use super::context::{
    ContextView, HelpLinkResolver, LinkResolution, MarkdownContext, ResolutionView,
};
use super::leaf::{line_chunks, physical_line_chunks};
use super::origin::{
    copy_spans, group, make_group, make_tagged, make_text_leaves, make_verb_leaves, one_node,
    origin_view, origin_views, origin_views_index, tagged, text_leaves, two_nodes, verb_leaves,
    NodeWithOrigin, OriginView, Shape, ShapeView,
};
use super::position::{anchor_of, range_anchor, range_spans, spans_of};
use super::separator::is_blank;
use super::table::first_of;

verus! {

/// What stands before the topic in the destination of a help link.
pub open spec fn link_marker() -> Seq<char> {
    "R:"@
}

/// The characters of a text that are not white space.
pub open spec fn solid(text: Seq<char>) -> Seq<char>
    decreases text.len(),
{
    if text.len() == 0 {
        Seq::empty()
    } else if is_space(text.last()) {
        solid(text.drop_last())
    } else {
        solid(text.drop_last()).push(text.last())
    }
}

/// The characters of a text that are not white space.
fn solid_chars(text: &str) -> (r: Vec<char>)
    ensures
        r@ == solid(text@),
{
    let chars = char_vec(text);
    let mut out: Vec<char> = Vec::new();
    let mut i: usize = 0;
    while i < chars.len()
        invariant
            i <= chars@.len(),
            chars@ == text@,
            out@ == solid(text@.take(i as int)),
        decreases chars@.len() - i,
    {
        proof {
            assert(text@.take(i as int + 1).drop_last() =~= text@.take(i as int));
        }
        if !space(chars[i]) {
            out.push(chars[i]);
        }
        i += 1;
    }
    proof {
        assert(text@.take(i as int) =~= text@);
    }
    out
}

/// Whether two texts differ in white space only.
fn same_but_for_space(a: &str, b: &str) -> (r: bool)
    ensures
        r == (solid(a@) == solid(b@)),
{
    let left = solid_chars(a);
    let right = solid_chars(b);
    if left.len() != right.len() {
        return false;
    }
    let mut i: usize = 0;
    while i < left.len()
        invariant
            i <= left@.len(),
            left@.len() == right@.len(),
            left@ == solid(a@),
            right@ == solid(b@),
            forall|k: int| 0 <= k < i ==> left@[k] == right@[k],
        decreases left@.len() - i,
    {
        if left[i] != right[i] {
            return false;
        }
        i += 1;
    }
    proof {
        assert(left@ =~= right@);
    }
    true
}

/// The topic that a reference without a definition names. Markdown folds the
/// white space of a reference; where the link is nothing but its label, the
/// label counts as it is written.
pub open spec fn reference_topic(
    text: Seq<char>,
    start: int,
    end: int,
    reference: Seq<char>,
) -> Seq<char> {
    match byte_slice(text, start + 1, end - 1) {
        Some(label) => if solid(label) == solid(reference) {
            label
        } else {
            reference
        },
        None => reference,
    }
}

/// The destination of the help link that a reference without a definition
/// makes; the link stands between two byte offsets of the text.
pub fn link_destination(text: &str, start: usize, end: usize, reference: &str) -> (r: String)
    ensures
        r@ == link_marker() + reference_topic(text@, start as int, end as int, reference@),
{
    if start < end && end - start >= 2 {
        match slice_bytes(text, start + 1, end - 1) {
            Some(label) => if same_but_for_space(label, reference) {
                return text2("R:", label);
            },
            None => {},
        }
    }
    text2("R:", reference)
}

/// The value of a hexadecimal digit.
pub open spec fn hex_value(byte: u8) -> Option<u8> {
    if 0x30 <= byte <= 0x39 {
        Some((byte - 0x30) as u8)
    } else if 0x61 <= byte <= 0x66 {
        Some((byte - 0x61 + 10) as u8)
    } else if 0x41 <= byte <= 0x46 {
        Some((byte - 0x41 + 10) as u8)
    } else {
        None
    }
}

fn hex(byte: u8) -> (r: Option<u8>)
    ensures
        r == hex_value(byte),
        r is Some ==> r->0 < 16,
{
    if 0x30 <= byte && byte <= 0x39 {
        Some(byte - 0x30)
    } else if 0x61 <= byte && byte <= 0x66 {
        Some(byte - 0x61 + 10)
    } else if 0x41 <= byte && byte <= 0x46 {
        Some(byte - 0x41 + 10)
    } else {
        None
    }
}

/// Bytes in which every percent sign that two hexadecimal digits follow has
/// become the byte that they stand for.
pub open spec fn decoded_bytes(bytes: Seq<u8>) -> Seq<u8>
    decreases bytes.len(),
{
    if bytes.len() == 0 {
        Seq::empty()
    } else if bytes[0] == 0x25 && bytes.len() > 2 && hex_value(bytes[1]) is Some && hex_value(
        bytes[2],
    ) is Some {
        seq![(hex_value(bytes[1])->0 * 16 + hex_value(bytes[2])->0) as u8] + decoded_bytes(
            bytes.skip(3),
        )
    } else {
        seq![bytes[0]] + decoded_bytes(bytes.skip(1))
    }
}

/// What `String::from_utf8_lossy` makes of bytes that are not valid UTF-8.
pub uninterp spec fn lossy_text(bytes: Seq<u8>) -> Seq<char>;

/// The text of bytes, where it is one, or what stands in its place.
pub open spec fn text_of_bytes(bytes: Seq<u8>) -> Seq<char> {
    if valid_utf8(bytes) {
        decode_utf8(bytes)
    } else {
        lossy_text(bytes)
    }
}

/// Calls `String::from_utf8_lossy`. Valid UTF-8 becomes the text it encodes. Of
/// other bytes the contract only says that the result depends on nothing else.
#[verifier::external_body]
fn text_from_bytes(bytes: &Vec<u8>) -> (r: String)
    ensures
        valid_utf8(bytes@) ==> r@ == decode_utf8(bytes@),
        !valid_utf8(bytes@) ==> r@ == lossy_text(bytes@),
{
    String::from_utf8_lossy(bytes).into_owned()
}

/// A text without its percent escapes.
pub open spec fn percent_decoded(text: Seq<char>) -> Seq<char> {
    text_of_bytes(decoded_bytes(encode_utf8(text)))
}

/// Takes the percent escapes out of a text.
pub fn percent_decode(text: &str) -> (r: String)
    ensures
        r@ == percent_decoded(text@),
{
    let bytes = text.as_bytes();
    let mut decoded: Vec<u8> = Vec::new();
    let mut i: usize = 0;
    proof {
        assert(bytes@.skip(0) =~= bytes@);
        assert(decoded@ + decoded_bytes(bytes@) =~= decoded_bytes(bytes@));
    }
    while i < bytes.len()
        invariant
            i <= bytes@.len(),
            bytes@ == encode_utf8(text@),
            decoded@ + decoded_bytes(bytes@.skip(i as int)) == decoded_bytes(bytes@),
        decreases bytes@.len() - i,
    {
        let ghost before = decoded@;
        let ghost rest = bytes@.skip(i as int);
        let mut step: usize = 1;
        let mut value: u8 = bytes[i];
        if value == 0x25 && bytes.len() - i > 2 {
            if let Some(high) = hex(bytes[i + 1]) {
                if let Some(low) = hex(bytes[i + 2]) {
                    step = 3;
                    value = high * 16 + low;
                }
            }
        }
        decoded.push(value);
        proof {
            assert(rest.skip(step as int) =~= bytes@.skip(i + step));
            assert(before + (seq![value] + decoded_bytes(rest.skip(step as int))) =~= before.push(
                value,
            ) + decoded_bytes(rest.skip(step as int)));
        }
        i = i + step;
    }
    proof {
        assert(bytes@.skip(bytes@.len() as int) =~= Seq::<u8>::empty());
        assert(decoded@ + Seq::<u8>::empty() =~= decoded@);
    }
    text_from_bytes(&decoded)
}

proof fn plain_scalars(c: char)
    requires
        c != '%',
    ensures
        forall|i: int|
            0 <= i < vstd::utf8::encode_scalar(c as u32).len() ==> #[trigger] vstd::utf8::encode_scalar(
                c as u32,
            )[i] != 0x25,
        vstd::utf8::encode_scalar(c as u32).len() > 0,
{
    let v = c as u32;
    vstd::utf8::char_is_scalar(c);
    assert(v != 0x25);
    assert(v <= 0x7f && v != 0x25 ==> (v & 0x7F) as u8 != 0x25) by (bit_vector);
    assert(vstd::utf8::leading_byte_width_2(v) != 0x25) by (bit_vector);
    assert(vstd::utf8::leading_byte_width_3(v) != 0x25) by (bit_vector);
    assert(vstd::utf8::leading_byte_width_4(v) != 0x25) by (bit_vector);
    assert(vstd::utf8::last_continuation_byte(v) != 0x25) by (bit_vector);
    assert(vstd::utf8::second_last_continuation_byte(v) != 0x25) by (bit_vector);
    assert(vstd::utf8::third_last_continuation_byte(v) != 0x25) by (bit_vector);
}

proof fn plain_bytes_stay(bytes: Seq<u8>, count: int)
    requires
        0 <= count <= bytes.len(),
        forall|i: int| 0 <= i < count ==> #[trigger] bytes[i] != 0x25,
    ensures
        decoded_bytes(bytes) == bytes.take(count) + decoded_bytes(bytes.skip(count)),
    decreases count,
{
    if count == 0 {
        assert(bytes.skip(0) =~= bytes);
        assert(decoded_bytes(bytes) =~= bytes.take(0) + decoded_bytes(bytes));
    } else {
        let rest = bytes.skip(1);
        assert(bytes[0] != 0x25);
        plain_bytes_stay(rest, count - 1);
        assert(rest.skip(count - 1) =~= bytes.skip(count));
        assert(bytes.take(count) =~= seq![bytes[0]] + rest.take(count - 1));
        assert(decoded_bytes(bytes) =~= bytes.take(count) + decoded_bytes(bytes.skip(count)));
    }
}

proof fn plain_text_has_plain_bytes(text: Seq<char>)
    requires
        forall|i: int| 0 <= i < text.len() ==> #[trigger] text[i] != '%',
    ensures
        forall|i: int|
            0 <= i < encode_utf8(text).len() ==> #[trigger] encode_utf8(text)[i] != 0x25,
    decreases text.len(),
{
    if text.len() > 0 {
        let head = vstd::utf8::encode_scalar(text[0] as u32);
        let rest = text.drop_first();
        assert(text[0] != '%');
        assert forall|i: int| 0 <= i < rest.len() implies #[trigger] rest[i] != '%' by {
            assert(rest[i] == text[i + 1]);
        }
        plain_scalars(text[0]);
        plain_text_has_plain_bytes(rest);
        let bytes = encode_utf8(text);
        assert(bytes =~= head + encode_utf8(rest));
        assert forall|i: int| 0 <= i < bytes.len() implies #[trigger] bytes[i] != 0x25 by {
            if i < head.len() {
                assert(bytes[i] == head[i]);
            } else {
                assert(bytes[i] == encode_utf8(rest)[i - head.len()]);
            }
        }
    }
}

/// A help link keeps its topic: a topic without percent signs is read back from
/// the destination of its link as it was.
pub proof fn plain_topics_survive_the_destination(topic: Seq<char>)
    requires
        forall|i: int| 0 <= i < topic.len() ==> #[trigger] topic[i] != '%',
    ensures
        percent_decoded(topic) == topic,
        after_prefix(link_marker() + topic, link_marker()) == Some(topic),
{
    let bytes = encode_utf8(topic);
    plain_text_has_plain_bytes(topic);
    plain_bytes_stay(bytes, bytes.len() as int);
    assert(bytes.skip(bytes.len() as int) =~= Seq::<u8>::empty());
    assert(bytes.take(bytes.len() as int) + Seq::<u8>::empty() =~= bytes);
    vstd::utf8::encode_utf8_valid_utf8(topic);
    vstd::utf8::encode_utf8_decode_utf8(topic);
    let whole = link_marker() + topic;
    assert(whole.take(link_marker().len() as int) =~= link_marker());
    assert(whole.skip(link_marker().len() as int) =~= topic);
}

/// The visible text of nodes.
pub open spec fn rendered_all(nodes: Seq<OriginView>) -> Seq<char>
    decreases nodes, nodes.len(),
{
    if nodes.len() == 0 {
        Seq::empty()
    } else {
        rendered_all(nodes.drop_last()) + rendered(nodes.last())
    }
}

/// The visible text of a node.
pub open spec fn rendered(node: OriginView) -> Seq<char>
    decreases node, 0nat,
{
    match node.shape {
        ShapeView::Text(text) | ShapeView::RCode(text) | ShapeView::Verb(text) => text,
        ShapeView::Group(children) => rendered_all(children),
        ShapeView::Tagged { children, .. } => rendered_all(children),
        ShapeView::Comment(_) | ShapeView::Raw { .. } => Seq::empty(),
    }
}

fn rendered_text(nodes: &Vec<NodeWithOrigin>) -> (r: String)
    ensures
        r@ == rendered_all(origin_views(*nodes)),
    decreases *nodes, nodes@.len() + 1,
{
    let ghost shown = origin_views(*nodes);
    let mut out: String = String::new();
    let mut i: usize = 0;
    proof {
        assert(out@ =~= rendered_all(shown.take(0)));
    }
    while i < nodes.len()
        invariant
            i <= nodes@.len(),
            shown == origin_views(*nodes),
            out@ == rendered_all(shown.take(i as int)),
        decreases nodes@.len() - i,
    {
        out.push_str(&rendered_node(&nodes[i]));
        proof {
            origin_views_index(*nodes);
            let prefix = shown.take(i + 1);
            assert(prefix.drop_last() =~= shown.take(i as int));
            assert(prefix.last() == nodes@[i as int]@);
        }
        i = i + 1;
    }
    proof {
        origin_views_index(*nodes);
        assert(shown.take(shown.len() as int) =~= shown);
    }
    out
}

fn rendered_node(node: &NodeWithOrigin) -> (r: String)
    ensures
        r@ == rendered(node@),
    decreases *node, 0int,
{
    match &node.shape {
        Shape::Text(text) => text.clone(),
        Shape::RCode(text) => text.clone(),
        Shape::Verb(text) => text.clone(),
        Shape::Group(children) => rendered_text(children),
        Shape::Tagged { tag: _, option: _, children } => rendered_text(children),
        Shape::Comment(_) => String::new(),
        Shape::Raw { .. } => String::new(),
    }
}

/// Whether a node is inline code.
pub open spec fn is_code(node: OriginView) -> bool {
    node.shape matches ShapeView::Tagged { tag, .. } && (tag == TagView::Named(RdMacro::Code) || tag
        == TagView::Named(RdMacro::Verb))
}

fn is_code_span(node: &NodeWithOrigin) -> (r: bool)
    ensures
        r == is_code(node@),
{
    match &node.shape {
        Shape::Tagged { tag: RdTag::Named(name), .. } => *name == RdMacro::Code || *name
            == RdMacro::Verb,
        _ => false,
    }
}

/// Whether all nodes are text.
pub open spec fn all_text(nodes: Seq<OriginView>) -> bool {
    forall|i: int| 0 <= i < nodes.len() ==> (#[trigger] nodes[i]).shape is Text
}

fn children_are_text(nodes: &Vec<NodeWithOrigin>) -> (r: bool)
    ensures
        r == all_text(origin_views(*nodes)),
{
    proof {
        origin_views_index(*nodes);
    }
    let mut i: usize = 0;
    while i < nodes.len()
        invariant
            i <= nodes@.len(),
            origin_views(*nodes).len() == nodes@.len(),
            forall|k: int|
                0 <= k < nodes@.len() ==> #[trigger] origin_views(*nodes)[k] == origin_view(
                    nodes@[k],
                ),
            forall|k: int| 0 <= k < i ==> (#[trigger] origin_views(*nodes)[k]).shape is Text,
        decreases nodes@.len() - i,
    {
        match &nodes[i].shape {
            Shape::Text(_) => {},
            _ => {
                assert(origin_views(*nodes)[i as int].shape !is Text);
                return false;
            },
        }
        i = i + 1;
    }
    true
}

/// A text without a backtick on either end, where it has both.
pub open spec fn without_backticks(text: Seq<char>) -> Seq<char> {
    if text.len() >= 2 && text[0] == '`' && text.last() == '`' {
        text.subrange(1, text.len() - 1)
    } else {
        text
    }
}

fn strip_code_delimiters(text: &str) -> (r: String)
    ensures
        r@ == without_backticks(text@),
{
    let chars = char_vec(text);
    if chars.len() >= 2 && chars[0] == '`' && chars[chars.len() - 1] == '`' {
        text_of(&chars, 1, chars.len() - 1)
    } else {
        text.to_owned()
    }
}

/// Where the first `::` at or behind a position begins.
pub open spec fn first_double_colon(text: Seq<char>, from: int) -> Option<int>
    decreases text.len() - from,
{
    if from < 0 || from + 1 >= text.len() {
        None
    } else if text[from] == ':' && text[from + 1] == ':' {
        Some(from)
    } else {
        first_double_colon(text, from + 1)
    }
}

/// A help topic, as a link names it.
#[derive(Debug, Clone, PartialEq, Eq)]
pub struct ParsedTopic {
    pub package: Option<String>,
    pub function: String,
    pub topic: String,
    pub s4_class: bool,
}

/// The model of [`ParsedTopic`].
pub struct ParsedTopicView {
    pub package: Option<Seq<char>>,
    pub function: Seq<char>,
    pub topic: Seq<char>,
    pub s4_class: bool,
}

impl View for ParsedTopic {
    type V = ParsedTopicView;

    open spec fn view(&self) -> ParsedTopicView {
        ParsedTopicView {
            package: opt_text(self.package),
            function: self.function@,
            topic: self.topic@,
            s4_class: self.s4_class,
        }
    }
}

/// A text without a suffix, where it has it.
pub open spec fn without_suffix(text: Seq<char>, suffix: Seq<char>) -> Seq<char> {
    match before_suffix(text, suffix) {
        Some(front) => front,
        None => text,
    }
}

fn trim_suffix(text: &str, suffix: &str) -> (r: String)
    ensures
        r@ == without_suffix(text@, suffix@),
{
    match strip_suffix(text, suffix) {
        Some(front) => front,
        None => text.to_owned(),
    }
}

/// The topic of a function name.
pub open spec fn topic_of(package: Option<Seq<char>>, function: Seq<char>) -> ParsedTopicView {
    ParsedTopicView {
        package,
        function,
        topic: without_suffix(function, "()"@),
        s4_class: has_suffix(function, "-class"@),
    }
}

/// The parts of a link target: a package before the first `::`, if there is
/// one, and a function, whose topic is its name without parentheses.
pub open spec fn parsed_topic(target: Seq<char>) -> ParsedTopicView {
    match first_double_colon(target, 0) {
        Some(at) => topic_of(Some(target.take(at)), target.skip(at + 2)),
        None => topic_of(None, target),
    }
}

/// Takes a link target apart.
pub fn parse_topic(target: &str) -> (r: ParsedTopic)
    ensures
        r@ == parsed_topic(target@),
{
    let chars = char_vec(target);
    let mut at: usize = 0;
    let mut package: Option<String> = None;
    let mut function: String = target.to_owned();
    while chars.len() - at > 1
        invariant_except_break
            at <= chars@.len(),
            chars@ == target@,
            package is None,
            function@ == target@,
            first_double_colon(target@, 0) == first_double_colon(target@, at as int),
        ensures
            match first_double_colon(target@, 0) {
                Some(at) => opt_text(package) == Some(target@.take(at)) && function@ == target@.skip(
                    at + 2,
                ),
                None => package is None && function@ == target@,
            },
        decreases chars@.len() - at,
    {
        if chars[at] == ':' && chars[at + 1] == ':' {
            package = Some(text_of(&chars, 0, at));
            function = text_of(&chars, at + 2, chars.len());
            proof {
                assert(target@.subrange(0, at as int) =~= target@.take(at as int));
                assert(target@.subrange(at + 2, target@.len() as int) =~= target@.skip(at + 2));
            }
            break ;
        }
        at = at + 1;
    }
    let topic = trim_suffix(&function, "()");
    let s4_class = ends_with(&function, "-class");
    ParsedTopic { package, function, topic, s4_class }
}

/// The spans of the first node, or others where there is none.
pub open spec fn first_spans(nodes: Seq<OriginView>, other: Seq<Span>) -> Seq<Span> {
    if nodes.len() > 0 {
        nodes[0].spans
    } else {
        other
    }
}

fn spans_of_first(nodes: &Vec<NodeWithOrigin>, other: &Vec<Span>) -> (r: Vec<Span>)
    ensures
        r@ == first_spans(origin_views(*nodes), other@),
{
    proof {
        origin_views_index(*nodes);
    }
    if nodes.len() > 0 {
        copy_spans(&nodes[0].spans)
    } else {
        copy_spans(other)
    }
}

/// The Rd form of an ordinary link: `\\url` where the destination is empty or
/// what is shown, else `\\href`.
pub open spec fn lowered_url(
    destination: Seq<char>,
    display_text: Seq<char>,
    children: Seq<OriginView>,
    spans: Seq<Span>,
) -> OriginView {
    if destination.len() == 0 || destination == display_text {
        tagged(RdMacro::Url, verb_leaves(display_text, first_spans(children, spans)), spans)
    } else {
        tagged(
            RdMacro::Href,
            seq![group(verb_leaves(destination, spans), spans), group(children, spans)],
            spans,
        )
    }
}

/// Lowers an ordinary link.
pub fn lower_url(
    destination: &str,
    display_text: String,
    children: Vec<NodeWithOrigin>,
    spans: Vec<Span>,
) -> (r: NodeWithOrigin)
    ensures
        r@ == lowered_url(destination@, display_text@, origin_views(children), spans@),
{
    if is_blank(destination) || same_text(destination, &display_text) {
        let display_spans = spans_of_first(&children, &spans);
        make_tagged(RdMacro::Url, make_verb_leaves(&display_text, &display_spans), spans)
    } else {
        let url = make_group(make_verb_leaves(destination, &spans), copy_spans(&spans));
        let display = make_group(children, copy_spans(&spans));
        make_tagged(RdMacro::Href, two_nodes(url, display), spans)
    }
}

/// How a link to a help topic was read.
pub struct LinkReading {
    /// Whether what is shown is a single piece of inline code.
    pub code_span: bool,
    /// Whether what is shown is the target itself.
    pub generated: bool,
    /// The parts of the target.
    pub parsed: ParsedTopicView,
}

/// Reads the target and the children of a help link.
pub open spec fn link_reading(target: Seq<char>, children: Seq<OriginView>) -> LinkReading {
    let code_span = children.len() == 1 && is_code(children[0]);
    let topic = if code_span {
        without_backticks(target)
    } else {
        target
    };
    LinkReading {
        code_span,
        generated: all_text(children) && rendered_all(children) == topic,
        parsed: parsed_topic(topic),
    }
}

/// Whether a link names the package that it stands in.
pub open spec fn names_own_package(parsed: ParsedTopicView, current: Option<Seq<char>>) -> bool {
    parsed.package is Some && current == parsed.package
}

/// The package that a link goes to: the one that it names, unless it is the
/// current one, or the one that an unqualified topic resolves to.
pub open spec fn link_package(parsed: ParsedTopicView, context: ContextView) -> Option<Seq<char>> {
    match parsed.package {
        Some(package) => if names_own_package(parsed, context.current_package) {
            None
        } else {
            Some(package)
        },
        None => match (context.links)(parsed.topic) {
            ResolutionView::External(package) => Some(package),
            _ => None,
        },
    }
}

/// What is reported of the resolution of an unqualified topic.
pub open spec fn link_warning(parsed: ParsedTopicView, context: ContextView) -> Option<Seq<char>> {
    match parsed.package {
        Some(_) => None,
        None => match (context.links)(parsed.topic) {
            ResolutionView::Unresolved => Some(
                "could not resolve Markdown help topic "@ + written_debug(parsed.topic),
            ),
            ResolutionView::Ambiguous(packages) => Some(
                "Markdown help topic "@ + written_debug(parsed.topic)
                    + " has ambiguous packages: "@ + crate::usage::comma_joined(packages),
            ),
            _ => None,
        },
    }
}

/// What a help link shows.
pub open spec fn link_label(
    reading: LinkReading,
    context: ContextView,
    display_text: Seq<char>,
) -> Seq<char> {
    if reading.generated {
        let base = if reading.parsed.s4_class {
            without_suffix(reading.parsed.function, "-class"@)
        } else {
            reading.parsed.function
        };
        match reading.parsed.package {
            Some(package) => if names_own_package(reading.parsed, context.current_package) {
                base
            } else {
                package + "::"@ + base
            },
            None => base,
        }
    } else {
        display_text
    }
}

/// The option of a help link: the package and the topic, or the topic alone
/// where it is not what is shown.
pub open spec fn link_option(
    package: Option<Seq<char>>,
    topic: Seq<char>,
    label: Seq<char>,
) -> Option<Seq<char>> {
    match package {
        Some(package) => Some(package + ":"@ + topic),
        None => if label == topic {
            None
        } else {
            Some("="@ + topic)
        },
    }
}

/// Whether a text cannot stand in the option of a link: the option ends at the
/// first closing bracket, and no leaf holds a control character.
pub open spec fn unwritable_option(text: Seq<char>) -> bool {
    exists|i: int|
        0 <= i < text.len() && (#[trigger] text[i] == ']' || (crate::text::is_control(text[i])
            && text[i] != '\n'))
}

fn is_unwritable_option(text: &str) -> (r: bool)
    ensures
        r == unwritable_option(text@),
{
    let chars = char_vec(text);
    let mut i: usize = 0;
    while i < chars.len()
        invariant
            i <= chars@.len(),
            chars@ == text@,
            forall|k: int|
                0 <= k < i ==> !(#[trigger] chars@[k] == ']' || (crate::text::is_control(chars@[k])
                    && chars@[k] != '\n')),
        decreases chars@.len() - i,
    {
        if chars[i] == ']' || (crate::text::control(chars[i]) && chars[i] != '\n') {
            assert(text@[i as int] == chars@[i as int]);
            return true;
        }
        i = i + 1;
    }
    false
}

/// Text nodes, one for each physical line.
pub open spec fn text_nodes(text: Seq<char>) -> Seq<NodeView> {
    line_chunks(text).map_values(|line: Seq<char>| NodeView::Text(line))
}

fn make_text_nodes(text: &str) -> (r: Vec<RdNode>)
    ensures
        node_views(r) == text_nodes(text@),
{
    let chunks = physical_line_chunks(text);
    let ghost all = chunks@;
    let mut out: Vec<RdNode> = Vec::new();
    for chunk in it: chunks
        invariant
            it.seq() == all,
            texts(all) == line_chunks(text@),
            out@.len() == it.index(),
            forall|k: int|
                0 <= k < it.index() ==> (#[trigger] out@[k])@ == NodeView::Text(
                    line_chunks(text@)[k],
                ),
    {
        proof {
            assert(texts(all)[it.index() as int] == chunk@);
        }
        out.push(RdNode::Text(chunk));
    }
    proof {
        crate::rd::node_views_index(out);
        assert forall|k: int| 0 <= k < out@.len() implies node_views(out)[k] == text_nodes(
            text@,
        )[k] by {
            assert(out@[k]@ == NodeView::Text(line_chunks(text@)[k]));
        }
        assert(node_views(out) =~= text_nodes(text@));
    }
    out
}

/// What a warning about a link is reported as.
pub open spec fn link_warnings(
    source: SourcedText,
    start: usize,
    end: usize,
    message: Option<Seq<char>>,
) -> Seq<DiagnosticView> {
    let spans = spans_of(source, start, end);
    match message {
        Some(message) if spans.len() > 0 => seq![
            plain_diagnostic(
                Severity::Warning,
                DiagnosticCode::AmbiguousExternalAlias,
                message,
                LabelView { span: spans[0], message: "Markdown help link"@ },
            ),
        ],
        _ => Seq::empty(),
    }
}

/// What a link that cannot be written is reported as. It is reported where the
/// link starts.
pub open spec fn refused_link(source: SourcedText, start: usize, end: usize, topic: Seq<char>) -> Seq<
    DiagnosticView,
> {
    let spans = spans_of(source, start, end);
    let first = if spans.len() > 0 {
        Some(spans[0])
    } else {
        None
    };
    match first_of(anchor_of(source, start), first) {
        Some(span) => seq![
            plain_diagnostic(
                Severity::Error,
                DiagnosticCode::UnsupportedMarkdownConstruct,
                "Markdown help topic "@ + written_debug(topic)
                    + " cannot be written as an Rd link target"@,
                LabelView {
                    span,
                    message: "an Rd link target cannot contain `]` or a control character"@,
                },
            ),
        ],
        None => Seq::empty(),
    }
}

/// The Rd nodes of a link and what is reported of it.
pub struct LoweredLink {
    pub nodes: Seq<OriginView>,
    pub diagnostics: Seq<DiagnosticView>,
}

/// The Rd form of a help link.
#[verifier::opaque]
pub open spec fn lowered_topic(
    source: SourcedText,
    context: ContextView,
    target: Seq<char>,
    start: usize,
    end: usize,
    children: Seq<OriginView>,
) -> LoweredLink {
    let spans = spans_of(source, start, end);
    let reading = link_reading(target, children);
    let parsed = reading.parsed;
    let warnings = link_warnings(source, start, end, link_warning(parsed, context));
    let label = link_label(reading, context, rendered_all(children));
    let display = if reading.generated || reading.code_span {
        text_leaves(label, first_spans(children, spans))
    } else {
        children
    };
    let option = link_option(link_package(parsed, context), parsed.topic, label);
    if option is Some && unwritable_option(option->0) {
        LoweredLink {
            nodes: if reading.code_span {
                children
            } else {
                display
            },
            diagnostics: warnings + refused_link(source, start, end, parsed.topic),
        }
    } else {
        let link = OriginView {
            shape: ShapeView::Tagged {
                tag: TagView::Named(RdMacro::Link),
                option: match option {
                    Some(option) => Some(text_nodes(option)),
                    None => None,
                },
                children: display,
            },
            spans,
        };
        let code = reading.code_span || (reading.generated && has_suffix(parsed.function, "()"@));
        LoweredLink {
            nodes: seq![
                if code {
                    tagged(RdMacro::Code, seq![link], spans)
                } else {
                    link
                },
            ],
            diagnostics: warnings,
        }
    }
}

/// The Rd form of a link.
#[verifier::opaque]
pub open spec fn lowered_link(
    source: SourcedText,
    context: ContextView,
    destination: Seq<char>,
    start: usize,
    end: usize,
    children: Seq<OriginView>,
) -> LoweredLink {
    match after_prefix(destination, link_marker()) {
        Some(encoded) => lowered_topic(
            source,
            context,
            percent_decoded(encoded),
            start,
            end,
            children,
        ),
        None => LoweredLink {
            nodes: seq![
                lowered_url(
                    destination,
                    rendered_all(children),
                    children,
                    spans_of(source, start, end),
                ),
            ],
            diagnostics: Seq::empty(),
        },
    }
}

fn warn_link(
    source: &SourcedText,
    start: usize,
    end: usize,
    message: String,
    diagnostics: &mut Diagnostics,
)
    ensures
        final(diagnostics)@ == old(diagnostics)@ + link_warnings(
            *source,
            start,
            end,
            Some(message@),
        ),
{
    let spans = range_spans(source, start, end);
    if spans.len() > 0 {
        diagnostics.push(
            Diagnostic::new(
                Severity::Warning,
                DiagnosticCode::AmbiguousExternalAlias,
                message,
                Label::at(spans[0], "Markdown help link"),
            ),
        );
    }
    proof {
        assert(diagnostics@ =~= old(diagnostics)@ + link_warnings(
            *source,
            start,
            end,
            Some(message@),
        ));
    }
}

fn refuse_link(
    source: &SourcedText,
    start: usize,
    end: usize,
    topic: &str,
    diagnostics: &mut Diagnostics,
)
    ensures
        final(diagnostics)@ == old(diagnostics)@ + refused_link(*source, start, end, topic@),
{
    let spans = range_spans(source, start, end);
    let mut at: Option<Span> = range_anchor(source, start);
    if at.is_none() && spans.len() > 0 {
        at = Some(spans[0]);
    }
    if let Some(span) = at {
        let written = debug_text(topic);
        diagnostics.push(
            Diagnostic::new(
                Severity::Error,
                DiagnosticCode::UnsupportedMarkdownConstruct,
                text3(
                    "Markdown help topic ",
                    &written,
                    " cannot be written as an Rd link target",
                ),
                Label::at(span, "an Rd link target cannot contain `]` or a control character"),
            ),
        );
    }
    proof {
        assert(diagnostics@ =~= old(diagnostics)@ + refused_link(*source, start, end, topic@));
    }
}

/// Resolves an unqualified topic: the package it belongs to, and what is
/// reported of it.
fn resolve_topic<L: HelpLinkResolver>(
    source: &SourcedText,
    context: &MarkdownContext<'_, L>,
    topic: &str,
    start: usize,
    end: usize,
    diagnostics: &mut Diagnostics,
) -> (r: Option<String>)
    ensures
        opt_text(r) == (match (context@.links)(topic@) {
            ResolutionView::External(package) => Some(package),
            _ => None,
        }),
        final(diagnostics)@ == old(diagnostics)@ + link_warnings(
            *source,
            start,
            end,
            (match (context@.links)(topic@) {
                ResolutionView::Unresolved => Some(
                    "could not resolve Markdown help topic "@ + written_debug(topic@),
                ),
                ResolutionView::Ambiguous(packages) => Some(
                    "Markdown help topic "@ + written_debug(topic@)
                        + " has ambiguous packages: "@ + crate::usage::comma_joined(packages),
                ),
                _ => None,
            }),
        ),
{
    let ghost before = diagnostics@;
    let resolution = context.links.resolve_unqualified(topic);
    proof {
        assert((context@.links)(topic@) == resolution@);
    }
    match resolution {
        LinkResolution::External { package } => {
            proof {
                assert(before + Seq::<DiagnosticView>::empty() =~= before);
            }
            Some(package)
        },
        LinkResolution::Unresolved => {
            let written = debug_text(topic);
            warn_link(
                source,
                start,
                end,
                text2("could not resolve Markdown help topic ", &written),
                diagnostics,
            );
            None
        },
        LinkResolution::Ambiguous { packages } => {
            let written = debug_text(topic);
            let names = crate::usage::join_with_commas(&packages, packages.len());
            let head = text3("Markdown help topic ", &written, " has ambiguous packages: ");
            proof {
                assert(texts(packages@).take(packages@.len() as int) =~= texts(packages@));
            }
            warn_link(source, start, end, text2(&head, &names), diagnostics);
            None
        },
        LinkResolution::Local => {
            proof {
                assert(before + Seq::<DiagnosticView>::empty() =~= before);
            }
            None
        },
        LinkResolution::Unchecked => {
            proof {
                assert(before + Seq::<DiagnosticView>::empty() =~= before);
            }
            None
        },
    }
}

fn make_link(display: Vec<NodeWithOrigin>, option: Option<String>, spans: Vec<Span>) -> (r:
    NodeWithOrigin)
    ensures
        r@ == (OriginView {
            shape: ShapeView::Tagged {
                tag: TagView::Named(RdMacro::Link),
                option: match opt_text(option) {
                    Some(option) => Some(text_nodes(option)),
                    None => None,
                },
                children: origin_views(display),
            },
            spans: spans@,
        }),
{
    let option = match option {
        Some(option) => Some(make_text_nodes(&option)),
        None => None,
    };
    NodeWithOrigin {
        shape: Shape::Tagged { tag: RdTag::Named(RdMacro::Link), option, children: display },
        spans,
    }
}

fn make_label(
    generated: bool,
    function: &str,
    s4_class: bool,
    package: Option<&str>,
    display_text: String,
) -> (r: String)
    ensures
        r@ == (if generated {
            let base = if s4_class {
                without_suffix(function@, "-class"@)
            } else {
                function@
            };
            match crate::source::opt_str(package) {
                Some(package) => package + "::"@ + base,
                None => base,
            }
        } else {
            display_text@
        }),
{
    if !generated {
        return display_text;
    }
    let base = if s4_class {
        trim_suffix(function, "-class")
    } else {
        function.to_owned()
    };
    match package {
        Some(package) => text3(package, "::", &base),
        None => base,
    }
}

fn make_option(package: Option<String>, topic: &str, label: &str) -> (r: Option<String>)
    ensures
        opt_text(r) == link_option(opt_text(package), topic@, label@),
{
    match package {
        Some(package) => Some(text3(&package, ":", topic)),
        None => if same_text(label, topic) {
            None
        } else {
            Some(text2("=", topic))
        },
    }
}

/// Lowers a link to a help topic.
fn lower_topic<L: HelpLinkResolver>(
    source: &SourcedText,
    context: &MarkdownContext<'_, L>,
    target: String,
    start: usize,
    end: usize,
    children: Vec<NodeWithOrigin>,
    diagnostics: &mut Diagnostics,
) -> (r: Vec<NodeWithOrigin>)
    ensures
        origin_views(r) == lowered_topic(
            *source,
            context@,
            target@,
            start,
            end,
            origin_views(children),
        ).nodes,
        final(diagnostics)@ == old(diagnostics)@ + lowered_topic(
            *source,
            context@,
            target@,
            start,
            end,
            origin_views(children),
        ).diagnostics,
{
    proof {
        reveal(lowered_topic);
    }
    proof {
        origin_views_index(children);
    }
    let ghost before = diagnostics@;
    let ghost shown = origin_views(children);
    let ghost reading = link_reading(target@, shown);
    let spans = range_spans(source, start, end);
    let display_text = rendered_text(&children);
    let code_span = children.len() == 1 && is_code_span(&children[0]);
    let topic_input = if code_span {
        strip_code_delimiters(&target)
    } else {
        target
    };
    let generated = children_are_text(&children) && same_text(&display_text, &topic_input);
    let parsed = parse_topic(&topic_input);
    proof {
        assert(reading.code_span == code_span);
        assert(reading.generated == generated);
        assert(reading.parsed == parsed@);
    }
    let mut named: Option<&str> = None;
    let mut package: Option<String> = None;
    match &parsed.package {
        Some(explicit) => {
            let own = match context.current_package {
                Some(current) => same_text(current, explicit),
                None => false,
            };
            if !own {
                named = Some(explicit.as_str());
                package = Some(explicit.clone());
            }
            proof {
                assert(before + Seq::<DiagnosticView>::empty() =~= before);
            }
        },
        None => {
            package = resolve_topic(source, context, &parsed.topic, start, end, diagnostics);
        },
    }
    let ghost warned = diagnostics@;
    proof {
        assert(opt_text(package) == link_package(reading.parsed, context@));
        assert(warned == before + link_warnings(
            *source,
            start,
            end,
            link_warning(reading.parsed, context@),
        ));
    }
    let label = make_label(generated, &parsed.function, parsed.s4_class, named, display_text);
    proof {
        assert(label@ == link_label(reading, context@, rendered_all(shown)));
    }
    let option = make_option(package, &parsed.topic, &label);
    let refused = match &option {
        Some(option) => is_unwritable_option(option),
        None => false,
    };
    if refused {
        refuse_link(source, start, end, &parsed.topic, diagnostics);
        proof {
            assert(diagnostics@ =~= before + (link_warnings(
                *source,
                start,
                end,
                link_warning(reading.parsed, context@),
            ) + refused_link(*source, start, end, reading.parsed.topic)));
        }
        if code_span || !generated {
            return children;
        }
        let leaf_spans = spans_of_first(&children, &spans);
        return make_text_leaves(&label, &leaf_spans);
    }
    let display = if generated || code_span {
        let leaf_spans = spans_of_first(&children, &spans);
        make_text_leaves(&label, &leaf_spans)
    } else {
        children
    };
    let code = code_span || (generated && ends_with(&parsed.function, "()"));
    let link = make_link(display, option, copy_spans(&spans));
    if code {
        one_node(make_tagged(RdMacro::Code, one_node(link), spans))
    } else {
        one_node(link)
    }
}

/// Lowers a link: one whose destination has the link marker is a link to a help
/// topic, any other is a link to a URL.
pub fn lower_link<L: HelpLinkResolver>(
    source: &SourcedText,
    context: &MarkdownContext<'_, L>,
    destination: &str,
    start: usize,
    end: usize,
    children: Vec<NodeWithOrigin>,
    diagnostics: &mut Diagnostics,
) -> (r: Vec<NodeWithOrigin>)
    ensures
        origin_views(r) == lowered_link(
            *source,
            context@,
            destination@,
            start,
            end,
            origin_views(children),
        ).nodes,
        final(diagnostics)@ == old(diagnostics)@ + lowered_link(
            *source,
            context@,
            destination@,
            start,
            end,
            origin_views(children),
        ).diagnostics,
{
    proof {
        reveal(lowered_link);
    }
    match strip_prefix(destination, "R:") {
        Some(encoded) => {
            let target = percent_decode(&encoded);
            lower_topic(source, context, target, start, end, children, diagnostics)
        },
        None => {
            proof {
                assert(diagnostics@ + Seq::<DiagnosticView>::empty() =~= diagnostics@);
            }
            let spans = range_spans(source, start, end);
            let display_text = rendered_text(&children);
            one_node(lower_url(destination, display_text, children, spans))
        },
    }
}

} // verus!
