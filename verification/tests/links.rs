//! Help links and URLs.
use mini_roxygen_core::diagnostic::{Diagnostic, Severity};
use mini_roxygen_core::markdown_conversion::context::{
    HelpLinkResolver, LinkResolution, MarkdownContext,
};
use mini_roxygen_core::markdown_conversion::fragment::FragmentOrigin;
use mini_roxygen_core::markdown_conversion::convert_markdown as convert_text;
use mini_roxygen_core::markdown_conversion::link::{link_destination, lower_url};
use mini_roxygen_core::markdown_conversion::origin::{bare_node, NodeWithOrigin, Shape};
use mini_roxygen_core::rd::{RdNode as Node, RdTag as Tag};
use mini_roxygen_core::source::{FileId, Span, TextRange};
use mini_roxygen_core::tags::{MarkdownText, SourceSegment, SourcedText};
use rd_ast::{RdDocument, RdNode, RdTag};

struct Fragment {
    nodes: Vec<RdNode>,
    origins: Vec<FragmentOrigin>,
}

#[derive(Debug)]
struct Reports(Vec<Diagnostic>);

impl Reports {
    fn iter(&self) -> std::slice::Iter<'_, Diagnostic> {
        self.0.iter()
    }

    fn len(&self) -> usize {
        self.0.len()
    }

    fn is_empty(&self) -> bool {
        self.0.is_empty()
    }

    fn has_errors(&self) -> bool {
        self.0.iter().any(|diagnostic| diagnostic.severity == Severity::Error)
    }
}

struct MarkdownConversion {
    fragment: Fragment,
    diagnostics: Reports,
}

fn tag(tag: &Tag) -> RdTag {
    match tag {
        Tag::Named(name) => RdTag::from_rd_tag(name.spelling()),
        Tag::Known(name) => RdTag::from_rd_tag(name),
        Tag::Unknown(name) => RdTag::Unknown(name.clone()),
    }
}

fn rd_nodes(nodes: &[Node]) -> Vec<RdNode> {
    nodes.iter().map(rd_node).collect()
}

fn rd_node(node: &Node) -> RdNode {
    match node {
        Node::Text(text) => RdNode::Text(text.clone()),
        Node::RCode(text) => RdNode::RCode(text.clone()),
        Node::Verb(text) => RdNode::Verb(text.clone()),
        Node::Comment(text) => RdNode::Comment(text.clone()),
        Node::Group(children) => RdNode::group(rd_nodes(children)),
        Node::Tagged { tag: name, option, children } => RdNode::tagged(
            tag(name),
            option.as_ref().map(|option| rd_nodes(option)),
            rd_nodes(children),
        ),
        Node::Raw { .. } => panic!("no conversion makes a raw node"),
    }
}

fn shown(
    conversion: mini_roxygen_core::markdown_conversion::MarkdownConversion,
) -> MarkdownConversion {
    MarkdownConversion {
        fragment: Fragment {
            nodes: rd_nodes(&conversion.fragment.nodes),
            origins: conversion.fragment.origins,
        },
        diagnostics: Reports(conversion.diagnostics.items),
    }
}

fn sourced(text: &str, lines: &[(u32, u32, u32)]) -> MarkdownText {
    let segments = lines
        .iter()
        .map(|(offset, start, end)| SourceSegment {
            offset: *offset,
            span: Span::new(FileId::new(0), TextRange::new(*start, *end)),
        })
        .collect();
    MarkdownText::new(SourcedText::from_segments(text.to_owned(), segments))
}

fn value(text: &str) -> MarkdownText {
    sourced(text, &[(0, 0, text.len() as u32)])
}


fn serialize(nodes: Vec<RdNode>) -> String {
    rd_writer::Writer::new(rd_writer::WriterOptions::default())
        .write_document(&RdDocument::from(nodes))
        .expect("writer accepts the converted fragment")
}

fn assert_serialized_body(nodes: Vec<RdNode>, expected: &str) {
    assert_eq!(serialize(nodes), expected);
}

#[derive(Clone)]
enum Resolution {
    Local,
    Unchecked,
    External(&'static str),
    Unresolved,
    Ambiguous,
}

struct FakeResolver {
    resolution: Resolution,
}

impl HelpLinkResolver for FakeResolver {
    fn resolve_unqualified(&self, _topic: &str) -> LinkResolution {
        match &self.resolution {
            Resolution::Local => LinkResolution::Local,
            Resolution::Unchecked => LinkResolution::Unchecked,
            Resolution::External(package) => LinkResolution::External {
                package: (*package).to_owned(),
            },
            Resolution::Unresolved => LinkResolution::Unresolved,
            Resolution::Ambiguous => LinkResolution::Ambiguous {
                packages: vec!["first".to_owned(), "second".to_owned()],
            },
        }
    }
}

fn convert(
    markdown: &str,
    resolver: &FakeResolver,
    current_package: Option<&str>,
) -> MarkdownConversion {
    let context = MarkdownContext {
        current_package,
        links: resolver,
        inline_r_session: None,
    };
    shown(convert_text(&value(markdown), &context))
}

fn local() -> FakeResolver {
    FakeResolver {
        resolution: Resolution::Local,
    }
}

fn link(option: Option<&str>, display: &str) -> RdNode {
    RdNode::tagged(
        RdTag::Link,
        option.map(|value| vec![RdNode::Text(value.to_owned())]),
        vec![RdNode::Text(display.to_owned())],
    )
}

fn code_link(option: Option<&str>, display: &str) -> RdNode {
    RdNode::tagged(RdTag::Code, None, vec![link(option, display)])
}

#[test]
fn local_reference_forms_match_roxygen_lowering() {
    let resolver = local();
    for (markdown, expected) in [
        ("[obj]", link(None, "obj")),
        ("[`obj`]", code_link(None, "obj")),
        ("[fun()]", code_link(Some("=fun"), "fun()")),
        ("[text][obj]", link(Some("=obj"), "text")),
        ("[text][fun()]", link(Some("=fun"), "text")),
        ("[`text`][obj]", code_link(Some("=obj"), "text")),
        ("[s4-class]", link(Some("=s4-class"), "s4")),
    ] {
        let conversion = convert(markdown, &resolver, None);
        assert_eq!(
            conversion.fragment.nodes,
            vec![expected],
            "lowering {markdown}"
        );
        assert!(conversion.diagnostics.is_empty(), "diagnosing {markdown}");
    }
}

#[test]
fn roxygen_quirks_are_replicated_on_purpose() {
    let resolver = local();
    for (markdown, expected) in [
        ("[fun()][fun()]", code_link(Some("=fun"), "fun()")),
        ("[s4-class][s4-class]", link(Some("=s4-class"), "s4")),
        ("[obj][obj]", link(None, "obj")),
        ("[``foo``]", code_link(Some("=`foo`"), "foo")),
    ] {
        let conversion = convert(markdown, &resolver, None);
        assert_eq!(
            conversion.fragment.nodes,
            vec![expected],
            "lowering {markdown}"
        );
    }
}

#[test]
fn link_labels_match_roxygen_on_partial_code_and_markup() {
    let resolver = local();
    for (markdown, expected) in [
        ("[`foo` bar][x]", r"\link[=x]{\code{foo} bar}"),
        ("[__baz__][x]", r"\link[=x]{\strong{baz}}"),
        ("[x][%%]", r"\link[=\%\%]{x}"),
        ("[foo({ bar })][x]", r"\link[=x]{foo(\{ bar \})}"),
    ] {
        let conversion = convert(markdown, &resolver, None);
        assert_serialized_body(conversion.fragment.nodes, expected);
    }
}

#[test]
fn external_reference_forms_keep_package_qualified_generated_labels() {
    let resolver = local();
    for (markdown, expected) in [
        ("[pkg::obj]", link(Some("pkg:obj"), "pkg::obj")),
        ("[pkg::fun()]", code_link(Some("pkg:fun"), "pkg::fun()")),
        ("[text][pkg::obj]", link(Some("pkg:obj"), "text")),
        ("[text][pkg::fun()]", link(Some("pkg:fun"), "text")),
        ("[pkg::s4-class]", link(Some("pkg:s4-class"), "pkg::s4")),
    ] {
        let conversion = convert(markdown, &resolver, None);
        assert_eq!(
            conversion.fragment.nodes,
            vec![expected],
            "lowering {markdown}"
        );
        assert!(conversion.diagnostics.is_empty(), "diagnosing {markdown}");
    }
}

#[test]
fn current_package_and_unqualified_external_resolution_are_normalized() {
    let resolver = FakeResolver {
        resolution: Resolution::External("otherpkg"),
    };
    assert_eq!(
        convert("[mypkg::fun()]", &resolver, Some("mypkg"))
            .fragment
            .nodes,
        vec![code_link(Some("=fun"), "fun()")]
    );
    assert_eq!(
        convert("[text][mypkg::obj]", &resolver, Some("mypkg"))
            .fragment
            .nodes,
        vec![link(Some("=obj"), "text")]
    );

    assert_eq!(
        convert("[obj]", &resolver, None).fragment.nodes,
        vec![link(Some("otherpkg:obj"), "obj")]
    );
}

#[test]
fn unresolved_and_ambiguous_topics_remain_help_links_and_warn() {
    for resolution in [Resolution::Unresolved, Resolution::Ambiguous] {
        let resolver = FakeResolver { resolution };
        let conversion = convert("[obj]", &resolver, None);
        assert_eq!(conversion.fragment.nodes, vec![link(None, "obj")]);
        assert_eq!(conversion.diagnostics.len(), 1);
        assert_eq!(
            conversion
                .diagnostics
                .iter()
                .next()
                .expect("link warning")
                .severity,
            Severity::Warning
        );
    }
}

#[test]
fn unchecked_topics_keep_help_links_without_warning() {
    let conversion = convert(
        "[obj]",
        &FakeResolver {
            resolution: Resolution::Unchecked,
        },
        None,
    );
    assert_eq!(conversion.fragment.nodes, vec![link(None, "obj")]);
    assert!(conversion.diagnostics.is_empty());
}

#[test]
fn ordinary_urls_use_url_or_two_group_href_shapes() {
    let resolver = local();
    let href = convert("[text](https://example.test)", &resolver, None);
    assert_eq!(
        href.fragment.nodes,
        vec![RdNode::tagged(
            RdTag::Href,
            None,
            vec![
                RdNode::group(vec![RdNode::Verb("https://example.test".into())]),
                RdNode::group(vec![RdNode::Text("text".into())]),
            ],
        )]
    );
    let angle = convert("<https://example.test>", &resolver, None);
    assert_eq!(
        angle.fragment.nodes,
        vec![RdNode::tagged(
            RdTag::Url,
            None,
            vec![RdNode::Verb("https://example.test".into())],
        )]
    );
    let equal = convert(
        "[https://example.test](https://example.test)",
        &resolver,
        None,
    );
    assert_eq!(
        equal.fragment.nodes,
        vec![RdNode::tagged(
            RdTag::Url,
            None,
            vec![RdNode::Verb("https://example.test".into())],
        )]
    );
    let empty = convert("[https://example.test]()", &resolver, None);
    assert_eq!(empty.fragment.nodes, equal.fragment.nodes);
    assert_serialized_body(href.fragment.nodes, r"\href{https://example.test}{text}");
    assert_serialized_body(angle.fragment.nodes, r"\url{https://example.test}");
}

#[test]
fn nested_markdown_markup_remains_nested_around_links() {
    let resolver = local();
    let link_inside_emphasis = convert("*[obj]*", &resolver, None);
    assert_eq!(
        link_inside_emphasis.fragment.nodes,
        vec![RdNode::tagged(RdTag::Emph, None, vec![link(None, "obj")],)]
    );

    let emphasis_inside_link = convert("[**text**](https://example.test)", &resolver, None);
    assert_eq!(
        emphasis_inside_link.fragment.nodes,
        vec![RdNode::tagged(
            RdTag::Href,
            None,
            vec![
                RdNode::group(vec![RdNode::Verb("https://example.test".into())]),
                RdNode::group(vec![RdNode::tagged(
                    RdTag::Strong,
                    None,
                    vec![RdNode::Text("text".into())],
                )]),
            ],
        )]
    );
}

#[test]
fn url_verbatim_escaping_and_section_splitting_are_preserved() {
    let resolver = local();
    let conversion = convert("[text](https://example.test/%{raw})", &resolver, None);
    assert_serialized_body(
        conversion.fragment.nodes,
        r"\href{https://example.test/\%\{raw\}}{text}",
    );

    let conversion = convert("[base::split()] helper: body", &resolver, None);
    assert!(matches!(
        conversion.fragment.nodes.first(),
        Some(RdNode::Tagged(_))
    ));
}

#[test]
fn serialized_help_links_are_accepted_by_writer_and_r() {
    let resolver = local();
    assert_serialized_body(
        convert("[obj]", &resolver, None).fragment.nodes,
        r"\link{obj}",
    );
    assert_serialized_body(
        convert("[pkg::obj]", &resolver, None).fragment.nodes,
        r"\link[pkg:obj]{pkg::obj}",
    );
}

#[test]
fn multiline_shortcut_help_links_split_display_and_option() {
    let resolver = local();
    let conversion = convert("[wrap\nped]", &resolver, None);
    assert_eq!(
        conversion.fragment.nodes,
        vec![RdNode::tagged(
            RdTag::Link,
            None,
            vec![RdNode::Text("wrap\n".into()), RdNode::Text("ped".into())],
        )]
    );
    assert_serialized_body(conversion.fragment.nodes, "\\link{wrap\nped}");

    let conversion = convert("[pkg::wrap\nped]", &resolver, None);
    assert_eq!(
        conversion.fragment.nodes,
        vec![RdNode::tagged(
            RdTag::Link,
            Some(vec![
                RdNode::Text("pkg:wrap\n".into()),
                RdNode::Text("ped".into()),
            ]),
            vec![
                RdNode::Text("pkg::wrap\n".into()),
                RdNode::Text("ped".into()),
            ],
        )]
    );
    assert_eq!(
        serialize(conversion.fragment.nodes),
        "\\link[pkg:wrap\nped]{pkg::wrap\nped}"
    );
}

#[test]
fn multiline_urls_split_url_and_href_verbatim_children() {
    let url = lower_url(
        "https://example.test/a\nb",
        "https://example.test/a\nb".to_owned(),
        Vec::new(),
        Vec::new(),
    );
    assert_serialized_body(
        vec![rd_node(&bare_node(&url))],
        "\\url{https://example.test/a\nb}",
    );

    let href = lower_url(
        "https://example.test/a\nb",
        "label".to_owned(),
        vec![NodeWithOrigin { shape: Shape::Text("label".to_owned()), spans: Vec::new() }],
        Vec::new(),
    );
    assert_serialized_body(
        vec![rd_node(&bare_node(&href))],
        "\\href{https://example.test/a\nb}{label}",
    );
}

#[test]
fn escaped_topics_are_decoded() {
    let resolver = local();
    assert_eq!(
        convert("[text][a%20b]", &resolver, None).fragment.nodes,
        vec![link(Some("=a b"), "text")]
    );
    assert_eq!(
        convert("[text][x%FFy]", &resolver, None).fragment.nodes,
        vec![link(Some("=x\u{fffd}y"), "text")]
    );
    assert_eq!(
        convert("[text][50%]", &resolver, None).fragment.nodes,
        vec![link(Some("=50%"), "text")]
    );
}

#[test]
fn destinations_keep_a_label_as_it_is_written() {
    assert_eq!(link_destination("[wrap\nped]", 0, 10, "wrap ped"), "R:wrap\nped");
    assert_eq!(link_destination("see [a][b  c]", 4, 13, "b c"), "R:b c");
    assert_eq!(link_destination("", 0, 0, "topic"), "R:topic");
}
