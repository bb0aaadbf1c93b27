//! Raw Rd macros in prose.
use mini_roxygen_core::diagnostic::{Diagnostic, DiagnosticCode, Severity};
use mini_roxygen_core::markdown_conversion::context::{
    HelpLinkResolver, LinkResolution, MarkdownContext,
};
use mini_roxygen_core::markdown_conversion::fragment::{
    FragmentOrigin, FragmentPath, FragmentPathSegment,
};
use mini_roxygen_core::markdown_conversion::{
    convert_markdown as convert_text, convert_markdown_without_raw_rd as convert_plain,
};
use mini_roxygen_core::markdown_conversion::raw_rd::scan::{scan_source, ByteRange, RawRdKind};
use mini_roxygen_core::rd::{RdNode as Node, RdTag as Tag};
use mini_roxygen_core::source::{FileId, Span, TextRange};
use mini_roxygen_core::tags::{MarkdownText, SourceSegment, SourcedText};
use rd_ast::{RdDocument, RdNode, RdTag};

struct Fragment {
    nodes: Vec<RdNode>,
    origins: Vec<FragmentOrigin>,
}

#[derive(Debug)]
struct Reports(Vec<Diagnostic>);

impl Reports {
    fn iter(&self) -> std::slice::Iter<'_, Diagnostic> {
        self.0.iter()
    }

    fn len(&self) -> usize {
        self.0.len()
    }

    fn is_empty(&self) -> bool {
        self.0.is_empty()
    }

    fn has_errors(&self) -> bool {
        self.0.iter().any(|diagnostic| diagnostic.severity == Severity::Error)
    }
}

struct MarkdownConversion {
    fragment: Fragment,
    diagnostics: Reports,
}

fn tag(tag: &Tag) -> RdTag {
    match tag {
        Tag::Named(name) => RdTag::from_rd_tag(name.spelling()),
        Tag::Known(name) => RdTag::from_rd_tag(name),
        Tag::Unknown(name) => RdTag::Unknown(name.clone()),
    }
}

fn rd_nodes(nodes: &[Node]) -> Vec<RdNode> {
    nodes.iter().map(rd_node).collect()
}

fn rd_node(node: &Node) -> RdNode {
    match node {
        Node::Text(text) => RdNode::Text(text.clone()),
        Node::RCode(text) => RdNode::RCode(text.clone()),
        Node::Verb(text) => RdNode::Verb(text.clone()),
        Node::Comment(text) => RdNode::Comment(text.clone()),
        Node::Group(children) => RdNode::group(rd_nodes(children)),
        Node::Tagged { tag: name, option, children } => RdNode::tagged(
            tag(name),
            option.as_ref().map(|option| rd_nodes(option)),
            rd_nodes(children),
        ),
        Node::Raw { .. } => panic!("no conversion makes a raw node"),
    }
}

fn shown(
    conversion: mini_roxygen_core::markdown_conversion::MarkdownConversion,
) -> MarkdownConversion {
    MarkdownConversion {
        fragment: Fragment {
            nodes: rd_nodes(&conversion.fragment.nodes),
            origins: conversion.fragment.origins,
        },
        diagnostics: Reports(conversion.diagnostics.items),
    }
}

struct LocalLinks;

impl HelpLinkResolver for LocalLinks {
    fn resolve_unqualified(&self, _topic: &str) -> LinkResolution {
        LinkResolution::Local
    }
}

fn context() -> MarkdownContext<'static, LocalLinks> {
    MarkdownContext { current_package: None, links: &LocalLinks, inline_r_session: None }
}

fn sourced(text: &str, lines: &[(u32, u32, u32)]) -> MarkdownText {
    let segments = lines
        .iter()
        .map(|(offset, start, end)| SourceSegment {
            offset: *offset,
            span: Span::new(FileId::new(0), TextRange::new(*start, *end)),
        })
        .collect();
    MarkdownText::new(SourcedText::from_segments(text.to_owned(), segments))
}

fn value(text: &str) -> MarkdownText {
    sourced(text, &[(0, 0, text.len() as u32)])
}

fn convert_markdown(value: &MarkdownText) -> MarkdownConversion {
    shown(convert_text(value, &context()))
}

fn convert(text: &str) -> MarkdownConversion {
    convert_markdown(&value(text))
}

fn serialize(nodes: Vec<RdNode>) -> String {
    rd_writer::Writer::new(rd_writer::WriterOptions::default())
        .write_document(&RdDocument::from(nodes))
        .expect("writer accepts the converted fragment")
}

fn assert_serialized_body(nodes: Vec<RdNode>, expected: &str) {
    assert_eq!(serialize(nodes), expected);
}

fn convert_markdown_without_raw_rd(value: &MarkdownText) -> MarkdownConversion {
    shown(convert_plain(value, &context()))
}

fn assert_raw_rejected(source: &str) {
    let conversion = convert(source);
    let plain = convert_markdown_without_raw_rd(&value(source));
    assert!(
        conversion
            .diagnostics
            .iter()
            .any(|diagnostic| diagnostic.code == DiagnosticCode::UnsupportedRawRdMacro),
        "missing raw Rd diagnostic for {source:?}"
    );
    assert_eq!(
        conversion.fragment.nodes, plain.fragment.nodes,
        "rejected raw Rd changed plain conversion: {source:?}"
    );
}

#[test]
fn long_backslash_runs_keep_escape_parity_linear() {
    let source = format!("{}eqn{{x}}", "\\".repeat(12_001));
    let candidates = scan_source(&source, &Vec::new());
    assert_eq!(candidates.len(), 1);
    assert_eq!(candidates[0].source, ByteRange { start: 12_000, end: source.len() });
    assert!(matches!(
        candidates[0].kind,
        Some(RawRdKind::Equation { .. })
    ));
}

#[test]
fn one_argument_equations_are_structural() {
    for (source, tag) in [(r"\eqn{x^2}", RdTag::Eqn), (r"\deqn{x^2}", RdTag::Deqn)] {
        let conversion = convert(source);
        assert_eq!(
            conversion.fragment.nodes,
            vec![RdNode::tagged(
                tag.clone(),
                None,
                vec![RdNode::group(vec![RdNode::Verb("x^2".into())])],
            )]
        );
        assert!(conversion.diagnostics.is_empty());
        if tag == RdTag::Eqn {
            assert_serialized_body(conversion.fragment.nodes.clone(), r"\eqn{x^2}");
        }
    }
}

#[test]
fn zero_argument_prose_macros_are_structural_zero_child_nodes() {
    for (source, tag) in [
        (r"\R", RdTag::R),
        (r"\dots", RdTag::Dots),
        (r"\ldots", RdTag::LDots),
        (r"\cr", RdTag::Cr),
        (r"\sspace", RdTag::Sspace),
    ] {
        let conversion = convert(source);
        assert_eq!(
            conversion.fragment.nodes,
            vec![RdNode::tagged(tag, None, Vec::new())]
        );
        assert!(conversion.diagnostics.is_empty());
        if source != r"\sspace" {
            assert_serialized_body(conversion.fragment.nodes, source);
        }
    }
}

#[test]
fn system_space_symbol_serializes_in_prose_context() {
    let conversion = convert(r"sentence\sspace here");
    assert!(conversion.diagnostics.is_empty());
    let body = serialize(vec![RdNode::tagged(
        RdTag::Description,
        None,
        conversion.fragment.nodes,
    )]);
    assert_eq!(body, r"\description{sentence\sspace here}");
}

#[test]
fn zero_argument_prose_macros_survive_adjacent_markup_and_each_other() {
    let conversion = convert(r"*before \R* \dots \ldots");
    assert_eq!(
        conversion.fragment.nodes,
        vec![
            RdNode::tagged(
                RdTag::Emph,
                None,
                vec![
                    RdNode::Text("before ".into()),
                    RdNode::tagged(RdTag::R, None, Vec::new()),
                ],
            ),
            RdNode::Text(" ".into()),
            RdNode::tagged(RdTag::Dots, None, Vec::new()),
            RdNode::Text(" ".into()),
            RdNode::tagged(RdTag::LDots, None, Vec::new()),
        ]
    );
    assert!(conversion.diagnostics.is_empty());
    assert_serialized_body(conversion.fragment.nodes, r"\emph{before \R} \dots \ldots");
}

#[test]
fn escaped_and_code_opaque_prose_macros_stay_literal() {
    let escaped = convert(r"\\R \\dots \\ldots");
    assert_eq!(
        escaped.fragment.nodes,
        vec![RdNode::Text(r"\R \dots \ldots".into())]
    );
    assert!(escaped.diagnostics.is_empty());

    let code = convert(r"`\R \dots \ldots`");
    assert_eq!(
        code.fragment.nodes,
        vec![RdNode::tagged(
            RdTag::Verb,
            None,
            vec![RdNode::Verb(r"\R \dots \ldots".into())],
        )]
    );
    assert!(code.diagnostics.is_empty());

    let code_block = convert("```\n\\R \\dots \\ldots\n```");
    assert_eq!(
        code_block.fragment.nodes,
        vec![RdNode::tagged(
            RdTag::Preformatted,
            None,
            vec![RdNode::Verb("\\R \\dots \\ldots\n".into())],
        )]
    );
    assert!(code_block.diagnostics.is_empty());
}

#[test]
fn contextual_zero_argument_macros_remain_rejected_in_prose() {
    for source in [
        r"\tab",
        r"\R{}",
        r"\dots{}",
        r"\ldots{}",
        r"\cr{}",
        r"\sspace{}",
    ] {
        assert_raw_rejected(source);
    }
}

#[test]
fn empty_equation_argument_is_an_empty_group() {
    let conversion = convert(r"\eqn{}");
    assert_eq!(
        conversion.fragment.nodes,
        vec![RdNode::tagged(
            RdTag::Eqn,
            None,
            vec![RdNode::group(Vec::new())],
        )]
    );
    assert_serialized_body(conversion.fragment.nodes, r"\eqn{}");
}

#[test]
fn equations_at_paragraph_start_are_structural() {
    let conversion = convert(r"\eqn{x} after");
    assert_eq!(
        conversion.fragment.nodes,
        vec![
            RdNode::tagged(
                RdTag::Eqn,
                None,
                vec![RdNode::group(vec![RdNode::Verb("x".into())])],
            ),
            RdNode::Text(" after".into()),
        ]
    );
    assert!(conversion.diagnostics.is_empty());

    let conversion = convert(r"\eqn{x}");
    assert_eq!(
        conversion.fragment.nodes,
        vec![RdNode::tagged(
            RdTag::Eqn,
            None,
            vec![RdNode::group(vec![RdNode::Verb("x".into())])],
        )]
    );
    assert!(conversion.diagnostics.is_empty());

    let conversion = convert(r"\eqn{x} *after*");
    assert_eq!(
        conversion.fragment.nodes,
        vec![
            RdNode::tagged(
                RdTag::Eqn,
                None,
                vec![RdNode::group(vec![RdNode::Verb("x".into())])],
            ),
            RdNode::Text(" ".into()),
            RdNode::tagged(RdTag::Emph, None, vec![RdNode::Text("after".into())]),
        ]
    );
    assert!(conversion.diagnostics.is_empty());
}

#[test]
fn equations_after_emphasis_are_not_hidden_by_expired_constructs() {
    let conversion = convert(r"*a \eqn{x}* then \eqn{y}");
    assert_eq!(
        conversion.fragment.nodes,
        vec![
            RdNode::tagged(
                RdTag::Emph,
                None,
                vec![
                    RdNode::Text("a ".into()),
                    RdNode::tagged(
                        RdTag::Eqn,
                        None,
                        vec![RdNode::group(vec![RdNode::Verb("x".into())])],
                    ),
                ],
            ),
            RdNode::Text(" then ".into()),
            RdNode::tagged(
                RdTag::Eqn,
                None,
                vec![RdNode::group(vec![RdNode::Verb("y".into())])],
            ),
        ]
    );
    assert!(conversion.diagnostics.is_empty());
}

#[test]
fn one_argument_serialization_keeps_percent_and_braces() {
    let conversion = convert(r"\eqn{x % \{y\}}");
    assert_eq!(
        conversion.fragment.nodes,
        vec![RdNode::tagged(
            RdTag::Eqn,
            None,
            vec![RdNode::group(vec![RdNode::Verb(r"x % \{y\}".into())])],
        )]
    );
    assert_serialized_body(conversion.fragment.nodes, r"\eqn{x % \{y\}}");
}

#[test]
fn two_argument_equations_use_distinct_writer_modes() {
    let conversion = convert(r"\eqn{a\{b\}c % d}{second \{x\} % y}");
    assert_eq!(
        conversion.fragment.nodes,
        vec![RdNode::tagged(
            RdTag::Eqn,
            None,
            vec![
                RdNode::group(vec![RdNode::Verb(r"a\{b\}c % d".into())]),
                RdNode::group(vec![RdNode::Verb(r"second \{x\} % y".into())]),
            ],
        )]
    );
    assert_serialized_body(
        conversion.fragment.nodes,
        r"\eqn{a\{b\}c % d}{second \\\{x\\\} \% y}",
    );
}

#[test]
fn nested_and_escaped_braces_are_scanned() {
    let conversion = convert(r"\eqn{\frac{a}{b}}{a\}b}");
    assert_eq!(conversion.fragment.nodes.len(), 1);
    let equation = conversion.fragment.nodes[0].as_tagged().expect("equation");
    assert_eq!(equation.tag(), &RdTag::Eqn);
    assert_eq!(
        equation.children()[0]
            .as_group()
            .expect("first group")
            .children(),
        &[RdNode::Verb(r"\frac{a}{b}".into())]
    );
    assert_eq!(
        equation.children()[1]
            .as_group()
            .expect("second group")
            .children(),
        &[RdNode::Verb(r"a\}b".into())]
    );
}

#[test]
fn equation_shapes_from_prose_are_structural() {
    for source in [
        r#"\deqn{u = \frac{a}{b} \; for \; b > 0}"#,
        r#"\deqn{v = 1 - \exp \left\{ \frac{a}{b} \right\} \; for \; b > 0}"#,
        r#"\eqn{|x| \leq \max \{ |a|, |b| \}}"#,
    ] {
        let conversion = convert(source);
        assert!(
            conversion.diagnostics.is_empty(),
            "unexpected diagnostics for {source:?}: {:?}",
            conversion.diagnostics
        );
    }

    let conversion = convert(
        r#"\deqn{v = 1 - \exp \left\{ \frac{a}{b} \right\}
\; for \; b > 0}"#,
    );
    assert!(
        conversion.diagnostics.is_empty(),
        "unexpected diagnostics for multiline equation: {:?}",
        conversion.diagnostics
    );

    for source in [
        r#"Specify a ratio with \deqn{u = \frac{a}{b} \; for \; b > 0}."#,
        r#"Specify a bound with \eqn{|x| \leq \max \{ |a|, |b| \}}"#,
    ] {
        let conversion = convert(source);
        assert!(
            conversion.diagnostics.is_empty(),
            "unexpected diagnostics for prose equation {source:?}: {:?}",
            conversion.diagnostics
        );
    }
}

#[test]
fn unterminated_supported_equation_is_diagnosed_and_kept() {
    assert_raw_rejected(r"before \eqn{x");
}

#[test]
fn code_shielded_malformed_equation_does_not_hide_later_ones() {
    let conversion = convert("`\\eqn{x` after \\eqn{y}");
    assert_eq!(
        conversion.fragment.nodes,
        vec![
            RdNode::tagged(RdTag::Verb, None, vec![RdNode::Verb("\\eqn{x".into())]),
            RdNode::Text(" after ".into()),
            RdNode::tagged(
                RdTag::Eqn,
                None,
                vec![RdNode::group(vec![RdNode::Verb("y".into())])]
            ),
        ]
    );
    assert!(conversion.diagnostics.is_empty());
}

#[test]
fn balanced_outer_brace_does_not_unshield_a_malformed_code_span_macro() {
    let conversion = convert(r"`\eqn{x` after \eqn{y} }");
    assert_eq!(
        conversion.fragment.nodes,
        vec![
            RdNode::tagged(RdTag::Verb, None, vec![RdNode::Verb(r"\eqn{x".into())]),
            RdNode::Text(" after ".into()),
            RdNode::tagged(
                RdTag::Eqn,
                None,
                vec![RdNode::group(vec![RdNode::Verb("y".into())])],
            ),
            RdNode::Text(" }".into()),
        ]
    );
    assert!(conversion.diagnostics.is_empty());
}

#[test]
fn balanced_code_span_macro_does_not_hide_a_later_equation() {
    let conversion = convert(r"`\eqn{x}` after \eqn{y}");
    assert_eq!(
        conversion.fragment.nodes,
        vec![
            RdNode::tagged(RdTag::Verb, None, vec![RdNode::Verb(r"\eqn{x}".into())]),
            RdNode::Text(" after ".into()),
            RdNode::tagged(
                RdTag::Eqn,
                None,
                vec![RdNode::group(vec![RdNode::Verb("y".into())])],
            ),
        ]
    );
    assert!(conversion.diagnostics.is_empty());
}

#[test]
fn unsupported_code_span_macro_does_not_hide_a_later_equation() {
    let conversion = convert(r"`\code{x}` after \eqn{y}");
    assert_eq!(
        conversion.fragment.nodes,
        vec![
            RdNode::tagged(RdTag::Verb, None, vec![RdNode::Verb(r"\code{x}".into())]),
            RdNode::Text(" after ".into()),
            RdNode::tagged(
                RdTag::Eqn,
                None,
                vec![RdNode::group(vec![RdNode::Verb("y".into())])],
            ),
        ]
    );
    assert!(conversion.diagnostics.is_empty());
}

#[test]
fn malformed_code_block_macro_does_not_hide_a_later_equation() {
    let conversion = convert("```\n\\eqn{x\n```\nafter \\eqn{y}");
    assert_eq!(
        conversion.fragment.nodes,
        vec![
            RdNode::tagged(
                RdTag::Preformatted,
                None,
                vec![RdNode::Verb("\\eqn{x\n".into())],
            ),
            RdNode::Text("\n".into()),
            RdNode::Text("\n".into()),
            RdNode::Text("after ".into()),
            RdNode::tagged(
                RdTag::Eqn,
                None,
                vec![RdNode::group(vec![RdNode::Verb("y".into())])],
            ),
        ]
    );
    assert!(conversion.diagnostics.is_empty());
}

#[test]
fn shielded_introducers_in_two_code_spans_do_not_hide_intervening_equations() {
    let conversion = convert(r"`\eqn{x` before \eqn{y} after `\eqn{z` and \eqn{q}");
    assert_eq!(
        conversion.fragment.nodes,
        vec![
            RdNode::tagged(RdTag::Verb, None, vec![RdNode::Verb(r"\eqn{x".into())]),
            RdNode::Text(" before ".into()),
            RdNode::tagged(
                RdTag::Eqn,
                None,
                vec![RdNode::group(vec![RdNode::Verb("y".into())])],
            ),
            RdNode::Text(" after ".into()),
            RdNode::tagged(RdTag::Verb, None, vec![RdNode::Verb(r"\eqn{z".into())]),
            RdNode::Text(" and ".into()),
            RdNode::tagged(
                RdTag::Eqn,
                None,
                vec![RdNode::group(vec![RdNode::Verb("q".into())])],
            ),
        ]
    );
    assert!(conversion.diagnostics.is_empty());
}

#[test]
fn an_unshielded_malformed_equation_still_claims_the_rest() {
    assert_raw_rejected(r"before \eqn{x more \eqn{y}");
}

#[test]
fn unterminated_second_argument_is_diagnosed_and_kept() {
    assert_raw_rejected(r"before \eqn{x}{y");
}

#[test]
fn equation_markup_is_not_markdown() {
    let conversion = convert(r"\eqn{x_y * [z]}");
    assert_eq!(
        conversion.fragment.nodes,
        vec![RdNode::tagged(
            RdTag::Eqn,
            None,
            vec![RdNode::group(vec![RdNode::Verb("x_y * [z]".into())])],
        )]
    );
}

#[test]
fn unsupported_raw_macros_are_diagnosed_and_kept() {
    for source in [r"before \code{x} after", r"before \link{y} after"] {
        assert_raw_rejected(source);
    }
}

#[test]
fn a_control_sequence_without_a_group_is_literal() {
    let conversion = convert(r"before \alpha after");
    assert_eq!(
        conversion.fragment.nodes,
        vec![RdNode::Text(r"before \alpha after".into())]
    );
    assert!(conversion.diagnostics.is_empty());
}

#[test]
fn escaped_introducer_is_literal() {
    let conversion = convert(r"\\eqn{x}");
    assert_eq!(
        conversion.fragment.nodes,
        vec![RdNode::Text(r"\eqn{x}".into())]
    );
    assert!(conversion.diagnostics.is_empty());
}

#[test]
fn many_candidates_interleaved_with_inline_markup_are_swept() {
    let mut source = String::new();
    for _ in 0..8_000 {
        source.push_str("*x* ");
        source.push_str(r"\eqn{x} ");
    }
    let conversion = convert(&source);
    let equations = conversion
        .fragment
        .nodes
        .iter()
        .filter(|node| {
            node.as_tagged()
                .is_some_and(|tag| matches!(tag.tag(), RdTag::Eqn))
        })
        .count();
    assert_eq!(equations, 8_000);
    assert!(conversion.diagnostics.is_empty());
}

#[test]
fn multiple_candidates_in_one_text_event_are_spliced() {
    let conversion = convert(r"before \eqn{x} middle \eqn{y} after");
    let equations = conversion
        .fragment
        .nodes
        .iter()
        .filter(|node| {
            node.as_tagged()
                .is_some_and(|tag| matches!(tag.tag(), RdTag::Eqn))
        })
        .count();
    assert_eq!(equations, 2);
    assert!(conversion.diagnostics.is_empty());
}

#[test]
fn equations_continue_after_a_spanning_candidate() {
    let conversion = convert("a \\eqn{x\ny} \\eqn{z}");
    assert_eq!(
        conversion.fragment.nodes,
        vec![
            RdNode::Text("a ".into()),
            RdNode::tagged(
                RdTag::Eqn,
                None,
                vec![RdNode::group(vec![
                    RdNode::Verb("x\n".into()),
                    RdNode::Verb("y".into()),
                ])],
            ),
            RdNode::Text(" ".into()),
            RdNode::tagged(
                RdTag::Eqn,
                None,
                vec![RdNode::group(vec![RdNode::Verb("z".into())])],
            ),
        ]
    );
    assert!(conversion.diagnostics.is_empty());

    let conversion = convert("a \\eqn{x\ny} \\eqn{z} \\eqn{q}");
    assert_eq!(
        conversion.fragment.nodes,
        vec![
            RdNode::Text("a ".into()),
            RdNode::tagged(
                RdTag::Eqn,
                None,
                vec![RdNode::group(vec![
                    RdNode::Verb("x\n".into()),
                    RdNode::Verb("y".into()),
                ])],
            ),
            RdNode::Text(" ".into()),
            RdNode::tagged(
                RdTag::Eqn,
                None,
                vec![RdNode::group(vec![RdNode::Verb("z".into())])],
            ),
            RdNode::Text(" ".into()),
            RdNode::tagged(
                RdTag::Eqn,
                None,
                vec![RdNode::group(vec![RdNode::Verb("q".into())])],
            ),
        ]
    );
    assert!(conversion.diagnostics.is_empty());
}

#[test]
fn macro_names_and_options_are_diagnosed() {
    for source in [
        r"\S3method{print}{foo}",
        r"\linkS4class{x}",
        r"\link[=foo]{bar}",
    ] {
        assert_raw_rejected(source);
    }
}

#[test]
fn sentinel_like_text_does_not_collide_with_a_protected_macro() {
    let conversion = convert(r"xx\eqn{x}xx");
    assert_eq!(
        conversion.fragment.nodes,
        vec![
            RdNode::Text("xx".into()),
            RdNode::tagged(
                RdTag::Eqn,
                None,
                vec![RdNode::group(vec![RdNode::Verb("x".into())])],
            ),
            RdNode::Text("xx".into()),
        ]
    );
}

#[test]
fn raw_macros_inside_code_are_not_prose_macros() {
    let source = format!("{}\\eqn{{x}}{}", char::from(96), char::from(96));
    let conversion = convert(&source);
    assert_eq!(
        conversion.fragment.nodes,
        vec![RdNode::tagged(
            RdTag::Verb,
            None,
            vec![RdNode::Verb(r"\eqn{x}".into())],
        )]
    );
    assert!(conversion.diagnostics.is_empty());
}

#[test]
fn malformed_raw_rd_inside_code_does_not_diagnose() {
    let conversion = convert(r"`\eqn{x` after");
    assert_eq!(
        conversion.fragment.nodes,
        vec![
            RdNode::tagged(RdTag::Verb, None, vec![RdNode::Verb(r"\eqn{x".into())],),
            RdNode::Text(" after".into()),
        ]
    );
    assert!(conversion.diagnostics.is_empty());
}

#[test]
fn deliberate_positions_are_rejected_without_rewriting_events() {
    for source in [
        "before \\eqn{x\n\ny} after",
        "\\eqn{x\n\ny}",
        r"before \eqn{*x}*",
        r"[before](url\eqn{x})",
        r"<https://e/\eqn{ab}>",
        "[ref]: https://e/\\eqn{x} \"title\"",
        r#"[before](url "title \eqn{x}")"#,
        r"![before](url\eqn{x})",
        r#"<span title="\eqn{x}">text</span>"#,
        r#"before <span title="\eqn{x">} after"#,
        r#"\eqn{a<span title="}">x"#,
    ] {
        assert_raw_rejected(source);
    }
}

#[test]
fn multiline_equation_with_list_continuations_is_rejected_without_rewriting() {
    assert_raw_rejected("before \\eqn{a\n+ b\n+ c} after");
}

#[test]
fn equations_work_inside_lists_and_emphasis() {
    let list = convert("- *\\eqn{x^2}*");
    let expected = RdNode::tagged(
        RdTag::Itemize,
        None,
        vec![
            RdNode::Text("\n".into()),
            RdNode::tagged(RdTag::Item, None, vec![]),
            RdNode::Text(" ".into()),
            RdNode::tagged(
                RdTag::Emph,
                None,
                vec![RdNode::tagged(
                    RdTag::Eqn,
                    None,
                    vec![RdNode::group(vec![RdNode::Verb("x^2".into())])],
                )],
            ),
            RdNode::Text("\n".into()),
        ],
    );
    assert_eq!(list.fragment.nodes, vec![expected]);
    assert!(list.diagnostics.is_empty());
}

#[test]
fn raw_ranges_cover_all_physical_lines() {
    let source = "before \\eqn{a\n#' b\n#' c} after";
    let first_end = source.find('\n').expect("first newline");
    let second_line_start = first_end + 1;
    let second_content_start = second_line_start + 3;
    let second_end = source[second_line_start..]
        .find('\n')
        .map(|offset| second_line_start + offset)
        .expect("second newline");
    let third_content_start = second_end + 1 + 3;
    let text = "before \\eqn{a\nb\nc} after";
    let sourced = sourced(
        text,
        &[
            (0, 0, first_end as u32),
            (text.find("b\n").expect("second line") as u32, second_content_start as u32, second_end as u32),
            (text.find("c}").expect("third line") as u32, third_content_start as u32, source.len() as u32),
        ],
    );
    let conversion = convert_markdown(&sourced);
    let equation_index = conversion
        .fragment
        .nodes
        .iter()
        .position(|node| node.as_tagged().is_some_and(|tag| tag.tag() == &RdTag::Eqn))
        .expect("equation node");
    let origin = conversion
        .fragment
        .origins
        .iter()
        .find(|origin| origin.path == FragmentPath::root(equation_index))
        .expect("equation origin");
    let equation = conversion.fragment.nodes[equation_index]
        .as_tagged()
        .expect("equation");
    assert_eq!(
        equation.children()[0]
            .as_group()
            .expect("equation argument")
            .children(),
        &[
            RdNode::Verb("a\n".into()),
            RdNode::Verb("b\n".into()),
            RdNode::Verb("c".into()),
        ]
    );
    assert_eq!(origin.spans.len(), 3);
    assert!(
        origin
            .spans
            .windows(2)
            .all(|spans| { spans[0].range.start() < spans[1].range.start() })
    );
    let leaf_spans = conversion
        .fragment
        .origins
        .iter()
        .filter(|origin| {
            origin.path.segments().len() == 3
                && origin.path.segments()[..2]
                    == [
                        FragmentPathSegment::Child(equation_index),
                        FragmentPathSegment::Child(0),
                    ]
        })
        .map(|origin| origin.spans.clone())
        .collect::<Vec<_>>();
    assert_eq!(leaf_spans.len(), 3);
    assert!(leaf_spans.windows(2).all(|spans| spans[0] == spans[1]));
}
