//! Conversion of prose, code, lists and tables.
use mini_roxygen_core::diagnostic::{Diagnostic, DiagnosticCode, Severity};
use mini_roxygen_core::markdown_conversion::context::{
    HelpLinkResolver, InlineRSession, InlineRSubstitution, LinkResolution, MarkdownContext,
};
use mini_roxygen_core::markdown_conversion::fragment::{
    FragmentOrigin, FragmentPath, FragmentPathSegment,
};
use mini_roxygen_core::markdown_conversion::convert_markdown as convert_text;
use mini_roxygen_core::markdown_conversion::frame::{Frame, FrameKind};
use mini_roxygen_core::markdown_conversion::unsupported::is_nested_table_envelope;
use mini_roxygen_core::rd::{RdMacro, RdNode as Node, RdTag as Tag};
use mini_roxygen_core::source::{FileId, Span, TextRange};
use mini_roxygen_core::tags::{MarkdownText, SourceSegment, SourcedText};
use rd_ast::{RdDocument, RdNode, RdPath, RdPathSegment, RdTag};

struct Fragment {
    nodes: Vec<RdNode>,
    origins: Vec<FragmentOrigin>,
}

#[derive(Debug)]
struct Reports(Vec<Diagnostic>);

impl Reports {
    fn iter(&self) -> std::slice::Iter<'_, Diagnostic> {
        self.0.iter()
    }

    fn len(&self) -> usize {
        self.0.len()
    }

    fn is_empty(&self) -> bool {
        self.0.is_empty()
    }

    fn has_errors(&self) -> bool {
        self.0.iter().any(|diagnostic| diagnostic.severity == Severity::Error)
    }
}

struct MarkdownConversion {
    fragment: Fragment,
    diagnostics: Reports,
}

fn tag(tag: &Tag) -> RdTag {
    match tag {
        Tag::Named(name) => RdTag::from_rd_tag(name.spelling()),
        Tag::Known(name) => RdTag::from_rd_tag(name),
        Tag::Unknown(name) => RdTag::Unknown(name.clone()),
    }
}

fn rd_nodes(nodes: &[Node]) -> Vec<RdNode> {
    nodes.iter().map(rd_node).collect()
}

fn rd_node(node: &Node) -> RdNode {
    match node {
        Node::Text(text) => RdNode::Text(text.clone()),
        Node::RCode(text) => RdNode::RCode(text.clone()),
        Node::Verb(text) => RdNode::Verb(text.clone()),
        Node::Comment(text) => RdNode::Comment(text.clone()),
        Node::Group(children) => RdNode::group(rd_nodes(children)),
        Node::Tagged { tag: name, option, children } => RdNode::tagged(
            tag(name),
            option.as_ref().map(|option| rd_nodes(option)),
            rd_nodes(children),
        ),
        Node::Raw { .. } => panic!("no conversion makes a raw node"),
    }
}

fn shown(
    conversion: mini_roxygen_core::markdown_conversion::MarkdownConversion,
) -> MarkdownConversion {
    MarkdownConversion {
        fragment: Fragment {
            nodes: rd_nodes(&conversion.fragment.nodes),
            origins: conversion.fragment.origins,
        },
        diagnostics: Reports(conversion.diagnostics.items),
    }
}

struct LocalLinks;

impl HelpLinkResolver for LocalLinks {
    fn resolve_unqualified(&self, _topic: &str) -> LinkResolution {
        LinkResolution::Local
    }
}

fn context() -> MarkdownContext<'static, LocalLinks> {
    MarkdownContext { current_package: None, links: &LocalLinks, inline_r_session: None }
}

fn sourced(text: &str, lines: &[(u32, u32, u32)]) -> MarkdownText {
    let segments = lines
        .iter()
        .map(|(offset, start, end)| SourceSegment {
            offset: *offset,
            span: Span::new(FileId::new(0), TextRange::new(*start, *end)),
        })
        .collect();
    MarkdownText::new(SourcedText::from_segments(text.to_owned(), segments))
}

fn value(text: &str) -> MarkdownText {
    sourced(text, &[(0, 0, text.len() as u32)])
}

fn convert_markdown(value: &MarkdownText) -> MarkdownConversion {
    shown(convert_text(value, &context()))
}

fn convert(text: &str) -> MarkdownConversion {
    convert_markdown(&value(text))
}

fn serialize(nodes: Vec<RdNode>) -> String {
    rd_writer::Writer::new(rd_writer::WriterOptions::default())
        .write_document(&RdDocument::from(nodes))
        .expect("writer accepts the converted fragment")
}

fn assert_serialized_body(nodes: Vec<RdNode>, expected: &str) {
    assert_eq!(serialize(nodes), expected);
}

fn diagnostic_messages(conversion: &MarkdownConversion) -> Vec<String> {
    conversion.diagnostics.iter().map(|diagnostic| diagnostic.message.clone()).collect()
}

fn table(conversion: &MarkdownConversion) -> &rd_ast::RdTagged {
    conversion.fragment.nodes[0].as_tagged().expect("table root")
}

fn body(conversion: &MarkdownConversion) -> &[RdNode] {
    table(conversion).children()[1].as_group().expect("table body group").children()
}

fn view(conversion: &MarkdownConversion) -> rd_ast::RdTabular<'_> {
    table(conversion)
        .inspect_tabular(&RdPath::new(vec![RdPathSegment::TopLevel(0)]))
        .expect("valid tabular shape")
}

fn cell_path(body_index: usize) -> RdPath {
    RdPath::new(vec![
        RdPathSegment::TopLevel(0),
        RdPathSegment::Child(1),
        RdPathSegment::Child(body_index),
    ])
}

fn collect_paths(
    node: &RdNode,
    path: &mut Vec<FragmentPathSegment>,
    paths: &mut Vec<Vec<FragmentPathSegment>>,
) {
    paths.push(path.clone());
    let children = match node {
        RdNode::Tagged(tagged) => Some(tagged.children()),
        RdNode::Group(group) => Some(group.children()),
        _ => None,
    };
    if let Some(children) = children {
        for (index, child) in children.iter().enumerate() {
            path.push(FragmentPathSegment::Child(index));
            collect_paths(child, path, paths);
            path.pop();
        }
    }
}

fn strong(text: &str) -> Node {
    Node::Tagged {
        tag: Tag::Named(RdMacro::Strong),
        option: None,
        children: vec![Node::Text(text.to_owned())],
    }
}

fn session(entries: Vec<(&str, Node)>) -> InlineRSession {
    InlineRSession::new(
        entries
            .into_iter()
            .map(|(expression, node)| InlineRSubstitution {
                expression: expression.to_owned(),
                nodes: vec![node],
                built_in: false,
            })
            .collect(),
    )
}

fn convert_in(text: &str, session: &InlineRSession) -> MarkdownConversion {
    let context = MarkdownContext {
        current_package: None,
        links: &LocalLinks,
        inline_r_session: Some(session),
    };
    shown(convert_text(&value(text), &context))
}

fn badge() -> InlineRSession {
    let figure = Node::Tagged {
        tag: Tag::Known("\\figure".to_owned()),
        option: None,
        children: vec![
            Node::Group(vec![Node::Verb("lifecycle-experimental.svg".to_owned())]),
            Node::Group(vec![Node::Verb("options: alt='[Experimental]'".to_owned())]),
        ],
    };
    let href = Node::Tagged {
        tag: Tag::Named(RdMacro::Href),
        option: None,
        children: vec![
            Node::Group(vec![Node::Verb(
                "https://lifecycle.r-lib.org/articles/stages.html#experimental".to_owned(),
            )]),
            Node::Group(vec![figure]),
        ],
    };
    let node = Node::Tagged {
        tag: Tag::Known("\\ifelse".to_owned()),
        option: None,
        children: vec![
            Node::Group(vec![Node::Text("html".to_owned())]),
            Node::Group(vec![href]),
            Node::Group(vec![strong("[Experimental]")]),
        ],
    };
    session(vec![("lifecycle::badge(\"experimental\")", node)])
}

#[test]
fn an_undefined_inline_r_expression_reports_the_complete_code_span() {
    let source = format!("before {}r other(){}", char::from(96), char::from(96));
    let conversion = convert_in(&source, &badge());
    let diagnostic = conversion
        .diagnostics
        .iter()
        .next()
        .expect("undefined substitution diagnostic");
    assert_eq!(diagnostic.code, DiagnosticCode::UndefinedInlineRSubstitution);
    assert_eq!(diagnostic.primary.span.range, TextRange::new(7, 18));
}

#[test]
fn bare_lifecycle_badge_is_not_a_builtin_substitution() {
    let conversion = convert_in(r#"`r badge("experimental")`"#, &badge());
    assert_eq!(conversion.diagnostics.len(), 1);
    assert_eq!(
        conversion.diagnostics.iter().next().expect("undefined substitution diagnostic").code,
        DiagnosticCode::UndefinedInlineRSubstitution
    );
}

#[test]
fn unknown_lifecycle_badge_stage_is_not_a_builtin_substitution() {
    let conversion = convert_in(r#"`r lifecycle::badge("archived")`"#, &badge());
    assert_eq!(conversion.diagnostics.len(), 1);
    assert_eq!(
        conversion.diagnostics.iter().next().expect("undefined substitution diagnostic").code,
        DiagnosticCode::UndefinedInlineRSubstitution
    );
}

#[test]
fn a_user_entry_can_enable_the_bare_lifecycle_badge_spelling() {
    let session = session(vec![(r#"badge("experimental")"#, strong("custom badge"))]);
    let conversion = convert_in(r#"`r badge("experimental")`"#, &session);
    assert!(conversion.diagnostics.is_empty());
    assert_serialized_body(conversion.fragment.nodes, r#"\strong{custom badge}"#);
}

#[test]
fn a_builtin_lifecycle_badge_is_accepted_by_the_rd_oracle() {
    let conversion = convert_in(r#"`r lifecycle::badge("experimental")`"#, &badge());
    assert!(conversion.diagnostics.is_empty());
    assert_serialized_body(
        conversion.fragment.nodes,
        r#"\ifelse{html}{\href{https://lifecycle.r-lib.org/articles/stages.html#experimental}{\figure{lifecycle-experimental.svg}{options: alt='[Experimental]'}}}{\strong{[Experimental]}}"#,
    );
}

#[test]
fn a_configured_expression_matches_exactly_and_repeats() {
    let session = session(vec![("known()", strong("known"))]);
    let source = "`r known()` and `r known()` but `r known ( )`";
    let conversion = convert_in(source, &session);
    assert_eq!(
        conversion
            .diagnostics
            .iter()
            .filter(|diagnostic| diagnostic.code == DiagnosticCode::UndefinedInlineRSubstitution)
            .count(),
        1
    );
    let output = serialize(conversion.fragment.nodes);
    assert_eq!(output.matches(r"\strong{known}").count(), 2);
}

#[test]
fn multiline_inline_r_does_not_match_a_normalized_substitution_key() {
    let session = session(vec![("a b", strong("matched"))]);
    let conversion = convert_in("`r \"a\nb\"`", &session);
    assert_serialized_body(conversion.fragment.nodes, r#"\verb{r "a b"}"#);
    let diagnostics = conversion
        .diagnostics
        .iter()
        .filter(|diagnostic| diagnostic.code == DiagnosticCode::UnsupportedInlineR)
        .collect::<Vec<_>>();
    assert_eq!(diagnostics.len(), 1);
    assert_eq!(diagnostics[0].message, "multi-line inline R code is not supported");
}

#[test]
fn commonmark_outer_space_normalization_still_matches_an_inline_r_key() {
    let session = session(vec![("known()", strong("known"))]);
    let conversion = convert_in("` r known() `", &session);
    assert_serialized_body(conversion.fragment.nodes, r#"\strong{known}"#);
    assert!(conversion.diagnostics.is_empty());
}

#[test]
fn multi_backtick_single_line_inline_r_with_a_backtick_uses_substitution() {
    let session = session(vec![("paste(\"`\")", strong("backtick"))]);
    let conversion = convert_in(r#"``r paste("`")``"#, &session);
    assert_serialized_body(conversion.fragment.nodes, r#"\strong{backtick}"#);
    assert!(conversion.diagnostics.is_empty());
}

#[test]
fn multiline_code_without_inline_r_marker_has_no_new_diagnostic() {
    let conversion = convert("`a\nb`");
    assert_serialized_body(conversion.fragment.nodes, r#"\verb{a b}"#);
    assert!(conversion.diagnostics.is_empty());
}

#[test]
fn origins_cross_physical_roxygen_lines() {
    let conversion = convert_markdown(&sourced("first\nsecond", &[(0, 0, 6), (6, 9, 15)]));
    assert_eq!(conversion.fragment.nodes.len(), 2);
    assert_eq!(
        conversion.fragment.origins[0].spans,
        vec![
            Span::new(FileId::new(0), TextRange::new(0, 6)),
            Span::new(FileId::new(0), TextRange::new(9, 15)),
        ]
    );
    assert_eq!(conversion.fragment.origins[0].path, FragmentPath::root(0));
    assert_eq!(conversion.fragment.origins[1].path, FragmentPath::root(1));
    assert_eq!(
        conversion.fragment.origins[1].spans,
        conversion.fragment.origins[0].spans
    );
}

#[test]
fn nested_table_envelope_suppression_remains_table_specific() {
    let frames = vec![Frame::new(FrameKind::Unsupported { name: "table".to_owned(), start: 0 })];
    assert!(is_nested_table_envelope(&frames, "table"));
    assert!(!is_nested_table_envelope(&frames, "image"));
}

#[test]
fn parseable_inline_code_is_code_with_r_code_leaf() {
    let conversion = convert_markdown(&value("`x + 1`"));
    assert_eq!(
        conversion.fragment.nodes,
        vec![rd_ast::RdNode::tagged(
            RdTag::Code,
            None,
            vec![rd_ast::RdNode::RCode("x + 1".into())],
        )]
    );
    assert!(conversion.diagnostics.is_empty());
    assert_serialized_body(conversion.fragment.nodes, r"\code{x + 1}");
}

#[test]
fn a_percent_in_inline_code_cannot_swallow_its_closing_brace() {
    let conversion = convert_markdown(&value("`a %in% b`"));
    assert_serialized_body(conversion.fragment.nodes, r"\code{a \%in\% b}");
}

#[test]
fn unparseable_inline_code_is_verb() {
    let conversion = convert_markdown(&value("`not valid R %`"));
    assert_eq!(
        conversion.fragment.nodes,
        vec![rd_ast::RdNode::tagged(
            RdTag::Verb,
            None,
            vec![rd_ast::RdNode::Verb("not valid R %".into())],
        )]
    );
    assert!(conversion.diagnostics.is_empty());
    assert_serialized_body(conversion.fragment.nodes, r"\verb{not valid R \%}");
}

#[test]
fn writer_invalid_r_code_span_falls_back_to_verbatim() {
    let conversion = convert_markdown(&value(r#"`"unterminated`"#));

    assert_eq!(
        conversion.fragment.nodes,
        vec![rd_ast::RdNode::tagged(
            RdTag::Verb,
            None,
            vec![rd_ast::RdNode::Verb(r#""unterminated"#.into())],
        )]
    );
    assert!(conversion.diagnostics.is_empty());
    let body = serialize(conversion.fragment.nodes);
    assert_eq!(body, r#"\verb{"unterminated}"#);
}

#[test]
fn single_expression_rule_selects_code_or_verb() {
    let cases = [
        ("x; y", RdTag::Verb),
        ("_x", RdTag::Verb),
        ("x;", RdTag::Code),
        ("x + 1", RdTag::Code),
        ("x |> f(_)", RdTag::Code),
        ("# note", RdTag::Verb),
        (" ", RdTag::Verb),
    ];

    for (code, tag) in cases {
        let conversion = convert_markdown(&value(&format!("`{code}`")));
        assert_eq!(
            conversion.fragment.nodes[0]
                .as_tagged()
                .map(|tagged| tagged.tag()),
            Some(&tag),
            "classifying {code:?}"
        );
        assert!(conversion.diagnostics.is_empty());
    }
}

#[test]
fn trailing_semicolon_verbatim_output_is_serialized_as_rd() {
    let conversion = convert_markdown(&value("`x; y`"));
    assert_serialized_body(conversion.fragment.nodes, r"\verb{x; y}");
}

#[test]
fn special_inline_tokens_are_code() {
    for token in ["+", "if", "%in%", "[["] {
        let conversion = convert_markdown(&value(&format!("`{token}`")));
        assert_eq!(
            conversion.fragment.nodes,
            vec![rd_ast::RdNode::tagged(
                RdTag::Code,
                None,
                vec![rd_ast::RdNode::RCode(token.into())],
            )],
            "classifying {token:?}"
        );
        assert!(conversion.diagnostics.is_empty());
    }
}

#[test]
fn inline_evaluation_forms_are_diagnosed_and_recovered_as_verb() {
    for code in ["r 1 + 1", "Rd foo()"] {
        let conversion = convert_markdown(&value(&format!("`{code}`")));
        assert_eq!(
            conversion.fragment.nodes,
            vec![rd_ast::RdNode::tagged(
                RdTag::Verb,
                None,
                vec![rd_ast::RdNode::Verb(code.into())],
            )]
        );
        assert_eq!(conversion.diagnostics.len(), 1);
        assert_eq!(
            conversion
                .diagnostics
                .iter()
                .next()
                .expect("inline evaluation diagnostic")
                .code,
            DiagnosticCode::UnsupportedInlineR
        );
    }
}

#[test]
fn fenced_code_preserves_body_and_serializes() {
    let conversion = convert_markdown(&value("```\nline 1\n\n{ braces } \\\\ path 50%\n```"));
    assert_eq!(
        conversion.fragment.nodes,
        vec![rd_ast::RdNode::tagged(
            RdTag::Preformatted,
            None,
            vec![
                rd_ast::RdNode::Verb("line 1\n".into()),
                rd_ast::RdNode::Verb("\n".into()),
                rd_ast::RdNode::Verb("{ braces } \\\\ path 50%\n".into()),
            ],
        )]
    );
    assert!(conversion.diagnostics.is_empty());
    assert_serialized_body(
        conversion.fragment.nodes,
        "\\preformatted{line 1\n\n\\{ braces \\} \\\\\\\\ path 50\\%\n}",
    );
}

#[test]
fn indented_code_has_the_same_shape_as_fenced_code() {
    let fenced = convert_markdown(&value("```\nline 1\n\nline 2\n```"));
    let indented = convert_markdown(&value("    line 1\n\n    line 2\n"));
    assert_eq!(indented.fragment.nodes, fenced.fragment.nodes);
    assert!(indented.diagnostics.is_empty());
    assert_serialized_body(
        indented.fragment.nodes,
        "\\preformatted{line 1\n\nline 2\n}",
    );
}

#[test]
fn executable_r_chunk_is_not_evaluated() {
    let conversion = convert_markdown(&value("```{r}\n1 + 1\n```"));
    assert_eq!(
        conversion.fragment.nodes,
        vec![rd_ast::RdNode::tagged(
            RdTag::Preformatted,
            None,
            vec![rd_ast::RdNode::Verb("1 + 1\n".into())],
        )]
    );
    assert_eq!(conversion.diagnostics.len(), 1);
    assert_eq!(
        conversion
            .diagnostics
            .iter()
            .next()
            .expect("chunk diagnostic")
            .code,
        DiagnosticCode::UnsupportedInlineR
    );
}

#[test]
fn inline_code_nests_inside_emphasis_without_adjacent_leaves() {
    let conversion = convert_markdown(&value("*before `x` after*"));
    assert_eq!(
        conversion.fragment.nodes,
        vec![rd_ast::RdNode::tagged(
            RdTag::Emph,
            None,
            vec![
                rd_ast::RdNode::Text("before ".into()),
                rd_ast::RdNode::tagged(
                    RdTag::Code,
                    None,
                    vec![rd_ast::RdNode::RCode("x".into())],
                ),
                rd_ast::RdNode::Text(" after".into()),
            ],
        )]
    );
}

#[test]
fn bullet_list_uses_zero_child_markers_and_sibling_bodies() {
    let conversion = convert_markdown(&value("- A\n- B"));
    assert_eq!(
        conversion.fragment.nodes,
        vec![rd_ast::RdNode::tagged(
            RdTag::Itemize,
            None,
            vec![
                rd_ast::RdNode::Text("\n".into()),
                rd_ast::RdNode::tagged(RdTag::Item, None, vec![]),
                rd_ast::RdNode::Text(" A\n".into()),
                rd_ast::RdNode::tagged(RdTag::Item, None, vec![]),
                rd_ast::RdNode::Text(" B\n".into()),
            ],
        )]
    );
    assert!(conversion.diagnostics.is_empty());
}

#[test]
fn ordered_list_uses_enumerate_and_marker_siblings() {
    let conversion = convert_markdown(&value("1. A\n2. B"));
    assert_eq!(
        conversion.fragment.nodes,
        vec![rd_ast::RdNode::tagged(
            RdTag::Enumerate,
            None,
            vec![
                rd_ast::RdNode::Text("\n".into()),
                rd_ast::RdNode::tagged(RdTag::Item, None, vec![]),
                rd_ast::RdNode::Text(" A\n".into()),
                rd_ast::RdNode::tagged(RdTag::Item, None, vec![]),
                rd_ast::RdNode::Text(" B\n".into()),
            ],
        )]
    );
    assert!(conversion.diagnostics.is_empty());
}

#[test]
fn nested_list_is_a_child_of_the_item_body() {
    let conversion = convert_markdown(&value("- outer\n  - inner"));
    assert_eq!(
        conversion.fragment.nodes,
        vec![rd_ast::RdNode::tagged(
            RdTag::Itemize,
            None,
            vec![
                rd_ast::RdNode::Text("\n".into()),
                rd_ast::RdNode::tagged(RdTag::Item, None, vec![]),
                rd_ast::RdNode::Text(" outer\n".into()),
                rd_ast::RdNode::tagged(
                    RdTag::Itemize,
                    None,
                    vec![
                        rd_ast::RdNode::Text("\n".into()),
                        rd_ast::RdNode::tagged(RdTag::Item, None, vec![]),
                        rd_ast::RdNode::Text(" inner\n".into()),
                    ],
                ),
                rd_ast::RdNode::Text("\n".into()),
            ],
        )]
    );
    assert!(conversion.diagnostics.is_empty());
}

#[test]
fn item_body_keeps_paragraph_emphasis_and_inline_code_structure() {
    let conversion = convert_markdown(&value("- paragraph with *emphasis* and `x + 1`"));
    assert_eq!(
        conversion.fragment.nodes,
        vec![rd_ast::RdNode::tagged(
            RdTag::Itemize,
            None,
            vec![
                rd_ast::RdNode::Text("\n".into()),
                rd_ast::RdNode::tagged(RdTag::Item, None, vec![]),
                rd_ast::RdNode::Text(" paragraph with ".into()),
                rd_ast::RdNode::tagged(
                    RdTag::Emph,
                    None,
                    vec![rd_ast::RdNode::Text("emphasis".into())],
                ),
                rd_ast::RdNode::Text(" and ".into()),
                rd_ast::RdNode::tagged(
                    RdTag::Code,
                    None,
                    vec![rd_ast::RdNode::RCode("x + 1".into())],
                ),
                rd_ast::RdNode::Text("\n".into()),
            ],
        )]
    );
    assert!(conversion.diagnostics.is_empty());
}

#[test]
fn loose_and_tight_lists_have_the_same_marker_shape() {
    let tight = convert_markdown(&value("- one\n- two"));
    let loose = convert_markdown(&value("- one\n\n- two"));
    assert_eq!(tight.fragment.nodes, loose.fragment.nodes);
    assert!(tight.diagnostics.is_empty());
    assert!(loose.diagnostics.is_empty());
}

#[test]
fn ordered_list_start_is_diagnosed_but_content_is_retained() {
    let conversion = convert_markdown(&value("3. three\n4. four"));
    assert_eq!(
        conversion.fragment.nodes,
        vec![rd_ast::RdNode::tagged(
            RdTag::Enumerate,
            None,
            vec![
                rd_ast::RdNode::Text("\n".into()),
                rd_ast::RdNode::tagged(RdTag::Item, None, vec![]),
                rd_ast::RdNode::Text(" three\n".into()),
                rd_ast::RdNode::tagged(RdTag::Item, None, vec![]),
                rd_ast::RdNode::Text(" four\n".into()),
            ],
        )]
    );
    assert_eq!(conversion.diagnostics.len(), 1);
    assert_eq!(
        conversion
            .diagnostics
            .iter()
            .next()
            .expect("ordered list diagnostic")
            .code,
        DiagnosticCode::UnsupportedMarkdownConstruct
    );
}

#[test]
fn loose_list_item_paragraphs_do_not_double_their_boundary() {
    let conversion = convert_markdown(&value("- A\n\n- B"));
    assert_eq!(
        conversion.fragment.nodes,
        vec![rd_ast::RdNode::tagged(
            RdTag::Itemize,
            None,
            vec![
                rd_ast::RdNode::Text("\n".into()),
                rd_ast::RdNode::tagged(RdTag::Item, None, vec![]),
                rd_ast::RdNode::Text(" A\n".into()),
                rd_ast::RdNode::tagged(RdTag::Item, None, vec![]),
                rd_ast::RdNode::Text(" B\n".into()),
            ],
        )]
    );
}

#[test]
fn bullet_list_serialization_is_parseable_and_escapes_percent() {
    let conversion = convert_markdown(&value("- first\n- *50%*"));
    assert_serialized_body(
        conversion.fragment.nodes,
        "\\itemize{\n\\item first\n\\item \\emph{50\\%}\n}",
    );
}

#[test]
fn nested_list_serialization_is_parseable() {
    let conversion = convert_markdown(&value("- outer\n  - inner"));
    assert_serialized_body(
        conversion.fragment.nodes,
        "\\itemize{\n\\item outer\n\\itemize{\n\\item inner\n}\n}",
    );
}

#[test]
fn ordered_list_serialization_is_parseable() {
    let conversion = convert_markdown(&value("1. one\n2. two"));
    assert_serialized_body(
        conversion.fragment.nodes,
        "\\enumerate{\n\\item one\n\\item two\n}",
    );
}

#[test]
fn minimal_table_has_two_groups_and_row_markers() {
    let conversion = convert("| A | B |\n| --- | --- |\n| C | D |");
    assert_eq!(
        conversion.fragment.nodes,
        vec![RdNode::tagged(
            RdTag::Tabular,
            None,
            vec![
                RdNode::group(vec![RdNode::Text("ll".into())]),
                RdNode::group(vec![
                    RdNode::Text("\n".into()),
                    RdNode::Text("   A ".into()),
                    RdNode::tagged(RdTag::Tab, None, vec![]),
                    RdNode::Text(" B ".into()),
                    RdNode::tagged(RdTag::Cr, None, vec![]),
                    RdNode::Text("\n".into()),
                    RdNode::Text("   C ".into()),
                    RdNode::tagged(RdTag::Tab, None, vec![]),
                    RdNode::Text(" D ".into()),
                    RdNode::tagged(RdTag::Cr, None, vec![]),
                    RdNode::Text("\n".into()),
                ]),
            ],
        )]
    );
    assert!(conversion.diagnostics.is_empty());
    let inspected = view(&conversion);
    assert_eq!(inspected.columns().len(), 2);
    assert_eq!(inspected.rows().len(), 3);
    assert!(
        inspected.rows()[..2]
            .iter()
            .all(|row| row.cells().len() == 2)
    );
}

#[test]
fn all_alignments_lower_to_the_colspec_including_default_left() {
    let conversion = convert(
        "| default | left | center | right |\n| --- | :--- | :---: | ---: |\n| a | b | c | d |",
    );
    assert_eq!(
        table(&conversion).children()[0]
            .as_group()
            .unwrap()
            .children(),
        &[RdNode::Text("llcr".into())]
    );
}

#[test]
fn header_only_table_is_an_ordinary_first_row() {
    let conversion = convert("| A | B |\n| --- | --- |");
    let inspected = view(&conversion);
    assert_eq!(inspected.rows().len(), 2);
    assert_eq!(inspected.rows()[0].cells().len(), 2);
    assert!(matches!(body(&conversion)[4], RdNode::Tagged(_)));
}

#[test]
fn leading_empty_cell_uses_the_first_body_anchor() {
    let conversion = convert("| A | B |\n| --- | --- |\n| | C |");
    let inspected = view(&conversion);
    assert_eq!(inspected.rows()[1].cells()[0].path(), &cell_path(5));
    assert_eq!(
        inspected.rows()[1].cells()[0].nodes(),
        &[RdNode::Text("\n".into()), RdNode::Text("    ".into())]
    );
}

#[test]
fn middle_empty_cell_uses_the_separator_after_the_first_cell() {
    let conversion = convert("| A | B | C |\n| --- | --- | --- |\n| a | | c |");
    let inspected = view(&conversion);
    assert_eq!(inspected.rows()[1].cells()[1].path(), &cell_path(10));
    assert_eq!(
        inspected.rows()[1].cells()[1].nodes(),
        &[RdNode::Text("  ".into())]
    );
}

#[test]
fn trailing_empty_cell_uses_the_row_end_anchor() {
    let conversion = convert("| A | B |\n| --- | --- |\n| a | |");
    let inspected = view(&conversion);
    assert_eq!(inspected.rows()[1].cells()[1].path(), &cell_path(8));
    assert_eq!(
        inspected.rows()[1].cells()[1].nodes(),
        &[RdNode::Text("  ".into())]
    );
}

#[test]
fn an_entirely_empty_row_keeps_each_empty_cell() {
    let conversion = convert("| A | B |\n| --- | --- |\n| | |");
    let inspected = view(&conversion);
    assert_eq!(inspected.rows()[1].cells().len(), 2);
    assert!(inspected.rows()[1].cells().iter().all(|cell| {
        matches!(cell.nodes().last(), Some(RdNode::Text(text)) if text.ends_with(' '))
    }));
}

#[test]
fn inline_markup_and_code_remain_structured_inside_cells() {
    let conversion = convert(
        "| *em* | **strong** | [link](url) | `x + 1` | `a % { }` |\n| --- | --- | --- | --- | --- |\n| *e* | **s** | [l](url) | `y` | `b % { }` |",
    );
    let inspected = view(&conversion);
    let row = &inspected.rows()[1];
    let first_tag = |nodes: &[RdNode]| {
        nodes
            .iter()
            .find_map(RdNode::as_tagged)
            .expect("tagged cell content")
            .tag()
            .clone()
    };
    assert_eq!(first_tag(row.cells()[0].nodes()), RdTag::Emph);
    assert_eq!(first_tag(row.cells()[1].nodes()), RdTag::Strong);
    assert_eq!(first_tag(row.cells()[2].nodes()), RdTag::Href);
    assert_eq!(first_tag(row.cells()[3].nodes()), RdTag::Code);
    assert_eq!(first_tag(row.cells()[4].nodes()), RdTag::Verb);
    assert!(conversion.diagnostics.is_empty());
}

#[test]
fn raw_eqn_is_spliced_into_a_cell() {
    let conversion = convert(&[
        r"| \eqn{x^2} |",
        "\n",
        "| --- |\n",
        r"| \eqn{y^2} |"
    ].concat());
    let inspected = view(&conversion);
    let row = &inspected.rows()[1];
    assert!(row.cells()[0].nodes().iter().any(|node| {
        node.as_tagged()
            .is_some_and(|tagged| tagged.tag() == &RdTag::Eqn)
    }));
    assert!(conversion.diagnostics.is_empty());
}

#[test]
fn table_keeps_a_paragraph_boundary_before_following_prose() {
    let conversion = convert("| A |\n| --- |\n| B |\n\nprose");
    assert!(matches!(conversion.fragment.nodes[0], RdNode::Tagged(_)));
    assert_eq!(conversion.fragment.nodes[1], RdNode::Text("\n".into()));
    assert_eq!(conversion.fragment.nodes[2], RdNode::Text("\n".into()));
    assert_eq!(conversion.fragment.nodes[3], RdNode::Text("prose".into()));
}

#[test]
fn table_inside_a_list_item_composes_with_the_existing_frame_model() {
    let conversion = convert("- item\n\n  | A | B |\n  | --- | --- |\n  | C | D |");
    let itemize = conversion.fragment.nodes[0].as_tagged().unwrap();
    assert_eq!(itemize.tag(), &RdTag::Itemize);
    assert!(itemize.children().iter().any(|node| {
        node.as_tagged()
            .is_some_and(|tagged| tagged.tag() == &RdTag::Tabular)
    }));
    assert!(conversion.diagnostics.is_empty());
}

#[test]
fn serialization_supplies_marker_whitespace_and_r_accepts_the_table() {
    assert_serialized_body(
        convert("| A | B |\n| --- | --- |\n| C | D |")
            .fragment
            .nodes,
        &[
            r"\tabular{ll}{",
            "\n",
            r"   A \tab B \cr",
            "\n",
            r"   C \tab D \cr",
            "\n}"
        ].concat(),
    );
    assert_serialized_body(
        convert("| | B |\n| --- | --- |\n| A | |").fragment.nodes,
        &[
            r"\tabular{ll}{",
            "\n",
            r"    \tab B \cr",
            "\n",
            r"   A \tab  \cr",
            "\n}"
        ].concat(),
    );
}

#[test]
fn rows_are_joined_by_a_newline_that_never_terminates_the_body() {
    let conversion = convert("| A |\n| --- |\n| B |\n| C |");
    let inspected = view(&conversion);
    assert_eq!(inspected.rows().len(), 4);
    assert!(
        inspected
            .rows()
            .iter()
            .take(3)
            .all(|row| row.cells().len() == 1)
    );
    assert_serialized_body(
        conversion.fragment.nodes,
        &[
            r"\tabular{l}{",
            "\n",
            r"   A \cr",
            "\n",
            r"   B \cr",
            "\n",
            r"   C \cr",
            "\n}"
        ].concat(),
    );
}

#[test]
fn a_later_row_starting_with_an_empty_cell_still_round_trips() {
    assert_serialized_body(
        convert("| A | B |\n| --- | --- |\n| | C |").fragment.nodes,
        &[
            r"\tabular{ll}{",
            "\n",
            r"   A \tab B \cr",
            "\n",
            r"    \tab C \cr",
            "\n}"
        ].concat(),
    );
}

#[test]
fn serialization_escapes_sensitive_cell_content() {
    assert_serialized_body(
        convert(&[
            r"| 50% {brace} \\ path |",
            "\n",
            "| --- |\n",
            r"| 50% {brace} \\ path |"
        ].concat())
        .fragment
        .nodes,
        &[
            r"\tabular{l}{",
            "\n",
            r"   50\% \{brace\} \\ path \cr",
            "\n",
            r"   50\% \{brace\} \\ path \cr",
            "\n}"
        ].concat(),
    );
}

#[test]
fn every_table_node_has_an_origin_and_cell_text_keeps_its_source_span() {
    let conversion = convert("| A | B |\n| --- | --- |\n| C | D |");
    let mut paths = Vec::new();
    let mut root = vec![FragmentPathSegment::Child(0)];
    collect_paths(&conversion.fragment.nodes[0], &mut root, &mut paths);
    assert_eq!(conversion.fragment.origins.len(), paths.len());
    for path in paths {
        assert!(
            conversion
                .fragment
                .origins
                .iter()
                .any(|origin| origin.path.segments() == path)
        );
    }

    let cell_text_origin = conversion
        .fragment
        .origins
        .iter()
        .find(|origin| {
            origin.path.segments()
                == [
                    FragmentPathSegment::Child(0),
                    FragmentPathSegment::Child(1),
                    FragmentPathSegment::Child(0),
                ]
        })
        .expect("first cell text origin");
    assert!(
        cell_text_origin
            .spans
            .iter()
            .any(|span| span.range.start() <= 2 && span.range.end() >= 3)
    );
}

#[test]
fn plain_text_is_one_text_node() {
    let conversion = convert_markdown(&value("plain text"));
    assert_eq!(
        conversion.fragment.nodes,
        vec![rd_ast::RdNode::Text("plain text".into())]
    );
    assert!(conversion.diagnostics.is_empty());
}

#[test]
fn paragraphs_become_writer_canonical_text_leaves() {
    let conversion = convert_markdown(&value("first\n\nsecond"));
    assert_eq!(
        conversion.fragment.nodes,
        vec![
            rd_ast::RdNode::Text("first\n".into()),
            rd_ast::RdNode::Text("\n".into()),
            rd_ast::RdNode::Text("second".into()),
        ]
    );
    assert_eq!(
        serialize(conversion.fragment.nodes),
        "first\n\nsecond"
    );
}

#[test]
fn level_two_heading_with_paragraph_becomes_a_subsection() {
    let conversion = convert_markdown(&value("## Title\n\nBody"));
    assert_serialized_body(conversion.fragment.nodes, "\\subsection{Title}{\n\nBody\n}");
    assert!(conversion.diagnostics.is_empty());
}

#[test]
fn consecutive_headings_close_the_first_subsection_before_the_second() {
    let conversion = convert_markdown(&value("## A\n\none\n\n## B\n\ntwo"));
    assert_serialized_body(
        conversion.fragment.nodes,
        "\\subsection{A}{\n\none\n}\n\n\\subsection{B}{\n\ntwo\n}",
    );
    assert!(conversion.diagnostics.is_empty());
}

#[test]
fn heading_levels_close_nested_subsections_in_stack_order() {
    let conversion = convert_markdown(&value("## A\n\nouter\n\n### B\n\ninner\n\n## C\n\nlast"));
    assert_serialized_body(
        conversion.fragment.nodes,
        "\\subsection{A}{\n\nouter\n\\subsection{B}{\n\ninner\n}\n\n}\n\n\\subsection{C}{\n\nlast\n}",
    );
    assert!(conversion.diagnostics.is_empty());
}

#[test]
fn heading_title_uses_the_existing_link_and_code_conversions() {
    let conversion = convert_markdown(&value("## [list] and `x + 1`\n\nBody"));
    assert_serialized_body(
        conversion.fragment.nodes,
        "\\subsection{\\link{list} and \\code{x + 1}}{\n\nBody\n}",
    );
    assert!(conversion.diagnostics.is_empty());
}

#[test]
fn heading_at_end_of_text_still_has_a_closed_subsection() {
    let conversion = convert_markdown(&value("## Last"));
    assert_serialized_body(conversion.fragment.nodes, "\\subsection{Last}{\n}");
    assert!(conversion.diagnostics.is_empty());
}

#[test]
fn level_one_heading_is_flattened_with_a_warning() {
    let conversion = convert_markdown(&value("# Heading\n\nBody"));
    assert_serialized_body(conversion.fragment.nodes, "Heading\n\nBody");
    let diagnostics = conversion.diagnostics.iter().collect::<Vec<_>>();
    assert_eq!(diagnostics.len(), 1);
    assert_eq!(
        diagnostics[0].code,
        DiagnosticCode::UnsupportedMarkdownHeading
    );
    assert_eq!(
        diagnostics[0].severity,
        Severity::Warning
    );
    assert!(!conversion.diagnostics.has_errors());
    assert_eq!(
        diagnostics[0].help.as_deref(),
        Some("use an explicit @section Title: contribution to preserve section structure")
    );
}

#[test]
fn consecutive_level_one_headings_are_flattened_in_source_order() {
    let conversion = convert_markdown(&value("# First\n\nintro\n\n# Second\n\nlast"));
    assert_serialized_body(
        conversion.fragment.nodes,
        "First\n\nintro\n\nSecond\n\nlast",
    );
    assert_eq!(conversion.diagnostics.len(), 2);
}

#[test]
fn level_one_heading_preserves_inline_conversions_during_recovery() {
    let conversion = convert_markdown(&value("# [list] and `x + 1`\n\nBody"));
    assert_serialized_body(
        conversion.fragment.nodes,
        "\\link{list} and \\code{x + 1}\n\nBody",
    );
    assert_eq!(conversion.diagnostics.len(), 1);
}

#[test]
fn empty_level_one_heading_is_flattened_with_a_warning() {
    let conversion = convert_markdown(&value("#\n\nBody"));
    assert_serialized_body(conversion.fragment.nodes, "Body");
    assert_eq!(conversion.diagnostics.len(), 1);
}

#[test]
fn level_jump_and_level_one_heading_keep_existing_subsection_rules() {
    let conversion = convert_markdown(&value("# Top\n\n### Deep\n\nbody\n\n# Next\n\nlast"));
    assert_serialized_body(
        conversion.fragment.nodes,
        "Top\n\\subsection{Deep}{\n\nbody\n\nNext\n\nlast\n}",
    );
    assert_eq!(conversion.diagnostics.len(), 2);
}

#[test]
fn level_one_heading_does_not_close_an_existing_subsection() {
    let conversion = convert_markdown(&value("## Before\n\nbody\n\n# Top\n\nlast"));
    let body = serialize(conversion.fragment.nodes);
    assert_eq!(body, "\\subsection{Before}{\n\nbody\n\nTop\n\nlast\n}");
    assert_eq!(conversion.diagnostics.len(), 1);
}

#[test]
fn level_one_heading_in_a_block_quote_stays_in_outer_recovery() {
    let conversion = convert_markdown(&value("> # Head\n\nafter"));
    let messages = diagnostic_messages(&conversion);
    assert_serialized_body(conversion.fragment.nodes, "Head\n\nafter");
    assert_eq!(
        messages,
        vec!["unsupported Markdown construct: block quote".to_owned()]
    );
}

#[test]
fn level_one_heading_in_a_list_item_stays_in_list_recovery() {
    let conversion = convert_markdown(&value("- # Head\n- second"));
    let messages = diagnostic_messages(&conversion);
    assert_serialized_body(
        conversion.fragment.nodes,
        "\\itemize{\n\\item Head\n\\item second\n}",
    );
    assert_eq!(
        messages,
        vec!["level-1 Markdown headings are flattened into prose".to_owned()]
    );
}

#[test]
fn unsupported_image_inside_block_quote_reports_both_constructs() {
    let conversion = convert_markdown(&value("> ![alt](img.png)"));
    let messages = diagnostic_messages(&conversion);
    assert_serialized_body(conversion.fragment.nodes, "alt");
    assert_eq!(
        messages,
        vec![
            "unsupported Markdown construct: image".to_owned(),
            "unsupported Markdown construct: block quote".to_owned(),
        ]
    );
}

#[test]
fn heading_inside_block_quote_with_a_supported_list_stays_in_outer_recovery() {
    let conversion = convert_markdown(&value("> - ## Head"));
    let messages = diagnostic_messages(&conversion);
    assert_serialized_body(conversion.fragment.nodes, "\\itemize{\n\\item Head\n}");
    assert_eq!(
        messages,
        vec!["unsupported Markdown construct: block quote".to_owned()]
    );
}

#[test]
fn heading_in_list_item_is_flattened_without_escaping_the_list() {
    let conversion = convert_markdown(&value("- ## Head\n- second\n\nafter"));
    let messages = diagnostic_messages(&conversion);
    assert_serialized_body(
        conversion.fragment.nodes,
        "\\itemize{\n\\item Head\n\\item second\n}\n\nafter",
    );
    assert_eq!(
        messages,
        vec!["unsupported Markdown construct: heading".to_owned()]
    );
}

#[test]
fn heading_in_block_quote_is_covered_by_the_outer_recovery() {
    let conversion = convert_markdown(&value("> ## Head\n\nafter"));
    let messages = diagnostic_messages(&conversion);
    assert_serialized_body(conversion.fragment.nodes, "Head\n\nafter");
    assert_eq!(
        messages,
        vec!["unsupported Markdown construct: block quote".to_owned()]
    );
}

#[test]
fn deeper_heading_in_list_item_is_flattened() {
    let conversion = convert_markdown(&value("- ### Nested"));
    assert_serialized_body(conversion.fragment.nodes, "\\itemize{\n\\item Nested\n}");
    assert_eq!(conversion.diagnostics.len(), 1);
}

#[test]
fn both_break_kinds_become_newlines() {
    let conversion = convert_markdown(&value("soft\nbreak\nhard  \nbreak"));
    assert_eq!(
        conversion.fragment.nodes,
        vec![
            rd_ast::RdNode::Text("soft\n".into()),
            rd_ast::RdNode::Text("break\n".into()),
            rd_ast::RdNode::Text("hard\n".into()),
            rd_ast::RdNode::Text("break".into()),
        ]
    );
}

#[test]
fn nested_strong_and_emphasis_have_direct_children() {
    let conversion = convert_markdown(&value("**outer *inner***"));
    assert_eq!(
        conversion.fragment.nodes,
        vec![rd_ast::RdNode::tagged(
            RdTag::Strong,
            None,
            vec![
                rd_ast::RdNode::Text("outer ".into()),
                rd_ast::RdNode::tagged(
                    RdTag::Emph,
                    None,
                    vec![rd_ast::RdNode::Text("inner".into())],
                )
            ],
        )]
    );
}

#[test]
fn adjacent_text_leaves_are_newline_terminated() {
    for text in [
        "before *middle* after",
        "One.\n\nTwo.",
        "One.\n\nTwo.\n\nThree.",
    ] {
        let conversion = convert_markdown(&value(text));
        let pairs = conversion
            .fragment
            .nodes
            .windows(2)
            .filter(|nodes| matches!(nodes, [rd_ast::RdNode::Text(_), rd_ast::RdNode::Text(_)]))
            .count();
        assert!(
            conversion
                .fragment
                .nodes
                .windows(2)
                .all(|nodes| match nodes {
                    [rd_ast::RdNode::Text(previous), rd_ast::RdNode::Text(_)] => {
                        previous.ends_with('\n')
                    }
                    _ => true,
                }),
            "{text:?} has an adjacent text pair the writer would reject"
        );
        if text.contains("\n\n") {
            assert!(pairs > 0, "{text:?} should exercise the adjacency rule");
        }
    }
}

#[test]
fn text_is_not_pre_escaped() {
    let text = r"literal \ % {} 日本語";
    let conversion = convert_markdown(&value(text));
    assert_eq!(
        conversion.fragment.nodes,
        vec![rd_ast::RdNode::Text(text.into())]
    );
}

#[test]
fn writer_and_r_accept_converted_text() {
    let conversion = convert_markdown(&value(r"100% and a \ backslash {brace}"));
    let document = RdDocument::from(vec![rd_ast::RdNode::tagged(
        RdTag::Description,
        None,
        conversion.fragment.nodes.clone(),
    )]);
    let serialized = rd_writer::Writer::new(rd_writer::WriterOptions::default())
        .write_document(&document)
        .expect("writer accepts the fragment");
    let body = rd_writer::Writer::new(rd_writer::WriterOptions::default())
        .write_document(&RdDocument::from(conversion.fragment.nodes))
        .expect("writer accepts the fragment body");
    assert_eq!(body, r"100\% and a \\ backslash \{brace\}");
    assert!(serialized.contains(r"\description{"));

    let conversion = convert_markdown(&value("*emphasis 50% off* trailing"));
    let body = rd_writer::Writer::new(rd_writer::WriterOptions::default())
        .write_document(&RdDocument::from(conversion.fragment.nodes))
        .expect("writer accepts the emphasis fragment");
    assert_eq!(body, r"\emph{emphasis 50\% off} trailing");
}

#[test]
fn input_that_no_rd_leaf_can_hold_is_diagnosed_rather_than_panicking() {
    let conversion = convert_markdown(&value("Value \\eqn{{\nx}} end."));
    assert_eq!(
        conversion.fragment.nodes,
        vec![
            rd_ast::RdNode::Text("Value \\eqn{{\n".into()),
            rd_ast::RdNode::Text("x}} end.".into()),
        ]
    );
    assert!(
        conversion
            .diagnostics
            .iter()
            .any(|diagnostic| diagnostic.code
                == DiagnosticCode::UnsupportedRawRdMacro)
    );

    let conversion = convert_markdown(&value("Value \\eqn{x\ny} end."));
    assert!(conversion.diagnostics.is_empty());
    assert!(matches!(
        conversion.fragment.nodes.get(1),
        Some(rd_ast::RdNode::Tagged(tagged)) if *tagged.tag() == rd_ast::RdTag::Eqn
    ));
}

#[test]
fn a_link_target_no_rd_option_can_hold_keeps_its_text() {
    for text in ["[text][pkg::foo%5Dbar]", "[text][pkg::foo%0Dbar]"] {
        let conversion = convert_markdown(&value(text));
        assert_eq!(
            conversion.fragment.nodes,
            vec![rd_ast::RdNode::Text("text".into())],
            "{text}"
        );
        assert!(
            conversion
                .diagnostics
                .iter()
                .any(|diagnostic| diagnostic.code
                    == DiagnosticCode::UnsupportedMarkdownConstruct),
            "{text}"
        );
    }

    let conversion = convert_markdown(&value("[`x + 1`][pkg::foo%5Dbar]"));
    assert_eq!(
        conversion.fragment.nodes,
        vec![rd_ast::RdNode::tagged(
            rd_ast::RdTag::Code,
            None,
            vec![rd_ast::RdNode::RCode("x + 1".into())],
        )]
    );
    let conversion = convert_markdown(&value("[`not r code`][pkg::foo%5Dbar]"));
    assert_eq!(
        conversion.fragment.nodes,
        vec![rd_ast::RdNode::tagged(
            rd_ast::RdTag::Verb,
            None,
            vec![rd_ast::RdNode::Verb("not r code".into())],
        )]
    );

    let conversion = convert_markdown(&value("[text][pkg::foo]"));
    assert!(conversion.diagnostics.is_empty());
    assert!(matches!(
        conversion.fragment.nodes.first(),
        Some(rd_ast::RdNode::Tagged(tagged)) if *tagged.tag() == rd_ast::RdTag::Link
    ));
}

#[test]
fn ordinary_link_is_lowered_without_an_unsupported_diagnostic() {
    let conversion = convert_markdown(&value("before [code](url) after"));
    assert_eq!(
        conversion.fragment.nodes,
        vec![
            rd_ast::RdNode::Text("before ".into()),
            rd_ast::RdNode::tagged(
                rd_ast::RdTag::Href,
                None,
                vec![
                    rd_ast::RdNode::group(vec![rd_ast::RdNode::Verb("url".into())]),
                    rd_ast::RdNode::group(vec![rd_ast::RdNode::Text("code".into())]),
                ],
            ),
            rd_ast::RdNode::Text(" after".into()),
        ]
    );
    assert!(conversion.diagnostics.is_empty());
}

#[test]
fn unsupported_recovery_block_quote_uses_spaces_and_lines() {
    let conversion = convert_markdown(&value("> A\n> B"));
    assert_eq!(
        conversion.fragment.nodes,
        vec![
            rd_ast::RdNode::Text("A\n".into()),
            rd_ast::RdNode::Text("B".into()),
        ]
    );
}

#[test]
fn unsupported_recovery_blocks_separate_from_following_prose() {
    let markdown = "> quoted\n\nprose";
    let conversion = convert_markdown(&value(markdown));
    assert_eq!(
        conversion.fragment.nodes,
        vec![
            rd_ast::RdNode::Text("quoted\n".into()),
            rd_ast::RdNode::Text("\n".into()),
            rd_ast::RdNode::Text("prose".into()),
        ],
        "recovering {markdown:?}"
    );
}

#[test]
fn unsupported_recovery_nested_heading_uses_a_paragraph_boundary() {
    let conversion = convert_markdown(&value("> # Heading\n\nprose"));
    assert_eq!(
        conversion.fragment.nodes,
        vec![
            rd_ast::RdNode::Text("Heading\n".into()),
            rd_ast::RdNode::Text("\n".into()),
            rd_ast::RdNode::Text("prose".into()),
        ]
    );
}

#[test]
fn unsupported_constructs_diagnose_and_keep_recoverable_text() {
    for (markdown, expected) in [
        ("> quoted", vec![rd_ast::RdNode::Text("quoted".into())]),
        (
            "![alt text](image.png)",
            vec![rd_ast::RdNode::Text("alt text".into())],
        ),
        (
            "<span>raw HTML</span>",
            vec![rd_ast::RdNode::Text("<span>raw HTML</span>".into())],
        ),
        (
            "<div>\nraw HTML\n</div>",
            vec![
                rd_ast::RdNode::Text("<div>\n".into()),
                rd_ast::RdNode::Text("raw HTML\n".into()),
                rd_ast::RdNode::Text("</div>".into()),
            ],
        ),
    ] {
        let conversion = convert_markdown(&value(markdown));
        assert_eq!(
            conversion.fragment.nodes, expected,
            "recovering {markdown:?}"
        );
        assert!(
            conversion
                .diagnostics
                .iter()
                .all(|diagnostic| diagnostic.code
                    == DiagnosticCode::UnsupportedMarkdownConstruct),
            "diagnosing {markdown:?}"
        );
        assert!(
            !conversion.diagnostics.is_empty(),
            "missing diagnostic for {markdown:?}"
        );
    }

    let rule = convert_markdown(&value("---"));
    assert!(rule.fragment.nodes.is_empty());
    assert_eq!(rule.diagnostics.len(), 1);
    assert_eq!(
        rule.diagnostics
            .iter()
            .next()
            .expect("rule diagnostic")
            .code,
        DiagnosticCode::UnsupportedMarkdownConstruct
    );
}

#[test]
fn unsupported_block_quote_reports_once_for_the_envelope() {
    let conversion = convert_markdown(&value("> A\n> B"));
    assert_eq!(conversion.diagnostics.len(), 1);
}
