//! Keys of section titles, and physical lines.
use mini_roxygen_core::markdown_conversion::context::{MarkdownContext, UncheckedLinks};
use mini_roxygen_core::markdown_conversion::leaf::physical_line_chunks;
use mini_roxygen_core::markdown_conversion::section_key::SectionTitleKey;
use mini_roxygen_core::markdown_conversion::{markdown_section_key, rd_section_key};
use mini_roxygen_core::rd::{RdMacro, RdNode, RdTag};
use mini_roxygen_core::source::{FileId, Span, TextRange};
use mini_roxygen_core::tags::{MarkdownText, SourcedText};

fn tagged(tag: RdTag, option: Option<Vec<RdNode>>, children: Vec<RdNode>) -> RdNode {
    RdNode::Tagged { tag, option, children }
}

fn condition() -> RdTag {
    RdTag::Known("\\if".to_owned())
}

fn dynamic() -> RdTag {
    RdTag::Known("\\Sexpr".to_owned())
}

fn key(nodes: Vec<RdNode>) -> SectionTitleKey {
    SectionTitleKey::from_rd(&nodes)
}

#[test]
fn structural_presence_markers_preserve_empty_shapes() {
    let without_option = tagged(condition(), None, Vec::new());
    let with_empty_option = tagged(condition(), Some(Vec::new()), Vec::new());
    let with_empty_argument = tagged(condition(), None, vec![RdNode::Group(Vec::new())]);
    assert_ne!(key(vec![without_option]), key(vec![with_empty_option]));
    assert_ne!(
        key(vec![tagged(condition(), None, Vec::new())]),
        key(vec![with_empty_argument]),
    );
}

#[test]
fn transparent_code_leaves_key_as_visible_text() {
    let code = tagged(RdTag::Named(RdMacro::Code), None, vec![RdNode::RCode("A".to_owned())]);
    let verb = tagged(RdTag::Named(RdMacro::Verb), None, vec![RdNode::Verb("A".to_owned())]);

    assert_eq!(key(vec![code]), key(vec![RdNode::Text("A".to_owned())]));
    assert_eq!(key(vec![verb]), key(vec![RdNode::Text("A".to_owned())]));
}

#[test]
fn visible_text_coalesces_across_leaf_kinds() {
    let mixed = vec![
        RdNode::Text("A".to_owned()),
        RdNode::RCode("B".to_owned()),
        RdNode::Verb("C".to_owned()),
    ];
    assert_eq!(key(mixed), key(vec![RdNode::Text("ABC".to_owned())]));
}

#[test]
fn sexpr_remains_structural_against_plain_text() {
    let sexpr =
        || tagged(dynamic(), None, vec![RdNode::Group(vec![RdNode::RCode("A".to_owned())])]);
    let noncanonical_sexpr =
        tagged(dynamic(), None, vec![RdNode::Group(vec![RdNode::Text("A".to_owned())])]);
    assert_ne!(key(vec![sexpr()]), key(vec![RdNode::Text("A".to_owned())]));
    assert_eq!(key(vec![sexpr()]), key(vec![noncanonical_sexpr]));
}

#[test]
fn physical_line_chunks_follow_the_contract_table() {
    let cases = [
        ("", vec![]),
        ("one", vec!["one"]),
        ("one\n", vec!["one\n"]),
        ("one\n\ntwo", vec!["one\n", "\n", "two"]),
        ("\n\n", vec!["\n", "\n"]),
    ];
    for (input, expected) in cases {
        let actual = physical_line_chunks(input);
        assert_eq!(actual, expected, "input {input:?}");
        assert_eq!(actual.concat(), input, "input {input:?}");
    }
}

#[test]
fn title_keys_do_not_depend_on_markup() {
    let place = Span::new(FileId::new(0), TextRange::new(0, 9));
    let title = |text: &str| {
        let value = MarkdownText::new(SourcedText::synthetic(text.to_owned(), place));
        let context =
            MarkdownContext { current_package: None, links: &UncheckedLinks, inline_r_session: None };
        markdown_section_key(&value, &context)
    };
    let plain = rd_section_key(&vec![RdNode::Text("Some title".to_owned())]);
    assert_eq!(title("Some title"), plain);
    assert_eq!(title("Some *title*"), plain);
    assert_eq!(title("`Some` **title**"), plain);
    assert_ne!(title("Another title"), plain);
    assert_eq!(SectionTitleKey::from_text("Some title"), plain);
}
