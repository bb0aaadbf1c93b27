//! Package metadata.
use mini_roxygen_core::model::merge::assembly::build_package_model_with_metadata;
use mini_roxygen_core::package::{
    description_field, description_field_raw, metadata_from_description, metadata_from_fields,
    DescriptionError, DescriptionField, PackageMetadata, PackageMetadataError, ParsedDescription,
};
use mini_roxygen_core::source::SourceMap;

fn parsed(text: &str) -> ParsedDescription {
    let parsed = arity_parser::dcf::parse(text);
    let mut fields = Vec::new();
    for field in parsed.document().fields() {
        fields.push(DescriptionField {
            name: field.name().to_string(),
            name_end: field.name_range().end().into(),
            value_start: field.value_range().start().into(),
            folded: field.folded_value(),
            dependencies: arity_parser::dcf::dependency_entries(&field)
                .into_iter()
                .map(|entry| entry.name.to_string())
                .collect(),
        });
    }
    ParsedDescription { messages: Vec::new(), fields }
}

fn loaded(text: &str) -> PackageMetadata {
    metadata_from_description(text).expect("inputs should load")
}

#[test]
fn depends_and_imports_are_parsed_without_including_suggests_or_r() {
    let metadata = loaded(
        "Package: example\nVersion: 0.0.1\nDepends: R (>= 4.0), dep.one\nImports: dep.two (>= 1.0), dep.three\nSuggests: ignored\n",
    );
    assert_eq!(metadata.dependencies(), &["dep.one", "dep.three", "dep.two"]);
}

#[test]
fn collate_presence_is_recorded_without_interpreting_its_value() {
    for (field, expected) in [
        ("", false),
        ("Collate: a.R\n", true),
        ("Collate: a.R\n b.R\n", true),
        ("Collate:\n", true),
        ("Collate.unix:\n", true),
        ("Collate.windows:\n", true),
        ("Description: text\n Collate: not a field\n", false),
        ("CollateNotes: a.R\n", false),
    ] {
        let metadata = loaded(&format!("Package: example\nVersion: 0.0.1\n{field}"));
        assert_eq!(metadata.collate(), expected, "{field:?}");
        let model = build_package_model_with_metadata(&SourceMap::new(), Vec::new(), &metadata);
        assert_eq!(model.package.collate, expected, "{field:?}");
    }
}

#[test]
fn metadata_can_be_constructed_for_in_memory_tests() {
    let metadata = PackageMetadata::new("inMemory", Some("UTF-8".to_owned()))
        .expect("metadata should be valid");
    assert_eq!(metadata.package(), "inMemory");
    assert_eq!(metadata.encoding(), Some("UTF-8"));
    assert!(!metadata.has_collate_directive());
    assert!(metadata.with_collate_directive().has_collate_directive());
}

#[test]
fn folded_description_field_survives_following_fields() {
    let description = "BugReports: https://example.org/issues\n continuation\nDescription: later field\n continuation\n";
    assert_eq!(
        description_field_raw(&parsed(description), description, "BugReports"),
        Some("https://example.org/issues\ncontinuation".to_owned())
    );
}

#[test]
fn description_fields_match_read_dcf_duplicate_and_name_rules() {
    assert_eq!(
        metadata_from_description("Package : spaced\n"),
        Err(DescriptionError::PackageMissing)
    );
    assert_eq!(loaded("Package: first\nPackage: second\n").package(), "second");
}

#[test]
fn description_edge_fields_keep_r_semantics() {
    let metadata = loaded(
        "Package: example.pkg\nTitle: café\nVersion: 0.0.1\nDepends: R (>= 4.0), dep.one (>= 1.0, < 2.0)\nImports:\n dep.two\nLazyData: yes\nCollate.unix:\n a.R\nBugReports: not a URL\n",
    );
    assert_eq!(metadata.package(), "example.pkg");
    assert_eq!(metadata.documentation().title.as_deref(), Some("café"));
    assert_eq!(metadata.dependencies(), &["dep.one", "dep.two"]);
    assert!(metadata.lazy_data());
    assert!(metadata.collate());
    assert_eq!(metadata.documentation().bug_reports.as_deref(), Some("not a URL"));
}

#[test]
fn empty_field_value_matches_read_dcf_for_typed_fields() {
    let text = "Package: example.pkg\nDescription:\n continuation\n";
    let document = parsed(text);
    assert_eq!(
        description_field(&document, text, "Description"),
        Some("continuation".to_owned())
    );
    assert_eq!(
        description_field_raw(&document, text, "Description"),
        Some("\ncontinuation".to_owned())
    );
}

#[test]
fn malformed_and_orphan_lines_remain_description_errors() {
    for content in ["Package example\n", "Package: p\n\n orphan\n"] {
        assert!(matches!(
            metadata_from_description(content),
            Err(DescriptionError::Malformed { .. })
        ));
    }
}

#[test]
fn missing_and_empty_package_are_distinct() {
    assert_eq!(
        metadata_from_description("Version: 0.0.1\n"),
        Err(DescriptionError::PackageMissing)
    );
    assert_eq!(
        metadata_from_description("Package: \n"),
        Err(DescriptionError::PackageEmpty)
    );
}

#[test]
fn encoding_policy_accepts_absent_and_utf8_and_rejects_other_values() {
    assert_eq!(loaded("Package: example.pkg\nVersion: 0.0.1\n").encoding(), None);
    assert_eq!(loaded("Package: example\nEncoding: UTF-8\n").encoding(), Some("UTF-8"));
    assert_eq!(
        metadata_from_description("Package: example\nEncoding: latin1\n"),
        Err(DescriptionError::UnsupportedEncoding { encoding: "latin1".to_owned() })
    );
}

#[test]
fn metadata_constructor_validates_package_and_encoding() {
    assert_eq!(
        PackageMetadata::new("", None).expect_err("empty package should fail"),
        PackageMetadataError::EmptyPackage
    );
    for rejected in ["bad-name", "bad_name", "1package", "x", "pkg.", "pkg..", "."] {
        assert!(
            matches!(
                PackageMetadata::new(rejected, None),
                Err(PackageMetadataError::InvalidPackageName { .. })
            ),
            "{rejected:?} should be rejected"
        );
    }
    for accepted in ["xy", "pkg.a", "myPkg", "a1", "p.k.g"] {
        assert!(
            PackageMetadata::new(accepted, None).is_ok(),
            "{accepted:?} should be accepted"
        );
    }
    assert!(matches!(
        PackageMetadata::new("example", Some("latin1".to_owned())),
        Err(PackageMetadataError::UnsupportedEncoding { .. })
    ));
}

#[test]
fn errors_are_written_with_the_quoted_value() {
    let error = |name: &str| PackageMetadata::new(name, None).expect_err("a refused name");
    assert_eq!(error("").message(), "Package is empty");
    assert_eq!(error("a\"b").message(), "invalid R package name \"a\\\"b\"");
    let encoding = PackageMetadata::new("example", Some("latin1".to_owned()));
    assert_eq!(
        encoding.expect_err("a refused encoding").message(),
        "unsupported declared Encoding \"latin1\""
    );
}

#[test]
fn invalid_package_names_are_refused() {
    assert_eq!(
        metadata_from_description("Package: bad-name\n"),
        Err(DescriptionError::PackageInvalid { package: "bad-name".to_owned() })
    );
}

#[test]
fn given_fields_are_read_like_a_text() {
    let text = "Package: example\nTitle: A title\nLazyData: true\n";
    assert_eq!(metadata_from_fields(parsed(text), text), metadata_from_description(text));
}
