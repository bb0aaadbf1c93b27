//! NAMESPACE directives.
use mini_roxygen_core::diagnostic::{DiagnosticCode, Severity};
use mini_roxygen_core::facts::{AssignmentOperator, BindingName, BlockId, RName};
use mini_roxygen_core::model::ir::{
    BlockRef, MethodDeclaration, NamespaceRequest, PackageModel, TopicMap,
};
use mini_roxygen_core::namespace::ir::{
    NamespaceBuildOutput, NamespaceObjectName, NonEmptyNamespaceNames,
};
use mini_roxygen_core::namespace::pipeline::{build_namespace, build_namespace_with_provider};
use mini_roxygen_core::namespace::s3::{S3Analyzer, S3ExportAnalysis, S3GenericProvider};
use mini_roxygen_core::r_parse::{BindingFact, BindingValue};
use mini_roxygen_core::source::{FileId, Span, Spanned, TextRange};
use mini_roxygen_core::tags::{
    NamespaceTag, PlainText, SourceSegment, SourcedText, TagOrigin, TagValue,
};

const HEADER: &str = "# Generated by mini-roxygen (roxygen2 compatible): do not edit by hand\n\n";

fn place(start: u32, end: u32) -> Span {
    Span::new(FileId::new(0), TextRange::new(start, end))
}

fn origin() -> TagOrigin {
    TagOrigin::Explicit {
        full_span: place(0, 50),
        name: Spanned::new("tag".to_owned(), place(1, 4)),
    }
}

fn value(text: &str) -> TagValue<PlainText> {
    let segment = SourceSegment { offset: 0, span: place(10, 10 + text.len() as u32) };
    TagValue {
        value: PlainText::new(SourcedText::from_segments(text.to_owned(), vec![segment])),
        origin: origin(),
    }
}

fn request(tag: NamespaceTag) -> NamespaceRequest {
    NamespaceRequest {
        block: BlockRef { file: FileId::new(0), block: BlockId { id: 0 } },
        tag,
        object: None,
        object_is_function: false,
        object_spelling: None,
        method: None,
    }
}

fn on_function(tag: NamespaceTag, name: &str) -> NamespaceRequest {
    NamespaceRequest {
        object: Some(RName { text: name.to_owned() }),
        object_is_function: true,
        object_spelling: Some(place(60, 70)),
        ..request(tag)
    }
}

fn package(namespace: Vec<NamespaceRequest>) -> PackageModel {
    PackageModel {
        topics: TopicMap::new(),
        namespace,
        bindings: Vec::new(),
        registrations: Vec::new(),
        collate: false,
    }
}

fn build(namespace: Vec<NamespaceRequest>) -> NamespaceBuildOutput {
    build_namespace(&package(namespace), Some("self"))
}

fn lines(output: &NamespaceBuildOutput) -> &str {
    output.content.strip_prefix(HEADER).expect("the header")
}

#[test]
fn nothing_but_the_header_is_written_without_requests() {
    let output = build(Vec::new());
    assert_eq!(output.content, HEADER);
    assert!(output.diagnostics.is_empty());
}

#[test]
fn directives_are_unique_merged_and_sorted() {
    let output = build(vec![
        request(NamespaceTag::ImportFrom(value("utils tail head"))),
        request(NamespaceTag::Import(value("zoo abc"))),
        request(NamespaceTag::ImportFrom(value("utils head %in%"))),
        request(NamespaceTag::ImportFrom(value("stats sd"))),
        request(NamespaceTag::Export(value("g f"))),
        request(NamespaceTag::Export(value("f"))),
        on_function(NamespaceTag::Export(value("")), "odd name"),
    ]);
    assert!(output.diagnostics.is_empty());
    assert_eq!(
        lines(&output),
        "export(\"odd name\")\nexport(f)\nexport(g)\nimport(abc)\nimport(zoo)\nimportFrom(stats,sd)\nimportFrom(utils,\n  \"%in%\",\n  head,\n  tail\n)\n"
    );
}

#[test]
fn request_order_does_not_change_the_text() {
    let first = build(vec![
        request(NamespaceTag::ImportFrom(value("utils tail"))),
        request(NamespaceTag::Export(value("f"))),
        request(NamespaceTag::ImportFrom(value("utils head"))),
    ]);
    let second = build(vec![
        request(NamespaceTag::ImportFrom(value("utils head tail"))),
        request(NamespaceTag::Export(value("f"))),
        request(NamespaceTag::Export(value("f"))),
    ]);
    assert_eq!(first.content, second.content);
}

#[test]
fn self_imports_are_left_out_with_a_warning() {
    let output = build(vec![
        request(NamespaceTag::Import(value("self other"))),
        request(NamespaceTag::ImportFrom(value("self f"))),
        request(NamespaceTag::ImportClassesFrom(value("self A"))),
        request(NamespaceTag::ImportMethodsFrom(value("self m"))),
        request(NamespaceTag::Import(value("self, except = f"))),
    ]);
    assert_eq!(lines(&output), "import(other)\nimport(self, except = f)\n");
    assert_eq!(output.diagnostics.len(), 4);
    for diagnostic in output.diagnostics.as_slice() {
        assert_eq!(diagnostic.code, DiagnosticCode::SelfImport);
        assert_eq!(diagnostic.severity, Severity::Warning);
        assert_eq!(diagnostic.primary.span, place(10, 14));
    }

    let unnamed = build_namespace(
        &package(vec![request(NamespaceTag::Import(value("self")))]),
        None,
    );
    assert_eq!(lines(&unnamed), "import(self)\n");
}

#[test]
fn each_kind_of_directive_is_written() {
    let output = build(vec![
        request(NamespaceTag::UseDynLib(value("fixture, .registration = TRUE"))),
        request(NamespaceTag::UseDynLib(value("native"))),
        request(NamespaceTag::UseDynLib(value("native one two"))),
        request(NamespaceTag::RawNamespace(value("if (TRUE) export(g)"))),
        request(NamespaceTag::ExportPattern(value("^x"))),
        request(NamespaceTag::ExportClass(value("A"))),
        request(NamespaceTag::ExportMethod(value("show m"))),
        request(NamespaceTag::ImportClassesFrom(value("pkg B C"))),
        request(NamespaceTag::ImportMethodsFrom(value("pkg n"))),
        request(NamespaceTag::ExportS3Method(value("format circle"))),
    ]);
    assert!(output.diagnostics.is_empty());
    assert_eq!(
        lines(&output),
        &[
            "S3method(format,circle)\n",
            "exportClasses(A)\n",
            "exportMethods(m)\n",
            "exportMethods(show)\n",
            "exportPattern(\"^x\")\n",
            "if (TRUE) export(g)\n",
            "importClassesFrom(pkg,B)\n",
            "importClassesFrom(pkg,C)\n",
            "importMethodsFrom(pkg,n)\n",
            "useDynLib(fixture, .registration = TRUE)\n",
            "useDynLib(native)\n",
            "useDynLib(native,one)\n",
            "useDynLib(native,two)\n",
        ]
        .concat()
    );
}

#[test]
fn invalid_requests_are_reported_and_write_nothing() {
    for (tag, message) in [
        (
            NamespaceTag::Export(value("")),
            "@export needs a name or an implicit object name",
        ),
        (NamespaceTag::Import(value("")), "@import requires at least one package name"),
        (
            NamespaceTag::ImportFrom(value("utils")),
            "@importFrom requires a package and at least one name",
        ),
        (NamespaceTag::UseDynLib(value("")), "@useDynLib requires a package name"),
        (
            NamespaceTag::RawNamespace(value("export(")),
            "@rawNamespace failed to parse as R source",
        ),
        (
            NamespaceTag::RawNamespace(value("")),
            "@rawNamespace contains empty or undecodable directive text",
        ),
        (NamespaceTag::ExportPattern(value("")), "@exportPattern requires a pattern"),
        (
            NamespaceTag::ExportClass(value("A B")),
            "@exportClass requires exactly one class name",
        ),
        (
            NamespaceTag::ImportClassesFrom(value("pkg")),
            "@importClassesFrom requires a package and at least one class",
        ),
        (
            NamespaceTag::ImportMethodsFrom(value("pkg")),
            "@importMethodsFrom requires a package and at least one method",
        ),
        (
            NamespaceTag::ExportS3Method(value("")),
            "@exportS3Method requires one or two words",
        ),
        (
            NamespaceTag::ExportS3Method(value("pkg::format")),
            "@exportS3Method must be used with a known function object",
        ),
    ] {
        let output = build(vec![request(tag)]);
        assert_eq!(output.content, HEADER);
        assert_eq!(output.diagnostics.len(), 1, "{message}");
        let diagnostic = &output.diagnostics.items[0];
        assert_eq!(diagnostic.code, DiagnosticCode::InvalidNamespaceDirective);
        assert_eq!(diagnostic.message, message);
    }
}

#[test]
fn delayed_methods_take_their_class_from_the_function() {
    let delayed = |text: &str, name: &str| {
        build(vec![on_function(NamespaceTag::ExportS3Method(value(text)), name)])
    };
    let output = delayed("pkg::format", "format.my.class");
    assert_eq!(lines(&output), "S3method(pkg::format,my.class)\n");
    assert!(output.diagnostics.is_empty());

    for (text, name, message) in [
        (
            "format",
            "format.circle",
            "@exportS3Method must have form package::generic",
        ),
        (
            "pkg::format",
            "print.circle",
            "@exportS3Method generic (format) doesn't match function (print.circle)",
        ),
        (
            "pkg::format",
            "format.",
            "@exportS3Method derives an empty class from the function name",
        ),
    ] {
        let output = delayed(text, name);
        assert_eq!(output.content, HEADER);
        assert_eq!(output.diagnostics.items[0].message, message);
    }

    let suppressed = delayed("NULL", "format.circle");
    assert_eq!(suppressed.content, HEADER);
    assert!(suppressed.diagnostics.is_empty());
}

#[test]
fn a_declared_method_is_registered_under_its_declaration() {
    let mut declared = on_function(NamespaceTag::Export(value("")), "show_circle");
    declared.method = Some(MethodDeclaration {
        generic: Spanned::new("[<-".to_owned(), place(20, 23)),
        class: Spanned::new("circle".to_owned(), place(24, 30)),
        origin: origin(),
    });
    assert_eq!(lines(&build(vec![declared])), "S3method(\"[<-\",circle)\n");
}

struct KnownGeneric;

impl S3GenericProvider for KnownGeneric {
    fn is_s3_generic(&self, name: &str) -> bool {
        name == "outline"
    }
}

#[test]
fn a_provider_turns_an_export_into_a_registration() {
    let mut model =
        package(vec![on_function(NamespaceTag::Export(value("")), "outline.circle")]);
    let binding = |name: &str, calls_use_method| BindingFact {
        name: BindingName { canonical: RName { text: name.to_owned() }, spelling: place(60, 74) },
        operator: AssignmentOperator::Left,
        assignment_span: place(60, 90),
        function_formals: None,
        value: BindingValue::Function { calls_use_method },
    };
    model.bindings.push(binding("outline.circle", false));
    let known = build_namespace_with_provider(&model, None, &KnownGeneric);
    assert_eq!(lines(&known), "S3method(outline,circle)\n");
    let unknown = build_namespace(&model, None);
    assert_eq!(unknown.content, HEADER);
    assert_eq!(unknown.diagnostics.items[0].code, DiagnosticCode::UnresolvedS3Export);

    model.bindings.push(binding("outline", false));
    let shadowed = build_namespace_with_provider(&model, None, &KnownGeneric);
    assert_eq!(shadowed.content, HEADER);
    model.bindings.pop();
    model.bindings.push(binding("outline", true));
    assert_eq!(lines(&build_namespace(&model, None)), "S3method(outline,circle)\n");
}

fn object_names(names: &[&str]) -> Vec<NamespaceObjectName> {
    names
        .iter()
        .map(|name| NamespaceObjectName::new((*name).to_owned()).expect("a usable name"))
        .collect()
}

#[test]
fn import_names_are_kept_in_quoted_spelling_order() {
    let ordered = |names: &[&str]| -> Vec<String> {
        NonEmptyNamespaceNames::new(object_names(names))
            .expect("there are names")
            .as_slice()
            .iter()
            .map(|name| name.as_str().to_owned())
            .collect()
    };
    assert_eq!(ordered(&["b", "a"]), ["a", "b"]);
    // Quoted names come first: a double quote is before every letter.
    assert_eq!(ordered(&["tail", "odd name", "head", "%in%"]), ["%in%", "odd name", "head", "tail"]);
    assert_eq!(ordered(&["b", "a", "b"]), ["a", "b", "b"]);
    assert!(NonEmptyNamespaceNames::new(Vec::new()).is_none());
}

struct TwoGenerics;

impl S3GenericProvider for TwoGenerics {
    fn is_s3_generic(&self, name: &str) -> bool {
        name == "all" || name == "all.equal"
    }
}

struct DottedGeneric;

impl S3GenericProvider for DottedGeneric {
    fn is_s3_generic(&self, name: &str) -> bool {
        name == "all.equal"
    }
}

fn s3_method(generic: &str, class: &str) -> S3ExportAnalysis {
    S3ExportAnalysis::S3Method { generic: generic.to_owned(), class: class.to_owned() }
}

#[test]
fn the_shortest_proven_generic_is_selected() {
    let bindings = Vec::new();
    let both = S3Analyzer::new(&bindings, false, None, &TwoGenerics);
    assert_eq!(both.select_split("all.equal.foo"), s3_method("all", "equal.foo"));
    let one = S3Analyzer::new(&bindings, false, None, &DottedGeneric);
    assert_eq!(one.select_split("all.equal.foo"), s3_method("all.equal", "foo"));
    assert_eq!(one.select_split("all.equal."), S3ExportAnalysis::Unresolved);
    assert_eq!(one.select_split("format.foo"), S3ExportAnalysis::Unresolved);
}
