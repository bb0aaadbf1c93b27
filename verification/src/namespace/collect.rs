//! Turns each NAMESPACE request into directives and diagnostics.
use crate::diagnostic::{
    plain_diagnostic, severity_of, Diagnostic, DiagnosticCode, DiagnosticView, Diagnostics, Label,
    LabelView,
};
use crate::model::identity::{origin_span, reported_span};
use crate::model::ir::NamespaceRequest;
use crate::r_source::{can_parse_namespace_source, r_source_parses};
use crate::source::{Span, Spanned};
use crate::tags::{word_bounds, word_span, NamespaceTag, PlainText, TagOrigin, TagValue};
use crate::text::{
    after_prefix, char_vec, contains_char, same_text, strip_prefix, text2, text3, text5, text_of,
    texts,
};
use vstd::prelude::*;

use super::ir::{
    in_spelling_order, object_texts, usable_text, ArgumentView, DirectiveView,
    NamespaceDirective, NamespaceObjectName, NamespacePackageName, NamespaceS3MethodArgument,
    NamespaceVerbatim, NonEmptyNamespaceNames,
};
use super::render::{quote_name, quoted};
use super::s3::{
    analysis, resolved, AnalysisView, S3Analyzer, S3ExportAnalysis, S3Facts, S3GenericProvider,
};

verus! {

/// What one request contributes: directives and diagnostics, in order.
pub struct CollectedView {
    pub directives: Seq<DirectiveView>,
    pub diagnostics: Seq<DiagnosticView>,
}

/// The models of directives.
pub open spec fn directive_views(directives: Seq<NamespaceDirective>) -> Seq<DirectiveView> {
    directives.map_values(|d: NamespaceDirective| d@)
}

/// What one request contributes.
#[derive(Debug, PartialEq, Eq)]
pub struct Collected {
    pub directives: Vec<NamespaceDirective>,
    pub diagnostics: Diagnostics,
}

impl View for Collected {
    type V = CollectedView;

    open spec fn view(&self) -> CollectedView {
        CollectedView {
            directives: directive_views(self.directives@),
            diagnostics: self.diagnostics@,
        }
    }
}

/// The value of a NAMESPACE tag and its origin.
pub open spec fn tag_value(tag: NamespaceTag) -> TagValue<PlainText> {
    match tag {
        NamespaceTag::Export(value) => value,
        NamespaceTag::ExportS3Method(value) => value,
        NamespaceTag::Import(value) => value,
        NamespaceTag::ImportFrom(value) => value,
        NamespaceTag::RawNamespace(value) => value,
        NamespaceTag::UseDynLib(value) => value,
        NamespaceTag::ExportPattern(value) => value,
        NamespaceTag::ExportClass(value) => value,
        NamespaceTag::ExportMethod(value) => value,
        NamespaceTag::ImportClassesFrom(value) => value,
        NamespaceTag::ImportMethodsFrom(value) => value,
    }
}

/// The value of a NAMESPACE tag and its origin.
fn tag_name_and_value(tag: &NamespaceTag) -> (r: &TagValue<PlainText>)
    ensures
        *r == tag_value(*tag),
{
    match tag {
        NamespaceTag::Export(value) => value,
        NamespaceTag::ExportS3Method(value) => value,
        NamespaceTag::Import(value) => value,
        NamespaceTag::ImportFrom(value) => value,
        NamespaceTag::RawNamespace(value) => value,
        NamespaceTag::UseDynLib(value) => value,
        NamespaceTag::ExportPattern(value) => value,
        NamespaceTag::ExportClass(value) => value,
        NamespaceTag::ExportMethod(value) => value,
        NamespaceTag::ImportClassesFrom(value) => value,
        NamespaceTag::ImportMethodsFrom(value) => value,
    }
}

/// The name that a tag was written with.
pub open spec fn written_name(origin: TagOrigin) -> Seq<char> {
    match origin {
        TagOrigin::Explicit { full_span, name } => name.value@,
        TagOrigin::Implicit { intro_span } => "namespace"@,
    }
}

/// The name that a tag was written with.
fn tag_name(origin: &TagOrigin) -> (r: &str)
    ensures
        r@ == written_name(*origin),
{
    match origin {
        TagOrigin::Explicit { name, .. } => name.value.as_str(),
        TagOrigin::Implicit { .. } => "namespace",
    }
}

/// The words of a tag.
pub open spec fn tag_words(tag: NamespaceTag) -> Seq<Seq<char>> {
    crate::tags::word_texts(tag_value(tag).value@)
}

/// The span of one word of a tag.
pub open spec fn tag_word_span(tag: NamespaceTag, i: int) -> Span {
    let value = tag_value(tag);
    let bounds = word_bounds(value.value@)[i];
    word_span(*value.value.source, bounds.0, bounds.1, reported_span(value.origin))
}

/// The report of a directive that cannot be used.
pub open spec fn invalid_directive(tag: NamespaceTag, message: Seq<char>) -> DiagnosticView {
    let origin = tag_value(tag).origin;
    plain_diagnostic(
        severity_of(DiagnosticCode::InvalidNamespaceDirective),
        DiagnosticCode::InvalidNamespaceDirective,
        message,
        LabelView {
            span: reported_span(origin),
            message: "invalid namespace directive @"@ + written_name(origin),
        },
    ).and_context("tag"@, written_name(origin))
}

/// Reports a directive that cannot be used.
fn invalid(tag: &NamespaceTag, message: &str) -> (r: Diagnostic)
    ensures
        r@ == invalid_directive(*tag, message@),
{
    let origin = &tag_name_and_value(tag).origin;
    let name = tag_name(origin);
    Diagnostic::new(
        DiagnosticCode::InvalidNamespaceDirective.default_severity(),
        DiagnosticCode::InvalidNamespaceDirective,
        message.to_owned(),
        Label::new(origin_span(origin), text2("invalid namespace directive @", name)),
    ).with_context("tag", name)
}

/// The report of an import from the package itself.
pub open spec fn self_import(tag: NamespaceTag, package: Seq<char>, span: Span) -> DiagnosticView {
    let name = written_name(tag_value(tag).origin);
    plain_diagnostic(
        severity_of(DiagnosticCode::SelfImport),
        DiagnosticCode::SelfImport,
        "@"@ + name + " imports from the current package `"@ + package + "`"@,
        LabelView { span, message: "this is the package being documented"@ },
    ).and_context("tag"@, name).and_context("package"@, package)
}

/// Reports an import from the package itself.
fn warn_self_import(tag: &NamespaceTag, package: &str, span: Span) -> (r: Diagnostic)
    ensures
        r@ == self_import(*tag, package@, span),
{
    let name = tag_name(&tag_name_and_value(tag).origin);
    Diagnostic::new(
        DiagnosticCode::SelfImport.default_severity(),
        DiagnosticCode::SelfImport,
        text5("@", name, " imports from the current package `", package, "`"),
        Label::at(span, "this is the package being documented"),
    ).with_context("tag", name).with_context("package", package)
}

/// The report of an export whose S3 nature is not known.
pub open spec fn unresolved_export(request: NamespaceRequest, object: Seq<char>) -> DiagnosticView {
    plain_diagnostic(
        severity_of(DiagnosticCode::UnresolvedS3Export),
        DiagnosticCode::UnresolvedS3Export,
        "cannot distinguish "@ + object
            + " as an S3 method from a plain dotted function without evaluating R"@,
        LabelView {
            span: match request.object_spelling {
                Some(span) => span,
                None => reported_span(tag_value(request.tag).origin),
            },
            message: "automatic S3 classification is unresolved"@,
        },
    ).and_help(
        "add @method <generic> <class> before the bare @export, or replace it with @exportS3Method <generic> <class>"@,
    ).and_context("object"@, object)
}

/// Reports an export whose S3 nature is not known.
fn unresolved_s3_export(request: &NamespaceRequest, object: &str) -> (r: Diagnostic)
    ensures
        r@ == unresolved_export(*request, object@),
{
    let span: Span = match request.object_spelling {
        Some(span) => span,
        None => origin_span(&tag_name_and_value(&request.tag).origin),
    };
    Diagnostic::new(
        DiagnosticCode::UnresolvedS3Export.default_severity(),
        DiagnosticCode::UnresolvedS3Export,
        text3(
            "cannot distinguish ",
            object,
            " as an S3 method from a plain dotted function without evaluating R",
        ),
        Label::at(span, "automatic S3 classification is unresolved"),
    ).with_help(
        "add @method <generic> <class> before the bare @export, or replace it with @exportS3Method <generic> <class>",
    ).with_context("object", object)
}

/// A request that is answered with one report and nothing else.
pub open spec fn refused(tag: NamespaceTag, message: Seq<char>) -> CollectedView {
    CollectedView {
        directives: Seq::empty(),
        diagnostics: seq![invalid_directive(tag, message)],
    }
}

/// A request that contributes directives and no report.
pub open spec fn accepted(directives: Seq<DirectiveView>) -> CollectedView {
    CollectedView { directives, diagnostics: Seq::empty() }
}

/// Answers a request with one report.
fn refuse(tag: &NamespaceTag, message: &str) -> (r: Collected)
    ensures
        r@ == refused(*tag, message@),
{
    let mut diagnostics = Diagnostics::new();
    diagnostics.push(invalid(tag, message));
    let r = Collected { directives: Vec::new(), diagnostics };
    proof {
        assert(r@.directives =~= Seq::<DirectiveView>::empty());
        assert(r@.diagnostics =~= seq![invalid_directive(*tag, message@)]);
    }
    r
}

/// Answers a request with directives.
fn accept(directives: Vec<NamespaceDirective>) -> (r: Collected)
    ensures
        r@ == accepted(directive_views(directives@)),
{
    Collected { directives, diagnostics: Diagnostics::new() }
}

/// Answers a request with one directive.
fn accept_one(directive: NamespaceDirective) -> (r: Collected)
    ensures
        r@ == accepted(seq![directive@]),
{
    let mut directives: Vec<NamespaceDirective> = Vec::new();
    directives.push(directive);
    proof {
        assert(directive_views(directives@) =~= seq![directive@]);
    }
    accept(directives)
}

/// A quote character that can enclose a word.
pub open spec fn is_quote(c: char) -> bool {
    c == '"' || c == '\'' || c == '`'
}

/// The name that a word spells: the word itself, or what stands between its
/// quotes. Quotes that do not match and quoted backslashes spell nothing.
pub open spec fn decoded(raw: Seq<char>) -> Option<Seq<char>> {
    if raw.len() == 0 {
        None
    } else if is_quote(raw[0]) {
        if raw.len() < 2 || raw.last() != raw[0] || raw.subrange(1, raw.len() - 1).contains('\\') {
            None
        } else {
            Some(raw.subrange(1, raw.len() - 1))
        }
    } else {
        Some(raw)
    }
}

/// The usable name that a word spells.
pub open spec fn usable_name(raw: Seq<char>) -> Option<Seq<char>> {
    match decoded(raw) {
        Some(name) => if usable_text(name) {
            Some(name)
        } else {
            None
        },
        None => None,
    }
}

/// The usable names that words spell, when all of them spell one.
pub open spec fn usable_names(words: Seq<Seq<char>>) -> Option<Seq<Seq<char>>>
    decreases words.len(),
{
    if words.len() == 0 {
        Some(Seq::empty())
    } else {
        match (usable_names(words.drop_last()), usable_name(words.last())) {
            (Some(before), Some(name)) => Some(before.push(name)),
            _ => None,
        }
    }
}

/// Decodes the spelling of a word.
pub fn decode_word(raw: &str) -> (r: Option<String>)
    ensures
        crate::text::opt_text(r) == decoded(raw@),
{
    let chars = char_vec(raw);
    if chars.len() == 0 {
        return None;
    }
    let first: char = chars[0];
    if first == '"' || first == '\'' || first == '`' {
        if chars.len() < 2 || chars[chars.len() - 1] != first {
            return None;
        }
        let value = text_of(&chars, 1, chars.len() - 1);
        if contains_char(value.as_str(), '\\') {
            return None;
        }
        Some(value)
    } else {
        Some(raw.to_owned())
    }
}

/// The view of an optional object name.
pub open spec fn opt_object(o: Option<NamespaceObjectName>) -> Option<Seq<char>> {
    match o {
        Some(name) => Some(name@),
        None => None,
    }
}

/// Decodes an object name.
pub fn normalize_object_name(raw: &str) -> (r: Option<NamespaceObjectName>)
    ensures
        opt_object(r) == usable_name(raw@),
{
    match decode_word(raw) {
        Some(name) => NamespaceObjectName::new(name),
        None => None,
    }
}

/// Decodes a package name.
pub fn normalize_package_name(raw: &str) -> (r: Option<NamespacePackageName>)
    ensures
        r is Some == usable_name(raw@) is Some,
        r matches Some(name) ==> Some(name@) == usable_name(raw@),
{
    match decode_word(raw) {
        Some(name) => NamespacePackageName::new(name),
        None => None,
    }
}

/// Decodes a method argument that is quoted automatically.
fn auto_quote_method_argument(raw: &str) -> (r: Option<NamespaceS3MethodArgument>)
    ensures
        r is Some == usable_name(raw@) is Some,
        r matches Some(argument) ==> argument@ == ArgumentView::AutoQuoted(usable_name(raw@)->0),
{
    match normalize_object_name(raw) {
        Some(name) => Some(NamespaceS3MethodArgument::AutoQuoted(name.0)),
        None => None,
    }
}

/// The texts of words.
pub open spec fn spanned_texts(words: Seq<Spanned<String>>) -> Seq<Seq<char>> {
    words.map_values(|w: Spanned<String>| w.value@)
}

/// The view of an optional list of object names.
pub open spec fn opt_objects(o: Option<Vec<NamespaceObjectName>>) -> Option<Seq<Seq<char>>> {
    match o {
        Some(names) => Some(object_texts(names@)),
        None => None,
    }
}

/// A list with a word that spells no name has no usable names.
proof fn unusable_word(words: Seq<Seq<char>>, i: int)
    requires
        0 <= i < words.len(),
        usable_name(words[i]) is None,
    ensures
        usable_names(words) is None,
    decreases words.len(),
{
    if i < words.len() - 1 {
        unusable_word(words.drop_last(), i);
    }
}

/// Decodes the words from position `from` on.
fn normalize_names(words: &Vec<Spanned<String>>, from: usize) -> (r: Option<
    Vec<NamespaceObjectName>,
>)
    requires
        from <= words@.len(),
    ensures
        opt_objects(r) == usable_names(spanned_texts(words@).skip(from as int)),
{
    let mut names: Vec<NamespaceObjectName> = Vec::new();
    let mut i: usize = from;
    let ghost tail = spanned_texts(words@).skip(from as int);
    proof {
        assert(object_texts(names@) =~= Seq::<Seq<char>>::empty());
        assert(tail.take(0) =~= Seq::<Seq<char>>::empty());
    }
    while i < words.len()
        invariant
            from <= i <= words@.len(),
            tail == spanned_texts(words@).skip(from as int),
            usable_names(tail.take(i - from)) == Some(object_texts(names@)),
        decreases words@.len() - i,
    {
        proof {
            let prefix = tail.take(i - from + 1);
            assert(prefix.drop_last() =~= tail.take(i - from));
            assert(prefix.last() == words@[i as int].value@);
        }
        match normalize_object_name(words[i].value.as_str()) {
            Some(name) => {
                let ghost before = object_texts(names@);
                names.push(name);
                proof {
                    assert(object_texts(names@) =~= before.push(name@));
                }
            },
            None => {
                proof {
                    assert(tail[i - from] == words@[i as int].value@);
                    unusable_word(tail, i - from);
                }
                return None;
            },
        }
        i = i + 1;
    }
    proof {
        assert(tail.take(tail.len() as int) =~= tail);
    }
    Some(names)
}

/// Reads the words of a tag.
fn read_words(tag: &NamespaceTag) -> (r: Vec<Spanned<String>>)
    ensures
        spanned_texts(r@) == tag_words(*tag),
        forall|i: int| 0 <= i < r@.len() ==> (#[trigger] r@[i]).span == tag_word_span(*tag, i),
{
    let value = tag_name_and_value(tag);
    let words = value.value.words(origin_span(&value.origin));
    proof {
        assert(spanned_texts(words@) =~= tag_words(*tag));
    }
    words
}

/// Exports of names.
pub open spec fn exports(names: Seq<Seq<char>>) -> Seq<DirectiveView> {
    names.map_values(|name: Seq<char>| DirectiveView::Export { name })
}

/// What `@export` contributes. Without words it exports the documented object,
/// as a method where `@method` or the classification of the object says so.
pub open spec fn export_outcome(
    request: NamespaceRequest,
    facts: S3Facts,
    warned: Seq<Seq<char>>,
) -> CollectedView {
    let words = tag_words(request.tag);
    if words.len() == 0 {
        match request.object {
            None => refused(request.tag, "@export needs a name or an implicit object name"@),
            Some(object) => match usable_name(object@) {
                None => refused(request.tag, "@export contains an empty or undecodable name"@),
                Some(name) => match request.method {
                    Some(method) => if !request.object_is_function {
                        refused(request.tag, "@method with @export must be used with a function"@)
                    } else {
                        match usable_name(method.generic.value@) {
                            None => refused(
                                request.tag,
                                "@method contains an empty or undecodable generic"@,
                            ),
                            Some(generic) => match usable_name(method.class.value@) {
                                None => refused(
                                    request.tag,
                                    "@method contains an empty or undecodable class"@,
                                ),
                                Some(class) => accepted(
                                    seq![
                                        DirectiveView::S3Method {
                                            generic: ArgumentView::AutoQuoted(generic),
                                            class: ArgumentView::AutoQuoted(class),
                                        },
                                    ],
                                ),
                            },
                        }
                    },
                    None => match analysis(facts, object@) {
                        AnalysisView::OrdinaryExport => accepted(
                            seq![DirectiveView::Export { name }],
                        ),
                        AnalysisView::S3Method { generic, class } => accepted(
                            seq![
                                DirectiveView::S3Method {
                                    generic: ArgumentView::AutoQuoted(generic),
                                    class: ArgumentView::AutoQuoted(class),
                                },
                            ],
                        ),
                        AnalysisView::Unresolved => if warned.contains(object@) {
                            accepted(Seq::empty())
                        } else {
                            CollectedView {
                                directives: Seq::empty(),
                                diagnostics: seq![unresolved_export(request, object@)],
                            }
                        },
                    },
                },
            },
        }
    } else {
        match usable_names(words) {
            Some(names) => accepted(exports(names)),
            None => refused(request.tag, "@export contains an empty or undecodable name"@),
        }
    }
}

/// The objects that were reported as unresolved, after one more request.
pub open spec fn export_warned(
    request: NamespaceRequest,
    facts: S3Facts,
    warned: Seq<Seq<char>>,
) -> Seq<Seq<char>> {
    match (request.tag, request.object) {
        (NamespaceTag::Export(_), Some(object)) => if tag_words(request.tag).len() == 0
            && usable_name(object@) is Some && request.method is None && analysis(facts, object@)
            is Unresolved && !warned.contains(object@) {
            warned.push(object@)
        } else {
            warned
        },
        _ => warned,
    }
}

/// Whether a list of strings holds a text.
fn lists_text(items: &Vec<String>, text: &str) -> (r: bool)
    ensures
        r == texts(items@).contains(text@),
{
    let mut i: usize = 0;
    while i < items.len()
        invariant
            i <= items@.len(),
            forall|k: int| 0 <= k < i ==> #[trigger] texts(items@)[k] != text@,
        decreases items@.len() - i,
    {
        if same_text(items[i].as_str(), text) {
            assert(texts(items@)[i as int] == text@);
            return true;
        }
        assert(texts(items@)[i as int] != text@);
        i = i + 1;
    }
    false
}

/// Collects an `@export`.
fn collect_export<P: S3GenericProvider>(
    request: &NamespaceRequest,
    words: &Vec<Spanned<String>>,
    analyzer: &S3Analyzer<P>,
    warned: &mut Vec<String>,
) -> (r: Collected)
    requires
        request.tag is Export,
        spanned_texts(words@) == tag_words(request.tag),
    ensures
        r@ == export_outcome(*request, analyzer.facts(), texts(old(warned)@)),
        texts(final(warned)@) == export_warned(*request, analyzer.facts(), texts(old(warned)@)),
{
    if words.len() == 0 {
        let Some(object) = &request.object else {
            return refuse(&request.tag, "@export needs a name or an implicit object name");
        };
        let Some(name) = normalize_object_name(object.as_str()) else {
            return refuse(&request.tag, "@export contains an empty or undecodable name");
        };
        if let Some(method) = &request.method {
            if !request.object_is_function {
                return refuse(&request.tag, "@method with @export must be used with a function");
            }
            let Some(generic) = auto_quote_method_argument(method.generic.value.as_str()) else {
                return refuse(&request.tag, "@method contains an empty or undecodable generic");
            };
            let Some(class) = auto_quote_method_argument(method.class.value.as_str()) else {
                return refuse(&request.tag, "@method contains an empty or undecodable class");
            };
            return accept_one(NamespaceDirective::S3Method { generic, class });
        }
        return match analyzer.analyze(object) {
            S3ExportAnalysis::OrdinaryExport => accept_one(NamespaceDirective::Export { name }),
            S3ExportAnalysis::S3Method { generic, class } => accept_one(
                NamespaceDirective::S3Method {
                    generic: NamespaceS3MethodArgument::AutoQuoted(generic),
                    class: NamespaceS3MethodArgument::AutoQuoted(class),
                },
            ),
            S3ExportAnalysis::Unresolved => {
                let mut diagnostics = Diagnostics::new();
                if !lists_text(warned, object.as_str()) {
                    let ghost before = texts(warned@);
                    warned.push(object.text.clone());
                    proof {
                        assert(texts(warned@) =~= before.push(object@));
                    }
                    diagnostics.push(unresolved_s3_export(request, object.as_str()));
                    proof {
                        assert(diagnostics@ =~= seq![unresolved_export(*request, object@)]);
                    }
                }
                let r = Collected { directives: Vec::new(), diagnostics };
                proof {
                    assert(r@.directives =~= Seq::<DirectiveView>::empty());
                }
                r
            },
        };
    }
    proof {
        assert(spanned_texts(words@).skip(0) =~= spanned_texts(words@));
    }
    match normalize_names(words, 0) {
        Some(names) => {
            let ghost shown = object_texts(names@);
            let mut directives: Vec<NamespaceDirective> = Vec::new();
            for name in it: names
                invariant
                    object_texts(it.seq()) == shown,
                    directive_views(directives@) == exports(shown.take(it.index() as int)),
            {
                let ghost before = directive_views(directives@);
                directives.push(NamespaceDirective::Export { name });
                proof {
                    assert(shown[it.index() as int] == name@);
                    assert(directive_views(directives@) =~= before.push(
                        DirectiveView::Export { name: name@ },
                    ));
                    assert(directive_views(directives@) =~= exports(shown.take(it.index() + 1)));
                }
            }
            proof {
                assert(shown.take(shown.len() as int) =~= shown);
            }
            accept(directives)
        },
        None => refuse(&request.tag, "@export contains an empty or undecodable name"),
    }
}

/// Words separated by single blanks.
pub open spec fn blank_joined(words: Seq<Seq<char>>) -> Seq<char>
    decreases words.len(),
{
    if words.len() == 0 {
        Seq::empty()
    } else if words.len() == 1 {
        words[0]
    } else {
        blank_joined(words.drop_last()) + " "@ + words.last()
    }
}

/// Joins words with single blanks.
fn join_words(words: &Vec<Spanned<String>>) -> (r: String)
    ensures
        r@ == blank_joined(spanned_texts(words@)),
{
    let mut out: String = String::new();
    let mut i: usize = 0;
    let ghost shown = spanned_texts(words@);
    proof {
        assert(out@ =~= blank_joined(shown.take(0)));
    }
    while i < words.len()
        invariant
            i <= words@.len(),
            shown == spanned_texts(words@),
            out@ == blank_joined(shown.take(i as int)),
        decreases words@.len() - i,
    {
        proof {
            let prefix = shown.take(i + 1);
            assert(prefix.drop_last() =~= shown.take(i as int));
            assert(prefix.last() == words@[i as int].value@);
        }
        if i > 0 {
            out.push_str(" ");
        }
        out.push_str(words[i].value.as_str());
        proof {
            assert(out@ =~= blank_joined(shown.take(i + 1)));
        }
        i = i + 1;
    }
    proof {
        assert(shown.take(shown.len() as int) =~= shown);
    }
    out
}

/// Whether a word holds a comma.
pub open spec fn any_comma(words: Seq<Seq<char>>) -> bool {
    exists|i: int| 0 <= i < words.len() && (#[trigger] words[i]).contains(',')
}

/// Whether a name is the package being documented.
pub open spec fn is_current(current_package: Option<Seq<char>>, name: Seq<char>) -> bool {
    current_package == Some(name)
}

/// Imports of whole packages, the first `count` of them: the package being
/// documented is reported instead.
pub open spec fn package_imports(
    tag: NamespaceTag,
    names: Seq<Seq<char>>,
    current_package: Option<Seq<char>>,
    count: int,
) -> CollectedView
    decreases count,
{
    if count <= 0 {
        accepted(Seq::empty())
    } else {
        let before = package_imports(tag, names, current_package, count - 1);
        let package = names[count - 1];
        if is_current(current_package, package) {
            CollectedView {
                diagnostics: before.diagnostics.push(
                    self_import(tag, package, tag_word_span(tag, count - 1)),
                ),
                ..before
            }
        } else {
            CollectedView {
                directives: before.directives.push(DirectiveView::Import { package }),
                ..before
            }
        }
    }
}

/// What `@import` contributes. A value with a comma is passed through.
pub open spec fn import_outcome(
    tag: NamespaceTag,
    current_package: Option<Seq<char>>,
) -> CollectedView {
    let words = tag_words(tag);
    if words.len() == 0 {
        refused(tag, "@import requires at least one package name"@)
    } else if any_comma(words) {
        if usable_text(blank_joined(words)) {
            accepted(seq![DirectiveView::ImportVerbatim { value: blank_joined(words) }])
        } else {
            refused(tag, "@import contains empty or undecodable directive text"@)
        }
    } else {
        match usable_names(words) {
            Some(names) => package_imports(tag, names, current_package, names.len() as int),
            None => refused(tag, "@import contains an empty or undecodable package name"@),
        }
    }
}

/// The view of an optional text.
pub open spec fn opt_view(o: Option<&str>) -> Option<Seq<char>> {
    match o {
        Some(s) => Some(s@),
        None => None,
    }
}

/// Whether `name` is the package being documented.
fn names_current(current_package: Option<&str>, name: &str) -> (r: bool)
    ensures
        r == is_current(opt_view(current_package), name@),
{
    match current_package {
        Some(current) => same_text(current, name),
        None => false,
    }
}

/// A usable list has one name for each word.
proof fn usable_names_len(words: Seq<Seq<char>>)
    ensures
        usable_names(words) matches Some(names) ==> names.len() == words.len(),
    decreases words.len(),
{
    if words.len() > 0 {
        usable_names_len(words.drop_last());
    }
}

/// Collects an `@import`.
fn collect_import(
    tag: &NamespaceTag,
    words: &Vec<Spanned<String>>,
    current_package: Option<&str>,
) -> (r: Collected)
    requires
        spanned_texts(words@) == tag_words(*tag),
        forall|i: int| 0 <= i < words@.len() ==> (#[trigger] words@[i]).span == tag_word_span(*tag, i),
    ensures
        r@ == import_outcome(*tag, opt_view(current_package)),
{
    let ghost shown = spanned_texts(words@);
    if words.len() == 0 {
        return refuse(tag, "@import requires at least one package name");
    }
    let mut comma: bool = false;
    let mut i: usize = 0;
    while i < words.len()
        invariant
            i <= words@.len(),
            shown == spanned_texts(words@),
            comma == any_comma(shown.take(i as int)),
        decreases words@.len() - i,
    {
        let here: bool = contains_char(words[i].value.as_str(), ',');
        proof {
            let prefix = shown.take(i + 1);
            assert(prefix[i as int] == words@[i as int].value@);
            if comma {
                let k = choose|k: int|
                    0 <= k < shown.take(i as int).len() && (#[trigger] shown.take(
                        i as int,
                    )[k]).contains(',');
                assert(prefix[k].contains(','));
            }
            if any_comma(prefix) && !here {
                let k = choose|k: int| 0 <= k < prefix.len() && (#[trigger] prefix[k]).contains(',');
                assert(shown.take(i as int)[k].contains(','));
            }
        }
        comma = comma || here;
        i = i + 1;
    }
    proof {
        assert(shown.take(shown.len() as int) =~= shown);
        assert(shown.skip(0) =~= shown);
    }
    if comma {
        let verbatim = join_words(words);
        return match NamespaceVerbatim::new(verbatim) {
            Some(value) => accept_one(NamespaceDirective::ImportVerbatim { value }),
            None => refuse(tag, "@import contains empty or undecodable directive text"),
        };
    }
    let Some(names) = normalize_names(words, 0) else {
        return refuse(tag, "@import contains an empty or undecodable package name");
    };
    let ghost listed = object_texts(names@);
    proof {
        usable_names_len(shown);
    }
    let mut directives: Vec<NamespaceDirective> = Vec::new();
    let mut diagnostics = Diagnostics::new();
    let mut k: usize = 0;
    proof {
        assert(directive_views(directives@) =~= Seq::<DirectiveView>::empty());
    }
    while k < names.len()
        invariant
            k <= names@.len() == words@.len(),
            listed == object_texts(names@),
            forall|i: int|
                0 <= i < words@.len() ==> (#[trigger] words@[i]).span == tag_word_span(*tag, i),
            directive_views(directives@) == package_imports(
                *tag,
                listed,
                opt_view(current_package),
                k as int,
            ).directives,
            diagnostics@ == package_imports(
                *tag,
                listed,
                opt_view(current_package),
                k as int,
            ).diagnostics,
        decreases names@.len() - k,
    {
        let ghost before = directive_views(directives@);
        let package = names[k].as_str();
        proof {
            assert(listed[k as int] == names@[k as int]@);
        }
        if names_current(current_package, package) {
            diagnostics.push(warn_self_import(tag, package, words[k].span));
        } else {
            directives.push(
                NamespaceDirective::Import { package: NamespacePackageName(package.to_owned()) },
            );
            proof {
                assert(directive_views(directives@) =~= before.push(
                    DirectiveView::Import { package: names@[k as int]@ },
                ));
            }
        }
        k = k + 1;
    }
    Collected { directives, diagnostics }
}

/// A directive that imports one name from a package.
pub open spec fn named_import(tag: NamespaceTag, package: Seq<char>, name: Seq<char>) -> DirectiveView {
    match tag {
        NamespaceTag::ImportClassesFrom(_) => DirectiveView::ImportClassesFrom { package, name },
        _ => DirectiveView::ImportMethodsFrom { package, name },
    }
}

/// What `@importFrom` contributes.
pub open spec fn import_from_outcome(
    tag: NamespaceTag,
    current_package: Option<Seq<char>>,
) -> CollectedView {
    let words = tag_words(tag);
    if words.len() < 2 {
        refused(tag, "@importFrom requires a package and at least one name"@)
    } else {
        match usable_name(words[0]) {
            None => refused(tag, "@importFrom contains an empty or undecodable package name"@),
            Some(package) => if is_current(current_package, package) {
                CollectedView {
                    directives: Seq::empty(),
                    diagnostics: seq![self_import(tag, package, tag_word_span(tag, 0))],
                }
            } else {
                match usable_names(words.skip(1)) {
                    Some(names) => accepted(
                        seq![
                            DirectiveView::ImportFrom { package, names: in_spelling_order(names) },
                        ],
                    ),
                    None => refused(tag, "@importFrom contains an empty or undecodable name"@),
                }
            },
        }
    }
}

/// What `@importClassesFrom` and `@importMethodsFrom` contribute.
pub open spec fn import_named_outcome(
    tag: NamespaceTag,
    current_package: Option<Seq<char>>,
    message: Seq<char>,
) -> CollectedView {
    let words = tag_words(tag);
    if words.len() < 2 {
        refused(tag, message)
    } else {
        match usable_name(words[0]) {
            None => refused(tag, message),
            Some(package) => if is_current(current_package, package) {
                CollectedView {
                    directives: Seq::empty(),
                    diagnostics: seq![self_import(tag, package, tag_word_span(tag, 0))],
                }
            } else {
                match usable_names(words.skip(1)) {
                    Some(names) => accepted(
                        names.map_values(|name: Seq<char>| named_import(tag, package, name)),
                    ),
                    None => refused(tag, message),
                }
            },
        }
    }
}

/// Answers a request with the report of a self import.
fn report_self_import(tag: &NamespaceTag, package: &str, span: Span) -> (r: Collected)
    ensures
        r@ == (CollectedView {
            directives: Seq::empty(),
            diagnostics: seq![self_import(*tag, package@, span)],
        }),
{
    let mut diagnostics = Diagnostics::new();
    diagnostics.push(warn_self_import(tag, package, span));
    let r = Collected { directives: Vec::new(), diagnostics };
    proof {
        assert(r@.directives =~= Seq::<DirectiveView>::empty());
        assert(r@.diagnostics =~= seq![self_import(*tag, package@, span)]);
    }
    r
}

/// Collects an `@importFrom`.
fn collect_import_from(
    tag: &NamespaceTag,
    words: &Vec<Spanned<String>>,
    current_package: Option<&str>,
) -> (r: Collected)
    requires
        spanned_texts(words@) == tag_words(*tag),
        forall|i: int| 0 <= i < words@.len() ==> (#[trigger] words@[i]).span == tag_word_span(*tag, i),
    ensures
        r@ == import_from_outcome(*tag, opt_view(current_package)),
{
    let ghost shown = spanned_texts(words@);
    if words.len() < 2 {
        return refuse(tag, "@importFrom requires a package and at least one name");
    }
    proof {
        assert(shown[0] == words@[0].value@);
        usable_names_len(shown.skip(1));
    }
    let Some(package) = normalize_package_name(words[0].value.as_str()) else {
        return refuse(tag, "@importFrom contains an empty or undecodable package name");
    };
    if names_current(current_package, package.as_str()) {
        return report_self_import(tag, package.as_str(), words[0].span);
    }
    let Some(names) = normalize_names(words, 1) else {
        return refuse(tag, "@importFrom contains an empty or undecodable name");
    };
    match NonEmptyNamespaceNames::new(names) {
        Some(names) => accept_one(NamespaceDirective::ImportFrom { package, names }),
        None => refuse(tag, "@importFrom contains an empty or undecodable name"),
    }
}

/// Collects an `@importClassesFrom` or `@importMethodsFrom`.
fn collect_import_named(
    tag: &NamespaceTag,
    words: &Vec<Spanned<String>>,
    current_package: Option<&str>,
    message: &str,
) -> (r: Collected)
    requires
        spanned_texts(words@) == tag_words(*tag),
        forall|i: int| 0 <= i < words@.len() ==> (#[trigger] words@[i]).span == tag_word_span(*tag, i),
    ensures
        r@ == import_named_outcome(*tag, opt_view(current_package), message@),
{
    let ghost shown = spanned_texts(words@);
    if words.len() < 2 {
        return refuse(tag, message);
    }
    proof {
        assert(shown[0] == words@[0].value@);
    }
    let Some(package) = normalize_package_name(words[0].value.as_str()) else {
        return refuse(tag, message);
    };
    if names_current(current_package, package.as_str()) {
        return report_self_import(tag, package.as_str(), words[0].span);
    }
    let Some(names) = normalize_names(words, 1) else {
        return refuse(tag, message);
    };
    let ghost listed = object_texts(names@);
    let ghost make = |name: Seq<char>| named_import(*tag, package@, name);
    let classes: bool = matches!(tag, NamespaceTag::ImportClassesFrom(_));
    let mut directives: Vec<NamespaceDirective> = Vec::new();
    for name in it: names
        invariant
            object_texts(it.seq()) == listed,
            classes == (tag is ImportClassesFrom),
            make == (|name: Seq<char>| named_import(*tag, package@, name)),
            directive_views(directives@) == listed.take(it.index() as int).map_values(make),
    {
        let ghost before = directive_views(directives@);
        let ghost one = name@;
        let owned = NamespacePackageName(package.as_str().to_owned());
        if classes {
            directives.push(NamespaceDirective::ImportClassesFrom { package: owned, name });
        } else {
            directives.push(NamespaceDirective::ImportMethodsFrom { package: owned, name });
        }
        proof {
            assert(listed[it.index() as int] == one);
            assert(directive_views(directives@) =~= before.push(make(one)));
            assert(directive_views(directives@) =~= listed.take(it.index() + 1).map_values(make));
        }
    }
    proof {
        assert(listed.take(listed.len() as int) =~= listed);
    }
    accept(directives)
}

/// What `@useDynLib` contributes. A value with a comma is passed through; a
/// package alone loads the library; further words load routines.
pub open spec fn use_dyn_lib_outcome(tag: NamespaceTag) -> CollectedView {
    let words = tag_words(tag);
    let value = tag_value(tag).value@;
    if words.len() == 0 {
        refused(tag, "@useDynLib requires a package name"@)
    } else if value.contains(',') {
        if usable_text(value) {
            accepted(seq![DirectiveView::UseDynLib { value }])
        } else {
            refused(tag, "@useDynLib contains empty or undecodable directive text"@)
        }
    } else {
        match usable_name(words[0]) {
            None => refused(tag, "@useDynLib contains an empty or undecodable package name"@),
            Some(package) => if words.len() == 1 {
                accepted(seq![DirectiveView::UseDynLib { value: quoted(package) }])
            } else {
                match usable_names(words.skip(1)) {
                    None => refused(
                        tag,
                        "@useDynLib contains an empty or undecodable routine name"@,
                    ),
                    Some(routines) => accepted(
                        routines.map_values(
                            |routine: Seq<char>| DirectiveView::UseDynLib {
                                value: quoted(package) + ","@ + quoted(routine),
                            },
                        ),
                    ),
                }
            },
        }
    }
}

/// Quoting keeps a usable name usable: a quoted name is never empty and holds
/// no NUL.
pub proof fn quoted_is_usable(name: Seq<char>)
    requires
        usable_text(name),
    ensures
        usable_text(quoted(name)),
{
    if !crate::r_syntax::syntactic_name(name) {
        escaped_without_nul(name);
        let q = quoted(name);
        let e = super::render::escaped(name);
        assert forall|i: int| 0 <= i < q.len() implies q[i] != '\0' by {
            if 0 < i < q.len() - 1 {
                assert(q[i] == e[i - 1]);
                assert(e.contains(e[i - 1]));
            }
        }
    }
}

proof fn escaped_without_nul(name: Seq<char>)
    requires
        !name.contains('\0'),
    ensures
        !super::render::escaped(name).contains('\0'),
    decreases name.len(),
{
    if name.len() > 0 {
        let before = name.drop_last();
        assert forall|i: int| 0 <= i < before.len() implies before[i] != '\0' by {
            assert(name.contains(name[i]));
        }
        escaped_without_nul(before);
        assert(name.contains(name.last()));
        let x = super::render::escaped(before);
        let y = super::render::escape_char(name.last());
        let e = super::render::escaped(name);
        assert forall|i: int| 0 <= i < e.len() implies e[i] != '\0' by {
            if i < x.len() {
                assert(e[i] == x[i]);
                assert(x.contains(x[i]));
            } else {
                assert(e[i] == y[i - x.len()]);
            }
        }
    }
}

/// Collects a `@useDynLib`.
fn collect_use_dyn_lib(tag: &NamespaceTag, words: &Vec<Spanned<String>>) -> (r: Collected)
    requires
        spanned_texts(words@) == tag_words(*tag),
    ensures
        r@ == use_dyn_lib_outcome(*tag),
{
    let ghost shown = spanned_texts(words@);
    if words.len() == 0 {
        return refuse(tag, "@useDynLib requires a package name");
    }
    let value = tag_name_and_value(tag).value.as_str();
    if contains_char(value, ',') {
        return match NamespaceVerbatim::new(value.to_owned()) {
            Some(value) => accept_one(NamespaceDirective::UseDynLib { value }),
            None => refuse(tag, "@useDynLib contains empty or undecodable directive text"),
        };
    }
    proof {
        assert(shown[0] == words@[0].value@);
    }
    let Some(package) = normalize_package_name(words[0].value.as_str()) else {
        return refuse(tag, "@useDynLib contains an empty or undecodable package name");
    };
    let spelled = quote_name(package.as_str());
    if words.len() == 1 {
        return accept_one(NamespaceDirective::UseDynLib { value: NamespaceVerbatim(spelled) });
    }
    let Some(routines) = normalize_names(words, 1) else {
        return refuse(tag, "@useDynLib contains an empty or undecodable routine name");
    };
    let ghost listed = object_texts(routines@);
    let ghost make = |routine: Seq<char>|
        DirectiveView::UseDynLib { value: quoted(package@) + ","@ + quoted(routine) };
    let mut directives: Vec<NamespaceDirective> = Vec::new();
    for routine in it: routines
        invariant
            object_texts(it.seq()) == listed,
            spelled@ == quoted(package@),
            make == (|routine: Seq<char>|
                DirectiveView::UseDynLib { value: quoted(package@) + ","@ + quoted(routine) }),
            directive_views(directives@) == listed.take(it.index() as int).map_values(make),
    {
        let ghost before = directive_views(directives@);
        let ghost one = routine@;
        let name = quote_name(routine.as_str());
        directives.push(
            NamespaceDirective::UseDynLib {
                value: NamespaceVerbatim(text3(spelled.as_str(), ",", name.as_str())),
            },
        );
        proof {
            assert(listed[it.index() as int] == one);
            assert(directive_views(directives@) =~= before.push(make(one)));
            assert(directive_views(directives@) =~= listed.take(it.index() + 1).map_values(make));
        }
    }
    proof {
        assert(listed.take(listed.len() as int) =~= listed);
    }
    accept(directives)
}

/// What `@rawNamespace` contributes, given whether its text parses as R.
pub open spec fn raw_namespace_outcome(tag: NamespaceTag, parses: bool) -> CollectedView {
    let value = tag_value(tag).value@;
    if !usable_text(value) {
        refused(tag, "@rawNamespace contains empty or undecodable directive text"@)
    } else if !parses {
        refused(tag, "@rawNamespace failed to parse as R source"@)
    } else {
        accepted(seq![DirectiveView::RawNamespace { value }])
    }
}

/// Collects a `@rawNamespace` whose text does or does not parse as R.
pub fn collect_raw_namespace(tag: &NamespaceTag, parses: bool) -> (r: Collected)
    ensures
        r@ == raw_namespace_outcome(*tag, parses),
{
    let text = tag_name_and_value(tag).value.as_str();
    let Some(value) = NamespaceVerbatim::new(text.to_owned()) else {
        return refuse(tag, "@rawNamespace contains empty or undecodable directive text");
    };
    if !parses {
        return refuse(tag, "@rawNamespace failed to parse as R source");
    }
    accept_one(NamespaceDirective::RawNamespace { value })
}

/// A directive that exports one pattern, class or method.
pub open spec fn named_export(tag: NamespaceTag, name: Seq<char>) -> DirectiveView {
    match tag {
        NamespaceTag::ExportPattern(_) => DirectiveView::ExportPattern { pattern: name },
        NamespaceTag::ExportClass(_) => DirectiveView::ExportClass { name },
        _ => DirectiveView::ExportMethod { name },
    }
}

/// What `@exportPattern`, `@exportClass` and `@exportMethod` contribute.
pub open spec fn named_export_outcome(tag: NamespaceTag) -> CollectedView {
    let words = tag_words(tag);
    match tag {
        NamespaceTag::ExportPattern(_) => match usable_names(words) {
            Some(names) => if names.len() == 0 {
                refused(tag, "@exportPattern requires a pattern"@)
            } else {
                accepted(names.map_values(|name: Seq<char>| named_export(tag, name)))
            },
            None => refused(tag, "@exportPattern requires a pattern"@),
        },
        NamespaceTag::ExportClass(_) => if words.len() != 1 {
            refused(tag, "@exportClass requires exactly one class name"@)
        } else {
            match usable_names(words) {
                Some(names) => accepted(
                    names.map_values(|name: Seq<char>| named_export(tag, name)),
                ),
                None => refused(tag, "@exportClass contains an empty or undecodable name"@),
            }
        },
        _ => match usable_names(words) {
            Some(names) => accepted(names.map_values(|name: Seq<char>| named_export(tag, name))),
            None => refused(tag, "@exportMethod contains an empty or undecodable name"@),
        },
    }
}

/// Collects an `@exportPattern`, `@exportClass` or `@exportMethod`.
fn collect_named_export(tag: &NamespaceTag, words: &Vec<Spanned<String>>) -> (r: Collected)
    requires
        spanned_texts(words@) == tag_words(*tag),
    ensures
        r@ == named_export_outcome(*tag),
{
    let ghost shown = spanned_texts(words@);
    proof {
        assert(shown.skip(0) =~= shown);
        usable_names_len(shown);
    }
    if matches!(tag, NamespaceTag::ExportClass(_)) && words.len() != 1 {
        return refuse(tag, "@exportClass requires exactly one class name");
    }
    let Some(names) = normalize_names(words, 0) else {
        return match tag {
            NamespaceTag::ExportPattern(_) => refuse(tag, "@exportPattern requires a pattern"),
            NamespaceTag::ExportClass(_) => refuse(
                tag,
                "@exportClass contains an empty or undecodable name",
            ),
            _ => refuse(tag, "@exportMethod contains an empty or undecodable name"),
        };
    };
    if matches!(tag, NamespaceTag::ExportPattern(_)) && names.len() == 0 {
        return refuse(tag, "@exportPattern requires a pattern");
    }
    let ghost listed = object_texts(names@);
    let ghost make = |name: Seq<char>| named_export(*tag, name);
    let mut directives: Vec<NamespaceDirective> = Vec::new();
    for name in it: names
        invariant
            object_texts(it.seq()) == listed,
            make == (|name: Seq<char>| named_export(*tag, name)),
            directive_views(directives@) == listed.take(it.index() as int).map_values(make),
    {
        let ghost before = directive_views(directives@);
        let ghost one = name@;
        match tag {
            NamespaceTag::ExportPattern(_) => {
                directives.push(NamespaceDirective::ExportPattern { pattern: name });
            },
            NamespaceTag::ExportClass(_) => {
                directives.push(NamespaceDirective::ExportClass { name });
            },
            _ => {
                directives.push(NamespaceDirective::ExportMethod { name });
            },
        }
        proof {
            assert(listed[it.index() as int] == one);
            assert(directive_views(directives@) =~= before.push(make(one)));
            assert(directive_views(directives@) =~= listed.take(it.index() + 1).map_values(make));
        }
    }
    proof {
        assert(listed.take(listed.len() as int) =~= listed);
    }
    accept(directives)
}

/// Where the last `::` in a text begins.
pub open spec fn last_double_colon(text: Seq<char>, upto: int) -> Option<int>
    decreases upto,
{
    if upto < 2 {
        None
    } else if text[upto - 2] == ':' && text[upto - 1] == ':' {
        Some(upto - 2)
    } else {
        last_double_colon(text, upto - 1)
    }
}

/// What `@exportS3Method` contributes. Two words name generic and class; one
/// word names the generic as `package::generic` and the class is what follows
/// the generic and a dot in the function's name; `NULL` asks for nothing.
pub open spec fn export_s3_outcome(request: NamespaceRequest, facts: S3Facts) -> CollectedView {
    let tag = request.tag;
    let words = tag_words(tag);
    if words.len() == 2 {
        if !usable_text(words[0]) {
            refused(tag, "@exportS3Method contains an empty or undecodable generic"@)
        } else if !usable_text(words[1]) {
            refused(tag, "@exportS3Method contains an empty or undecodable class"@)
        } else {
            accepted(
                seq![
                    DirectiveView::S3Method {
                        generic: ArgumentView::Literal(words[0]),
                        class: ArgumentView::Literal(words[1]),
                    },
                ],
            )
        }
    } else if words.len() == 1 {
        let generic = words[0];
        if generic == "NULL"@ {
            accepted(Seq::empty())
        } else {
            match request.object {
                None => refused(tag, "@exportS3Method must be used with a known function object"@),
                Some(object) => if !(request.object_is_function || resolved(facts, object@)
                    is Function) {
                    refused(tag, "@exportS3Method must be used with a function"@)
                } else {
                    match last_double_colon(generic, generic.len() as int) {
                        None => refused(tag, "@exportS3Method must have form package::generic"@),
                        Some(at) => {
                            let component = generic.skip(at + 2);
                            if at == 0 || component.len() == 0 {
                                refused(tag, "@exportS3Method must have form package::generic"@)
                            } else {
                                match after_prefix(object@, component + "."@) {
                                    None => refused(
                                        tag,
                                        "@exportS3Method generic ("@ + component
                                            + ") doesn't match function ("@ + object@ + ")"@,
                                    ),
                                    Some(class) => if class.len() == 0 {
                                        refused(
                                            tag,
                                            "@exportS3Method derives an empty class from the function name"@,
                                        )
                                    } else if !usable_text(generic) {
                                        refused(
                                            tag,
                                            "@exportS3Method contains an empty or undecodable generic"@,
                                        )
                                    } else if !usable_text(class) {
                                        refused(
                                            tag,
                                            "@exportS3Method contains an empty or undecodable class"@,
                                        )
                                    } else {
                                        accepted(
                                            seq![
                                                DirectiveView::S3Method {
                                                    generic: ArgumentView::Literal(generic),
                                                    class: ArgumentView::Literal(class),
                                                },
                                            ],
                                        )
                                    },
                                }
                            }
                        },
                    }
                },
            }
        }
    } else {
        refused(tag, "@exportS3Method requires one or two words"@)
    }
}

/// Finds the last `::`.
fn find_double_colon(chars: &Vec<char>) -> (r: Option<usize>)
    ensures
        match r {
            Some(at) => last_double_colon(chars@, chars@.len() as int) == Some(at as int) && at + 2
                <= chars.len(),
            None => last_double_colon(chars@, chars@.len() as int) is None,
        },
{
    let mut upto: usize = chars.len();
    while upto >= 2
        invariant
            upto <= chars.len(),
            upto <= chars@.len(),
            last_double_colon(chars@, chars@.len() as int) == last_double_colon(
                chars@,
                upto as int,
            ),
        decreases upto,
    {
        if chars[upto - 2] == ':' && chars[upto - 1] == ':' {
            return Some(upto - 2);
        }
        upto = upto - 1;
    }
    None
}

/// Collects an `@exportS3Method`.
fn collect_export_s3<P: S3GenericProvider>(
    request: &NamespaceRequest,
    words: &Vec<Spanned<String>>,
    analyzer: &S3Analyzer<P>,
) -> (r: Collected)
    requires
        spanned_texts(words@) == tag_words(request.tag),
    ensures
        r@ == export_s3_outcome(*request, analyzer.facts()),
{
    let tag = &request.tag;
    let ghost shown = spanned_texts(words@);
    if words.len() == 2 {
        proof {
            assert(shown[0] == words@[0].value@);
            assert(shown[1] == words@[1].value@);
        }
        let Some(generic) = NamespaceS3MethodArgument::literal(words[0].value.clone()) else {
            return refuse(tag, "@exportS3Method contains an empty or undecodable generic");
        };
        let Some(class) = NamespaceS3MethodArgument::literal(words[1].value.clone()) else {
            return refuse(tag, "@exportS3Method contains an empty or undecodable class");
        };
        return accept_one(NamespaceDirective::S3Method { generic, class });
    }
    if words.len() != 1 {
        return refuse(tag, "@exportS3Method requires one or two words");
    }
    proof {
        assert(shown[0] == words@[0].value@);
    }
    let generic = words[0].value.as_str();
    // `@exportS3Method NULL` asks for no directive at all: the method is
    // registered at load time instead. Nothing about the documented object is
    // consulted, so this decision comes before any question about it.
    if same_text(generic, "NULL") {
        let none: Vec<NamespaceDirective> = Vec::new();
        proof {
            assert(directive_views(none@) =~= Seq::<DirectiveView>::empty());
        }
        return accept(none);
    }
    let Some(object) = &request.object else {
        return refuse(tag, "@exportS3Method must be used with a known function object");
    };
    if !(request.object_is_function || analyzer.is_proven_function(object.as_str())) {
        return refuse(tag, "@exportS3Method must be used with a function");
    }
    let chars = char_vec(generic);
    let Some(at) = find_double_colon(&chars) else {
        return refuse(tag, "@exportS3Method must have form package::generic");
    };
    let component = text_of(&chars, at + 2, chars.len());
    proof {
        assert(component@ =~= shown[0].skip(at + 2));
    }
    if at == 0 || component.as_str().is_empty() {
        return refuse(tag, "@exportS3Method must have form package::generic");
    }
    let prefix = text2(component.as_str(), ".");
    let Some(class) = strip_prefix(object.as_str(), prefix.as_str()) else {
        let message = text5(
            "@exportS3Method generic (",
            component.as_str(),
            ") doesn't match function (",
            object.as_str(),
            ")",
        );
        return refuse(tag, message.as_str());
    };
    if class.as_str().is_empty() {
        return refuse(tag, "@exportS3Method derives an empty class from the function name");
    }
    let Some(generic) = NamespaceS3MethodArgument::literal(words[0].value.clone()) else {
        return refuse(tag, "@exportS3Method contains an empty or undecodable generic");
    };
    let Some(class) = NamespaceS3MethodArgument::literal(class) else {
        return refuse(tag, "@exportS3Method contains an empty or undecodable class");
    };
    accept_one(NamespaceDirective::S3Method { generic, class })
}

/// What one request contributes.
pub open spec fn request_outcome(
    request: NamespaceRequest,
    current_package: Option<Seq<char>>,
    facts: S3Facts,
    warned: Seq<Seq<char>>,
) -> CollectedView {
    match request.tag {
        NamespaceTag::Export(_) => export_outcome(request, facts, warned),
        NamespaceTag::Import(_) => import_outcome(request.tag, current_package),
        NamespaceTag::ImportFrom(_) => import_from_outcome(request.tag, current_package),
        NamespaceTag::UseDynLib(_) => use_dyn_lib_outcome(request.tag),
        NamespaceTag::RawNamespace(_) => raw_namespace_outcome(
            request.tag,
            r_source_parses(tag_value(request.tag).value@),
        ),
        NamespaceTag::ExportPattern(_) => named_export_outcome(request.tag),
        NamespaceTag::ExportClass(_) => named_export_outcome(request.tag),
        NamespaceTag::ExportMethod(_) => named_export_outcome(request.tag),
        NamespaceTag::ImportClassesFrom(_) => import_named_outcome(
            request.tag,
            current_package,
            "@importClassesFrom requires a package and at least one class"@,
        ),
        NamespaceTag::ImportMethodsFrom(_) => import_named_outcome(
            request.tag,
            current_package,
            "@importMethodsFrom requires a package and at least one method"@,
        ),
        NamespaceTag::ExportS3Method(_) => export_s3_outcome(request, facts),
    }
}

/// Validates one request: adds its directives and its reports, and remembers
/// an object that was reported as unresolved.
pub fn collect_request<P: S3GenericProvider>(
    request: &NamespaceRequest,
    current_package: Option<&str>,
    analyzer: &S3Analyzer<P>,
    warned_s3_objects: &mut Vec<String>,
    directives: &mut Vec<NamespaceDirective>,
    diagnostics: &mut Diagnostics,
)
    ensures
        directive_views(final(directives)@) == directive_views(old(directives)@) + request_outcome(
            *request,
            opt_view(current_package),
            analyzer.facts(),
            texts(old(warned_s3_objects)@),
        ).directives,
        final(diagnostics)@ == old(diagnostics)@ + request_outcome(
            *request,
            opt_view(current_package),
            analyzer.facts(),
            texts(old(warned_s3_objects)@),
        ).diagnostics,
        texts(final(warned_s3_objects)@) == export_warned(
            *request,
            analyzer.facts(),
            texts(old(warned_s3_objects)@),
        ),
{
    let tag = &request.tag;
    let words = read_words(tag);
    let collected: Collected = match tag {
        NamespaceTag::Export(_) => collect_export(request, &words, analyzer, warned_s3_objects),
        NamespaceTag::Import(_) => collect_import(tag, &words, current_package),
        NamespaceTag::ImportFrom(_) => collect_import_from(tag, &words, current_package),
        NamespaceTag::UseDynLib(_) => collect_use_dyn_lib(tag, &words),
        NamespaceTag::RawNamespace(value) => {
            let parses: bool = can_parse_namespace_source(value.value.as_str());
            collect_raw_namespace(tag, parses)
        },
        NamespaceTag::ExportPattern(_) => collect_named_export(tag, &words),
        NamespaceTag::ExportClass(_) => collect_named_export(tag, &words),
        NamespaceTag::ExportMethod(_) => collect_named_export(tag, &words),
        NamespaceTag::ImportClassesFrom(_) => collect_import_named(
            tag,
            &words,
            current_package,
            "@importClassesFrom requires a package and at least one class",
        ),
        NamespaceTag::ImportMethodsFrom(_) => collect_import_named(
            tag,
            &words,
            current_package,
            "@importMethodsFrom requires a package and at least one method",
        ),
        NamespaceTag::ExportS3Method(_) => collect_export_s3(request, &words, analyzer),
    };
    let Collected { directives: more, diagnostics: reports } = collected;
    let mut more = more;
    let ghost added = more@;
    directives.append(&mut more);
    proof {
        assert(directive_views(directives@) =~= directive_views(old(directives)@)
            + directive_views(added));
    }
    diagnostics.extend(reports);
}

} // verus!
