//! Builds NAMESPACE text from the requests of a package.
use crate::diagnostic::Diagnostics;
use crate::model::ir::{NamespaceRequest, PackageModel};
use crate::source::SourceMap;
use crate::text::{at_most, sort_texts, sorted_texts, text_le, text_lt, texts};
use vstd::prelude::*;

use super::collect::{
    collect_request, directive_views, export_warned, opt_view, request_outcome, CollectedView,
};
use super::ir::{
    directive_text, object_texts, render_import_from, same_directive, DirectiveView,
    NamespaceBuildOutput, NamespaceDirective, NamespaceObjectName,
};
use super::render::{quote_name, quoted};
use super::s3::{facts_of, EmptyS3GenericProvider, S3Analyzer, S3Facts, S3GenericProvider};

verus! {

/// The first line of every generated NAMESPACE file, and a blank line.
pub open spec fn namespace_header() -> Seq<char> {
    "# Generated by mini-roxygen (roxygen2 compatible): do not edit by hand\n\n"@
}

/// The objects that the first `count` requests reported as unresolved.
pub open spec fn warned_objects(requests: Seq<NamespaceRequest>, facts: S3Facts, count: int) -> Seq<
    Seq<char>,
>
    decreases count,
{
    if count <= 0 {
        Seq::empty()
    } else {
        export_warned(
            requests[count - 1],
            facts,
            warned_objects(requests, facts, count - 1),
        )
    }
}

/// What the first `count` requests contribute, in their order.
pub open spec fn collected(
    requests: Seq<NamespaceRequest>,
    current_package: Option<Seq<char>>,
    facts: S3Facts,
    count: int,
) -> CollectedView
    decreases count,
{
    if count <= 0 {
        CollectedView { directives: Seq::empty(), diagnostics: Seq::empty() }
    } else {
        let before = collected(requests, current_package, facts, count - 1);
        let more = request_outcome(
            requests[count - 1],
            current_package,
            facts,
            warned_objects(requests, facts, count - 1),
        );
        CollectedView {
            directives: before.directives + more.directives,
            diagnostics: before.diagnostics + more.diagnostics,
        }
    }
}

/// Whether a directive stands for the line of one in a list.
pub open spec fn lists_directive(list: Seq<DirectiveView>, directive: DirectiveView) -> bool {
    exists|i: int| 0 <= i < list.len() && same_directive(#[trigger] list[i], directive)
}

/// The first directive of each line.
pub open spec fn distinct_directives(directives: Seq<DirectiveView>) -> Seq<DirectiveView>
    decreases directives.len(),
{
    if directives.len() == 0 {
        Seq::empty()
    } else {
        let before = distinct_directives(directives.drop_last());
        if lists_directive(before, directives.last()) {
            before
        } else {
            before.push(directives.last())
        }
    }
}

/// A name put in its place in a list that is ordered by quoted spelling.
pub open spec fn with_name(names: Seq<Seq<char>>, name: Seq<char>) -> Seq<Seq<char>>
    decreases names.len(),
{
    if names.len() == 0 {
        seq![name]
    } else if text_le(quoted(names.last()), quoted(name)) {
        if names.last() == name {
            names
        } else {
            names.push(name)
        }
    } else {
        with_name(names.drop_last(), name).push(names.last())
    }
}

/// Names put in their places one after the other.
pub open spec fn with_names(names: Seq<Seq<char>>, more: Seq<Seq<char>>) -> Seq<Seq<char>>
    decreases more.len(),
{
    if more.len() == 0 {
        names
    } else {
        with_name(with_names(names, more.drop_last()), more.last())
    }
}

/// What is imported from one package.
pub struct ImportView {
    pub package: Seq<char>,
    pub names: Seq<Seq<char>>,
}

/// Where a package stands in a list of imports.
pub open spec fn import_position(imports: Seq<ImportView>, package: Seq<char>) -> Option<int>
    decreases imports.len(),
{
    if imports.len() == 0 {
        None
    } else {
        match import_position(imports.drop_last(), package) {
            Some(i) => Some(i),
            None => if imports.last().package == package {
                Some(imports.len() - 1)
            } else {
                None
            },
        }
    }
}

/// One more `importFrom`, merged into those of its package.
pub open spec fn with_import(
    imports: Seq<ImportView>,
    package: Seq<char>,
    names: Seq<Seq<char>>,
) -> Seq<ImportView> {
    match import_position(imports, package) {
        Some(i) => imports.update(
            i,
            ImportView { package, names: with_names(imports[i].names, names) },
        ),
        None => imports.push(ImportView { package, names: with_names(Seq::empty(), names) }),
    }
}

/// All `importFrom` directives, one entry for each package.
pub open spec fn merged_imports(directives: Seq<DirectiveView>) -> Seq<ImportView>
    decreases directives.len(),
{
    if directives.len() == 0 {
        Seq::empty()
    } else {
        let before = merged_imports(directives.drop_last());
        match directives.last() {
            DirectiveView::ImportFrom { package, names } => with_import(before, package, names),
            _ => before,
        }
    }
}

/// The lines of all directives but `importFrom`.
pub open spec fn other_lines(directives: Seq<DirectiveView>) -> Seq<Seq<char>>
    decreases directives.len(),
{
    if directives.len() == 0 {
        Seq::empty()
    } else {
        let before = other_lines(directives.drop_last());
        match directives.last() {
            DirectiveView::ImportFrom { .. } => before,
            other => before.push(directive_text(other)),
        }
    }
}

/// The lines of imports.
pub open spec fn import_lines(imports: Seq<ImportView>) -> Seq<Seq<char>> {
    imports.map_values(
        |entry: ImportView|
            directive_text(
                DirectiveView::ImportFrom { package: entry.package, names: entry.names },
            ),
    )
}

/// The lines that directives give, before they are ordered: repeated
/// directives count once and imports are merged for each package.
pub open spec fn namespace_lines(directives: Seq<DirectiveView>) -> Seq<Seq<char>> {
    let kept = distinct_directives(directives);
    other_lines(kept) + import_lines(merged_imports(kept))
}

/// Lines, each ended by a newline.
pub open spec fn ended_lines(lines: Seq<Seq<char>>) -> Seq<char>
    decreases lines.len(),
{
    if lines.len() == 0 {
        Seq::empty()
    } else {
        ended_lines(lines.drop_last()) + lines.last() + "\n"@
    }
}

/// The same lines in ascending order.
pub open spec fn orders(ordered: Seq<Seq<char>>, lines: Seq<Seq<char>>) -> bool {
    sorted_texts(ordered) && ordered.to_multiset() == lines.to_multiset()
}

/// A NAMESPACE text: the header and the lines in ascending order.
pub open spec fn is_namespace_text(text: Seq<char>, lines: Seq<Seq<char>>) -> bool {
    exists|ordered: Seq<Seq<char>>|
        #[trigger] orders(ordered, lines) && text == namespace_header() + ended_lines(ordered)
}

/// Whether a directive stands for the line of one in a list.
fn has_line(list: &Vec<NamespaceDirective>, directive: &NamespaceDirective) -> (r: bool)
    ensures
        r == lists_directive(directive_views(list@), directive@),
{
    let ghost shown = directive_views(list@);
    let mut i: usize = 0;
    while i < list.len()
        invariant
            i <= list@.len(),
            shown == directive_views(list@),
            forall|k: int| 0 <= k < i ==> !same_directive(#[trigger] shown[k], directive@),
        decreases list@.len() - i,
    {
        if list[i].same_line(directive) {
            assert(same_directive(shown[i as int], directive@));
            return true;
        }
        assert(!same_directive(shown[i as int], directive@));
        i = i + 1;
    }
    false
}

/// Keeps the first directive of each line.
fn deduplicate(directives: Vec<NamespaceDirective>) -> (r: Vec<NamespaceDirective>)
    ensures
        directive_views(r@) == distinct_directives(directive_views(directives@)),
{
    let ghost shown = directive_views(directives@);
    let mut kept: Vec<NamespaceDirective> = Vec::new();
    proof {
        assert(directive_views(kept@) =~= distinct_directives(shown.take(0)));
    }
    for directive in it: directives
        invariant
            directive_views(it.seq()) == shown,
            directive_views(kept@) == distinct_directives(shown.take(it.index() as int)),
    {
        let ghost before = directive_views(kept@);
        let ghost prefix = shown.take(it.index() + 1);
        proof {
            assert(prefix.drop_last() =~= shown.take(it.index() as int));
            assert(prefix.last() == directive@);
        }
        let seen: bool = has_line(&kept, &directive);
        if !seen {
            kept.push(directive);
            proof {
                assert(directive_views(kept@) =~= before.push(directive@));
            }
        }
    }
    proof {
        assert(shown.take(shown.len() as int) =~= shown);
    }
    kept
}

/// Puts a name in its place in a list that is ordered by quoted spelling.
fn insert_name(names: &mut Vec<NamespaceObjectName>, name: NamespaceObjectName)
    ensures
        object_texts(final(names)@) == with_name(object_texts(old(names)@), name@),
{
    let ghost shown = object_texts(names@);
    let spelled = quote_name(name.as_str());
    let mut k: usize = names.len();
    proof {
        assert(shown.take(shown.len() as int) =~= shown);
        assert(with_name(shown, name@) + shown.skip(shown.len() as int) =~= with_name(shown, name@));
    }
    loop
        invariant_except_break
            k <= names@.len(),
            shown == object_texts(names@),
            names@ == old(names)@,
            spelled@ == quoted(name@),
            with_name(shown, name@) == with_name(shown.take(k as int), name@) + shown.skip(
                k as int,
            ),
        ensures
            k <= names@.len(),
            shown == object_texts(names@),
            names@ == old(names)@,
            with_name(shown, name@) == with_name(shown.take(k as int), name@) + shown.skip(
                k as int,
            ),
            k > 0 ==> text_le(quoted(shown[k - 1]), quoted(name@)),
        decreases k,
    {
        if k == 0 {
            break;
        }
        let here = quote_name(names[k - 1].as_str());
        if at_most(here.as_str(), spelled.as_str()) {
            break;
        }
        proof {
            let prefix = shown.take(k as int);
            assert(prefix.drop_last() =~= shown.take(k - 1));
            assert(prefix.last() == shown[k - 1]);
            assert(with_name(prefix.drop_last(), name@).push(shown[k - 1]) + shown.skip(k as int)
                =~= with_name(shown.take(k - 1), name@) + shown.skip(k - 1));
        }
        k = k - 1;
    }
    proof {
        if k > 0 {
            assert(shown.take(k as int).last() == shown[k - 1]);
            assert(shown[k - 1] == names@[k - 1]@);
        }
    }
    if k > 0 && names[k - 1].0 == name.0 {
        proof {
            assert(shown.take(k as int) + shown.skip(k as int) =~= shown);
        }
        return;
    }
    let ghost one = name@;
    names.insert(k, name);
    proof {
        assert(object_texts(names@) =~= shown.insert(k as int, one));
        assert(shown.take(k as int).push(one) + shown.skip(k as int) =~= shown.insert(
            k as int,
            one,
        ));
        if k == 0 {
            assert(shown.take(0).push(one) =~= seq![one]);
        }
    }
}

/// What is imported from one package.
pub struct MergedImport {
    pub package: super::ir::NamespacePackageName,
    pub names: Vec<NamespaceObjectName>,
}

impl View for MergedImport {
    type V = ImportView;

    open spec fn view(&self) -> ImportView {
        ImportView { package: self.package@, names: object_texts(self.names@) }
    }
}

/// The models of imports.
pub open spec fn import_views(imports: Seq<MergedImport>) -> Seq<ImportView> {
    imports.map_values(|entry: MergedImport| entry@)
}

/// The position of a package is where it first stands.
proof fn import_position_is_first(imports: Seq<ImportView>, package: Seq<char>, at: int)
    requires
        0 <= at <= imports.len(),
        forall|k: int| 0 <= k < at ==> (#[trigger] imports[k]).package != package,
    ensures
        at < imports.len() && imports[at].package == package ==> import_position(imports, package)
            == Some(at),
        at == imports.len() ==> import_position(imports, package) is None,
    decreases imports.len(),
{
    if imports.len() > 0 {
        let before = imports.drop_last();
        if at < imports.len() {
            assert forall|k: int| 0 <= k < at implies (#[trigger] before[k]).package != package by {
                assert(before[k] == imports[k]);
            }
            import_position_is_first(before, package, at);
        } else {
            assert forall|k: int| 0 <= k < before.len() implies (#[trigger] before[k]).package
                != package by {
                assert(before[k] == imports[k]);
            }
            import_position_is_first(before, package, at - 1);
            assert(imports[at - 1].package != package);
        }
    }
}

/// A position that was found holds the package.
pub proof fn import_position_holds(imports: Seq<ImportView>, package: Seq<char>)
    ensures
        import_position(imports, package) matches Some(i) ==> 0 <= i < imports.len()
            && imports[i].package == package,
        import_position(imports, package) is None ==> forall|k: int|
            0 <= k < imports.len() ==> (#[trigger] imports[k]).package != package,
    decreases imports.len(),
{
    if imports.len() > 0 {
        import_position_holds(imports.drop_last(), package);
        assert forall|k: int|
            import_position(imports, package) is None && 0 <= k < imports.len() implies (
        #[trigger] imports[k]).package != package by {
            if k < imports.len() - 1 {
                assert(imports.drop_last()[k] == imports[k]);
            }
        }
    }
}

/// Merges one more `importFrom` into those of its package.
fn merge_import(
    imports: &mut Vec<MergedImport>,
    package: super::ir::NamespacePackageName,
    names: Vec<NamespaceObjectName>,
)
    ensures
        import_views(final(imports)@) == with_import(
            import_views(old(imports)@),
            package@,
            object_texts(names@),
        ),
{
    let ghost shown = import_views(imports@);
    let ghost more = object_texts(names@);
    let mut at: usize = 0;
    while at < imports.len() && imports[at].package.0 != package.0
        invariant
            at <= imports@.len(),
            imports@ == old(imports)@,
            shown == import_views(imports@),
            forall|k: int| 0 <= k < at ==> (#[trigger] shown[k]).package != package@,
        decreases imports@.len() - at,
    {
        proof {
            assert(shown[at as int] == imports@[at as int]@);
        }
        at = at + 1;
    }
    proof {
        import_position_is_first(shown, package@, at as int);
    }
    let mut entry: MergedImport = if at < imports.len() {
        proof {
            assert(shown[at as int] == imports@[at as int]@);
        }
        imports.remove(at)
    } else {
        MergedImport { package, names: Vec::new() }
    };
    let ghost start = object_texts(entry.names@);
    let ghost target = entry.package@;
    proof {
        if at == old(imports)@.len() {
            assert(start =~= Seq::<Seq<char>>::empty());
        }
    }
    for name in it: names
        invariant
            object_texts(it.seq()) == more,
            entry.package@ == target,
            object_texts(entry.names@) == with_names(start, more.take(it.index() as int)),
    {
        proof {
            let prefix = more.take(it.index() + 1);
            assert(prefix.drop_last() =~= more.take(it.index() as int));
            assert(prefix.last() == name@);
        }
        insert_name(&mut entry.names, name);
    }
    proof {
        assert(more.take(more.len() as int) =~= more);
    }
    let ghost merged = entry@;
    imports.insert(at, entry);
    proof {
        if at < old(imports)@.len() {
            assert(import_views(imports@) =~= shown.update(at as int, merged));
        } else {
            assert(import_views(imports@) =~= shown.push(merged));
        }
    }
}

/// Renders directives: the lines of those that are not `importFrom`, then one
/// line for each package imported from.
fn render_lines(directives: Vec<NamespaceDirective>) -> (r: Vec<String>)
    ensures
        texts(r@) == other_lines(directive_views(directives@)) + import_lines(
            merged_imports(directive_views(directives@)),
        ),
{
    let ghost shown = directive_views(directives@);
    let mut lines: Vec<String> = Vec::new();
    let mut imports: Vec<MergedImport> = Vec::new();
    proof {
        assert(texts(lines@) =~= other_lines(shown.take(0)));
        assert(import_views(imports@) =~= merged_imports(shown.take(0)));
    }
    for directive in it: directives
        invariant
            directive_views(it.seq()) == shown,
            texts(lines@) == other_lines(shown.take(it.index() as int)),
            import_views(imports@) == merged_imports(shown.take(it.index() as int)),
    {
        proof {
            let prefix = shown.take(it.index() + 1);
            assert(prefix.drop_last() =~= shown.take(it.index() as int));
            assert(prefix.last() == directive@);
        }
        match directive {
            NamespaceDirective::ImportFrom { package, names } => {
                merge_import(&mut imports, package, names.into_names());
            },
            other => {
                let line = other.render();
                let ghost before = texts(lines@);
                lines.push(line);
                proof {
                    assert(texts(lines@) =~= before.push(line@));
                }
            },
        }
    }
    proof {
        assert(shown.take(shown.len() as int) =~= shown);
    }
    let ghost others = texts(lines@);
    let ghost merged = import_views(imports@);
    proof {
        assert(import_lines(merged.take(0)) =~= Seq::<Seq<char>>::empty());
        assert(others + import_lines(merged.take(0)) =~= others);
    }
    for entry in it: imports
        invariant
            import_views(it.seq()) == merged,
            texts(lines@) == others + import_lines(merged.take(it.index() as int)),
    {
        let ghost one = entry@;
        let ghost before = texts(lines@);
        let MergedImport { package, names } = entry;
        let line = render_import_from(&package, &names);
        lines.push(line);
        proof {
            assert(merged[it.index() as int] == one);
            assert(texts(lines@) =~= before.push(line@));
            assert(texts(lines@) =~= others + import_lines(merged.take(it.index() + 1)));
        }
    }
    proof {
        assert(merged.take(merged.len() as int) =~= merged);
    }
    lines
}

/// Puts lines in order and ends each with a newline, after the header.
fn assemble(lines: Vec<String>) -> (r: String)
    ensures
        is_namespace_text(r@, texts(lines@)),
{
    let ghost given = texts(lines@);
    let ordered = sort_texts(lines);
    let ghost shown = texts(ordered@);
    let mut content: String =
        "# Generated by mini-roxygen (roxygen2 compatible): do not edit by hand\n\n".to_owned();
    let mut i: usize = 0;
    proof {
        assert(content@ =~= namespace_header() + ended_lines(shown.take(0)));
    }
    while i < ordered.len()
        invariant
            i <= ordered@.len(),
            shown == texts(ordered@),
            content@ == namespace_header() + ended_lines(shown.take(i as int)),
        decreases ordered@.len() - i,
    {
        proof {
            let prefix = shown.take(i + 1);
            assert(prefix.drop_last() =~= shown.take(i as int));
            assert(prefix.last() == ordered@[i as int]@);
        }
        let ghost before = content@;
        content.push_str(ordered[i].as_str());
        content.push_str("\n");
        proof {
            assert(content@ =~= before + shown[i as int] + "\n"@);
            assert(content@ =~= namespace_header() + ended_lines(shown.take(i + 1)));
        }
        i = i + 1;
    }
    proof {
        assert(shown.take(shown.len() as int) =~= shown);
        assert(orders(shown, given));
    }
    content
}

/// What a build owes: the ordered text of the collected directives, and the
/// reports in request order.
pub open spec fn built(
    output: NamespaceBuildOutput,
    package: PackageModel,
    current_package: Option<Seq<char>>,
    facts: S3Facts,
) -> bool {
    let all = collected(
        package.namespace@,
        current_package,
        facts,
        package.namespace@.len() as int,
    );
    &&& is_namespace_text(output.content@, namespace_lines(all.directives))
    &&& output.diagnostics@ == all.diagnostics
}

/// The sources behind a reference.
pub open spec fn opt_sources(sources: Option<&SourceMap>) -> Option<SourceMap> {
    match sources {
        Some(map) => Some(*map),
        None => None,
    }
}

/// Builds NAMESPACE text without reading or writing files.
///
/// When `current_package` is `Some`, matching typed `import()` and
/// `importFrom()` requests are omitted. The opaque comma-bearing `@import`
/// form is passed through as written and is not filtered. Its value is not
/// interpreted, so the package it names cannot be established without
/// guessing. `None` leaves all imports eligible for output.
pub fn build_namespace(package: &PackageModel, current_package: Option<&str>) -> (r:
    NamespaceBuildOutput)
    ensures
        built(
            r,
            *package,
            opt_view(current_package),
            facts_of(package.bindings@, None, package.collate, EmptyS3GenericProvider),
        ),
{
    build_namespace_inner(package, None, current_package, &EmptyS3GenericProvider)
}

/// Builds NAMESPACE text using caller-supplied S3 generic facts.
pub fn build_namespace_with_provider<P: S3GenericProvider>(
    package: &PackageModel,
    current_package: Option<&str>,
    provider: &P,
) -> (r: NamespaceBuildOutput)
    ensures
        built(
            r,
            *package,
            opt_view(current_package),
            facts_of(package.bindings@, None, package.collate, *provider),
        ),
{
    build_namespace_inner(package, None, current_package, provider)
}

/// Builds NAMESPACE text with source filenames available for temporal S3
/// analysis.
///
/// Cross-file alias order is accepted only when the source map proves the
/// default filename order. Same-file assignment spans remain usable in every
/// entry point.
pub fn build_namespace_with_sources(
    package: &PackageModel,
    sources: &SourceMap,
    current_package: Option<&str>,
) -> (r: NamespaceBuildOutput)
    ensures
        built(
            r,
            *package,
            opt_view(current_package),
            facts_of(package.bindings@, Some(*sources), package.collate, EmptyS3GenericProvider),
        ),
{
    build_namespace_inner(package, Some(sources), current_package, &EmptyS3GenericProvider)
}

/// Builds NAMESPACE text with source filenames and caller-supplied S3 generic
/// facts.
pub fn build_namespace_with_sources_and_provider<P: S3GenericProvider>(
    package: &PackageModel,
    sources: &SourceMap,
    current_package: Option<&str>,
    provider: &P,
) -> (r: NamespaceBuildOutput)
    ensures
        built(
            r,
            *package,
            opt_view(current_package),
            facts_of(package.bindings@, Some(*sources), package.collate, *provider),
        ),
{
    build_namespace_inner(package, Some(sources), current_package, provider)
}

/// Collects all requests in model order, then deduplicates, merges, renders
/// and orders what they contribute.
pub fn build_namespace_inner<P: S3GenericProvider>(
    package: &PackageModel,
    sources: Option<&SourceMap>,
    current_package: Option<&str>,
    provider: &P,
) -> (r: NamespaceBuildOutput)
    ensures
        built(
            r,
            *package,
            opt_view(current_package),
            facts_of(package.bindings@, opt_sources(sources), package.collate, *provider),
        ),
{
    let analyzer = S3Analyzer::new(&package.bindings, package.collate, sources, provider);
    let ghost facts = facts_of(
        package.bindings@,
        opt_sources(sources),
        package.collate,
        *provider,
    );
    let mut diagnostics = Diagnostics::new();
    let mut normalized: Vec<NamespaceDirective> = Vec::new();
    let mut warned: Vec<String> = Vec::new();
    let mut i: usize = 0;
    proof {
        assert(directive_views(normalized@) =~= Seq::<DirectiveView>::empty());
        assert(texts(warned@) =~= Seq::<Seq<char>>::empty());
    }
    while i < package.namespace.len()
        invariant
            i <= package.namespace@.len(),
            facts == analyzer.facts(),
            texts(warned@) == warned_objects(package.namespace@, facts, i as int),
            directive_views(normalized@) == collected(
                package.namespace@,
                opt_view(current_package),
                facts,
                i as int,
            ).directives,
            diagnostics@ == collected(
                package.namespace@,
                opt_view(current_package),
                facts,
                i as int,
            ).diagnostics,
        decreases package.namespace@.len() - i,
    {
        collect_request(
            &package.namespace[i],
            current_package,
            &analyzer,
            &mut warned,
            &mut normalized,
            &mut diagnostics,
        );
        i = i + 1;
    }
    let kept = deduplicate(normalized);
    let lines = render_lines(kept);
    NamespaceBuildOutput { content: assemble(lines), diagnostics }
}

/// No two kept directives stand for one line, and every directive is
/// represented by a kept one.
pub proof fn deduplication_keeps_one_of_each(directives: Seq<DirectiveView>)
    ensures
        forall|i: int, j: int|
            0 <= i < j < distinct_directives(directives).len() ==> !same_directive(
                #[trigger] distinct_directives(directives)[i],
                #[trigger] distinct_directives(directives)[j],
            ),
        forall|i: int|
            0 <= i < directives.len() ==> lists_directive(
                distinct_directives(directives),
                #[trigger] directives[i],
            ),
    decreases directives.len(),
{
    if directives.len() > 0 {
        let before = distinct_directives(directives.drop_last());
        deduplication_keeps_one_of_each(directives.drop_last());
        let after = distinct_directives(directives);
        assert forall|i: int| 0 <= i < directives.len() implies lists_directive(
            after,
            #[trigger] directives[i],
        ) by {
            if i < directives.len() - 1 {
                assert(directives.drop_last()[i] == directives[i]);
                assert(lists_directive(before, directives.drop_last()[i]));
                let k = choose|k: int|
                    0 <= k < before.len() && same_directive(#[trigger] before[k], directives[i]);
                assert(after[k] == before[k]);
            } else if !lists_directive(before, directives.last()) {
                assert(same_directive(after[after.len() - 1], directives[i]));
            }
        }
    }
}

/// Names in strictly ascending order of their quoted spelling.
pub open spec fn names_increase(names: Seq<Seq<char>>) -> bool {
    forall|i: int, j: int|
        0 <= i < j < names.len() ==> text_lt(quoted(#[trigger] names[i]), quoted(#[trigger] names[j]))
}

/// Putting a name in its place keeps the order, adds that name and nothing
/// else, and loses none.
pub proof fn with_name_keeps_order(names: Seq<Seq<char>>, name: Seq<char>)
    requires
        names_increase(names),
    ensures
        names_increase(with_name(names, name)),
        forall|x: Seq<char>| #[trigger]
            with_name(names, name).contains(x) <==> names.contains(x) || x == name,
    decreases names.len(),
{
    let after = with_name(names, name);
    if names.len() == 0 {
        assert(after[0] == name);
    } else if text_le(quoted(names.last()), quoted(name)) {
        if names.last() != name {
            if quoted(names.last()) == quoted(name) {
                super::render::quoted_injective(names.last(), name);
            }
            assert forall|i: int, j: int| 0 <= i < j < after.len() implies text_lt(
                quoted(#[trigger] after[i]),
                quoted(#[trigger] after[j]),
            ) by {
                if j == names.len() {
                    let a = quoted(names[i]);
                    let b = quoted(names.last());
                    let c = quoted(name);
                    if i < names.len() - 1 {
                        assert(text_lt(a, b));
                        crate::text::text_le_transitive(a, b, c);
                        if a == c {
                            crate::text::text_le_antisymmetric(a, b);
                        }
                    }
                }
            }
            assert forall|x: Seq<char>| #[trigger] after.contains(x) <==> names.contains(x) || x
                == name by {
                if names.contains(x) {
                    let k = choose|k: int| 0 <= k < names.len() && names[k] == x;
                    assert(after[k] == x);
                }
                assert(after[names.len() as int] == name);
                if after.contains(x) && x != name {
                    let k = choose|k: int| 0 <= k < after.len() && after[k] == x;
                    assert(names[k] == x);
                }
            }
        }
    } else {
        let before = names.drop_last();
        assert(names_increase(before)) by {
            assert forall|i: int, j: int| 0 <= i < j < before.len() implies text_lt(
                quoted(#[trigger] before[i]),
                quoted(#[trigger] before[j]),
            ) by {
                assert(text_lt(quoted(names[i]), quoted(names[j])));
            }
        }
        with_name_keeps_order(before, name);
        let inner = with_name(before, name);
        assert forall|i: int, j: int| 0 <= i < j < after.len() implies text_lt(
            quoted(#[trigger] after[i]),
            quoted(#[trigger] after[j]),
        ) by {
            if j < inner.len() {
                assert(text_lt(quoted(inner[i]), quoted(inner[j])));
            } else {
                assert(inner.contains(inner[i]));
                if inner[i] == name {
                    crate::text::text_le_total(quoted(name), quoted(names.last()));
                    crate::text::text_le_reflexive(quoted(name));
                } else {
                    assert(before.contains(inner[i]));
                    let k = choose|k: int| 0 <= k < before.len() && before[k] == inner[i];
                    assert(text_lt(quoted(names[k]), quoted(names[names.len() - 1])));
                }
            }
        }
        assert forall|x: Seq<char>| #[trigger] after.contains(x) <==> names.contains(x) || x
            == name by {
            assert(inner.contains(x) <==> before.contains(x) || x == name);
            if after.contains(x) {
                let k = choose|k: int| 0 <= k < after.len() && after[k] == x;
                if k < inner.len() {
                    assert(inner[k] == x);
                    if before.contains(x) {
                        let m = choose|m: int| 0 <= m < before.len() && before[m] == x;
                        assert(names[m] == x);
                    }
                } else {
                    assert(names[names.len() - 1] == x);
                }
            }
            if names.contains(x) {
                let k = choose|k: int| 0 <= k < names.len() && names[k] == x;
                if k < names.len() - 1 {
                    assert(before[k] == x);
                    let m = choose|m: int| 0 <= m < inner.len() && inner[m] == x;
                    assert(after[m] == x);
                } else {
                    assert(after[after.len() - 1] == x);
                }
            }
            if x == name {
                let m = choose|m: int| 0 <= m < inner.len() && inner[m] == x;
                assert(after[m] == x);
            }
        }
    }
}

/// Putting names in their places keeps the order and adds exactly those names.
pub proof fn with_names_is_union(names: Seq<Seq<char>>, more: Seq<Seq<char>>)
    requires
        names_increase(names),
    ensures
        names_increase(with_names(names, more)),
        forall|x: Seq<char>| #[trigger]
            with_names(names, more).contains(x) <==> names.contains(x) || more.contains(x),
    decreases more.len(),
{
    if more.len() > 0 {
        let before = more.drop_last();
        let middle = with_names(names, before);
        with_names_is_union(names, before);
        with_name_keeps_order(middle, more.last());
        assert forall|x: Seq<char>| #[trigger] with_names(names, more).contains(x)
            <==> names.contains(x) || more.contains(x) by {
            assert(with_name(middle, more.last()).contains(x) <==> middle.contains(x) || x
                == more.last());
            assert(middle.contains(x) <==> names.contains(x) || before.contains(x));
            if more.contains(x) {
                let k = choose|k: int| 0 <= k < more.len() && more[k] == x;
                if k < more.len() - 1 {
                    assert(before[k] == x);
                }
            }
            if before.contains(x) {
                let k = choose|k: int| 0 <= k < before.len() && before[k] == x;
                assert(more[k] == x);
            }
            assert(more[more.len() - 1] == more.last());
        }
    }
}

/// Whether some `importFrom` of a list imports a name from a package.
pub open spec fn asks_for(
    directives: Seq<DirectiveView>,
    package: Seq<char>,
    name: Seq<char>,
) -> bool {
    exists|i: int|
        0 <= i < directives.len() && imports_name(#[trigger] directives[i], package, name)
}

/// Whether a directive imports a name from a package.
pub open spec fn imports_name(
    directive: DirectiveView,
    package: Seq<char>,
    name: Seq<char>,
) -> bool {
    match directive {
        DirectiveView::ImportFrom { package: from, names } => from == package && names.contains(
            name,
        ),
        _ => false,
    }
}

/// Merged imports hold each package once, its names in strictly ascending
/// order of their quoted spelling, and exactly the names that were asked for.
pub proof fn merged_imports_are_unions(directives: Seq<DirectiveView>)
    ensures
        forall|i: int, j: int|
            0 <= i < j < merged_imports(directives).len() ==> (#[trigger] merged_imports(
                directives,
            )[i]).package != (#[trigger] merged_imports(directives)[j]).package,
        forall|i: int|
            0 <= i < merged_imports(directives).len() ==> names_increase(
                (#[trigger] merged_imports(directives)[i]).names,
            ),
        forall|i: int, name: Seq<char>|
            0 <= i < merged_imports(directives).len() ==> (#[trigger] merged_imports(
                directives,
            )[i].names.contains(name) <==> asks_for(
                directives,
                merged_imports(directives)[i].package,
                name,
            )),
        forall|i: int|
            0 <= i < directives.len() ==> ((#[trigger] directives[i]) matches
                DirectiveView::ImportFrom { package, .. } ==> import_position(
                merged_imports(directives),
                package,
            ) is Some),
    decreases directives.len(),
{
    if directives.len() > 0 {
        let front = directives.drop_last();
        let last = directives.last();
        merged_imports_are_unions(front);
        let before = merged_imports(front);
        let after = merged_imports(directives);
        match last {
            DirectiveView::ImportFrom { package, names } => {
                import_position_holds(before, package);
                let at: int = match import_position(before, package) {
                    Some(i) => i,
                    None => before.len() as int,
                };
                let start = if at < before.len() {
                    before[at].names
                } else {
                    Seq::empty()
                };
                with_names_is_union(start, names);
                assert(after[at] == ImportView { package, names: with_names(start, names) });
                assert forall|i: int, name: Seq<char>|
                    0 <= i < after.len() implies (#[trigger] after[i].names.contains(name)
                    <==> asks_for(directives, after[i].package, name)) by {
                    asks_for_grows(directives, after[i].package, name);
                    if i == at {
                        assert(with_names(start, names).contains(name) <==> start.contains(name)
                            || names.contains(name));
                        if at < before.len() {
                            assert(before[at].names.contains(name) <==> asks_for(
                                front,
                                before[at].package,
                                name,
                            ));
                        } else if asks_for(front, package, name) {
                            let k = choose|k: int|
                                0 <= k < front.len() && imports_name(
                                    #[trigger] front[k],
                                    package,
                                    name,
                                );
                            assert(import_position(before, package) is Some);
                        }
                    } else {
                        assert(after[i] == before[i]);
                        assert(before[i].names.contains(name) <==> asks_for(
                            front,
                            before[i].package,
                            name,
                        ));
                    }
                }
                assert forall|i: int| 0 <= i < directives.len() implies ((
                #[trigger] directives[i]) matches DirectiveView::ImportFrom { package: p, .. }
                    ==> import_position(after, p) is Some) by {
                    match directives[i] {
                        DirectiveView::ImportFrom { package: p, .. } => {
                            import_position_holds(after, p);
                            import_position_holds(before, p);
                            if i < front.len() {
                                assert(front[i] == directives[i]);
                                let k = import_position(before, p)->0;
                                assert(after[k].package == p);
                            } else {
                                assert(after[at].package == p);
                            }
                        },
                        _ => {},
                    }
                }
            },
            _ => {
                assert forall|i: int, name: Seq<char>|
                    0 <= i < after.len() implies (#[trigger] after[i].names.contains(name)
                    <==> asks_for(directives, after[i].package, name)) by {
                    asks_for_grows(directives, after[i].package, name);
                    assert(before[i].names.contains(name) <==> asks_for(
                        front,
                        before[i].package,
                        name,
                    ));
                }
                assert forall|i: int| 0 <= i < directives.len() implies ((
                #[trigger] directives[i]) matches DirectiveView::ImportFrom { package: p, .. }
                    ==> import_position(after, p) is Some) by {
                    if i < front.len() {
                        assert(front[i] == directives[i]);
                    }
                }
            },
        }
    }
}

/// What a list asks for is what its front asks for or its last entry imports.
proof fn asks_for_grows(directives: Seq<DirectiveView>, package: Seq<char>, name: Seq<char>)
    requires
        directives.len() > 0,
    ensures
        asks_for(directives, package, name) <==> asks_for(directives.drop_last(), package, name)
            || imports_name(directives.last(), package, name),
{
    let front = directives.drop_last();
    if asks_for(front, package, name) {
        let k = choose|k: int|
            0 <= k < front.len() && imports_name(#[trigger] front[k], package, name);
        assert(imports_name(directives[k], package, name));
    }
    if imports_name(directives.last(), package, name) {
        assert(imports_name(directives[directives.len() - 1], package, name));
    }
    if asks_for(directives, package, name) {
        let k = choose|k: int|
            0 <= k < directives.len() && imports_name(#[trigger] directives[k], package, name);
        if k < front.len() {
            assert(imports_name(front[k], package, name));
        }
    }
}

/// Whether a typed directive imports from a package.
pub open spec fn imports_from(directive: DirectiveView, package: Seq<char>) -> bool {
    match directive {
        DirectiveView::Import { package: from } => from == package,
        DirectiveView::ImportFrom { package: from, .. } => from == package,
        DirectiveView::ImportClassesFrom { package: from, .. } => from == package,
        DirectiveView::ImportMethodsFrom { package: from, .. } => from == package,
        _ => false,
    }
}

/// No typed directive imports from the package being documented, whatever the
/// requests say.
pub proof fn self_imports_are_omitted(
    requests: Seq<NamespaceRequest>,
    package: Seq<char>,
    facts: S3Facts,
    count: int,
)
    requires
        0 <= count <= requests.len(),
    ensures
        forall|i: int|
            0 <= i < collected(requests, Some(package), facts, count).directives.len()
                ==> !imports_from(
                #[trigger] collected(requests, Some(package), facts, count).directives[i],
                package,
            ),
    decreases count,
{
    if count > 0 {
        self_imports_are_omitted(requests, package, facts, count - 1);
        let before = collected(requests, Some(package), facts, count - 1);
        let warned = warned_objects(requests, facts, count - 1);
        let more = request_outcome(requests[count - 1], Some(package), facts, warned);
        one_request_omits_self_imports(requests[count - 1], package, facts, warned);
        let all = collected(requests, Some(package), facts, count).directives;
        assert forall|i: int| 0 <= i < all.len() implies !imports_from(
            #[trigger] all[i],
            package,
        ) by {
            if i < before.directives.len() {
                assert(all[i] == before.directives[i]);
            } else {
                assert(all[i] == more.directives[i - before.directives.len()]);
            }
        }
    }
}

/// A single request gives no typed import from the package being documented.
proof fn one_request_omits_self_imports(
    request: NamespaceRequest,
    package: Seq<char>,
    facts: S3Facts,
    warned: Seq<Seq<char>>,
)
    ensures
        forall|i: int|
            0 <= i < request_outcome(request, Some(package), facts, warned).directives.len()
                ==> !imports_from(
                #[trigger] request_outcome(request, Some(package), facts, warned).directives[i],
                package,
            ),
{
    match request.tag {
        crate::tags::NamespaceTag::Import(_) => {
            match super::collect::usable_names(super::collect::tag_words(request.tag)) {
                Some(names) => {
                    package_imports_omit_self(request.tag, names, package, names.len() as int);
                },
                None => {},
            }
        },
        _ => {},
    }
}

proof fn package_imports_omit_self(
    tag: crate::tags::NamespaceTag,
    names: Seq<Seq<char>>,
    package: Seq<char>,
    count: int,
)
    ensures
        forall|i: int|
            0 <= i < super::collect::package_imports(tag, names, Some(package), count).directives.len()
                ==> !imports_from(
                #[trigger] super::collect::package_imports(
                    tag,
                    names,
                    Some(package),
                    count,
                ).directives[i],
                package,
            ),
    decreases count,
{
    if count > 0 {
        package_imports_omit_self(tag, names, package, count - 1);
        let before = super::collect::package_imports(tag, names, Some(package), count - 1);
        let after = super::collect::package_imports(tag, names, Some(package), count);
        assert forall|i: int| 0 <= i < after.directives.len() implies !imports_from(
            #[trigger] after.directives[i],
            package,
        ) by {
            if i < before.directives.len() {
                assert(after.directives[i] == before.directives[i]);
            }
        }
    }
}

/// An object is reported as unresolved at most once, however many requests
/// name it.
pub proof fn unresolved_objects_are_reported_once(
    requests: Seq<NamespaceRequest>,
    facts: S3Facts,
    count: int,
)
    ensures
        warned_objects(requests, facts, count).no_duplicates(),
    decreases count,
{
    if count > 0 {
        unresolved_objects_are_reported_once(requests, facts, count - 1);
    }
}

/// S3 registrations, topics and parameter tags of a package have no part in
/// its NAMESPACE text: packages with the same requests, bindings and collation
/// give the same text and reports.
pub proof fn only_requests_and_bindings_matter<P: S3GenericProvider>(
    a: PackageModel,
    b: PackageModel,
    output: NamespaceBuildOutput,
    current_package: Option<Seq<char>>,
    sources: Option<SourceMap>,
    provider: P,
)
    requires
        a.namespace@ == b.namespace@,
        a.bindings@ == b.bindings@,
        a.collate == b.collate,
    ensures
        built(
            output,
            a,
            current_package,
            facts_of(a.bindings@, sources, a.collate, provider),
        ) == built(
            output,
            b,
            current_package,
            facts_of(b.bindings@, sources, b.collate, provider),
        ),
{
}

/// The lines of two NAMESPACE texts with the same lines are equal: the order
/// leaves no choice.
pub proof fn namespace_text_is_unique(a: Seq<char>, b: Seq<char>, lines: Seq<Seq<char>>)
    requires
        is_namespace_text(a, lines),
        is_namespace_text(b, lines),
    ensures
        a == b,
{
    let x = choose|x: Seq<Seq<char>>|
        #[trigger] orders(x, lines) && a == namespace_header() + ended_lines(x);
    let y = choose|y: Seq<Seq<char>>|
        #[trigger] orders(y, lines) && b == namespace_header() + ended_lines(y);
    ordered_texts_are_unique(x, y);
}

/// Two ascending sequences of the same texts are equal.
pub proof fn ordered_texts_are_unique(a: Seq<Seq<char>>, b: Seq<Seq<char>>)
    requires
        sorted_texts(a),
        sorted_texts(b),
        a.to_multiset() == b.to_multiset(),
    ensures
        a == b,
    decreases a.len(),
{
    a.to_multiset_ensures();
    b.to_multiset_ensures();
    assert(a.len() == b.len());
    if a.len() > 0 {
        let x = a.last();
        let y = b.last();
        assert(a.contains(x));
        assert(b.contains(y));
        assert(a.to_multiset().count(x) > 0);
        assert(b.to_multiset().count(y) > 0);
        assert(b.contains(x));
        assert(a.contains(y));
        let i = choose|i: int| 0 <= i < b.len() && b[i] == x;
        let j = choose|j: int| 0 <= j < a.len() && a[j] == y;
        assert(text_le(b[i], b[b.len() - 1]));
        assert(text_le(a[j], a[a.len() - 1]));
        crate::text::text_le_antisymmetric(x, y);
        assert(a.drop_last().push(x) =~= a);
        assert(b.drop_last().push(x) =~= b);
        vstd::seq_lib::to_multiset_build(a.drop_last(), x);
        vstd::seq_lib::to_multiset_build(b.drop_last(), x);
        assert(a.drop_last().to_multiset() =~= a.to_multiset().remove(x));
        assert(b.drop_last().to_multiset() =~= b.to_multiset().remove(x));
        ordered_texts_are_unique(a.drop_last(), b.drop_last());
    } else {
        assert(a =~= b);
    }
}

} // verus!
