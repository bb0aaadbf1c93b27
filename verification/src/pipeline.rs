//! The composed source-to-output pipeline for one in-memory package.
//!
//! Source files come as what the R front end reads in them. The Rd files come
//! from a generator that the caller supplies; it works on the package model.
//! Every stage gives partial output and diagnostics, so the whole chain runs
//! even after an earlier stage reports an error.
use crate::diagnostic::{any_error, Diagnostic, DiagnosticView, Diagnostics};
use crate::facts::ParsedFile;
use crate::inherit::{
    default_inheritance, DocumentationProvider, EmptyDocumentationProvider, InheritanceOptions,
};
use crate::markdown_conversion::context::{
    HelpLinkResolver, InlineRSession, LinkResolution, ResolutionView,
};
use crate::model::ir::{BlockRef, DocumentedBlock, PackageModel, TopicKey};
use crate::model::merge::assembly::{
    build_package_model_with_metadata_bindings_and_registrations, context_of, merged_package,
};
use crate::model::view::topic_views;
use crate::namespace::ir::NamespaceBuildOutput;
use crate::namespace::pipeline::{build_namespace_with_sources_and_provider, built};
use crate::namespace::s3::{
    classified_topics, classify_usage_methods, facts_of, EmptyS3GenericProvider, S3GenericProvider,
};
use crate::package::PackageInputs;
use crate::r_parse::{
    build_object_index, file_bindings, file_objects, BindingFact, DocumentedObject,
    FileObjectIndex,
};
use crate::s3_register::S3RegistrationFact;
use crate::source::FileId;
use crate::tags::ParsedTag;
use crate::text::same_text;
use vstd::prelude::*;

verus! {

/// The tags of one documentation block and what was reported of them.
#[derive(Debug, PartialEq, Eq)]
pub struct BlockTags {
    pub tags: Vec<ParsedTag>,
    pub diagnostics: Diagnostics,
}

/// What the front end reads in one source file.
#[derive(Debug, PartialEq, Eq)]
pub struct SourceAnalysis {
    /// The top-level expressions and what the parser reported.
    pub parsed: ParsedFile,
    /// The S3 registrations in the file.
    pub registrations: Vec<S3RegistrationFact>,
    /// What was reported of the registrations.
    pub registration_diagnostics: Diagnostics,
    /// The tags of the documented expressions, in source order.
    pub blocks: Vec<BlockTags>,
}

/// The documented blocks of a file: each documented expression with its tags.
pub open spec fn file_blocks(
    file: FileId,
    objects: Seq<DocumentedObject>,
    blocks: Seq<BlockTags>,
    count: int,
) -> Seq<DocumentedBlock>
    decreases count,
{
    if count <= 0 || count > objects.len() || count > blocks.len() {
        Seq::empty()
    } else {
        let object = objects[count - 1];
        file_blocks(file, objects, blocks, count - 1).push(
            DocumentedBlock {
                block: BlockRef { file, block: object.block },
                block_span: object.block_span,
                target: object.target,
                tags: blocks[count - 1].tags,
            },
        )
    }
}

/// What is reported of the first `count` blocks of a file.
pub open spec fn tag_reports(blocks: Seq<BlockTags>, count: int) -> Seq<DiagnosticView>
    decreases count,
{
    if count <= 0 || count > blocks.len() {
        Seq::empty()
    } else {
        tag_reports(blocks, count - 1) + blocks[count - 1].diagnostics@
    }
}

/// The number of documented expressions of a file that have tags.
pub open spec fn documented_count(analysis: SourceAnalysis) -> int {
    let objects = file_objects(analysis.parsed.top_level@).len();
    if objects <= analysis.blocks@.len() {
        objects as int
    } else {
        analysis.blocks@.len() as int
    }
}

/// Whether a file comes with one list of tags for each documented expression.
pub open spec fn has_all_tags(analysis: SourceAnalysis) -> bool {
    analysis.blocks@.len() == file_objects(analysis.parsed.top_level@).len()
}

/// The reports of the first `count` lists of tags are all taken.
proof fn reports_are_taken(blocks: Seq<BlockTags>, count: int, at: int)
    requires
        0 <= at < count <= blocks.len(),
    ensures
        forall|report: DiagnosticView| #[trigger]
            blocks[at].diagnostics@.contains(report) ==> tag_reports(blocks, count).contains(
                report,
            ),
    decreases count,
{
    let before = tag_reports(blocks, count - 1);
    let last = blocks[count - 1].diagnostics@;
    let all = tag_reports(blocks, count);
    if at < count - 1 {
        reports_are_taken(blocks, count - 1, at);
    }
    assert forall|report: DiagnosticView| #[trigger]
        blocks[at].diagnostics@.contains(report) implies all.contains(report) by {
        if at < count - 1 {
            let k = choose|k: int| 0 <= k < before.len() && before[k] == report;
            assert(all[k] == report);
        } else {
            let k = choose|k: int| 0 <= k < last.len() && last[k] == report;
            assert(all[before.len() + k] == report);
        }
    }
}

/// The first `count` documented expressions each give one block.
proof fn objects_give_blocks(
    file: FileId,
    objects: Seq<DocumentedObject>,
    blocks: Seq<BlockTags>,
    count: int,
)
    requires
        0 <= count <= objects.len(),
        count <= blocks.len(),
    ensures
        file_blocks(file, objects, blocks, count).len() == count,
        forall|i: int|
            0 <= i < count ==> (#[trigger] file_blocks(file, objects, blocks, count)[i]) == (
            DocumentedBlock {
                block: BlockRef { file, block: objects[i].block },
                block_span: objects[i].block_span,
                target: objects[i].target,
                tags: blocks[i].tags,
            }),
    decreases count,
{
    if count > 0 {
        objects_give_blocks(file, objects, blocks, count - 1);
    }
}

/// Nothing is dropped of a file that comes with all its tags: every documented
/// expression gives one block, with its own identity and its own tags, and every
/// report of a list of tags is taken.
pub proof fn complete_files_lose_nothing(file: FileId, analysis: SourceAnalysis)
    requires
        has_all_tags(analysis),
    ensures
        ({
            let objects = file_objects(analysis.parsed.top_level@);
            let blocks = file_blocks(file, objects, analysis.blocks@, documented_count(analysis));
            &&& blocks.len() == objects.len()
            &&& forall|i: int|
                0 <= i < objects.len() ==> (#[trigger] blocks[i]) == (DocumentedBlock {
                    block: BlockRef { file, block: objects[i].block },
                    block_span: objects[i].block_span,
                    target: objects[i].target,
                    tags: analysis.blocks@[i].tags,
                })
        }),
        forall|i: int, report: DiagnosticView|
            0 <= i < analysis.blocks@.len() && #[trigger] analysis.blocks@[i].diagnostics@.contains(
                report,
            ) ==> tag_reports(analysis.blocks@, documented_count(analysis)).contains(report),
{
    let objects = file_objects(analysis.parsed.top_level@);
    let count = documented_count(analysis);
    objects_give_blocks(file, objects, analysis.blocks@, count);
    assert forall|i: int, report: DiagnosticView|
        0 <= i < analysis.blocks@.len() && #[trigger] analysis.blocks@[i].diagnostics@.contains(
            report,
        ) implies tag_reports(analysis.blocks@, count).contains(report) by {
        reports_are_taken(analysis.blocks@, count, i);
    }
}

/// What the files of a package say, in file order.
pub struct PackageFacts {
    pub blocks: Seq<DocumentedBlock>,
    pub bindings: Seq<BindingFact>,
    pub registrations: Seq<S3RegistrationFact>,
    pub diagnostics: Seq<DiagnosticView>,
}

/// What the first `count` files of a package say.
pub open spec fn package_facts(files: Seq<SourceAnalysis>, count: int) -> PackageFacts
    decreases count,
{
    if count <= 0 || count > files.len() {
        PackageFacts {
            blocks: Seq::empty(),
            bindings: Seq::empty(),
            registrations: Seq::empty(),
            diagnostics: Seq::empty(),
        }
    } else {
        let before = package_facts(files, count - 1);
        let analysis = files[count - 1];
        let entries = analysis.parsed.top_level@;
        let file = FileId { id: (count - 1) as u32 };
        let documented = documented_count(analysis);
        PackageFacts {
            blocks: before.blocks + file_blocks(
                file,
                file_objects(entries),
                analysis.blocks@,
                documented,
            ),
            bindings: before.bindings + file_bindings(entries),
            registrations: before.registrations + analysis.registrations@,
            diagnostics: before.diagnostics + analysis.parsed.diagnostics@
                + analysis.registration_diagnostics@ + tag_reports(analysis.blocks@, documented),
        }
    }
}

/// The facts of a package, as they are collected.
struct Collected {
    blocks: Vec<DocumentedBlock>,
    bindings: Vec<BindingFact>,
    registrations: Vec<S3RegistrationFact>,
    diagnostics: Diagnostics,
}

impl View for Collected {
    type V = PackageFacts;

    closed spec fn view(&self) -> PackageFacts {
        PackageFacts {
            blocks: self.blocks@,
            bindings: self.bindings@,
            registrations: self.registrations@,
            diagnostics: self.diagnostics@,
        }
    }
}

fn pair_blocks(
    file: FileId,
    objects: Vec<DocumentedObject>,
    blocks: Vec<BlockTags>,
    diagnostics: &mut Diagnostics,
) -> (r: Vec<DocumentedBlock>)
    ensures
        ({
            let count = if objects@.len() <= blocks@.len() {
                objects@.len()
            } else {
                blocks@.len()
            };
            &&& r@ == file_blocks(file, objects@, blocks@, count as int)
            &&& final(diagnostics)@ == old(diagnostics)@ + tag_reports(blocks@, count as int)
        }),
{
    let ghost all = objects@;
    let ghost given = blocks@;
    let ghost before = diagnostics@;
    let mut rest = blocks;
    let mut out: Vec<DocumentedBlock> = Vec::new();
    proof {
        assert(given.skip(0) =~= given);
        assert(before + Seq::<DiagnosticView>::empty() =~= before);
    }
    let ghost mut paired: int = 0;
    for object in it: objects
        invariant
            it.seq() == all,
            0 <= paired <= it.index(),
            paired <= given.len(),
            rest@ == given.skip(paired),
            paired < it.index() ==> rest@.len() == 0,
            out@ == file_blocks(file, all, given, paired),
            diagnostics@ == before + tag_reports(given, paired),
    {
        if rest.len() > 0 {
            let ghost reported = diagnostics@;
            let item = rest.remove(0);
            proof {
                assert(given.skip(paired).remove(0) =~= given.skip(paired + 1));
                assert(item == given[paired]);
                assert(object == all[paired]);
            }
            let BlockTags { tags, diagnostics: more } = item;
            let ghost extra = more@;
            diagnostics.extend(more);
            let DocumentedObject { block, block_span, target } = object;
            out.push(
                DocumentedBlock { block: BlockRef { file, block }, block_span, target, tags },
            );
            proof {
                assert((before + tag_reports(given, paired)) + extra =~= before + (tag_reports(
                    given,
                    paired,
                ) + extra));
                paired = paired + 1;
            }
        }
    }
    out
}

fn add_file(facts: Collected, file: FileId, analysis: SourceAnalysis) -> (r: Collected)
    ensures
        ({
            let entries = analysis.parsed.top_level@;
            let documented = documented_count(analysis);
            &&& r@.blocks == facts@.blocks + file_blocks(
                file,
                file_objects(entries),
                analysis.blocks@,
                documented,
            )
            &&& r@.bindings == facts@.bindings + file_bindings(entries)
            &&& r@.registrations == facts@.registrations + analysis.registrations@
            &&& r@.diagnostics == facts@.diagnostics + analysis.parsed.diagnostics@
                + analysis.registration_diagnostics@ + tag_reports(analysis.blocks@, documented)
        }),
{
    let Collected { mut blocks, mut bindings, mut registrations, mut diagnostics } = facts;
    let SourceAnalysis {
        parsed,
        registrations: found,
        registration_diagnostics,
        blocks: tags,
    } = analysis;
    let ParsedFile { top_level, diagnostics: parse_diagnostics } = parsed;
    diagnostics.extend(parse_diagnostics);
    diagnostics.extend(registration_diagnostics);
    let mut found = found;
    registrations.append(&mut found);
    let bare = ParsedFile { top_level, diagnostics: Diagnostics::new() };
    let FileObjectIndex { file: _, documented, bindings: bound } = build_object_index(bare, file);
    let mut bound = bound;
    bindings.append(&mut bound);
    let mut paired = pair_blocks(file, documented, tags, &mut diagnostics);
    blocks.append(&mut paired);
    Collected { blocks, bindings, registrations, diagnostics }
}

fn collect(files: Vec<SourceAnalysis>) -> (r: Collected)
    requires
        files@.len() <= u32::MAX,
    ensures
        r@ == package_facts(files@, files@.len() as int),
{
    let mut facts = Collected {
        blocks: Vec::new(),
        bindings: Vec::new(),
        registrations: Vec::new(),
        diagnostics: Diagnostics::new(),
    };
    let ghost all = files@;
    let mut index: u32 = 0;
    for analysis in it: files
        invariant
            it.seq() == all,
            all.len() <= u32::MAX,
            index == it.index(),
            facts@ == package_facts(all, index as int),
    {
        let ghost before = facts@;
        facts = add_file(facts, FileId { id: index }, analysis);
        index = index + 1;
        proof {
            assert(all[index - 1] == analysis);
            assert(facts@ == package_facts(all, index as int));
        }
    }
    facts
}

/// The model of a package and what was reported up to it.
#[derive(Debug, PartialEq, Eq)]
pub struct PackageAnalysis {
    pub package: PackageModel,
    pub diagnostics: Diagnostics,
}

/// What the analysis of a package owes: the merged model of its files and
/// metadata, with S3 methods found by the provider too, and the reports of the
/// files before those of the merge.
pub open spec fn is_analysis<P: S3GenericProvider>(
    analysis: PackageAnalysis,
    inputs: PackageInputs,
    files: Seq<SourceAnalysis>,
    provider: P,
) -> bool {
    let facts = package_facts(files, files.len() as int);
    let context = context_of(
        inputs.sources,
        Some(inputs.metadata),
        facts.bindings,
        facts.registrations,
    );
    let merged = merged_package(facts.blocks, Some(inputs.metadata), context);
    let local = facts_of(
        facts.bindings,
        Some(inputs.sources),
        context.collate,
        EmptyS3GenericProvider,
    );
    let known = facts_of(facts.bindings, Some(inputs.sources), context.collate, provider);
    &&& analysis.package.wf()
    &&& topic_views(analysis.package.topics) == classified_topics(
        known,
        classified_topics(local, merged.topics),
    )
    &&& analysis.package.namespace@ == merged.namespace
    &&& analysis.package.bindings@ == facts.bindings
    &&& analysis.package.registrations@ == facts.registrations
    &&& analysis.package.collate == context.collate
    &&& analysis.diagnostics@ == facts.diagnostics + merged.ledger.diagnostics
}

/// Builds the model of a package from what the front end reads in its files.
pub fn analyze_package<P: S3GenericProvider>(
    inputs: &PackageInputs,
    files: Vec<SourceAnalysis>,
    s3_provider: &P,
) -> (r: PackageAnalysis)
    requires
        files@.len() <= u32::MAX,
    ensures
        is_analysis(r, *inputs, files@, *s3_provider),
{
    let Collected { blocks, bindings, registrations, diagnostics } = collect(files);
    let mut diagnostics = diagnostics;
    let model = build_package_model_with_metadata_bindings_and_registrations(
        &inputs.sources,
        blocks,
        &inputs.metadata,
        bindings,
        registrations,
    );
    let package = classify_usage_methods(model.package, &inputs.sources, s3_provider);
    diagnostics.extend(model.diagnostics);
    PackageAnalysis { package, diagnostics }
}

/// Whether some topic has an alias.
pub open spec fn has_alias(package: PackageModel, name: Seq<char>) -> bool {
    exists|i: int, j: int|
        0 <= i < package.topics.entries@.len() && 0 <= j
            < package.topics.entries@[i].1.aliases@.len() && (
        #[trigger] package.topics.entries@[i].1.aliases@[j]).name.0@ == name
}

/// The aliases of a package, as targets of help links. A topic that is none of
/// them is not checked.
#[derive(Debug, PartialEq, Eq)]
pub struct PackageLocalLinks {
    aliases: Vec<String>,
}

impl PackageLocalLinks {
    /// Whether a topic is an alias of the package.
    pub closed spec fn has(&self, topic: Seq<char>) -> bool {
        exists|i: int| 0 <= i < self.aliases@.len() && (#[trigger] self.aliases@[i])@ == topic
    }

    /// The aliases of a package.
    pub fn new(package: &PackageModel) -> (r: Self)
        ensures
            forall|name: Seq<char>| #[trigger] r.has(name) == has_alias(*package, name),
    {
        let mut aliases: Vec<String> = Vec::new();
        let entries = &package.topics.entries;
        let mut i: usize = 0;
        while i < entries.len()
            invariant
                i <= entries@.len(),
                *entries == package.topics.entries,
                forall|k: int|
                    0 <= k < aliases@.len() ==> has_alias(*package, (#[trigger] aliases@[k])@),
                forall|a: int, b: int|
                    0 <= a < i && 0 <= b < entries@[a].1.aliases@.len() ==> holds(
                        aliases@,
                        (#[trigger] entries@[a].1.aliases@[b]).name.0@,
                    ),
            decreases entries@.len() - i,
        {
            let topic = &entries[i].1;
            let mut j: usize = 0;
            while j < topic.aliases.len()
                invariant
                    i < entries@.len(),
                    j <= topic.aliases@.len(),
                    *entries == package.topics.entries,
                    *topic == entries@[i as int].1,
                    forall|k: int|
                        0 <= k < aliases@.len() ==> has_alias(*package, (#[trigger] aliases@[k])@),
                    forall|a: int, b: int|
                        0 <= a < i && 0 <= b < entries@[a].1.aliases@.len() ==> holds(
                            aliases@,
                            (#[trigger] entries@[a].1.aliases@[b]).name.0@,
                        ),
                    forall|b: int|
                        0 <= b < j ==> holds(aliases@, (#[trigger] topic.aliases@[b]).name.0@),
                decreases topic.aliases@.len() - j,
            {
                let ghost before = aliases@;
                aliases.push(topic.aliases[j].name.0.clone());
                proof {
                    assert(package.topics.entries@[i as int].1.aliases@[j as int].name.0@
                        == aliases@.last()@);
                    assert forall|name: Seq<char>| holds(before, name) implies holds(
                        aliases@,
                        name,
                    ) by {
                        let k = choose|k: int|
                            0 <= k < before.len() && (#[trigger] before[k])@ == name;
                        assert(aliases@[k]@ == name);
                    }
                    assert(holds(aliases@, aliases@[before.len() as int]@));
                }
                j = j + 1;
            }
            i = i + 1;
        }
        let r = PackageLocalLinks { aliases };
        proof {
            assert forall|name: Seq<char>| #[trigger] r.has(name) == has_alias(*package, name) by {
                if has_alias(*package, name) {
                    let (a, b) = choose|a: int, b: int|
                        0 <= a < package.topics.entries@.len() && 0 <= b
                            < package.topics.entries@[a].1.aliases@.len() && (
                        #[trigger] package.topics.entries@[a].1.aliases@[b]).name.0@ == name;
                    assert(holds(r.aliases@, entries@[a].1.aliases@[b].name.0@));
                }
            }
        }
        r
    }
}

/// Whether a list holds a text.
spec fn holds(list: Seq<String>, text: Seq<char>) -> bool {
    exists|k: int| 0 <= k < list.len() && (#[trigger] list[k])@ == text
}

impl HelpLinkResolver for PackageLocalLinks {
    open spec fn resolution(&self, topic: Seq<char>) -> ResolutionView {
        if self.has(topic) {
            ResolutionView::Local
        } else {
            ResolutionView::Unchecked
        }
    }

    fn resolve_unqualified(&self, topic: &str) -> (r: LinkResolution) {
        let mut i: usize = 0;
        while i < self.aliases.len()
            invariant
                i <= self.aliases@.len(),
                forall|k: int| 0 <= k < i ==> (#[trigger] self.aliases@[k])@ != topic@,
            decreases self.aliases@.len() - i,
        {
            if same_text(&self.aliases[i], topic) {
                return LinkResolution::Local;
            }
            i = i + 1;
        }
        LinkResolution::Unchecked
    }
}

/// A generated Rd file.
#[derive(Debug, PartialEq, Eq)]
pub struct RdFile {
    pub topic: TopicKey,
    pub content: String,
}

/// Generated Rd files and what was reported of them.
#[derive(Debug, PartialEq, Eq)]
pub struct RdBuildOutput {
    pub files: Vec<RdFile>,
    pub diagnostics: Diagnostics,
}

/// What the Rd generator makes of a package model.
#[derive(Debug, PartialEq, Eq)]
pub struct GeneratedDocumentation {
    /// What was reported of inheritance.
    pub inheritance_diagnostics: Diagnostics,
    /// The Rd files.
    pub rd: RdBuildOutput,
    /// The substitutions that the package never used.
    pub unused_diagnostics: Diagnostics,
}

/// All generated package outputs and diagnostics.
#[derive(Debug, PartialEq, Eq)]
pub struct PackageOutput {
    /// Generated Rd files.
    pub rd: RdBuildOutput,
    /// Generated NAMESPACE contents.
    pub namespace: NamespaceBuildOutput,
    /// What was reported before both.
    pub analysis_diagnostics: Diagnostics,
}

/// Configuration supplied by the caller.
#[derive(Debug, PartialEq, Eq)]
pub struct DocumentOptions {
    /// The substitutions for inline R expressions.
    pub inline_r_substitutions: InlineRSession,
}

impl PackageOutput {
    /// All diagnostics in pipeline order: analysis, Rd, NAMESPACE.
    pub open spec fn reports(&self) -> Seq<DiagnosticView> {
        self.analysis_diagnostics@ + self.rd.diagnostics@ + self.namespace.diagnostics@
    }

    /// The diagnostics in pipeline order, without copying them.
    pub fn diagnostics(&self) -> (r: Vec<&Diagnostic>)
        ensures
            r@.map_values(|d: &Diagnostic| d@) == self.reports(),
    {
        let mut out: Vec<&Diagnostic> = Vec::new();
        proof {
            assert(report_views(out@) =~= Seq::<DiagnosticView>::empty());
        }
        push_all(&mut out, &self.analysis_diagnostics);
        push_all(&mut out, &self.rd.diagnostics);
        push_all(&mut out, &self.namespace.diagnostics);
        proof {
            assert(report_views(out@) =~= self.reports());
        }
        out
    }

    /// Whether any pipeline stage reported an error.
    pub fn has_errors(&self) -> (r: bool)
        ensures
            r == any_error(self.reports()),
    {
        let ghost a = self.analysis_diagnostics@;
        let ghost b = self.rd.diagnostics@;
        let ghost c = self.namespace.diagnostics@;
        proof {
            errors_append(a, b);
            errors_append(a + b, c);
        }
        self.analysis_diagnostics.has_errors() || self.rd.diagnostics.has_errors()
            || self.namespace.diagnostics.has_errors()
    }
}

/// The models of diagnostics behind references.
pub open spec fn report_views(items: Seq<&Diagnostic>) -> Seq<DiagnosticView> {
    items.map_values(|d: &Diagnostic| d@)
}

fn push_all<'a>(out: &mut Vec<&'a Diagnostic>, more: &'a Diagnostics)
    ensures
        report_views(final(out)@) == report_views(old(out)@) + more@,
{
    let mut i: usize = 0;
    let ghost before = report_views(out@);
    proof {
        assert(before + more@.take(0) =~= before);
    }
    while i < more.items.len()
        invariant
            i <= more.items@.len(),
            more@.len() == more.items@.len(),
            report_views(out@) == before + more@.take(i as int),
        decreases more.items@.len() - i,
    {
        let ghost held = out@;
        let item: &'a Diagnostic = &more.items[i];
        out.push(item);
        proof {
            assert(more@[i as int] == more.items@[i as int]@);
            assert(report_views(out@) =~= report_views(held).push(item@));
            assert(more@.take(i + 1) =~= more@.take(i as int).push(item@));
            assert(report_views(out@) =~= before + more@.take(i + 1));
        }
        i = i + 1;
    }
    proof {
        assert(more@.take(more@.len() as int) =~= more@);
    }
}

/// There is an error in two lists in a row exactly when there is one in either.
pub proof fn errors_append(a: Seq<DiagnosticView>, b: Seq<DiagnosticView>)
    ensures
        any_error(a + b) == (any_error(a) || any_error(b)),
{
    if any_error(a) {
        let i = choose|i: int|
            0 <= i < a.len() && (#[trigger] a[i]).severity == crate::diagnostic::Severity::Error;
        assert((a + b)[i] == a[i]);
    }
    if any_error(b) {
        let i = choose|i: int|
            0 <= i < b.len() && (#[trigger] b[i]).severity == crate::diagnostic::Severity::Error;
        assert((a + b)[a.len() + i] == b[i]);
    }
    if any_error(a + b) {
        let i = choose|i: int|
            0 <= i < (a + b).len() && (#[trigger] (a + b)[i]).severity
                == crate::diagnostic::Severity::Error;
        if i < a.len() {
            assert(a[i].severity == crate::diagnostic::Severity::Error);
        } else {
            assert(b[i - a.len()].severity == crate::diagnostic::Severity::Error);
        }
    }
}

/// What a finished package owes: the generated Rd, the NAMESPACE of the model,
/// and the reports of the analysis, of inheritance and of unused substitutions,
/// in this order.
pub open spec fn is_output<P: S3GenericProvider>(
    output: PackageOutput,
    inputs: PackageInputs,
    analysis: PackageAnalysis,
    generated: GeneratedDocumentation,
    provider: P,
) -> bool {
    let package = analysis.package;
    &&& output.rd == generated.rd
    &&& built(
        output.namespace,
        package,
        Some(inputs.metadata.package@),
        facts_of(package.bindings@, Some(inputs.sources), package.collate, provider),
    )
    &&& output.analysis_diagnostics@ == analysis.diagnostics@
        + generated.inheritance_diagnostics@ + generated.unused_diagnostics@
}

/// Puts the outputs of a package together.
pub fn finish_package<P: S3GenericProvider>(
    inputs: &PackageInputs,
    analysis: PackageAnalysis,
    generated: GeneratedDocumentation,
    s3_provider: &P,
) -> (r: PackageOutput)
    ensures
        is_output(r, *inputs, analysis, generated, *s3_provider),
{
    let namespace = build_namespace_with_sources_and_provider(
        &analysis.package,
        &inputs.sources,
        Some(inputs.metadata.package()),
        s3_provider,
    );
    let mut diagnostics = analysis.diagnostics;
    diagnostics.extend(generated.inheritance_diagnostics);
    diagnostics.extend(generated.unused_diagnostics);
    PackageOutput { rd: generated.rd, namespace, analysis_diagnostics: diagnostics }
}

/// What documenting a package owes: an analysis, what the generator made of it,
/// and the output put together from both. The generator gets the model, the
/// aliases of the package as link targets, the substitutions, the documentation
/// of other packages and the policy on it.
pub open spec fn is_documented<P: S3GenericProvider, D: DocumentationProvider, G: FnOnce(
    &PackageModel,
    &PackageLocalLinks,
    &InlineRSession,
    &D,
    &InheritanceOptions,
) -> GeneratedDocumentation>(
    output: PackageOutput,
    inputs: PackageInputs,
    files: Seq<SourceAnalysis>,
    options: DocumentOptions,
    provider: P,
    documentation: D,
    inheritance: InheritanceOptions,
    generate: G,
) -> bool {
    exists|
        analysis: PackageAnalysis,
        links: PackageLocalLinks,
        generated: GeneratedDocumentation,
    |
        {
            &&& is_analysis(analysis, inputs, files, provider)
            &&& links_package(links, analysis.package)
            &&& call_ensures(
                generate,
                (
                    &analysis.package,
                    &links,
                    &options.inline_r_substitutions,
                    &documentation,
                    &inheritance,
                ),
                generated,
            )
            &&& #[trigger] is_step(output, inputs, analysis, links, generated, provider)
        }
}

/// Whether link targets are the aliases of a package.
pub open spec fn links_package(links: PackageLocalLinks, package: PackageModel) -> bool {
    forall|name: Seq<char>| #[trigger] links.has(name) == has_alias(package, name)
}

/// The output of an analysis and what was generated from it.
pub open spec fn is_step<P: S3GenericProvider>(
    output: PackageOutput,
    inputs: PackageInputs,
    analysis: PackageAnalysis,
    links: PackageLocalLinks,
    generated: GeneratedDocumentation,
    provider: P,
) -> bool {
    is_output(output, inputs, analysis, generated, provider)
}

/// Documents a package with independent S3 metadata and documentation providers
/// plus an explicit external-inheritance policy; `generate` makes the Rd files.
pub fn document_package_with_options_and_providers<
    P: S3GenericProvider,
    D: DocumentationProvider,
    G: FnOnce(
        &PackageModel,
        &PackageLocalLinks,
        &InlineRSession,
        &D,
        &InheritanceOptions,
    ) -> GeneratedDocumentation,
>(
    inputs: &PackageInputs,
    files: Vec<SourceAnalysis>,
    options: &DocumentOptions,
    s3_provider: &P,
    documentation_provider: &D,
    inheritance_options: &InheritanceOptions,
    generate: G,
) -> (r: PackageOutput)
    requires
        files@.len() <= u32::MAX,
        forall|package: &PackageModel, links: &PackageLocalLinks, session: &InlineRSession|
            call_requires(
                generate,
                (package, links, session, documentation_provider, inheritance_options),
            ),
    ensures
        is_documented(
            r,
            *inputs,
            files@,
            *options,
            *s3_provider,
            *documentation_provider,
            *inheritance_options,
            generate,
        ),
{
    let analysis = analyze_package(inputs, files, s3_provider);
    let links = PackageLocalLinks::new(&analysis.package);
    let generated = generate(
        &analysis.package,
        &links,
        &options.inline_r_substitutions,
        documentation_provider,
        inheritance_options,
    );
    let ghost given = analysis;
    let ghost made = generated;
    let output = finish_package(inputs, analysis, generated, s3_provider);
    proof {
        assert(is_step(output, *inputs, given, links, made, *s3_provider));
    }
    output
}

/// Documents a package with the caller's S3 generic facts, and with no
/// documentation of other packages.
pub fn document_package_with_options_and_s3_provider<P: S3GenericProvider, G: FnOnce(
    &PackageModel,
    &PackageLocalLinks,
    &InlineRSession,
    &EmptyDocumentationProvider,
    &InheritanceOptions,
) -> GeneratedDocumentation>(
    inputs: &PackageInputs,
    files: Vec<SourceAnalysis>,
    options: &DocumentOptions,
    s3_provider: &P,
    generate: G,
) -> (r: PackageOutput)
    requires
        files@.len() <= u32::MAX,
        can_generate(generate),
    ensures
        is_documented(
            r,
            *inputs,
            files@,
            *options,
            *s3_provider,
            EmptyDocumentationProvider,
            default_inheritance(),
            generate,
        ),
{
    let inheritance_options: InheritanceOptions = InheritanceOptions::default();
    document_package_with_options_and_providers(
        inputs,
        files,
        options,
        s3_provider,
        &EmptyDocumentationProvider,
        &inheritance_options,
        generate,
    )
}

/// Whether a generator takes every model, with no documentation of other
/// packages.
pub open spec fn can_generate<G: FnOnce(
    &PackageModel,
    &PackageLocalLinks,
    &InlineRSession,
    &EmptyDocumentationProvider,
    &InheritanceOptions,
) -> GeneratedDocumentation>(generate: G) -> bool {
    forall|
        package: &PackageModel,
        links: &PackageLocalLinks,
        session: &InlineRSession,
        documentation: &EmptyDocumentationProvider,
        inheritance: &InheritanceOptions,
    | #[trigger]
        call_requires(generate, (package, links, session, documentation, inheritance))
}

/// Documents a package using the caller's options and no S3 facts from outside.
pub fn document_package_with_options<G: FnOnce(
    &PackageModel,
    &PackageLocalLinks,
    &InlineRSession,
    &EmptyDocumentationProvider,
    &InheritanceOptions,
) -> GeneratedDocumentation>(
    inputs: &PackageInputs,
    files: Vec<SourceAnalysis>,
    options: &DocumentOptions,
    generate: G,
) -> (r: PackageOutput)
    requires
        files@.len() <= u32::MAX,
        can_generate(generate),
    ensures
        is_documented(
            r,
            *inputs,
            files@,
            *options,
            EmptyS3GenericProvider,
            EmptyDocumentationProvider,
            default_inheritance(),
            generate,
        ),
{
    document_package_with_options_and_s3_provider(
        inputs,
        files,
        options,
        &EmptyS3GenericProvider,
        generate,
    )
}

/// Documents a package using the built-in substitutions and nothing else from
/// outside.
pub fn document_package<G: FnOnce(
    &PackageModel,
    &PackageLocalLinks,
    &InlineRSession,
    &EmptyDocumentationProvider,
    &InheritanceOptions,
) -> GeneratedDocumentation>(
    inputs: &PackageInputs,
    files: Vec<SourceAnalysis>,
    builtins: InlineRSession,
    generate: G,
) -> (r: PackageOutput)
    requires
        files@.len() <= u32::MAX,
        can_generate(generate),
    ensures
        is_documented(
            r,
            *inputs,
            files@,
            (DocumentOptions { inline_r_substitutions: builtins }),
            EmptyS3GenericProvider,
            EmptyDocumentationProvider,
            default_inheritance(),
            generate,
        ),
{
    let options = DocumentOptions { inline_r_substitutions: builtins };
    document_package_with_options(inputs, files, &options, generate)
}

} // verus!
