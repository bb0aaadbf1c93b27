//! Laws of a package as a whole: its files, its checks and its reports.
use crate::diagnostic::{DiagnosticCode, DiagnosticView, Severity};
use crate::model::identity::{object_name, object_span};
use crate::model::ir::{BlockRef, DocumentedBlock};
use crate::model::merge::assembly::{block_registrations, registration_checks};
use crate::model::merge::bindings::{s7_resolution, S7BindingResolution};
use crate::model::merge::block::TagState;
use crate::model::merge::contribution::{
    completed, null_export_from, usage_from, usage_reports, ContextView,
};
use crate::model::lookup::method_from;
use crate::namespace::s3::S3GenericProvider;
use crate::package::PackageInputs;
use crate::pipeline::{
    complete_files_lose_nothing, documented_count, has_all_tags, is_analysis, is_output,
    package_facts, tag_reports, GeneratedDocumentation, PackageAnalysis, PackageOutput,
    SourceAnalysis,
};
use crate::r_parse::{file_bindings, file_objects, BlockTarget};
use crate::source::FileId;
use crate::tags::ParsedTag;
use vstd::prelude::*;

verus! {

proof fn more_files_change_no_fact(files: Seq<SourceAnalysis>, file: SourceAnalysis, count: int)
    requires
        0 <= count <= files.len(),
    ensures
        package_facts(files.push(file), count) == package_facts(files, count),
    decreases count,
{
    if count > 0 {
        more_files_change_no_fact(files, file, count - 1);
        assert(files.push(file)[count - 1] == files[count - 1]);
    }
}

/// One more file adds what it says behind what the others say: its bindings, its registrations,
/// its reports, and a block for each of its documented expressions.
pub proof fn every_file_counts(files: Seq<SourceAnalysis>, file: SourceAnalysis, i: int)
    requires
        files.len() < u32::MAX,
        has_all_tags(file),
    ensures
        ({
            let before = package_facts(files, files.len() as int);
            let after = package_facts(files.push(file), files.len() as int + 1);
            let objects = file_objects(file.parsed.top_level@);
            let at = before.blocks.len() + i;
            &&& after.bindings == before.bindings + file_bindings(file.parsed.top_level@)
            &&& after.registrations == before.registrations + file.registrations@
            &&& after.blocks.len() == before.blocks.len() + objects.len()
            &&& after.blocks.take(before.blocks.len() as int) == before.blocks
            &&& 0 <= i < objects.len() ==> {
                &&& after.blocks[at].block == (BlockRef {
                    file: FileId { id: files.len() as u32 },
                    block: objects[i].block,
                })
                &&& after.blocks[at].target == objects[i].target
                &&& after.blocks[at].block_span == objects[i].block_span
                &&& after.blocks[at].tags == file.blocks@[i].tags
            }
            &&& after.diagnostics.len() >= before.diagnostics.len()
            &&& after.diagnostics.take(before.diagnostics.len() as int) == before.diagnostics
            &&& forall|k: int|
                0 <= k < file.parsed.diagnostics@.len() ==> after.diagnostics.contains(
                    #[trigger] file.parsed.diagnostics@[k],
                )
            &&& forall|k: int|
                0 <= k < file.registration_diagnostics@.len() ==> after.diagnostics.contains(
                    #[trigger] file.registration_diagnostics@[k],
                )
            &&& 0 <= i < file.blocks@.len() ==> forall|report: DiagnosticView| #[trigger]
                file.blocks@[i].diagnostics@.contains(report) ==> after.diagnostics.contains(report)
        }),
{
    let before = package_facts(files, files.len() as int);
    let all = files.push(file);
    let after = package_facts(all, files.len() as int + 1);
    more_files_change_no_fact(files, file, files.len() as int);
    assert(all[files.len() as int] == file);
    let id = FileId { id: files.len() as u32 };
    complete_files_lose_nothing(id, file);
    assert(after.blocks.take(before.blocks.len() as int) =~= before.blocks);
    assert(after.diagnostics.take(before.diagnostics.len() as int) =~= before.diagnostics);
    let n: int = before.diagnostics.len() as int;
    let m: int = n + file.parsed.diagnostics@.len();
    let o: int = m + file.registration_diagnostics@.len();
    assert forall|k: int| 0 <= k < file.parsed.diagnostics@.len() implies after.diagnostics.contains(
        #[trigger] file.parsed.diagnostics@[k],
    ) by {
        assert(after.diagnostics[n + k] == file.parsed.diagnostics@[k]);
    }
    assert forall|k: int|
        0 <= k < file.registration_diagnostics@.len() implies after.diagnostics.contains(
        #[trigger] file.registration_diagnostics@[k],
    ) by {
        assert(after.diagnostics[m + k] == file.registration_diagnostics@[k]);
    }
    if 0 <= i < file.blocks@.len() {
        let reports = tag_reports(file.blocks@, documented_count(file));
        assert forall|report: DiagnosticView| #[trigger]
            file.blocks@[i].diagnostics@.contains(report) implies after.diagnostics.contains(
            report,
        ) by {
            assert(reports.contains(report));
            let k = reports.index_of(report);
            assert(after.diagnostics[o + k] == report);
        }
    }
}

/// The analysis of a package holds all that its files say, and reports all that was reported of
/// them.
pub proof fn analyses_hold_their_files<P: S3GenericProvider>(
    analysis: PackageAnalysis,
    inputs: PackageInputs,
    files: Seq<SourceAnalysis>,
    provider: P,
)
    requires
        is_analysis(analysis, inputs, files, provider),
    ensures
        ({
            let facts = package_facts(files, files.len() as int);
            &&& analysis.package.bindings@ == facts.bindings
            &&& analysis.package.registrations@ == facts.registrations
            &&& facts.diagnostics.is_prefix_of(analysis.diagnostics@)
        }),
{
    let facts = package_facts(files, files.len() as int);
    assert(analysis.diagnostics@.subrange(0, facts.diagnostics.len() as int)
        =~= facts.diagnostics);
}

/// The output of a package has the Rd files that were generated, and reports all that was
/// reported on the way.
pub proof fn outputs_hold_all_reports<P: S3GenericProvider>(
    output: PackageOutput,
    inputs: PackageInputs,
    analysis: PackageAnalysis,
    generated: GeneratedDocumentation,
    provider: P,
    report: DiagnosticView,
)
    requires
        is_output(output, inputs, analysis, generated, provider),
    ensures
        output.rd.files == generated.rd.files,
        output.reports().contains(report) <==> analysis.diagnostics@.contains(report)
            || generated.inheritance_diagnostics@.contains(report)
            || generated.unused_diagnostics@.contains(report)
            || generated.rd.diagnostics@.contains(report) || output.namespace.diagnostics@.contains(
            report,
        ),
{
    either_holds(analysis.diagnostics@, generated.inheritance_diagnostics@, report);
    either_holds(
        analysis.diagnostics@ + generated.inheritance_diagnostics@,
        generated.unused_diagnostics@,
        report,
    );
    either_holds(output.analysis_diagnostics@, output.rd.diagnostics@, report);
    either_holds(
        output.analysis_diagnostics@ + output.rd.diagnostics@,
        output.namespace.diagnostics@,
        report,
    );
}

proof fn either_holds(a: Seq<DiagnosticView>, b: Seq<DiagnosticView>, report: DiagnosticView)
    ensures
        (a + b).contains(report) <==> a.contains(report) || b.contains(report),
{
    if (a + b).contains(report) {
        let k = (a + b).index_of(report);
        if k < a.len() {
            assert(a[k] == report);
        } else {
            assert(b[k - a.len()] == report);
        }
    }
    if a.contains(report) {
        assert((a + b)[a.index_of(report)] == report);
    }
    if b.contains(report) {
        assert((a + b)[a.len() + b.index_of(report)] == report);
    }
}

/// Whether a list holds a report with a code.
pub open spec fn reports_code(reports: Seq<DiagnosticView>, code: DiagnosticCode) -> bool {
    exists|i: int| 0 <= i < reports.len() && (#[trigger] reports[i]).code == code
}

/// Whether a tag is one that exports.
pub open spec fn is_export(tag: ParsedTag) -> bool {
    tag is Namespace && (tag->Namespace_0 is Export || tag->Namespace_0 is ExportS3Method)
}

/// A documented function is checked against its registrations. Several of them without a
/// declared method are ambiguous; one, or a declared method, that no tag exports is reported as
/// not exported; a suppressed method that nothing describes is unresolved. A function without
/// any of these is not reported.
pub proof fn registrations_are_checked(context: ContextView, block: DocumentedBlock)
    requires
        block.target is FunctionAssignment,
    ensures
        ({
            let found = block_registrations(context, block);
            let reports = registration_checks(context, block);
            let declared = method_from(block.tags@, 0) is Some;
            let exported = exists|k: int|
                0 <= k < block.tags@.len() && is_export(#[trigger] block.tags@[k]);
            &&& found.len() > 1 && !declared <==> reports_code(
                reports,
                DiagnosticCode::AmbiguousS3Registration,
            )
            &&& found.len() > 0 && (found.len() == 1 || declared) && !exported <==> reports_code(
                reports,
                DiagnosticCode::UnexportedS3Method,
            )
            &&& found.len() == 0 && !declared && null_export_from(block.tags@, 0) is Some
                <==> reports_code(reports, DiagnosticCode::UnresolvedS3MethodMetadata)
            &&& found.len() == 0 && declared ==> reports.len() == 0
            &&& found.len() == 1 && exported ==> reports.len() == 0
        }),
{
    let found = block_registrations(context, block);
    let reports = registration_checks(context, block);
    let tags = block.tags@;
    let exported = exists|k: int| 0 <= k < tags.len() && is_export(#[trigger] tags[k]);
    if exported {
        let k = choose|k: int| 0 <= k < tags.len() && is_export(#[trigger] tags[k]);
        assert(crate::model::merge::contribution::exports_object(tags[k]));
    }
    if crate::model::merge::contribution::is_exported(tags) {
        let k = choose|k: int|
            0 <= k < tags.len() && crate::model::merge::contribution::exports_object(
                #[trigger] tags[k],
            );
        assert(is_export(tags[k]));
    }
    let name = block.target->FunctionAssignment_0.name;
    labels_keep_the_code(
        crate::diagnostic::plain_diagnostic(
            crate::diagnostic::severity_of(DiagnosticCode::AmbiguousS3Registration),
            DiagnosticCode::AmbiguousS3Registration,
            "documented function `"@ + name.canonical@
                + "` maps to multiple S3 registration pairs"@,
            crate::diagnostic::LabelView {
                span: name.spelling,
                message: "multiple registration facts claim this target"@,
            },
        ).and_help(
            "add an explicit @method <generic> <class> or separate the registrations across distinct targets"@,
        ),
        found,
        found.len() as int,
    );
    reveal(registration_checks);
    let declared = method_from(tags, 0) is Some;
    let null_export = null_export_from(tags, 0);
    assert(object_name(block.target) is Some && object_span(block.target) is Some);
    if found.len() > 1 && !declared {
        assert(reports.len() == 1);
        assert(reports[0].code == DiagnosticCode::AmbiguousS3Registration);
    } else if found.len() > 0 && !exported {
        assert(reports.len() == 1);
        assert(reports[0].code == DiagnosticCode::UnexportedS3Method);
    } else if found.len() == 0 && !declared && null_export is Some {
        assert(reports.len() == 1);
        assert(reports[0].code == DiagnosticCode::UnresolvedS3MethodMetadata);
    } else {
        assert(reports.len() == 0);
    }
}

proof fn labels_keep_the_code(
    report: DiagnosticView,
    registrations: Seq<crate::s3_register::S3RegistrationFact>,
    count: int,
)
    requires
        0 <= count <= registrations.len(),
    ensures
        crate::model::merge::assembly::with_registration_labels(
            report,
            registrations,
            count,
        ).code == report.code,
    decreases count,
{
    if count > 0 {
        labels_keep_the_code(report, registrations, count - 1);
    }
}

/// A data object has the keyword `datasets`, unless its block suppresses keywords. No other
/// object gets a keyword of its own, and none is taken away.
pub proof fn data_sets_are_marked(after: TagState, block: DocumentedBlock, context: ContextView)
    ensures
        ({
            let topic = after.state.topic;
            let done = completed(after, block, context).topic;
            let suppressed = exists|i: int|
                0 <= i < block.tags@.len() && #[trigger] block.tags@[i] is Keywords
                    && block.tags@[i]->Keywords_0.value is Suppress;
            &&& topic.keywords.is_prefix_of(done.keywords)
            &&& block.target is DataObject && !suppressed ==> done.keywords.contains("datasets"@)
            &&& !(block.target is DataObject) || suppressed ==> done.keywords == topic.keywords
            &&& done.keywords.len() <= topic.keywords.len() + 1
            &&& done.usages.len() == topic.usages.len() + 1
            &&& done.usages.drop_last() == topic.usages
            &&& done.usages.last().block == block.block
        }),
{
    reveal(completed);
    let topic = after.state.topic;
    let done = completed(after, block, context).topic;
    let tags = block.tags@;
    let suppressed = exists|i: int|
        0 <= i < tags.len() && #[trigger] tags[i] is Keywords && tags[i]->Keywords_0.value
            is Suppress;
    if suppressed {
        let i = choose|i: int|
            0 <= i < tags.len() && #[trigger] tags[i] is Keywords && tags[i]->Keywords_0.value
                is Suppress;
        assert(crate::model::merge::contribution::drops_keywords(tags[i]));
    }
    if crate::model::merge::contribution::without_keywords(tags) {
        let i = choose|i: int|
            0 <= i < tags.len() && crate::model::merge::contribution::drops_keywords(
                #[trigger] tags[i],
            );
        assert(tags[i] is Keywords && tags[i]->Keywords_0.value is Suppress);
    }
    assert(done.keywords.subrange(0, topic.keywords.len() as int) =~= topic.keywords);
    if done.keywords.len() > topic.keywords.len() {
        assert(done.keywords[topic.keywords.len() as int] == "datasets"@);
    }
    assert(done.usages.drop_last() =~= topic.usages);
}

/// A value that holds a refused S7 class is reported as an error, unless its block states its
/// usage.
pub proof fn refused_classes_are_reported(
    context: ContextView,
    block: DocumentedBlock,
    value: crate::r_parse::ValueObject,
    refusal: crate::facts::S7ClassRefusal,
)
    requires
        block.target == BlockTarget::ValueAssignment(value),
        s7_resolution(context.bindings, value.assignment_span) == Some(
            S7BindingResolution::Refused(refusal),
        ),
        usage_from(block.tags@, 0) is None,
    ensures
        ({
            let reports = usage_reports(context, block);
            &&& reports.len() > 0
            &&& reports[0].code == DiagnosticCode::UnsupportedS7Constructor
            &&& reports[0].severity == Severity::Error
            &&& reports[0].primary.span == value.value_span
        }),
{
}

} // verus!
