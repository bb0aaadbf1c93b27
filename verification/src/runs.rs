//! What holds of several runs of the pipeline.
use crate::inherit::{
    default_inheritance, is_silent, DocumentationProvider, EmptyDocumentationProvider,
    InheritanceOptions,
};
use crate::markdown_conversion::context::InlineRSession;
use crate::model::ir::PackageModel;
use crate::model::view::{topic_views, TopicView};
use crate::namespace::pipeline::{collected, namespace_lines, namespace_text_is_unique};
use crate::namespace::s3::{facts_of, S3GenericProvider};
use crate::package::PackageInputs;
use crate::pipeline::{
    has_alias, is_analysis, is_documented, is_step, links_package, DocumentOptions,
    GeneratedDocumentation, PackageAnalysis, PackageLocalLinks, PackageOutput, RdBuildOutput,
    RdFile, SourceAnalysis,
};
use vstd::prelude::*;

verus! {

/// Whether two models say the same.
pub open spec fn same_model(a: PackageModel, b: PackageModel) -> bool {
    &&& a.wf() && b.wf()
    &&& topic_views(a.topics) == topic_views(b.topics)
    &&& a.namespace@ == b.namespace@
    &&& a.bindings@ == b.bindings@
    &&& a.registrations@ == b.registrations@
    &&& a.collate == b.collate
}

/// Whether two lists of link targets hold the same topics.
pub open spec fn same_targets(a: PackageLocalLinks, b: PackageLocalLinks) -> bool {
    forall|name: Seq<char>| #[trigger] a.has(name) == b.has(name)
}

/// The topic and the text of each Rd file.
pub open spec fn rd_texts(files: Seq<RdFile>) -> Seq<(Seq<char>, Seq<char>)> {
    files.map_values(|file: RdFile| (file.topic@, file.content@))
}

/// Whether two results hold the same Rd files and reports.
pub open spec fn same_rd(a: RdBuildOutput, b: RdBuildOutput) -> bool {
    rd_texts(a.files@) == rd_texts(b.files@) && a.diagnostics@ == b.diagnostics@
}

/// Whether two generators' results are the same.
pub open spec fn same_generated(a: GeneratedDocumentation, b: GeneratedDocumentation) -> bool {
    &&& same_rd(a.rd, b.rd)
    &&& a.inheritance_diagnostics@ == b.inheritance_diagnostics@
    &&& a.unused_diagnostics@ == b.unused_diagnostics@
}

/// Whether two runs give the same Rd files, NAMESPACE text and reports.
pub open spec fn same_output(a: PackageOutput, b: PackageOutput) -> bool {
    &&& same_rd(a.rd, b.rd)
    &&& a.namespace.content@ == b.namespace.content@
    &&& a.namespace.diagnostics@ == b.namespace.diagnostics@
    &&& a.analysis_diagnostics@ == b.analysis_diagnostics@
    &&& a.reports() == b.reports()
}

/// Whether two generators make the same of models that say the same, link
/// targets with the same topics and one list of substitutions, each with its own
/// documentation of other packages.
pub open spec fn generate_alike<D: DocumentationProvider, E: DocumentationProvider, G: FnOnce(
    &PackageModel,
    &PackageLocalLinks,
    &InlineRSession,
    &D,
    &InheritanceOptions,
) -> GeneratedDocumentation, H: FnOnce(
    &PackageModel,
    &PackageLocalLinks,
    &InlineRSession,
    &E,
    &InheritanceOptions,
) -> GeneratedDocumentation>(
    generate: G,
    documentation: D,
    other_generate: H,
    other_documentation: E,
    session: InlineRSession,
    inheritance: InheritanceOptions,
) -> bool {
    forall|
        a: PackageModel,
        b: PackageModel,
        x: PackageLocalLinks,
        y: PackageLocalLinks,
        made: GeneratedDocumentation,
        other: GeneratedDocumentation,
    |
        same_model(a, b) && same_targets(x, y) && #[trigger] call_ensures(
            generate,
            (&a, &x, &session, &documentation, &inheritance),
            made,
        ) && #[trigger] call_ensures(
            other_generate,
            (&b, &y, &session, &other_documentation, &inheritance),
            other,
        ) ==> same_generated(made, other)
}

/// Whether two generators make the same of the same, wherever neither gets any
/// documentation of other packages.
pub open spec fn alike_in_silence<D: DocumentationProvider, E: DocumentationProvider, G: FnOnce(
    &PackageModel,
    &PackageLocalLinks,
    &InlineRSession,
    &D,
    &InheritanceOptions,
) -> GeneratedDocumentation, H: FnOnce(
    &PackageModel,
    &PackageLocalLinks,
    &InlineRSession,
    &E,
    &InheritanceOptions,
) -> GeneratedDocumentation>(generate: G, other_generate: H) -> bool {
    forall|d: D, e: E, session: InlineRSession, inheritance: InheritanceOptions|
        is_silent(d) && is_silent(e) ==> #[trigger] generate_alike(
            generate,
            d,
            other_generate,
            e,
            session,
            inheritance,
        )
}

/// Whether a topic has an alias.
pub open spec fn claims_alias(topic: TopicView, name: Seq<char>) -> bool {
    exists|j: int| 0 <= j < topic.aliases.len() && (#[trigger] topic.aliases[j]).name == name
}

/// The aliases of a package can be read off its topics.
proof fn aliases_are_in_topics(package: PackageModel, name: Seq<char>)
    requires
        package.wf(),
    ensures
        has_alias(package, name) <==> exists|key: Seq<char>| #[trigger]
            topic_views(package.topics).dom().contains(key) && claims_alias(
                topic_views(package.topics)[key],
                name,
            ),
{
    let topics = package.topics;
    if has_alias(package, name) {
        let (i, j) = choose|i: int, j: int|
            0 <= i < topics.entries@.len() && 0 <= j < topics.entries@[i].1.aliases@.len() && (
            #[trigger] topics.entries@[i].1.aliases@[j]).name.0@ == name;
        topics.entry_is_mapped(i);
        let key = topics.entries@[i].0@;
        assert(topic_views(topics).dom().contains(key));
        assert(topic_views(topics)[key] == topics.entries@[i].1@);
        assert(topic_views(topics)[key].aliases[j].name == name);
        assert(claims_alias(topic_views(topics)[key], name));
    }
    if exists|key: Seq<char>| #[trigger]
        topic_views(topics).dom().contains(key) && claims_alias(topic_views(topics)[key], name) {
        let key = choose|key: Seq<char>| #[trigger]
            topic_views(topics).dom().contains(key) && claims_alias(topic_views(topics)[key], name);
        let i = topics.keys().index_of(key);
        assert(topics.keys().contains(key));
        assert(topics.keys()[i] == key);
        topics.entry_is_mapped(i);
        let topic = topic_views(topics)[key];
        assert(topic == topics.entries@[i].1@);
        let j = choose|j: int|
            0 <= j < topic.aliases.len() && (#[trigger] topic.aliases[j]).name == name;
        assert(topics.entries@[i].1.aliases@[j].name.0@ == name);
    }
}

/// Models that say the same have the same aliases.
proof fn same_models_have_the_same_aliases(a: PackageModel, b: PackageModel, name: Seq<char>)
    requires
        same_model(a, b),
    ensures
        has_alias(a, name) == has_alias(b, name),
{
    aliases_are_in_topics(a, name);
    aliases_are_in_topics(b, name);
}

/// Runs on the same inputs and options give the same output, where their
/// generators make the same of the same.
pub proof fn runs_are_determined<
    P: S3GenericProvider,
    D: DocumentationProvider,
    E: DocumentationProvider,
    G: FnOnce(
        &PackageModel,
        &PackageLocalLinks,
        &InlineRSession,
        &D,
        &InheritanceOptions,
    ) -> GeneratedDocumentation,
    H: FnOnce(
        &PackageModel,
        &PackageLocalLinks,
        &InlineRSession,
        &E,
        &InheritanceOptions,
    ) -> GeneratedDocumentation,
>(
    x: PackageOutput,
    y: PackageOutput,
    inputs: PackageInputs,
    files: Seq<SourceAnalysis>,
    options: DocumentOptions,
    provider: P,
    documentation: D,
    other_documentation: E,
    inheritance: InheritanceOptions,
    generate: G,
    other_generate: H,
)
    requires
        is_documented(
            x,
            inputs,
            files,
            options,
            provider,
            documentation,
            inheritance,
            generate,
        ),
        is_documented(
            y,
            inputs,
            files,
            options,
            provider,
            other_documentation,
            inheritance,
            other_generate,
        ),
        generate_alike(
            generate,
            documentation,
            other_generate,
            other_documentation,
            options.inline_r_substitutions,
            inheritance,
        ),
    ensures
        same_output(x, y),
{
    let session = options.inline_r_substitutions;
    let (a, l, m) = choose|
        analysis: PackageAnalysis,
        links: PackageLocalLinks,
        generated: GeneratedDocumentation,
    |
        {
            &&& is_analysis(analysis, inputs, files, provider)
            &&& links_package(links, analysis.package)
            &&& call_ensures(
                generate,
                (&analysis.package, &links, &session, &documentation, &inheritance),
                generated,
            )
            &&& #[trigger] is_step(x, inputs, analysis, links, generated, provider)
        };
    let (b, k, n) = choose|
        analysis: PackageAnalysis,
        links: PackageLocalLinks,
        generated: GeneratedDocumentation,
    |
        {
            &&& is_analysis(analysis, inputs, files, provider)
            &&& links_package(links, analysis.package)
            &&& call_ensures(
                other_generate,
                (&analysis.package, &links, &session, &other_documentation, &inheritance),
                generated,
            )
            &&& #[trigger] is_step(y, inputs, analysis, links, generated, provider)
        };
    assert(same_model(a.package, b.package));
    assert forall|name: Seq<char>| #[trigger] l.has(name) == k.has(name) by {
        same_models_have_the_same_aliases(a.package, b.package, name);
    }
    assert(same_targets(l, k));
    assert(same_generated(m, n));
    let facts = facts_of(
        a.package.bindings@,
        Some(inputs.sources),
        a.package.collate,
        provider,
    );
    let lines = namespace_lines(
        collected(
            a.package.namespace@,
            Some(inputs.metadata.package@),
            facts,
            a.package.namespace@.len() as int,
        ).directives,
    );
    namespace_text_is_unique(x.namespace.content@, y.namespace.content@, lines);
}

/// Options that an earlier run has used serve a later one as if they were new: a
/// run after another gives the same Rd files, NAMESPACE text and reports as it
/// gives alone, whatever the earlier run was on.
pub proof fn reused_options_change_nothing<P: S3GenericProvider, D: DocumentationProvider, G: FnOnce(
    &PackageModel,
    &PackageLocalLinks,
    &InlineRSession,
    &D,
    &InheritanceOptions,
) -> GeneratedDocumentation>(
    earlier: PackageOutput,
    later: PackageOutput,
    alone: PackageOutput,
    first_inputs: PackageInputs,
    first_files: Seq<SourceAnalysis>,
    inputs: PackageInputs,
    files: Seq<SourceAnalysis>,
    options: DocumentOptions,
    provider: P,
    documentation: D,
    inheritance: InheritanceOptions,
    generate: G,
)
    requires
        is_documented(
            earlier,
            first_inputs,
            first_files,
            options,
            provider,
            documentation,
            inheritance,
            generate,
        ),
        is_documented(
            later,
            inputs,
            files,
            options,
            provider,
            documentation,
            inheritance,
            generate,
        ),
        is_documented(
            alone,
            inputs,
            files,
            options,
            provider,
            documentation,
            inheritance,
            generate,
        ),
        generate_alike(
            generate,
            documentation,
            generate,
            documentation,
            options.inline_r_substitutions,
            inheritance,
        ),
    ensures
        same_output(later, alone),
{
    runs_are_determined(
        later,
        alone,
        inputs,
        files,
        options,
        provider,
        documentation,
        documentation,
        inheritance,
        generate,
        generate,
    );
}

/// A run with an S3 provider alone gives what a run with all providers gives,
/// when the documentation provider has nothing to say and the policy on other
/// packages is the default one.
pub proof fn silent_documentation_adds_nothing<
    P: S3GenericProvider,
    D: DocumentationProvider,
    G: FnOnce(
        &PackageModel,
        &PackageLocalLinks,
        &InlineRSession,
        &EmptyDocumentationProvider,
        &InheritanceOptions,
    ) -> GeneratedDocumentation,
    H: FnOnce(
        &PackageModel,
        &PackageLocalLinks,
        &InlineRSession,
        &D,
        &InheritanceOptions,
    ) -> GeneratedDocumentation,
>(
    with_s3: PackageOutput,
    with_all: PackageOutput,
    inputs: PackageInputs,
    files: Seq<SourceAnalysis>,
    options: DocumentOptions,
    provider: P,
    none: D,
    generate: G,
    other_generate: H,
)
    requires
        is_documented(
            with_s3,
            inputs,
            files,
            options,
            provider,
            EmptyDocumentationProvider,
            default_inheritance(),
            generate,
        ),
        is_documented(
            with_all,
            inputs,
            files,
            options,
            provider,
            none,
            default_inheritance(),
            other_generate,
        ),
        is_silent(none),
        alike_in_silence(generate, other_generate),
    ensures
        same_output(with_s3, with_all),
{
    assert(is_silent(EmptyDocumentationProvider));
    runs_are_determined(
        with_s3,
        with_all,
        inputs,
        files,
        options,
        provider,
        EmptyDocumentationProvider,
        none,
        default_inheritance(),
        generate,
        other_generate,
    );
}

} // verus!
