//! Builds the package model from documented blocks.
use crate::diagnostic::{
    plain_diagnostic, severity_of, Diagnostic, DiagnosticCode, DiagnosticView, Label, LabelView,
};
use crate::model::identity::{
    bad_data_name, data_name, data_name_diagnostic, data_object_name, data_object_span, data_span,
    implicit_object_name, implicit_object_span, missing_identity, missing_identity_diagnostic,
    object_name, object_span, origin_span, package_documentation_diagnostic,
    package_documentation_unsupported, reported_span,
};
use crate::model::ir::{
    Alias, DocumentedBlock, ModelOutput, NamespaceRequest, PackageModel, RdTopic, RdTopicKind,
    TopicKey, TopicMap,
};
use crate::model::lookup::{
    first_method, first_name, first_rdname, has_no_rd, method_from, name_from, opt_value,
    rdname_from, silences_rd, suppresses_default_aliases, without_default_aliases,
};
use crate::model::view::{empty_topic, topic_views, AliasView, TopicView};
use crate::namespace::s3::{
    classified_topics, classify_usage_methods, facts_of, EmptyS3GenericProvider,
};
use crate::package::PackageMetadata;
use crate::r_parse::{BindingFact, BlockTarget, PackageSentinel};
use crate::s3_register::S3RegistrationFact;
use crate::source::{SourceMap, Span};
use crate::tags::{DocName, NamespaceTag, ParsedTag};
use crate::text::{increasing_texts, same_text, text2, text3, text_lt};
use vstd::prelude::*;

use super::bindings::{
    matching_registrations, registration_matches, registration_reports, registrations_of,
    s7_binding_results, validate_registration_targets,
};
use super::block::{
    add_alias, in_merge_order, needs_doc, owner_of, register_topic_kind, sort_blocks, wants_topic,
    with_alias, with_kind, Ledger, LedgerView, TopicState,
};
use super::contribution::{
    export_s3_method_null_span, has_namespace_export_or_suppression, is_exported,
    is_function_target, merge_block, merged, null_export_from, Context, ContextView,
};
use super::package::{
    apply_defaults, entry, package_fallback_suppression, suppression_state, with_defaults,
    FallbackStates, PackageFallbackState,
};

verus! {

/// What has been merged so far.
pub struct Merge {
    pub topics: TopicMap,
    pub namespace: Vec<NamespaceRequest>,
    pub ledger: Ledger,
    pub fallback: FallbackStates,
}

/// The model of [`Merge`].
pub struct MergeView {
    pub topics: Map<Seq<char>, TopicView>,
    pub namespace: Seq<NamespaceRequest>,
    pub ledger: LedgerView,
    pub fallback: Map<Seq<char>, PackageFallbackState>,
}

impl View for Merge {
    type V = MergeView;

    open spec fn view(&self) -> MergeView {
        MergeView {
            topics: topic_views(self.topics),
            namespace: self.namespace@,
            ledger: self.ledger@,
            fallback: self.fallback@,
        }
    }
}

impl MergeView {
    /// The same state with one more report.
    pub open spec fn and_report(self, report: DiagnosticView) -> MergeView {
        MergeView { ledger: self.ledger.and_report(report), ..self }
    }

    /// The same state with more reports.
    pub open spec fn and_reports(self, reports: Seq<DiagnosticView>) -> MergeView {
        MergeView {
            ledger: LedgerView {
                diagnostics: self.ledger.diagnostics + reports,
                ..self.ledger
            },
            ..self
        }
    }

    /// The topic with a key and what is kept across topics.
    pub open spec fn topic_state(self, key: Seq<char>) -> TopicState {
        TopicState {
            topic: match entry(self.topics, key) {
                Some(topic) => topic,
                None => empty_topic(key),
            },
            ledger: self.ledger,
        }
    }

    /// The same state with the topic of a key replaced.
    pub open spec fn and_topic(self, key: Seq<char>, state: TopicState) -> MergeView {
        MergeView {
            topics: self.topics.insert(key, state.topic),
            ledger: state.ledger,
            ..self
        }
    }
}

/// The NAMESPACE request that a tag of a block makes.
pub open spec fn request_of(block: DocumentedBlock, tag: NamespaceTag) -> NamespaceRequest {
    NamespaceRequest {
        block: block.block,
        tag,
        object: object_name(block.target),
        object_is_function: block.target is FunctionAssignment,
        object_spelling: object_span(block.target),
        method: method_from(block.tags@, 0),
    }
}

/// The NAMESPACE requests of the first `count` tags of a block.
pub open spec fn block_requests(block: DocumentedBlock, count: int) -> Seq<NamespaceRequest>
    decreases count,
{
    if count <= 0 {
        Seq::empty()
    } else {
        let before = block_requests(block, count - 1);
        match block.tags@[count - 1] {
            ParsedTag::Namespace(tag) => before.push(request_of(block, tag)),
            _ => before,
        }
    }
}

/// The registrations of the function that a block documents.
pub open spec fn block_registrations(context: ContextView, block: DocumentedBlock) -> Seq<
    S3RegistrationFact,
> {
    match object_name(block.target) {
        Some(name) => matching_registrations(context.registrations, name@),
        None => Seq::empty(),
    }
}

/// The report of a method whose generic and class nothing states.
pub open spec fn unresolved_metadata(span: Span) -> DiagnosticView {
    plain_diagnostic(
        severity_of(DiagnosticCode::UnresolvedS3MethodMetadata),
        DiagnosticCode::UnresolvedS3MethodMetadata,
        "@exportS3Method NULL has no statically known generic and class"@,
        LabelView { span, message: "S3 method metadata is unresolved"@ },
    ).and_help("add a matching registrar configuration or an explicit @method <generic> <class>"@)
}

/// A report with a label for each of the first `count` registrations.
pub open spec fn with_registration_labels(
    report: DiagnosticView,
    registrations: Seq<S3RegistrationFact>,
    count: int,
) -> DiagnosticView
    decreases count,
{
    if count <= 0 {
        report
    } else {
        let registration = registrations[count - 1];
        with_registration_labels(report, registrations, count - 1).and_label(
            LabelView {
                span: registration.span,
                message: "registration pair is "@ + registration.generic@ + "."@
                    + registration.class@,
            },
        )
    }
}

/// The report of a function that several pairs are registered for.
pub open spec fn ambiguous_registration(
    name: Seq<char>,
    span: Span,
    registrations: Seq<S3RegistrationFact>,
) -> DiagnosticView {
    with_registration_labels(
        plain_diagnostic(
            severity_of(DiagnosticCode::AmbiguousS3Registration),
            DiagnosticCode::AmbiguousS3Registration,
            "documented function `"@ + name + "` maps to multiple S3 registration pairs"@,
            LabelView { span, message: "multiple registration facts claim this target"@ },
        ).and_help(
            "add an explicit @method <generic> <class> or separate the registrations across distinct targets"@,
        ),
        registrations,
        registrations.len() as int,
    )
}

/// The report of a registered method that is not exported.
pub open spec fn unexported_method(
    name: Seq<char>,
    span: Span,
    registrations: Seq<S3RegistrationFact>,
) -> DiagnosticView {
    plain_diagnostic(
        severity_of(DiagnosticCode::UnexportedS3Method),
        DiagnosticCode::UnexportedS3Method,
        "documented S3 method `"@ + name + "` has no export or NULL suppression"@,
        LabelView { span, message: "registered S3 method is not exported"@ },
    ).and_help("add @exportS3Method NULL or an export tag"@).and_context(
        "registration"@,
        if registrations.len() == 1 {
            registrations[0].generic@ + "."@ + registrations[0].class@
        } else {
            "multiple registration pairs"@
        },
    )
}

/// The reports on the S3 registrations of the function that a block documents.
#[verifier::opaque]
pub open spec fn registration_checks(context: ContextView, block: DocumentedBlock) -> Seq<
    DiagnosticView,
> {
    let found = block_registrations(context, block);
    let declared = method_from(block.tags@, 0) is Some;
    let null_export = null_export_from(block.tags@, 0);
    let unresolved = if block.target is FunctionAssignment && null_export is Some && !declared
        && found.len() == 0 {
        seq![unresolved_metadata(null_export->0)]
    } else {
        Seq::empty()
    };
    match (object_name(block.target), object_span(block.target)) {
        (Some(name), Some(span)) => {
            let ambiguous = if !declared && found.len() > 1 {
                unresolved.push(ambiguous_registration(name@, span, found))
            } else {
                unresolved
            };
            if found.len() > 0 && (found.len() == 1 || declared) && !is_exported(block.tags@) {
                ambiguous.push(unexported_method(name@, span, found))
            } else {
                ambiguous
            }
        },
        _ => unresolved,
    }
}

/// The name and span that a block's object gives to its topic.
pub open spec fn implicit_identity(block: DocumentedBlock) -> Option<AliasView> {
    match (object_name(block.target), object_span(block.target)) {
        (Some(name), Some(span)) => Some(AliasView { name: name@, span }),
        _ => match (data_name(block.target), data_span(block.target)) {
            (Some(name), Some(span)) => Some(AliasView { name: name@, span }),
            _ => None,
        },
    }
}

/// The name and span of a block's topic: its `@name`, else those of its object.
pub open spec fn primary_identity(block: DocumentedBlock) -> Option<AliasView> {
    match name_from(block.tags@, 0) {
        Some(value) => Some(
            AliasView { name: value.value@, span: reported_span(value.origin) },
        ),
        None => implicit_identity(block),
    }
}

/// The key of a block's topic: its `@rdname`, else a default.
pub open spec fn topic_key(block: DocumentedBlock, default_key: Seq<char>) -> Seq<char> {
    match rdname_from(block.tags@, 0) {
        Some(value) => value.value@,
        None => default_key,
    }
}

/// A topic with the default aliases of a block.
pub open spec fn with_default_aliases(
    state: TopicState,
    key: Seq<char>,
    block: DocumentedBlock,
    primary: AliasView,
) -> TopicState {
    if without_default_aliases(block.tags@) {
        state
    } else {
        let named = with_alias(state, key, primary);
        match (name_from(block.tags@, 0), implicit_identity(block)) {
            (Some(value), Some(implicit)) => if value.value@ != implicit.name {
                with_alias(named, key, implicit)
            } else {
                named
            },
            _ => named,
        }
    }
}

/// A topic with a display name, which its first contribution gives.
pub open spec fn with_first_name(state: TopicState, name: Seq<char>) -> TopicState {
    if state.topic.blocks.len() == 0 {
        TopicState { topic: TopicView { name, ..state.topic }, ..state }
    } else {
        state
    }
}

/// The state after a block with a topic of its own.
#[verifier::opaque]
pub open spec fn after_object_block(
    state: MergeView,
    block: DocumentedBlock,
    primary: AliasView,
    context: ContextView,
) -> MergeView {
    let key = topic_key(block, primary.name);
    let start = state.topic_state(key);
    let named = with_first_name(start, primary.name);
    MergeView {
        fallback: state.fallback.insert(
            key,
            suppression_state(state.fallback, key, block.tags@),
        ),
        ..state
    }.and_topic(
        key,
        merged(with_default_aliases(named, key, block, primary), key, block, context),
    )
}

/// The fallback state of a package topic after one of its blocks.
pub open spec fn anchored(
    state: PackageFallbackState,
    block: DocumentedBlock,
    span: Span,
) -> PackageFallbackState {
    let seen = PackageFallbackState {
        package_anchor: match state.package_anchor {
            Some(first) => Some(first),
            None => Some(span),
        },
        ..state
    };
    if without_default_aliases(block.tags@) {
        seen
    } else {
        PackageFallbackState {
            default_alias_anchor: match seen.default_alias_anchor {
                Some(first) => Some(first),
                None => Some(span),
            },
            default_aliases_enabled: true,
            ..seen
        }
    }
}

/// The display name that a package block gives to a new topic: its explicit name,
/// or else the implicit name of the package's documentation.
pub open spec fn package_topic_name(block: DocumentedBlock, metadata: PackageMetadata) -> Seq<char> {
    match name_from(block.tags@, 0) {
        Some(value) => value.value@,
        None => metadata.package@ + "-package"@,
    }
}

/// A topic that a package block contributes to, before the block's tags: with
/// its display name where it is new, its kind, and an explicit name as an alias.
pub open spec fn with_package_start(
    state: TopicState,
    key: Seq<char>,
    block: DocumentedBlock,
    sentinel: PackageSentinel,
    metadata: PackageMetadata,
) -> TopicState {
    let titled = with_first_name(state, package_topic_name(block, metadata));
    let kinded = with_kind(titled, key, RdTopicKind::Package, sentinel.span);
    match name_from(block.tags@, 0) {
        Some(value) => with_alias(
            kinded,
            key,
            AliasView { name: value.value@, span: reported_span(value.origin) },
        ),
        None => kinded,
    }
}

/// The state after a block that documents the package.
#[verifier::opaque]
pub open spec fn after_package_block(
    state: MergeView,
    block: DocumentedBlock,
    sentinel: PackageSentinel,
    metadata: PackageMetadata,
    context: ContextView,
) -> MergeView {
    let key = topic_key(block, metadata.package@ + "-package"@);
    let opened = with_package_start(state.topic_state(key), key, block, sentinel, metadata);
    MergeView {
        fallback: state.fallback.insert(
            key,
            anchored(
                suppression_state(state.fallback, key, block.tags@),
                block,
                sentinel.span,
            ),
        ),
        ..state
    }.and_topic(key, merged(opened, key, block, context))
}

/// The state after the topic of one block, once its requests and registration
/// checks are in.
pub open spec fn after_topic(
    state: MergeView,
    block: DocumentedBlock,
    metadata: Option<PackageMetadata>,
    context: ContextView,
) -> MergeView {
    match block.target {
        BlockTarget::PackageDocumentation(sentinel) => match metadata {
            Some(metadata) => after_package_block(state, block, sentinel, metadata, context),
            None => state.and_report(package_documentation_unsupported(sentinel)),
        },
        _ => match primary_identity(block) {
            Some(primary) => after_object_block(state, block, primary, context),
            None => state.and_report(missing_identity(block)),
        },
    }
}

/// The state after one block.
pub open spec fn after_block(
    state: MergeView,
    block: DocumentedBlock,
    metadata: Option<PackageMetadata>,
    context: ContextView,
) -> MergeView {
    let requested = MergeView {
        namespace: state.namespace + block_requests(block, block.tags@.len() as int),
        ..state
    };
    let bad_name = match block.target {
        BlockTarget::Refused(refusal) => bad_data_name(refusal),
        _ => None,
    };
    if silences_rd(block.tags@) {
        requested
    } else if bad_name is Some {
        requested.and_report(bad_name->0)
    } else if !(block.target is PackageDocumentation) && !wants_topic(block.tags@) {
        requested
    } else {
        after_topic(
            requested.and_reports(registration_checks(context, block)),
            block,
            metadata,
            context,
        )
    }
}

/// The state after the first `count` blocks.
pub open spec fn after_blocks(
    state: MergeView,
    blocks: Seq<DocumentedBlock>,
    metadata: Option<PackageMetadata>,
    context: ContextView,
    count: int,
) -> MergeView
    decreases count,
{
    if count <= 0 {
        state
    } else {
        after_block(
            after_blocks(state, blocks, metadata, context, count - 1),
            blocks[count - 1],
            metadata,
            context,
        )
    }
}

/// Keys in ascending order, without repeats.
pub open spec fn orders_keys(keys: Seq<Seq<char>>, dom: Set<Seq<char>>) -> bool {
    &&& increasing_texts(keys)
    &&& forall|key: Seq<char>| #[trigger] keys.contains(key) <==> dom.contains(key)
}

/// The keys of a map in ascending order.
pub open spec fn ordered_keys(topics: Map<Seq<char>, TopicView>) -> Seq<Seq<char>> {
    choose|keys: Seq<Seq<char>>| orders_keys(keys, topics.dom())
}

/// There is only one way to put keys in ascending order.
pub proof fn key_order_is_unique(a: Seq<Seq<char>>, b: Seq<Seq<char>>, dom: Set<Seq<char>>)
    requires
        orders_keys(a, dom),
        orders_keys(b, dom),
    ensures
        a == b,
    decreases a.len(),
{
    if a.len() == 0 {
        if b.len() > 0 {
            assert(b.contains(b[0]));
            assert(a.contains(b[0]));
        }
        assert(a =~= b);
    } else {
        assert(a.contains(a.last()));
        assert(b.contains(a.last()));
        let i = choose|i: int| 0 <= i < b.len() && b[i] == a.last();
        assert(b.contains(b.last()));
        assert(a.contains(b.last()));
        let j = choose|j: int| 0 <= j < a.len() && a[j] == b.last();
        if i < b.len() - 1 {
            assert(text_lt(b[i], b[b.len() - 1]));
            if j < a.len() - 1 {
                assert(text_lt(a[j], a[a.len() - 1]));
                crate::text::text_le_antisymmetric(a.last(), b.last());
            }
        }
        assert(a.last() == b.last());
        let rest = dom.remove(a.last());
        let x = a.drop_last();
        let y = b.drop_last();
        front_orders_rest(a, dom);
        front_orders_rest(b, dom);
        key_order_is_unique(x, y, rest);
        assert(a =~= x.push(a.last()));
        assert(b =~= y.push(b.last()));
    }
}

/// Without its last key, an ordered list orders the other keys.
proof fn front_orders_rest(keys: Seq<Seq<char>>, dom: Set<Seq<char>>)
    requires
        keys.len() > 0,
        orders_keys(keys, dom),
    ensures
        orders_keys(keys.drop_last(), dom.remove(keys.last())),
{
    let front = keys.drop_last();
    assert forall|i: int, j: int| 0 <= i < j < front.len() implies text_lt(
        #[trigger] front[i],
        #[trigger] front[j],
    ) by {
        assert(text_lt(keys[i], keys[j]));
    }
    assert forall|key: Seq<char>| #[trigger] front.contains(key) <==> dom.remove(
        keys.last(),
    ).contains(key) by {
        if front.contains(key) {
            let i = choose|i: int| 0 <= i < front.len() && front[i] == key;
            assert(keys[i] == key);
            assert(keys.contains(key));
            assert(text_lt(keys[i], keys[keys.len() - 1]));
        }
        if dom.contains(key) && key != keys.last() {
            assert(keys.contains(key));
            let i = choose|i: int| 0 <= i < keys.len() && keys[i] == key;
            assert(front[i] == key);
        }
    }
}

/// The keys of a well-formed topic map are its ordered keys.
proof fn map_keys_are_ordered(topics: TopicMap)
    requires
        topics.wf(),
    ensures
        topics.keys() == ordered_keys(topic_views(topics)),
{
    let dom = topic_views(topics).dom();
    assert(orders_keys(topics.keys(), dom)) by {
        assert forall|key: Seq<char>| #[trigger] topics.keys().contains(key) <==> dom.contains(
            key,
        ) by {}
    }
    key_order_is_unique(topics.keys(), ordered_keys(topic_views(topics)), dom);
}

/// Whether an alias belongs to a topic that is not a package topic.
pub open spec fn has_ordinary_owner(state: MergeView, key: Seq<char>, alias: Seq<char>) -> bool {
    match owner_of(state.ledger.owners, alias) {
        Some(owner) => owner.key != key && match entry(state.topics, owner.key) {
            Some(topic) => topic.kind != RdTopicKind::Package,
            None => false,
        },
        None => false,
    }
}

/// A package topic after one of its default aliases. An alias that an ordinary
/// topic owns is left to it.
pub open spec fn with_package_alias(state: MergeView, key: Seq<char>, alias: AliasView) -> MergeView {
    if has_ordinary_owner(state, key, alias.name) {
        state
    } else {
        state.and_topic(key, with_alias(state.topic_state(key), key, alias))
    }
}

/// The state after the default aliases of the package topics among the first
/// `count` keys.
pub open spec fn after_package_aliases(
    state: MergeView,
    keys: Seq<Seq<char>>,
    package: Seq<char>,
    count: int,
) -> MergeView
    decreases count,
{
    if count <= 0 {
        state
    } else {
        let before = after_package_aliases(state, keys, package, count - 1);
        let key = keys[count - 1];
        match entry(before.fallback, key) {
            Some(fallback) => match fallback.default_alias_anchor {
                Some(span) => if fallback.default_aliases_enabled {
                    with_package_alias(
                        with_package_alias(before, key, AliasView { name: package, span }),
                        key,
                        AliasView { name: key, span },
                    )
                } else {
                    before
                },
                None => before,
            },
            None => before,
        }
    }
}

/// The topics with the defaults of DESCRIPTION.
pub open spec fn defaulted_topics(state: MergeView, metadata: PackageMetadata) -> Map<
    Seq<char>,
    TopicView,
> {
    Map::new(
        |key: Seq<char>| state.topics.dom().contains(key),
        |key: Seq<char>| with_defaults(state.topics[key], entry(state.fallback, key), metadata),
    )
}

/// The state once metadata has been applied.
pub open spec fn with_metadata(state: MergeView, metadata: Option<PackageMetadata>) -> MergeView {
    match metadata {
        Some(metadata) => {
            let keys = ordered_keys(state.topics);
            let aliased = after_package_aliases(
                state,
                keys,
                metadata.package@,
                keys.len() as int,
            );
            MergeView { topics: defaulted_topics(aliased, metadata), ..aliased }
        },
        None => state,
    }
}

/// Nothing has been merged, and the registrations have been checked.
pub open spec fn initial_state(context: ContextView) -> MergeView {
    MergeView {
        topics: Map::empty(),
        namespace: Seq::empty(),
        ledger: LedgerView {
            owners: Seq::empty(),
            claims: Seq::empty(),
            diagnostics: registration_reports(
                context.registrations,
                context.bindings,
                context.registrations.len() as int,
            ),
        },
        fallback: Map::empty(),
    }
}

/// The state after all blocks, in merge order, and metadata.
pub open spec fn merged_package(
    blocks: Seq<DocumentedBlock>,
    metadata: Option<PackageMetadata>,
    context: ContextView,
) -> MergeView {
    let ordered = in_merge_order(blocks);
    with_metadata(
        after_blocks(initial_state(context), ordered, metadata, context, ordered.len() as int),
        metadata,
    )
}

/// What the package says while its blocks are merged.
pub open spec fn context_of(
    sources: SourceMap,
    metadata: Option<PackageMetadata>,
    bindings: Seq<BindingFact>,
    registrations: Seq<S3RegistrationFact>,
) -> ContextView {
    ContextView {
        sources,
        bindings,
        registrations,
        collate: metadata matches Some(metadata) && metadata.collate,
        lazy_data: metadata matches Some(metadata) && metadata.lazy_data,
    }
}

/// The model that a package gives.
pub open spec fn is_model(
    output: ModelOutput,
    blocks: Seq<DocumentedBlock>,
    metadata: Option<PackageMetadata>,
    context: ContextView,
) -> bool {
    let all = merged_package(blocks, metadata, context);
    &&& output.package.wf()
    &&& topic_views(output.package.topics) == classified_topics(
        facts_of(
            context.bindings,
            Some(context.sources),
            context.collate,
            EmptyS3GenericProvider,
        ),
        all.topics,
    )
    &&& output.package.namespace@ == all.namespace
    &&& output.package.bindings@ == context.bindings
    &&& output.package.registrations@ == context.registrations
    &&& output.package.collate == context.collate
    &&& output.diagnostics@ == all.ledger.diagnostics
}

/// Collects the NAMESPACE requests of a block.
fn collect_requests(block: &DocumentedBlock, namespace: &mut Vec<NamespaceRequest>)
    ensures
        final(namespace)@ == old(namespace)@ + block_requests(*block, block.tags@.len() as int),
{
    let method = first_method(&block.tags);
    let mut i: usize = 0;
    while i < block.tags.len()
        invariant
            i <= block.tags@.len(),
            method == method_from(block.tags@, 0),
            namespace@ == old(namespace)@ + block_requests(*block, i as int),
        decreases block.tags@.len() - i,
    {
        if let ParsedTag::Namespace(tag) = &block.tags[i] {
            let object = match implicit_object_name(&block.target) {
                Some(name) => Some(name.clone()),
                None => None,
            };
            let declared = match &method {
                Some(method) => Some(method.clone()),
                None => None,
            };
            namespace.push(
                NamespaceRequest {
                    block: block.block,
                    tag: tag.clone(),
                    object,
                    object_is_function: is_function_target(&block.target),
                    object_spelling: implicit_object_span(&block.target),
                    method: declared,
                },
            );
        }
        i = i + 1;
    }
}

/// Reports on the S3 registrations of the function that a block documents.
fn check_registrations(block: &DocumentedBlock, ledger: &mut Ledger, context: &Context)
    ensures
        final(ledger)@ == (LedgerView {
            diagnostics: old(ledger)@.diagnostics + registration_checks(context@, *block),
            ..old(ledger)@
        }),
{
    proof {
        reveal(registration_checks);
    }
    let ghost start = ledger@.diagnostics;
    let declared: bool = first_method(&block.tags).is_some();
    let found: Vec<&S3RegistrationFact> = match implicit_object_name(&block.target) {
        Some(name) => registration_matches(context.registrations, name.as_str()),
        None => Vec::new(),
    };
    let ghost listed = block_registrations(context@, *block);
    proof {
        if object_name(block.target) is None {
            assert(registrations_of(found@) =~= listed);
        }
        assert(registrations_of(found@) == listed);
        assert(found@.len() == listed.len());
    }
    if is_function_target(&block.target) && !declared && found.len() == 0 {
        if let Some(span) = export_s3_method_null_span(&block.tags) {
            ledger.report(
                Diagnostic::new(
                    DiagnosticCode::UnresolvedS3MethodMetadata.default_severity(),
                    DiagnosticCode::UnresolvedS3MethodMetadata,
                    "@exportS3Method NULL has no statically known generic and class".to_owned(),
                    Label::at(span, "S3 method metadata is unresolved"),
                ).with_help(
                    "add a matching registrar configuration or an explicit @method <generic> <class>",
                ),
            );
        }
    }
    if let (Some(name), Some(span)) = (
        implicit_object_name(&block.target),
        implicit_object_span(&block.target),
    ) {
        if !declared && found.len() > 1 {
            let mut diagnostic = Diagnostic::new(
                DiagnosticCode::AmbiguousS3Registration.default_severity(),
                DiagnosticCode::AmbiguousS3Registration,
                text3(
                    "documented function `",
                    name.as_str(),
                    "` maps to multiple S3 registration pairs",
                ),
                Label::at(span, "multiple registration facts claim this target"),
            ).with_help(
                "add an explicit @method <generic> <class> or separate the registrations across distinct targets",
            );
            let ghost plain = diagnostic@;
            let mut i: usize = 0;
            while i < found.len()
                invariant
                    i <= found@.len(),
                    registrations_of(found@) == listed,
                    diagnostic@ == with_registration_labels(plain, listed, i as int),
                decreases found@.len() - i,
            {
                let registration: &S3RegistrationFact = found[i];
                proof {
                    assert(listed[i as int] == *registration);
                }
                let mut message: String = text2(
                    "registration pair is ",
                    registration.generic.as_str(),
                );
                message.push_str(".");
                message.push_str(registration.class.as_str());
                diagnostic = diagnostic.with_secondary(Label::new(registration.span, message));
                i = i + 1;
            }
            ledger.report(diagnostic);
        }
        if found.len() > 0 && (found.len() == 1 || declared)
            && !has_namespace_export_or_suppression(&block.tags) {
            let pair: String = if found.len() == 1 {
                proof {
                    assert(listed[0] == *found@[0]);
                }
                text3(found[0].generic.as_str(), ".", found[0].class.as_str())
            } else {
                "multiple registration pairs".to_owned()
            };
            ledger.report(
                Diagnostic::new(
                    DiagnosticCode::UnexportedS3Method.default_severity(),
                    DiagnosticCode::UnexportedS3Method,
                    text3(
                        "documented S3 method `",
                        name.as_str(),
                        "` has no export or NULL suppression",
                    ),
                    Label::at(span, "registered S3 method is not exported"),
                ).with_help("add @exportS3Method NULL or an export tag").with_context(
                    "registration",
                    pair.as_str(),
                ),
            );
        }
    }
    proof {
        assert(ledger@.diagnostics =~= start + registration_checks(context@, *block));
    }
}

/// An alias made of a text and a span.
fn make_alias(name: &str, span: Span) -> (r: Alias)
    ensures
        r@ == (AliasView { name: name@, span }),
{
    Alias { name: DocName(name.to_owned()), span }
}

/// The view of an optional alias.
pub open spec fn opt_alias(alias: Option<Alias>) -> Option<AliasView> {
    match alias {
        Some(alias) => Some(alias@),
        None => None,
    }
}

/// The name and span that a block's object gives to its topic.
fn find_implicit_identity(block: &DocumentedBlock) -> (r: Option<Alias>)
    ensures
        opt_alias(r) == implicit_identity(*block),
{
    if let (Some(name), Some(span)) = (
        implicit_object_name(&block.target),
        implicit_object_span(&block.target),
    ) {
        return Some(make_alias(name.as_str(), span));
    }
    if let (Some(name), Some(span)) = (
        data_object_name(&block.target),
        data_object_span(&block.target),
    ) {
        return Some(make_alias(name.as_str(), span));
    }
    None
}

/// The name and span of a block's topic.
fn find_primary_identity(block: &DocumentedBlock) -> (r: Option<Alias>)
    ensures
        opt_alias(r) == primary_identity(*block),
{
    match first_name(&block.tags) {
        Some(value) => Some(make_alias(value.value.as_str(), origin_span(&value.origin))),
        None => find_implicit_identity(block),
    }
}

/// The key of a block's topic.
fn find_topic_key(block: &DocumentedBlock, default_key: &str) -> (r: TopicKey)
    ensures
        r@ == topic_key(*block, default_key@),
{
    match first_rdname(&block.tags) {
        Some(value) => TopicKey(value.value.as_str().to_owned()),
        None => TopicKey(default_key.to_owned()),
    }
}

/// Takes the topic with a key out of a map, or makes a new one.
fn take_topic(topics: &mut TopicMap, key: &TopicKey) -> (r: RdTopic)
    requires
        old(topics).wf(),
    ensures
        final(topics).wf(),
        topic_views(*final(topics)) == topic_views(*old(topics)).remove(key@),
        r@ == (match entry(topic_views(*old(topics)), key@) {
            Some(topic) => topic,
            None => empty_topic(key@),
        }),
{
    let taken = topics.take(key);
    proof {
        assert(topic_views(*topics) =~= topic_views(*old(topics)).remove(key@));
    }
    match taken {
        Some(topic) => topic,
        None => RdTopic::new(DocName(key.0.clone())),
    }
}

/// Puts a topic back under its key.
fn put_topic(topics: &mut TopicMap, key: TopicKey, topic: RdTopic)
    requires
        old(topics).wf(),
        !topic_views(*old(topics)).dom().contains(key@),
    ensures
        final(topics).wf(),
        topic_views(*final(topics)) == topic_views(*old(topics)).insert(key@, topic@),
{
    topics.put(key, topic);
    proof {
        assert(topic_views(*topics) =~= topic_views(*old(topics)).insert(key@, topic@));
    }
}

/// Gives a topic the default aliases of a block.
fn add_default_aliases(
    block: &DocumentedBlock,
    primary: Alias,
    key: &TopicKey,
    topic: &mut RdTopic,
    ledger: &mut Ledger,
)
    ensures
        (TopicState { topic: final(topic)@, ledger: final(ledger)@ }) == with_default_aliases(
            TopicState { topic: old(topic)@, ledger: old(ledger)@ },
            key@,
            *block,
            primary@,
        ),
{
    if suppresses_default_aliases(&block.tags) {
        return;
    }
    add_alias(key, topic, primary, ledger);
    if let (Some(value), Some(implicit)) = (
        first_name(&block.tags),
        find_implicit_identity(block),
    ) {
        if !same_text(value.value.as_str(), implicit.name.0.as_str()) {
            add_alias(key, topic, implicit, ledger);
        }
    }
}

/// Merges a block with a topic of its own.
fn merge_object_block(merge: Merge, block: &DocumentedBlock, primary: Alias, context: &Context) -> (r:
    Merge)
    requires
        merge.topics.wf(),
        context.wf(),
    ensures
        r.topics.wf(),
        r@ == after_object_block(merge@, *block, primary@, context@),
{
    proof {
        reveal(after_object_block);
    }
    let Merge { topics, namespace, ledger, fallback } = merge;
    let mut topics = topics;
    let mut ledger = ledger;
    let mut fallback = fallback;
    let key = find_topic_key(block, primary.name.0.as_str());
    let suppressed = package_fallback_suppression(block, &key, &fallback);
    fallback.put(key.clone(), suppressed);
    let ghost before = topic_views(topics);
    let mut topic = take_topic(&mut topics, &key);
    if topic.blocks.len() == 0 {
        topic.name = primary.name.clone();
    }
    add_default_aliases(block, primary, &key, &mut topic, &mut ledger);
    let (topic, ledger) = merge_block(block, &key, topic, ledger, context);
    let ghost shown = topic@;
    let ghost at = key@;
    put_topic(&mut topics, key, topic);
    proof {
        assert(before.remove(at).insert(at, shown) =~= before.insert(at, shown));
    }
    Merge { topics, namespace, ledger, fallback }
}

/// The display name that a package block gives to a new topic.
fn find_package_topic_name(block: &DocumentedBlock, metadata: &PackageMetadata) -> (r: DocName)
    ensures
        r.0@ == package_topic_name(*block, *metadata),
{
    match first_name(&block.tags) {
        Some(value) => DocName(value.value.as_str().to_owned()),
        None => DocName(text2(metadata.package.as_str(), "-package")),
    }
}

/// Prepares a topic for the tags of a package block.
fn start_package_topic(
    block: &DocumentedBlock,
    sentinel: PackageSentinel,
    metadata: &PackageMetadata,
    key: &TopicKey,
    topic: &mut RdTopic,
    ledger: &mut Ledger,
)
    ensures
        (TopicState { topic: final(topic)@, ledger: final(ledger)@ }) == with_package_start(
            TopicState { topic: old(topic)@, ledger: old(ledger)@ },
            key@,
            *block,
            sentinel,
            *metadata,
        ),
{
    if topic.blocks.len() == 0 {
        topic.name = find_package_topic_name(block, metadata);
    }
    register_topic_kind(key, topic, RdTopicKind::Package, sentinel.span, ledger);
    if let Some(value) = first_name(&block.tags) {
        let alias = make_alias(value.value.as_str(), origin_span(&value.origin));
        add_alias(key, topic, alias, ledger);
    }
}

/// Merges a block that documents the package.
pub fn merge_package_block(
    merge: Merge,
    block: &DocumentedBlock,
    sentinel: PackageSentinel,
    metadata: &PackageMetadata,
    context: &Context,
) -> (r: Merge)
    requires
        merge.topics.wf(),
        context.wf(),
    ensures
        r.topics.wf(),
        r@ == after_package_block(merge@, *block, sentinel, *metadata, context@),
{
    proof {
        reveal(after_package_block);
    }
    let Merge { topics, namespace, ledger, fallback } = merge;
    let mut topics = topics;
    let mut ledger = ledger;
    let mut fallback = fallback;
    let default_key = text2(metadata.package.as_str(), "-package");
    let key = find_topic_key(block, default_key.as_str());
    let mut state = package_fallback_suppression(block, &key, &fallback);
    if state.package_anchor.is_none() {
        state.package_anchor = Some(sentinel.span);
    }
    if !suppresses_default_aliases(&block.tags) {
        if state.default_alias_anchor.is_none() {
            state.default_alias_anchor = Some(sentinel.span);
        }
        state.default_aliases_enabled = true;
    }
    fallback.put(key.clone(), state);
    let ghost before = topic_views(topics);
    let mut topic = take_topic(&mut topics, &key);
    start_package_topic(block, sentinel, metadata, &key, &mut topic, &mut ledger);
    let (topic, ledger) = merge_block(block, &key, topic, ledger, context);
    let ghost shown = topic@;
    let ghost at = key@;
    put_topic(&mut topics, key, topic);
    proof {
        assert(before.remove(at).insert(at, shown) =~= before.insert(at, shown));
    }
    Merge { topics, namespace, ledger, fallback }
}

/// Merges one block.
fn merge_documented_block(
    merge: Merge,
    block: &DocumentedBlock,
    metadata: Option<&PackageMetadata>,
    context: &Context,
) -> (r: Merge)
    requires
        merge.topics.wf(),
        context.wf(),
    ensures
        r.topics.wf(),
        r@ == after_block(merge@, *block, opt_value(metadata), context@),
{
    let mut merge = merge;
    collect_requests(block, &mut merge.namespace);
    if has_no_rd(&block.tags) {
        return merge;
    }
    if let BlockTarget::Refused(refusal) = &block.target {
        if let Some(diagnostic) = data_name_diagnostic(refusal) {
            merge.ledger.report(diagnostic);
            return merge;
        }
    }
    let is_package: bool = matches!(block.target, BlockTarget::PackageDocumentation(_));
    if !is_package && !needs_doc(&block.tags) {
        return merge;
    }
    check_registrations(block, &mut merge.ledger, context);
    if let BlockTarget::PackageDocumentation(sentinel) = &block.target {
        return match metadata {
            Some(metadata) => merge_package_block(merge, block, *sentinel, metadata, context),
            None => {
                merge.ledger.report(package_documentation_diagnostic(*sentinel));
                merge
            },
        };
    }
    match find_primary_identity(block) {
        Some(primary) => merge_object_block(merge, block, primary, context),
        None => {
            merge.ledger.report(missing_identity_diagnostic(block));
            merge
        },
    }
}

/// Whether an alias belongs to a topic that is not a package topic.
fn find_ordinary_owner(merge: &Merge, key: &TopicKey, alias: &str) -> (r: bool)
    requires
        merge.topics.wf(),
    ensures
        r == has_ordinary_owner(merge@, key@, alias@),
{
    match merge.ledger.owner(alias) {
        Some(owner) => if same_text(owner.key.as_str(), key.as_str()) {
            false
        } else {
            match merge.topics.get(&owner.key) {
                Some(topic) => topic.kind != RdTopicKind::Package,
                None => false,
            }
        },
        None => false,
    }
}

/// Gives a package topic one of its default aliases.
fn add_package_alias(merge: Merge, key: &TopicKey, alias: &str, span: Span) -> (r: Merge)
    requires
        merge.topics.wf(),
    ensures
        r.topics.wf(),
        r@ == with_package_alias(merge@, key@, AliasView { name: alias@, span }),
{
    if find_ordinary_owner(&merge, key, alias) {
        return merge;
    }
    let Merge { topics, namespace, ledger, fallback } = merge;
    let mut topics = topics;
    let mut ledger = ledger;
    let ghost before = topic_views(topics);
    let mut topic = take_topic(&mut topics, key);
    add_alias(key, &mut topic, make_alias(alias, span), &mut ledger);
    let ghost shown = topic@;
    put_topic(&mut topics, key.clone(), topic);
    proof {
        assert(before.remove(key@).insert(key@, shown) =~= before.insert(key@, shown));
    }
    Merge { topics, namespace, ledger, fallback }
}

/// The keys of topics.
pub open spec fn key_texts(keys: Seq<TopicKey>) -> Seq<Seq<char>> {
    keys.map_values(|k: TopicKey| k@)
}

/// Copies the keys of a map.
fn list_keys(topics: &TopicMap) -> (r: Vec<TopicKey>)
    ensures
        key_texts(r@) == topics.keys(),
{
    let mut keys: Vec<TopicKey> = Vec::new();
    let mut i: usize = 0;
    while i < topics.entries.len()
        invariant
            i <= topics.entries@.len(),
            keys@.len() == i,
            forall|k: int| 0 <= k < i ==> (#[trigger] keys@[k])@ == topics.keys()[k],
        decreases topics.entries@.len() - i,
    {
        keys.push(topics.entries[i].0.clone());
        i = i + 1;
    }
    proof {
        assert(key_texts(keys@) =~= topics.keys());
    }
    keys
}

/// Adds package aliases after all ordinary topic aliases have been collected.
///
/// A package name that is also the implicit name of an ordinary topic belongs
/// to that ordinary topic. The package default is therefore omitted without a
/// diagnostic. Collisions between package topics, or with explicit package
/// aliases, are reported as usual.
fn finalize_package_aliases(merge: Merge, metadata: &PackageMetadata) -> (r: Merge)
    requires
        merge.topics.wf(),
    ensures
        r.topics.wf(),
        r@ == after_package_aliases(
            merge@,
            ordered_keys(merge@.topics),
            metadata.package@,
            ordered_keys(merge@.topics).len() as int,
        ),
{
    let ghost start = merge@;
    let ghost keys = merge.topics.keys();
    proof {
        map_keys_are_ordered(merge.topics);
    }
    let listed = list_keys(&merge.topics);
    let mut merge = merge;
    let mut i: usize = 0;
    while i < listed.len()
        invariant
            i <= listed@.len(),
            key_texts(listed@) == keys,
            merge.topics.wf(),
            merge@ == after_package_aliases(start, keys, metadata.package@, i as int),
        decreases listed@.len() - i,
    {
        let key = &listed[i];
        proof {
            assert(keys[i as int] == key@);
        }
        if let Some(state) = merge.fallback.get(key) {
            if let Some(span) = state.default_alias_anchor {
                if state.default_aliases_enabled {
                    merge = add_package_alias(merge, key, metadata.package.as_str(), span);
                    merge = add_package_alias(merge, key, key.as_str(), span);
                }
            }
        }
        i = i + 1;
    }
    merge
}

/// Gives package topics the defaults of DESCRIPTION.
fn apply_metadata(merge: Merge, metadata: &PackageMetadata) -> (r: Merge)
    requires
        merge.topics.wf(),
    ensures
        r.topics.wf(),
        r@ == (MergeView { topics: defaulted_topics(merge@, *metadata), ..merge@ }),
{
    let ghost start = merge@;
    let Merge { topics, namespace, ledger, fallback } = merge;
    let ghost before = topics;
    let mut entries: Vec<(TopicKey, RdTopic)> = Vec::new();
    for entry_pair in it: topics.entries
        invariant
            it.seq() == before.entries@,
            fallback@ == start.fallback,
            entries@.len() == it.index(),
            forall|k: int|
                #![trigger entries@[k]]
                0 <= k < it.index() ==> entries@[k].0 == before.entries@[k].0 && entries@[k].1@
                    == with_defaults(
                    before.entries@[k].1@,
                    entry(start.fallback, before.entries@[k].0@),
                    *metadata,
                ),
    {
        let (key, topic) = entry_pair;
        let mut topic = topic;
        let state = fallback.get(&key);
        apply_defaults(&mut topic, state, metadata);
        entries.push((key, topic));
    }
    let topics = TopicMap { entries };
    proof {
        assert(topics.keys() =~= before.keys());
        assert forall|key: Seq<char>| before.keys().contains(key) implies #[trigger] topic_views(
            topics,
        )[key] == defaulted_topics(start, *metadata)[key] by {
            let i = before.keys().index_of(key);
            assert(before.keys()[i] == key);
            assert(topics.keys().index_of(key) == i);
        }
        assert(topic_views(topics) =~= defaulted_topics(start, *metadata));
    }
    Merge { topics, namespace, ledger, fallback }
}

/// Merges blocks that are in merge order, and applies metadata.
fn build_package_model_inner(
    sources: &SourceMap,
    blocks: Vec<DocumentedBlock>,
    metadata: Option<&PackageMetadata>,
    bindings: Vec<BindingFact>,
    registrations: Vec<S3RegistrationFact>,
) -> (r: ModelOutput)
    ensures
        is_model(
            r,
            blocks@,
            opt_value(metadata),
            context_of(*sources, opt_value(metadata), bindings@, registrations@),
        ),
{
    let blocks = sort_blocks(blocks);
    let collate: bool = match metadata {
        Some(metadata) => metadata.has_collate_directive(),
        None => false,
    };
    let lazy_data: bool = match metadata {
        Some(metadata) => metadata.lazy_data(),
        None => false,
    };
    let context = Context {
        sources,
        bindings: &bindings,
        registrations: &registrations,
        s7: s7_binding_results(&bindings),
        collate,
        lazy_data,
    };
    let mut merge = Merge {
        topics: TopicMap::new(),
        namespace: Vec::new(),
        ledger: Ledger::new(),
        fallback: FallbackStates::new(),
    };
    validate_registration_targets(&registrations, &bindings, &mut merge.ledger.diagnostics);
    proof {
        assert(merge@.topics =~= Map::<Seq<char>, TopicView>::empty());
        assert(merge@.ledger.diagnostics =~= initial_state(context@).ledger.diagnostics);
        assert(merge@ == initial_state(context@));
    }
    let mut i: usize = 0;
    while i < blocks.len()
        invariant
            i <= blocks@.len(),
            merge.topics.wf(),
            context.wf(),
            merge@ == after_blocks(
                initial_state(context@),
                blocks@,
                opt_value(metadata),
                context@,
                i as int,
            ),
        decreases blocks@.len() - i,
    {
        merge = merge_documented_block(merge, &blocks[i], metadata, &context);
        i = i + 1;
    }
    if let Some(metadata) = metadata {
        merge = finalize_package_aliases(merge, metadata);
        merge = apply_metadata(merge, metadata);
    }
    let Merge { topics, namespace, ledger, fallback: _ } = merge;
    let package = PackageModel { topics, namespace, bindings, registrations, collate };
    let package = classify_usage_methods(package, sources, &EmptyS3GenericProvider);
    ModelOutput { package, diagnostics: ledger.diagnostics }
}

/// Builds package topics from already parsed documentation blocks.
pub fn build_package_model(sources: &SourceMap, blocks: Vec<DocumentedBlock>) -> (r: ModelOutput)
    ensures
        is_model(
            r,
            blocks@,
            None,
            context_of(*sources, None, Seq::empty(), Seq::empty()),
        ),
{
    let bindings: Vec<BindingFact> = Vec::new();
    let registrations: Vec<S3RegistrationFact> = Vec::new();
    build_package_model_inner(sources, blocks, None, bindings, registrations)
}

/// Builds package topics while retaining package-wide top-level binding facts.
pub fn build_package_model_with_bindings(
    sources: &SourceMap,
    blocks: Vec<DocumentedBlock>,
    bindings: Vec<BindingFact>,
) -> (r: ModelOutput)
    ensures
        is_model(
            r,
            blocks@,
            None,
            context_of(*sources, None, bindings@, Seq::empty()),
        ),
{
    let registrations: Vec<S3RegistrationFact> = Vec::new();
    build_package_model_inner(sources, blocks, None, bindings, registrations)
}

/// Builds package topics while applying DESCRIPTION defaults to a package topic.
pub fn build_package_model_with_metadata(
    sources: &SourceMap,
    blocks: Vec<DocumentedBlock>,
    metadata: &PackageMetadata,
) -> (r: ModelOutput)
    ensures
        is_model(
            r,
            blocks@,
            Some(*metadata),
            context_of(*sources, Some(*metadata), Seq::empty(), Seq::empty()),
        ),
{
    let bindings: Vec<BindingFact> = Vec::new();
    let registrations: Vec<S3RegistrationFact> = Vec::new();
    build_package_model_inner(sources, blocks, Some(metadata), bindings, registrations)
}

/// Builds package topics with metadata and package-wide top-level bindings.
pub fn build_package_model_with_metadata_and_bindings(
    sources: &SourceMap,
    blocks: Vec<DocumentedBlock>,
    metadata: &PackageMetadata,
    bindings: Vec<BindingFact>,
) -> (r: ModelOutput)
    ensures
        is_model(
            r,
            blocks@,
            Some(*metadata),
            context_of(*sources, Some(*metadata), bindings@, Seq::empty()),
        ),
{
    let registrations: Vec<S3RegistrationFact> = Vec::new();
    build_package_model_inner(sources, blocks, Some(metadata), bindings, registrations)
}

/// Builds package topics with metadata, bindings, and static S3 registrar facts.
pub fn build_package_model_with_metadata_bindings_and_registrations(
    sources: &SourceMap,
    blocks: Vec<DocumentedBlock>,
    metadata: &PackageMetadata,
    bindings: Vec<BindingFact>,
    registrations: Vec<S3RegistrationFact>,
) -> (r: ModelOutput)
    ensures
        is_model(
            r,
            blocks@,
            Some(*metadata),
            context_of(*sources, Some(*metadata), bindings@, registrations@),
        ),
{
    build_package_model_inner(sources, blocks, Some(metadata), bindings, registrations)
}

} // verus!
