//! What one documented block contributes to its topic.
use crate::diagnostic::{
    plain_diagnostic, Diagnostic, DiagnosticCode, DiagnosticView, Label, LabelView, Severity,
};
use crate::facts::{Formals, S7ClassFact, S7ClassRefusal, S7ClassRefusalReason};
use crate::model::identity::{
    data_object_span, data_span, implicit_object_name, object_name, origin_span, reported_span,
};
use crate::model::ir::{
    DocumentedBlock, FormalContribution, MethodDeclaration, RdTopic, RdTopicKind, ResolvedUsage,
    TopicKey, UsageContribution,
};
use crate::model::lookup::opt_value;
use crate::model::slots::BlockSlots;
use crate::model::usage::{
    resolve_explicit_usage, resolve_formal_names, resolve_usage, stated_usage, target_formals,
    target_usage,
};
use crate::model::view::{
    opt_method, FormalContributionView, ResolvedView, TopicView, UsageView,
};
use crate::r_parse::{BindingFact, BlockTarget};
use crate::s3_register::S3RegistrationFact;
use crate::source::{SourceMap, Span};
use crate::tags::{
    FieldValue, Keyword, NamespaceTag, ParsedTag, TagValue, UsageDirective,
};
use crate::text::{same_text, text2, trim, trimmed};
use crate::usage::{usage_error_text, write_usage_error, UsageError};
use vstd::prelude::*;

use super::bindings::{
    alias_formal_result, alias_formals, alias_function_formal_result, alias_function_formals,
    declared_method, in_assignment_order, matching_registrations, referenced,
    registration_matches, registration_method, registrations_of, s7_resolution,
    S7BindingResolution, S7Bindings,
};
use super::block::{
    after_tags, lists_keyword, register_topic_kind, with_kind, BlockMerge, Ledger, TagState,
    TopicState,
};

verus! {

/// What the package says while its blocks are merged.
pub struct Context<'a> {
    pub sources: &'a SourceMap,
    pub bindings: &'a Vec<BindingFact>,
    pub registrations: &'a Vec<S3RegistrationFact>,
    pub s7: S7Bindings<'a>,
    pub collate: bool,
    pub lazy_data: bool,
}

/// The model of [`Context`].
pub struct ContextView {
    pub sources: SourceMap,
    pub bindings: Seq<BindingFact>,
    pub registrations: Seq<S3RegistrationFact>,
    pub collate: bool,
    pub lazy_data: bool,
}

impl<'a> View for Context<'a> {
    type V = ContextView;

    open spec fn view(&self) -> ContextView {
        ContextView {
            sources: *self.sources,
            bindings: self.bindings@,
            registrations: self.registrations@,
            collate: self.collate,
            lazy_data: self.lazy_data,
        }
    }
}

impl<'a> Context<'a> {
    /// The S7 resolutions are those of the bindings.
    pub open spec fn wf(&self) -> bool {
        self.s7.wf() && referenced(self.s7.ordered@) == in_assignment_order(self.bindings@)
    }
}

/// What is known of a documented value as an S7 class.
pub open spec fn target_s7(context: ContextView, target: BlockTarget) -> Option<
    S7BindingResolution,
> {
    match target {
        BlockTarget::ValueAssignment(value) => s7_resolution(
            context.bindings,
            value.assignment_span,
        ),
        _ => None,
    }
}

/// The class of a supported resolution.
pub open spec fn supported_class(resolution: Option<S7BindingResolution>) -> Option<S7ClassFact> {
    match resolution {
        Some(S7BindingResolution::Supported(class)) => Some(class),
        _ => None,
    }
}

/// Whether a block states the format of its data.
pub open spec fn states_format(tags: Seq<ParsedTag>) -> bool {
    exists|i: int| 0 <= i < tags.len() && #[trigger] tags[i] is Format
}

/// Whether a block states the format of its data.
fn has_format(tags: &Vec<ParsedTag>) -> (r: bool)
    ensures
        r == states_format(tags@),
{
    let mut i: usize = 0;
    while i < tags.len()
        invariant
            i <= tags@.len(),
            forall|k: int| 0 <= k < i ==> !(#[trigger] tags@[k] is Format),
        decreases tags@.len() - i,
    {
        if let ParsedTag::Format(_) = &tags[i] {
            return true;
        }
        i = i + 1;
    }
    false
}

/// The formal names that a block contributes.
pub open spec fn block_formals(context: ContextView, block: DocumentedBlock) -> FormalContributionView {
    FormalContributionView {
        block: block.block,
        names: target_formals(
            block.target,
            supported_class(target_s7(context, block.target)),
            match block.target {
                BlockTarget::ValueAssignment(value) => alias_formals(
                    context.bindings,
                    context.sources,
                    context.collate,
                    value.assignment_span,
                ),
                _ => None,
            },
        ),
    }
}

/// The topic once a block has joined it, before its tags are applied.
#[verifier::opaque]
pub open spec fn joined(
    state: TopicState,
    key: Seq<char>,
    block: DocumentedBlock,
    context: ContextView,
) -> TopicState {
    let listed = TopicState {
        topic: TopicView { blocks: state.topic.blocks.push(block.block), ..state.topic },
        ..state
    };
    let kinded = match data_span(block.target) {
        Some(span) => {
            let kinded = with_kind(listed, key, RdTopicKind::Data, span);
            if states_format(block.tags@) || kinded.topic.missing_data_format_span is Some {
                kinded
            } else {
                TopicState {
                    topic: TopicView { missing_data_format_span: Some(span), ..kinded.topic },
                    ..kinded
                }
            }
        },
        None => listed,
    };
    TopicState {
        topic: TopicView {
            formals: kinded.topic.formals.push(block_formals(context, block)),
            ..kinded.topic
        },
        ..kinded
    }
}

/// The first `@usage` at or after a position.
pub open spec fn usage_from(tags: Seq<ParsedTag>, i: int) -> Option<TagValue<UsageDirective>>
    decreases tags.len() - i,
{
    if i < 0 || i >= tags.len() {
        None
    } else {
        match tags[i] {
            ParsedTag::Usage(value) => Some(value),
            _ => usage_from(tags, i + 1),
        }
    }
}

/// The first `@usage`.
fn first_usage(tags: &Vec<ParsedTag>) -> (r: Option<&TagValue<UsageDirective>>)
    ensures
        opt_value(r) == usage_from(tags@, 0),
{
    let mut i: usize = 0;
    while i < tags.len()
        invariant
            i <= tags@.len(),
            usage_from(tags@, 0) == usage_from(tags@, i as int),
        decreases tags@.len() - i,
    {
        if let ParsedTag::Usage(value) = &tags[i] {
            return Some(value);
        }
        i = i + 1;
    }
    None
}

/// Whether a tag suppresses keywords.
pub open spec fn drops_keywords(tag: ParsedTag) -> bool {
    match tag {
        ParsedTag::Keywords(directive) => directive.value is Suppress,
        _ => false,
    }
}

/// Whether a block suppresses its keywords.
pub open spec fn without_keywords(tags: Seq<ParsedTag>) -> bool {
    exists|i: int| 0 <= i < tags.len() && drops_keywords(#[trigger] tags[i])
}

/// Whether a block suppresses its keywords.
fn suppresses_keywords(tags: &Vec<ParsedTag>) -> (r: bool)
    ensures
        r == without_keywords(tags@),
{
    let mut i: usize = 0;
    while i < tags.len()
        invariant
            i <= tags@.len(),
            forall|k: int| 0 <= k < i ==> !drops_keywords(#[trigger] tags@[k]),
        decreases tags@.len() - i,
    {
        if let ParsedTag::Keywords(directive) = &tags[i] {
            if matches!(directive.value, FieldValue::Suppress) {
                assert(drops_keywords(tags@[i as int]));
                return true;
            }
        }
        i = i + 1;
    }
    false
}

/// The span that a usage error is reported at.
pub open spec fn usage_error_span(error: UsageError, block_span: Span) -> Span {
    match error {
        UsageError::InvalidFormals(_) => block_span,
        UsageError::InvalidReplacementSignature { name_span } => name_span,
        UsageError::UndecodableFormalName { span, .. } => span,
        UsageError::UnresolvableSourceSpan { span } => span,
        UsageError::UnsafeDefaultComment { span } => span,
    }
}

/// The report of usage that could not be generated.
pub open spec fn usage_failure(error: UsageError, block_span: Span) -> DiagnosticView {
    plain_diagnostic(
        Severity::Error,
        DiagnosticCode::UsageGenerationFailed,
        "could not generate function usage: "@ + usage_error_text(error),
        LabelView {
            span: usage_error_span(error, block_span),
            message: "usage generation failed"@,
        },
    )
}

/// Reports usage that could not be generated.
pub fn usage_error_diagnostic(error: UsageError, block_span: Span) -> (r: Diagnostic)
    ensures
        r@ == usage_failure(error, block_span),
{
    let span: Span = match error {
        UsageError::InvalidFormals(_) => block_span,
        UsageError::InvalidReplacementSignature { name_span } => name_span,
        UsageError::UndecodableFormalName { span, .. } => span,
        UsageError::UnresolvableSourceSpan { span } => span,
        UsageError::UnsafeDefaultComment { span } => span,
    };
    let shown = write_usage_error(error);
    Diagnostic::new(
        Severity::Error,
        DiagnosticCode::UsageGenerationFailed,
        text2("could not generate function usage: ", shown.as_str()),
        Label::at(span, "usage generation failed"),
    )
}

/// Why an S7 class is not supported, in words.
pub open spec fn refusal_message(reason: S7ClassRefusalReason) -> Seq<char> {
    match reason {
        S7ClassRefusalReason::ComputedClassName =>
            "S7 new_class requires a literal first class-name argument"@,
        S7ClassRefusalReason::MissingConstructor =>
            "S7 new_class requires a direct constructor = function(...) argument"@,
        S7ClassRefusalReason::ComputedConstructor =>
            "S7 new_class constructor must be a direct function(...) argument"@,
    }
}

/// The report of an S7 class that is not supported.
pub open spec fn unsupported_s7(refusal: S7ClassRefusal, target: BlockTarget) -> DiagnosticView {
    let primary = match target {
        BlockTarget::ValueAssignment(value) => value.value_span,
        _ => refusal.span,
    };
    let report = plain_diagnostic(
        Severity::Error,
        DiagnosticCode::UnsupportedS7Constructor,
        refusal_message(refusal.reason),
        LabelView { span: primary, message: "unsupported S7 constructor metadata"@ },
    );
    if primary == refusal.span {
        report
    } else {
        report.and_label(
            LabelView { span: refusal.span, message: "originating S7 class refusal"@ },
        )
    }
}

/// Reports an S7 class that is not supported.
fn unsupported_s7_diagnostic(refusal: &S7ClassRefusal, target: &BlockTarget) -> (r: Diagnostic)
    ensures
        r@ == unsupported_s7(*refusal, *target),
{
    let primary: Span = match target {
        BlockTarget::ValueAssignment(value) => value.value_span,
        _ => refusal.span,
    };
    let message: &str = match refusal.reason {
        S7ClassRefusalReason::ComputedClassName =>
            "S7 new_class requires a literal first class-name argument",
        S7ClassRefusalReason::MissingConstructor =>
            "S7 new_class requires a direct constructor = function(...) argument",
        S7ClassRefusalReason::ComputedConstructor =>
            "S7 new_class constructor must be a direct function(...) argument",
    };
    let diagnostic = Diagnostic::new(
        Severity::Error,
        DiagnosticCode::UnsupportedS7Constructor,
        message.to_owned(),
        Label::at(primary, "unsupported S7 constructor metadata"),
    );
    if primary == refusal.span {
        diagnostic
    } else {
        diagnostic.with_secondary(Label::at(refusal.span, "originating S7 class refusal"))
    }
}

/// The usage that a block contributes.
pub open spec fn block_usage(context: ContextView, block: DocumentedBlock) -> ResolvedView {
    match usage_from(block.tags@, 0) {
        Some(value) => stated_usage(value),
        None => match generated_usage(context, block) {
            Ok(Some(text)) => ResolvedView::Generated(text),
            _ => ResolvedView::Absent,
        },
    }
}

/// The usage that the object of a block generates.
pub open spec fn generated_usage(context: ContextView, block: DocumentedBlock) -> Result<
    Option<Seq<char>>,
    UsageError,
> {
    target_usage(
        block.target,
        context.sources,
        supported_class(target_s7(context, block.target)),
        match block.target {
            BlockTarget::ValueAssignment(value) => alias_function_formals(
                context.bindings,
                context.sources,
                context.collate,
                value.assignment_span,
            ),
            _ => None,
        },
        context.lazy_data,
    )
}

/// The reports that go with the usage of a block.
pub open spec fn usage_reports(context: ContextView, block: DocumentedBlock) -> Seq<
    DiagnosticView,
> {
    if usage_from(block.tags@, 0) is Some {
        Seq::empty()
    } else {
        let refused = match target_s7(context, block.target) {
            Some(S7BindingResolution::Refused(refusal)) => seq![
                unsupported_s7(refusal, block.target),
            ],
            _ => Seq::<DiagnosticView>::empty(),
        };
        match generated_usage(context, block) {
            Err(error) => refused.push(usage_failure(error, block.block_span)),
            _ => refused,
        }
    }
}

/// The method that a block documents: its own declaration, or that of the
/// only registration of its object. Data objects have none.
pub open spec fn block_method(
    context: ContextView,
    block: DocumentedBlock,
    declared: Option<MethodDeclaration>,
) -> Option<MethodDeclaration> {
    if block.target is DataObject {
        None
    } else {
        match (declared, object_name(block.target)) {
            (Some(method), _) => Some(method),
            (None, Some(name)) => {
                let matching = matching_registrations(context.registrations, name@);
                if matching.len() == 1 {
                    Some(declared_method(matching[0]))
                } else {
                    None
                }
            },
            (None, None) => None,
        }
    }
}

/// The topic after all tags of a block, once its keywords and usage are added.
#[verifier::opaque]
pub open spec fn completed(
    after: TagState,
    block: DocumentedBlock,
    context: ContextView,
) -> TopicState {
    let topic = after.state.topic;
    let keywords = if block.target is DataObject && !without_keywords(block.tags@)
        && !topic.keywords.contains("datasets"@) {
        topic.keywords.push("datasets"@)
    } else {
        topic.keywords
    };
    TopicState {
        topic: TopicView {
            keywords,
            usages: topic.usages.push(
                UsageView {
                    block: block.block,
                    block_span: block.block_span,
                    object: object_name(block.target),
                    method: opt_method(block_method(context, block, after.method)),
                    usage: block_usage(context, block),
                },
            ),
            ..topic
        },
        ledger: super::block::LedgerView {
            diagnostics: after.state.ledger.diagnostics + usage_reports(context, block),
            ..after.state.ledger
        },
    }
}

/// The topic after a block has been merged into it.
#[verifier::opaque]
pub open spec fn merged(
    state: TopicState,
    key: Seq<char>,
    block: DocumentedBlock,
    context: ContextView,
) -> TopicState {
    let start = TagState {
        state: joined(state, key, block, context),
        slots: Seq::empty(),
        usage_origin: None,
        method: None,
    };
    completed(
        after_tags(start, key, block.tags@, block.tags@.len() as int),
        block,
        context,
    )
}

/// Lets a block join a topic.
fn join(
    block: &DocumentedBlock,
    topic_key: &TopicKey,
    topic: &mut RdTopic,
    ledger: &mut Ledger,
    context: &Context,
)
    requires
        context.wf(),
    ensures
        (TopicState { topic: final(topic)@, ledger: final(ledger)@ }) == joined(
            TopicState { topic: old(topic)@, ledger: old(ledger)@ },
            topic_key@,
            *block,
            context@,
        ),
{
    proof {
        reveal(joined);
    }
    topic.blocks.push(block.block);
    if let Some(span) = data_object_span(&block.target) {
        register_topic_kind(topic_key, topic, RdTopicKind::Data, span, ledger);
        if !has_format(&block.tags) && topic.missing_data_format_span.is_none() {
            topic.missing_data_format_span = Some(span);
        }
    }
    let (s7, aliases) = match &block.target {
        BlockTarget::ValueAssignment(value) => (
            context.s7.get(value.assignment_span),
            alias_formal_result(
                context.bindings,
                context.sources,
                context.collate,
                value.assignment_span,
            ),
        ),
        _ => (None, None),
    };
    let class: Option<&S7ClassFact> = match s7 {
        Some(S7BindingResolution::Supported(class)) => Some(class),
        _ => None,
    };
    let names = resolve_formal_names(&block.target, class, aliases);
    let ghost before = topic@.formals;
    topic.formals.push(FormalContribution { block: block.block, names });
    proof {
        assert(topic@.formals =~= before.push(block_formals(context@, *block)));
    }
}

/// Finds the usage of a block and reports what stands in its way.
fn contribute_usage(block: &DocumentedBlock, ledger: &mut Ledger, context: &Context) -> (r:
    ResolvedUsage)
    requires
        context.wf(),
    ensures
        r@ == block_usage(context@, *block),
        final(ledger)@ == (super::block::LedgerView {
            diagnostics: old(ledger)@.diagnostics + usage_reports(context@, *block),
            ..old(ledger)@
        }),
{
    if let Some(value) = first_usage(&block.tags) {
        proof {
            assert(ledger@.diagnostics + Seq::<DiagnosticView>::empty() =~= ledger@.diagnostics);
        }
        return resolve_explicit_usage(value);
    }
    let ghost start = ledger@.diagnostics;
    let (s7, formals): (Option<&S7BindingResolution>, Option<Formals>) = match &block.target {
        BlockTarget::ValueAssignment(value) => (
            context.s7.get(value.assignment_span),
            alias_function_formal_result(
                context.bindings,
                context.sources,
                context.collate,
                value.assignment_span,
            ),
        ),
        _ => (None, None),
    };
    if let Some(S7BindingResolution::Refused(refusal)) = s7 {
        ledger.report(unsupported_s7_diagnostic(refusal, &block.target));
    }
    let class: Option<&S7ClassFact> = match s7 {
        Some(S7BindingResolution::Supported(class)) => Some(class),
        _ => None,
    };
    let known: Option<&Formals> = match &formals {
        Some(formals) => Some(formals),
        None => None,
    };
    let usage = match resolve_usage(
        &block.target,
        context.sources,
        class,
        known,
        context.lazy_data,
    ) {
        Ok(Some(usage)) => ResolvedUsage::Generated(usage),
        Ok(None) => ResolvedUsage::Absent,
        Err(error) => {
            ledger.report(usage_error_diagnostic(error, block.block_span));
            ResolvedUsage::Absent
        },
    };
    proof {
        assert(ledger@.diagnostics =~= start + usage_reports(context@, *block));
    }
    usage
}

/// Finds the method that a block documents.
fn contribute_method(
    block: &DocumentedBlock,
    declared: Option<MethodDeclaration>,
    context: &Context,
) -> (r: Option<MethodDeclaration>)
    ensures
        r == block_method(context@, *block, declared),
{
    if matches!(block.target, BlockTarget::DataObject(_)) {
        return None;
    }
    if let Some(method) = declared {
        return Some(method);
    }
    match implicit_object_name(&block.target) {
        Some(name) => {
            let matching = registration_matches(context.registrations, name.as_str());
            if matching.len() == 1 {
                proof {
                    assert(registrations_of(matching@)[0] == *matching@[0]);
                }
                Some(registration_method(matching[0]))
            } else {
                None
            }
        },
        None => None,
    }
}

/// Merges one block into a topic.
///
/// The single-fill policy deliberately diverges from roxygen2, which
/// concatenates scalar prose and examples contributions. A second contribution
/// is surfaced as an actionable source diagnostic instead of silently
/// depending on source order.
pub fn merge_block(
    block: &DocumentedBlock,
    topic_key: &TopicKey,
    topic: RdTopic,
    ledger: Ledger,
    context: &Context,
) -> (r: (RdTopic, Ledger))
    requires
        context.wf(),
    ensures
        (TopicState { topic: r.0@, ledger: r.1@ }) == merged(
            TopicState { topic: topic@, ledger: ledger@ },
            topic_key@,
            *block,
            context@,
        ),
{
    proof {
        reveal(merged);
        reveal(completed);
    }
    let mut topic = topic;
    let mut ledger = ledger;
    join(block, topic_key, &mut topic, &mut ledger, context);
    let mut merge = BlockMerge {
        topic,
        ledger,
        slots: BlockSlots::new(),
        usage_origin: None,
        method: None,
    };
    merge.apply_tags(topic_key, &block.tags);
    let BlockMerge { topic, ledger, slots: _, usage_origin: _, method } = merge;
    let mut topic = topic;
    let mut ledger = ledger;
    let ghost applied = topic@;
    let data: bool = matches!(block.target, BlockTarget::DataObject(_));
    if data && !suppresses_keywords(&block.tags) && !lists_keyword(&topic.keywords, "datasets") {
        topic.keywords.push(Keyword("datasets".to_owned()));
        proof {
            assert(topic@.keywords =~= applied.keywords.push("datasets"@));
        }
    }
    let usage = contribute_usage(block, &mut ledger, context);
    let object = match implicit_object_name(&block.target) {
        Some(name) => Some(name.clone()),
        None => None,
    };
    let method = contribute_method(block, method, context);
    let ghost before = topic@.usages;
    topic.usages.push(
        UsageContribution {
            block: block.block,
            block_span: block.block_span,
            object,
            method,
            usage,
        },
    );
    proof {
        assert(topic@.usages =~= before.push(topic.usages@.last()@));
    }
    (topic, ledger)
}

/// Whether a target is a function assignment.
pub fn is_function_target(target: &BlockTarget) -> (r: bool)
    ensures
        r == (target is FunctionAssignment),
{
    matches!(target, BlockTarget::FunctionAssignment(_))
}

/// The span of the first `@exportS3Method NULL` at or after a position.
pub open spec fn null_export_from(tags: Seq<ParsedTag>, i: int) -> Option<Span>
    decreases tags.len() - i,
{
    if i < 0 || i >= tags.len() {
        None
    } else {
        match tags[i] {
            ParsedTag::Namespace(NamespaceTag::ExportS3Method(value)) => if trimmed(value.value@)
                == "NULL"@ {
                Some(reported_span(value.origin))
            } else {
                null_export_from(tags, i + 1)
            },
            _ => null_export_from(tags, i + 1),
        }
    }
}

/// The span of the first `@exportS3Method NULL`.
pub fn export_s3_method_null_span(tags: &Vec<ParsedTag>) -> (r: Option<Span>)
    ensures
        r == null_export_from(tags@, 0),
{
    let mut i: usize = 0;
    while i < tags.len()
        invariant
            i <= tags@.len(),
            null_export_from(tags@, 0) == null_export_from(tags@, i as int),
        decreases tags@.len() - i,
    {
        if let ParsedTag::Namespace(NamespaceTag::ExportS3Method(value)) = &tags[i] {
            let text = trim(value.value.as_str());
            if same_text(text.as_str(), "NULL") {
                return Some(origin_span(&value.origin));
            }
        }
        i = i + 1;
    }
    None
}

/// Whether a tag exports its object or says how it is registered.
pub open spec fn exports_object(tag: ParsedTag) -> bool {
    match tag {
        ParsedTag::Namespace(NamespaceTag::Export(_)) => true,
        ParsedTag::Namespace(NamespaceTag::ExportS3Method(_)) => true,
        _ => false,
    }
}

/// Whether a block exports its object or says how it is registered.
pub open spec fn is_exported(tags: Seq<ParsedTag>) -> bool {
    exists|i: int| 0 <= i < tags.len() && exports_object(#[trigger] tags[i])
}

/// Whether a block exports its object or says how it is registered.
pub fn has_namespace_export_or_suppression(tags: &Vec<ParsedTag>) -> (r: bool)
    ensures
        r == is_exported(tags@),
{
    let mut i: usize = 0;
    while i < tags.len()
        invariant
            i <= tags@.len(),
            forall|k: int| 0 <= k < i ==> !exports_object(#[trigger] tags@[k]),
        decreases tags@.len() - i,
    {
        let exported: bool = matches!(
            &tags[i],
            ParsedTag::Namespace(NamespaceTag::Export(_) | NamespaceTag::ExportS3Method(_))
        );
        if exported {
            assert(exports_object(tags@[i as int]));
            return true;
        }
        i = i + 1;
    }
    false
}

} // verus!
