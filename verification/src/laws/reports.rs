//! Laws of where reports stand.
use crate::diagnostic::{DiagnosticCode, DiagnosticView, Severity};
use crate::model::identity::{bad_data_name, missing_identity, package_documentation_unsupported};
use crate::model::ir::DocumentedBlock;
use crate::model::merge::assembly::{after_topic, MergeView};
use crate::model::merge::block::{
    conflicting_alias, conflicting_kind, conflicting_param, with_usage_tag, TagState,
};
use crate::model::merge::contribution::{usage_failure, ContextView};
use crate::model::slots::{
    duplicate_method, duplicate_tag, reservation_reports, reserved_slots, DuplicateSlotKind,
    SlotView,
};
use crate::model::view::AliasView;
use crate::r_parse::{AssociationRefusal, BlockTarget, PackageSentinel};
use crate::source::{Span, Spanned};
use crate::tags::{ParamName, TagOrigin, TagValue, UsageDirective};
use crate::usage::UsageError;
use vstd::prelude::*;

verus! {

/// Where a contribution stands: its tag, or the introduction that it was taken from.
pub open spec fn place_of(origin: TagOrigin) -> Span {
    match origin {
        TagOrigin::Explicit { full_span, name } => full_span,
        TagOrigin::Implicit { intro_span } => intro_span,
    }
}

/// Whether a report is an error with a code that stands at one place and points to another.
pub open spec fn is_error_at(
    report: DiagnosticView,
    code: DiagnosticCode,
    place: Span,
    other: Span,
) -> bool {
    &&& report.severity == Severity::Error
    &&& report.code == code
    &&& report.primary.span == place
    &&& report.secondary.len() == 1
    &&& report.secondary[0].span == other
}

/// A repeated contribution is reported at the second one and points to the first.
pub proof fn repeats_point_to_the_first(
    slot: Seq<char>,
    current: TagOrigin,
    previous: TagOrigin,
    kind: DuplicateSlotKind,
    generic: Seq<char>,
    class: Seq<char>,
)
    ensures
        is_error_at(
            duplicate_tag(slot, current, previous, kind),
            DiagnosticCode::DuplicateTag,
            place_of(current),
            place_of(previous),
        ),
        is_error_at(
            duplicate_method(generic, class, current, previous),
            DiagnosticCode::DuplicateMethod,
            place_of(current),
            place_of(previous),
        ),
{
}

/// A claim on what belongs to another is reported at the claim and points to the owner.
pub proof fn conflicts_point_to_the_owner(
    alias: AliasView,
    owner: Span,
    key: Seq<char>,
    span: Span,
    name: Spanned<ParamName>,
    first: TagOrigin,
)
    ensures
        is_error_at(
            conflicting_alias(alias, owner),
            DiagnosticCode::ConflictingAlias,
            alias.span,
            owner,
        ),
        is_error_at(
            conflicting_kind(key, span, owner),
            DiagnosticCode::ConflictingTopicKind,
            span,
            owner,
        ),
        is_error_at(
            conflicting_param(name, first),
            DiagnosticCode::ConflictingParamDescription,
            name.span,
            place_of(first),
        ),
{
}

/// A slot is filled once. The first contribution fills it; every later one leaves it and is
/// reported with the first.
pub proof fn slots_are_filled_once(
    slots: Seq<SlotView>,
    slot: Seq<char>,
    origin: TagOrigin,
    reports: Seq<DiagnosticView>,
    i: int,
)
    ensures
        (forall|k: int| 0 <= k < slots.len() ==> (#[trigger] slots[k]).slot != slot) ==> {
            &&& reserved_slots(slots, slot, origin) == slots.push(SlotView { slot, origin })
            &&& reservation_reports(slots, slot, origin, reports) == reports
        },
        0 <= i < slots.len() && slots[i].slot == slot && (forall|k: int|
            0 <= k < i ==> (#[trigger] slots[k]).slot != slot) ==> {
            let after = reservation_reports(slots, slot, origin, reports);
            &&& reserved_slots(slots, slot, origin) == slots
            &&& after.len() == reports.len() + 1
            &&& after.drop_last() == reports
            &&& is_error_at(
                after.last(),
                DiagnosticCode::DuplicateTag,
                place_of(origin),
                place_of(slots[i].origin),
            )
        },
{
    fillers(slots, slot, i, 0);
    let after = reservation_reports(slots, slot, origin, reports);
    if after.len() > reports.len() {
        assert(after.drop_last() =~= reports);
    }
}

proof fn fillers(slots: Seq<SlotView>, slot: Seq<char>, i: int, from: int)
    requires
        0 <= from,
    ensures
        (forall|k: int| from <= k < slots.len() ==> (#[trigger] slots[k]).slot != slot)
            ==> crate::model::slots::filler_from(slots, slot, from) is None,
        from <= i < slots.len() && slots[i].slot == slot && (forall|k: int|
            from <= k < i ==> (#[trigger] slots[k]).slot != slot)
            ==> crate::model::slots::filler_from(slots, slot, from) == Some(slots[i].origin),
    decreases slots.len() - from,
{
    if from < slots.len() {
        fillers(slots, slot, i, from + 1);
    }
}

/// A block without a name is reported at its `NULL` or at what was refused, and names the block.
/// A package block without metadata is reported at its marker.
pub proof fn nameless_blocks_stand_at_their_object(
    block: DocumentedBlock,
    sentinel: PackageSentinel,
)
    ensures
        ({
            let report = missing_identity(block);
            &&& report.code == DiagnosticCode::MissingTopicIdentity
            &&& report.severity == Severity::Error
            &&& report.help is Some
            &&& report.secondary.len() == 1
            &&& report.secondary[0].span == block.block_span
            &&& block.target matches BlockTarget::Null { span } ==> report.primary.span == span
            &&& block.target is Call ==> report.primary.span == block.block_span
            &&& block.target matches BlockTarget::Refused(
                AssociationRefusal::EmptyDataName { span },
            ) ==> report.primary.span == span
            &&& block.target matches BlockTarget::Refused(
                AssociationRefusal::CompoundAssignment { target_span },
            ) ==> report.primary.span == target_span
            &&& block.target matches BlockTarget::Refused(
                AssociationRefusal::InvalidAssignmentTarget { target_span },
            ) ==> report.primary.span == target_span
            &&& block.target matches BlockTarget::Refused(
                AssociationRefusal::UnsupportedExpression { span },
            ) ==> report.primary.span == span
        }),
        package_documentation_unsupported(sentinel).code
            == DiagnosticCode::PackageDocumentationUnsupported,
        package_documentation_unsupported(sentinel).primary.span == sentinel.span,
{
}

/// A data name that is empty or cannot be read is reported where it stands; no other refusal is.
pub proof fn bad_data_names_are_reported(refusal: AssociationRefusal)
    ensures
        refusal matches AssociationRefusal::EmptyDataName { span } ==> (bad_data_name(refusal)
            matches Some(report) && report.code == DiagnosticCode::EmptyDataName
            && report.primary.span == span),
        refusal matches AssociationRefusal::UndecodableDataName { span, reason } ==> (bad_data_name(
            refusal,
        ) matches Some(report) && report.code == DiagnosticCode::UndecodableDataName
            && report.primary.span == span),
        !(refusal is EmptyDataName) && !(refusal is UndecodableDataName) ==> bad_data_name(refusal)
            is None,
{
}

/// A package block of a package without metadata, and a block without a name, change no topic:
/// they add one report.
pub proof fn unplaced_blocks_change_no_topic(
    state: MergeView,
    block: DocumentedBlock,
    context: ContextView,
)
    requires
        block.target is PackageDocumentation,
    ensures
        ({
            let after = after_topic(state, block, None, context);
            &&& after.topics == state.topics
            &&& after.namespace == state.namespace
            &&& after.ledger.diagnostics.len() == state.ledger.diagnostics.len() + 1
            &&& after.ledger.owners == state.ledger.owners
        }),
{
}

/// Usage that cannot be generated is reported where the fault is: at the block where the formals
/// are bad, else at the name, the formal or the default that cannot be shown.
pub proof fn usage_failures_stand_at_the_fault(error: UsageError, block_span: Span)
    ensures
        usage_failure(error, block_span).code == DiagnosticCode::UsageGenerationFailed,
        usage_failure(error, block_span).severity == Severity::Error,
        error is InvalidFormals ==> usage_failure(error, block_span).primary.span == block_span,
        error matches UsageError::InvalidReplacementSignature { name_span } ==> usage_failure(
            error,
            block_span,
        ).primary.span == name_span,
        error matches UsageError::UnresolvableSourceSpan { span } ==> usage_failure(
            error,
            block_span,
        ).primary.span == span,
        error matches UsageError::UnsafeDefaultComment { span } ==> usage_failure(
            error,
            block_span,
        ).primary.span == span,
        error is UndecodableFormalName ==> usage_failure(error, block_span).primary.span
            == error->UndecodableFormalName_span,
{
}

/// A second `@usage` of a block is reported and changes nothing else.
pub proof fn second_usages_are_reported(before: TagState, tag: TagValue<UsageDirective>)
    ensures
        before.usage_origin matches Some(first) ==> ({
            let after = with_usage_tag(before, tag);
            &&& after.usage_origin == before.usage_origin
            &&& after.state.topic == before.state.topic
            &&& after.reports().len() == before.reports().len() + 1
            &&& is_error_at(
                after.reports().last(),
                DiagnosticCode::DuplicateTag,
                place_of(tag.origin),
                place_of(first),
            )
        }),
        before.usage_origin is None ==> with_usage_tag(before, tag).usage_origin == Some(tag.origin)
            && with_usage_tag(before, tag).reports() == before.reports(),
{
}

} // verus!
