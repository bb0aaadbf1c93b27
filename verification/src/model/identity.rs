//! Resolves implicit topic identities and identity-related diagnostics.
//!
//! Object association has distinct source-span and refusal rules, so it is
//! isolated from merge mechanics while retaining the same recovery behavior.
use crate::diagnostic::{
    plain_diagnostic, Diagnostic, DiagnosticCode, DiagnosticView, Label, LabelView, Severity,
};
use crate::facts::{RName, RNameDecodeError};
use crate::r_parse::{AssociationRefusal, BlockTarget, DataName, PackageSentinel};
use crate::source::Span;
use crate::tags::TagOrigin;
use vstd::prelude::*;

use super::ir::DocumentedBlock;
use super::lookup::opt_value;

verus! {

/// The name that a documented assignment gives to its topic.
pub open spec fn object_name(target: BlockTarget) -> Option<RName> {
    match target {
        BlockTarget::FunctionAssignment(function) => Some(function.name.canonical),
        BlockTarget::ValueAssignment(value) => Some(value.name.canonical),
        _ => None,
    }
}

/// The name that a documented assignment gives to its topic.
pub fn implicit_object_name(target: &BlockTarget) -> (r: Option<&RName>)
    ensures
        opt_value(r) == object_name(*target),
{
    match target {
        BlockTarget::FunctionAssignment(function) => Some(&function.name.canonical),
        BlockTarget::ValueAssignment(value) => Some(&value.name.canonical),
        _ => None,
    }
}

/// The name of a documented data object.
pub open spec fn data_name(target: BlockTarget) -> Option<DataName> {
    match target {
        BlockTarget::DataObject(data) => Some(data.name.value),
        _ => None,
    }
}

/// The name of a documented data object.
pub fn data_object_name(target: &BlockTarget) -> (r: Option<&DataName>)
    ensures
        opt_value(r) == data_name(*target),
{
    match target {
        BlockTarget::DataObject(data) => Some(&data.name.value),
        _ => None,
    }
}

/// The span of the name that a documented assignment gives to its topic.
pub open spec fn object_span(target: BlockTarget) -> Option<Span> {
    match target {
        BlockTarget::FunctionAssignment(function) => Some(function.name.spelling),
        BlockTarget::ValueAssignment(value) => Some(value.name.spelling),
        _ => None,
    }
}

/// The span of the name that a documented assignment gives to its topic.
pub fn implicit_object_span(target: &BlockTarget) -> (r: Option<Span>)
    ensures
        r == object_span(*target),
{
    match target {
        BlockTarget::FunctionAssignment(function) => Some(function.name.spelling),
        BlockTarget::ValueAssignment(value) => Some(value.name.spelling),
        _ => None,
    }
}

/// The span of the name of a documented data object.
pub open spec fn data_span(target: BlockTarget) -> Option<Span> {
    match target {
        BlockTarget::DataObject(data) => Some(data.name.span),
        _ => None,
    }
}

/// The span of the name of a documented data object.
pub fn data_object_span(target: &BlockTarget) -> (r: Option<Span>)
    ensures
        r == data_span(*target),
{
    match target {
        BlockTarget::DataObject(data) => Some(data.name.span),
        _ => None,
    }
}

/// Whether a target can only be documented under an explicit name.
pub fn is_refused_or_null(target: &BlockTarget) -> (r: bool)
    ensures
        r == (target is Null || target is Refused),
{
    matches!(target, BlockTarget::Null { .. } | BlockTarget::Refused(_))
}

/// The span of an expression that association refused.
pub open spec fn refused_span(refusal: AssociationRefusal) -> Span {
    match refusal {
        AssociationRefusal::CompoundAssignment { target_span } => target_span,
        AssociationRefusal::InvalidAssignmentTarget { target_span } => target_span,
        AssociationRefusal::UndecodableBinding { target_span, .. } => target_span,
        AssociationRefusal::UndecodableDataName { span, .. } => span,
        AssociationRefusal::EmptyDataName { span } => span,
        AssociationRefusal::UnsupportedExpression { span } => span,
    }
}

/// The span of an expression that association refused.
pub fn refusal_span(refusal: &AssociationRefusal) -> (r: Span)
    ensures
        r == refused_span(*refusal),
{
    match refusal {
        AssociationRefusal::CompoundAssignment { target_span } => *target_span,
        AssociationRefusal::InvalidAssignmentTarget { target_span } => *target_span,
        AssociationRefusal::UndecodableBinding { target_span, .. } => *target_span,
        AssociationRefusal::UndecodableDataName { span, .. } => *span,
        AssociationRefusal::EmptyDataName { span } => *span,
        AssociationRefusal::UnsupportedExpression { span } => *span,
    }
}

/// The report of a block without a topic name.
pub open spec fn missing_identity(block: DocumentedBlock) -> DiagnosticView {
    let (span, message) = match block.target {
        BlockTarget::Null { span } => (span, "documented NULL has no topic name"@),
        BlockTarget::Refused(refusal) => (
            refused_span(refusal),
            "refused target has no topic name"@,
        ),
        _ => (block.block_span, "documented block has no topic name"@),
    };
    plain_diagnostic(
        Severity::Error,
        DiagnosticCode::MissingTopicIdentity,
        message,
        LabelView { span, message },
    ).and_label(LabelView { span: block.block_span, message: "documentation block"@ }).and_help(
        "add an explicit @name or suppress this block with @noRd"@,
    )
}

/// Reports a block without a topic name.
pub fn missing_identity_diagnostic(block: &DocumentedBlock) -> (r: Diagnostic)
    ensures
        r@ == missing_identity(*block),
{
    let (span, message): (Span, &str) = match &block.target {
        BlockTarget::Null { span } => (*span, "documented NULL has no topic name"),
        BlockTarget::Refused(refusal) => (
            refusal_span(refusal),
            "refused target has no topic name",
        ),
        _ => (block.block_span, "documented block has no topic name"),
    };
    Diagnostic::new(
        Severity::Error,
        DiagnosticCode::MissingTopicIdentity,
        message.to_owned(),
        Label::at(span, message),
    ).with_secondary(Label::at(block.block_span, "documentation block")).with_help(
        "add an explicit @name or suppress this block with @noRd",
    )
}

/// The report of package documentation without package metadata.
pub open spec fn package_documentation_unsupported(sentinel: PackageSentinel) -> DiagnosticView {
    plain_diagnostic(
        Severity::Error,
        DiagnosticCode::PackageDocumentationUnsupported,
        "package-level documentation is recognised but not yet implemented"@,
        LabelView {
            span: sentinel.span,
            message: "package-level documentation is not implemented"@,
        },
    ).and_help(
        "use an object-level documentation block until package documentation is implemented"@,
    )
}

/// Reports package documentation without package metadata.
pub fn package_documentation_diagnostic(sentinel: PackageSentinel) -> (r: Diagnostic)
    ensures
        r@ == package_documentation_unsupported(sentinel),
{
    Diagnostic::new(
        Severity::Error,
        DiagnosticCode::PackageDocumentationUnsupported,
        "package-level documentation is recognised but not yet implemented".to_owned(),
        Label::at(sentinel.span, "package-level documentation is not implemented"),
    ).with_help(
        "use an object-level documentation block until package documentation is implemented",
    )
}

/// Why a data name could not be decoded, in words.
pub open spec fn decode_failure(reason: RNameDecodeError) -> Seq<char> {
    match reason {
        RNameDecodeError::ContainsBackslash => "data object name contains an unsupported escape"@,
        RNameDecodeError::InvalidSpelling => "data object name has invalid string spelling"@,
        RNameDecodeError::EmptyName => "data object name is empty"@,
        RNameDecodeError::MixedUnicodeAndByteEscapes =>
            "data object name mixes Unicode with hex or octal escapes"@,
        RNameDecodeError::NulCharacter => "data object name contains a nul character"@,
    }
}

/// The report of a data name that cannot be used, when the refusal is one.
pub open spec fn bad_data_name(refusal: AssociationRefusal) -> Option<DiagnosticView> {
    match refusal {
        AssociationRefusal::EmptyDataName { span } => Some(
            plain_diagnostic(
                Severity::Error,
                DiagnosticCode::EmptyDataName,
                "data object name is empty"@,
                LabelView { span, message: "data object name is empty"@ },
            ),
        ),
        AssociationRefusal::UndecodableDataName { span, reason } => Some(
            plain_diagnostic(
                Severity::Error,
                DiagnosticCode::UndecodableDataName,
                decode_failure(reason),
                LabelView { span, message: decode_failure(reason) },
            ),
        ),
        _ => None,
    }
}

/// Reports a data name that cannot be used, when the refusal is one.
pub fn data_name_diagnostic(refusal: &AssociationRefusal) -> (r: Option<Diagnostic>)
    ensures
        match r {
            Some(diagnostic) => bad_data_name(*refusal) == Some(diagnostic@),
            None => bad_data_name(*refusal) is None,
        },
{
    let (span, code, message): (Span, DiagnosticCode, &str) = match refusal {
        AssociationRefusal::EmptyDataName { span } => (
            *span,
            DiagnosticCode::EmptyDataName,
            "data object name is empty",
        ),
        AssociationRefusal::UndecodableDataName { span, reason } => (
            *span,
            DiagnosticCode::UndecodableDataName,
            match reason {
                RNameDecodeError::ContainsBackslash =>
                    "data object name contains an unsupported escape",
                RNameDecodeError::InvalidSpelling => "data object name has invalid string spelling",
                RNameDecodeError::EmptyName => "data object name is empty",
                RNameDecodeError::MixedUnicodeAndByteEscapes =>
                    "data object name mixes Unicode with hex or octal escapes",
                RNameDecodeError::NulCharacter => "data object name contains a nul character",
            },
        ),
        _ => {
            return None;
        },
    };
    Some(Diagnostic::new(Severity::Error, code, message.to_owned(), Label::at(span, message)))
}

/// The span that an origin is reported at.
pub open spec fn reported_span(origin: TagOrigin) -> Span {
    match origin {
        TagOrigin::Explicit { full_span, name } => full_span,
        TagOrigin::Implicit { intro_span } => intro_span,
    }
}

/// The span that an origin is reported at.
pub fn origin_span(origin: &TagOrigin) -> (r: Span)
    ensures
        r == reported_span(*origin),
{
    match origin {
        TagOrigin::Explicit { full_span, .. } => *full_span,
        TagOrigin::Implicit { intro_span } => *intro_span,
    }
}

} // verus!
