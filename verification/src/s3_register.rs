//! Static S3 registrations collected from package source.
use crate::source::Span;
use vstd::prelude::*;

verus! {

/// What a registration call registers as the method.
#[derive(Debug, Clone, PartialEq, Eq)]
pub enum S3RegistrationTarget {
    /// The conventional `generic.class` function.
    Implicit { name: String, span: Span },
    /// A function named by the call.
    Explicit { name: String, span: Span },
    /// A function written in the call itself.
    FunctionLiteral { span: Span },
    /// A method that cannot be determined without evaluation.
    Unresolved { span: Span },
    /// An argument that cannot be a method.
    Invalid { span: Span },
}

impl S3RegistrationTarget {
    /// The span that states the method.
    pub open spec fn spec_target_span(&self) -> Span {
        match self {
            S3RegistrationTarget::Implicit { name, span } => *span,
            S3RegistrationTarget::Explicit { name, span } => *span,
            S3RegistrationTarget::FunctionLiteral { span } => *span,
            S3RegistrationTarget::Unresolved { span } => *span,
            S3RegistrationTarget::Invalid { span } => *span,
        }
    }

    /// The span that states the method.
    pub fn target_span(&self) -> (r: Span)
        ensures
            r == self.spec_target_span(),
    {
        match self {
            S3RegistrationTarget::Implicit { name: _, span } => *span,
            S3RegistrationTarget::Explicit { name: _, span } => *span,
            S3RegistrationTarget::FunctionLiteral { span } => *span,
            S3RegistrationTarget::Unresolved { span } => *span,
            S3RegistrationTarget::Invalid { span } => *span,
        }
    }
}

/// One statically known S3 registration.
#[derive(Debug, Clone, PartialEq, Eq)]
pub struct S3RegistrationFact {
    pub generic: String,
    pub class: String,
    pub span: Span,
    pub target: S3RegistrationTarget,
}

} // verus!
