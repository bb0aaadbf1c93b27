//! Diagnostics with source labels.
use crate::source::Span;
use vstd::prelude::*;

verus! {

/// How serious a diagnostic is.
#[derive(Debug, Clone, Copy, PartialEq, Eq, Structural)]
pub enum Severity {
    Error,
    Warning,
    Info,
}

/// What a diagnostic reports.
#[derive(Debug, Clone, Copy, PartialEq, Eq, Structural)]
pub enum DiagnosticCode {
    AmbiguousExternalAlias,
    AmbiguousS3Registration,
    ConflictingAlias,
    ConflictingParamDescription,
    ConflictingTopicKind,
    DuplicateMethod,
    DuplicateTag,
    DynamicS3Registration,
    EmptyDataName,
    EmptyExamplesIfBody,
    InvalidExamplesIfCondition,
    InvalidNamespaceDirective,
    InvalidS3Registration,
    MissingPackageDescription,
    MissingPackageTitle,
    MissingParam,
    MissingTopicIdentity,
    PackageAuthorsParse,
    PackageDocumentationUnsupported,
    SelfImport,
    TagParseError,
    UndecodableDataName,
    UndefinedInlineRSubstitution,
    UnexportedS3Method,
    UnknownTag,
    UnresolvedInherit,
    UnresolvedS3Export,
    UnresolvedS3MethodMetadata,
    UnsupportedInlineR,
    UnsupportedMarkdownConstruct,
    UnsupportedMarkdownHeading,
    UnsupportedRawRdMacro,
    UnsupportedS7Constructor,
    UnusedInlineRSubstitution,
    UsageGenerationFailed,
}

/// The severity a code is reported with unless a call site says otherwise.
pub open spec fn severity_of(code: DiagnosticCode) -> Severity {
    match code {
        DiagnosticCode::DynamicS3Registration => Severity::Info,
        DiagnosticCode::AmbiguousExternalAlias
        | DiagnosticCode::MissingPackageDescription
        | DiagnosticCode::MissingPackageTitle
        | DiagnosticCode::MissingParam
        | DiagnosticCode::PackageAuthorsParse
        | DiagnosticCode::SelfImport
        | DiagnosticCode::UnexportedS3Method
        | DiagnosticCode::UnknownTag
        | DiagnosticCode::UnresolvedInherit
        | DiagnosticCode::UnresolvedS3Export
        | DiagnosticCode::UnsupportedMarkdownHeading
        | DiagnosticCode::UnusedInlineRSubstitution => Severity::Warning,
        _ => Severity::Error,
    }
}

impl DiagnosticCode {
    /// The default severity of this code.
    pub fn default_severity(&self) -> (r: Severity)
        ensures
            r == severity_of(*self),
    {
        match self {
            DiagnosticCode::DynamicS3Registration => Severity::Info,
            DiagnosticCode::AmbiguousExternalAlias
            | DiagnosticCode::MissingPackageDescription
            | DiagnosticCode::MissingPackageTitle
            | DiagnosticCode::MissingParam
            | DiagnosticCode::PackageAuthorsParse
            | DiagnosticCode::SelfImport
            | DiagnosticCode::UnexportedS3Method
            | DiagnosticCode::UnknownTag
            | DiagnosticCode::UnresolvedInherit
            | DiagnosticCode::UnresolvedS3Export
            | DiagnosticCode::UnsupportedMarkdownHeading
            | DiagnosticCode::UnusedInlineRSubstitution => Severity::Warning,
            _ => Severity::Error,
        }
    }
}

/// The model of a [`Label`].
pub struct LabelView {
    pub span: Span,
    pub message: Seq<char>,
}

/// A message attached to a source span.
#[derive(Debug, Clone, PartialEq, Eq)]
pub struct Label {
    pub span: Span,
    pub message: String,
}

impl View for Label {
    type V = LabelView;

    open spec fn view(&self) -> LabelView {
        LabelView { span: self.span, message: self.message@ }
    }
}

impl Label {
    /// Labels `span` with `message`.
    pub fn new(span: Span, message: String) -> (r: Self)
        ensures
            r@ == (LabelView { span, message: message@ }),
    {
        Label { span, message }
    }

    /// Labels `span` with a copy of `message`.
    pub fn at(span: Span, message: &str) -> (r: Self)
        ensures
            r@ == (LabelView { span, message: message@ }),
    {
        Label { span, message: message.to_owned() }
    }
}

/// The model of a [`Diagnostic`].
pub struct DiagnosticView {
    pub severity: Severity,
    pub code: DiagnosticCode,
    pub message: Seq<char>,
    pub primary: LabelView,
    pub secondary: Seq<LabelView>,
    pub help: Option<Seq<char>>,
    pub context: Seq<(Seq<char>, Seq<char>)>,
}

/// A diagnostic with one primary label and nothing else.
pub open spec fn plain_diagnostic(
    severity: Severity,
    code: DiagnosticCode,
    message: Seq<char>,
    primary: LabelView,
) -> DiagnosticView {
    DiagnosticView {
        severity,
        code,
        message,
        primary,
        secondary: Seq::empty(),
        help: None,
        context: Seq::empty(),
    }
}

impl DiagnosticView {
    /// The same diagnostic with one more secondary label.
    pub open spec fn and_label(self, label: LabelView) -> DiagnosticView {
        DiagnosticView { secondary: self.secondary.push(label), ..self }
    }

    /// The same diagnostic with a help text.
    pub open spec fn and_help(self, help: Seq<char>) -> DiagnosticView {
        DiagnosticView { help: Some(help), ..self }
    }

    /// The same diagnostic with one more context entry.
    pub open spec fn and_context(self, key: Seq<char>, value: Seq<char>) -> DiagnosticView {
        DiagnosticView { context: self.context.push((key, value)), ..self }
    }
}

/// One reported problem.
#[derive(Debug, Clone, PartialEq, Eq)]
pub struct Diagnostic {
    pub severity: Severity,
    pub code: DiagnosticCode,
    pub message: String,
    pub primary: Label,
    pub secondary: Vec<Label>,
    pub help: Option<String>,
    pub context: Vec<(String, String)>,
}

impl View for Diagnostic {
    type V = DiagnosticView;

    open spec fn view(&self) -> DiagnosticView {
        DiagnosticView {
            severity: self.severity,
            code: self.code,
            message: self.message@,
            primary: self.primary@,
            secondary: self.secondary@.map_values(|l: Label| l@),
            help: crate::text::opt_text(self.help),
            context: self.context@.map_values(|c: (String, String)| (c.0@, c.1@)),
        }
    }
}

impl Diagnostic {
    /// A diagnostic with one primary label.
    pub fn new(severity: Severity, code: DiagnosticCode, message: String, primary: Label) -> (r:
        Self)
        ensures
            r@ == plain_diagnostic(severity, code, message@, primary@),
    {
        let r = Diagnostic {
            severity,
            code,
            message,
            primary,
            secondary: Vec::new(),
            help: None,
            context: Vec::new(),
        };
        proof {
            assert(r@.secondary =~= Seq::<LabelView>::empty());
            assert(r@.context =~= Seq::<(Seq<char>, Seq<char>)>::empty());
        }
        r
    }

    /// Adds a secondary label.
    pub fn with_secondary(self, label: Label) -> (r: Self)
        ensures
            r@ == self@.and_label(label@),
    {
        let mut out = self;
        out.secondary.push(label);
        proof {
            assert(out@.secondary =~= self@.secondary.push(label@));
        }
        out
    }

    /// Sets the help text.
    pub fn with_help(self, help: &str) -> (r: Self)
        ensures
            r@ == self@.and_help(help@),
    {
        let mut out = self;
        out.help = Some(help.to_owned());
        out
    }

    /// Adds a context entry.
    pub fn with_context(self, key: &str, value: &str) -> (r: Self)
        ensures
            r@ == self@.and_context(key@, value@),
    {
        let mut out = self;
        out.context.push((key.to_owned(), value.to_owned()));
        proof {
            assert(out@.context =~= self@.context.push((key@, value@)));
        }
        out
    }
}

/// Diagnostics in the order in which they were reported.
#[derive(Debug, Clone, PartialEq, Eq)]
pub struct Diagnostics {
    pub items: Vec<Diagnostic>,
}

impl View for Diagnostics {
    type V = Seq<DiagnosticView>;

    open spec fn view(&self) -> Seq<DiagnosticView> {
        self.items@.map_values(|d: Diagnostic| d@)
    }
}

/// Whether any of the diagnostics is an error.
pub open spec fn any_error(items: Seq<DiagnosticView>) -> bool {
    exists|i: int| 0 <= i < items.len() && (#[trigger] items[i]).severity == Severity::Error
}

impl Diagnostics {
    /// No diagnostics.
    pub fn new() -> (r: Self)
        ensures
            r@ == Seq::<DiagnosticView>::empty(),
    {
        let r = Diagnostics { items: Vec::new() };
        proof {
            assert(r@ =~= Seq::<DiagnosticView>::empty());
        }
        r
    }

    /// Reports one more diagnostic.
    pub fn push(&mut self, diagnostic: Diagnostic)
        ensures
            final(self)@ == old(self)@.push(diagnostic@),
    {
        self.items.push(diagnostic);
        proof {
            assert(self@ =~= old(self)@.push(diagnostic@));
        }
    }

    /// Reports everything in `other`, in its order.
    pub fn extend(&mut self, other: Diagnostics)
        ensures
            final(self)@ == old(self)@ + other@,
    {
        let mut rest = other.items;
        self.items.append(&mut rest);
        proof {
            assert(self@ =~= old(self)@ + other@);
        }
    }

    /// The reported diagnostics.
    pub fn as_slice(&self) -> (r: &[Diagnostic])
        ensures
            r@ == self.items@,
    {
        self.items.as_slice()
    }

    /// The number of diagnostics.
    pub fn len(&self) -> (r: usize)
        ensures
            r == self@.len(),
    {
        self.items.len()
    }

    /// Whether nothing was reported.
    pub fn is_empty(&self) -> (r: bool)
        ensures
            r == (self@.len() == 0),
    {
        self.items.len() == 0
    }

    /// Whether an error was reported.
    pub fn has_errors(&self) -> (r: bool)
        ensures
            r == any_error(self@),
    {
        let mut i: usize = 0;
        while i < self.items.len()
            invariant
                i <= self.items@.len(),
                forall|k: int| 0 <= k < i ==> (#[trigger] self@[k]).severity != Severity::Error,
            decreases self.items@.len() - i,
        {
            let found = matches!(self.items[i].severity, Severity::Error);
            assert(self@[i as int] == self.items@[i as int]@);
            if found {
                return true;
            }
            i = i + 1;
        }
        false
    }
}

} // verus!
