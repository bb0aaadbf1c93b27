//! Syntax facts about R source, as handed over by a parser.
use crate::diagnostic::Diagnostics;
use crate::source::{Span, Spanned};
use std::sync::Arc;
use vstd::prelude::*;

verus! {

/// The identity of a documentation block within one file.
#[derive(Debug, Clone, Copy, PartialEq, Eq, Structural, PartialOrd, Ord, Hash)]
pub struct BlockId {
    pub id: u32,
}

impl BlockId {
    /// The position of the block among the documentation blocks of its file.
    pub fn index(&self) -> (r: u32)
        ensures
            r == self.id,
    {
        self.id
    }
}

/// A decoded R name.
#[derive(Debug, PartialEq, Eq, Hash)]
pub struct RName {
    pub text: String,
}

impl View for RName {
    type V = Seq<char>;

    open spec fn view(&self) -> Seq<char> {
        self.text@
    }
}

impl Clone for RName {
    fn clone(&self) -> (r: Self)
        ensures
            r == *self,
    {
        RName { text: self.text.clone() }
    }
}

impl RName {
    /// The decoded name.
    pub fn as_str(&self) -> (r: &str)
        ensures
            r@ == self@,
    {
        self.text.as_str()
    }
}

/// Why a name or string could not be decoded.
#[derive(Debug, Clone, Copy, PartialEq, Eq, Structural)]
pub enum RNameDecodeError {
    ContainsBackslash,
    InvalidSpelling,
    EmptyName,
    MixedUnicodeAndByteEscapes,
    NulCharacter,
}

/// A binding name and the span of its spelling.
#[derive(Debug, PartialEq, Eq)]
pub struct BindingName {
    pub canonical: RName,
    pub spelling: Span,
}

impl Clone for BindingName {
    fn clone(&self) -> (r: Self)
        ensures
            r == *self,
    {
        BindingName { canonical: self.canonical.clone(), spelling: self.spelling }
    }
}

/// The operator of an assignment.
#[derive(Debug, Clone, Copy, PartialEq, Eq, Structural)]
pub enum AssignmentOperator {
    Left,
    Equals,
    Right,
    SuperLeft,
    SuperRight,
    Walrus,
}

/// One formal parameter.
#[derive(Debug, PartialEq, Eq)]
pub struct Formal {
    pub name: Spanned<Result<RName, RNameDecodeError>>,
    /// The span of the default expression.
    pub default: Option<Span>,
}

/// Why a formal list could not be read.
#[derive(Debug, Clone, Copy, PartialEq, Eq, Structural)]
pub enum FormalError {
    InvalidStructure { span: Span },
}

/// The formals of a function, or the reason they could not be read.
pub type Formals = Result<Arc<Vec<Formal>>, FormalError>;

/// A shared copy of a formal list.
pub fn share_formals(formals: &Formals) -> (r: Formals)
    ensures
        r == *formals,
{
    match formals {
        Ok(list) => Ok(list.clone()),
        Err(error) => Err(*error),
    }
}

/// A function expression.
#[derive(Debug, PartialEq, Eq)]
pub struct FunctionFact {
    pub formals: Formals,
    pub body_span: Option<Span>,
    /// Whether the body calls unqualified `UseMethod`.
    pub calls_use_method: bool,
}

impl Clone for FunctionFact {
    fn clone(&self) -> (r: Self)
        ensures
            r == *self,
    {
        FunctionFact {
            formals: share_formals(&self.formals),
            body_span: self.body_span,
            calls_use_method: self.calls_use_method,
        }
    }
}

/// A statically known callee.
#[derive(Debug, PartialEq, Eq)]
pub enum CallCallee {
    Simple(RName),
    Namespace { package: RName, name: RName, internal: bool },
}

/// A literal S7 class definition.
#[derive(Debug, PartialEq, Eq)]
pub struct S7ClassFact {
    pub class_name: Spanned<String>,
    pub constructor: FunctionFact,
}

impl Clone for S7ClassFact {
    fn clone(&self) -> (r: Self)
        ensures
            r == *self,
    {
        S7ClassFact {
            class_name: Spanned::new(self.class_name.value.clone(), self.class_name.span),
            constructor: self.constructor.clone(),
        }
    }
}

/// Why an S7 class definition is not static.
#[derive(Debug, Clone, Copy, PartialEq, Eq, Structural)]
pub enum S7ClassRefusalReason {
    ComputedClassName,
    MissingConstructor,
    ComputedConstructor,
}

/// An S7 class definition outside the static subset.
#[derive(Debug, Clone, Copy, PartialEq, Eq, Structural)]
pub struct S7ClassRefusal {
    pub span: Span,
    pub reason: S7ClassRefusalReason,
}

/// What is known of a call as an S7 class definition.
#[derive(Debug, PartialEq, Eq)]
pub enum S7ClassAnalysis {
    Supported(S7ClassFact),
    Refused(S7ClassRefusal),
    NotApplicable,
}

/// A call expression.
#[derive(Debug, PartialEq, Eq)]
pub struct CallFact {
    pub span: Span,
    pub callee: Option<Spanned<Result<CallCallee, RNameDecodeError>>>,
    pub s7_class: S7ClassAnalysis,
}

/// The target of an assignment.
#[derive(Debug, PartialEq, Eq)]
pub enum AssignmentTarget {
    Binding(BindingName),
    Compound,
    Invalid,
    Undecodable { reason: RNameDecodeError },
}

/// The value of an assignment.
#[derive(Debug, PartialEq, Eq)]
pub enum AssignmentValue {
    Function(FunctionFact),
    Name(Spanned<Result<RName, RNameDecodeError>>),
    Call(CallFact),
    Literal,
    Other,
}

/// An assignment expression.
#[derive(Debug, PartialEq, Eq)]
pub struct AssignmentFact {
    pub operator: AssignmentOperator,
    pub target: AssignmentTarget,
    pub target_span: Span,
    pub value: AssignmentValue,
    pub value_span: Span,
}

/// The shape of a top-level expression.
#[derive(Debug, PartialEq, Eq)]
pub enum TopLevelShape {
    Assignment(AssignmentFact),
    Null,
    StringLiteral(Spanned<Result<String, RNameDecodeError>>),
    Call(CallFact),
    Other,
}

/// A top-level expression.
#[derive(Debug, PartialEq, Eq)]
pub struct TopLevelFact {
    pub span: Span,
    pub shape: TopLevelShape,
}

/// A documentation block in front of a top-level expression.
#[derive(Debug, Clone, Copy, PartialEq, Eq, Structural)]
pub struct DocumentationBlock {
    pub id: BlockId,
    pub span: Span,
}

/// A top-level expression with its documentation.
#[derive(Debug, PartialEq, Eq)]
pub struct TopLevelEntry {
    pub fact: TopLevelFact,
    pub documentation: Option<DocumentationBlock>,
}

/// The syntax facts of one file.
#[derive(Debug, PartialEq, Eq)]
pub struct ParsedFile {
    pub top_level: Vec<TopLevelEntry>,
    pub diagnostics: Diagnostics,
}

/// The author section a person is listed in.
#[derive(Debug, Clone, Copy, PartialEq, Eq, Structural)]
pub enum PersonSection {
    Maintainer,
    Author,
    OtherContributor,
}

/// One comment of a person.
#[derive(Debug, PartialEq, Eq)]
pub struct PersonComment {
    pub name: Option<String>,
    pub value: String,
}

/// One entry of an `Authors@R` field.
#[derive(Debug, PartialEq, Eq)]
pub struct Person {
    pub given: Option<String>,
    pub family: Option<String>,
    pub email: Option<String>,
    pub comment: Vec<PersonComment>,
    /// The codes of the person's roles.
    pub role: Vec<String>,
}

/// Why an `Authors@R` field could not be read.
#[derive(Debug, PartialEq, Eq)]
pub struct AuthorsParseError {
    pub message: String,
}

impl Clone for AuthorsParseError {
    fn clone(&self) -> (r: Self)
        ensures
            r == *self,
    {
        AuthorsParseError { message: self.message.clone() }
    }
}

} // verus!
