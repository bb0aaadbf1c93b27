//! Builds a file-scoped object index from syntax facts.
//!
//! This layer only associates documented blocks with the syntax facts of their
//! paired top-level expressions. It does not interpret tags or evaluate R, so
//! later layers can decide how a documented syntax shape becomes a topic.
use crate::facts::{
    share_formals, AssignmentFact, AssignmentOperator, AssignmentTarget, AssignmentValue,
    BindingName, BlockId, CallFact, Formals, ParsedFile, RName, RNameDecodeError, S7ClassAnalysis,
    S7ClassFact, S7ClassRefusal, TopLevelEntry, TopLevelFact, TopLevelShape,
};
use crate::source::{FileId, Span, Spanned};
use crate::text::same_text;
use vstd::prelude::*;

verus! {

/// The syntax-only objects documented in one source file, in source order.
#[derive(Debug, PartialEq, Eq)]
pub struct FileObjectIndex {
    /// The file whose top-level expressions produced this index.
    pub file: FileId,
    /// Documented objects in the order in which their expressions occur.
    pub documented: Vec<DocumentedObject>,
    /// Every top-level simple binding assignment, including undocumented ones.
    pub bindings: Vec<BindingFact>,
}

/// One package-local top-level binding assignment.
#[derive(Debug, PartialEq, Eq)]
pub struct BindingFact {
    /// The decoded binding name and its source spelling.
    pub name: BindingName,
    /// The assignment operator.
    pub operator: AssignmentOperator,
    /// The complete assignment span.
    pub assignment_span: Span,
    /// The function's formals when this binding directly receives a function.
    pub function_formals: Option<Formals>,
    /// The statically established category of the assigned value.
    pub value: BindingValue,
}

/// The conservative categories used by the package-local binding resolver.
#[derive(Debug, PartialEq, Eq)]
pub enum BindingValue {
    /// A direct function expression and its static generic property.
    Function {
        /// Whether the function body calls unqualified `UseMethod`.
        calls_use_method: bool,
    },
    /// A decoded simple-name alias.
    Alias(RName),
    /// A statically extracted S7 class constructor.
    S7Class(S7ClassFact),
    /// A recognized S7 class whose metadata is statically unsupported.
    S7Refused(S7ClassRefusal),
    /// A value statically known not to be a function.
    NonFunction,
    /// A value whose function-ness cannot be established without evaluation.
    Unknown,
}

/// One documented top-level expression and the syntax object it can provide.
#[derive(Debug, PartialEq, Eq)]
pub struct DocumentedObject {
    /// The file-local identity of the documentation block.
    pub block: BlockId,
    /// The source span of the documentation block.
    pub block_span: Span,
    /// The syntax-only target associated with the block.
    pub target: BlockTarget,
}

/// The supported syntax shapes of a documented top-level expression.
#[derive(Debug, PartialEq, Eq)]
pub enum BlockTarget {
    /// A simple binding assigned a function expression.
    FunctionAssignment(FunctionObject),
    /// A simple binding assigned a non-function expression.
    ValueAssignment(ValueObject),
    /// The bare `NULL` expression.
    Null {
        /// The source span of the `NULL` expression.
        span: Span,
    },
    /// A top-level string literal naming a data object.
    DataObject(DataObject),
    /// The package-level documentation sentinel.
    PackageDocumentation(PackageSentinel),
    /// A top-level call retained without interpreting its callee or arguments.
    Call(CallFact),
    /// A syntax shape that association can retain but cannot classify further.
    Refused(AssociationRefusal),
}

/// Metadata for a function assigned to a simple binding.
#[derive(Debug, PartialEq, Eq)]
pub struct FunctionObject {
    /// The binding name and its original spelling span.
    pub name: BindingName,
    /// The operator used by the assignment.
    pub operator: AssignmentOperator,
    /// The span of the complete assignment expression.
    pub assignment_span: Span,
    /// The span of the function expression on the right-hand side.
    pub value_span: Span,
    /// The function's formal parameters, or a structural extraction failure.
    pub formals: Formals,
    /// The direct function body span, when it could be identified.
    pub body_span: Option<Span>,
    /// Whether the function body calls unqualified `UseMethod`.
    pub calls_use_method: bool,
}

/// Metadata for a non-function value assigned to a simple binding.
#[derive(Debug, PartialEq, Eq)]
pub struct ValueObject {
    /// The binding name and its original spelling span.
    pub name: BindingName,
    /// The operator used by the assignment.
    pub operator: AssignmentOperator,
    /// The span of the complete assignment expression.
    pub assignment_span: Span,
    /// The span of the right-hand-side expression.
    pub value_span: Span,
    /// The syntax-only category of the non-function value.
    pub value: NonFunctionValue,
}

/// A data object named by a top-level string literal.
///
/// Data names are kept separate from [`RName`] because string literals may
/// name datasets with values that are not valid bare R binding names.
#[derive(Debug, PartialEq, Eq)]
pub struct DataObject {
    /// The decoded data name and its source span.
    pub name: Spanned<DataName>,
}

/// The decoded name of a dataset documented by a string literal.
#[derive(Debug, PartialEq, Eq, Hash)]
pub struct DataName(pub String);

impl View for DataName {
    type V = Seq<char>;

    open spec fn view(&self) -> Seq<char> {
        self.0@
    }
}

impl DataName {
    /// Returns the data name without imposing R's bare-name grammar.
    pub fn as_str(&self) -> (r: &str)
        ensures
            r@ == self@,
    {
        self.0.as_str()
    }
}

/// The source span of a recognised package-documentation sentinel.
#[derive(Debug, Clone, Copy, PartialEq, Eq, Structural)]
pub struct PackageSentinel {
    /// The source span of the `_PACKAGE` string literal.
    pub span: Span,
}

/// The non-function assignment values needed by later static processing.
#[derive(Debug, PartialEq, Eq)]
pub enum NonFunctionValue {
    /// A statically decoded name used as the right-hand side.
    Name(Spanned<Result<RName, RNameDecodeError>>),
    /// A statically extracted S7 class constructor.
    S7Class(S7ClassFact),
    /// A recognized S7 class whose metadata is statically unsupported.
    S7Refused(S7ClassRefusal),
    /// An opaque call used as the right-hand side.
    Call(CallFact),
    /// A literal value, including R's reserved constants.
    Literal,
    /// Any other non-function expression.
    Other,
}

/// A syntactic association that needs a later layer to decide whether manual
/// documentation can recover a topic from it.
#[derive(Debug, Clone, Copy, PartialEq, Eq, Structural)]
pub enum AssociationRefusal {
    /// An assignment through a replacement function or other compound target.
    CompoundAssignment {
        /// The source span of the compound target.
        target_span: Span,
    },
    /// An assignment target that R does not accept as a binding.
    InvalidAssignmentTarget {
        /// The source span of the invalid target.
        target_span: Span,
    },
    /// A binding spelling whose R escape grammar could not be decoded.
    UndecodableBinding {
        /// The source span of the undecodable target.
        target_span: Span,
        /// The reason decoding was refused.
        reason: RNameDecodeError,
    },
    /// A data-object string literal could not be decoded without R's escape
    /// grammar.
    UndecodableDataName {
        /// The source span of the string literal.
        span: Span,
        /// The reason decoding was refused.
        reason: RNameDecodeError,
    },
    /// A data-object string literal decoded to an empty name.
    EmptyDataName {
        /// The source span of the string literal.
        span: Span,
    },
    /// An expression shape for which this layer has no object model.
    UnsupportedExpression {
        /// The source span of the complete unsupported expression.
        span: Span,
    },
}

/// Whether an operator makes a package binding.
pub open spec fn binds_locally(operator: AssignmentOperator) -> bool {
    operator == AssignmentOperator::Left || operator == AssignmentOperator::Equals || operator
        == AssignmentOperator::Right
}

/// What an assigned value says about its binding.
pub open spec fn binding_value(value: AssignmentValue) -> BindingValue {
    match value {
        AssignmentValue::Function(function) => BindingValue::Function {
            calls_use_method: function.calls_use_method,
        },
        AssignmentValue::Name(name) => match name.value {
            Ok(target) => BindingValue::Alias(target),
            Err(_) => BindingValue::Unknown,
        },
        AssignmentValue::Literal => BindingValue::NonFunction,
        AssignmentValue::Call(call) => match call.s7_class {
            S7ClassAnalysis::Supported(class) => BindingValue::S7Class(class),
            S7ClassAnalysis::Refused(refusal) => BindingValue::S7Refused(refusal),
            S7ClassAnalysis::NotApplicable => BindingValue::Unknown,
        },
        AssignmentValue::Other => BindingValue::Unknown,
    }
}

/// The binding that a top-level expression makes, if it makes one.
pub open spec fn entry_binding(fact: TopLevelFact) -> Option<BindingFact> {
    match fact.shape {
        TopLevelShape::Assignment(assignment) => match assignment.target {
            AssignmentTarget::Binding(name) if binds_locally(assignment.operator) => Some(
                BindingFact {
                    name,
                    operator: assignment.operator,
                    assignment_span: fact.span,
                    function_formals: match assignment.value {
                        AssignmentValue::Function(function) => Some(function.formals),
                        _ => None,
                    },
                    value: binding_value(assignment.value),
                },
            ),
            _ => None,
        },
        _ => None,
    }
}

/// The bindings that a file makes, in source order.
pub open spec fn file_bindings(entries: Seq<TopLevelEntry>) -> Seq<BindingFact>
    decreases entries.len(),
{
    if entries.len() == 0 {
        Seq::empty()
    } else {
        let before = file_bindings(entries.drop_last());
        match entry_binding(entries.last().fact) {
            Some(binding) => before.push(binding),
            None => before,
        }
    }
}

/// The object that a documented assignment provides.
pub open spec fn assigned_target(assignment: AssignmentFact, span: Span) -> BlockTarget {
    match assignment.target {
        AssignmentTarget::Binding(name) => match assignment.value {
            AssignmentValue::Function(function) => BlockTarget::FunctionAssignment(
                FunctionObject {
                    name,
                    operator: assignment.operator,
                    assignment_span: span,
                    value_span: assignment.value_span,
                    formals: function.formals,
                    body_span: function.body_span,
                    calls_use_method: function.calls_use_method,
                },
            ),
            _ => BlockTarget::ValueAssignment(
                ValueObject {
                    name,
                    operator: assignment.operator,
                    assignment_span: span,
                    value_span: assignment.value_span,
                    value: match assignment.value {
                        AssignmentValue::Name(value) => NonFunctionValue::Name(value),
                        AssignmentValue::Call(call) => match call.s7_class {
                            S7ClassAnalysis::Supported(class) => NonFunctionValue::S7Class(class),
                            S7ClassAnalysis::Refused(refusal) => NonFunctionValue::S7Refused(
                                refusal,
                            ),
                            S7ClassAnalysis::NotApplicable => NonFunctionValue::Call(call),
                        },
                        AssignmentValue::Literal => NonFunctionValue::Literal,
                        _ => NonFunctionValue::Other,
                    },
                },
            ),
        },
        AssignmentTarget::Compound => BlockTarget::Refused(
            AssociationRefusal::CompoundAssignment { target_span: assignment.target_span },
        ),
        AssignmentTarget::Invalid => BlockTarget::Refused(
            AssociationRefusal::InvalidAssignmentTarget { target_span: assignment.target_span },
        ),
        AssignmentTarget::Undecodable { reason } => BlockTarget::Refused(
            AssociationRefusal::UndecodableBinding { target_span: assignment.target_span, reason },
        ),
    }
}

/// The object that a documented top-level expression provides.
pub open spec fn documented_target(fact: TopLevelFact) -> BlockTarget {
    match fact.shape {
        TopLevelShape::Assignment(assignment) => assigned_target(assignment, fact.span),
        TopLevelShape::Null => BlockTarget::Null { span: fact.span },
        TopLevelShape::StringLiteral(literal) => match literal.value {
            Ok(name) => if name@ == "_PACKAGE"@ {
                BlockTarget::PackageDocumentation(PackageSentinel { span: literal.span })
            } else if name@.len() == 0 {
                BlockTarget::Refused(AssociationRefusal::EmptyDataName { span: literal.span })
            } else {
                BlockTarget::DataObject(
                    DataObject { name: Spanned { value: DataName(name), span: literal.span } },
                )
            },
            Err(reason) => BlockTarget::Refused(
                AssociationRefusal::UndecodableDataName { span: literal.span, reason },
            ),
        },
        TopLevelShape::Call(call) => BlockTarget::Call(call),
        TopLevelShape::Other => BlockTarget::Refused(
            AssociationRefusal::UnsupportedExpression { span: fact.span },
        ),
    }
}

/// The documented objects of a file, in source order.
pub open spec fn file_objects(entries: Seq<TopLevelEntry>) -> Seq<DocumentedObject>
    decreases entries.len(),
{
    if entries.len() == 0 {
        Seq::empty()
    } else {
        let before = file_objects(entries.drop_last());
        match entries.last().documentation {
            Some(block) => before.push(
                DocumentedObject {
                    block: block.id,
                    block_span: block.span,
                    target: documented_target(entries.last().fact),
                },
            ),
            None => before,
        }
    }
}

/// Builds the object index for one file from its syntax facts.
///
/// Documentation entries are retained separately from all simple bindings.
/// Parse diagnostics are deliberately not converted or re-emitted here: this
/// layer creates no diagnostics and only projects syntax facts into object IR.
pub fn build_object_index(parsed: ParsedFile, file: FileId) -> (r: FileObjectIndex)
    ensures
        r.file == file,
        r.documented@ == file_objects(parsed.top_level@),
        r.bindings@ == file_bindings(parsed.top_level@),
{
    let mut documented: Vec<DocumentedObject> = Vec::new();
    let mut bindings: Vec<BindingFact> = Vec::new();
    let ghost entries = parsed.top_level@;
    for entry in it: parsed.top_level
        invariant
            it.seq() == entries,
            documented@ == file_objects(entries.take(it.index() as int)),
            bindings@ == file_bindings(entries.take(it.index() as int)),
    {
        proof {
            let prefix = entries.take(it.index() + 1);
            assert(prefix.drop_last() =~= entries.take(it.index() as int));
            assert(prefix.last() == entry);
        }
        if let Some(binding) = binding_fact(&entry.fact) {
            bindings.push(binding);
        }
        if let Some(block) = entry.documentation {
            documented.push(
                DocumentedObject {
                    block: block.id,
                    block_span: block.span,
                    target: block_target(entry.fact),
                },
            );
        }
    }
    proof {
        assert(entries.take(entries.len() as int) =~= entries);
    }
    FileObjectIndex { file, documented, bindings }
}

/// The binding that a top-level expression makes.
fn binding_fact(fact: &TopLevelFact) -> (r: Option<BindingFact>)
    ensures
        r == entry_binding(*fact),
{
    let TopLevelShape::Assignment(assignment) = &fact.shape else {
        return None;
    };
    let AssignmentTarget::Binding(name) = &assignment.target else {
        return None;
    };
    if !matches!(
        assignment.operator,
        AssignmentOperator::Left | AssignmentOperator::Equals | AssignmentOperator::Right
    ) {
        return None;
    }
    let function_formals: Option<Formals> = match &assignment.value {
        AssignmentValue::Function(function) => Some(share_formals(&function.formals)),
        _ => None,
    };
    let value: BindingValue = match &assignment.value {
        AssignmentValue::Function(function) => BindingValue::Function {
            calls_use_method: function.calls_use_method,
        },
        AssignmentValue::Name(target) => match &target.value {
            Ok(target) => BindingValue::Alias(target.clone()),
            Err(_) => BindingValue::Unknown,
        },
        AssignmentValue::Literal => BindingValue::NonFunction,
        AssignmentValue::Call(call) => match &call.s7_class {
            S7ClassAnalysis::Supported(class) => BindingValue::S7Class(class.clone()),
            S7ClassAnalysis::Refused(refusal) => BindingValue::S7Refused(*refusal),
            S7ClassAnalysis::NotApplicable => BindingValue::Unknown,
        },
        AssignmentValue::Other => BindingValue::Unknown,
    };
    Some(
        BindingFact {
            name: name.clone(),
            operator: assignment.operator,
            assignment_span: fact.span,
            function_formals,
            value,
        },
    )
}

/// The object that a documented top-level expression provides.
fn block_target(fact: TopLevelFact) -> (r: BlockTarget)
    ensures
        r == documented_target(fact),
{
    let TopLevelFact { span, shape } = fact;
    match shape {
        TopLevelShape::Assignment(assignment) => assignment_target(assignment, span),
        TopLevelShape::Null => BlockTarget::Null { span },
        TopLevelShape::StringLiteral(literal) => {
            let Spanned { value, span } = literal;
            match value {
                Ok(name) => if same_text(name.as_str(), "_PACKAGE") {
                    BlockTarget::PackageDocumentation(PackageSentinel { span })
                } else if name.as_str().is_empty() {
                    BlockTarget::Refused(AssociationRefusal::EmptyDataName { span })
                } else {
                    BlockTarget::DataObject(DataObject { name: Spanned::new(DataName(name), span) })
                },
                Err(reason) => BlockTarget::Refused(
                    AssociationRefusal::UndecodableDataName { span, reason },
                ),
            }
        },
        TopLevelShape::Call(call) => BlockTarget::Call(call),
        TopLevelShape::Other => BlockTarget::Refused(
            AssociationRefusal::UnsupportedExpression { span },
        ),
    }
}

/// The object that a documented assignment provides.
fn assignment_target(assignment: AssignmentFact, assignment_span: Span) -> (r: BlockTarget)
    ensures
        r == assigned_target(assignment, assignment_span),
{
    let AssignmentFact { operator, target, target_span, value, value_span } = assignment;
    match target {
        AssignmentTarget::Binding(name) => {
            let value: NonFunctionValue = match value {
                AssignmentValue::Function(function) => {
                    return BlockTarget::FunctionAssignment(
                        FunctionObject {
                            name,
                            operator,
                            assignment_span,
                            value_span,
                            formals: function.formals,
                            body_span: function.body_span,
                            calls_use_method: function.calls_use_method,
                        },
                    );
                },
                AssignmentValue::Name(value) => NonFunctionValue::Name(value),
                AssignmentValue::Call(call) => match &call.s7_class {
                    S7ClassAnalysis::Supported(class) => NonFunctionValue::S7Class(class.clone()),
                    S7ClassAnalysis::Refused(refusal) => NonFunctionValue::S7Refused(*refusal),
                    S7ClassAnalysis::NotApplicable => NonFunctionValue::Call(call),
                },
                AssignmentValue::Literal => NonFunctionValue::Literal,
                AssignmentValue::Other => NonFunctionValue::Other,
            };
            BlockTarget::ValueAssignment(
                ValueObject { name, operator, assignment_span, value_span, value },
            )
        },
        AssignmentTarget::Compound => BlockTarget::Refused(
            AssociationRefusal::CompoundAssignment { target_span },
        ),
        AssignmentTarget::Invalid => BlockTarget::Refused(
            AssociationRefusal::InvalidAssignmentTarget { target_span },
        ),
        AssignmentTarget::Undecodable { reason } => BlockTarget::Refused(
            AssociationRefusal::UndecodableBinding { target_span, reason },
        ),
    }
}

} // verus!
