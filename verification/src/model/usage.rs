//! Resolves usage tags and statically generated function usage.
//!
//! Usage has its own provenance variants and generation errors, so keeping it
//! separate lets merge logic only decide when resolution should occur.
use crate::facts::{share_formals, CallCallee, CallFact, Formal, Formals, S7ClassFact};
use crate::r_parse::{BlockTarget, FunctionObject, NonFunctionValue, ValueObject};
use crate::source::{SourceMap, Span};
use crate::tags::{ParamName, TagValue, UsageDirective};
use crate::text::same_text;
use crate::usage::{
    data_usage, function_usage, generate_function_usage, r_spelling, GeneratedUsage, UsageError,
};
use vstd::prelude::*;

use super::ir::{FormalName, FormalNames, FormalSummary, ResolvedUsage};
use super::lookup::opt_value;
use super::view::ResolvedView;

verus! {

/// The names of formals, or the first one that cannot be decoded, from a
/// position on.
pub open spec fn decoded_formals(formals: Seq<Formal>, count: int) -> FormalSummary
    decreases count,
{
    if count <= 0 {
        FormalSummary::Known(Seq::empty())
    } else {
        match decoded_formals(formals, count - 1) {
            FormalSummary::Known(before) => match formals[count - 1].name.value {
                Ok(name) => FormalSummary::Known(
                    before.push(
                        FormalName {
                            name: ParamName(name.text),
                            span: formals[count - 1].name.span,
                        },
                    ),
                ),
                Err(_) => FormalSummary::Undecodable { span: formals[count - 1].name.span },
            },
            failed => failed,
        }
    }
}

/// The formal names of a function.
pub open spec fn function_formals(formals: Formals, fallback_span: Span) -> FormalSummary {
    match formals {
        Ok(list) => decoded_formals(list@, list@.len() as int),
        Err(_) => FormalSummary::Unknown { span: fallback_span },
    }
}

/// An undecodable formal decides the whole list.
proof fn undecodable_stays(formals: Seq<Formal>, i: int, count: int)
    requires
        0 <= i <= count <= formals.len(),
        decoded_formals(formals, i) is Undecodable,
    ensures
        decoded_formals(formals, count) == decoded_formals(formals, i),
    decreases count - i,
{
    if i < count {
        undecodable_stays(formals, i, count - 1);
    }
}

/// Reads the formal names of a function.
pub fn formal_names_from_formals(formals: &Formals, fallback_span: Span) -> (r: FormalNames)
    ensures
        r@ == function_formals(*formals, fallback_span),
{
    let list = match formals {
        Ok(list) => list,
        Err(_) => {
            return FormalNames::Unknown { span: fallback_span };
        },
    };
    let mut names: Vec<FormalName> = Vec::new();
    let mut i: usize = 0;
    while i < list.len()
        invariant
            i <= list@.len(),
            *formals == Ok::<std::sync::Arc<Vec<Formal>>, crate::facts::FormalError>(*list),
            decoded_formals(list@, i as int) == FormalSummary::Known(names@),
        decreases list@.len() - i,
    {
        let formal = &list[i];
        match &formal.name.value {
            Ok(name) => {
                names.push(
                    FormalName { name: ParamName(name.text.clone()), span: formal.name.span },
                );
            },
            Err(_) => {
                proof {
                    undecodable_stays(list@, i + 1, list@.len() as int);
                }
                return FormalNames::Undecodable { span: formal.name.span };
            },
        }
        i = i + 1;
    }
    FormalNames::Known(names)
}

/// Whether an assigned value can stand for an S7 class constructor.
pub open spec fn may_construct(value: NonFunctionValue) -> bool {
    value is Name || value is S7Class || value is S7Refused
}

/// The formal names of a documented object.
pub open spec fn target_formals(
    target: BlockTarget,
    s7_class: Option<S7ClassFact>,
    alias_formals: Option<FormalSummary>,
) -> FormalSummary {
    match target {
        BlockTarget::FunctionAssignment(function) => function_formals(
            function.formals,
            function.value_span,
        ),
        BlockTarget::ValueAssignment(value) => match s7_class {
            Some(class) if may_construct(value.value) => function_formals(
                class.constructor.formals,
                class.class_name.span,
            ),
            _ => match (value.value, alias_formals) {
                (NonFunctionValue::Name(_), Some(names)) => names,
                _ => FormalSummary::NotFunction,
            },
        },
        _ => FormalSummary::NotFunction,
    }
}

/// The model of optional formal names.
pub open spec fn opt_summary(names: Option<FormalNames>) -> Option<FormalSummary> {
    match names {
        Some(names) => Some(names@),
        None => None,
    }
}

/// Reads the formal names of a documented object.
pub fn resolve_formal_names(
    target: &BlockTarget,
    s7_class: Option<&S7ClassFact>,
    alias_formals: Option<FormalNames>,
) -> (r: FormalNames)
    ensures
        r@ == target_formals(*target, opt_value(s7_class), opt_summary(alias_formals)),
{
    match target {
        BlockTarget::FunctionAssignment(function) => formal_names_from_formals(
            &function.formals,
            function.value_span,
        ),
        BlockTarget::ValueAssignment(value) => {
            let constructs: bool = matches!(
                value.value,
                NonFunctionValue::Name(_) | NonFunctionValue::S7Class(_) | NonFunctionValue::S7Refused(_)
            );
            if let Some(class) = s7_class {
                if constructs {
                    return formal_names_from_formals(
                        &class.constructor.formals,
                        class.class_name.span,
                    );
                }
            }
            match (&value.value, alias_formals) {
                (NonFunctionValue::Name(_), Some(names)) => names,
                _ => FormalNames::NotFunction,
            }
        },
        _ => FormalNames::NotFunction,
    }
}

/// Whether a call is `base::new.env` or `base:::new.env`.
pub open spec fn makes_environment(call: CallFact) -> bool {
    match call.callee {
        Some(callee) => match callee.value {
            Ok(CallCallee::Namespace { package, name, .. }) => package@ == "base"@ && name@
                == "new.env"@,
            _ => false,
        },
        None => false,
    }
}

/// Whether a call is known to make a value that is not a function.
fn is_known_non_function_constructor(call: &CallFact) -> (r: bool)
    ensures
        r == makes_environment(*call),
{
    match &call.callee {
        Some(callee) => match &callee.value {
            Ok(CallCallee::Namespace { package, name, .. }) => same_text(package.as_str(), "base")
                && same_text(name.as_str(), "new.env"),
            _ => false,
        },
        None => false,
    }
}

/// A value that stands for a function, seen as that function.
pub open spec fn as_function(value: ValueObject, formals: Formals) -> FunctionObject {
    FunctionObject {
        name: value.name,
        operator: value.operator,
        assignment_span: value.assignment_span,
        value_span: value.value_span,
        formals,
        body_span: None,
        calls_use_method: false,
    }
}

/// The usage of a function, when it can be generated.
pub open spec fn usage_of(function: FunctionObject, sources: SourceMap) -> Result<
    Option<Seq<char>>,
    UsageError,
> {
    match function_usage(function, sources) {
        Ok(text) => Ok(Some(text)),
        Err(error) => Err(error),
    }
}

/// The usage that a documented object generates.
pub open spec fn target_usage(
    target: BlockTarget,
    sources: SourceMap,
    s7_class: Option<S7ClassFact>,
    alias_formals: Option<Formals>,
    lazy_data: bool,
) -> Result<Option<Seq<char>>, UsageError> {
    match target {
        BlockTarget::DataObject(data) => Ok(Some(data_usage(data.name.value@, lazy_data))),
        BlockTarget::FunctionAssignment(function) => usage_of(function, sources),
        BlockTarget::ValueAssignment(value) => match value.value {
            NonFunctionValue::Name(_) => match (alias_formals, s7_class) {
                (Some(formals), _) => usage_of(as_function(value, formals), sources),
                (None, Some(class)) => usage_of(
                    as_function(value, class.constructor.formals),
                    sources,
                ),
                (None, None) => Ok(None),
            },
            NonFunctionValue::S7Class(_) | NonFunctionValue::S7Refused(_) => match s7_class {
                Some(class) => usage_of(as_function(value, class.constructor.formals), sources),
                None => Ok(None),
            },
            NonFunctionValue::Call(call) => if makes_environment(call) {
                Ok(Some(r_spelling(value.name.canonical@)))
            } else {
                Ok(None)
            },
            _ => Ok(None),
        },
        _ => Ok(None),
    }
}

/// The model of a usage result.
pub open spec fn optional_usage_view(r: Result<Option<GeneratedUsage>, UsageError>) -> Result<
    Option<Seq<char>>,
    UsageError,
> {
    match r {
        Ok(Some(usage)) => Ok(Some(usage@)),
        Ok(None) => Ok(None),
        Err(error) => Err(error),
    }
}

/// Generates the usage of a function.
fn function_result(function: &FunctionObject, sources: &SourceMap) -> (r: Result<
    Option<GeneratedUsage>,
    UsageError,
>)
    ensures
        optional_usage_view(r) == usage_of(*function, *sources),
{
    match generate_function_usage(function, sources) {
        Ok(usage) => Ok(Some(usage)),
        Err(error) => Err(error),
    }
}

/// Sees a value as a function.
fn view_as_function(value: &ValueObject, formals: &Formals) -> (r: FunctionObject)
    ensures
        r == as_function(*value, *formals),
{
    FunctionObject {
        name: value.name.clone(),
        operator: value.operator,
        assignment_span: value.assignment_span,
        value_span: value.value_span,
        formals: share_formals(formals),
        body_span: None,
        calls_use_method: false,
    }
}

/// Generates the usage of a documented object.
pub fn resolve_usage(
    target: &BlockTarget,
    sources: &SourceMap,
    s7_class: Option<&S7ClassFact>,
    alias_formals: Option<&Formals>,
    lazy_data: bool,
) -> (r: Result<Option<GeneratedUsage>, UsageError>)
    ensures
        optional_usage_view(r) == target_usage(
            *target,
            *sources,
            opt_value(s7_class),
            opt_value(alias_formals),
            lazy_data,
        ),
{
    match target {
        BlockTarget::DataObject(data) => Ok(
            Some(GeneratedUsage::data(data.name.value.as_str(), lazy_data)),
        ),
        BlockTarget::FunctionAssignment(function) => function_result(function, sources),
        BlockTarget::ValueAssignment(value) => match &value.value {
            NonFunctionValue::Name(_) => match (alias_formals, s7_class) {
                (Some(formals), _) => function_result(&view_as_function(value, formals), sources),
                (None, Some(class)) => function_result(
                    &view_as_function(value, &class.constructor.formals),
                    sources,
                ),
                (None, None) => Ok(None),
            },
            NonFunctionValue::S7Class(_) | NonFunctionValue::S7Refused(_) => match s7_class {
                Some(class) => function_result(
                    &view_as_function(value, &class.constructor.formals),
                    sources,
                ),
                None => Ok(None),
            },
            NonFunctionValue::Call(call) => if is_known_non_function_constructor(call) {
                Ok(Some(GeneratedUsage::object(value.name.canonical.as_str())))
            } else {
                Ok(None)
            },
            _ => Ok(None),
        },
        _ => Ok(None),
    }
}

/// The usage that a `@usage` tag states.
pub open spec fn stated_usage(value: TagValue<UsageDirective>) -> ResolvedView {
    match value.value {
        UsageDirective::SuppressGenerated => ResolvedView::Suppressed(value.origin),
        UsageDirective::Explicit(source) => ResolvedView::Explicit(
            TagValue { value: source, origin: value.origin },
        ),
    }
}

/// Reads the usage that a `@usage` tag states.
pub fn resolve_explicit_usage(value: &TagValue<UsageDirective>) -> (r: ResolvedUsage)
    ensures
        r@ == stated_usage(*value),
{
    match &value.value {
        UsageDirective::SuppressGenerated => ResolvedUsage::Suppressed(value.origin.clone()),
        UsageDirective::Explicit(source) => ResolvedUsage::Explicit(
            TagValue { value: source.clone(), origin: value.origin.clone() },
        ),
    }
}

} // verus!
