//! Laws of the usage of values, and of S3 methods among usages.
use crate::facts::{CallFact, Formals, S7ClassFact};
use crate::inherit::{
    ComposedDocumentationProvider, DocumentationError, DocumentationProvider, TopicRequest,
};
use crate::model::ir::FormalSummary;
use crate::model::usage::{function_formals, target_formals, target_usage};
use crate::model::view::{TopicView, UsageView};
use crate::namespace::s3::{analysis, classified_topics, classified_usage, S3Facts};
use crate::r_parse::{BlockTarget, FunctionObject, NonFunctionValue, ValueObject};
use crate::source::SourceMap;
use crate::usage::{function_usage, r_spelling};
use vstd::prelude::*;

verus! {

/// The function that a value would be with given formals.
pub open spec fn function_like(value: ValueObject, formals: Formals) -> FunctionObject {
    FunctionObject {
        name: value.name,
        operator: value.operator,
        assignment_span: value.assignment_span,
        value_span: value.value_span,
        formals,
        body_span: None,
        calls_use_method: false,
    }
}

/// A copy of a function has the usage of a function with its own name and the formals of the
/// copied one; a class, and a copy of one, has that of its constructor. An environment is shown
/// by its name; other values have no usage.
pub proof fn values_have_usage(
    value: ValueObject,
    sources: SourceMap,
    class: Option<S7ClassFact>,
    copied: Option<Formals>,
    lazy: bool,
)
    ensures
        ({
            let usage = target_usage(
                BlockTarget::ValueAssignment(value),
                sources,
                class,
                copied,
                lazy,
            );
            let shown = |formals: Formals|
                match function_usage(function_like(value, formals), sources) {
                    Ok(text) => usage matches Ok(found) && found == Some(text),
                    Err(error) => usage matches Err(found) && found == error,
                };
            let constructs = value.value is S7Class || value.value is S7Refused;
            &&& value.value is Name && copied is Some ==> shown(copied->0)
            &&& value.value is Name && copied is None && class is Some ==> shown(
                class->0.constructor.formals,
            )
            &&& constructs && class is Some ==> shown(class->0.constructor.formals)
            &&& (constructs || (value.value is Name && copied is None)) && class is None ==> (usage
                matches Ok(found) && found is None)
            &&& !constructs && !(value.value is Name) && !(value.value is Call) ==> (usage
                matches Ok(found) && found is None)
        }),
{
}

/// A call of `base::new.env()` makes an environment, which is shown by its name. Any other call
/// has no usage.
pub proof fn environments_are_shown_by_name(
    value: ValueObject,
    call: CallFact,
    sources: SourceMap,
    class: Option<S7ClassFact>,
    copied: Option<Formals>,
    lazy: bool,
)
    requires
        value.value == NonFunctionValue::Call(call),
    ensures
        ({
            let usage = target_usage(
                BlockTarget::ValueAssignment(value),
                sources,
                class,
                copied,
                lazy,
            );
            let named = call.callee is Some && call.callee->0.value is Ok
                && call.callee->0.value->Ok_0 is Namespace;
            let makes = named && call.callee->0.value->Ok_0->package@ == "base"@
                && call.callee->0.value->Ok_0->Namespace_name@ == "new.env"@;
            &&& makes ==> (usage matches Ok(found) && found == Some(
                r_spelling(value.name.canonical@),
            ))
            &&& !makes ==> (usage matches Ok(found) && found is None)
        }),
{
}

/// A value has the formals of what it copies, or of the constructor of its class. Data, calls and
/// other values are no functions.
pub proof fn values_have_formals(
    value: ValueObject,
    class: Option<S7ClassFact>,
    copied: Option<FormalSummary>,
)
    ensures
        ({
            let formals = target_formals(BlockTarget::ValueAssignment(value), class, copied);
            let constructs = value.value is Name || value.value is S7Class || value.value
                is S7Refused;
            &&& constructs && class is Some ==> formals == function_formals(
                class->0.constructor.formals,
                class->0.class_name.span,
            )
            &&& value.value is Name && class is None && copied is Some ==> formals == copied->0
            &&& !constructs ==> formals is NotFunction
            &&& class is None && copied is None ==> formals is NotFunction
        }),
{
}

/// A generated usage of an S3 method that declares none gets the generic and the class of its
/// name. Any other usage stays as it is.
pub proof fn methods_are_found_among_usages(facts: S3Facts, usage: UsageView)
    ensures
        ({
            let after = classified_usage(facts, usage);
            let open = usage.method is None && usage.usage is Generated && usage.object is Some;
            &&& after.block == usage.block
            &&& after.object == usage.object
            &&& after.usage == usage.usage
            &&& !open ==> after == usage
            &&& open && !(analysis(facts, usage.object->0@) is S3Method) ==> after == usage
            &&& open && analysis(facts, usage.object->0@) is S3Method ==> {
                &&& after.method is Some
                &&& after.method->0.generic == analysis(facts, usage.object->0@)->generic
                &&& after.method->0.class == analysis(facts, usage.object->0@)->class
                &&& after.method->0.generic_span == usage.block_span
                &&& after.method->0.class_span == usage.block_span
            }
        }),
{
}

/// Looking for methods changes usages only: every topic stays, with all its usages.
pub proof fn all_topics_are_searched(
    facts: S3Facts,
    topics: Map<Seq<char>, TopicView>,
    key: Seq<char>,
    i: int,
)
    ensures
        classified_topics(facts, topics).dom() == topics.dom(),
        topics.dom().contains(key) ==> ({
            let before = topics[key];
            let after = classified_topics(facts, topics)[key];
            &&& after.usages.len() == before.usages.len()
            &&& 0 <= i < before.usages.len() ==> after.usages[i] == classified_usage(
                facts,
                before.usages[i],
            )
            &&& after.params == before.params
            &&& after.aliases == before.aliases
            &&& after.keywords == before.keywords
            &&& after.blocks == before.blocks
            &&& after.formals == before.formals
            &&& after.kind == before.kind
            &&& after.name == before.name
        }),
{
    assert(classified_topics(facts, topics).dom() =~= topics.dom());
}

/// Of two providers together, the first answers what is asked of the package itself, the second
/// what is asked of others and whether a topic exists.
pub proof fn providers_share_the_work<
    T,
    A: DocumentationProvider<Topic = T>,
    B: DocumentationProvider<Topic = T>,
>(
    local: A,
    external: B,
    request: TopicRequest,
    result: Result<Option<T>, DocumentationError>,
    package: Seq<char>,
    alias: Seq<char>,
)
    ensures
        ({
            let both = ComposedDocumentationProvider { local: &local, external: &external };
            &&& request is Local ==> (both.answers(request, result) <==> local.answers(
                request,
                result,
            ))
            &&& request is External ==> (both.answers(request, result) <==> external.answers(
                request,
                result,
            ))
            &&& both.existence(package, alias) == external.existence(package, alias)
        }),
{
}

} // verus!
