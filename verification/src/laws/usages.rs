//! Laws of generated usage and of formals.
use crate::facts::Formal;
use crate::model::ir::{
    merged_formal_names, names_formal, unique_formals, FormalContribution, FormalName, FormalNames,
    FormalSummary,
};
use crate::model::merge::bindings::{
    followed_formals, matching_registrations, names_function, registered_name, registration_reports,
};
use crate::model::merge::contribution::{block_method, block_usage, usage_reports, ContextView};
use crate::model::ir::{DocumentedBlock, MethodDeclaration};
use crate::model::usage::{decoded_formals, function_formals};
use crate::model::view::ResolvedView;
use crate::namespace::s3::is_only_binding;
use crate::r_parse::{BindingFact, BlockTarget, FunctionObject};
use crate::s3_register::S3RegistrationFact;
use crate::source::SourceMap;
use crate::tags::{ParsedTag, UsageDirective};
use crate::usage::{
    code_state, comma_joined, data_usage, formal_usages, function_usage, r_spelling, UsageError,
};
use vstd::prelude::*;

use super::block_merging::{first_tags_count, has_none, is_first};

verus! {

/// Texts with a comma and a blank between each two.
pub open spec fn listed(texts: Seq<Seq<char>>) -> Seq<char>
    decreases texts.len(),
{
    if texts.len() == 0 {
        Seq::empty()
    } else if texts.len() == 1 {
        texts[0]
    } else {
        texts[0] + seq![',', ' '] + listed(texts.drop_first())
    }
}

proof fn joined_from_the_front(texts: Seq<Seq<char>>)
    ensures
        comma_joined(texts) == listed(texts),
    decreases texts.len(),
{
    reveal_strlit(", ");
    assert(", "@ =~= seq![',', ' ']);
    if texts.len() == 2 {
        assert(texts.drop_last() =~= seq![texts[0]]);
        assert(texts.drop_first() =~= seq![texts[1]]);
        assert(comma_joined(seq![texts[0]]) == texts[0]);
        assert(listed(seq![texts[1]]) == texts[1]);
        assert(comma_joined(texts) == texts[0] + ", "@ + texts[1]);
        assert(comma_joined(texts) =~= listed(texts));
    } else if texts.len() > 2 {
        let front = texts.drop_last();
        joined_from_the_front(front);
        joined_from_the_front(texts.drop_first());
        joined_from_the_front(front.drop_first());
        assert(front.drop_first() =~= texts.drop_first().drop_last());
        assert(comma_joined(texts.drop_first()) == comma_joined(texts.drop_first().drop_last())
            + ", "@ + texts.last());
        assert(comma_joined(texts) =~= listed(texts));
    }
}

/// Whether a text is how a formal is shown: its name as R code, and its default behind an
/// equals sign as the source spells it.
pub open spec fn shows_formal(formal: Formal, sources: SourceMap, text: Seq<char>) -> bool {
    &&& formal.name.value is Ok
    &&& match formal.default {
        None => text == r_spelling(formal.name.value->Ok_0@),
        Some(span) => {
            &&& sources.text_at(span) is Some
            &&& !(code_state(sources.text_at(span)->0) is Comment)
            &&& text == r_spelling(formal.name.value->Ok_0@) + seq![' ', '=', ' ']
                + sources.text_at(span)->0
        },
    }
}

proof fn formals_are_shown(formals: Seq<Formal>, sources: SourceMap, texts: Seq<Seq<char>>)
    requires
        texts.len() == formals.len(),
        forall|i: int| 0 <= i < formals.len() ==> shows_formal(#[trigger] formals[i], sources, texts[i]),
    ensures
        formal_usages(formals, sources) == Ok::<Seq<Seq<char>>, UsageError>(texts),
    decreases formals.len(),
{
    reveal_strlit(" = ");
    assert(" = "@ =~= seq![' ', '=', ' ']);
    if formals.len() == 0 {
        assert(texts =~= Seq::empty());
    } else {
        assert forall|i: int| 0 <= i < formals.len() - 1 implies shows_formal(
            #[trigger] formals.drop_last()[i],
            sources,
            texts.drop_last()[i],
        ) by {
            assert(shows_formal(formals[i], sources, texts[i]));
        }
        formals_are_shown(formals.drop_last(), sources, texts.drop_last());
        assert(shows_formal(formals[formals.len() - 1], sources, texts[texts.len() - 1]));
        assert(texts =~= texts.drop_last().push(texts.last()));
    }
}

/// The usage of a function is its name and its formals between parentheses, all of them in
/// their order, with a comma and a blank between each two.
pub proof fn usage_lists_all_formals(
    function: FunctionObject,
    sources: SourceMap,
    texts: Seq<Seq<char>>,
)
    requires
        function.formals is Ok,
        texts.len() == function.formals->Ok_0@.len(),
        forall|i: int|
            0 <= i < texts.len() ==> shows_formal(
                #[trigger] function.formals->Ok_0@[i],
                sources,
                texts[i],
            ),
        !(seq!['<', '-'].is_suffix_of(function.name.canonical@)),
    ensures
        function_usage(function, sources) == Ok::<Seq<char>, UsageError>(
            r_spelling(function.name.canonical@) + seq!['('] + listed(texts) + seq![')'],
        ),
{
    reveal_strlit("<-");
    reveal_strlit("(");
    reveal_strlit(")");
    assert("<-"@ =~= seq!['<', '-']);
    assert("("@ =~= seq!['(']);
    assert(")"@ =~= seq![')']);
    formals_are_shown(function.formals->Ok_0@, sources, texts);
    joined_from_the_front(texts);
}

/// A replacement function is shown as an assignment of its last formal to a call with the
/// others.
pub proof fn replacements_are_shown_as_assignments(
    function: FunctionObject,
    sources: SourceMap,
    base: Seq<char>,
    texts: Seq<Seq<char>>,
)
    requires
        function.formals is Ok,
        texts.len() == function.formals->Ok_0@.len(),
        texts.len() > 0,
        forall|i: int|
            0 <= i < texts.len() ==> shows_formal(
                #[trigger] function.formals->Ok_0@[i],
                sources,
                texts[i],
            ),
        function.name.canonical@ == base + seq!['<', '-'],
    ensures
        function_usage(function, sources) == Ok::<Seq<char>, UsageError>(
            r_spelling(base) + seq!['('] + listed(texts.drop_last()) + seq![')', ' ', '<', '-', ' ']
                + texts.last(),
        ),
{
    reveal_strlit("<-");
    reveal_strlit("(");
    reveal_strlit(") <- ");
    assert("<-"@ =~= seq!['<', '-']);
    assert("("@ =~= seq!['(']);
    assert(") <- "@ =~= seq![')', ' ', '<', '-', ' ']);
    formals_are_shown(function.formals->Ok_0@, sources, texts);
    joined_from_the_front(texts.drop_last());
    let name = function.name.canonical@;
    assert(name.take(base.len() as int) =~= base);
    assert(name.skip(base.len() as int) =~= "<-"@);
}

/// The first formal that cannot be shown is the error of the usage: one whose name cannot be
/// decoded, whose default cannot be read, or whose default holds a comment.
pub proof fn the_first_bad_formal_is_reported(
    formals: Seq<Formal>,
    sources: SourceMap,
    texts: Seq<Seq<char>>,
    i: int,
)
    requires
        0 <= i < formals.len(),
        texts.len() == i,
        forall|k: int| 0 <= k < i ==> shows_formal(#[trigger] formals[k], sources, texts[k]),
    ensures
        formals[i].name.value matches Err(reason) ==> formal_usages(formals, sources) == Err::<
            Seq<Seq<char>>,
            UsageError,
        >(UsageError::UndecodableFormalName { span: formals[i].name.span, reason }),
        formals[i].name.value is Ok && formals[i].default is Some && sources.text_at(
            formals[i].default->0,
        ) is None ==> formal_usages(formals, sources) == Err::<Seq<Seq<char>>, UsageError>(
            UsageError::UnresolvableSourceSpan { span: formals[i].default->0 },
        ),
        formals[i].name.value is Ok && formals[i].default is Some && sources.text_at(
            formals[i].default->0,
        ) is Some && code_state(sources.text_at(formals[i].default->0)->0) is Comment
            ==> formal_usages(formals, sources) == Err::<Seq<Seq<char>>, UsageError>(
            UsageError::UnsafeDefaultComment { span: formals[i].default->0 },
        ),
    decreases formals.len(),
{
    if i < formals.len() - 1 {
        assert forall|k: int| 0 <= k < i implies shows_formal(
            #[trigger] formals.drop_last()[k],
            sources,
            texts[k],
        ) by {
            assert(shows_formal(formals[k], sources, texts[k]));
        }
        the_first_bad_formal_is_reported(formals.drop_last(), sources, texts, i);
    } else {
        assert forall|k: int| 0 <= k < i implies shows_formal(
            #[trigger] formals.drop_last()[k],
            sources,
            texts[k],
        ) by {
            assert(shows_formal(formals[k], sources, texts[k]));
        }
        formals_are_shown(formals.drop_last(), sources, texts);
    }
}

/// A comment in R code begins at the first number sign outside strings and quoted names: code
/// without a number sign has none, and what follows a comment stays in it.
pub proof fn comments_begin_at_number_signs(code: Seq<char>, more: Seq<char>)
    ensures
        !code.contains('#') ==> !(code_state(code) is Comment),
        code_state(code) is Comment ==> code_state(code + more) is Comment,
        code_state(code) is Code ==> code_state(code.push('#')) is Comment,
        code_state(code) is Quoted ==> !(code_state(code.push('#')) is Comment),
        code_state(Seq::empty()) is Code,
    decreases code.len() + more.len(),
{
    assert(code.push('#').drop_last() =~= code);
    if code.len() > 0 && !code.contains('#') {
        comments_begin_at_number_signs(code.drop_last(), Seq::empty());
        assert(code.contains(code.last()));
        assert forall|i: int| 0 <= i < code.len() - 1 implies code.drop_last()[i] != '#' by {
            assert(code.contains(code[i]));
        }
    }
    if more.len() == 0 {
        assert(code + more =~= code);
    } else {
        comments_begin_at_number_signs(code, more.drop_last());
        assert((code + more).drop_last() =~= code + more.drop_last());
    }
}

/// Data is shown by its name where data is loaded lazily, else by the call that loads it.
pub proof fn data_is_shown(name: Seq<char>)
    ensures
        data_usage(name, true) == r_spelling(name),
        data_usage(name, false) == seq!['d', 'a', 't', 'a', '('] + r_spelling(name) + seq![')'],
{
    reveal_strlit("data(");
    reveal_strlit(")");
    assert("data("@ =~= seq!['d', 'a', 't', 'a', '(']);
    assert(")"@ =~= seq![')']);
}

/// A stated usage stands for the generated one: the first `@usage` of a block is its usage, or
/// suppresses it, and nothing is reported of the object.
pub proof fn stated_usage_counts(context: ContextView, block: DocumentedBlock, i: int)
    requires
        is_first(block.tags@, i, |tag: ParsedTag| tag is Usage),
    ensures
        ({
            let tag = block.tags@[i]->Usage_0;
            &&& usage_reports(context, block).len() == 0
            &&& tag.value is SuppressGenerated ==> block_usage(context, block)
                == ResolvedView::Suppressed(tag.origin)
            &&& tag.value matches UsageDirective::Explicit(text) ==> (block_usage(context, block)
                matches ResolvedView::Explicit(stated) && stated.value == text && stated.origin
                == tag.origin)
        }),
{
    first_tags_count(block.tags@, i);
}

/// A block without `@usage` has the usage that its object generates: that of a function or of
/// data. A usage that cannot be generated is absent and reported.
pub proof fn objects_generate_usage(context: ContextView, block: DocumentedBlock)
    requires
        has_none(block.tags@, |tag: ParsedTag| tag is Usage),
    ensures
        block.target matches BlockTarget::FunctionAssignment(function) ==> match function_usage(
            function,
            context.sources,
        ) {
            Ok(text) => block_usage(context, block) == ResolvedView::Generated(text)
                && usage_reports(context, block).len() == 0,
            Err(_) => block_usage(context, block) is Absent && usage_reports(context, block).len()
                == 1,
        },
        block.target matches BlockTarget::DataObject(data) ==> block_usage(context, block)
            == ResolvedView::Generated(data_usage(data.name.value@, context.lazy_data)),
        block.target is Null || block.target is Call || block.target is Refused ==> block_usage(
            context,
            block,
        ) is Absent,
{
    first_tags_count(block.tags@, 0);
}

/// Names of a formal list are read in their order, each with its place. The first name that
/// cannot be decoded decides the list.
pub proof fn formals_are_read_in_order(formals: Seq<Formal>, i: int)
    ensures
        (forall|k: int| 0 <= k < formals.len() ==> (#[trigger] formals[k]).name.value is Ok) ==> (
        decoded_formals(formals, formals.len() as int) matches FormalSummary::Known(names)
            && names.len() == formals.len() && forall|k: int|
            0 <= k < names.len() ==> (#[trigger] names[k]).name.0
                == formals[k].name.value->Ok_0.text && names[k].span == formals[k].name.span),
        0 <= i < formals.len() && formals[i].name.value is Err && (forall|k: int|
            0 <= k < i ==> (#[trigger] formals[k]).name.value is Ok) ==> decoded_formals(
            formals,
            formals.len() as int,
        ) == (FormalSummary::Undecodable { span: formals[i].name.span }),
{
    if forall|k: int| 0 <= k < formals.len() ==> (#[trigger] formals[k]).name.value is Ok {
        all_read(formals, formals.len() as int);
    }
    if 0 <= i < formals.len() && formals[i].name.value is Err && (forall|k: int|
        0 <= k < i ==> (#[trigger] formals[k]).name.value is Ok) {
        all_read(formals, i);
        failed_from_then_on(formals, i, formals.len() as int);
    }
}

proof fn all_read(formals: Seq<Formal>, count: int)
    requires
        0 <= count <= formals.len(),
        forall|k: int| 0 <= k < count ==> (#[trigger] formals[k]).name.value is Ok,
    ensures
        decoded_formals(formals, count) matches FormalSummary::Known(names) && names.len() == count
            && forall|k: int|
            0 <= k < names.len() ==> (#[trigger] names[k]).name.0
                == formals[k].name.value->Ok_0.text && names[k].span == formals[k].name.span,
    decreases count,
{
    if count > 0 {
        all_read(formals, count - 1);
    }
}

proof fn failed_from_then_on(formals: Seq<Formal>, i: int, count: int)
    requires
        0 <= i < count <= formals.len(),
        formals[i].name.value is Err,
        decoded_formals(formals, i) is Known,
    ensures
        decoded_formals(formals, count) == (FormalSummary::Undecodable {
            span: formals[i].name.span,
        }),
    decreases count,
{
    if i < count - 1 {
        failed_from_then_on(formals, i, count - 1);
    }
}

/// The formals of a topic are those of all its blocks: every name of every readable list is
/// there, and nothing else.
pub proof fn topics_list_all_formals(formals: Seq<FormalContribution>, name: Seq<char>)
    requires
        forall|i: int|
            0 <= i < formals.len() ==> (#[trigger] formals[i]).names is Known || formals[i].names
                is NotFunction,
    ensures
        match merged_formal_names(formals) {
            FormalSummary::Known(names) => names_formal(names, name) <==> exists|i: int|
                0 <= i < formals.len() && contributes(#[trigger] formals[i], name),
            FormalSummary::NotFunction => forall|i: int|
                0 <= i < formals.len() ==> (#[trigger] formals[i]).names is NotFunction,
            _ => false,
        },
    decreases formals.len(),
{
    if formals.len() > 0 {
        let front = formals.drop_last();
        assert forall|i: int| 0 <= i < front.len() implies (#[trigger] front[i]).names is Known
            || front[i].names is NotFunction by {
            assert(front[i] == formals[i]);
        }
        topics_list_all_formals(front, name);
        let last = formals.last();
        assert(formals[formals.len() - 1] == last);
        assert(last.names is Known || last.names is NotFunction);
        let before = match merged_formal_names(front) {
            FormalSummary::Known(names) => names,
            _ => Seq::empty(),
        };
        if let FormalNames::Known(list) = last.names {
            listed_formals(before, list@, name);
        }
        if exists|i: int| 0 <= i < front.len() && contributes(#[trigger] front[i], name) {
            let i = choose|i: int| 0 <= i < front.len() && contributes(#[trigger] front[i], name);
            assert(contributes(formals[i], name));
        }
        if exists|i: int| 0 <= i < formals.len() && contributes(#[trigger] formals[i], name) {
            let i = choose|i: int|
                0 <= i < formals.len() && contributes(#[trigger] formals[i], name);
            if i < front.len() {
                assert(front[i] == formals[i]);
                assert(contributes(front[i], name));
            }
        }
        if merged_formal_names(front) is NotFunction {
            assert forall|i: int| 0 <= i < front.len() implies !contributes(
                #[trigger] front[i],
                name,
            ) by {}
            assert forall|i: int| 0 <= i < front.len() implies (#[trigger] formals[i]).names
                is NotFunction by {
                assert(front[i].names is NotFunction);
            }
        }
        assert(contributes(last, name) ==> contributes(formals[formals.len() - 1], name));
        assert(names_formal(Seq::empty(), name) == false);
    }
}

/// Whether a contribution has a formal of a name.
pub open spec fn contributes(contribution: FormalContribution, name: Seq<char>) -> bool {
    contribution.names matches FormalNames::Known(list) && exists|k: int|
        0 <= k < list@.len() && (#[trigger] list@[k]).name.0@ == name
}

proof fn listed_formals(before: Seq<FormalName>, list: Seq<FormalName>, name: Seq<char>)
    ensures
        names_formal(unique_formals(before, list), name) <==> names_formal(before, name) || exists|
            k: int,
        |
            0 <= k < list.len() && (#[trigger] list[k]).name.0@ == name,
    decreases list.len(),
{
    if list.len() > 0 {
        let front = list.drop_last();
        listed_formals(before, front, name);
        let some = unique_formals(before, front);
        let all = unique_formals(before, list);
        if names_formal(some, name) {
            let k = choose|k: int| 0 <= k < some.len() && (#[trigger] some[k]).name.0@ == name;
            assert(all[k].name.0@ == name);
        }
        if names_formal(all, name) {
            let k = choose|k: int| 0 <= k < all.len() && (#[trigger] all[k]).name.0@ == name;
            if k < some.len() {
                assert(some[k].name.0@ == name);
            } else {
                assert(list[list.len() - 1].name.0@ == name);
            }
        }
        if exists|k: int| 0 <= k < list.len() && (#[trigger] list[k]).name.0@ == name {
            let k = choose|k: int| 0 <= k < list.len() && (#[trigger] list[k]).name.0@ == name;
            if k < front.len() {
                assert(front[k].name.0@ == name);
            } else if !names_formal(some, list.last().name.0@) {
                assert(all[all.len() - 1].name.0@ == name);
            }
        }
        if exists|k: int| 0 <= k < front.len() && (#[trigger] front[k]).name.0@ == name {
            let k = choose|k: int| 0 <= k < front.len() && (#[trigger] front[k]).name.0@ == name;
            assert(list[k].name.0@ == name);
        }
    }
}

/// A binding of a function has the formals of the function; an alias of the only binding of a
/// name, when that runs before it, has the formals of that binding; anything else has none.
pub proof fn aliases_have_the_formals_of_functions(
    bindings: Seq<BindingFact>,
    sources: SourceMap,
    collate: bool,
    binding: BindingFact,
    depth: nat,
    i: int,
)
    ensures
        binding.value is Function ==> followed_formals(bindings, sources, collate, binding, depth)
            == binding.function_formals,
        binding.value is Alias && depth > 0 && is_only_binding(
            bindings,
            binding.value->Alias_0@,
            i,
        ) && crate::namespace::s3::runs_before(bindings[i], binding, Some(sources), collate)
            ==> followed_formals(bindings, sources, collate, binding, depth) == followed_formals(
            bindings,
            sources,
            collate,
            bindings[i],
            (depth - 1) as nat,
        ),
        binding.value is Alias && is_only_binding(bindings, binding.value->Alias_0@, i)
            && !crate::namespace::s3::runs_before(bindings[i], binding, Some(sources), collate)
            ==> followed_formals(bindings, sources, collate, binding, depth) is None,
        !(binding.value is Function) && !(binding.value is Alias) ==> followed_formals(
            bindings,
            sources,
            collate,
            binding,
            depth,
        ) is None,
{
    if binding.value is Alias && is_only_binding(bindings, binding.value->Alias_0@, i) {
        let name = binding.value->Alias_0@;
        let m = choose|m: int| is_only_binding(bindings, name, m);
        assert(is_only_binding(bindings, name, m));
        assert(bindings[m].name.canonical@ == name);
        assert(m == i);
    }
}

/// The method that a block documents: its own declaration; else that of the registration of its
/// object, when there is exactly one. Data has none.
pub proof fn methods_of_blocks(
    context: ContextView,
    block: DocumentedBlock,
    declared: Option<MethodDeclaration>,
    name: crate::facts::RName,
)
    ensures
        block.target is DataObject ==> block_method(context, block, declared) is None,
        !(block.target is DataObject) && declared is Some ==> block_method(context, block, declared)
            == declared,
        declared is None && (block.target matches BlockTarget::FunctionAssignment(function)
            && function.name.canonical == name) ==> ({
            let found = matching_registrations(context.registrations, name@);
            if found.len() == 1 {
                &&& block_method(context, block, declared) matches Some(method)
                &&& method.generic.value == found[0].generic
                &&& method.class.value == found[0].class
            } else {
                block_method(context, block, declared) is None
            }
        }),
{
}

/// The registrations of a function are those that name it; every pair of generic and class that
/// is registered for it is among them.
pub proof fn registrations_of_functions(
    registrations: Seq<S3RegistrationFact>,
    name: Seq<char>,
    i: int,
)
    ensures
        forall|k: int|
            0 <= k < matching_registrations(registrations, name).len() ==> registered_name(
                (#[trigger] matching_registrations(registrations, name)[k]).target,
            ) == Some(name),
        0 <= i < registrations.len() && registered_name(registrations[i].target) == Some(name)
            ==> exists|k: int|
            0 <= k < matching_registrations(registrations, name).len() && (
            #[trigger] matching_registrations(registrations, name)[k]).generic@
                == registrations[i].generic@ && matching_registrations(
                registrations,
                name,
            )[k].class@ == registrations[i].class@,
    decreases registrations.len(),
{
    if registrations.len() > 0 {
        let front = registrations.drop_last();
        registrations_of_functions(front, name, i);
        let before = matching_registrations(front, name);
        let after = matching_registrations(registrations, name);
        if 0 <= i < registrations.len() && registered_name(registrations[i].target) == Some(name) {
            if i < front.len() {
                let k = choose|k: int|
                    0 <= k < before.len() && (#[trigger] before[k]).generic@
                        == front[i].generic@ && before[k].class@ == front[i].class@;
                assert(after[k] == before[k]);
            } else if after.len() > before.len() {
                assert(after[after.len() - 1].generic@ == registrations[i].generic@);
            } else {
                let k = choose|k: int|
                    0 <= k < before.len() && (#[trigger] before[k]).generic@
                        == registrations.last().generic@ && before[k].class@
                        == registrations.last().class@;
                assert(after[k] == before[k]);
            }
        }
    }
}

/// Every registration of a name that is no function of the package is reported once, and no
/// other registration is.
pub proof fn bad_registrations_are_reported(
    registrations: Seq<S3RegistrationFact>,
    bindings: Seq<BindingFact>,
    count: int,
)
    requires
        0 < count <= registrations.len(),
    ensures
        ({
            let before = registration_reports(registrations, bindings, count - 1);
            let after = registration_reports(registrations, bindings, count);
            match registered_name(registrations[count - 1].target) {
                Some(name) => if names_function(bindings, name) {
                    after == before
                } else {
                    &&& after.len() == before.len() + 1
                    &&& after.drop_last() == before
                    &&& after.last().code
                        == crate::diagnostic::DiagnosticCode::InvalidS3Registration
                    &&& after.last().primary.span
                        == registrations[count - 1].target.spec_target_span()
                },
                None => after == before,
            }
        }),
{
    let before = registration_reports(registrations, bindings, count - 1);
    let after = registration_reports(registrations, bindings, count);
    if after.len() > before.len() {
        assert(after.drop_last() =~= before);
    }
}

/// A name is written bare in R code when it can be, and else between backticks, in which every
/// backtick and backslash has a backslash before it.
pub proof fn names_are_spelled_as_code(name: Seq<char>)
    ensures
        crate::r_syntax::syntactic_name(name) ==> r_spelling(name) == name,
        !crate::r_syntax::syntactic_name(name) ==> r_spelling(name).len() >= name.len() + 2
            && r_spelling(name)[0] == '`' && r_spelling(name).last() == '`',
        !crate::r_syntax::syntactic_name(name) && !name.contains('`') && !name.contains('\\')
            ==> r_spelling(name) == seq!['`'] + name + seq!['`'],
{
    plain_bodies(name);
}

proof fn plain_bodies(name: Seq<char>)
    ensures
        crate::usage::backtick_body(name).len() >= name.len(),
        !name.contains('`') && !name.contains('\\') ==> crate::usage::backtick_body(name) == name,
    decreases name.len(),
{
    if name.len() > 0 {
        plain_bodies(name.drop_last());
        if !name.contains('`') && !name.contains('\\') {
            assert(name.contains(name.last()));
            assert forall|i: int| 0 <= i < name.len() - 1 implies name.drop_last()[i] != '`'
                && name.drop_last()[i] != '\\' by {
                assert(name.contains(name[i]));
            }
            assert(crate::usage::backtick_body(name) =~= name);
        }
    } else {
        assert(crate::usage::backtick_body(name) =~= name);
    }
}

} // verus!
