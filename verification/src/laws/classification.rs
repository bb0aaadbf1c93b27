//! Laws of the classification of exports.
use crate::facts::RName;
use crate::namespace::s3::{
    analysis, is_only_binding, only_binding, proven_generic, resolution,
    shortest_proven_generic_wins, splits_at, AnalysisView, FunctionResolution, S3Facts,
};
use crate::r_parse::{BindingFact, BindingValue};
use crate::text::text_lt;
use vstd::prelude::*;

verus! {

/// Whether an assignment is known to run before another: it stands earlier in the
/// same file, or in a file whose path sorts before that of the other file, where no
/// Collate field sets another order.
pub open spec fn known_to_run_first(facts: S3Facts, first: BindingFact, second: BindingFact) -> bool {
    if first.assignment_span.file == second.assignment_span.file {
        first.assignment_span.range.from < second.assignment_span.range.from
    } else {
        &&& !facts.collate
        &&& facts.sources matches Some(map)
        &&& first.assignment_span.file.id < map.files@.len()
        &&& second.assignment_span.file.id < map.files@.len()
        &&& text_lt(
            map.files@[first.assignment_span.file.id as int].path@,
            map.files@[second.assignment_span.file.id as int].path@,
        )
    }
}

/// Whether no two bindings of the facts share the name of binding `i`.
pub open spec fn bound_once(facts: S3Facts, i: int) -> bool {
    &&& 0 <= i < facts.bindings.len()
    &&& forall|j: int|
        0 <= j < facts.bindings.len() && j != i ==> (#[trigger] facts.bindings[j]).name.canonical@
            != facts.bindings[i].name.canonical@
}

/// Whether binding `i` is an alias of binding `j`, which is known to run before it.
pub open spec fn alias_of(facts: S3Facts, i: int, j: int) -> bool {
    &&& facts.bindings[i].value matches BindingValue::Alias(target)
    &&& target@ == facts.bindings[j].name.canonical@
    &&& known_to_run_first(facts, facts.bindings[j], facts.bindings[i])
}

/// Whether the bindings at some places lead from a name to the last of them: each is
/// the only one of its name and an alias of the next.
pub open spec fn leads(facts: S3Facts, name: Seq<char>, path: Seq<int>) -> bool {
    &&& path.len() > 0
    &&& path.no_duplicates()
    &&& forall|k: int| 0 <= k < path.len() ==> bound_once(facts, #[trigger] path[k])
    &&& facts.bindings[path[0]].name.canonical@ == name
    &&& forall|k: int| #![trigger path[k]] 0 <= k < path.len() - 1 ==> alias_of(
        facts,
        path[k],
        path[k + 1],
    )
}

/// The binding that a path ends at.
pub open spec fn end_of(facts: S3Facts, path: Seq<int>) -> BindingFact {
    facts.bindings[path.last()]
}

proof fn the_only_binding(facts: S3Facts, i: int)
    requires
        bound_once(facts, i),
    ensures
        only_binding(facts.bindings, facts.bindings[i].name.canonical@) == Some(facts.bindings[i]),
{
    let name = facts.bindings[i].name.canonical@;
    assert(is_only_binding(facts.bindings, name, i));
    let m = choose|m: int| is_only_binding(facts.bindings, name, m);
    assert(is_only_binding(facts.bindings, name, m));
    assert(facts.bindings[m].name.canonical@ == name);
    assert(m == i);
}

proof fn paths_resolve(facts: S3Facts, name: Seq<char>, path: Seq<int>, depth: nat)
    requires
        leads(facts, name, path),
        path.len() <= depth,
    ensures
        resolution(facts, name, depth) == (match end_of(facts, path).value {
            BindingValue::Function { calls_use_method } => FunctionResolution::Function {
                calls_use_method,
            },
            BindingValue::NonFunction => FunctionResolution::NonFunction,
            BindingValue::Alias(_) => resolution(facts, name, depth),
            _ => FunctionResolution::Unknown,
        }),
    decreases path.len(),
{
    the_only_binding(facts, path[0]);
    let fact = facts.bindings[path[0]];
    if path.len() > 1 {
        let rest = path.skip(1);
        let target = facts.bindings[path[1]];
        assert(alias_of(facts, path[0], path[0int + 1]));
        the_only_binding(facts, path[1]);
        assert forall|k: int| 0 <= k < rest.len() implies bound_once(facts, #[trigger] rest[k]) by {
            assert(rest[k] == path[k + 1]);
        }
        assert forall|k: int| #![trigger rest[k]] 0 <= k < rest.len() - 1 implies alias_of(
            facts,
            rest[k],
            rest[k + 1],
        ) by {
            assert(alias_of(facts, path[k + 1], path[k + 1 + 1]));
        }
        assert(rest.no_duplicates());
        assert(rest.last() == path.last());
        paths_resolve(facts, target.name.canonical@, rest, (depth - 1) as nat);
        if end_of(facts, path).value is Alias {
        } else {
            assert(resolution(facts, name, depth) == resolution(
                facts,
                target.name.canonical@,
                (depth - 1) as nat,
            ));
        }
    }
}

proof fn paths_are_short(facts: S3Facts, name: Seq<char>, path: Seq<int>)
    requires
        leads(facts, name, path),
    ensures
        path.len() <= facts.bindings.len(),
{
    let places = vstd::set_lib::set_int_range(0, facts.bindings.len() as int);
    vstd::set_lib::lemma_int_range(0, facts.bindings.len() as int);
    path.unique_seq_to_set();
    assert forall|i: int| path.to_set().contains(i) implies places.contains(i) by {
        let k = path.index_of(i);
        assert(bound_once(facts, path[k]));
    }
    vstd::set_lib::lemma_len_subset(path.to_set(), places);
}

/// A name without a dot is an ordinary export.
pub proof fn undotted_names_are_ordinary(facts: S3Facts, name: Seq<char>)
    requires
        !name.contains('.'),
    ensures
        analysis(facts, name) is OrdinaryExport,
{
}

/// An object that leads to a literal is an ordinary export, whatever dots its name
/// has.
pub proof fn literals_are_ordinary(facts: S3Facts, name: Seq<char>, path: Seq<int>)
    requires
        leads(facts, name, path),
        end_of(facts, path).value is NonFunction,
    ensures
        analysis(facts, name) is OrdinaryExport,
{
    paths_are_short(facts, name, path);
    paths_resolve(facts, name, path, facts.bindings.len());
}

/// A name is a dispatching generic of the package when it leads to a function that
/// calls `UseMethod`; one that leads elsewhere is none, whatever the provider says;
/// and of a name that the package does not bind, the provider decides.
pub proof fn generics_are_proven(facts: S3Facts, name: Seq<char>, path: Seq<int>)
    ensures
        leads(facts, name, path) && end_of(facts, path).value == (BindingValue::Function {
            calls_use_method: true,
        }) ==> proven_generic(facts, name),
        leads(facts, name, path) && !(end_of(facts, path).value is Alias) && end_of(
            facts,
            path,
        ).value != (BindingValue::Function { calls_use_method: true }) ==> !proven_generic(
            facts,
            name,
        ),
        (forall|i: int|
            0 <= i < facts.bindings.len() ==> (#[trigger] facts.bindings[i]).name.canonical@ != name)
            ==> proven_generic(facts, name) == (facts.known)(name),
{
    if leads(facts, name, path) {
        paths_are_short(facts, name, path);
        paths_resolve(facts, name, path, facts.bindings.len());
        assert(facts.bindings[path[0]].name.canonical@ == name);
        assert(bound_once(facts, path[0]));
    }
}

/// A name that is bound twice is no generic, and when it has a dot it is unresolved.
pub proof fn ambiguous_names_decide_nothing(facts: S3Facts, name: Seq<char>, i: int, j: int)
    requires
        0 <= i < j < facts.bindings.len(),
        facts.bindings[i].name.canonical@ == name,
        facts.bindings[j].name.canonical@ == name,
    ensures
        !proven_generic(facts, name),
        name.contains('.') ==> analysis(facts, name) is Unresolved,
{
    assert forall|m: int| !is_only_binding(facts.bindings, name, m) by {
        assert(facts.bindings[i].name.canonical@ == name);
        assert(facts.bindings[j].name.canonical@ == name);
    }
}

/// A dotted name that the package does not bind is unresolved, and so is one that leads
/// to a value of which nothing is known.
pub proof fn unknown_objects_are_unresolved(facts: S3Facts, name: Seq<char>, path: Seq<int>)
    requires
        name.contains('.'),
    ensures
        (forall|i: int|
            0 <= i < facts.bindings.len() ==> (#[trigger] facts.bindings[i]).name.canonical@ != name)
            ==> analysis(facts, name) is Unresolved,
        leads(facts, name, path) && (end_of(facts, path).value is Unknown || end_of(
            facts,
            path,
        ).value is S7Class || end_of(facts, path).value is S7Refused) ==> analysis(facts, name)
            is Unresolved,
{
    if leads(facts, name, path) {
        paths_are_short(facts, name, path);
        paths_resolve(facts, name, path, facts.bindings.len());
    }
    if forall|i: int|
        0 <= i < facts.bindings.len() ==> (#[trigger] facts.bindings[i]).name.canonical@ != name {
        assert forall|m: int| !is_only_binding(facts.bindings, name, m) by {}
    }
}

/// An alias of a name that is not known to be assigned before it decides nothing.
pub proof fn late_targets_decide_nothing(facts: S3Facts, i: int, target: RName)
    requires
        bound_once(facts, i),
        facts.bindings[i].value == BindingValue::Alias(target),
        forall|j: int|
            bound_once(facts, j) && #[trigger] facts.bindings[j].name.canonical@ == target@
                ==> !known_to_run_first(facts, facts.bindings[j], facts.bindings[i]),
    ensures
        !proven_generic(facts, facts.bindings[i].name.canonical@),
        facts.bindings[i].name.canonical@.contains('.') ==> analysis(
            facts,
            facts.bindings[i].name.canonical@,
        ) is Unresolved,
{
    the_only_binding(facts, i);
    if exists|m: int| is_only_binding(facts.bindings, target@, m) {
        let m = choose|m: int| is_only_binding(facts.bindings, target@, m);
        assert(is_only_binding(facts.bindings, target@, m));
        assert(bound_once(facts, m));
        assert(facts.bindings[m].name.canonical@ == target@);
    }
}

/// A dotted name that leads to a function is a method of the shortest prefix before a
/// dot that is a proven generic, of the class that the rest of the name spells.
pub proof fn functions_split_at_generics(
    facts: S3Facts,
    name: Seq<char>,
    path: Seq<int>,
    generic: Seq<char>,
    class: Seq<char>,
)
    requires
        leads(facts, name, path),
        end_of(facts, path).value is Function,
        name == generic + seq!['.'] + class,
        generic.len() > 0,
        class.len() > 0,
        proven_generic(facts, generic),
        forall|at: int|
            0 < at < generic.len() && #[trigger] name[at] == '.' ==> !proven_generic(
                facts,
                name.take(at),
            ),
    ensures
        analysis(facts, name) == (AnalysisView::S3Method { generic, class }),
{
    paths_are_short(facts, name, path);
    paths_resolve(facts, name, path, facts.bindings.len());
    shortest_proven_generic_wins(facts, name);
    let dot = generic.len() as int;
    assert(name[dot] == '.');
    assert(name.take(dot) =~= generic);
    assert(name.skip(dot + 1) =~= class);
    assert(splits_at(facts, name, dot));
    assert forall|other: int| other < dot implies !(#[trigger] splits_at(facts, name, other)) by {
        if 0 < other {
            assert(name[other] == '.' ==> !proven_generic(facts, name.take(other)));
        }
    }
}

/// A dotted name that leads to a function and has no proven generic before any of its
/// dots is unresolved.
pub proof fn functions_without_generics_are_unresolved(
    facts: S3Facts,
    name: Seq<char>,
    path: Seq<int>,
)
    requires
        leads(facts, name, path),
        end_of(facts, path).value is Function,
        name.contains('.'),
        forall|at: int|
            0 < at < name.len() - 1 && #[trigger] name[at] == '.' ==> !proven_generic(
                facts,
                name.take(at),
            ),
    ensures
        analysis(facts, name) is Unresolved,
{
    paths_are_short(facts, name, path);
    paths_resolve(facts, name, path, facts.bindings.len());
    shortest_proven_generic_wins(facts, name);
    assert forall|dot: int| !(#[trigger] splits_at(facts, name, dot)) by {
        if 0 < dot < name.len() - 1 {
            assert(name[dot] == '.' ==> !proven_generic(facts, name.take(dot)));
        }
    }
}

} // verus!
