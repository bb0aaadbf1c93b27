//! Laws of the S7 classes that bindings hold.
use crate::model::merge::bindings::{
    in_assignment_order, latest_in_file, s7_at, s7_from, s7_resolution, with_binding,
    S7BindingResolution,
};
use crate::facts::RName;
use crate::r_parse::{BindingFact, BindingValue};
use crate::source::Span;
use vstd::prelude::*;

verus! {

/// Whether one assignment stands before another, or at the same place: by file, then by where it
/// starts, then by where it ends.
pub open spec fn assigned_no_later(a: Span, b: Span) -> bool {
    ||| a.file.id < b.file.id
    ||| a.file.id == b.file.id && a.range.from < b.range.from
    ||| a.file.id == b.file.id && a.range.from == b.range.from && a.range.to <= b.range.to
}

proof fn placed(ordered: Seq<BindingFact>, binding: BindingFact)
    requires
        forall|i: int, j: int|
            0 <= i < j < ordered.len() ==> assigned_no_later(
                (#[trigger] ordered[i]).assignment_span,
                (#[trigger] ordered[j]).assignment_span,
            ),
    ensures
        with_binding(ordered, binding).to_multiset() == ordered.to_multiset().insert(binding),
        with_binding(ordered, binding).len() == ordered.len() + 1,
        forall|i: int, j: int|
            0 <= i < j < with_binding(ordered, binding).len() ==> assigned_no_later(
                (#[trigger] with_binding(ordered, binding)[i]).assignment_span,
                (#[trigger] with_binding(ordered, binding)[j]).assignment_span,
            ),
        ordered.len() > 0 && !assigned_no_later(
            ordered.last().assignment_span,
            binding.assignment_span,
        ) ==> with_binding(ordered, binding).last() == ordered.last(),
        forall|x: BindingFact| #[trigger]
            with_binding(ordered, binding).contains(x) ==> ordered.contains(x) || x == binding,
    decreases ordered.len(),
{
    broadcast use vstd::seq_lib::group_to_multiset_ensures;

    let after = with_binding(ordered, binding);
    if ordered.len() == 0 || assigned_no_later(
        ordered.last().assignment_span,
        binding.assignment_span,
    ) {
        assert(after == ordered.push(binding));
        assert forall|i: int, j: int| 0 <= i < j < after.len() implies assigned_no_later(
            (#[trigger] after[i]).assignment_span,
            (#[trigger] after[j]).assignment_span,
        ) by {
            if j == ordered.len() && i < ordered.len() - 1 {
                assert(assigned_no_later(
                    ordered[i].assignment_span,
                    ordered[ordered.len() - 1].assignment_span,
                ));
            }
        }
        assert forall|x: BindingFact| #[trigger] after.contains(x) implies ordered.contains(x) || x
            == binding by {
            let k = after.index_of(x);
            if k < ordered.len() {
                assert(ordered[k] == x);
            }
        }
    } else {
        let front = ordered.drop_last();
        assert forall|i: int, j: int| 0 <= i < j < front.len() implies assigned_no_later(
            (#[trigger] front[i]).assignment_span,
            (#[trigger] front[j]).assignment_span,
        ) by {
            assert(front[i] == ordered[i] && front[j] == ordered[j]);
        }
        placed(front, binding);
        let before = with_binding(front, binding);
        assert(after == before.push(ordered.last()));
        assert(ordered =~= front.push(ordered.last()));
        assert(after.to_multiset() =~= ordered.to_multiset().insert(binding));
        assert forall|i: int, j: int| 0 <= i < j < after.len() implies assigned_no_later(
            (#[trigger] after[i]).assignment_span,
            (#[trigger] after[j]).assignment_span,
        ) by {
            if j < before.len() {
                assert(after[i] == before[i] && after[j] == before[j]);
            } else {
                assert(before.contains(before[i]));
                if front.contains(before[i]) {
                    let k = front.index_of(before[i]);
                    assert(ordered[k] == before[i]);
                    assert(assigned_no_later(
                        ordered[k].assignment_span,
                        ordered[ordered.len() - 1].assignment_span,
                    ));
                }
            }
        }
        assert forall|x: BindingFact| #[trigger] after.contains(x) implies ordered.contains(x) || x
            == binding by {
            let k = after.index_of(x);
            if k < before.len() {
                assert(before.contains(before[k]));
                if front.contains(x) {
                    let l = front.index_of(x);
                    assert(ordered[l] == x);
                }
            } else {
                assert(ordered[ordered.len() - 1] == x);
            }
        }
    }
}

/// Bindings in the order of their assignments are the same bindings, the earlier ones first.
pub proof fn bindings_are_ordered(bindings: Seq<BindingFact>)
    ensures
        in_assignment_order(bindings).to_multiset() == bindings.to_multiset(),
        in_assignment_order(bindings).len() == bindings.len(),
        forall|i: int, j: int|
            0 <= i < j < in_assignment_order(bindings).len() ==> assigned_no_later(
                (#[trigger] in_assignment_order(bindings)[i]).assignment_span,
                (#[trigger] in_assignment_order(bindings)[j]).assignment_span,
            ),
    decreases bindings.len(),
{
    broadcast use vstd::seq_lib::group_to_multiset_ensures;

    if bindings.len() > 0 {
        bindings_are_ordered(bindings.drop_last());
        placed(in_assignment_order(bindings.drop_last()), bindings.last());
        assert(bindings =~= bindings.drop_last().push(bindings.last()));
    } else {
        assert(bindings =~= Seq::empty());
    }
}

/// A binding of a class is that class, one of a refused class is refused for the same reason, and
/// one of a function or another value is no class.
pub proof fn class_bindings_are_classes(ordered: Seq<BindingFact>, i: int)
    requires
        0 <= i < ordered.len(),
    ensures
        ordered[i].value matches BindingValue::S7Class(class) ==> s7_at(ordered, i) == Some(
            S7BindingResolution::Supported(class),
        ),
        ordered[i].value matches BindingValue::S7Refused(refusal) ==> s7_at(ordered, i) == Some(
            S7BindingResolution::Refused(refusal),
        ),
        !(ordered[i].value is S7Class) && !(ordered[i].value is S7Refused) && !(ordered[i].value
            is Alias) ==> s7_at(ordered, i) is None,
{
}

proof fn the_latest_counts(ordered: Seq<BindingFact>, i: int, name: Seq<char>, j: int, upto: int)
    requires
        0 <= i < ordered.len(),
        0 <= upto <= ordered.len(),
    ensures
        ({
            let file = ordered[i].assignment_span.file;
            &&& (forall|k: int|
                0 <= k < upto ==> !((#[trigger] ordered[k]).assignment_span.file == file
                    && ordered[k].name.canonical@ == name)) ==> latest_in_file(
                ordered,
                file,
                name,
                upto,
            ) is None
            &&& 0 <= j < upto && ordered[j].assignment_span.file == file
                && ordered[j].name.canonical@ == name && (forall|k: int|
                j < k < upto ==> !((#[trigger] ordered[k]).assignment_span.file == file
                    && ordered[k].name.canonical@ == name)) ==> latest_in_file(
                ordered,
                file,
                name,
                upto,
            ) == Some(j)
        }),
    decreases upto,
{
    if upto > 0 {
        the_latest_counts(ordered, i, name, j, upto - 1);
    }
}

/// A binding that copies a name is what the name was, as last assigned before it in the same
/// file. A name that the file has not assigned before is no class.
pub proof fn copies_are_what_they_copy(
    ordered: Seq<BindingFact>,
    i: int,
    name: RName,
    j: int,
)
    requires
        0 <= i < ordered.len(),
        ordered[i].value == BindingValue::Alias(name),
    ensures
        ({
            let file = ordered[i].assignment_span.file;
            &&& 0 <= j < i && ordered[j].assignment_span.file == file
                && ordered[j].name.canonical@ == name@ && (forall|k: int|
                j < k < i ==> !((#[trigger] ordered[k]).assignment_span.file == file
                    && ordered[k].name.canonical@ == name@)) ==> s7_at(ordered, i) == s7_at(
                ordered,
                j,
            )
            &&& (forall|k: int|
                0 <= k < i ==> !((#[trigger] ordered[k]).assignment_span.file == file
                    && ordered[k].name.canonical@ == name@)) ==> s7_at(ordered, i) is None
        }),
{
    the_latest_counts(ordered, i, name@, j, i);
}

proof fn the_binding_counts(ordered: Seq<BindingFact>, span: Span, i: int, upto: int)
    requires
        0 <= upto <= ordered.len(),
    ensures
        0 <= i < upto && ordered[i].assignment_span == span && (forall|k: int|
            i < k < upto ==> (#[trigger] ordered[k]).assignment_span != span) ==> s7_from(
            ordered,
            span,
            upto,
        ) == s7_at(ordered, i),
        (forall|k: int| 0 <= k < upto ==> (#[trigger] ordered[k]).assignment_span != span)
            ==> s7_from(ordered, span, upto) is None,
    decreases upto,
{
    if upto > 0 {
        the_binding_counts(ordered, span, i, upto - 1);
    }
}

/// What an assignment holds as an S7 class is what its binding holds.
pub proof fn assignments_hold_their_classes(bindings: Seq<BindingFact>, span: Span, i: int)
    ensures
        ({
            let ordered = in_assignment_order(bindings);
            &&& 0 <= i < ordered.len() && ordered[i].assignment_span == span && (forall|k: int|
                i < k < ordered.len() ==> (#[trigger] ordered[k]).assignment_span != span)
                ==> s7_resolution(bindings, span) == s7_at(ordered, i)
            &&& (forall|k: int|
                0 <= k < ordered.len() ==> (#[trigger] ordered[k]).assignment_span != span)
                ==> s7_resolution(bindings, span) is None
        }),
{
    let ordered = in_assignment_order(bindings);
    the_binding_counts(ordered, span, i, ordered.len() as int);
}

} // verus!
