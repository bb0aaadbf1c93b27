//! Laws of the object index of a file.
use crate::facts::{
    AssignmentFact, AssignmentOperator, AssignmentTarget, AssignmentValue, BindingName,
    S7ClassAnalysis, TopLevelEntry, TopLevelShape,
};
use crate::r_parse::{
    file_bindings, file_objects, AssociationRefusal, BindingFact, BindingValue, BlockTarget,
    DocumentedObject, NonFunctionValue,
};
use vstd::prelude::*;

verus! {

/// The assignment that an entry of a file makes to a simple name.
pub open spec fn assigns(entry: TopLevelEntry, assignment: AssignmentFact, name: BindingName) -> bool {
    entry.fact.shape == TopLevelShape::Assignment(assignment) && assignment.target
        == AssignmentTarget::Binding(name)
}

/// A file can be read in two parts: its bindings and its documented objects are
/// those of the first part followed by those of the second.
pub proof fn files_are_read_in_order(first: Seq<TopLevelEntry>, second: Seq<TopLevelEntry>)
    ensures
        file_bindings(first + second) == file_bindings(first) + file_bindings(second),
        file_objects(first + second) == file_objects(first) + file_objects(second),
    decreases second.len(),
{
    if second.len() == 0 {
        assert(first + second =~= first);
        assert(file_bindings(first) + file_bindings(second) =~= file_bindings(first));
        assert(file_objects(first) + file_objects(second) =~= file_objects(first));
    } else {
        files_are_read_in_order(first, second.drop_last());
        let whole = first + second;
        assert(whole.drop_last() =~= first + second.drop_last());
        assert(whole.last() == second.last());
        assert(file_bindings(whole) =~= file_bindings(first) + file_bindings(second));
        assert(file_objects(whole) =~= file_objects(first) + file_objects(second));
    }
}

proof fn one_entry(entry: TopLevelEntry)
    ensures
        seq![entry].drop_last() == Seq::<TopLevelEntry>::empty(),
        seq![entry].last() == entry,
        file_bindings(Seq::empty()) == Seq::<BindingFact>::empty(),
        file_objects(Seq::empty()) == Seq::<DocumentedObject>::empty(),
{
    assert(seq![entry].drop_last() =~= Seq::<TopLevelEntry>::empty());
}

/// An assignment of a simple name with `<-`, `=` or `->` is one binding of that
/// name, at the place and with the operator of the assignment. One with `<<-`,
/// `->>` or `:=` is none.
pub proof fn local_assignments_bind(entry: TopLevelEntry, assignment: AssignmentFact, name: BindingName)
    requires
        assigns(entry, assignment, name),
    ensures
        match assignment.operator {
            AssignmentOperator::Left => file_bindings(seq![entry]).len() == 1,
            AssignmentOperator::Equals => file_bindings(seq![entry]).len() == 1,
            AssignmentOperator::Right => file_bindings(seq![entry]).len() == 1,
            AssignmentOperator::SuperLeft => file_bindings(seq![entry]).len() == 0,
            AssignmentOperator::SuperRight => file_bindings(seq![entry]).len() == 0,
            AssignmentOperator::Walrus => file_bindings(seq![entry]).len() == 0,
        },
        forall|k: int|
            #![trigger file_bindings(seq![entry])[k]]
            0 <= k < file_bindings(seq![entry]).len() ==> file_bindings(seq![entry])[k].name == name
                && file_bindings(seq![entry])[k].operator == assignment.operator && file_bindings(
                seq![entry],
            )[k].assignment_span == entry.fact.span,
{
    one_entry(entry);
}

/// An entry that assigns no simple name binds nothing.
pub proof fn nothing_else_binds(entry: TopLevelEntry)
    requires
        forall|assignment: AssignmentFact, name: BindingName| !assigns(entry, assignment, name),
    ensures
        file_bindings(seq![entry]).len() == 0,
{
    one_entry(entry);
    match entry.fact.shape {
        TopLevelShape::Assignment(assignment) => match assignment.target {
            AssignmentTarget::Binding(name) => {
                assert(assigns(entry, assignment, name));
            },
            _ => {},
        },
        _ => {},
    }
}

/// Every assignment of a simple name with `<-`, `=` or `->`, wherever it stands in
/// a file, is among the bindings of the file, with its name, operator and place.
pub proof fn every_local_assignment_is_listed(
    entries: Seq<TopLevelEntry>,
    i: int,
    assignment: AssignmentFact,
    name: BindingName,
)
    requires
        0 <= i < entries.len(),
        assigns(entries[i], assignment, name),
        assignment.operator == AssignmentOperator::Left || assignment.operator
            == AssignmentOperator::Equals || assignment.operator == AssignmentOperator::Right,
    ensures
        exists|k: int|
            #![trigger file_bindings(entries)[k]]
            0 <= k < file_bindings(entries).len() && file_bindings(entries)[k].name == name
                && file_bindings(entries)[k].operator == assignment.operator && file_bindings(
                entries,
            )[k].assignment_span == entries[i].fact.span,
{
    let front = entries.take(i);
    let one = seq![entries[i]];
    let back = entries.skip(i + 1);
    files_are_read_in_order(front, one);
    files_are_read_in_order(front + one, back);
    assert(front + one + back =~= entries);
    local_assignments_bind(entries[i], assignment, name);
    let k = file_bindings(front).len() as int;
    assert(file_bindings(entries)[k] == file_bindings(one)[0]);
}

/// Every binding of a file comes from an assignment of its name in the file, with
/// `<-`, `=` or `->`.
pub proof fn every_binding_is_assigned(entries: Seq<TopLevelEntry>, k: int)
    requires
        0 <= k < file_bindings(entries).len(),
    ensures
        exists|i: int, assignment: AssignmentFact|
            0 <= i < entries.len() && #[trigger] assigns(
                entries[i],
                assignment,
                file_bindings(entries)[k].name,
            ) && file_bindings(entries)[k].assignment_span == entries[i].fact.span
                && file_bindings(entries)[k].operator == assignment.operator,
        file_bindings(entries)[k].operator == AssignmentOperator::Left || file_bindings(
            entries,
        )[k].operator == AssignmentOperator::Equals || file_bindings(entries)[k].operator
            == AssignmentOperator::Right,
    decreases entries.len(),
{
    let before = file_bindings(entries.drop_last());
    let binding = file_bindings(entries)[k];
    if k < before.len() {
        every_binding_is_assigned(entries.drop_last(), k);
        assert(binding == before[k]);
        let (i, assignment) = choose|i: int, assignment: AssignmentFact|
            0 <= i < entries.drop_last().len() && #[trigger] assigns(
                entries.drop_last()[i],
                assignment,
                before[k].name,
            ) && before[k].assignment_span == entries.drop_last()[i].fact.span
                && before[k].operator == assignment.operator;
        assert(assigns(entries[i], assignment, binding.name));
    } else {
        let entry = entries.last();
        match entry.fact.shape {
            TopLevelShape::Assignment(assignment) => match assignment.target {
                AssignmentTarget::Binding(name) => {
                    assert(assigns(entries[entries.len() - 1], assignment, binding.name));
                },
                _ => {},
            },
            _ => {},
        }
    }
}

/// What a binding is known to hold: a function that it is assigned, with its formals
/// and whether it dispatches; the name that it is assigned, when that can be read;
/// nothing that is a function for a literal; and what is known of an S7 class.
pub proof fn bindings_know_their_values(
    entry: TopLevelEntry,
    assignment: AssignmentFact,
    name: BindingName,
)
    requires
        assigns(entry, assignment, name),
        file_bindings(seq![entry]).len() > 0,
    ensures
        assignment.value matches AssignmentValue::Function(function) ==> file_bindings(
            seq![entry],
        )[0].value == (BindingValue::Function { calls_use_method: function.calls_use_method })
            && file_bindings(seq![entry])[0].function_formals == Some(function.formals),
        !(assignment.value is Function) ==> file_bindings(seq![entry])[0].function_formals is None
            && !(file_bindings(seq![entry])[0].value is Function),
        assignment.value matches AssignmentValue::Name(target) ==> match target.value {
            Ok(target) => file_bindings(seq![entry])[0].value == BindingValue::Alias(target),
            Err(_) => file_bindings(seq![entry])[0].value is Unknown,
        },
        assignment.value is Literal <==> file_bindings(seq![entry])[0].value is NonFunction,
        assignment.value matches AssignmentValue::Call(call) ==> match call.s7_class {
            S7ClassAnalysis::Supported(class) => file_bindings(seq![entry])[0].value
                == BindingValue::S7Class(class),
            S7ClassAnalysis::Refused(refusal) => file_bindings(seq![entry])[0].value
                == BindingValue::S7Refused(refusal),
            S7ClassAnalysis::NotApplicable => file_bindings(seq![entry])[0].value is Unknown,
        },
        assignment.value is Other ==> file_bindings(seq![entry])[0].value is Unknown,
{
    one_entry(entry);
}

/// An entry with a documentation block, and no other, gives one documented object,
/// which carries the block.
pub proof fn documented_entries_give_objects(entry: TopLevelEntry)
    ensures
        match entry.documentation {
            Some(block) => file_objects(seq![entry]).len() == 1 && file_objects(seq![entry])[0].block
                == block.id && file_objects(seq![entry])[0].block_span == block.span,
            None => file_objects(seq![entry]).len() == 0,
        },
{
    one_entry(entry);
}

/// Which object a documented entry gives: the function or the value that it assigns
/// to a simple name, whatever the operator; `NULL`; the package for `"_PACKAGE"`, and
/// the data that any other string names; a call; or a refusal.
pub proof fn documented_shapes(entry: TopLevelEntry)
    requires
        entry.documentation is Some,
    ensures
        entry.fact.shape is Null <==> file_objects(seq![entry])[0].target is Null,
        entry.fact.shape matches TopLevelShape::Call(call) ==> file_objects(seq![entry])[0].target
            == BlockTarget::Call(call),
        entry.fact.shape matches TopLevelShape::StringLiteral(literal) ==> match literal.value {
            Ok(name) => if name@ == "_PACKAGE"@ {
                file_objects(seq![entry])[0].target is PackageDocumentation
            } else if name@.len() == 0 {
                file_objects(seq![entry])[0].target == BlockTarget::Refused(
                    AssociationRefusal::EmptyDataName { span: literal.span },
                )
            } else {
                file_objects(seq![entry])[0].target matches BlockTarget::DataObject(data)
                    && data.name.value@ == name@ && data.name.span == literal.span
            },
            Err(reason) => file_objects(seq![entry])[0].target == BlockTarget::Refused(
                AssociationRefusal::UndecodableDataName { span: literal.span, reason },
            ),
        },
        entry.fact.shape is Other ==> file_objects(seq![entry])[0].target == BlockTarget::Refused(
            AssociationRefusal::UnsupportedExpression { span: entry.fact.span },
        ),
        forall|assignment: AssignmentFact, name: BindingName|
            #[trigger] assigns(entry, assignment, name) ==> match assignment.value {
                AssignmentValue::Function(function) => file_objects(seq![entry])[0].target matches
                    BlockTarget::FunctionAssignment(object) && object.name == name
                    && object.operator == assignment.operator && object.assignment_span
                    == entry.fact.span && object.value_span == assignment.value_span
                    && object.formals == function.formals && object.body_span
                    == function.body_span && object.calls_use_method == function.calls_use_method,
                _ => file_objects(seq![entry])[0].target matches BlockTarget::ValueAssignment(
                    object,
                ) && object.name == name && object.operator == assignment.operator
                    && object.assignment_span == entry.fact.span && object.value_span
                    == assignment.value_span,
            },
{
    one_entry(entry);
    reveal_strlit("_PACKAGE");
}

/// What a documented value is known to be.
pub proof fn documented_values(
    entry: TopLevelEntry,
    assignment: AssignmentFact,
    name: BindingName,
)
    requires
        entry.documentation is Some,
        assigns(entry, assignment, name),
    ensures
        file_objects(seq![entry])[0].target matches BlockTarget::ValueAssignment(object) ==> {
            &&& assignment.value matches AssignmentValue::Name(value) ==> object.value
                == NonFunctionValue::Name(value)
            &&& assignment.value is Literal <==> object.value is Literal
            &&& assignment.value is Other <==> object.value is Other
            &&& assignment.value matches AssignmentValue::Call(call) ==> match call.s7_class {
                S7ClassAnalysis::Supported(class) => object.value == NonFunctionValue::S7Class(
                    class,
                ),
                S7ClassAnalysis::Refused(refusal) => object.value == NonFunctionValue::S7Refused(
                    refusal,
                ),
                S7ClassAnalysis::NotApplicable => object.value == NonFunctionValue::Call(call),
            }
        },
{
    one_entry(entry);
}

/// A documented assignment to anything but a simple name is refused, with the place
/// of its target.
pub proof fn other_targets_are_refused(entry: TopLevelEntry, assignment: AssignmentFact)
    requires
        entry.documentation is Some,
        entry.fact.shape == TopLevelShape::Assignment(assignment),
    ensures
        assignment.target is Compound ==> file_objects(seq![entry])[0].target
            == BlockTarget::Refused(
            AssociationRefusal::CompoundAssignment { target_span: assignment.target_span },
        ),
        assignment.target is Invalid ==> file_objects(seq![entry])[0].target
            == BlockTarget::Refused(
            AssociationRefusal::InvalidAssignmentTarget { target_span: assignment.target_span },
        ),
        assignment.target matches AssignmentTarget::Undecodable { reason } ==> file_objects(
            seq![entry],
        )[0].target == BlockTarget::Refused(
            AssociationRefusal::UndecodableBinding { target_span: assignment.target_span, reason },
        ),
{
    one_entry(entry);
}

} // verus!
