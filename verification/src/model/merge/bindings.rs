//! What the bindings of a package say about documented objects.
use crate::diagnostic::{
    plain_diagnostic, Diagnostic, DiagnosticCode, DiagnosticView, Diagnostics, Label, LabelView,
    Severity,
};
use crate::facts::{share_formals, Formals, S7ClassFact, S7ClassRefusal};
use crate::model::ir::{FormalNames, FormalSummary, MethodDeclaration};
use crate::model::lookup::opt_value;
use crate::model::usage::{formal_names_from_formals, function_formals, opt_summary};
use crate::namespace::s3::{assignment_precedes, find_only_binding, only_binding, runs_before};
use crate::r_parse::{BindingFact, BindingValue};
use crate::s3_register::{S3RegistrationFact, S3RegistrationTarget};
use crate::source::{FileId, SourceMap, Span, Spanned};
use crate::tags::TagOrigin;
use crate::text::{same_text, text3};
use vstd::prelude::*;

verus! {

/// What is known of a binding as an S7 class.
#[derive(Debug, PartialEq, Eq)]
pub enum S7BindingResolution {
    Supported(S7ClassFact),
    Refused(S7ClassRefusal),
}

impl Clone for S7BindingResolution {
    fn clone(&self) -> (r: Self)
        ensures
            r == *self,
    {
        match self {
            S7BindingResolution::Supported(class) => S7BindingResolution::Supported(class.clone()),
            S7BindingResolution::Refused(refusal) => S7BindingResolution::Refused(*refusal),
        }
    }
}

/// The order of spans: by file, start and end.
pub open spec fn span_le(a: Span, b: Span) -> bool {
    if a.file.id != b.file.id {
        a.file.id < b.file.id
    } else if a.range.from != b.range.from {
        a.range.from < b.range.from
    } else {
        a.range.to <= b.range.to
    }
}

/// Whether one span comes no later than another.
fn span_at_most(a: Span, b: Span) -> (r: bool)
    ensures
        r == span_le(a, b),
{
    if a.file.id != b.file.id {
        a.file.id < b.file.id
    } else if a.range.from != b.range.from {
        a.range.from < b.range.from
    } else {
        a.range.to <= b.range.to
    }
}

/// A binding put behind those that are assigned no later.
pub open spec fn with_binding(ordered: Seq<BindingFact>, binding: BindingFact) -> Seq<BindingFact>
    decreases ordered.len(),
{
    if ordered.len() == 0 || span_le(ordered.last().assignment_span, binding.assignment_span) {
        ordered.push(binding)
    } else {
        with_binding(ordered.drop_last(), binding).push(ordered.last())
    }
}

/// Bindings in the order of their assignments.
pub open spec fn in_assignment_order(bindings: Seq<BindingFact>) -> Seq<BindingFact>
    decreases bindings.len(),
{
    if bindings.len() == 0 {
        Seq::empty()
    } else {
        with_binding(in_assignment_order(bindings.drop_last()), bindings.last())
    }
}

/// The latest of the first `upto` bindings that has the name in the file.
pub open spec fn latest_in_file(
    ordered: Seq<BindingFact>,
    file: FileId,
    name: Seq<char>,
    upto: int,
) -> Option<int>
    decreases upto,
{
    if upto <= 0 {
        None
    } else if ordered[upto - 1].assignment_span.file == file && ordered[upto - 1].name.canonical@
        == name {
        Some(upto - 1)
    } else {
        latest_in_file(ordered, file, name, upto - 1)
    }
}

/// What a binding is as an S7 class: its own definition, or that of the name
/// that it copies, as last assigned before it in the same file.
pub open spec fn s7_at(ordered: Seq<BindingFact>, i: int) -> Option<S7BindingResolution>
    decreases i,
{
    match ordered[i].value {
        BindingValue::S7Class(class) => Some(S7BindingResolution::Supported(class)),
        BindingValue::S7Refused(refusal) => Some(S7BindingResolution::Refused(refusal)),
        BindingValue::Alias(name) => match latest_in_file(
            ordered,
            ordered[i].assignment_span.file,
            name@,
            i,
        ) {
            Some(j) => if 0 <= j < i {
                s7_at(ordered, j)
            } else {
                None
            },
            None => None,
        },
        _ => None,
    }
}

/// What is known of the binding with an assignment span as an S7 class. The
/// last of several such bindings counts.
pub open spec fn s7_from(ordered: Seq<BindingFact>, span: Span, upto: int) -> Option<
    S7BindingResolution,
>
    decreases upto,
{
    if upto <= 0 {
        None
    } else if ordered[upto - 1].assignment_span == span {
        s7_at(ordered, upto - 1)
    } else {
        s7_from(ordered, span, upto - 1)
    }
}

/// What is known of the binding with an assignment span as an S7 class.
pub open spec fn s7_resolution(bindings: Seq<BindingFact>, span: Span) -> Option<
    S7BindingResolution,
> {
    let ordered = in_assignment_order(bindings);
    s7_from(ordered, span, ordered.len() as int)
}

/// The S7 resolutions of all bindings.
pub struct S7Bindings<'a> {
    pub ordered: Vec<&'a BindingFact>,
    pub results: Vec<Option<S7BindingResolution>>,
}

/// The bindings behind references.
pub open spec fn referenced<'a>(bindings: Seq<&'a BindingFact>) -> Seq<BindingFact> {
    bindings.map_values(|b: &'a BindingFact| *b)
}

impl<'a> S7Bindings<'a> {
    /// Every result is that of its binding.
    pub open spec fn wf(&self) -> bool {
        &&& self.results@.len() == self.ordered@.len()
        &&& forall|i: int|
            0 <= i < self.results@.len() ==> (#[trigger] self.results@[i]) == s7_at(
                referenced(self.ordered@),
                i,
            )
    }

    /// The result for an assignment span.
    pub fn get(&self, span: Span) -> (r: Option<&S7BindingResolution>)
        requires
            self.wf(),
        ensures
            opt_value(r) == s7_from(referenced(self.ordered@), span, self.ordered@.len() as int),
    {
        let mut i: usize = self.ordered.len();
        while i > 0
            invariant
                i <= self.ordered@.len(),
                self.wf(),
                s7_from(referenced(self.ordered@), span, self.ordered@.len() as int) == s7_from(
                    referenced(self.ordered@),
                    span,
                    i as int,
                ),
            decreases i,
        {
            if self.ordered[i - 1].assignment_span == span {
                assert(self.results@[i - 1] == s7_at(referenced(self.ordered@), i - 1));
                return match &self.results[i - 1] {
                    Some(resolution) => Some(resolution),
                    None => None,
                };
            }
            i = i - 1;
        }
        None
    }
}

/// Puts a binding behind those that are assigned no later.
fn insert_binding<'a>(ordered: &mut Vec<&'a BindingFact>, binding: &'a BindingFact)
    ensures
        referenced(final(ordered)@) == with_binding(referenced(old(ordered)@), *binding),
{
    let ghost shown = referenced(ordered@);
    let mut k: usize = ordered.len();
    proof {
        assert(shown.take(shown.len() as int) =~= shown);
        assert(with_binding(shown, *binding) + shown.skip(shown.len() as int) =~= with_binding(
            shown,
            *binding,
        ));
    }
    while k > 0 && !span_at_most(ordered[k - 1].assignment_span, binding.assignment_span)
        invariant
            k <= ordered@.len(),
            ordered@ == old(ordered)@,
            shown == referenced(ordered@),
            with_binding(shown, *binding) == with_binding(shown.take(k as int), *binding)
                + shown.skip(k as int),
        decreases k,
    {
        proof {
            let prefix = shown.take(k as int);
            assert(prefix.last() == *ordered@[k - 1]);
            assert(prefix.drop_last() =~= shown.take(k - 1));
            assert(with_binding(prefix.drop_last(), *binding).push(shown[k - 1]) + shown.skip(
                k as int,
            ) =~= with_binding(shown.take(k - 1), *binding) + shown.skip(k - 1));
        }
        k = k - 1;
    }
    proof {
        if k > 0 {
            assert(shown.take(k as int).last() == *ordered@[k - 1]);
        }
    }
    ordered.insert(k, binding);
    proof {
        assert(referenced(ordered@) =~= shown.take(k as int).push(*binding) + shown.skip(k as int));
    }
}

/// Resolves every binding as an S7 class.
pub fn s7_binding_results<'a>(bindings: &'a Vec<BindingFact>) -> (r: S7Bindings<'a>)
    ensures
        r.wf(),
        referenced(r.ordered@) == in_assignment_order(bindings@),
{
    let mut ordered: Vec<&'a BindingFact> = Vec::new();
    let mut i: usize = 0;
    proof {
        assert(referenced(ordered@) =~= in_assignment_order(bindings@.take(0)));
    }
    while i < bindings.len()
        invariant
            i <= bindings@.len(),
            referenced(ordered@) == in_assignment_order(bindings@.take(i as int)),
        decreases bindings@.len() - i,
    {
        proof {
            let prefix = bindings@.take(i + 1);
            assert(prefix.drop_last() =~= bindings@.take(i as int));
            assert(prefix.last() == bindings@[i as int]);
        }
        insert_binding(&mut ordered, &bindings[i]);
        i = i + 1;
    }
    proof {
        assert(bindings@.take(bindings@.len() as int) =~= bindings@);
    }
    let mut results: Vec<Option<S7BindingResolution>> = Vec::new();
    let ghost shown = referenced(ordered@);
    let mut k: usize = 0;
    while k < ordered.len()
        invariant
            k <= ordered@.len(),
            results@.len() == k,
            shown == referenced(ordered@),
            forall|m: int| 0 <= m < k ==> (#[trigger] results@[m]) == s7_at(shown, m),
        decreases ordered@.len() - k,
    {
        let binding: &BindingFact = ordered[k];
        proof {
            assert(shown[k as int] == *binding);
        }
        let result: Option<S7BindingResolution> = match &binding.value {
            BindingValue::S7Class(class) => Some(S7BindingResolution::Supported(class.clone())),
            BindingValue::S7Refused(refusal) => Some(S7BindingResolution::Refused(*refusal)),
            BindingValue::Alias(name) => match find_latest(
                &ordered,
                binding.assignment_span.file,
                name.as_str(),
                k,
            ) {
                Some(j) => match &results[j] {
                    Some(resolution) => Some(resolution.clone()),
                    None => None,
                },
                None => None,
            },
            _ => None,
        };
        results.push(result);
        k = k + 1;
    }
    S7Bindings { ordered, results }
}

/// Finds the latest of the first `upto` bindings that has the name in the
/// file.
fn find_latest<'a>(
    ordered: &Vec<&'a BindingFact>,
    file: FileId,
    name: &str,
    upto: usize,
) -> (r: Option<usize>)
    requires
        upto <= ordered@.len(),
    ensures
        match r {
            Some(j) => j < upto && latest_in_file(
                referenced(ordered@),
                file,
                name@,
                upto as int,
            ) == Some(j as int),
            None => latest_in_file(referenced(ordered@), file, name@, upto as int) is None,
        },
{
    let mut j: usize = upto;
    while j > 0
        invariant
            j <= upto <= ordered@.len(),
            latest_in_file(referenced(ordered@), file, name@, upto as int) == latest_in_file(
                referenced(ordered@),
                file,
                name@,
                j as int,
            ),
        decreases j,
    {
        if ordered[j - 1].assignment_span.file == file && same_text(
            ordered[j - 1].name.canonical.as_str(),
            name,
        ) {
            return Some(j - 1);
        }
        j = j - 1;
    }
    None
}

/// The last of the first `upto` bindings that has an assignment span.
pub open spec fn binding_from(bindings: Seq<BindingFact>, span: Span, upto: int) -> Option<
    BindingFact,
>
    decreases upto,
{
    if upto <= 0 {
        None
    } else if bindings[upto - 1].assignment_span == span {
        Some(bindings[upto - 1])
    } else {
        binding_from(bindings, span, upto - 1)
    }
}

/// The binding with an assignment span.
pub open spec fn binding_at(bindings: Seq<BindingFact>, span: Span) -> Option<BindingFact> {
    binding_from(bindings, span, bindings.len() as int)
}

/// Finds the binding with an assignment span.
fn find_binding(bindings: &Vec<BindingFact>, span: Span) -> (r: Option<&BindingFact>)
    ensures
        opt_value(r) == binding_at(bindings@, span),
{
    let mut i: usize = bindings.len();
    while i > 0
        invariant
            i <= bindings@.len(),
            binding_at(bindings@, span) == binding_from(bindings@, span, i as int),
        decreases i,
    {
        if bindings[i - 1].assignment_span == span {
            return Some(&bindings[i - 1]);
        }
        i = i - 1;
    }
    None
}

/// The formals of the function that a binding holds, following names to the
/// only binding of each, as long as that one is assigned before the name is
/// read. Each step goes to an earlier assignment, so `depth` steps are enough
/// when it is the number of bindings.
pub open spec fn followed_formals(
    bindings: Seq<BindingFact>,
    sources: SourceMap,
    collate: bool,
    binding: BindingFact,
    depth: nat,
) -> Option<Formals>
    decreases depth,
{
    match binding.value {
        BindingValue::Function { .. } => binding.function_formals,
        BindingValue::Alias(target) => if depth == 0 {
            None
        } else {
            match only_binding(bindings, target@) {
                Some(next) => if runs_before(next, binding, Some(sources), collate) {
                    followed_formals(bindings, sources, collate, next, (depth - 1) as nat)
                } else {
                    None
                },
                None => None,
            }
        },
        _ => None,
    }
}

/// Follows a binding to the formals of a function.
fn binding_function_formals(
    binding: &BindingFact,
    bindings: &Vec<BindingFact>,
    sources: &SourceMap,
    collate: bool,
    depth: usize,
) -> (r: Option<Formals>)
    ensures
        r == followed_formals(bindings@, *sources, collate, *binding, depth as nat),
    decreases depth,
{
    match &binding.value {
        BindingValue::Function { .. } => match &binding.function_formals {
            Some(formals) => Some(share_formals(formals)),
            None => None,
        },
        BindingValue::Alias(target) => if depth == 0 {
            None
        } else {
            match find_only_binding(bindings, target.as_str()) {
                Some(i) => if assignment_precedes(&bindings[i], binding, Some(sources), collate) {
                    binding_function_formals(&bindings[i], bindings, sources, collate, depth - 1)
                } else {
                    None
                },
                None => None,
            }
        },
        _ => None,
    }
}

/// The formals of the function behind the binding with an assignment span.
pub open spec fn alias_function_formals(
    bindings: Seq<BindingFact>,
    sources: SourceMap,
    collate: bool,
    span: Span,
) -> Option<Formals> {
    match binding_at(bindings, span) {
        Some(binding) => followed_formals(bindings, sources, collate, binding, bindings.len()),
        None => None,
    }
}

/// Finds the formals of the function behind the binding with an assignment
/// span.
pub fn alias_function_formal_result(
    bindings: &Vec<BindingFact>,
    sources: &SourceMap,
    collate: bool,
    span: Span,
) -> (r: Option<Formals>)
    ensures
        r == alias_function_formals(bindings@, *sources, collate, span),
{
    match find_binding(bindings, span) {
        Some(binding) => binding_function_formals(
            binding,
            bindings,
            sources,
            collate,
            bindings.len(),
        ),
        None => None,
    }
}

/// The formal names of what a binding holds, following names as
/// [`followed_formals`] does. A chain that cannot be followed leaves them
/// unknown at the last assignment that was reached.
pub open spec fn followed_names(
    bindings: Seq<BindingFact>,
    sources: SourceMap,
    collate: bool,
    binding: BindingFact,
    depth: nat,
) -> FormalSummary
    decreases depth,
{
    match binding.value {
        BindingValue::Function { .. } => match binding.function_formals {
            Some(formals) => function_formals(formals, binding.assignment_span),
            None => FormalSummary::Unknown { span: binding.assignment_span },
        },
        BindingValue::Alias(target) => if depth == 0 {
            FormalSummary::Unknown { span: binding.assignment_span }
        } else {
            match only_binding(bindings, target@) {
                Some(next) => if runs_before(next, binding, Some(sources), collate) {
                    followed_names(bindings, sources, collate, next, (depth - 1) as nat)
                } else {
                    FormalSummary::Unknown { span: binding.assignment_span }
                },
                None => FormalSummary::Unknown { span: binding.assignment_span },
            }
        },
        _ => FormalSummary::NotFunction,
    }
}

/// Follows a binding to formal names.
fn binding_formal_names(
    binding: &BindingFact,
    bindings: &Vec<BindingFact>,
    sources: &SourceMap,
    collate: bool,
    depth: usize,
) -> (r: FormalNames)
    ensures
        r@ == followed_names(bindings@, *sources, collate, *binding, depth as nat),
    decreases depth,
{
    match &binding.value {
        BindingValue::Function { .. } => match &binding.function_formals {
            Some(formals) => formal_names_from_formals(formals, binding.assignment_span),
            None => FormalNames::Unknown { span: binding.assignment_span },
        },
        BindingValue::Alias(target) => if depth == 0 {
            FormalNames::Unknown { span: binding.assignment_span }
        } else {
            match find_only_binding(bindings, target.as_str()) {
                Some(i) => if assignment_precedes(&bindings[i], binding, Some(sources), collate) {
                    binding_formal_names(&bindings[i], bindings, sources, collate, depth - 1)
                } else {
                    FormalNames::Unknown { span: binding.assignment_span }
                },
                None => FormalNames::Unknown { span: binding.assignment_span },
            }
        },
        _ => FormalNames::NotFunction,
    }
}

/// The formal names behind the binding with an assignment span.
pub open spec fn alias_formals(
    bindings: Seq<BindingFact>,
    sources: SourceMap,
    collate: bool,
    span: Span,
) -> Option<FormalSummary> {
    match binding_at(bindings, span) {
        Some(binding) => Some(
            followed_names(bindings, sources, collate, binding, bindings.len()),
        ),
        None => None,
    }
}

/// Finds the formal names behind the binding with an assignment span.
pub fn alias_formal_result(
    bindings: &Vec<BindingFact>,
    sources: &SourceMap,
    collate: bool,
    span: Span,
) -> (r: Option<FormalNames>)
    ensures
        opt_summary(r) == alias_formals(bindings@, *sources, collate, span),
{
    match find_binding(bindings, span) {
        Some(binding) => Some(
            binding_formal_names(binding, bindings, sources, collate, bindings.len()),
        ),
        None => None,
    }
}

/// Whether a binding leads to a function, following names to the only binding
/// of each. A chain longer than the list of bindings turns in a circle.
pub open spec fn leads_to_function(
    bindings: Seq<BindingFact>,
    binding: BindingFact,
    depth: nat,
) -> bool
    decreases depth,
{
    match binding.value {
        BindingValue::Function { .. } => true,
        BindingValue::Alias(target) => if depth == 0 {
            false
        } else {
            match only_binding(bindings, target@) {
                Some(next) => leads_to_function(bindings, next, (depth - 1) as nat),
                None => false,
            }
        },
        _ => false,
    }
}

/// Whether a binding leads to a function.
fn binding_is_function(binding: &BindingFact, bindings: &Vec<BindingFact>, depth: usize) -> (r:
    bool)
    ensures
        r == leads_to_function(bindings@, *binding, depth as nat),
    decreases depth,
{
    match &binding.value {
        BindingValue::Function { .. } => true,
        BindingValue::Alias(target) => if depth == 0 {
            false
        } else {
            match find_only_binding(bindings, target.as_str()) {
                Some(i) => binding_is_function(&bindings[i], bindings, depth - 1),
                None => false,
            }
        },
        _ => false,
    }
}

/// The name of the function that a registration registers.
pub open spec fn registered_name(target: S3RegistrationTarget) -> Option<Seq<char>> {
    match target {
        S3RegistrationTarget::Implicit { name, .. } => Some(name@),
        S3RegistrationTarget::Explicit { name, .. } => Some(name@),
        _ => None,
    }
}

/// The name of the function that a registration registers.
pub fn registration_target_name(target: &S3RegistrationTarget) -> (r: Option<&str>)
    ensures
        crate::source::opt_str(r) == registered_name(*target),
{
    match target {
        S3RegistrationTarget::Implicit { name, .. } => Some(name.as_str()),
        S3RegistrationTarget::Explicit { name, .. } => Some(name.as_str()),
        _ => None,
    }
}

/// Whether a name is bound once in the package and leads to a function.
pub open spec fn names_function(bindings: Seq<BindingFact>, name: Seq<char>) -> bool {
    match only_binding(bindings, name) {
        Some(binding) => leads_to_function(bindings, binding, bindings.len()),
        None => false,
    }
}

/// The report of a registration whose target is no function of the package.
pub open spec fn invalid_registration(name: Seq<char>, span: Span) -> DiagnosticView {
    plain_diagnostic(
        Severity::Error,
        DiagnosticCode::InvalidS3Registration,
        "S3 registrar target `"@ + name + "` is missing or is not a local function"@,
        LabelView { span, message: "registration target is not a function"@ },
    )
}

/// The reports of the first `count` registrations.
pub open spec fn registration_reports(
    registrations: Seq<S3RegistrationFact>,
    bindings: Seq<BindingFact>,
    count: int,
) -> Seq<DiagnosticView>
    decreases count,
{
    if count <= 0 {
        Seq::empty()
    } else {
        let before = registration_reports(registrations, bindings, count - 1);
        let target = registrations[count - 1].target;
        match registered_name(target) {
            Some(name) => if names_function(bindings, name) {
                before
            } else {
                before.push(invalid_registration(name, target.spec_target_span()))
            },
            None => before,
        }
    }
}

/// Reports registrations whose target is no function of the package.
pub fn validate_registration_targets(
    registrations: &Vec<S3RegistrationFact>,
    bindings: &Vec<BindingFact>,
    diagnostics: &mut Diagnostics,
)
    ensures
        final(diagnostics)@ == old(diagnostics)@ + registration_reports(
            registrations@,
            bindings@,
            registrations@.len() as int,
        ),
{
    let mut i: usize = 0;
    proof {
        assert(diagnostics@ =~= diagnostics@ + registration_reports(registrations@, bindings@, 0));
    }
    while i < registrations.len()
        invariant
            i <= registrations@.len(),
            diagnostics@ == old(diagnostics)@ + registration_reports(
                registrations@,
                bindings@,
                i as int,
            ),
        decreases registrations@.len() - i,
    {
        let registration = &registrations[i];
        let ghost before = diagnostics@;
        if let Some(name) = registration_target_name(&registration.target) {
            let valid: bool = match find_only_binding(bindings, name) {
                Some(k) => binding_is_function(&bindings[k], bindings, bindings.len()),
                None => false,
            };
            if !valid {
                diagnostics.push(
                    Diagnostic::new(
                        Severity::Error,
                        DiagnosticCode::InvalidS3Registration,
                        text3(
                            "S3 registrar target `",
                            name,
                            "` is missing or is not a local function",
                        ),
                        Label::at(
                            registration.target.target_span(),
                            "registration target is not a function",
                        ),
                    ),
                );
                proof {
                    assert(diagnostics@ =~= old(diagnostics)@ + registration_reports(
                        registrations@,
                        bindings@,
                        i + 1,
                    ));
                }
            }
        }
        i = i + 1;
    }
}

/// Whether a list has a registration of the same pair.
pub open spec fn lists_pair(list: Seq<S3RegistrationFact>, registration: S3RegistrationFact) -> bool {
    exists|i: int|
        0 <= i < list.len() && (#[trigger] list[i]).generic@ == registration.generic@
            && list[i].class@ == registration.class@
}

/// The registrations of a function, the first of each pair of generic and
/// class.
pub open spec fn matching_registrations(
    registrations: Seq<S3RegistrationFact>,
    name: Seq<char>,
) -> Seq<S3RegistrationFact>
    decreases registrations.len(),
{
    if registrations.len() == 0 {
        Seq::empty()
    } else {
        let before = matching_registrations(registrations.drop_last(), name);
        let last = registrations.last();
        if registered_name(last.target) == Some(name) && !lists_pair(before, last) {
            before.push(last)
        } else {
            before
        }
    }
}

/// The registrations behind references.
pub open spec fn registrations_of<'a>(list: Seq<&'a S3RegistrationFact>) -> Seq<
    S3RegistrationFact,
> {
    list.map_values(|r: &'a S3RegistrationFact| *r)
}

/// Finds the registrations of a function.
pub fn registration_matches<'a>(registrations: &'a Vec<S3RegistrationFact>, name: &str) -> (r: Vec<
    &'a S3RegistrationFact,
>)
    ensures
        registrations_of(r@) == matching_registrations(registrations@, name@),
{
    let mut matches: Vec<&'a S3RegistrationFact> = Vec::new();
    let mut i: usize = 0;
    proof {
        assert(registrations_of(matches@) =~= matching_registrations(registrations@.take(0), name@));
    }
    while i < registrations.len()
        invariant
            i <= registrations@.len(),
            registrations_of(matches@) == matching_registrations(
                registrations@.take(i as int),
                name@,
            ),
        decreases registrations@.len() - i,
    {
        let registration = &registrations[i];
        let ghost before = registrations_of(matches@);
        proof {
            let prefix = registrations@.take(i + 1);
            assert(prefix.drop_last() =~= registrations@.take(i as int));
            assert(prefix.last() == registration);
        }
        let named: bool = match registration_target_name(&registration.target) {
            Some(target) => same_text(target, name),
            None => false,
        };
        if named && !has_pair(&matches, registration) {
            matches.push(registration);
            proof {
                assert(registrations_of(matches@) =~= before.push(*registration));
            }
        }
        i = i + 1;
    }
    proof {
        assert(registrations@.take(registrations@.len() as int) =~= registrations@);
    }
    matches
}

/// Whether a list has a registration of the same pair.
fn has_pair<'a>(list: &Vec<&'a S3RegistrationFact>, registration: &S3RegistrationFact) -> (r: bool)
    ensures
        r == lists_pair(registrations_of(list@), *registration),
{
    let ghost shown = registrations_of(list@);
    let mut i: usize = 0;
    while i < list.len()
        invariant
            i <= list@.len(),
            shown == registrations_of(list@),
            forall|k: int|
                0 <= k < i ==> !((#[trigger] shown[k]).generic@ == registration.generic@
                    && shown[k].class@ == registration.class@),
        decreases list@.len() - i,
    {
        assert(shown[i as int] == *list@[i as int]);
        if same_text(list[i].generic.as_str(), registration.generic.as_str()) && same_text(
            list[i].class.as_str(),
            registration.class.as_str(),
        ) {
            return true;
        }
        i = i + 1;
    }
    false
}

/// The method that a registration declares.
pub open spec fn declared_method(registration: S3RegistrationFact) -> MethodDeclaration {
    MethodDeclaration {
        generic: Spanned { value: registration.generic, span: registration.span },
        class: Spanned { value: registration.class, span: registration.span },
        origin: TagOrigin::Implicit { intro_span: registration.span },
    }
}

/// The method that a registration declares.
pub fn registration_method(registration: &S3RegistrationFact) -> (r: MethodDeclaration)
    ensures
        r == declared_method(*registration),
{
    MethodDeclaration {
        generic: Spanned::new(registration.generic.clone(), registration.span),
        class: Spanned::new(registration.class.clone(), registration.span),
        origin: TagOrigin::Implicit { intro_span: registration.span },
    }
}

/// No two registrations of a function register the same pair.
pub proof fn matching_registrations_differ(
    registrations: Seq<S3RegistrationFact>,
    name: Seq<char>,
)
    ensures
        forall|i: int, j: int|
            0 <= i < j < matching_registrations(registrations, name).len() ==> !((
            #[trigger] matching_registrations(registrations, name)[i]).generic@ == (
            #[trigger] matching_registrations(registrations, name)[j]).generic@
                && matching_registrations(registrations, name)[i].class@ == matching_registrations(
                registrations,
                name,
            )[j].class@),
    decreases registrations.len(),
{
    if registrations.len() > 0 {
        matching_registrations_differ(registrations.drop_last(), name);
    }
}

} // verus!
