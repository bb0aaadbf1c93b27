//! Conservative package-local S3 classification for implicit exports.
use crate::facts::RName;
use crate::model::ir::{
    MethodDeclaration, PackageModel, RdTopic, ResolvedUsage, TopicKey, TopicMap, UsageContribution,
};
use crate::model::view::{topic_views, MethodView, ResolvedView, TopicView, UsageView};
use crate::r_parse::{BindingFact, BindingValue};
use crate::source::{SourceMap, Spanned};
use crate::tags::TagOrigin;
use crate::text::{char_vec, contains_char, same_text, text_of};
use vstd::prelude::*;

verus! {

/// The model of [`S3ExportAnalysis`].
pub enum AnalysisView {
    OrdinaryExport,
    S3Method { generic: Seq<char>, class: Seq<char> },
    Unresolved,
}

/// The three outcomes of automatic S3 export analysis.
#[derive(Debug, PartialEq, Eq)]
pub enum S3ExportAnalysis {
    /// The object is known not to be an S3 method.
    OrdinaryExport,
    /// The object is a method of the selected local generic.
    S3Method { generic: String, class: String },
    /// Static facts are insufficient to decide whether the object is a method.
    Unresolved,
}

impl View for S3ExportAnalysis {
    type V = AnalysisView;

    open spec fn view(&self) -> AnalysisView {
        match self {
            S3ExportAnalysis::OrdinaryExport => AnalysisView::OrdinaryExport,
            S3ExportAnalysis::S3Method { generic, class } => AnalysisView::S3Method {
                generic: generic@,
                class: class@,
            },
            S3ExportAnalysis::Unresolved => AnalysisView::Unresolved,
        }
    }
}

/// What static facts say about the value of a binding.
#[derive(Debug, Clone, Copy, PartialEq, Eq, Structural)]
pub enum FunctionResolution {
    Function { calls_use_method: bool },
    NonFunction,
    Unknown,
}

/// Supplies positive facts about installed or otherwise known S3 generics.
///
/// The provider does not expose package layout or metadata representation;
/// callers may implement it with any source of facts. Local package bindings
/// always take precedence over this provider.
pub trait S3GenericProvider: Sized {
    /// The names that the provider knows as generics. A provider that says
    /// nothing more of itself knows a fixed set of names.
    open spec fn knows(&self, name: Seq<char>) -> bool {
        arbitrary::<spec_fn(Self, Seq<char>) -> bool>()(*self, name)
    }

    /// Whether the provider knows `name` as a generic.
    fn is_s3_generic(&self, name: &str) -> (r: bool)
        ensures
            r == self.knows(name@),
    ;
}

/// An empty provider used by the default, package-local-only entry points.
#[derive(Debug, Clone, Copy)]
pub struct EmptyS3GenericProvider;

impl S3GenericProvider for EmptyS3GenericProvider {
    open spec fn knows(&self, name: Seq<char>) -> bool {
        false
    }

    fn is_s3_generic(&self, _name: &str) -> (r: bool) {
        false
    }
}

/// Everything that S3 classification depends on.
pub struct S3Facts {
    pub bindings: Seq<BindingFact>,
    pub sources: Option<SourceMap>,
    pub collate: bool,
    pub known: spec_fn(Seq<char>) -> bool,
}

/// Whether some binding has the name.
pub open spec fn is_bound(bindings: Seq<BindingFact>, name: Seq<char>) -> bool {
    exists|i: int| 0 <= i < bindings.len() && (#[trigger] bindings[i]).name.canonical@ == name
}

/// Whether binding `i` has the name and no other binding has it.
pub open spec fn is_only_binding(bindings: Seq<BindingFact>, name: Seq<char>, i: int) -> bool {
    &&& 0 <= i < bindings.len()
    &&& bindings[i].name.canonical@ == name
    &&& forall|j: int|
        0 <= j < bindings.len() && j != i ==> (#[trigger] bindings[j]).name.canonical@ != name
}

/// The binding with the name, when there is exactly one.
pub open spec fn only_binding(bindings: Seq<BindingFact>, name: Seq<char>) -> Option<BindingFact> {
    if exists|i: int| is_only_binding(bindings, name, i) {
        Some(bindings[choose|i: int| is_only_binding(bindings, name, i)])
    } else {
        None
    }
}

/// Finds the binding with a name, when there is exactly one.
pub fn find_only_binding(bindings: &Vec<BindingFact>, name: &str) -> (r: Option<usize>)
    ensures
        match r {
            Some(i) => i < bindings@.len() && only_binding(bindings@, name@) == Some(
                bindings@[i as int],
            ),
            None => only_binding(bindings@, name@) is None,
        },
{
    let mut found: Option<usize> = None;
    let mut i: usize = 0;
    while i < bindings.len()
        invariant
            i <= bindings@.len(),
            match found {
                Some(k) => k < i && bindings@[k as int].name.canonical@ == name@ && forall|j: int|
                    0 <= j < i && j != k ==> (#[trigger] bindings@[j]).name.canonical@ != name@,
                None => forall|j: int|
                    0 <= j < i ==> (#[trigger] bindings@[j]).name.canonical@ != name@,
            },
        decreases bindings@.len() - i,
    {
        if same_text(bindings[i].name.canonical.as_str(), name) {
            if let Some(k) = found {
                proof {
                    assert forall|m: int| !is_only_binding(bindings@, name@, m) by {
                        assert(bindings@[k as int].name.canonical@ == name@);
                        assert(bindings@[i as int].name.canonical@ == name@);
                    }
                }
                return None;
            }
            found = Some(i);
        }
        i = i + 1;
    }
    proof {
        match found {
            Some(k) => {
                assert(is_only_binding(bindings@, name@, k as int));
                let m = choose|m: int| is_only_binding(bindings@, name@, m);
                assert(is_only_binding(bindings@, name@, m));
                assert(bindings@[m].name.canonical@ == name@);
                assert(m == k);
            },
            None => {
                assert forall|m: int| !is_only_binding(bindings@, name@, m) by {}
            },
        }
    }
    found
}

/// Whether some binding has a name.
pub fn has_binding(bindings: &Vec<BindingFact>, name: &str) -> (r: bool)
    ensures
        r == is_bound(bindings@, name@),
{
    let mut i: usize = 0;
    while i < bindings.len()
        invariant
            i <= bindings@.len(),
            forall|k: int| 0 <= k < i ==> (#[trigger] bindings@[k]).name.canonical@ != name@,
        decreases bindings@.len() - i,
    {
        if same_text(bindings[i].name.canonical.as_str(), name) {
            return true;
        }
        i = i + 1;
    }
    false
}

/// Whether the target assignment provably runs before the alias one: earlier
/// in the same file, or in a file that the default load order runs first.
pub open spec fn runs_before(
    target: BindingFact,
    alias: BindingFact,
    sources: Option<SourceMap>,
    collate: bool,
) -> bool {
    if target.assignment_span.file == alias.assignment_span.file {
        target.assignment_span.range.from < alias.assignment_span.range.from
    } else {
        match sources {
            Some(map) => !collate && map.loads_before(
                target.assignment_span.file,
                alias.assignment_span.file,
            ),
            None => false,
        }
    }
}

/// Whether the target assignment provably runs before the alias one.
pub fn assignment_precedes(
    target: &BindingFact,
    alias: &BindingFact,
    sources: Option<&SourceMap>,
    collate: bool,
) -> (r: bool)
    ensures
        r == runs_before(
            *target,
            *alias,
            (match sources {
                Some(map) => Some(*map),
                None => None,
            }),
            collate,
        ),
{
    if target.assignment_span.file.id == alias.assignment_span.file.id {
        target.assignment_span.range.from < alias.assignment_span.range.from
    } else {
        match sources {
            Some(map) => !collate && map.filename_precedes(
                target.assignment_span.file,
                alias.assignment_span.file,
            ),
            None => false,
        }
    }
}

/// What the facts say about a name, following at most `depth` bindings.
///
/// A name resolves only when exactly one binding has it. An alias resolves
/// like its target when exactly one binding has the target's name and that
/// assignment provably runs before the alias.
pub open spec fn resolution(facts: S3Facts, name: Seq<char>, depth: nat) -> FunctionResolution
    decreases depth,
{
    if depth == 0 {
        FunctionResolution::Unknown
    } else {
        match only_binding(facts.bindings, name) {
            None => FunctionResolution::Unknown,
            Some(fact) => match fact.value {
                BindingValue::Function { calls_use_method } => FunctionResolution::Function {
                    calls_use_method,
                },
                BindingValue::NonFunction => FunctionResolution::NonFunction,
                BindingValue::Alias(target) => match only_binding(facts.bindings, target@) {
                    Some(target_fact) => if runs_before(
                        target_fact,
                        fact,
                        facts.sources,
                        facts.collate,
                    ) {
                        resolution(facts, target@, (depth - 1) as nat)
                    } else {
                        FunctionResolution::Unknown
                    },
                    None => FunctionResolution::Unknown,
                },
                _ => FunctionResolution::Unknown,
            },
        }
    }
}

/// What the facts say about a name. No chain of aliases is longer than the
/// list of bindings.
pub open spec fn resolved(facts: S3Facts, name: Seq<char>) -> FunctionResolution {
    resolution(facts, name, facts.bindings.len())
}

/// Whether a name is a proven generic: a bound name when it resolves to a
/// function that dispatches, any other name when the provider knows it.
pub open spec fn proven_generic(facts: S3Facts, name: Seq<char>) -> bool {
    if is_bound(facts.bindings, name) {
        resolved(facts, name) == (FunctionResolution::Function { calls_use_method: true })
    } else {
        (facts.known)(name)
    }
}

/// The split of `name` at its first dot from `from` on whose prefix is a
/// proven generic, with text on both sides.
pub open spec fn first_split(facts: S3Facts, name: Seq<char>, from: int) -> AnalysisView
    decreases name.len() - from,
{
    if from < 0 || from >= name.len() {
        AnalysisView::Unresolved
    } else if name[from] == '.' && from > 0 && from + 1 < name.len() && proven_generic(
        facts,
        name.take(from),
    ) {
        AnalysisView::S3Method { generic: name.take(from), class: name.skip(from + 1) }
    } else {
        first_split(facts, name, from + 1)
    }
}

/// The split of a dotted function name: candidate prefixes are checked from left
/// to right, and the first proven generic is selected, which is the shortest.
pub open spec fn selected_split(facts: S3Facts, name: Seq<char>) -> AnalysisView {
    first_split(facts, name, 0)
}

/// The automatic classification of an exported object.
pub open spec fn analysis(facts: S3Facts, name: Seq<char>) -> AnalysisView {
    if !name.contains('.') {
        AnalysisView::OrdinaryExport
    } else {
        match resolved(facts, name) {
            FunctionResolution::NonFunction => AnalysisView::OrdinaryExport,
            FunctionResolution::Function { .. } => selected_split(facts, name),
            FunctionResolution::Unknown => AnalysisView::Unresolved,
        }
    }
}

/// Whether a name has a dot at a place with text on both sides, and the text
/// before it is a proven generic.
pub open spec fn splits_at(facts: S3Facts, name: Seq<char>, dot: int) -> bool {
    0 < dot && dot + 1 < name.len() && name[dot] == '.' && proven_generic(facts, name.take(dot))
}

/// Candidate prefixes are tried left to right: the shortest dotted prefix of the
/// name that is a proven generic is selected, and where there is none the name
/// stays unresolved.
pub proof fn shortest_proven_generic_wins(facts: S3Facts, name: Seq<char>)
    ensures
        forall|dot: int|
            #[trigger] splits_at(facts, name, dot) && (forall|other: int|
                other < dot ==> !(#[trigger] splits_at(facts, name, other))) ==> selected_split(
                facts,
                name,
            ) == (AnalysisView::S3Method { generic: name.take(dot), class: name.skip(dot + 1) }),
        (forall|dot: int| !(#[trigger] splits_at(facts, name, dot))) ==> selected_split(facts, name)
            is Unresolved,
{
    first_split_is_leftmost(facts, name, 0);
}

proof fn first_split_is_leftmost(facts: S3Facts, name: Seq<char>, from: int)
    requires
        0 <= from <= name.len(),
    ensures
        forall|dot: int|
            from <= dot && #[trigger] splits_at(facts, name, dot) && (forall|other: int|
                from <= other < dot ==> !(#[trigger] splits_at(facts, name, other)))
                ==> first_split(facts, name, from) == (AnalysisView::S3Method {
                generic: name.take(dot),
                class: name.skip(dot + 1),
            }),
        (forall|dot: int| from <= dot ==> !(#[trigger] splits_at(facts, name, dot)))
            ==> first_split(facts, name, from) is Unresolved,
    decreases name.len() - from,
{
    if from < name.len() {
        first_split_is_leftmost(facts, name, from + 1);
        let here = splits_at(facts, name, from);
        if here {
            assert forall|dot: int|
                from <= dot && #[trigger] splits_at(facts, name, dot) && (forall|other: int|
                    from <= other < dot ==> !(#[trigger] splits_at(facts, name, other))) implies
                first_split(facts, name, from) == (AnalysisView::S3Method {
                generic: name.take(dot),
                class: name.skip(dot + 1),
            }) by {
                if from < dot {
                    assert(splits_at(facts, name, from));
                }
            }
        }
    }
}

/// A selected split cuts the name at a dot: generic, dot and class make up the
/// whole name, neither part is empty, and the generic is proven.
pub proof fn split_recomposes(facts: S3Facts, name: Seq<char>)
    ensures
        selected_split(facts, name) matches AnalysisView::S3Method { generic, class } ==> generic
            + seq!['.'] + class == name && generic.len() > 0 && class.len() > 0 && proven_generic(
            facts,
            generic,
        ),
{
    first_split_recomposes(facts, name, 0);
}

proof fn first_split_recomposes(facts: S3Facts, name: Seq<char>, from: int)
    ensures
        first_split(facts, name, from) matches AnalysisView::S3Method { generic, class } ==> generic
            + seq!['.'] + class == name && generic.len() > 0 && class.len() > 0 && proven_generic(
            facts,
            generic,
        ),
    decreases name.len() - from,
{
    if 0 <= from < name.len() {
        if name[from] == '.' && from > 0 && from + 1 < name.len() && proven_generic(
            facts,
            name.take(from),
        ) {
            assert(name.take(from) + seq!['.'] + name.skip(from + 1) =~= name);
        } else {
            first_split_recomposes(facts, name, from + 1);
        }
    }
}

/// A package-local binding shadows provider metadata: what the provider says
/// about a bound name does not matter.
pub proof fn local_binding_shadows_provider(facts: S3Facts, other: S3Facts, name: Seq<char>)
    requires
        other == (S3Facts { known: other.known, ..facts }),
        is_bound(facts.bindings, name),
    ensures
        proven_generic(facts, name) == proven_generic(other, name),
{
    provider_does_not_resolve(facts, other, name, facts.bindings.len());
}

proof fn provider_does_not_resolve(facts: S3Facts, other: S3Facts, name: Seq<char>, depth: nat)
    requires
        other == (S3Facts { known: other.known, ..facts }),
    ensures
        resolution(facts, name, depth) == resolution(other, name, depth),
    decreases depth,
{
    if depth > 0 {
        match only_binding(facts.bindings, name) {
            Some(fact) => match fact.value {
                BindingValue::Alias(target) => {
                    provider_does_not_resolve(facts, other, target@, (depth - 1) as nat);
                },
                _ => {},
            },
            None => {},
        }
    }
}

/// Resolves unique package-local binding facts and selects S3 method splits.
pub struct S3Analyzer<'a, P: S3GenericProvider> {
    pub bindings: &'a Vec<BindingFact>,
    pub provider: &'a P,
    pub collate: bool,
    pub sources: Option<&'a SourceMap>,
}

/// The facts that a package, its sources and a provider give.
pub open spec fn facts_of<P: S3GenericProvider>(
    bindings: Seq<BindingFact>,
    sources: Option<SourceMap>,
    collate: bool,
    provider: P,
) -> S3Facts {
    S3Facts { bindings, sources, collate, known: |name: Seq<char>| provider.knows(name) }
}

impl<'a, P: S3GenericProvider> S3Analyzer<'a, P> {
    /// The facts that this analyzer works on.
    pub open spec fn facts(&self) -> S3Facts {
        facts_of(
            self.bindings@,
            match self.sources {
                Some(map) => Some(*map),
                None => None,
            },
            self.collate,
            *self.provider,
        )
    }

    /// An analyzer for the bindings of a package.
    pub fn new(
        bindings: &'a Vec<BindingFact>,
        collate: bool,
        sources: Option<&'a SourceMap>,
        provider: &'a P,
    ) -> (r: Self)
        ensures
            r.bindings == bindings,
            r.provider == provider,
            r.collate == collate,
            r.sources == sources,
    {
        S3Analyzer { bindings, provider, collate, sources }
    }

    /// Follows at most `depth` bindings from `name`.
    fn resolve_within(&self, name: &str, depth: usize) -> (r: FunctionResolution)
        ensures
            r == resolution(self.facts(), name@, depth as nat),
        decreases depth,
    {
        if depth == 0 {
            return FunctionResolution::Unknown;
        }
        match find_only_binding(self.bindings, name) {
            None => FunctionResolution::Unknown,
            Some(i) => match &self.bindings[i].value {
                BindingValue::Function { calls_use_method } => FunctionResolution::Function {
                    calls_use_method: *calls_use_method,
                },
                BindingValue::NonFunction => FunctionResolution::NonFunction,
                BindingValue::Alias(target) => {
                    match find_only_binding(self.bindings, target.as_str()) {
                        Some(k) => if self.target_precedes_alias(
                            &self.bindings[i],
                            &self.bindings[k],
                        ) {
                            self.resolve_within(target.as_str(), depth - 1)
                        } else {
                            FunctionResolution::Unknown
                        },
                        None => FunctionResolution::Unknown,
                    }
                },
                _ => FunctionResolution::Unknown,
            },
        }
    }

    /// What the facts say about a name.
    pub fn resolve(&self, name: &str) -> (r: FunctionResolution)
        ensures
            r == resolved(self.facts(), name@),
    {
        self.resolve_within(name, self.bindings.len())
    }

    /// Whether the target assignment provably runs before the alias one.
    fn target_precedes_alias(&self, alias: &BindingFact, target: &BindingFact) -> (r: bool)
        ensures
            r == runs_before(*target, *alias, self.facts().sources, self.facts().collate),
    {
        assignment_precedes(target, alias, self.sources, self.collate)
    }

    /// Whether a name resolves to a function.
    pub fn is_proven_function(&self, name: &str) -> (r: bool)
        ensures
            r == (resolved(self.facts(), name@) is Function),
    {
        matches!(self.resolve(name), FunctionResolution::Function { .. })
    }

    /// Classifies an exported object.
    pub fn analyze(&self, object: &RName) -> (r: S3ExportAnalysis)
        ensures
            r@ == analysis(self.facts(), object@),
    {
        let name = object.as_str();
        if !contains_char(name, '.') {
            return S3ExportAnalysis::OrdinaryExport;
        }
        match self.resolve(name) {
            FunctionResolution::NonFunction => S3ExportAnalysis::OrdinaryExport,
            FunctionResolution::Function { .. } => self.select_split(name),
            FunctionResolution::Unknown => S3ExportAnalysis::Unresolved,
        }
    }

    /// Selects the split of a dotted function name: its shortest prefix that is a
    /// proven generic.
    pub fn select_split(&self, name: &str) -> (r: S3ExportAnalysis)
        ensures
            r@ == selected_split(self.facts(), name@),
    {
        let chars = char_vec(name);
        let mut i: usize = 0;
        while i < chars.len()
            invariant
                i <= chars@.len(),
                chars@ == name@,
                selected_split(self.facts(), name@) == first_split(self.facts(), name@, i as int),
            decreases chars@.len() - i,
        {
            if chars[i] == '.' && i > 0 && i + 1 < chars.len() {
                let generic = text_of(&chars, 0, i);
                assert(generic@ =~= name@.take(i as int));
                if self.is_s3_generic(generic.as_str()) {
                    let class = text_of(&chars, i + 1, chars.len());
                    assert(class@ =~= name@.skip(i + 1));
                    return S3ExportAnalysis::S3Method { generic, class };
                }
            }
            i = i + 1;
        }
        S3ExportAnalysis::Unresolved
    }

    /// Whether a name is a proven generic. A package-local binding shadows
    /// installed generic metadata, including unresolved and ambiguous local
    /// facts.
    fn is_s3_generic(&self, name: &str) -> (r: bool)
        ensures
            r == proven_generic(self.facts(), name@),
    {
        if has_binding(self.bindings, name) {
            matches!(self.resolve(name), FunctionResolution::Function { calls_use_method: true })
        } else {
            self.provider.is_s3_generic(name)
        }
    }
}

/// A usage contribution after classification: generated usage of an object
/// that is provably a method, and that declares none, gets that method.
pub open spec fn classified_usage(facts: S3Facts, usage: UsageView) -> UsageView {
    match (usage.method, usage.usage, usage.object) {
        (None, ResolvedView::Generated(_), Some(object)) => match analysis(facts, object@) {
            AnalysisView::S3Method { generic, class } => UsageView {
                method: Some(
                    MethodView {
                        generic,
                        generic_span: usage.block_span,
                        class,
                        class_span: usage.block_span,
                        origin: TagOrigin::Implicit { intro_span: usage.block_span },
                    },
                ),
                ..usage
            },
            _ => usage,
        },
        _ => usage,
    }
}

/// A topic after classification of its usage contributions.
pub open spec fn classified_topic(facts: S3Facts, topic: TopicView) -> TopicView {
    TopicView {
        usages: topic.usages.map_values(|usage: UsageView| classified_usage(facts, usage)),
        ..topic
    }
}

/// All topics after classification.
pub open spec fn classified_topics(facts: S3Facts, topics: Map<Seq<char>, TopicView>) -> Map<
    Seq<char>,
    TopicView,
> {
    topics.map_values(|topic: TopicView| classified_topic(facts, topic))
}

/// Classifies the usage contributions of one topic.
fn classify_topic<P: S3GenericProvider>(topic: RdTopic, analyzer: &S3Analyzer<P>) -> (r: RdTopic)
    ensures
        r@ == classified_topic(analyzer.facts(), topic@),
{
    let mut topic = topic;
    let ghost before = topic@;
    let ghost facts = analyzer.facts();
    let ghost given = topic.usages@;
    let mut usages: Vec<UsageContribution> = Vec::new();
    let RdTopic { usages: listed, .. } = topic;
    for contribution in it: listed
        invariant
            it.seq() == given,
            facts == analyzer.facts(),
            usages@.len() == it.index(),
            forall|j: int|
                0 <= j < it.index() ==> (#[trigger] usages@[j])@ == classified_usage(
                    facts,
                    given[j]@,
                ),
    {
        let mut contribution = contribution;
        let decided: Option<MethodDeclaration> = match (
            &contribution.method,
            &contribution.usage,
            &contribution.object,
        ) {
            (None, ResolvedUsage::Generated(_), Some(object)) => match analyzer.analyze(object) {
                S3ExportAnalysis::S3Method { generic, class } => Some(
                    MethodDeclaration {
                        generic: Spanned::new(generic, contribution.block_span),
                        class: Spanned::new(class, contribution.block_span),
                        origin: TagOrigin::Implicit { intro_span: contribution.block_span },
                    },
                ),
                _ => None,
            },
            _ => None,
        };
        if let Some(method) = decided {
            contribution.method = Some(method);
        }
        usages.push(contribution);
    }
    let topic = RdTopic { usages, ..topic };
    proof {
        assert(topic@.usages =~= before.usages.map_values(
            |usage: UsageView| classified_usage(facts, usage),
        ));
    }
    topic
}

/// Applies the same proven S3 split used by NAMESPACE lowering to generated
/// Rd usage contributions. Explicit methods and non-generated usage remain
/// untouched.
pub fn classify_usage_methods<P: S3GenericProvider>(
    package: PackageModel,
    sources: &SourceMap,
    provider: &P,
) -> (r: PackageModel)
    ensures
        r == (PackageModel { topics: r.topics, ..package }),
        r.topics.keys() == package.topics.keys(),
        topic_views(r.topics) == classified_topics(
            facts_of(package.bindings@, Some(*sources), package.collate, *provider),
            topic_views(package.topics),
        ),
{
    let PackageModel { topics, namespace, bindings, registrations, collate } = package;
    let ghost before = topics;
    let ghost facts = facts_of(bindings@, Some(*sources), collate, *provider);
    let analyzer = S3Analyzer::new(&bindings, collate, Some(sources), provider);
    let mut entries: Vec<(TopicKey, RdTopic)> = Vec::new();
    for entry in it: topics.entries
        invariant
            it.seq() == before.entries@,
            facts == analyzer.facts(),
            entries@.len() == it.index(),
            forall|k: int|
                #![trigger entries@[k]]
                0 <= k < it.index() ==> entries@[k].0 == before.entries@[k].0 && entries@[k].1@
                    == classified_topic(facts, before.entries@[k].1@),
    {
        let (key, topic) = entry;
        entries.push((key, classify_topic(topic, &analyzer)));
    }
    let topics = TopicMap { entries };
    proof {
        assert(topics.keys() =~= before.keys());
        assert forall|key: Seq<char>| before.keys().contains(key) implies #[trigger] topic_views(
            topics,
        )[key] == classified_topics(facts, topic_views(before))[key] by {
            let i = before.keys().index_of(key);
            assert(before.keys()[i] == key);
            assert(topics.keys().index_of(key) == i);
        }
        assert(topic_views(topics) =~= classified_topics(facts, topic_views(before)));
    }
    PackageModel { topics, namespace, bindings, registrations, collate }
}

} // verus!
