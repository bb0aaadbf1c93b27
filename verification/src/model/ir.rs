//! Public intermediate representation for package documentation topics.
//!
//! These source-backed types are kept apart from merge and resolution logic so
//! later layers can depend on stable model data without depending on how it
//! was assembled.
use crate::diagnostic::Diagnostics;
use crate::facts::{AuthorsParseError, BlockId, RName};
use crate::r_parse::{BindingFact, BlockTarget};
use crate::s3_register::S3RegistrationFact;
use crate::source::{FileId, Span, Spanned};
use crate::tags::{
    DocName, ExamplesContent, InheritFields, InheritTarget, Keyword, MarkdownText, NamespaceTag,
    ParamName, ParsedTag, PlainText, RCodeText, TagOrigin, TagValue,
};
use crate::text::{at_most, increasing_texts, same_text, text_le, text_le_antisymmetric,
    text_le_total, text_le_transitive, text_lt};
use crate::usage::GeneratedUsage;
use vstd::prelude::*;

use super::view::{empty_topic, AliasView, FormalContributionView, UsageView};

verus! {

/// Identifies one documentation block without confusing file-local block IDs.
#[derive(Debug, Clone, Copy, PartialEq, Eq, Structural, Hash, PartialOrd, Ord)]
pub struct BlockRef {
    /// The source file containing the block.
    pub file: FileId,
    /// The file-local block identity.
    pub block: BlockId,
}

/// A block after tags have been parsed but before topic merging.
#[derive(Debug, PartialEq, Eq)]
pub struct DocumentedBlock {
    /// The stable identity of the documentation block.
    pub block: BlockRef,
    /// The source span of the documentation block.
    pub block_span: Span,
    /// The syntax-only object associated with the block.
    pub target: BlockTarget,
    /// The semantic tags belonging to the block.
    pub tags: Vec<ParsedTag>,
}

/// The result of building all topics and deferred namespace requests.
#[derive(Debug, PartialEq, Eq)]
pub struct ModelOutput {
    /// The package-wide topic and namespace intermediate representation.
    pub package: PackageModel,
    /// Errors and recoverable issues found while merging blocks.
    pub diagnostics: Diagnostics,
}

/// Package-wide model data awaiting inheritance, Rd, and NAMESPACE lowering.
#[derive(Debug, PartialEq, Eq)]
pub struct PackageModel {
    /// Topics keyed by their eventual Rd file identity.
    pub topics: TopicMap,
    /// NAMESPACE requests retained verbatim for the namespace layer.
    pub namespace: Vec<NamespaceRequest>,
    /// All top-level package bindings used by static namespace analysis.
    pub bindings: Vec<BindingFact>,
    /// Static S3 registrar facts collected from package source.
    pub registrations: Vec<S3RegistrationFact>,
    /// Whether DESCRIPTION contains any `Collate`-family directive.
    pub collate: bool,
}

/// The identity used to merge blocks into one Rd topic.
#[derive(Debug, PartialEq, Eq, Hash, PartialOrd, Ord)]
pub struct TopicKey(pub String);

impl View for TopicKey {
    type V = Seq<char>;

    open spec fn view(&self) -> Seq<char> {
        self.0@
    }
}

impl Clone for TopicKey {
    fn clone(&self) -> (r: Self)
        ensures
            r == *self,
    {
        TopicKey(self.0.clone())
    }
}

impl TopicKey {
    /// Returns the textual topic key without exposing its representation.
    pub fn as_str(&self) -> (r: &str)
        ensures
            r@ == self@,
    {
        self.0.as_str()
    }
}

/// One merged topic before it is converted to Rd nodes.
#[derive(Debug, PartialEq, Eq)]
pub struct RdTopic {
    /// The Rd display name from the first contribution after ordering, using
    /// its explicit or implicit primary name. Merge, local-lookup, and output
    /// path identity are carried separately by `TopicKey`.
    pub name: DocName,
    /// Whether this is the package-level documentation topic.
    pub kind: RdTopicKind,
    /// The first package/data contribution that established a non-ordinary
    /// kind. This remains available even when aliases are suppressed.
    pub kind_origin: Option<TopicKindOrigin>,
    /// Whether the one diagnostic for a package/data kind conflict was emitted.
    pub kind_conflict_reported: bool,
    /// Documentation blocks contributing to this topic, in merge order.
    pub blocks: Vec<BlockRef>,
    /// Aliases in first-seen order, retaining the source span of each claim.
    pub aliases: Vec<Alias>,
    /// Keywords in first-seen order.
    pub keywords: Vec<Keyword>,
    /// The one title slot, when supplied.
    pub title: Option<TagValue<MarkdownText>>,
    /// The one description slot, when supplied.
    pub description: Option<TagValue<MarkdownText>>,
    /// Whether `@description NULL` in any block contributing to a package
    /// topic suppresses DESCRIPTION fallback and title-based description
    /// regeneration.
    pub description_suppressed: bool,
    /// The one details slot, when supplied.
    pub details: Option<TagValue<MarkdownText>>,
    /// The one return-description slot, when supplied.
    pub return_value: Option<TagValue<MarkdownText>>,
    /// The one ordinary or conditional examples slot, when supplied.
    pub examples: Option<TagValue<ExamplesContent>>,
    /// Usage and optional S3 method contributions in merge order.
    pub usages: Vec<UsageContribution>,
    /// Ordered formal-name facts contributed by documented blocks.
    pub formals: Vec<FormalContribution>,
    /// Parameter descriptions in contribution order; names remain available
    /// on each entry for conflict detection and later lookup.
    pub params: Vec<ParamDescription>,
    /// Named sections in contribution order; titles remain available on each
    /// entry for conflict detection and later lookup.
    pub sections: Vec<NamedSection>,
    /// The one see-also slot, when supplied.
    pub see_also: Option<TagValue<MarkdownText>>,
    /// The one references slot, when supplied.
    pub references: Option<TagValue<MarkdownText>>,
    /// The one note slot, when supplied.
    pub note: Option<TagValue<MarkdownText>>,
    /// The one format slot, when supplied.
    pub format: Option<TagValue<MarkdownText>>,
    /// The first data-object contribution that omitted `@format`.
    pub missing_data_format_span: Option<Span>,
    /// The one source slot, when supplied.
    pub source: Option<TagValue<MarkdownText>>,
    /// The one author slot, when supplied.
    pub author: Option<TagValue<MarkdownText>>,
    /// Inheritance requests awaiting a separate resolution layer.
    pub inheritance: Vec<InheritanceRequest>,
    /// Structured DESCRIPTION-derived author content for package topics.
    pub package_author: Option<PackageAuthor>,
    /// Structured DESCRIPTION-derived see-also content for package topics.
    pub package_see_also: Option<PackageSeeAlso>,
    /// DESCRIPTION diagnostics waiting for resolved fields at the Rd stage.
    pub package_metadata_diagnostics: Option<PackageMetadataDiagnosticState>,
}

/// DESCRIPTION-derived diagnostic context for one package topic.
#[derive(Debug, PartialEq, Eq)]
pub struct PackageMetadataDiagnosticState {
    /// The first `"_PACKAGE"` sentinel span contributing to the topic.
    pub anchor: Span,
    /// Whether DESCRIPTION has no description and no fallback was suppressed.
    pub missing_description: bool,
    /// A malformed Authors@R value awaiting a final author-field check.
    pub authors_parse_error: Option<AuthorsParseError>,
}

/// Structured package author sections derived from `Authors@R`.
#[derive(Debug, PartialEq, Eq)]
pub struct PackageAuthor {
    pub maintainers: Vec<PackagePerson>,
    pub authors: Vec<PackagePerson>,
    pub other_contributors: Vec<PackagePerson>,
}

/// One author entry and its structured inline identity markup.
#[derive(Debug, PartialEq, Eq)]
pub struct PackagePerson {
    pub name: String,
    pub email: Option<String>,
    pub identities: Vec<PackageIdentity>,
    pub comments: Vec<PackageComment>,
    pub roles: Vec<String>,
}

/// A non-identity Authors@R comment retained for package author rendering.
#[derive(Debug, PartialEq, Eq)]
pub struct PackageComment {
    pub label: Option<String>,
    pub value: String,
}

/// An ORCID or ROR identity link.
#[derive(Debug, PartialEq, Eq)]
pub struct PackageIdentity {
    pub label: String,
    pub href: String,
}

/// Structured package links derived from URL and BugReports fields.
#[derive(Debug, PartialEq, Eq)]
pub struct PackageSeeAlso {
    pub urls: Vec<PackageLink>,
    pub bug_reports: Option<String>,
}

/// A package URL or DOI link.
#[derive(Debug, PartialEq, Eq)]
pub struct PackageLink {
    pub target: String,
    pub doi: bool,
}

/// The kind of Rd topic being generated.
#[derive(Debug, Clone, Copy, PartialEq, Eq, Structural)]
pub enum RdTopicKind {
    /// An ordinary object topic.
    Ordinary,
    /// A data object topic, which emits `\\docType{data}`.
    Data,
    /// A package-level topic, which emits `\\docType{package}`.
    Package,
}

/// The contribution that gave a topic its kind.
#[derive(Debug, Clone, Copy, PartialEq, Eq, Structural)]
pub struct TopicKindOrigin {
    pub kind: RdTopicKind,
    pub span: Span,
}

/// The first failed formal list, or all formal names by first occurrence.
pub open spec fn merged_formal_names(formals: Seq<FormalContribution>) -> FormalSummary
    decreases formals.len(),
{
    if formals.len() == 0 {
        FormalSummary::NotFunction
    } else {
        match merged_formal_names(formals.drop_last()) {
            FormalSummary::NotFunction => match formals.last().names {
                FormalNames::NotFunction => FormalSummary::NotFunction,
                FormalNames::Known(list) => FormalSummary::Known(
                    unique_formals(Seq::empty(), list@),
                ),
                FormalNames::Unknown { span } => FormalSummary::Unknown { span },
                FormalNames::Undecodable { span } => FormalSummary::Undecodable { span },
            },
            FormalSummary::Known(before) => match formals.last().names {
                FormalNames::NotFunction => FormalSummary::Known(before),
                FormalNames::Known(list) => FormalSummary::Known(unique_formals(before, list@)),
                FormalNames::Unknown { span } => FormalSummary::Unknown { span },
                FormalNames::Undecodable { span } => FormalSummary::Undecodable { span },
            },
            failed => failed,
        }
    }
}

/// The model of [`FormalNames`].
pub enum FormalSummary {
    NotFunction,
    Known(Seq<FormalName>),
    Unknown { span: Span },
    Undecodable { span: Span },
}

/// Whether a name occurs among formals.
pub open spec fn names_formal(formals: Seq<FormalName>, name: Seq<char>) -> bool {
    exists|i: int| 0 <= i < formals.len() && (#[trigger] formals[i]).name.0@ == name
}

/// `before`, followed by the formals of `list` whose names are new.
pub open spec fn unique_formals(before: Seq<FormalName>, list: Seq<FormalName>) -> Seq<FormalName>
    decreases list.len(),
{
    if list.len() == 0 {
        before
    } else {
        let so_far = unique_formals(before, list.drop_last());
        if names_formal(so_far, list.last().name.0@) {
            so_far
        } else {
            so_far.push(list.last())
        }
    }
}

/// No two formals share a name.
pub open spec fn distinct_formals(formals: Seq<FormalName>) -> bool {
    forall|i: int, j: int|
        0 <= i < j < formals.len() ==> (#[trigger] formals[i]).name.0@ != (
        #[trigger] formals[j]).name.0@
}

/// Merging never introduces a repeated formal name.
pub proof fn unique_formals_are_distinct(before: Seq<FormalName>, list: Seq<FormalName>)
    requires
        distinct_formals(before),
    ensures
        distinct_formals(unique_formals(before, list)),
    decreases list.len(),
{
    if list.len() > 0 {
        unique_formals_are_distinct(before, list.drop_last());
    }
}

/// The inheritance domain of a topic lists every formal name once.
pub proof fn inheritance_domain_has_no_repeats(formals: Seq<FormalContribution>)
    ensures
        match merged_formal_names(formals) {
            FormalSummary::Known(names) => distinct_formals(names),
            _ => true,
        },
    decreases formals.len(),
{
    if formals.len() > 0 {
        inheritance_domain_has_no_repeats(formals.drop_last());
        match formals.last().names {
            FormalNames::Known(list) => {
                unique_formals_are_distinct(Seq::empty(), list@);
                match merged_formal_names(formals.drop_last()) {
                    FormalSummary::Known(before) => {
                        unique_formals_are_distinct(before, list@);
                    },
                    _ => {},
                }
            },
            _ => {},
        }
    }
}

/// A failed formal list is reported whatever is contributed after it.
pub proof fn failed_formals_stay_failed(formals: Seq<FormalContribution>, more: Seq<
    FormalContribution,
>)
    requires
        merged_formal_names(formals) is Unknown || merged_formal_names(formals) is Undecodable,
    ensures
        merged_formal_names(formals + more) == merged_formal_names(formals),
    decreases more.len(),
{
    if more.len() == 0 {
        assert(formals + more =~= formals);
    } else {
        failed_formals_stay_failed(formals, more.drop_last());
        assert((formals + more).drop_last() =~= formals + more.drop_last());
    }
}

impl RdTopic {
    /// A topic without contributions.
    pub fn new(name: DocName) -> (r: Self)
        ensures
            r@ == empty_topic(name.0@),
    {
        let topic = RdTopic {
            name,
            kind: RdTopicKind::Ordinary,
            kind_origin: None,
            kind_conflict_reported: false,
            blocks: Vec::new(),
            aliases: Vec::new(),
            keywords: Vec::new(),
            title: None,
            description: None,
            description_suppressed: false,
            details: None,
            return_value: None,
            examples: None,
            usages: Vec::new(),
            formals: Vec::new(),
            params: Vec::new(),
            sections: Vec::new(),
            see_also: None,
            references: None,
            note: None,
            format: None,
            missing_data_format_span: None,
            source: None,
            author: None,
            inheritance: Vec::new(),
            package_author: None,
            package_see_also: None,
            package_metadata_diagnostics: None,
        };
        proof {
            assert(topic@.blocks =~= Seq::<BlockRef>::empty());
            assert(topic@.aliases =~= Seq::<AliasView>::empty());
            assert(topic@.keywords =~= Seq::<Seq<char>>::empty());
            assert(topic@.usages =~= Seq::<UsageView>::empty());
            assert(topic@.formals =~= Seq::<FormalContributionView>::empty());
            assert(topic@.params =~= Seq::<ParamDescription>::empty());
            assert(topic@.sections =~= Seq::<NamedSection>::empty());
            assert(topic@.inheritance =~= Seq::<InheritanceRequest>::empty());
        }
        topic
    }

    /// Returns the ordered formal names available as this topic's inheritance
    /// target domain.
    ///
    /// Names are concatenated in contribution order and de-duplicated by
    /// first occurrence, matching roxygen2's `unique()` over concatenated
    /// formals. A non-function contribution is ignored when a function
    /// contribution is present. If any function contribution is structurally
    /// unreadable or contains an undecodable name, the corresponding failure
    /// state is returned instead of guessing from the remaining contributions.
    pub fn inheritance_formal_names(&self) -> (r: FormalNames)
        ensures
            r@ == merged_formal_names(self.formals@),
    {
        let mut names: Vec<FormalName> = Vec::new();
        let mut saw_function: bool = false;
        let mut i: usize = 0;
        while i < self.formals.len()
            invariant
                i <= self.formals@.len(),
                merged_formal_names(self.formals@.take(i as int)) == (if saw_function {
                    FormalSummary::Known(names@)
                } else {
                    FormalSummary::NotFunction
                }),
                !saw_function ==> names@ == Seq::<FormalName>::empty(),
            decreases self.formals@.len() - i,
        {
            let contribution = &self.formals[i];
            proof {
                let prefix = self.formals@.take(i + 1);
                assert(prefix.drop_last() =~= self.formals@.take(i as int));
                assert(prefix.last() == contribution);
                assert(self.formals@ =~= prefix + self.formals@.skip(i + 1));
            }
            match &contribution.names {
                FormalNames::NotFunction => {},
                FormalNames::Known(formals) => {
                    let ghost before = names@;
                    let mut k: usize = 0;
                    while k < formals.len()
                        invariant
                            k <= formals@.len(),
                            names@ == unique_formals(before, formals@.take(k as int)),
                        decreases formals@.len() - k,
                    {
                        let formal = &formals[k];
                        proof {
                            let prefix = formals@.take(k + 1);
                            assert(prefix.drop_last() =~= formals@.take(k as int));
                            assert(prefix.last() == formal);
                        }
                        if !lists_formal(&names, formal.name.0.as_str()) {
                            names.push(formal.clone());
                        }
                        k = k + 1;
                    }
                    proof {
                        assert(formals@.take(formals@.len() as int) =~= formals@);
                    }
                    saw_function = true;
                },
                FormalNames::Unknown { span } => {
                    proof {
                        failed_formals_stay_failed(
                            self.formals@.take(i + 1),
                            self.formals@.skip(i + 1),
                        );
                    }
                    return FormalNames::Unknown { span: *span };
                },
                FormalNames::Undecodable { span } => {
                    proof {
                        failed_formals_stay_failed(
                            self.formals@.take(i + 1),
                            self.formals@.skip(i + 1),
                        );
                    }
                    return FormalNames::Undecodable { span: *span };
                },
            }
            i = i + 1;
        }
        proof {
            assert(self.formals@.take(self.formals@.len() as int) =~= self.formals@);
        }
        if saw_function {
            FormalNames::Known(names)
        } else {
            FormalNames::NotFunction
        }
    }
}

/// Whether a name occurs among formals.
fn lists_formal(formals: &Vec<FormalName>, name: &str) -> (r: bool)
    ensures
        r == names_formal(formals@, name@),
{
    let mut i: usize = 0;
    while i < formals.len()
        invariant
            i <= formals@.len(),
            forall|k: int| 0 <= k < i ==> (#[trigger] formals@[k]).name.0@ != name@,
        decreases formals@.len() - i,
    {
        if same_text(formals[i].name.0.as_str(), name) {
            return true;
        }
        i = i + 1;
    }
    false
}

/// One formal name of a documented function, with the span that introduced it.
#[derive(Debug, PartialEq, Eq)]
pub struct FormalName {
    /// The decoded formal name.
    pub name: ParamName,
    /// The source span of the formal name.
    pub span: Span,
}

impl Clone for FormalName {
    fn clone(&self) -> (r: Self)
        ensures
            r == *self,
    {
        FormalName { name: self.name.clone(), span: self.span }
    }
}

/// The formal-name facts contributed by one documented block.
#[derive(Debug, PartialEq, Eq)]
pub struct FormalContribution {
    /// The block that supplied these facts.
    pub block: BlockRef,
    /// Whether and how the block's formal list was read.
    pub names: FormalNames,
}

/// How much is known about one block's formal names.
#[derive(Debug, PartialEq, Eq)]
pub enum FormalNames {
    /// The documented object is not a function.
    NotFunction,
    /// The object is a function and its complete formal list was read.
    /// An empty vector therefore means a known function with no formals.
    Known(Vec<FormalName>),
    /// The object is a function, but its formal list has invalid structure.
    Unknown {
        /// A source span identifying the failed function structure.
        span: Span,
    },
    /// The formal list was structurally readable, but a name could not be
    /// decoded without guessing at R's escape semantics.
    Undecodable {
        /// The source span of the undecodable name.
        span: Span,
    },
}

impl View for FormalNames {
    type V = FormalSummary;

    open spec fn view(&self) -> FormalSummary {
        match self {
            FormalNames::NotFunction => FormalSummary::NotFunction,
            FormalNames::Known(list) => FormalSummary::Known(list@),
            FormalNames::Unknown { span } => FormalSummary::Unknown { span: *span },
            FormalNames::Undecodable { span } => FormalSummary::Undecodable { span: *span },
        }
    }
}

/// One alias claim retained with the source span needed for package-wide
/// ownership diagnostics.
#[derive(Debug, PartialEq, Eq)]
pub struct Alias {
    /// The alias text.
    pub name: DocName,
    /// The source span that claims this alias.
    pub span: Span,
}

/// A parameter description retained with the tag provenance needed by later
/// diagnostics and Rd origin mapping.
#[derive(Debug, PartialEq, Eq)]
pub struct ParamDescription {
    /// The documented parameter name.
    pub name: ParamName,
    /// The normalized Markdown description.
    pub description: MarkdownText,
    /// The source origin of the `@param` tag.
    pub origin: TagOrigin,
}

/// A named section retained without constructing Rd AST nodes.
#[derive(Debug, PartialEq, Eq)]
pub struct NamedSection {
    /// The source-level section title.
    pub title: MarkdownText,
    /// The section body awaiting Markdown conversion.
    pub body: MarkdownText,
    /// The source origin of the `@section` tag.
    pub origin: TagOrigin,
}

/// An S3 method declaration retained as typed text.
#[derive(Debug, PartialEq, Eq)]
pub struct MethodDeclaration {
    /// The generic name.
    pub generic: Spanned<String>,
    /// The class name.
    pub class: Spanned<String>,
    /// The source origin of the `@method` tag.
    pub origin: TagOrigin,
}

impl Clone for MethodDeclaration {
    fn clone(&self) -> (r: Self)
        ensures
            r == *self,
    {
        MethodDeclaration {
            generic: Spanned::new(self.generic.value.clone(), self.generic.span),
            class: Spanned::new(self.class.value.clone(), self.class.span),
            origin: self.origin.clone(),
        }
    }
}

/// One usage contribution from one documented block.
#[derive(Debug, PartialEq, Eq)]
pub struct UsageContribution {
    /// The block that contributed this usage.
    pub block: BlockRef,
    /// The source span of the contributing documentation block.
    pub block_span: Span,
    /// The statically associated object name, when this contribution came
    /// from a named top-level binding.
    pub object: Option<RName>,
    /// The block's optional S3 method declaration.
    pub method: Option<MethodDeclaration>,
    /// The resolved usage, including an explicit absence.
    pub usage: ResolvedUsage,
}

/// Usage resolved from one documented block.
#[derive(Debug, PartialEq, Eq)]
pub enum ResolvedUsage {
    /// This block does not contribute usage.
    Absent,
    /// `@usage NULL` suppresses usage for this contribution.
    Suppressed(TagOrigin),
    /// Usage generated from a function object's formals.
    Generated(GeneratedUsage),
    /// Explicit source supplied by `@usage`.
    Explicit(TagValue<RCodeText>),
}

/// A deferred inheritance request from a topic.
#[allow(inconsistent_fields)]
#[derive(Debug, PartialEq, Eq)]
pub enum InheritanceRequest {
    /// Copy selected fields from another topic.
    Inherit {
        /// The requested source topic.
        target: InheritTarget,
        /// The fields requested by the tag.
        fields: InheritFields,
        /// The source origin of the request.
        origin: TagOrigin,
    },
    /// Copy all or selected parameters from another topic.
    InheritParams {
        /// The requested source topic.
        target: InheritTarget,
        /// Optional deferred argument selection.
        selection: Option<PlainText>,
        /// The source origin of the request.
        origin: TagOrigin,
    },
    /// Copy one named section from another topic.
    InheritSection {
        /// The requested source topic.
        target: InheritTarget,
        /// The requested section title and its source span.
        title: Spanned<MarkdownText>,
        /// The source origin of the request.
        origin: TagOrigin,
    },
}

/// A NAMESPACE directive awaiting validation, deduplication, and rendering.
#[derive(Debug, PartialEq, Eq)]
pub struct NamespaceRequest {
    /// The block that requested the directive.
    pub block: BlockRef,
    /// The typed directive and its original value.
    pub tag: NamespaceTag,
    /// The block's implicit object name, if static syntax supplied one.
    pub object: Option<RName>,
    /// Whether the block's implicit object is statically a function assignment.
    pub object_is_function: bool,
    /// The complete spelling span of the implicit binding name.
    pub object_spelling: Option<Span>,
    /// The block's first `@method` declaration, if present.
    pub method: Option<MethodDeclaration>,
}

/// Topics in ascending order of their keys, each key once.
#[derive(Debug, PartialEq, Eq)]
pub struct TopicMap {
    pub entries: Vec<(TopicKey, RdTopic)>,
}

impl View for TopicMap {
    type V = Map<Seq<char>, RdTopic>;

    open spec fn view(&self) -> Map<Seq<char>, RdTopic> {
        Map::new(
            |k: Seq<char>| self.keys().contains(k),
            |k: Seq<char>| self.entries@[self.keys().index_of(k)].1,
        )
    }
}

impl TopicMap {
    /// The keys in entry order.
    pub open spec fn keys(&self) -> Seq<Seq<char>> {
        self.entries@.map_values(|e: (TopicKey, RdTopic)| e.0@)
    }

    /// Entries are strictly ascending by key.
    pub open spec fn wf(&self) -> bool {
        increasing_texts(self.keys())
    }

    /// The entry at a position is what its key maps to.
    pub proof fn entry_is_mapped(&self, i: int)
        requires
            self.wf(),
            0 <= i < self.entries@.len(),
        ensures
            self@.dom().contains(self.entries@[i].0@),
            self@[self.entries@[i].0@] == self.entries@[i].1,
    {
        let k = self.keys()[i];
        assert(self.keys().contains(k));
        let j = self.keys().index_of(k);
        assert(0 <= j < self.keys().len() && self.keys()[j] == k);
        if i < j {
            assert(text_lt(self.keys()[i], self.keys()[j]));
        } else if j < i {
            assert(text_lt(self.keys()[j], self.keys()[i]));
        }
    }

    /// A map without topics.
    pub fn new() -> (r: Self)
        ensures
            r.wf(),
            r@ == Map::<Seq<char>, RdTopic>::empty(),
    {
        let r = TopicMap { entries: Vec::new() };
        proof {
            assert(r@ =~= Map::<Seq<char>, RdTopic>::empty());
        }
        r
    }

    /// The number of topics.
    pub fn len(&self) -> (r: usize)
        ensures
            r == self.entries@.len(),
    {
        self.entries.len()
    }

    /// Whether there are no topics.
    pub fn is_empty(&self) -> (r: bool)
        ensures
            r == (self.entries@.len() == 0),
    {
        self.entries.len() == 0
    }

    /// The position of the first key that is not below `key`.
    fn locate(&self, key: &str) -> (r: usize)
        requires
            self.wf(),
        ensures
            r <= self.entries@.len(),
            forall|i: int| 0 <= i < r ==> text_lt(#[trigger] self.keys()[i], key@),
            forall|i: int| r <= i < self.entries@.len() ==> text_le(key@, #[trigger] self.keys()[i]),
    {
        let mut i: usize = 0;
        while i < self.entries.len() && !at_most(key, self.entries[i].0.as_str())
            invariant
                i <= self.entries@.len(),
                self.wf(),
                forall|k: int| 0 <= k < i ==> text_lt(#[trigger] self.keys()[k], key@),
            decreases self.entries@.len() - i,
        {
            proof {
                assert(self.keys()[i as int] == self.entries@[i as int].0@);
                text_le_total(key@, self.keys()[i as int]);
            }
            i = i + 1;
        }
        proof {
            assert forall|k: int| i <= k < self.entries@.len() implies text_le(
                key@,
                #[trigger] self.keys()[k],
            ) by {
                assert(self.keys()[i as int] == self.entries@[i as int].0@);
                if i < k {
                    text_le_transitive(key@, self.keys()[i as int], self.keys()[k]);
                }
            }
        }
        i
    }

    /// The position of `key`, when it is there.
    pub fn position(&self, key: &str) -> (r: Option<usize>)
        requires
            self.wf(),
        ensures
            match r {
                Some(i) => {
                    &&& i < self.entries@.len()
                    &&& self.entries@[i as int].0@ == key@
                    &&& self@.dom().contains(key@)
                    &&& self@[key@] == self.entries@[i as int].1
                },
                None => !self@.dom().contains(key@),
            },
    {
        let i: usize = self.locate(key);
        if i < self.entries.len() && same_text(self.entries[i].0.as_str(), key) {
            proof {
                self.entry_is_mapped(i as int);
            }
            Some(i)
        } else {
            proof {
                if self.keys().contains(key@) {
                    let j = self.keys().index_of(key@);
                    assert(self.keys()[j] == key@);
                    assert(!text_lt(key@, key@));
                    assert(i <= j);
                    assert(self.keys()[i as int] == self.entries@[i as int].0@);
                    if i < j {
                        assert(text_lt(self.keys()[i as int], self.keys()[j]));
                        text_le_antisymmetric(key@, self.keys()[i as int]);
                    }
                }
            }
            None
        }
    }

    /// The topic with the given key.
    pub fn get(&self, key: &TopicKey) -> (r: Option<&RdTopic>)
        requires
            self.wf(),
        ensures
            match r {
                Some(topic) => self@.dom().contains(key@) && self@[key@] == *topic,
                None => !self@.dom().contains(key@),
            },
    {
        match self.position(key.as_str()) {
            Some(i) => Some(&self.entries[i].1),
            None => None,
        }
    }

    /// Whether a topic has the given key.
    pub fn contains_key(&self, key: &TopicKey) -> (r: bool)
        requires
            self.wf(),
        ensures
            r == self@.dom().contains(key@),
    {
        self.position(key.as_str()).is_some()
    }

    /// Takes the topic with the given key out of the map.
    pub fn take(&mut self, key: &TopicKey) -> (r: Option<RdTopic>)
        requires
            old(self).wf(),
        ensures
            final(self).wf(),
            final(self)@ == old(self)@.remove(key@),
            match r {
                Some(topic) => old(self)@.dom().contains(key@) && old(self)@[key@] == topic,
                None => !old(self)@.dom().contains(key@),
            },
    {
        match self.position(key.as_str()) {
            None => {
                proof {
                    assert(self@ =~= old(self)@.remove(key@));
                }
                None
            },
            Some(i) => {
                let ghost before = *self;
                let (_, topic) = self.entries.remove(i);
                proof {
                    let i = i as int;
                    assert(self.entries@ =~= before.entries@.remove(i));
                    assert forall|a: int| 0 <= a < self.keys().len() implies #[trigger] self.keys()[a]
                        == before.keys()[if a < i { a } else { a + 1 }] by {}
                    assert(self.wf());
                    assert forall|k: Seq<char>|
                        self@.dom().contains(k) == before@.remove(key@).dom().contains(k) by {
                        if self.keys().contains(k) {
                            let a = self.keys().index_of(k);
                            let b = if a < i { a } else { a + 1 };
                            assert(before.keys()[b] == k);
                            assert(before.keys()[i] == key@);
                            if b < i {
                                assert(text_lt(before.keys()[b], before.keys()[i]));
                            } else {
                                assert(text_lt(before.keys()[i], before.keys()[b]));
                            }
                        }
                        if before.keys().contains(k) && k != key@ {
                            let b = before.keys().index_of(k);
                            let a = if b < i { b } else { b - 1 };
                            assert(before.keys()[i] == key@);
                            assert(self.keys()[a] == k);
                        }
                    }
                    assert forall|k: Seq<char>| self@.dom().contains(k) implies #[trigger] self@[k]
                        == before@[k] by {
                        let a = self.keys().index_of(k);
                        let b = if a < i { a } else { a + 1 };
                        self.entry_is_mapped(a);
                        before.entry_is_mapped(b);
                    }
                    assert(self@ =~= before@.remove(key@));
                }
                Some(topic)
            },
        }
    }

    /// Puts a topic under a key that is free.
    pub fn put(&mut self, key: TopicKey, topic: RdTopic)
        requires
            old(self).wf(),
            !old(self)@.dom().contains(key@),
        ensures
            final(self).wf(),
            final(self)@ == old(self)@.insert(key@, topic),
    {
        let i: usize = self.locate(key.as_str());
        let ghost before = *self;
        let ghost shown = key@;
        self.entries.insert(i, (key, topic));
        proof {
            let i = i as int;
            assert(self.entries@ =~= before.entries@.insert(i, (key, topic)));
            assert(self.keys() =~= before.keys().insert(i, shown));
            assert forall|a: int, b: int| 0 <= a < b < self.keys().len() implies text_lt(
                #[trigger] self.keys()[a],
                #[trigger] self.keys()[b],
            ) by {
                if a < i && b > i {
                    assert(text_lt(before.keys()[a], before.keys()[b - 1]));
                } else if a == i {
                    assert(text_le(shown, before.keys()[b - 1]));
                    assert(before.keys().contains(before.keys()[b - 1]));
                } else if a > i {
                    assert(text_lt(before.keys()[a - 1], before.keys()[b - 1]));
                }
            }
            assert forall|k: Seq<char>|
                self@.dom().contains(k) == before@.insert(shown, topic).dom().contains(k) by {
                if self.keys().contains(k) {
                    let a = self.keys().index_of(k);
                    if a != i {
                        let b = if a < i { a } else { a - 1 };
                        assert(before.keys()[b] == k);
                    }
                }
                if before.keys().contains(k) {
                    let b = before.keys().index_of(k);
                    let a = if b < i { b } else { b + 1 };
                    assert(self.keys()[a] == k);
                }
                assert(self.keys()[i] == shown);
            }
            assert forall|k: Seq<char>| self@.dom().contains(k) implies #[trigger] self@[k]
                == before@.insert(shown, topic)[k] by {
                let a = self.keys().index_of(k);
                self.entry_is_mapped(a);
                if a != i {
                    let b = if a < i { a } else { a - 1 };
                    before.entry_is_mapped(b);
                    assert(before.keys().contains(k));
                }
            }
            assert(self@ =~= before@.insert(shown, topic));
        }
    }
}

impl PackageModel {
    /// Topics are ordered.
    pub open spec fn wf(&self) -> bool {
        self.topics.wf()
    }
}

} // verus!
