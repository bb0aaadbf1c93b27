//! Mathematical models of topics.
//!
//! Values copied from tags stand for themselves. Texts that are put together
//! here are modelled by their characters.
use crate::facts::RName;
use crate::source::Span;
use crate::tags::{ExamplesContent, MarkdownText, RCodeText, SourceMapping, TagOrigin, TagValue};
use vstd::prelude::*;

use super::ir::{
    Alias, BlockRef, FormalContribution, FormalSummary, InheritanceRequest, MethodDeclaration,
    NamedSection, PackageAuthor, PackageComment, PackageIdentity, PackageLink,
    PackageMetadataDiagnosticState, PackagePerson, PackageSeeAlso, ParamDescription, RdTopic,
    RdTopicKind, ResolvedUsage, TopicKindOrigin, TopicMap, UsageContribution,
};

verus! {

/// The model of a prose slot.
pub struct ProseView {
    pub text: Seq<char>,
    pub mapping: SourceMapping,
    pub origin: TagOrigin,
}

/// The model of a prose value.
pub open spec fn prose(text: MarkdownText, origin: TagOrigin) -> ProseView {
    ProseView { text: text@, mapping: text.source.mapping, origin }
}

/// The model of a prose slot.
pub open spec fn prose_slot(slot: Option<TagValue<MarkdownText>>) -> Option<ProseView> {
    match slot {
        Some(value) => Some(prose(value.value, value.origin)),
        None => None,
    }
}

/// The model of [`Alias`].
pub struct AliasView {
    pub name: Seq<char>,
    pub span: Span,
}

impl View for Alias {
    type V = AliasView;

    open spec fn view(&self) -> AliasView {
        AliasView { name: self.name.0@, span: self.span }
    }
}

/// The model of [`MethodDeclaration`].
pub struct MethodView {
    pub generic: Seq<char>,
    pub generic_span: Span,
    pub class: Seq<char>,
    pub class_span: Span,
    pub origin: TagOrigin,
}

impl View for MethodDeclaration {
    type V = MethodView;

    open spec fn view(&self) -> MethodView {
        MethodView {
            generic: self.generic.value@,
            generic_span: self.generic.span,
            class: self.class.value@,
            class_span: self.class.span,
            origin: self.origin,
        }
    }
}

/// The model of an optional method declaration.
pub open spec fn opt_method(method: Option<MethodDeclaration>) -> Option<MethodView> {
    match method {
        Some(method) => Some(method@),
        None => None,
    }
}

/// The model of [`ResolvedUsage`].
pub enum ResolvedView {
    Absent,
    Suppressed(TagOrigin),
    Generated(Seq<char>),
    Explicit(TagValue<RCodeText>),
}

impl View for ResolvedUsage {
    type V = ResolvedView;

    open spec fn view(&self) -> ResolvedView {
        match self {
            ResolvedUsage::Absent => ResolvedView::Absent,
            ResolvedUsage::Suppressed(origin) => ResolvedView::Suppressed(*origin),
            ResolvedUsage::Generated(usage) => ResolvedView::Generated(usage@),
            ResolvedUsage::Explicit(value) => ResolvedView::Explicit(*value),
        }
    }
}

/// The model of [`UsageContribution`].
pub struct UsageView {
    pub block: BlockRef,
    pub block_span: Span,
    pub object: Option<RName>,
    pub method: Option<MethodView>,
    pub usage: ResolvedView,
}

impl View for UsageContribution {
    type V = UsageView;

    open spec fn view(&self) -> UsageView {
        UsageView {
            block: self.block,
            block_span: self.block_span,
            object: self.object,
            method: opt_method(self.method),
            usage: self.usage@,
        }
    }
}

/// The model of [`FormalContribution`].
pub struct FormalContributionView {
    pub block: BlockRef,
    pub names: FormalSummary,
}

impl View for FormalContribution {
    type V = FormalContributionView;

    open spec fn view(&self) -> FormalContributionView {
        FormalContributionView { block: self.block, names: self.names@ }
    }
}

/// The model of [`PackageComment`].
pub struct CommentView {
    pub label: Option<Seq<char>>,
    pub value: Seq<char>,
}

impl View for PackageComment {
    type V = CommentView;

    open spec fn view(&self) -> CommentView {
        CommentView { label: crate::text::opt_text(self.label), value: self.value@ }
    }
}

/// The model of [`PackageIdentity`].
pub struct IdentityView {
    pub label: Seq<char>,
    pub href: Seq<char>,
}

impl View for PackageIdentity {
    type V = IdentityView;

    open spec fn view(&self) -> IdentityView {
        IdentityView { label: self.label@, href: self.href@ }
    }
}

/// The model of [`PackagePerson`].
pub struct PersonView {
    pub name: Seq<char>,
    pub email: Option<Seq<char>>,
    pub identities: Seq<IdentityView>,
    pub comments: Seq<CommentView>,
    pub roles: Seq<Seq<char>>,
}

impl View for PackagePerson {
    type V = PersonView;

    open spec fn view(&self) -> PersonView {
        PersonView {
            name: self.name@,
            email: crate::text::opt_text(self.email),
            identities: self.identities@.map_values(|i: PackageIdentity| i@),
            comments: self.comments@.map_values(|c: PackageComment| c@),
            roles: crate::text::texts(self.roles@),
        }
    }
}

/// The models of people.
pub open spec fn people_views(people: Seq<PackagePerson>) -> Seq<PersonView> {
    people.map_values(|p: PackagePerson| p@)
}

/// The model of [`PackageAuthor`].
pub struct AuthorView {
    pub maintainers: Seq<PersonView>,
    pub authors: Seq<PersonView>,
    pub other_contributors: Seq<PersonView>,
}

impl View for PackageAuthor {
    type V = AuthorView;

    open spec fn view(&self) -> AuthorView {
        AuthorView {
            maintainers: people_views(self.maintainers@),
            authors: people_views(self.authors@),
            other_contributors: people_views(self.other_contributors@),
        }
    }
}

/// The model of [`PackageLink`].
pub struct LinkView {
    pub target: Seq<char>,
    pub doi: bool,
}

impl View for PackageLink {
    type V = LinkView;

    open spec fn view(&self) -> LinkView {
        LinkView { target: self.target@, doi: self.doi }
    }
}

/// The model of [`PackageSeeAlso`].
pub struct SeeAlsoView {
    pub urls: Seq<LinkView>,
    pub bug_reports: Option<Seq<char>>,
}

/// The models of links.
pub open spec fn link_views(links: Seq<PackageLink>) -> Seq<LinkView> {
    links.map_values(|l: PackageLink| l@)
}

impl View for PackageSeeAlso {
    type V = SeeAlsoView;

    open spec fn view(&self) -> SeeAlsoView {
        SeeAlsoView {
            urls: link_views(self.urls@),
            bug_reports: crate::text::opt_text(self.bug_reports),
        }
    }
}

/// The model of [`PackageMetadataDiagnosticState`].
pub struct MetadataStateView {
    pub anchor: Span,
    pub missing_description: bool,
    pub authors_parse_error: Option<Seq<char>>,
}

impl View for PackageMetadataDiagnosticState {
    type V = MetadataStateView;

    open spec fn view(&self) -> MetadataStateView {
        MetadataStateView {
            anchor: self.anchor,
            missing_description: self.missing_description,
            authors_parse_error: match self.authors_parse_error {
                Some(error) => Some(error.message@),
                None => None,
            },
        }
    }
}

/// The model of an optional author section.
pub open spec fn opt_author(author: Option<PackageAuthor>) -> Option<AuthorView> {
    match author {
        Some(author) => Some(author@),
        None => None,
    }
}

/// The model of optional package links.
pub open spec fn opt_see_also(links: Option<PackageSeeAlso>) -> Option<SeeAlsoView> {
    match links {
        Some(links) => Some(links@),
        None => None,
    }
}

/// The model of an optional metadata state.
pub open spec fn opt_metadata_state(state: Option<PackageMetadataDiagnosticState>) -> Option<
    MetadataStateView,
> {
    match state {
        Some(state) => Some(state@),
        None => None,
    }
}

/// The model of [`RdTopic`].
pub struct TopicView {
    pub name: Seq<char>,
    pub kind: RdTopicKind,
    pub kind_origin: Option<TopicKindOrigin>,
    pub kind_conflict_reported: bool,
    pub blocks: Seq<BlockRef>,
    pub aliases: Seq<AliasView>,
    pub keywords: Seq<Seq<char>>,
    pub title: Option<ProseView>,
    pub description: Option<ProseView>,
    pub description_suppressed: bool,
    pub details: Option<ProseView>,
    pub return_value: Option<ProseView>,
    pub examples: Option<TagValue<ExamplesContent>>,
    pub usages: Seq<UsageView>,
    pub formals: Seq<FormalContributionView>,
    pub params: Seq<ParamDescription>,
    pub sections: Seq<NamedSection>,
    pub see_also: Option<ProseView>,
    pub references: Option<ProseView>,
    pub note: Option<ProseView>,
    pub format: Option<ProseView>,
    pub missing_data_format_span: Option<Span>,
    pub source: Option<ProseView>,
    pub author: Option<ProseView>,
    pub inheritance: Seq<InheritanceRequest>,
    pub package_author: Option<AuthorView>,
    pub package_see_also: Option<SeeAlsoView>,
    pub package_metadata_diagnostics: Option<MetadataStateView>,
}

/// The models of aliases.
pub open spec fn alias_views(aliases: Seq<Alias>) -> Seq<AliasView> {
    aliases.map_values(|a: Alias| a@)
}

/// The texts of keywords.
pub open spec fn keyword_texts(keywords: Seq<crate::tags::Keyword>) -> Seq<Seq<char>> {
    keywords.map_values(|k: crate::tags::Keyword| k.0@)
}

/// The models of usage contributions.
pub open spec fn usage_views(usages: Seq<UsageContribution>) -> Seq<UsageView> {
    usages.map_values(|u: UsageContribution| u@)
}

/// The models of formal contributions.
pub open spec fn formal_views(formals: Seq<FormalContribution>) -> Seq<FormalContributionView> {
    formals.map_values(|f: FormalContribution| f@)
}

impl View for RdTopic {
    type V = TopicView;

    open spec fn view(&self) -> TopicView {
        TopicView {
            name: self.name.0@,
            kind: self.kind,
            kind_origin: self.kind_origin,
            kind_conflict_reported: self.kind_conflict_reported,
            blocks: self.blocks@,
            aliases: alias_views(self.aliases@),
            keywords: keyword_texts(self.keywords@),
            title: prose_slot(self.title),
            description: prose_slot(self.description),
            description_suppressed: self.description_suppressed,
            details: prose_slot(self.details),
            return_value: prose_slot(self.return_value),
            examples: self.examples,
            usages: usage_views(self.usages@),
            formals: formal_views(self.formals@),
            params: self.params@,
            sections: self.sections@,
            see_also: prose_slot(self.see_also),
            references: prose_slot(self.references),
            note: prose_slot(self.note),
            format: prose_slot(self.format),
            missing_data_format_span: self.missing_data_format_span,
            source: prose_slot(self.source),
            author: prose_slot(self.author),
            inheritance: self.inheritance@,
            package_author: opt_author(self.package_author),
            package_see_also: opt_see_also(self.package_see_also),
            package_metadata_diagnostics: opt_metadata_state(self.package_metadata_diagnostics),
        }
    }
}

/// A topic without contributions.
pub open spec fn empty_topic(name: Seq<char>) -> TopicView {
    TopicView {
        name,
        kind: RdTopicKind::Ordinary,
        kind_origin: None,
        kind_conflict_reported: false,
        blocks: Seq::empty(),
        aliases: Seq::empty(),
        keywords: Seq::empty(),
        title: None,
        description: None,
        description_suppressed: false,
        details: None,
        return_value: None,
        examples: None,
        usages: Seq::empty(),
        formals: Seq::empty(),
        params: Seq::empty(),
        sections: Seq::empty(),
        see_also: None,
        references: None,
        note: None,
        format: None,
        missing_data_format_span: None,
        source: None,
        author: None,
        inheritance: Seq::empty(),
        package_author: None,
        package_see_also: None,
        package_metadata_diagnostics: None,
    }
}

/// The models of the topics in a map.
pub open spec fn topic_views(topics: TopicMap) -> Map<Seq<char>, TopicView> {
    topics@.map_values(|t: RdTopic| t@)
}

} // verus!
