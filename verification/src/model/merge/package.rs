//! Defaults of the package documentation topic, taken from DESCRIPTION.
use crate::authors::{
    authors_reading, named_views, parse_authors, people_facts, NamedText, PersonFacts,
};
use crate::facts::{AuthorsParseError, Person, PersonComment, PersonSection};
use crate::marc_roles::{role_term, term_of};
use crate::model::ir::{
    DocumentedBlock, PackageAuthor, PackageComment, PackageIdentity, PackageLink,
    PackageMetadataDiagnosticState, PackagePerson, PackageSeeAlso, RdTopic, RdTopicKind, TopicKey,
};
use crate::model::view::{
    link_views, opt_author, opt_see_also, people_views, AuthorView, CommentView, IdentityView,
    LinkView, MetadataStateView, PersonView, ProseView, SeeAlsoView, TopicView,
};
use crate::package::{PackageDocumentationMetadata, PackageMetadata};
use crate::source::Span;
use crate::tags::{
    FieldTag, FieldValue, MarkdownText, ParsedTag, SourceMapping, SourcedText, TagOrigin, TagValue,
};
use crate::text::{
    has_prefix, opt_text, pieces_between, same_text, split_between, starts_with, strip_prefix,
    text2, text3, texts, trim, trimmed,
};
use vstd::prelude::*;

verus! {

/// What the blocks of a topic say about its DESCRIPTION defaults.
#[derive(Debug, Clone, Copy, PartialEq, Eq, Structural)]
pub struct PackageFallbackState {
    /// The first `"_PACKAGE"` sentinel of the topic.
    pub package_anchor: Option<Span>,
    /// The first sentinel whose block keeps default aliases.
    pub default_alias_anchor: Option<Span>,
    pub default_aliases_enabled: bool,
    pub title_suppressed: bool,
    pub description_suppressed: bool,
    pub see_also_suppressed: bool,
    pub author_suppressed: bool,
}

/// Nothing is known of a topic.
pub open spec fn no_fallback() -> PackageFallbackState {
    PackageFallbackState {
        package_anchor: None,
        default_alias_anchor: None,
        default_aliases_enabled: false,
        title_suppressed: false,
        description_suppressed: false,
        see_also_suppressed: false,
        author_suppressed: false,
    }
}

/// A state noted for a topic.
#[derive(Debug, PartialEq, Eq)]
pub struct FallbackEntry {
    pub key: TopicKey,
    pub state: PackageFallbackState,
}

/// The states of all topics, as they were noted. The last note of a topic
/// counts.
#[derive(Debug, PartialEq, Eq)]
pub struct FallbackStates {
    pub notes: Vec<FallbackEntry>,
}

/// The state of each topic.
pub open spec fn noted(notes: Seq<FallbackEntry>) -> Map<Seq<char>, PackageFallbackState>
    decreases notes.len(),
{
    if notes.len() == 0 {
        Map::empty()
    } else {
        noted(notes.drop_last()).insert(notes.last().key@, notes.last().state)
    }
}

impl View for FallbackStates {
    type V = Map<Seq<char>, PackageFallbackState>;

    open spec fn view(&self) -> Map<Seq<char>, PackageFallbackState> {
        noted(self.notes@)
    }
}

/// The entry of a map, when there is one.
pub open spec fn entry<V>(map: Map<Seq<char>, V>, key: Seq<char>) -> Option<V> {
    if map.dom().contains(key) {
        Some(map[key])
    } else {
        None
    }
}

impl FallbackStates {
    /// No states.
    pub fn new() -> (r: Self)
        ensures
            r@ == Map::<Seq<char>, PackageFallbackState>::empty(),
    {
        FallbackStates { notes: Vec::new() }
    }

    /// The state of a topic.
    pub fn get(&self, key: &TopicKey) -> (r: Option<PackageFallbackState>)
        ensures
            r == entry(self@, key@),
    {
        let mut i: usize = self.notes.len();
        proof {
            assert(self.notes@.take(self.notes@.len() as int) =~= self.notes@);
        }
        while i > 0
            invariant
                i <= self.notes@.len(),
                entry(self@, key@) == entry(noted(self.notes@.take(i as int)), key@),
            decreases i,
        {
            let note = &self.notes[i - 1];
            proof {
                let prefix = self.notes@.take(i as int);
                assert(prefix.drop_last() =~= self.notes@.take(i - 1));
                assert(prefix.last() == note);
            }
            if same_text(note.key.as_str(), key.as_str()) {
                return Some(note.state);
            }
            i = i - 1;
        }
        None
    }

    /// Notes the state of a topic.
    pub fn put(&mut self, key: TopicKey, state: PackageFallbackState)
        ensures
            final(self)@ == old(self)@.insert(key@, state),
    {
        let ghost before = self.notes@;
        self.notes.push(FallbackEntry { key, state });
        proof {
            assert(self.notes@.drop_last() =~= before);
        }
    }
}

/// Whether a prose tag suppresses its field.
pub open spec fn is_suppressed(tag: FieldTag<MarkdownText>) -> bool {
    tag.value is Suppress
}

/// A state after the first `count` tags of a block.
pub open spec fn after_suppressions(
    state: PackageFallbackState,
    tags: Seq<ParsedTag>,
    count: int,
) -> PackageFallbackState
    decreases count,
{
    if count <= 0 {
        state
    } else {
        let before = after_suppressions(state, tags, count - 1);
        match tags[count - 1] {
            ParsedTag::Title(tag) => PackageFallbackState {
                title_suppressed: before.title_suppressed || is_suppressed(tag),
                ..before
            },
            ParsedTag::Description(tag) => PackageFallbackState {
                description_suppressed: before.description_suppressed || is_suppressed(tag),
                ..before
            },
            ParsedTag::SeeAlso(tag) => PackageFallbackState {
                see_also_suppressed: before.see_also_suppressed || is_suppressed(tag),
                ..before
            },
            ParsedTag::Author(tag) => PackageFallbackState {
                author_suppressed: before.author_suppressed || is_suppressed(tag),
                ..before
            },
            _ => before,
        }
    }
}

/// The state of a topic after a block: what it suppresses stays suppressed.
#[verifier::opaque]
pub open spec fn suppression_state(
    states: Map<Seq<char>, PackageFallbackState>,
    key: Seq<char>,
    tags: Seq<ParsedTag>,
) -> PackageFallbackState {
    after_suppressions(
        match entry(states, key) {
            Some(state) => state,
            None => no_fallback(),
        },
        tags,
        tags.len() as int,
    )
}

/// Whether a prose tag suppresses its field.
fn suppresses(tag: &FieldTag<MarkdownText>) -> (r: bool)
    ensures
        r == is_suppressed(*tag),
{
    matches!(tag.value, FieldValue::Suppress)
}

/// Finds the state of a topic after a block.
pub fn package_fallback_suppression(
    block: &DocumentedBlock,
    key: &TopicKey,
    states: &FallbackStates,
) -> (r: PackageFallbackState)
    ensures
        r == suppression_state(states@, key@, block.tags@),
{
    proof {
        reveal(suppression_state);
    }
    let mut state: PackageFallbackState = match states.get(key) {
        Some(state) => state,
        None => PackageFallbackState {
            package_anchor: None,
            default_alias_anchor: None,
            default_aliases_enabled: false,
            title_suppressed: false,
            description_suppressed: false,
            see_also_suppressed: false,
            author_suppressed: false,
        },
    };
    let ghost start = state;
    let mut i: usize = 0;
    while i < block.tags.len()
        invariant
            i <= block.tags@.len(),
            state == after_suppressions(start, block.tags@, i as int),
        decreases block.tags@.len() - i,
    {
        match &block.tags[i] {
            ParsedTag::Title(tag) => {
                state.title_suppressed = state.title_suppressed || suppresses(tag);
            },
            ParsedTag::Description(tag) => {
                state.description_suppressed = state.description_suppressed || suppresses(tag);
            },
            ParsedTag::SeeAlso(tag) => {
                state.see_also_suppressed = state.see_also_suppressed || suppresses(tag);
            },
            ParsedTag::Author(tag) => {
                state.author_suppressed = state.author_suppressed || suppresses(tag);
            },
            _ => {},
        }
        i = i + 1;
    }
    state
}

/// The address prefix of identities with a label.
pub open spec fn identity_prefix(label: Seq<char>) -> Option<Seq<char>> {
    if label == "ORCID"@ {
        Some("https://orcid.org/"@)
    } else if label == "ROR"@ {
        Some("https://ror.org/"@)
    } else {
        None
    }
}

/// The identity that a comment states.
pub open spec fn comment_identity(comment: NamedText) -> Option<IdentityView> {
    match comment.name {
        Some(label) => match identity_prefix(label) {
            Some(prefix) => Some(
                IdentityView {
                    label,
                    href: if has_prefix(comment.value, "http://"@) || has_prefix(
                        comment.value,
                        "https://"@,
                    ) {
                        comment.value
                    } else {
                        prefix + comment.value
                    },
                },
            ),
            None => None,
        },
        None => None,
    }
}

/// The identities that the first `count` comments state.
pub open spec fn identities_of(comments: Seq<NamedText>, count: int) -> Seq<IdentityView>
    decreases count,
{
    if count <= 0 {
        Seq::empty()
    } else {
        let before = identities_of(comments, count - 1);
        match comment_identity(comments[count - 1]) {
            Some(identity) => before.push(identity),
            None => before,
        }
    }
}

/// The first `count` comments without those that state identities.
pub open spec fn plain_comments(comments: Seq<NamedText>, count: int) -> Seq<CommentView>
    decreases count,
{
    if count <= 0 {
        Seq::empty()
    } else {
        let before = plain_comments(comments, count - 1);
        match comment_identity(comments[count - 1]) {
            Some(_) => before,
            None => before.push(
                CommentView {
                    label: comments[count - 1].name,
                    value: comments[count - 1].value,
                },
            ),
        }
    }
}

/// The terms of the first `count` roles, without author and maintainer and
/// without codes that stand for nothing.
pub open spec fn role_terms(roles: Seq<Seq<char>>, count: int) -> Seq<Seq<char>>
    decreases count,
{
    if count <= 0 {
        Seq::empty()
    } else {
        let before = role_terms(roles, count - 1);
        let role = roles[count - 1];
        match term_of(role) {
            Some(term) => if role == "aut"@ || role == "cre"@ {
                before
            } else {
                before.push(term)
            },
            None => before,
        }
    }
}

/// Given and family name, as far as they are known.
pub open spec fn person_name(person: PersonFacts) -> Seq<char> {
    match (person.given, person.family) {
        (Some(given), Some(family)) => given + " "@ + family,
        (Some(given), None) => given,
        (None, Some(family)) => family,
        (None, None) => Seq::empty(),
    }
}

/// A person as listed among the authors.
pub open spec fn listed_person(person: PersonFacts) -> PersonView {
    PersonView {
        name: person_name(person),
        email: person.email,
        identities: identities_of(person.comment, person.comment.len() as int),
        comments: plain_comments(person.comment, person.comment.len() as int),
        roles: role_terms(person.role, person.role.len() as int),
    }
}

/// The section that a person is listed in: maintainers first, authors next.
pub open spec fn section_of(roles: Seq<Seq<char>>) -> PersonSection {
    if roles.contains("cre"@) {
        PersonSection::Maintainer
    } else if roles.contains("aut"@) {
        PersonSection::Author
    } else {
        PersonSection::OtherContributor
    }
}

/// The author sections after the first `count` people. A maintainer who is an
/// author too also leads the authors.
pub open spec fn author_sections(people: Seq<PersonFacts>, count: int) -> AuthorView
    decreases count,
{
    if count <= 0 {
        AuthorView {
            maintainers: Seq::empty(),
            authors: Seq::empty(),
            other_contributors: Seq::empty(),
        }
    } else {
        let before = author_sections(people, count - 1);
        let person = people[count - 1];
        let value = listed_person(person);
        let placed = match section_of(person.role) {
            PersonSection::Maintainer => AuthorView {
                maintainers: before.maintainers.push(value),
                ..before
            },
            PersonSection::Author => AuthorView { authors: before.authors.push(value), ..before },
            PersonSection::OtherContributor => AuthorView {
                other_contributors: before.other_contributors.push(value),
                ..before
            },
        };
        if person.role.contains("cre"@) && person.role.contains("aut"@) {
            AuthorView { authors: seq![value] + placed.authors, ..placed }
        } else {
            placed
        }
    }
}

/// The author sections of a package, when anybody is listed.
pub open spec fn authors_of(people: Seq<PersonFacts>) -> Option<AuthorView> {
    let sections = author_sections(people, people.len() as int);
    if sections.maintainers.len() == 0 && sections.authors.len() == 0
        && sections.other_contributors.len() == 0 {
        None
    } else {
        Some(sections)
    }
}

/// The people of a section.
pub open spec fn section_people(sections: AuthorView, section: PersonSection) -> Seq<PersonView> {
    match section {
        PersonSection::Maintainer => sections.maintainers,
        PersonSection::Author => sections.authors,
        PersonSection::OtherContributor => sections.other_contributors,
    }
}

/// Nobody is left out: every person is listed in the section of their roles, and
/// a maintainer who is an author too is listed among the authors as well.
pub proof fn everybody_is_listed(people: Seq<PersonFacts>, i: int)
    requires
        0 <= i < people.len(),
    ensures
        authors_of(people) matches Some(sections) && section_people(
            sections,
            section_of(people[i].role),
        ).contains(listed_person(people[i])) && (people[i].role.contains("aut"@)
            ==> sections.authors.contains(listed_person(people[i]))),
{
    listed_from_then_on(people, i, people.len() as int);
}

proof fn listed_from_then_on(people: Seq<PersonFacts>, i: int, count: int)
    requires
        0 <= i < count <= people.len(),
    ensures
        section_people(author_sections(people, count), section_of(people[i].role)).contains(
            listed_person(people[i]),
        ),
        people[i].role.contains("aut"@) ==> author_sections(people, count).authors.contains(
            listed_person(people[i]),
        ),
        section_people(author_sections(people, count), section_of(people[i].role)).len() > 0,
    decreases count,
{
    let one = listed_person(people[i]);
    let before = author_sections(people, count - 1);
    let after = author_sections(people, count);
    let last = people[count - 1];
    let value = listed_person(last);
    let leads = last.role.contains("cre"@) && last.role.contains("aut"@);
    let grown = if section_of(last.role) == PersonSection::Author {
        before.authors.push(value)
    } else {
        before.authors
    };
    assert(after.authors == (if leads {
        seq![value] + grown
    } else {
        grown
    }));
    let first: int = if leads {
        1
    } else {
        0
    };
    if i < count - 1 {
        listed_from_then_on(people, i, count - 1);
        let section = section_of(people[i].role);
        let held = section_people(before, section);
        let k = choose|k: int| 0 <= k < held.len() && held[k] == one;
        if section == PersonSection::Author {
            assert(after.authors[first + k] == one);
        } else {
            assert(section_people(after, section)[k] == one);
        }
        if people[i].role.contains("aut"@) {
            let j = choose|j: int| 0 <= j < before.authors.len() && before.authors[j] == one;
            assert(after.authors[first + j] == one);
        }
    } else {
        let section = section_of(last.role);
        if section == PersonSection::Author {
            assert(after.authors[after.authors.len() - 1] == one);
        } else {
            let held = section_people(after, section);
            assert(held[held.len() - 1] == one);
            if leads {
                assert(after.authors[0] == one);
            }
        }
    }
}

/// A copy of an optional text.
fn copy_text(text: &Option<String>) -> (r: Option<String>)
    ensures
        r == *text,
{
    match text {
        Some(text) => Some(text.clone()),
        None => None,
    }
}

/// The identity that a comment states.
fn read_identity(comment: &PersonComment) -> (r: Option<PackageIdentity>)
    ensures
        (match r {
            Some(identity) => Some(identity@),
            None => None,
        }) == comment_identity(comment@),
{
    let Some(label) = &comment.name else {
        return None;
    };
    let prefix: &str = if same_text(label.as_str(), "ORCID") {
        "https://orcid.org/"
    } else if same_text(label.as_str(), "ROR") {
        "https://ror.org/"
    } else {
        return None;
    };
    let value = comment.value.as_str();
    let href = if starts_with(value, "http://") || starts_with(value, "https://") {
        comment.value.clone()
    } else {
        text2(prefix, value)
    };
    Some(PackageIdentity { label: label.clone(), href })
}

/// Whether a person has a role.
fn has_role(roles: &Vec<String>, code: &str) -> (r: bool)
    ensures
        r == texts(roles@).contains(code@),
{
    let ghost shown = texts(roles@);
    let mut i: usize = 0;
    while i < roles.len()
        invariant
            i <= roles@.len(),
            shown == texts(roles@),
            forall|k: int| 0 <= k < i ==> #[trigger] shown[k] != code@,
        decreases roles@.len() - i,
    {
        proof {
            assert(shown[i as int] == roles@[i as int]@);
        }
        if same_text(roles[i].as_str(), code) {
            return true;
        }
        i = i + 1;
    }
    false
}

/// The section that a person is listed in.
fn find_section(roles: &Vec<String>) -> (r: PersonSection)
    ensures
        r == section_of(texts(roles@)),
{
    if has_role(roles, "cre") {
        PersonSection::Maintainer
    } else if has_role(roles, "aut") {
        PersonSection::Author
    } else {
        PersonSection::OtherContributor
    }
}

/// Lists a person among the authors.
fn list_person(person: &Person) -> (r: PackagePerson)
    ensures
        r@ == listed_person(person@),
{
    let mut identities: Vec<PackageIdentity> = Vec::new();
    let mut comments: Vec<PackageComment> = Vec::new();
    let mut i: usize = 0;
    let ghost given = named_views(person.comment@);
    proof {
        assert(identities@.map_values(|x: PackageIdentity| x@) =~= identities_of(given, 0));
        assert(comments@.map_values(|x: PackageComment| x@) =~= plain_comments(given, 0));
    }
    while i < person.comment.len()
        invariant
            i <= person.comment@.len(),
            given == named_views(person.comment@),
            identities@.map_values(|x: PackageIdentity| x@) == identities_of(given, i as int),
            comments@.map_values(|x: PackageComment| x@) == plain_comments(given, i as int),
        decreases person.comment@.len() - i,
    {
        let comment = &person.comment[i];
        proof {
            assert(given[i as int] == comment@);
        }
        match read_identity(comment) {
            Some(identity) => {
                identities.push(identity);
                proof {
                    assert(identities@.map_values(|x: PackageIdentity| x@) =~= identities_of(
                        given,
                        i + 1,
                    ));
                }
            },
            None => {
                let kept = PackageComment {
                    label: copy_text(&comment.name),
                    value: comment.value.clone(),
                };
                comments.push(kept);
                proof {
                    assert(comments@.map_values(|x: PackageComment| x@) =~= plain_comments(
                        given,
                        i + 1,
                    ));
                }
            },
        }
        i = i + 1;
    }
    let mut roles: Vec<String> = Vec::new();
    let mut k: usize = 0;
    let ghost codes = texts(person.role@);
    proof {
        assert(texts(roles@) =~= role_terms(codes, 0));
    }
    while k < person.role.len()
        invariant
            k <= person.role@.len(),
            codes == texts(person.role@),
            texts(roles@) == role_terms(codes, k as int),
        decreases person.role@.len() - k,
    {
        let code = person.role[k].as_str();
        let ghost before = texts(roles@);
        proof {
            assert(codes[k as int] == code@);
        }
        if !same_text(code, "aut") && !same_text(code, "cre") {
            if let Some(term) = role_term(code) {
                let ghost one = term@;
                roles.push(term);
                proof {
                    assert(texts(roles@) =~= before.push(one));
                }
            }
        }
        k = k + 1;
    }
    let name: String = match (&person.given, &person.family) {
        (Some(given), Some(family)) => text3(given.as_str(), " ", family.as_str()),
        (Some(given), None) => given.clone(),
        (None, Some(family)) => family.clone(),
        (None, None) => String::new(),
    };
    proof {
        if person.given is None && person.family is None {
            assert(name@ =~= Seq::<char>::empty());
        }
    }
    PackagePerson { name, email: copy_text(&person.email), identities, comments, roles }
}

/// Sorts the people of `Authors@R` into author sections.
pub fn sort_people(people: &Vec<Person>) -> (r: Option<PackageAuthor>)
    ensures
        opt_author(r) == authors_of(people_facts(people@)),
{
    let ghost shown_people = people_facts(people@);
    let mut maintainers: Vec<PackagePerson> = Vec::new();
    let mut authors: Vec<PackagePerson> = Vec::new();
    let mut other_contributors: Vec<PackagePerson> = Vec::new();
    let mut i: usize = 0;
    proof {
        assert(people_views(maintainers@) =~= Seq::<PersonView>::empty());
        assert(people_views(authors@) =~= Seq::<PersonView>::empty());
        assert(people_views(other_contributors@) =~= Seq::<PersonView>::empty());
    }
    while i < people.len()
        invariant
            i <= people@.len(),
            shown_people == people_facts(people@),
            people_views(maintainers@) == author_sections(shown_people, i as int).maintainers,
            people_views(authors@) == author_sections(shown_people, i as int).authors,
            people_views(other_contributors@) == author_sections(
                shown_people,
                i as int,
            ).other_contributors,
        decreases people@.len() - i,
    {
        let person = &people[i];
        let ghost before = author_sections(shown_people, i as int);
        proof {
            assert(shown_people[i as int] == person@);
        }
        let value = list_person(person);
        let ghost shown = value@;
        match find_section(&person.role) {
            PersonSection::Maintainer => {
                maintainers.push(value);
                proof {
                    assert(people_views(maintainers@) =~= before.maintainers.push(shown));
                }
            },
            PersonSection::Author => {
                authors.push(value);
                proof {
                    assert(people_views(authors@) =~= before.authors.push(shown));
                }
            },
            PersonSection::OtherContributor => {
                other_contributors.push(value);
                proof {
                    assert(people_views(other_contributors@) =~= before.other_contributors.push(
                        shown,
                    ));
                }
            },
        }
        if has_role(&person.role, "cre") && has_role(&person.role, "aut") {
            let ghost placed = people_views(authors@);
            authors.insert(0, list_person(person));
            proof {
                assert(people_views(authors@) =~= seq![shown] + placed);
            }
        }
        i = i + 1;
    }
    if maintainers.len() == 0 && authors.len() == 0 && other_contributors.len() == 0 {
        None
    } else {
        Some(PackageAuthor { maintainers, authors, other_contributors })
    }
}

/// The model of author sections that may not be there, or of why the field could
/// not be read.
pub open spec fn sections_view(sections: Result<Option<PackageAuthor>, AuthorsParseError>) -> Result<
    Option<AuthorView>,
    Seq<char>,
> {
    match sections {
        Ok(author) => Ok(opt_author(author)),
        Err(error) => Err(error.message@),
    }
}

/// The author sections that an `Authors@R` field states, or why it cannot be read.
pub open spec fn author_reading(field: Seq<char>) -> Result<Option<AuthorView>, Seq<char>> {
    match authors_reading(field) {
        Ok(people) => Ok(authors_of(people)),
        Err(message) => Err(message),
    }
}

/// Reads the author sections of an `Authors@R` field.
pub fn package_authors(field: &str) -> (r: Result<Option<PackageAuthor>, AuthorsParseError>)
    ensures
        sections_view(r) == author_reading(field@),
{
    match parse_authors(field) {
        Ok(people) => Ok(sort_people(&people)),
        Err(error) => Err(error),
    }
}

/// The pieces of a text between commas.
pub open spec fn comma_pieces(text: Seq<char>) -> Seq<Seq<char>> {
    pieces_between(text, ',')
}

/// A URL as a link: a DOI by its number.
pub open spec fn url_link(url: Seq<char>) -> LinkView {
    match crate::text::after_prefix(url, "https://doi.org/"@) {
        Some(number) => LinkView { target: number, doi: true },
        None => LinkView { target: url, doi: false },
    }
}

/// The links among the first `count` pieces of a URL field.
pub open spec fn url_links(pieces: Seq<Seq<char>>, count: int) -> Seq<LinkView>
    decreases count,
{
    if count <= 0 {
        Seq::empty()
    } else {
        let before = url_links(pieces, count - 1);
        let url = trimmed(pieces[count - 1]);
        if url.len() == 0 {
            before
        } else {
            before.push(url_link(url))
        }
    }
}

/// The links of a package, when it has any.
pub open spec fn see_also_of(metadata: PackageDocumentationMetadata) -> Option<SeeAlsoView> {
    let urls = match metadata.url {
        Some(text) => {
            let pieces = comma_pieces(text@);
            url_links(pieces, pieces.len() as int)
        },
        None => Seq::empty(),
    };
    if urls.len() == 0 && metadata.bug_reports is None {
        None
    } else {
        Some(SeeAlsoView { urls, bug_reports: opt_text(metadata.bug_reports) })
    }
}

/// Reads the links of a package from its URL and BugReports fields.
pub fn package_seealso(metadata: &PackageDocumentationMetadata) -> (r: Option<PackageSeeAlso>)
    ensures
        opt_see_also(r) == see_also_of(*metadata),
{
    let mut urls: Vec<PackageLink> = Vec::new();
    proof {
        assert(link_views(urls@) =~= Seq::<LinkView>::empty());
    }
    if let Some(text) = &metadata.url {
        let pieces = split_between(text.as_str(), ',');
        let ghost shown = texts(pieces@);
        let mut i: usize = 0;
        while i < pieces.len()
            invariant
                i <= pieces@.len(),
                shown == texts(pieces@),
                link_views(urls@) == url_links(shown, i as int),
            decreases pieces@.len() - i,
        {
            proof {
                assert(shown[i as int] == pieces@[i as int]@);
            }
            let url = trim(pieces[i].as_str());
            let ghost before = link_views(urls@);
            if !url.as_str().is_empty() {
                let link = match strip_prefix(url.as_str(), "https://doi.org/") {
                    Some(number) => PackageLink { target: number, doi: true },
                    None => PackageLink { target: url, doi: false },
                };
                urls.push(link);
                proof {
                    assert(link_views(urls@) =~= before.push(link@));
                }
            }
            i = i + 1;
        }
    }
    if urls.len() == 0 && metadata.bug_reports.is_none() {
        None
    } else {
        Some(PackageSeeAlso { urls, bug_reports: copy_text(&metadata.bug_reports) })
    }
}

/// Generated prose, reported at an anchor.
pub open spec fn synthetic_prose(text: Seq<char>, anchor: Span) -> ProseView {
    ProseView {
        text,
        mapping: SourceMapping::Synthetic(anchor),
        origin: TagOrigin::Implicit { intro_span: anchor },
    }
}

/// Generates prose, reported at an anchor.
fn generate_prose(text: String, anchor: Span) -> (r: TagValue<MarkdownText>)
    ensures
        crate::model::view::prose(r.value, r.origin) == synthetic_prose(text@, anchor),
{
    TagValue {
        value: MarkdownText::new(SourcedText::synthetic(text, anchor)),
        origin: TagOrigin::Implicit { intro_span: anchor },
    }
}

/// The title of a package topic: its own, else that of DESCRIPTION behind the
/// package name, unless a block suppresses it.
pub open spec fn default_title(
    topic: TopicView,
    state: PackageFallbackState,
    anchor: Span,
    metadata: PackageMetadata,
) -> Option<ProseView> {
    match (topic.title, metadata.documentation.title) {
        (None, Some(title)) => if state.title_suppressed {
            None
        } else {
            Some(synthetic_prose(metadata.package@ + ": "@ + title@, anchor))
        },
        _ => topic.title,
    }
}

/// The description of a package topic: its own, else that of DESCRIPTION,
/// unless a block suppresses it.
pub open spec fn default_description(
    topic: TopicView,
    state: PackageFallbackState,
    anchor: Span,
    metadata: PackageMetadata,
) -> Option<ProseView> {
    match (topic.description, metadata.documentation.description) {
        (None, Some(description)) => if state.description_suppressed {
            None
        } else {
            Some(synthetic_prose(description@, anchor))
        },
        _ => topic.description,
    }
}

/// The authors of DESCRIPTION, where they stand in for the topic's own.
pub open spec fn default_authors(
    topic: TopicView,
    state: PackageFallbackState,
    metadata: PackageMetadata,
) -> Option<Result<Option<AuthorView>, Seq<char>>> {
    match metadata.documentation.authors_r {
        Some(field) => if topic.author is None && !state.author_suppressed {
            Some(author_reading(field@))
        } else {
            None
        },
        None => None,
    }
}

/// A package topic with the defaults of DESCRIPTION.
pub open spec fn with_defaults(
    topic: TopicView,
    state: Option<PackageFallbackState>,
    metadata: PackageMetadata,
) -> TopicView {
    match state {
        Some(state) => match state.package_anchor {
            Some(anchor) => if topic.kind == RdTopicKind::Package {
                TopicView {
                    description_suppressed: state.description_suppressed,
                    title: default_title(topic, state, anchor, metadata),
                    description: default_description(topic, state, anchor, metadata),
                    package_see_also: if topic.see_also is None && !state.see_also_suppressed {
                        see_also_of(metadata.documentation)
                    } else {
                        topic.package_see_also
                    },
                    package_author: match default_authors(topic, state, metadata) {
                        Some(Ok(author)) => author,
                        _ => topic.package_author,
                    },
                    package_metadata_diagnostics: Some(
                        MetadataStateView {
                            anchor,
                            missing_description: topic.description is None
                                && !state.description_suppressed
                                && metadata.documentation.description is None,
                            authors_parse_error: match default_authors(topic, state, metadata) {
                                Some(Err(message)) => Some(message),
                                _ => None,
                            },
                        },
                    ),
                    ..topic
                }
            } else {
                topic
            },
            None => topic,
        },
        None => topic,
    }
}

/// Gives a package topic the defaults of DESCRIPTION.
pub fn apply_defaults(
    topic: &mut RdTopic,
    state: Option<PackageFallbackState>,
    metadata: &PackageMetadata,
)
    ensures
        final(topic)@ == with_defaults(old(topic)@, state, *metadata),
{
    let Some(state) = state else {
        return;
    };
    let Some(anchor) = state.package_anchor else {
        return;
    };
    if topic.kind != RdTopicKind::Package {
        return;
    }
    let missing_description: bool = topic.description.is_none() && !state.description_suppressed
        && metadata.documentation.description.is_none();
    topic.description_suppressed = state.description_suppressed;
    if let Some(title) = &metadata.documentation.title {
        if topic.title.is_none() && !state.title_suppressed {
            let value = text3(metadata.package.as_str(), ": ", title.as_str());
            topic.title = Some(generate_prose(value, anchor));
        }
    }
    if let Some(description) = &metadata.documentation.description {
        if topic.description.is_none() && !state.description_suppressed {
            topic.description = Some(generate_prose(description.clone(), anchor));
        }
    }
    if topic.see_also.is_none() && !state.see_also_suppressed {
        topic.package_see_also = package_seealso(&metadata.documentation);
    }
    let mut authors_parse_error: Option<AuthorsParseError> = None;
    if topic.author.is_none() && !state.author_suppressed {
        if let Some(field) = &metadata.documentation.authors_r {
            match package_authors(field.as_str()) {
                Ok(author) => {
                    topic.package_author = author;
                },
                Err(error) => {
                    authors_parse_error = Some(error);
                },
            }
        }
    }
    topic.package_metadata_diagnostics = Some(
        PackageMetadataDiagnosticState { anchor, missing_description, authors_parse_error },
    );
}

/// No piece of a text holds a comma, and every text has at least one piece.
pub proof fn comma_pieces_hold_no_comma(text: Seq<char>)
    ensures
        comma_pieces(text).len() > 0,
        forall|i: int|
            0 <= i < comma_pieces(text).len() ==> !(#[trigger] comma_pieces(text)[i]).contains(','),
    decreases text.len(),
{
    if text.len() > 0 {
        comma_pieces_hold_no_comma(text.drop_last());
        let before = comma_pieces(text.drop_last());
        let after = comma_pieces(text);
        assert forall|i: int| 0 <= i < after.len() implies !(#[trigger] after[i]).contains(',') by {
            if text.last() != ',' && i == before.len() - 1 {
                let piece = before.last();
                assert forall|k: int| 0 <= k < after[i].len() implies after[i][k] != ',' by {
                    if k < piece.len() {
                        assert(!piece.contains(','));
                        assert(piece[k] == after[i][k]);
                    }
                }
            } else if i < before.len() {
                assert(after[i] == before[i]);
            }
        }
    }
}

/// What a block suppresses for its topic stays suppressed.
pub proof fn suppressions_accumulate(
    state: PackageFallbackState,
    tags: Seq<ParsedTag>,
    count: int,
)
    ensures
        state.title_suppressed ==> after_suppressions(state, tags, count).title_suppressed,
        state.description_suppressed ==> after_suppressions(
            state,
            tags,
            count,
        ).description_suppressed,
        state.see_also_suppressed ==> after_suppressions(state, tags, count).see_also_suppressed,
        state.author_suppressed ==> after_suppressions(state, tags, count).author_suppressed,
        after_suppressions(state, tags, count).package_anchor == state.package_anchor,
    decreases count,
{
    if count > 0 {
        suppressions_accumulate(state, tags, count - 1);
    }
}

} // verus!
