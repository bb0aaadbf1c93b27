//! Laws of what DESCRIPTION gives to a package topic.
use crate::authors::{NamedText, PersonFacts};
use crate::marc_roles::{line_term, term_from, term_of, ROLE_TERMS};
use crate::model::ir::RdTopicKind;
use crate::model::merge::package::{
    after_suppressions, author_reading, author_sections, authors_of, comment_identity,
    identities_of, listed_person, plain_comments, role_terms, see_also_of, url_link, url_links,
    with_defaults, PackageFallbackState,
};
use crate::model::view::{LinkView, PersonView, TopicView};
use crate::package::{PackageDocumentationMetadata, PackageMetadata};
use crate::source::Span;
use crate::tags::{ParsedTag, SourceMapping, TagOrigin};
use crate::text::{is_space, pieces_between, trimmed};
use vstd::prelude::*;

verus! {

/// The role codes that are shown by their terms: those that stand for a term, without
/// author and maintainer.
pub open spec fn shown_codes(codes: Seq<Seq<char>>) -> Seq<Seq<char>> {
    codes.filter(|code: Seq<char>| code != "aut"@ && code != "cre"@ && term_of(code) is Some)
}

/// The roles that are listed for a person are the terms of their codes, one for each
/// code that stands for a term and is neither author nor maintainer, in the order of
/// the codes.
pub proof fn every_role_is_listed(person: PersonFacts)
    ensures
        listed_person(person).roles.len() == shown_codes(person.role).len(),
        forall|i: int|
            0 <= i < shown_codes(person.role).len() ==> term_of(
                #[trigger] shown_codes(person.role)[i],
            ) == Some(listed_person(person).roles[i]),
        forall|i: int|
            0 <= i < person.role.len() && (#[trigger] person.role[i]) != "aut"@ && person.role[i]
                != "cre"@ ==> match term_of(person.role[i]) {
                Some(term) => listed_person(person).roles.contains(term),
                None => true,
            },
{
    let codes = person.role;
    let roles = listed_person(person).roles;
    let shown = shown_codes(codes);
    roles_so_far(codes, codes.len() as int);
    assert(codes.take(codes.len() as int) =~= codes);
    assert forall|i: int|
        0 <= i < codes.len() && (#[trigger] codes[i]) != "aut"@ && codes[i] != "cre"@ implies (
    match term_of(codes[i]) {
        Some(term) => roles.contains(term),
        None => true,
    }) by {
        if term_of(codes[i]) is Some {
            codes.lemma_filter_contains(
                |code: Seq<char>| code != "aut"@ && code != "cre"@ && term_of(code) is Some,
                i,
            );
            role_is_shown(codes, i, codes.len() as int);
            let k = shown.index_of(codes[i]);
            assert(shown[k] == codes[i]);
            assert(roles[k] == term_of(codes[i])->0);
        }
    }
}

proof fn role_is_shown(codes: Seq<Seq<char>>, i: int, count: int)
    requires
        0 <= i < count <= codes.len(),
        codes[i] != "aut"@,
        codes[i] != "cre"@,
        term_of(codes[i]) is Some,
    ensures
        shown_codes(codes.take(count)).contains(codes[i]),
        count == codes.len() ==> shown_codes(codes).contains(codes[i]),
    decreases count,
{
    reveal(Seq::filter);
    let prefix = codes.take(count);
    assert(prefix.drop_last() =~= codes.take(count - 1));
    let shown = shown_codes(prefix);
    let before = shown_codes(codes.take(count - 1));
    if i < count - 1 {
        role_is_shown(codes, i, count - 1);
        let k = before.index_of(codes[i]);
        assert(shown[k] == codes[i]);
    } else {
        assert(shown.last() == codes[i]);
    }
    if count == codes.len() {
        assert(prefix =~= codes);
    }
}

proof fn roles_so_far(codes: Seq<Seq<char>>, count: int)
    requires
        0 <= count <= codes.len(),
    ensures
        role_terms(codes, count).len() == shown_codes(codes.take(count)).len(),
        forall|i: int|
            0 <= i < shown_codes(codes.take(count)).len() ==> term_of(
                #[trigger] shown_codes(codes.take(count))[i],
            ) == Some(role_terms(codes, count)[i]),
    decreases count,
{
    reveal(Seq::filter);
    if count > 0 {
        roles_so_far(codes, count - 1);
        assert(codes.take(count).drop_last() =~= codes.take(count - 1));
        assert(codes.take(count).last() == codes[count - 1]);
    }
}

/// The roles of somebody with the roles of two people are those of the first followed
/// by those of the second.
pub proof fn roles_add_up(person: PersonFacts, first: PersonFacts, second: PersonFacts)
    requires
        person.role == first.role + second.role,
    ensures
        listed_person(person).roles == listed_person(first).roles + listed_person(second).roles,
{
    every_role_is_listed(person);
    every_role_is_listed(first);
    every_role_is_listed(second);
    let wanted = listed_person(first).roles + listed_person(second).roles;
    Seq::filter_distributes_over_add(
        first.role,
        second.role,
        |code: Seq<char>| code != "aut"@ && code != "cre"@ && term_of(code) is Some,
    );
    shown_codes_add_up(first.role, second.role);
    let shown = shown_codes(person.role);
    assert forall|i: int| 0 <= i < shown.len() implies listed_person(person).roles[i] == wanted[i] by {
        if i < shown_codes(first.role).len() {
            assert(shown[i] == shown_codes(first.role)[i]);
        } else {
            assert(shown[i] == shown_codes(second.role)[i - shown_codes(first.role).len()]);
        }
    }
    assert(listed_person(person).roles =~= wanted);
}

proof fn shown_codes_add_up(first: Seq<Seq<char>>, second: Seq<Seq<char>>)
    ensures
        shown_codes(first + second) == shown_codes(first) + shown_codes(second),
    decreases second.len(),
{
    reveal(Seq::filter);
    if second.len() == 0 {
        assert(first + second =~= first);
        assert(shown_codes(first) + shown_codes(second) =~= shown_codes(first));
    } else {
        let whole = first + second;
        assert(whole.drop_last() =~= first + second.drop_last());
        shown_codes_add_up(first, second.drop_last());
        assert(shown_codes(whole) =~= shown_codes(first) + shown_codes(second));
    }
}

/// A role code stands for a term exactly when the table has a line of the code, a space
/// and the term; codes have three letters.
pub proof fn terms_stand_in_the_table(code: Seq<char>, term: Seq<char>)
    ensures
        term_of(code) == Some(term) ==> code.len() == 3 && pieces_between(
            ROLE_TERMS@,
            '\n',
        ).contains(code + " "@ + term),
        code.len() == 3 && pieces_between(ROLE_TERMS@, '\n').contains(code + " "@ + term)
            ==> term_of(code) is Some,
{
    let lines = pieces_between(ROLE_TERMS@, '\n');
    table_lookup(lines, code, 0);
    let wanted = code + " "@ + term;
    if code.len() == 3 && lines.contains(wanted) {
        let k = lines.index_of(wanted);
        assert(lines[k] == wanted);
        assert(wanted.take((code + " "@).len() as int) =~= code + " "@);
        assert(line_term(lines[k], code) is Some);
    }
    if term_of(code) == Some(term) {
        let k = choose|k: int|
            0 <= k < lines.len() && line_term(#[trigger] lines[k], code) == Some(term);
        assert(lines[k] =~= wanted);
    }
}

proof fn table_lookup(lines: Seq<Seq<char>>, code: Seq<char>, i: int)
    requires
        0 <= i <= lines.len(),
    ensures
        match term_from(lines, code, i) {
            Some(term) => exists|k: int|
                i <= k < lines.len() && line_term(#[trigger] lines[k], code) == Some(term),
            None => forall|k: int|
                i <= k < lines.len() ==> line_term(#[trigger] lines[k], code) is None,
        },
    decreases lines.len() - i,
{
    if i < lines.len() {
        table_lookup(lines, code, i + 1);
        if line_term(lines[i], code) is Some {
            assert(line_term(lines[i], code) == term_from(lines, code, i));
        }
    }
}

/// Whether a comment names an identity.
pub open spec fn names_identity(comment: NamedText) -> bool {
    comment.name == Some("ORCID"@) || comment.name == Some("ROR"@)
}

/// The comments that name identities.
pub open spec fn identity_comments(comments: Seq<NamedText>) -> Seq<NamedText> {
    comments.filter(|comment: NamedText| names_identity(comment))
}

/// The comments that name no identity.
pub open spec fn other_comments(comments: Seq<NamedText>) -> Seq<NamedText> {
    comments.filter(|comment: NamedText| !names_identity(comment))
}

/// The address that an identity comment gives: what it says where that is an address,
/// else what it says behind the address of ORCID or ROR.
pub open spec fn is_address(comment: NamedText, href: Seq<char>) -> bool {
    let whole = "http://"@.is_prefix_of(comment.value) || "https://"@.is_prefix_of(comment.value);
    if whole {
        href == comment.value
    } else if comment.name == Some("ORCID"@) {
        href == "https://orcid.org/"@ + comment.value
    } else {
        href == "https://ror.org/"@ + comment.value
    }
}

/// Every comment of a person is listed, in order: one named ORCID or ROR as an identity
/// with its label and address, any other as a comment with its name and text.
pub proof fn every_comment_is_listed(person: PersonFacts)
    ensures
        ({
            let listed = listed_person(person);
            let named = identity_comments(person.comment);
            let others = other_comments(person.comment);
            &&& listed.identities.len() == named.len()
            &&& forall|i: int|
                0 <= i < named.len() ==> Some((#[trigger] listed.identities[i]).label)
                    == named[i].name && is_address(named[i], listed.identities[i].href)
            &&& listed.comments.len() == others.len()
            &&& forall|i: int|
                0 <= i < others.len() ==> (#[trigger] listed.comments[i]).label == others[i].name
                    && listed.comments[i].value == others[i].value
        }),
{
    comments_so_far(person.comment, person.comment.len() as int);
    assert(person.comment.take(person.comment.len() as int) =~= person.comment);
}

proof fn comments_so_far(comments: Seq<NamedText>, count: int)
    requires
        0 <= count <= comments.len(),
    ensures
        ({
            let identities = identities_of(comments, count);
            let plain = plain_comments(comments, count);
            let named = identity_comments(comments.take(count));
            let others = other_comments(comments.take(count));
            &&& identities.len() == named.len()
            &&& forall|i: int|
                0 <= i < named.len() ==> Some((#[trigger] identities[i]).label) == named[i].name
                    && is_address(named[i], identities[i].href)
            &&& plain.len() == others.len()
            &&& forall|i: int|
                0 <= i < others.len() ==> (#[trigger] plain[i]).label == others[i].name
                    && plain[i].value == others[i].value
        }),
    decreases count,
{
    reveal(Seq::filter);
    if count > 0 {
        comments_so_far(comments, count - 1);
        let prefix = comments.take(count);
        let comment = comments[count - 1];
        assert(prefix.drop_last() =~= comments.take(count - 1));
        assert(prefix.last() == comment);
        reveal_strlit("ORCID");
        reveal_strlit("ROR");
        assert("ORCID"@ != "ROR"@) by {
            assert("ORCID"@.len() != "ROR"@.len());
        }
        comment_states(comment);
    }
}

proof fn comment_states(comment: NamedText)
    requires
        "ORCID"@ != "ROR"@,
    ensures
        comment_identity(comment) is Some == names_identity(comment),
        comment_identity(comment) matches Some(identity) ==> Some(identity.label) == comment.name
            && is_address(comment, identity.href),
{
    let value = comment.value;
    assert("http://"@.is_prefix_of(value) == crate::text::has_prefix(value, "http://"@));
    assert("https://"@.is_prefix_of(value) == crate::text::has_prefix(value, "https://"@));
}

/// A person is listed under the given and the family name, with a space between them,
/// or under the one that is known, and with their address of mail.
pub proof fn people_are_listed_by_name(person: PersonFacts)
    ensures
        person.given is None && person.family is None ==> listed_person(person).name.len() == 0,
        person.given is Some && person.family is None ==> listed_person(person).name
            == person.given->0,
        person.given is None && person.family is Some ==> listed_person(person).name
            == person.family->0,
        person.given is Some && person.family is Some ==> listed_person(person).name
            == person.given->0 + seq![' '] + person.family->0,
        listed_person(person).email == person.email,
{
    reveal_strlit(" ");
    assert(" "@ =~= seq![' ']);
}

/// The people with the role of maintainer.
pub open spec fn maintaining(people: Seq<PersonFacts>) -> Seq<PersonFacts> {
    people.filter(|person: PersonFacts| person.role.contains("cre"@))
}

/// The people with the roles of maintainer and author.
pub open spec fn leading(people: Seq<PersonFacts>) -> Seq<PersonFacts> {
    people.filter(
        |person: PersonFacts| person.role.contains("cre"@) && person.role.contains("aut"@),
    )
}

/// The people with the role of author but not that of maintainer.
pub open spec fn only_writing(people: Seq<PersonFacts>) -> Seq<PersonFacts> {
    people.filter(
        |person: PersonFacts| !person.role.contains("cre"@) && person.role.contains("aut"@),
    )
}

/// The people with neither role.
pub open spec fn contributing(people: Seq<PersonFacts>) -> Seq<PersonFacts> {
    people.filter(
        |person: PersonFacts| !person.role.contains("cre"@) && !person.role.contains("aut"@),
    )
}

/// Whether a list shows people, in their order.
pub open spec fn shows(list: Seq<PersonView>, people: Seq<PersonFacts>) -> bool {
    list.len() == people.len() && forall|i: int|
        0 <= i < people.len() ==> #[trigger] list[i] == listed_person(people[i])
}

/// Who is listed where: maintainers are the people with that role and other
/// contributors those without the roles of maintainer and author, in their order.
/// Authors are those with that role; the ones who maintain the package too come first,
/// the last of them at the head.
pub proof fn sections_hold_the_right_people(people: Seq<PersonFacts>)
    ensures
        people.len() == 0 <==> authors_of(people) is None,
        authors_of(people) matches Some(sections) ==> {
            &&& shows(sections.maintainers, maintaining(people))
            &&& shows(sections.authors, leading(people).reverse() + only_writing(people))
            &&& shows(sections.other_contributors, contributing(people))
        },
{
    sections_so_far(people, people.len() as int);
    assert(people.take(people.len() as int) =~= people);
    let sections = author_sections(people, people.len() as int);
    if people.len() > 0 {
        crate::model::merge::package::everybody_is_listed(people, 0);
    }
}

proof fn sections_so_far(people: Seq<PersonFacts>, count: int)
    requires
        0 <= count <= people.len(),
    ensures
        ({
            let sections = author_sections(people, count);
            let some = people.take(count);
            &&& shows(sections.maintainers, maintaining(some))
            &&& shows(sections.authors, leading(some).reverse() + only_writing(some))
            &&& shows(sections.other_contributors, contributing(some))
        }),
    decreases count,
{
    reveal(Seq::filter);
    let some = people.take(count);
    let sections = author_sections(people, count);
    if count > 0 {
        sections_so_far(people, count - 1);
        let before = author_sections(people, count - 1);
        let fewer = people.take(count - 1);
        let person = people[count - 1];
        assert(some.drop_last() =~= fewer);
        assert(some.last() == person);
        let heads = leading(fewer).reverse();
        if person.role.contains("cre"@) && person.role.contains("aut"@) {
            assert(leading(some) =~= leading(fewer).push(person));
            assert(leading(some).reverse() =~= seq![person] + heads);
            assert(leading(some).reverse() + only_writing(some) =~= seq![person] + (heads
                + only_writing(fewer)));
            let wanted = leading(some).reverse() + only_writing(some);
            assert forall|i: int| 0 <= i < wanted.len() implies #[trigger] sections.authors[i]
                == listed_person(wanted[i]) by {
                if i > 0 {
                    assert(sections.authors[i] == before.authors[i - 1]);
                    assert(wanted[i] == (heads + only_writing(fewer))[i - 1]);
                }
            }
        } else {
            assert(leading(some) =~= leading(fewer));
            if person.role.contains("aut"@) {
                assert(leading(some).reverse() + only_writing(some) =~= (heads + only_writing(
                    fewer,
                )).push(person));
            }
        }
    } else {
        assert(leading(some).reverse() + only_writing(some) =~= Seq::<PersonFacts>::empty());
    }
}

/// The pieces of a text between separators, put together with separators, are the text
/// again, and no piece holds a separator.
pub proof fn pieces_make_up_the_text(text: Seq<char>, separator: char)
    ensures
        pieces_between(text, separator).len() > 0,
        put_together(pieces_between(text, separator), separator) == text,
        forall|i: int|
            0 <= i < pieces_between(text, separator).len() ==> !(#[trigger] pieces_between(
                text,
                separator,
            )[i]).contains(separator),
    decreases text.len(),
{
    let pieces = pieces_between(text, separator);
    if text.len() > 0 {
        let before = pieces_between(text.drop_last(), separator);
        pieces_make_up_the_text(text.drop_last(), separator);
        assert(text =~= text.drop_last().push(text.last()));
        if text.last() == separator {
            assert(pieces.drop_last() =~= before);
            assert(put_together(pieces, separator) =~= text);
        } else {
            assert(pieces.drop_last() =~= before.drop_last());
            let last = before.last().push(text.last());
            assert forall|k: int| 0 <= k < last.len() implies last[k] != separator by {
                if k < before.last().len() {
                    assert(!before[before.len() - 1].contains(separator));
                    assert(before.last()[k] == last[k]);
                }
            }
            assert(put_together(pieces, separator) =~= text);
        }
        assert forall|i: int| 0 <= i < pieces.len() implies !(#[trigger] pieces[i]).contains(
            separator,
        ) by {
            if i < pieces.len() - 1 {
                assert(pieces[i] == before[i]);
            }
        }
    } else {
        assert(put_together(pieces, separator) =~= text);
    }
}

/// Pieces of text with a separator between each two.
pub open spec fn put_together(pieces: Seq<Seq<char>>, separator: char) -> Seq<char>
    decreases pieces.len(),
{
    if pieces.len() == 0 {
        Seq::empty()
    } else if pieces.len() == 1 {
        pieces[0]
    } else {
        put_together(pieces.drop_last(), separator).push(separator) + pieces.last()
    }
}

/// Whether a part of a text is the text without white space around it.
pub open spec fn trims(text: Seq<char>, from: int, to: int) -> bool {
    &&& 0 <= from <= to <= text.len()
    &&& forall|i: int| 0 <= i < from ==> is_space(#[trigger] text[i])
    &&& forall|i: int| to <= i < text.len() ==> is_space(#[trigger] text[i])
    &&& from < to ==> !is_space(text[from]) && !is_space(text[to - 1])
}

proof fn trims_behind(text: Seq<char>, from: int, to: int)
    requires
        text.len() > 0,
        is_space(text[0]),
        trims(text.drop_first(), from, to),
    ensures
        trims(text, from + 1, to + 1),
        text.subrange(from + 1, to + 1) == text.drop_first().subrange(from, to),
{
    let rest = text.drop_first();
    assert(text.subrange(from + 1, to + 1) =~= rest.subrange(from, to));
    assert forall|i: int| 0 <= i < from + 1 implies is_space(#[trigger] text[i]) by {
        if i > 0 {
            assert(is_space(rest[i - 1]));
        }
    }
    assert forall|i: int| to + 1 <= i < text.len() implies is_space(#[trigger] text[i]) by {
        assert(is_space(rest[i - 1]));
    }
}

proof fn trims_before(text: Seq<char>, from: int, to: int)
    requires
        text.len() > 0,
        is_space(text.last()),
        trims(text.drop_last(), from, to),
    ensures
        trims(text, from, to),
        text.subrange(from, to) == text.drop_last().subrange(from, to),
{
    let rest = text.drop_last();
    assert(text.subrange(from, to) =~= rest.subrange(from, to));
    assert forall|i: int| 0 <= i < from implies is_space(#[trigger] text[i]) by {
        assert(is_space(rest[i]));
    }
    assert forall|i: int| to <= i < text.len() implies is_space(#[trigger] text[i]) by {
        if i < rest.len() {
            assert(is_space(rest[i]));
        }
    }
}

/// Trimming takes away white space at both ends of a text, all of it and nothing else.
pub proof fn trimming_takes_white_space(text: Seq<char>)
    ensures
        exists|from: int, to: int| #[trigger]
            trims(text, from, to) && trimmed(text) == text.subrange(from, to),
    decreases text.len(),
{
    if text.len() == 0 {
        assert(trims(text, 0, 0));
        assert(text.subrange(0, 0) =~= text);
    } else if is_space(text[0]) {
        trimming_takes_white_space(text.drop_first());
        let (from, to) = choose|from: int, to: int| #[trigger]
            trims(text.drop_first(), from, to) && trimmed(text.drop_first())
                == text.drop_first().subrange(from, to);
        trims_behind(text, from, to);
    } else if is_space(text.last()) {
        trimming_takes_white_space(text.drop_last());
        let (from, to) = choose|from: int, to: int| #[trigger]
            trims(text.drop_last(), from, to) && trimmed(text.drop_last())
                == text.drop_last().subrange(from, to);
        trims_before(text, from, to);
    } else {
        assert(trims(text, 0, text.len() as int));
        assert(text.subrange(0, text.len() as int) =~= text);
    }
}

/// The pieces of a URL field that hold more than white space.
pub open spec fn filled_pieces(pieces: Seq<Seq<char>>) -> Seq<Seq<char>> {
    pieces.filter(|piece: Seq<char>| trimmed(piece).len() > 0)
}

/// Whether a link is the one to a URL: a DOI is kept by its number.
pub open spec fn links_to(link: LinkView, url: Seq<char>) -> bool {
    if "https://doi.org/"@.is_prefix_of(url) {
        link.doi && "https://doi.org/"@ + link.target == url
    } else {
        !link.doi && link.target == url
    }
}

/// The links of a package are those of its URL field, one for each piece between
/// commas that holds more than white space, in their order, and the address for bug
/// reports. There are none exactly when neither is given.
pub proof fn every_url_is_linked(metadata: PackageDocumentationMetadata)
    ensures
        ({
            let urls = match metadata.url {
                Some(text) => filled_pieces(pieces_between(text@, ',')),
                None => Seq::empty(),
            };
            &&& see_also_of(metadata) is None <==> urls.len() == 0 && metadata.bug_reports is None
            &&& see_also_of(metadata) matches Some(links) ==> {
                &&& links.urls.len() == urls.len()
                &&& forall|i: int|
                    0 <= i < urls.len() ==> links_to(#[trigger] links.urls[i], trimmed(urls[i]))
                &&& match metadata.bug_reports {
                    Some(text) => links.bug_reports == Some(text@),
                    None => links.bug_reports is None,
                }
            }
        }),
{
    if let Some(text) = metadata.url {
        let pieces = pieces_between(text@, ',');
        links_so_far(pieces, pieces.len() as int);
        assert(pieces.take(pieces.len() as int) =~= pieces);
    }
}

proof fn links_so_far(pieces: Seq<Seq<char>>, count: int)
    requires
        0 <= count <= pieces.len(),
    ensures
        ({
            let links = url_links(pieces, count);
            let urls = filled_pieces(pieces.take(count));
            &&& links.len() == urls.len()
            &&& forall|i: int|
                0 <= i < urls.len() ==> links_to(#[trigger] links[i], trimmed(urls[i]))
        }),
    decreases count,
{
    reveal(Seq::filter);
    if count > 0 {
        links_so_far(pieces, count - 1);
        assert(pieces.take(count).drop_last() =~= pieces.take(count - 1));
        assert(pieces.take(count).last() == pieces[count - 1]);
        let url = trimmed(pieces[count - 1]);
        let link = url_link(url);
        assert("https://doi.org/"@.is_prefix_of(url) == crate::text::has_prefix(
            url,
            "https://doi.org/"@,
        ));
        if "https://doi.org/"@.is_prefix_of(url) {
            assert("https://doi.org/"@ + link.target =~= url);
        }
    }
}

/// Whether prose is generated at a place and says a text.
pub open spec fn generated_there(
    prose: Option<crate::model::view::ProseView>,
    text: Seq<char>,
    anchor: Span,
) -> bool {
    &&& prose is Some
    &&& prose->0.text == text
    &&& prose->0.mapping == SourceMapping::Synthetic(anchor)
    &&& prose->0.origin == (TagOrigin::Implicit { intro_span: anchor })
}

/// What DESCRIPTION gives to a package topic where its blocks neither give nor suppress
/// a field: the title behind the name of the package, the description, the links and
/// the authors. What cannot be read of the authors is noted, and so is a description
/// that nobody gives.
pub proof fn description_fills_package_topics(
    topic: TopicView,
    state: PackageFallbackState,
    anchor: Span,
    metadata: PackageMetadata,
)
    requires
        topic.kind == RdTopicKind::Package,
        state.package_anchor == Some(anchor),
    ensures
        ({
            let after = with_defaults(topic, Some(state), metadata);
            let given = metadata.documentation;
            &&& topic.title is None && !state.title_suppressed && given.title is Some
                ==> generated_there(
                after.title,
                metadata.package@ + seq![':', ' '] + given.title->0@,
                anchor,
            )
            &&& topic.title is None && given.title is None ==> after.title is None
            &&& topic.description is None && !state.description_suppressed && given.description
                is Some ==> generated_there(after.description, given.description->0@, anchor)
            &&& topic.description is None && given.description is None ==> after.description is None
            &&& topic.see_also is None && !state.see_also_suppressed ==> after.package_see_also
                == see_also_of(given)
            &&& topic.author is None && !state.author_suppressed && given.authors_r is Some
                ==> match author_reading(given.authors_r->0@) {
                Ok(authors) => after.package_author == authors
                    && after.package_metadata_diagnostics->0.authors_parse_error is None,
                Err(message) => after.package_author == topic.package_author
                    && after.package_metadata_diagnostics->0.authors_parse_error == Some(message),
            }
            &&& (topic.author is Some || state.author_suppressed || given.authors_r is None)
                ==> after.package_author == topic.package_author
                && after.package_metadata_diagnostics->0.authors_parse_error is None
            &&& (topic.see_also is Some || state.see_also_suppressed) ==> after.package_see_also
                == topic.package_see_also
            &&& after.package_metadata_diagnostics is Some
            &&& after.package_metadata_diagnostics->0.anchor == anchor
            &&& after.package_metadata_diagnostics->0.missing_description <==> (topic.description
                is None && given.description is None && !state.description_suppressed)
            &&& after.description_suppressed == state.description_suppressed
        }),
{
    reveal_strlit(": ");
    assert(": "@ =~= seq![':', ' ']);
}

/// A field that a block gives stays as it is, and so does one that a block suppresses.
pub proof fn description_takes_nothing_away(
    topic: TopicView,
    state: Option<PackageFallbackState>,
    metadata: PackageMetadata,
)
    ensures
        ({
            let after = with_defaults(topic, state, metadata);
            &&& topic.title is Some ==> after.title == topic.title
            &&& topic.description is Some ==> after.description == topic.description
            &&& state is Some && state->0.title_suppressed ==> after.title == topic.title
            &&& state is Some && state->0.description_suppressed ==> after.description
                == topic.description
            &&& (topic.kind != RdTopicKind::Package || state is None || state->0.package_anchor
                is None) ==> after == topic
            &&& after.name == topic.name
            &&& after.kind == topic.kind
            &&& after.aliases == topic.aliases
            &&& after.keywords == topic.keywords
            &&& after.params == topic.params
            &&& after.sections == topic.sections
            &&& after.usages == topic.usages
            &&& after.formals == topic.formals
            &&& after.blocks == topic.blocks
            &&& after.see_also == topic.see_also
            &&& after.author == topic.author
            &&& after.details == topic.details
            &&& after.return_value == topic.return_value
            &&& after.examples == topic.examples
            &&& after.inheritance == topic.inheritance
        }),
{
}

/// A block suppresses a field exactly when one of its tags of that field says `NULL`, or
/// a block before it did.
pub proof fn only_null_suppresses(state: PackageFallbackState, tags: Seq<ParsedTag>, count: int)
    requires
        0 <= count <= tags.len(),
    ensures
        ({
            let after = after_suppressions(state, tags, count);
            &&& after.title_suppressed <==> state.title_suppressed || exists|i: int|
                0 <= i < count && (#[trigger] tags[i] matches ParsedTag::Title(tag)
                    && tag.value is Suppress)
            &&& after.description_suppressed <==> state.description_suppressed || exists|i: int|
                0 <= i < count && (#[trigger] tags[i] matches ParsedTag::Description(tag)
                    && tag.value is Suppress)
            &&& after.see_also_suppressed <==> state.see_also_suppressed || exists|i: int|
                0 <= i < count && (#[trigger] tags[i] matches ParsedTag::SeeAlso(tag)
                    && tag.value is Suppress)
            &&& after.author_suppressed <==> state.author_suppressed || exists|i: int|
                0 <= i < count && (#[trigger] tags[i] matches ParsedTag::Author(tag)
                    && tag.value is Suppress)
            &&& after.package_anchor == state.package_anchor
            &&& after.default_alias_anchor == state.default_alias_anchor
            &&& after.default_aliases_enabled == state.default_aliases_enabled
        }),
    decreases count,
{
    if count > 0 {
        only_null_suppresses(state, tags, count - 1);
        let last = tags[count - 1];
    }
}

} // verus!
