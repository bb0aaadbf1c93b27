//! Laws of the people that an `Authors@R` field states.
use crate::authors::{
    arguments, authors_reading, call_argument, call_arguments, comma_parts, free_parameters,
    is_named, matched_parameters, named_text, named_texts, open_count, parameter_of, parameters,
    people_in, people_of, person_from, person_of, place_of, repeats_a_name, several, significant,
    string_body, string_text, unnamed_count, value_for, value_of, CallArgumentView, NamedText,
    PersonFacts, ValueView,
};
use crate::text::is_space;
use vstd::prelude::*;

verus! {

/// Whether a token is white space or a comment.
pub open spec fn says_nothing(token: Seq<char>) -> bool {
    token.len() == 0 || token[0] == '#' || is_space(token[0])
}

/// White space and comments do not count wherever they stand: the tokens of two pieces of code
/// are those of the first and those of the second.
pub proof fn trivia_does_not_count(
    first: Seq<Seq<char>>,
    second: Seq<Seq<char>>,
    token: Seq<char>,
)
    ensures
        significant(first + second) == significant(first) + significant(second),
        says_nothing(token) ==> significant(seq![token]).len() == 0,
        !says_nothing(token) ==> significant(seq![token]) == seq![token],
    decreases second.len(),
{
    assert(seq![token].drop_last() =~= Seq::<Seq<char>>::empty());
    assert(significant(Seq::empty()) =~= Seq::<Seq<char>>::empty());
    if !says_nothing(token) {
        assert(significant(seq![token]) =~= seq![token]);
    }
    if second.len() == 0 {
        assert(first + second =~= first);
        assert(significant(first) + significant(second) =~= significant(first));
    } else {
        trivia_does_not_count(first, second.drop_last(), token);
        assert((first + second).drop_last() =~= first + second.drop_last());
        assert(significant(first + second) =~= significant(first) + significant(second));
    }
}

/// A string without a backslash says what stands between its quotes.
pub proof fn plain_strings_say_what_they_hold(quote: char, body: Seq<char>)
    requires
        quote == '"' || quote == '\'',
        !body.contains('\\'),
    ensures
        string_text(seq![quote] + body + seq![quote]) == Some(body),
{
    let token = seq![quote] + body + seq![quote];
    assert(token.subrange(1, token.len() - 1) =~= body);
    plain_bodies(body, 0);
    assert(body.skip(0) =~= body);
}

proof fn plain_bodies(body: Seq<char>, i: int)
    requires
        0 <= i <= body.len(),
        !body.contains('\\'),
    ensures
        string_body(body, i) == Some(body.skip(i)),
    decreases body.len() - i,
{
    if i < body.len() {
        plain_bodies(body, i + 1);
        assert(body.contains(body[i]));
        assert(body.skip(i) =~= seq![body[i]] + body.skip(i + 1));
    } else {
        assert(body.skip(i) =~= Seq::<char>::empty());
    }
}

/// An escape in a string stands for its character: a line break, a tab, a quote or a backslash.
/// What stands before and behind it is read as it is. Escapes that are not known make the
/// string unreadable, and so does a backslash at its end.
pub proof fn escapes_stand_for_characters(before: Seq<char>, letter: char, behind: Seq<char>)
    requires
        !before.contains('\\'),
        !behind.contains('\\'),
        letter != 'u',
        letter != 'U',
    ensures
        ({
            let read = string_body(before + seq!['\\', letter] + behind, 0);
            &&& letter == 'n' ==> read == Some(before + seq!['\n'] + behind)
            &&& letter == 'r' ==> read == Some(before + seq!['\r'] + behind)
            &&& letter == 't' ==> read == Some(before + seq!['\t'] + behind)
            &&& letter == '"' || letter == '\'' || letter == '`' || letter == '\\' ==> read == Some(
                before + seq![letter] + behind,
            )
            &&& letter != 'n' && letter != 'r' && letter != 't' && letter != '"' && letter != '\''
                && letter != '`' && letter != '\\' ==> read is None
        }),
        string_body(before + seq!['\\'], 0) is None,
{
    let body = before + seq!['\\', letter] + behind;
    escaped_bodies(before, letter, behind, 0);
    assert(before.skip(0) =~= before);
    open_escapes(before, 0);
}

proof fn open_escapes(before: Seq<char>, i: int)
    requires
        0 <= i <= before.len(),
        !before.contains('\\'),
    ensures
        string_body(before + seq!['\\'], i) is None,
    decreases before.len() - i,
{
    let body = before + seq!['\\'];
    if i < before.len() {
        open_escapes(before, i + 1);
        assert(before.contains(before[i]));
        assert(body[i] == before[i]);
    } else {
        assert(body[i] == '\\');
    }
}

proof fn behind_escapes(body: Seq<char>, behind: Seq<char>, at: int, i: int)
    requires
        0 <= at <= i <= body.len(),
        body.skip(at) == behind,
        !behind.contains('\\'),
    ensures
        string_body(body, i) == Some(body.skip(i)),
    decreases body.len() - i,
{
    if i < body.len() {
        behind_escapes(body, behind, at, i + 1);
        assert(behind[i - at] == body[i]);
        assert(behind.contains(behind[i - at]));
        assert(body.skip(i) =~= seq![body[i]] + body.skip(i + 1));
    } else {
        assert(body.skip(i) =~= Seq::<char>::empty());
    }
}

proof fn escaped_bodies(before: Seq<char>, letter: char, behind: Seq<char>, i: int)
    requires
        0 <= i <= before.len(),
        !before.contains('\\'),
        !behind.contains('\\'),
        letter != 'u',
        letter != 'U',
    ensures
        string_body(before + seq!['\\', letter] + behind, i) == (
        match crate::authors::escape_value(letter) {
            Some(c) => Some(before.skip(i) + seq![c] + behind),
            None => None,
        }),
    decreases before.len() - i,
{
    let body = before + seq!['\\', letter] + behind;
    if i < before.len() {
        escaped_bodies(before, letter, behind, i + 1);
        assert(body[i] == before[i]);
        assert(before.contains(before[i]));
        if let Some(c) = crate::authors::escape_value(letter) {
            assert(seq![before[i]] + (before.skip(i + 1) + seq![c] + behind) =~= before.skip(i)
                + seq![c] + behind);
        }
    } else {
        assert(body[i] == '\\');
        assert(body[i + 1] == letter);
        assert(body.skip(i + 2) =~= behind);
        behind_escapes(body, behind, i + 2, i + 2);
        if let Some(c) = crate::authors::escape_value(letter) {
            assert(seq![c] + behind =~= before.skip(i) + seq![c] + behind);
        }
    }
}

/// Tokens with a comma between each two parts.
pub open spec fn with_commas(parts: Seq<Seq<Seq<char>>>) -> Seq<Seq<char>>
    decreases parts.len(),
{
    if parts.len() == 0 {
        Seq::empty()
    } else if parts.len() == 1 {
        parts[0]
    } else {
        with_commas(parts.drop_last()).push(","@) + parts.last()
    }
}

/// The parts between commas, put together with commas, are the tokens again: no token is lost.
pub proof fn parts_make_up_the_tokens(tokens: Seq<Seq<char>>)
    ensures
        comma_parts(tokens).len() > 0,
        with_commas(comma_parts(tokens)) == tokens,
    decreases tokens.len(),
{
    let parts = comma_parts(tokens);
    if tokens.len() > 0 {
        let before = comma_parts(tokens.drop_last());
        parts_make_up_the_tokens(tokens.drop_last());
        assert(tokens =~= tokens.drop_last().push(tokens.last()));
        if tokens.last() == ","@ && open_count(tokens.drop_last()) == Some(0nat) {
            assert(parts.drop_last() =~= before);
            assert(with_commas(parts) =~= tokens);
        } else {
            assert(parts.drop_last() =~= before.drop_last());
            assert(with_commas(parts) =~= tokens);
        }
    } else {
        assert(with_commas(parts) =~= tokens);
    }
}

/// A comma outside all parentheses divides: what stands before it and behind it are parts of
/// their own.
pub proof fn commas_divide(tokens: Seq<Seq<char>>)
    requires
        open_count(tokens) == Some(0nat),
    ensures
        comma_parts(tokens.push(","@)) == comma_parts(tokens).push(Seq::empty()),
{
    assert(tokens.push(","@).drop_last() =~= tokens);
}

/// The people of a vector are those of its parts, one each, in their order; a part that states
/// none makes the whole unreadable.
pub proof fn vectors_list_their_people(parts: Seq<Seq<Seq<char>>>, i: int)
    ensures
        people_in(parts) matches Ok(people) ==> people.len() == parts.len() && forall|k: int|
            0 <= k < parts.len() ==> person_of(#[trigger] parts[k]) == Ok::<
                PersonFacts,
                Seq<char>,
            >(people[k]),
        0 <= i < parts.len() && person_of(parts[i]) is Err ==> people_in(parts) is Err,
        (forall|k: int| 0 <= k < parts.len() ==> person_of(#[trigger] parts[k]) is Ok) ==> people_in(
            parts,
        ) is Ok,
    decreases parts.len(),
{
    if parts.len() > 0 {
        let front = parts.drop_last();
        vectors_list_their_people(front, i);
        assert(parts[parts.len() - 1] == parts.last());
        if let Ok(people) = people_in(parts) {
            let before = people_in(front)->Ok_0;
            assert forall|k: int| 0 <= k < parts.len() implies person_of(#[trigger] parts[k])
                == Ok::<PersonFacts, Seq<char>>(people[k]) by {
                if k < front.len() {
                    assert(front[k] == parts[k]);
                }
            }
        }
        if forall|k: int| 0 <= k < parts.len() ==> person_of(#[trigger] parts[k]) is Ok {
            assert forall|k: int| 0 <= k < front.len() implies person_of(#[trigger] front[k])
                is Ok by {
                assert(front[k] == parts[k]);
            }
        }
    }
}

/// A single call of `person()` states one person, with or without the package before it.
pub proof fn one_call_states_one_person(tokens: Seq<Seq<char>>)
    requires
        tokens.len() > 0,
        tokens[0] == "person"@ || tokens[0] == "utils"@,
    ensures
        people_of(tokens) == (match person_of(tokens) {
            Ok(person) => Ok::<Seq<PersonFacts>, Seq<char>>(seq![person]),
            Err(message) => Err(message),
        }),
        person_of(seq!["utils"@, "::"@] + tokens) == person_of(tokens) || tokens[0] == "utils"@,
{
    reveal_strlit("person");
    reveal_strlit("utils");
    reveal_strlit("c");
    assert("c"@.len() != "person"@.len() && "c"@.len() != "utils"@.len());
    assert("utils"@.len() != "person"@.len());
    let whole = seq!["utils"@, "::"@] + tokens;
    assert(whole.skip(2) =~= tokens);
}

/// What an argument can be: nothing, `NULL`, a string, or a vector of strings.
pub proof fn arguments_are_strings(part: Seq<Seq<char>>, text: Seq<char>)
    ensures
        part.len() == 0 ==> value_of(part) == Some(ValueView::Absent),
        part == seq!["NULL"@] ==> value_of(part) == Some(ValueView::Absent),
        part.len() == 1 && part[0] != "NULL"@ && string_text(part[0]) == Some(text) ==> value_of(
            part,
        ) == Some(ValueView::One(text)),
        part.len() == 1 && part[0] != "NULL"@ && string_text(part[0]) is None ==> value_of(part)
            is None,
        part.len() > 1 && part[0] != "c"@ ==> value_of(part) is None,
{
    if part == seq!["NULL"@] {
        assert(part[0] == "NULL"@);
    }
}

/// A vector of strings holds the strings of its parts, one each, in their order, with the names
/// before an equals sign.
pub proof fn vectors_hold_their_strings(parts: Seq<Seq<Seq<char>>>)
    ensures
        named_texts(parts) matches Some(items) ==> items.len() == parts.len() && forall|k: int|
            0 <= k < parts.len() ==> named_text(#[trigger] parts[k]) == Some(items[k]),
        (forall|k: int| 0 <= k < parts.len() ==> named_text(#[trigger] parts[k]) is Some)
            ==> named_texts(parts) is Some,
    decreases parts.len(),
{
    if parts.len() > 0 {
        let front = parts.drop_last();
        vectors_hold_their_strings(front);
        assert(parts[parts.len() - 1] == parts.last());
        if let Some(items) = named_texts(parts) {
            assert forall|k: int| 0 <= k < parts.len() implies named_text(#[trigger] parts[k])
                == Some(items[k]) by {
                if k < front.len() {
                    assert(front[k] == parts[k]);
                }
            }
        }
        if forall|k: int| 0 <= k < parts.len() ==> named_text(#[trigger] parts[k]) is Some {
            assert forall|k: int| 0 <= k < front.len() implies named_text(#[trigger] front[k])
                is Some by {
                assert(front[k] == parts[k]);
            }
        }
    }
}

/// The arguments of a call are those of its parts, one each, in their order.
pub proof fn calls_have_their_arguments(parts: Seq<Seq<Seq<char>>>)
    ensures
        call_arguments(parts) matches Some(list) ==> list.len() == parts.len() && forall|k: int|
            0 <= k < parts.len() ==> call_argument(#[trigger] parts[k]) == Some(list[k]),
        (forall|k: int| 0 <= k < parts.len() ==> call_argument(#[trigger] parts[k]) is Some)
            ==> call_arguments(parts) is Some,
    decreases parts.len(),
{
    if parts.len() > 0 {
        let front = parts.drop_last();
        calls_have_their_arguments(front);
        assert(parts[parts.len() - 1] == parts.last());
        if let Some(list) = call_arguments(parts) {
            assert forall|k: int| 0 <= k < parts.len() implies call_argument(#[trigger] parts[k])
                == Some(list[k]) by {
                if k < front.len() {
                    assert(front[k] == parts[k]);
                }
            }
        }
        if forall|k: int| 0 <= k < parts.len() ==> call_argument(#[trigger] parts[k]) is Some {
            assert forall|k: int| 0 <= k < front.len() implies call_argument(#[trigger] front[k])
                is Some by {
                assert(front[k] == parts[k]);
            }
        }
    }
}

proof fn matched_by_name(list: Seq<CallArgumentView>, count: int)
    requires
        0 <= count <= list.len(),
        forall|k: int|
            0 <= k < list.len() ==> (#[trigger] list[k]).name is Some && parameters().contains(
                list[k].name->0,
            ),
    ensures
        matched_parameters(list, count) matches Some(names) && names.len() == count && forall|k: int|
            0 <= k < count ==> #[trigger] names[k] == list[k].name->0,
    decreases count,
{
    if count > 0 {
        matched_by_name(list, count - 1);
        assert(list[count - 1].name is Some);
    }
}

proof fn found_by_name(names: Seq<Seq<char>>, name: Seq<char>, i: int, count: int)
    requires
        0 <= count <= names.len(),
    ensures
        0 <= i < count && names[i] == name && (forall|k: int|
            i < k < count ==> #[trigger] names[k] != name) ==> place_of(names, name, count) == Some(
            i,
        ),
        (forall|k: int| 0 <= k < count ==> #[trigger] names[k] != name) ==> place_of(
            names,
            name,
            count,
        ) is None,
    decreases count,
{
    if count > 0 {
        found_by_name(names, name, i, count - 1);
    }
}

/// Arguments that are all named, each by another parameter, give each field of the person the
/// value of its name; a field that is not named is empty.
pub proof fn named_arguments_fill_their_fields(
    list: Seq<CallArgumentView>,
    person: PersonFacts,
    i: int,
)
    requires
        forall|k: int|
            0 <= k < list.len() ==> (#[trigger] list[k]).name is Some && parameters().contains(
                list[k].name->0,
            ),
        !repeats_a_name(list),
        person_from(list) == Some(person),
        0 <= i < list.len(),
    ensures
        list[i].name == Some("given"@) ==> (list[i].value matches ValueView::One(text)
            && person.given == Some(text)) || (list[i].value is Absent && person.given is None),
        list[i].name == Some("family"@) ==> (list[i].value matches ValueView::One(text)
            && person.family == Some(text)) || (list[i].value is Absent && person.family is None),
        list[i].name == Some("email"@) ==> (list[i].value matches ValueView::One(text)
            && person.email == Some(text)) || (list[i].value is Absent && person.email is None),
        list[i].name == Some("role"@) ==> match list[i].value {
            ValueView::Absent => person.role.len() == 0,
            ValueView::One(text) => person.role == seq![text],
            ValueView::Many(items) => person.role.len() == items.len() && forall|k: int|
                0 <= k < items.len() ==> #[trigger] person.role[k] == items[k].value
                    && items[k].name is None,
        },
        list[i].name == Some("comment"@) ==> match list[i].value {
            ValueView::Absent => person.comment.len() == 0,
            ValueView::One(text) => person.comment == seq![NamedText { name: None, value: text }],
            ValueView::Many(items) => person.comment == items,
        },
        list[i].name == Some("middle"@) || list[i].name == Some("first"@) || list[i].name == Some(
            "last"@,
        ) ==> list[i].value is Absent,
{
    matched_by_name(list, list.len() as int);
    let names = matched_parameters(list, list.len() as int)->0;
    let name = list[i].name->0;
    assert forall|k: int| i < k < names.len() implies #[trigger] names[k] != name by {
        if names[k] == name {
            assert(list[i].name == list[k].name);
            assert(repeats_a_name(list));
        }
    }
    found_by_name(names, name, i, names.len() as int);
    assert(value_for(list, names, name) == list[i].value);
}

/// A field that no argument names is empty, where all arguments are named.
pub proof fn unnamed_fields_are_empty(list: Seq<CallArgumentView>, person: PersonFacts)
    requires
        forall|k: int|
            0 <= k < list.len() ==> (#[trigger] list[k]).name is Some && parameters().contains(
                list[k].name->0,
            ),
        person_from(list) == Some(person),
    ensures
        !is_named(list, "given"@) ==> person.given is None,
        !is_named(list, "family"@) ==> person.family is None,
        !is_named(list, "email"@) ==> person.email is None,
        !is_named(list, "role"@) ==> person.role.len() == 0,
        !is_named(list, "comment"@) ==> person.comment.len() == 0,
{
    matched_by_name(list, list.len() as int);
    let names = matched_parameters(list, list.len() as int)->0;
    unnamed_is_absent(list, names, "given"@);
    unnamed_is_absent(list, names, "family"@);
    unnamed_is_absent(list, names, "email"@);
    unnamed_is_absent(list, names, "role"@);
    unnamed_is_absent(list, names, "comment"@);
}

proof fn unnamed_is_absent(list: Seq<CallArgumentView>, names: Seq<Seq<char>>, name: Seq<char>)
    requires
        names.len() == list.len(),
        forall|k: int|
            0 <= k < list.len() ==> (#[trigger] list[k]).name is Some && names[k]
                == list[k].name->0,
    ensures
        !is_named(list, name) ==> value_for(list, names, name) is Absent,
{
    if !is_named(list, name) {
        assert forall|k: int| 0 <= k < names.len() implies #[trigger] names[k] != name by {
            assert(list[k].name is Some);
            if names[k] == name {
                assert(list[k].name == Some(name));
            }
        }
        found_by_name(names, name, 0, names.len() as int);
    }
}

proof fn counted_in_order(list: Seq<CallArgumentView>, count: int)
    requires
        0 <= count <= list.len(),
        forall|k: int| 0 <= k < list.len() ==> (#[trigger] list[k]).name is None,
    ensures
        unnamed_count(list, count) == count,
    decreases count,
{
    if count > 0 {
        counted_in_order(list, count - 1);
        assert(list[count - 1].name is None);
    }
}

proof fn all_free(list: Seq<CallArgumentView>, count: int)
    requires
        0 <= count <= parameters().len(),
        forall|k: int| 0 <= k < list.len() ==> (#[trigger] list[k]).name is None,
    ensures
        free_parameters(list, count) == parameters().take(count),
    decreases count,
{
    if count > 0 {
        all_free(list, count - 1);
        assert(!is_named(list, parameters()[count - 1]));
        assert(free_parameters(list, count) =~= parameters().take(count));
    } else {
        assert(free_parameters(list, count) =~= parameters().take(count));
    }
}

proof fn matched_in_order(list: Seq<CallArgumentView>, count: int)
    requires
        0 <= count <= list.len() <= parameters().len(),
        forall|k: int| 0 <= k < list.len() ==> (#[trigger] list[k]).name is None,
    ensures
        matched_parameters(list, count) == Some(parameters().take(count)),
    decreases count,
{
    if count > 0 {
        matched_in_order(list, count - 1);
        counted_in_order(list, count - 1);
        all_free(list, parameters().len() as int);
        assert(parameters().take(parameters().len() as int) =~= parameters());
        assert(list[count - 1].name is None);
        assert(parameter_of(list, count - 1) == Some(parameters()[count - 1]));
        assert(parameters().take(count - 1).push(parameters()[count - 1]) =~= parameters().take(
            count,
        ));
    } else {
        assert(parameters().take(0) =~= Seq::<Seq<char>>::empty());
    }
}

proof fn parameters_differ()
    ensures
        forall|i: int, j: int|
            0 <= i < j < parameters().len() ==> #[trigger] parameters()[i] != #[trigger] parameters()[j],
{
    reveal_strlit("given");
    reveal_strlit("family");
    reveal_strlit("middle");
    reveal_strlit("email");
    reveal_strlit("role");
    reveal_strlit("comment");
    reveal_strlit("first");
    reveal_strlit("last");
    assert("given"@[0] == 'g');
    assert("family"@[1] == 'a');
    assert("middle"@[0] == 'm');
    assert("email"@[0] == 'e');
    assert("role"@[0] == 'r');
    assert("comment"@[0] == 'c');
    assert("first"@[1] == 'i');
    assert("first"@[0] == 'f');
    assert("family"@[0] == 'f');
    assert("last"@[0] == 'l');
}

/// Arguments without names are, in their order: the given name, the family name, the middle
/// name, which must be left out, the address of mail, the roles and the comments.
pub proof fn plain_arguments_fill_fields_in_order(
    list: Seq<CallArgumentView>,
    person: PersonFacts,
)
    requires
        list.len() <= 6,
        forall|k: int| 0 <= k < list.len() ==> (#[trigger] list[k]).name is None,
        person_from(list) == Some(person),
    ensures
        list.len() > 0 ==> (list[0].value matches ValueView::One(text) && person.given == Some(text))
            || (list[0].value is Absent && person.given is None),
        list.len() > 1 ==> (list[1].value matches ValueView::One(text) && person.family == Some(
            text,
        )) || (list[1].value is Absent && person.family is None),
        list.len() > 2 ==> list[2].value is Absent,
        list.len() > 3 ==> (list[3].value matches ValueView::One(text) && person.email == Some(text))
            || (list[3].value is Absent && person.email is None),
        list.len() > 4 ==> several(list[4].value) == Some(person.role),
        list.len() > 5 ==> match list[5].value {
            ValueView::Absent => person.comment.len() == 0,
            ValueView::One(text) => person.comment == seq![NamedText { name: None, value: text }],
            ValueView::Many(items) => person.comment == items,
        },
        list.len() <= 1 ==> person.family is None,
        list.len() <= 3 ==> person.email is None,
        list.len() <= 4 ==> person.role.len() == 0,
        list.len() <= 5 ==> person.comment.len() == 0,
{
    matched_in_order(list, list.len() as int);
    parameters_differ();
    let names = parameters().take(list.len() as int);
    assert forall|i: int, k: int| 0 <= i < k < names.len() implies #[trigger] names[i]
        != #[trigger] names[k] by {
        assert(parameters()[i] != parameters()[k]);
    }
    placed(names, 0);
    placed(names, 1);
    placed(names, 2);
    placed(names, 3);
    placed(names, 4);
    placed(names, 5);
    assert(parameters()[0] == "given"@);
    assert(parameters()[1] == "family"@);
    assert(parameters()[2] == "middle"@);
    assert(parameters()[3] == "email"@);
    assert(parameters()[4] == "role"@);
    assert(parameters()[5] == "comment"@);
}

proof fn placed(names: Seq<Seq<char>>, i: int)
    requires
        names.len() <= parameters().len(),
        names == parameters().take(names.len() as int),
        0 <= i < parameters().len(),
        forall|a: int, b: int|
            0 <= a < b < parameters().len() ==> #[trigger] parameters()[a]
                != #[trigger] parameters()[b],
    ensures
        i < names.len() ==> place_of(names, parameters()[i], names.len() as int) == Some(i),
        i >= names.len() ==> place_of(names, parameters()[i], names.len() as int) is None,
{
    assert forall|k: int| 0 <= k < names.len() && k != i implies #[trigger] names[k]
        != parameters()[i] by {
        assert(names[k] == parameters()[k]);
        if k < i {
            assert(parameters()[k] != parameters()[i]);
        } else {
            assert(parameters()[i] != parameters()[k]);
        }
    }
    found_by_name(names, parameters()[i], i, names.len() as int);
}

/// A name that is no parameter, or given twice, makes the person unreadable.
pub proof fn odd_names_are_refused(list: Seq<CallArgumentView>, i: int, j: int)
    requires
        0 <= i < list.len(),
        list[i].name is Some,
    ensures
        !parameters().contains(list[i].name->0) ==> person_from(list) is None,
        i < j < list.len() && list[j].name == list[i].name ==> person_from(list) is None,
{
    if !parameters().contains(list[i].name->0) {
        unmatched_from_then_on(list, i, list.len() as int);
    }
    if i < j < list.len() && list[j].name == list[i].name {
        assert(repeats_a_name(list));
    }
}

proof fn unmatched_from_then_on(list: Seq<CallArgumentView>, i: int, count: int)
    requires
        0 <= i < count <= list.len(),
        list[i].name is Some,
        !parameters().contains(list[i].name->0),
    ensures
        matched_parameters(list, count) is None,
    decreases count,
{
    if i < count - 1 {
        unmatched_from_then_on(list, i, count - 1);
    }
}

/// A field that is no single R expression is refused with that message.
pub proof fn code_must_be_one_expression(field: Seq<char>)
    requires
        !crate::r_source::r_single_expression(field),
    ensures
        authors_reading(field) is Err,
{
}

} // verus!
