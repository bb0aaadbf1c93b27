//! People in `Authors@R` fields.
use mini_roxygen_core::authors::{parse_authors, people_of_tokens};
use mini_roxygen_core::facts::{Person, PersonComment};
use mini_roxygen_core::marc_roles::role_term;

const NO_PERSON: &str = "Authors@R must be a call of person() or a vector of such calls";
const ODD_PERSON: &str = "person() has arguments that are not supported";

fn text(value: &str) -> Option<String> {
    Some(value.to_owned())
}

fn nobody() -> Person {
    Person { given: None, family: None, email: None, comment: Vec::new(), role: Vec::new() }
}

fn people(field: &str) -> Vec<Person> {
    parse_authors(field).expect("a readable field")
}

fn message(field: &str) -> String {
    parse_authors(field).expect_err("an unreadable field").message
}

#[test]
fn one_person_is_read() {
    assert_eq!(
        people(r#"person("Default", "Author", role = "aut")"#),
        [Person {
            given: text("Default"),
            family: text("Author"),
            role: vec!["aut".to_owned()],
            ..nobody()
        }]
    );
    assert_eq!(
        people("utils::person(given = 'A') # alone"),
        [Person { given: text("A"), ..nobody() }]
    );
    assert_eq!(people("person()"), [nobody()]);
}

#[test]
fn a_vector_of_people_is_read() {
    let field = r#"c(
    person("Ada", "Lovelace", , "ada@example.org", role = c("aut", "cre"),
           comment = c(ORCID = "0000-0001", "note", "ROR" = "x")),
    person(family = "Team", role = c('ctb'), email = NULL)
  )"#;
    let named = |name: &str, value: &str| PersonComment { name: text(name), value: value.to_owned() };
    assert_eq!(
        people(field),
        [
            Person {
                given: text("Ada"),
                family: text("Lovelace"),
                email: text("ada@example.org"),
                comment: vec![
                    named("ORCID", "0000-0001"),
                    PersonComment { name: None, value: "note".to_owned() },
                    named("ROR", "x"),
                ],
                role: vec!["aut".to_owned(), "cre".to_owned()],
            },
            Person { family: text("Team"), role: vec!["ctb".to_owned()], ..nobody() },
        ]
    );
    assert!(people("c()").is_empty());
}

#[test]
fn unnamed_arguments_fill_the_parameters_that_are_left() {
    assert_eq!(
        people(r#"person(family = "B", "A", NULL, "a@b")"#),
        [Person { given: text("A"), family: text("B"), email: text("a@b"), ..nobody() }]
    );
}

#[test]
fn strings_are_decoded() {
    let given = |literal: &str| people(&format!("person({literal})"))[0].given.clone();
    assert_eq!(given(r#""a\"b\\c\n\t""#), text("a\"b\\c\n\t"));
    assert_eq!(given(r"'it\'s'"), text("it's"));
    assert_eq!(given(r#""Jér\u{f4}me \U0001F600.""#), text("J\u{e9}r\u{f4}me \u{1F600}."));
    for literal in [r#""\x41""#, r#""\u0000""#, r#""\ud800""#, r#"r"(raw)""#] {
        assert!(parse_authors(&format!("person({literal})")).is_err(), "{literal}");
    }
}

#[test]
fn code_that_is_no_person_is_refused() {
    assert_eq!(message("foo(\"Broken\")"), NO_PERSON);
    assert_eq!(message("NULL"), NO_PERSON);
    assert_eq!(message("\"Ada Lovelace\""), NO_PERSON);
    assert_eq!(message("c(person(\"A\"), \"B\")"), NO_PERSON);
    assert_eq!(message("person(\"A\")(1)"), NO_PERSON);
    assert_eq!(message("other::person(\"A\")"), NO_PERSON);
}

#[test]
fn arguments_that_need_evaluation_are_refused() {
    for field in [
        r#"person(paste("A", "B"))"#,
        r#"person(name)"#,
        r#"person("A", 1)"#,
        r#"person("A", middle = "M", "B")"#,
        r#"person(c("A", "B"))"#,
        r#"person("A", nickname = "B")"#,
        r#"person(given = "A", given = "B")"#,
        r#"person("A", role = c(x = "aut"))"#,
        r#"person("A", role = c("aut",))"#,
        r#"c(person("A"), person(f()))"#,
        r#"person(,,,,,,,,"too many")"#,
    ] {
        assert_eq!(message(field), ODD_PERSON, "{field}");
    }
}

#[test]
fn text_that_is_no_expression_is_refused() {
    for field in ["", "person(", "person(\"A\") person(\"B\")", "person(\"A)"] {
        assert_eq!(message(field), "Authors@R is not a single R expression", "{field}");
    }
}

#[test]
fn tokens_are_read_without_a_parser() {
    let tokens = |list: &[&str]| list.iter().map(|token| (*token).to_owned()).collect::<Vec<_>>();
    assert_eq!(
        people_of_tokens(tokens(&["person", "(", "\"A\"", ",", " ", "#x", "\n", "'B'", ")"])),
        Ok(vec![Person { given: text("A"), family: text("B"), ..nobody() }])
    );
    assert!(people_of_tokens(tokens(&["person", "(", "\"A\""])).is_err());
    assert!(people_of_tokens(Vec::new()).is_err());
}

#[test]
fn role_codes_stand_for_terms() {
    assert_eq!(role_term("abr"), text("abridger"));
    assert_eq!(role_term("aft"), text("author of afterword, colophon, etc."));
    assert_eq!(role_term("cph"), text("copyright holder"));
    assert_eq!(role_term("fnd"), text("funder"));
    assert_eq!(role_term("wst"), text("writer of supplementary textual content"));
    for code in ["", "zzz", "ab", "aft author", "Aut", "rev"] {
        assert_eq!(role_term(code), None, "{code}");
    }
}
