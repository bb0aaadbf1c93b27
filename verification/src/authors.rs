//! The people of an `Authors@R` field.
//!
//! The field holds R code. It is read without being evaluated: a call of
//! `person()`, or a vector of such calls, whose arguments are strings, vectors of
//! strings or `NULL`. Everything else is reported.
use crate::facts::{AuthorsParseError, Person, PersonComment};
use crate::r_source::{can_parse_r, r_single_expression, r_tokens, token_texts};
use crate::r_syntax::{is_syntactic_ascii_name, syntactic_name};
use crate::text::{char_vec, is_space, opt_text, same_text, space, text_of, texts};
use vstd::prelude::*;

verus! {

/// A text that may have a name.
#[verifier::ext_equal]
pub struct NamedText {
    pub name: Option<Seq<char>>,
    pub value: Seq<char>,
}

impl View for PersonComment {
    type V = NamedText;

    open spec fn view(&self) -> NamedText {
        NamedText { name: opt_text(self.name), value: self.value@ }
    }
}

/// The models of comments.
pub open spec fn named_views(list: Seq<PersonComment>) -> Seq<NamedText> {
    list.map_values(|c: PersonComment| c@)
}

/// The model of [`Person`].
#[verifier::ext_equal]
pub struct PersonFacts {
    pub given: Option<Seq<char>>,
    pub family: Option<Seq<char>>,
    pub email: Option<Seq<char>>,
    pub comment: Seq<NamedText>,
    pub role: Seq<Seq<char>>,
}

impl View for Person {
    type V = PersonFacts;

    open spec fn view(&self) -> PersonFacts {
        PersonFacts {
            given: opt_text(self.given),
            family: opt_text(self.family),
            email: opt_text(self.email),
            comment: named_views(self.comment@),
            role: texts(self.role@),
        }
    }
}

/// The models of people.
pub open spec fn people_facts(people: Seq<Person>) -> Seq<PersonFacts> {
    people.map_values(|p: Person| p@)
}

/// Whether a token stands for nothing: white space or a comment.
pub open spec fn is_trivia(token: Seq<char>) -> bool {
    token.len() == 0 || token[0] == '#' || is_space(token[0])
}

/// The tokens that stand for something.
pub open spec fn significant(tokens: Seq<Seq<char>>) -> Seq<Seq<char>>
    decreases tokens.len(),
{
    if tokens.len() == 0 {
        Seq::empty()
    } else {
        let before = significant(tokens.drop_last());
        if is_trivia(tokens.last()) {
            before
        } else {
            before.push(tokens.last())
        }
    }
}

fn is_trivial(token: &str) -> (r: bool)
    ensures
        r == is_trivia(token@),
{
    let chars = char_vec(token);
    chars.len() == 0 || chars[0] == '#' || space(chars[0])
}

/// Drops white space and comments.
fn drop_trivia(tokens: Vec<String>) -> (r: Vec<String>)
    ensures
        texts(r@) == significant(texts(tokens@)),
{
    let ghost shown = texts(tokens@);
    let mut kept: Vec<String> = Vec::new();
    proof {
        assert(texts(kept@) =~= significant(shown.take(0)));
    }
    for token in it: tokens
        invariant
            texts(it.seq()) == shown,
            texts(kept@) == significant(shown.take(it.index() as int)),
    {
        let ghost before = texts(kept@);
        let ghost one = token@;
        proof {
            let prefix = shown.take(it.index() + 1);
            assert(prefix.drop_last() =~= shown.take(it.index() as int));
            assert(prefix.last() == one);
        }
        if !is_trivial(token.as_str()) {
            kept.push(token);
            proof {
                assert(texts(kept@) =~= before.push(one));
            }
        }
    }
    proof {
        assert(shown.take(shown.len() as int) =~= shown);
    }
    kept
}

/// The character that a letter behind a backslash stands for.
pub open spec fn escape_value(c: char) -> Option<char> {
    if c == 'n' {
        Some('\n')
    } else if c == 'r' {
        Some('\r')
    } else if c == 't' {
        Some('\t')
    } else if c == '\\' || c == '"' || c == '\'' || c == '`' {
        Some(c)
    } else {
        None
    }
}

fn read_escape(c: char) -> (r: Option<char>)
    ensures
        r == escape_value(c),
{
    if c == 'n' {
        Some('\n')
    } else if c == 'r' {
        Some('\r')
    } else if c == 't' {
        Some('\t')
    } else if c == '\\' || c == '"' || c == '\'' || c == '`' {
        Some(c)
    } else {
        None
    }
}

/// The value of a hexadecimal digit.
pub open spec fn hex_char(c: char) -> Option<nat> {
    if '0' <= c <= '9' {
        Some((c as u32 - '0' as u32) as nat)
    } else if 'a' <= c <= 'f' {
        Some((c as u32 - 'a' as u32 + 10) as nat)
    } else if 'A' <= c <= 'F' {
        Some((c as u32 - 'A' as u32 + 10) as nat)
    } else {
        None
    }
}

fn read_hex(c: char) -> (r: Option<u64>)
    ensures
        (match r {
            Some(n) => Some(n as nat),
            None => None,
        }) == hex_char(c),
        r is Some ==> r->0 < 16,
{
    if '0' <= c && c <= '9' {
        Some((c as u32 - '0' as u32) as u64)
    } else if 'a' <= c && c <= 'f' {
        Some((c as u32 - 'a' as u32 + 10) as u64)
    } else if 'A' <= c && c <= 'F' {
        Some((c as u32 - 'A' as u32 + 10) as u64)
    } else {
        None
    }
}

/// How many hexadecimal digits stand at a place, up to a limit.
pub open spec fn hex_run(body: Seq<char>, i: int, limit: nat) -> nat
    decreases limit,
{
    if limit == 0 || i < 0 || i >= body.len() || hex_char(body[i]) is None {
        0
    } else {
        1 + hex_run(body, i + 1, (limit - 1) as nat)
    }
}

/// The number that hexadecimal digits spell.
pub open spec fn hex_number(body: Seq<char>, i: int, count: nat) -> nat
    decreases count,
{
    if count == 0 {
        0
    } else {
        hex_number(body, i, (count - 1) as nat) * 16 + hex_char(body[i + count - 1])->0
    }
}

/// The least number that some hexadecimal digits do not reach.
spec fn hex_bound(count: nat) -> nat
    decreases count,
{
    if count == 0 {
        1
    } else {
        hex_bound((count - 1) as nat) * 16
    }
}

proof fn eight_digits_fit(count: nat)
    requires
        count <= 8,
    ensures
        hex_bound(count) <= 0x1_0000_0000,
{
    reveal_with_fuel(hex_bound, 9);
}

/// The character with a number, unless there is none or it is NUL.
pub open spec fn scalar(n: nat) -> Option<char> {
    if 0 < n <= 0x10FFFF && !(0xD800 <= n <= 0xDFFF) {
        Some(n as char)
    } else {
        None
    }
}

/// The character whose hexadecimal number stands at a place, in braces or not,
/// and where the text goes on.
pub open spec fn unicode_at(body: Seq<char>, i: int, limit: nat) -> Option<(char, int)> {
    let braced = 0 <= i < body.len() && body[i] == '{';
    let from = if braced {
        i + 1
    } else {
        i
    };
    let count = hex_run(body, from, limit);
    if count == 0 || (braced && !(from + count < body.len() && body[from + count] == '}')) {
        None
    } else {
        match scalar(hex_number(body, from, count)) {
            Some(c) => Some(
                (
                    c,
                    if braced {
                        from + count + 1
                    } else {
                        from + count
                    },
                ),
            ),
            None => None,
        }
    }
}

/// A run of digits goes on as far as digits stand there.
proof fn run_is_maximal(body: Seq<char>, i: int, limit: nat, count: nat)
    requires
        0 <= i,
        count <= limit,
        i + count <= body.len(),
        forall|k: int| i <= k < i + count ==> hex_char(#[trigger] body[k]) is Some,
        count == limit || i + count == body.len() || hex_char(body[i + count]) is None,
    ensures
        hex_run(body, i, limit) == count,
    decreases count,
{
    if count > 0 {
        assert(hex_char(body[i]) is Some);
        run_is_maximal(body, i + 1, (limit - 1) as nat, (count - 1) as nat);
    }
}

/// Reads a character by its hexadecimal number.
fn read_unicode(body: &Vec<char>, i: usize, limit: usize) -> (r: Option<(char, usize)>)
    requires
        i <= body@.len(),
        limit <= 8,
    ensures
        (match r {
            Some((c, next)) => Some((c, next as int)),
            None => None,
        }) == unicode_at(body@, i as int, limit as nat),
        r matches Some((_, next)) ==> i < next <= body@.len(),
{
    let braced: bool = i < body.len() && body[i] == '{';
    let from: usize = if braced {
        i + 1
    } else {
        i
    };
    let mut count: usize = 0;
    let mut value: u64 = 0;
    let mut going: bool = true;
    while going && count < limit && count < body.len() - from
        invariant
            from <= body@.len(),
            from + count <= body@.len(),
            count <= limit <= 8,
            value == hex_number(body@, from as int, count as nat),
            value < hex_bound(count as nat),
            forall|k: int| from <= k < from + count ==> hex_char(#[trigger] body@[k]) is Some,
            !going ==> from + count < body@.len() && hex_char(body@[from + count]) is None,
        decreases
                limit - count + (if going {
                    1int
                } else {
                    0
                }),
    {
        proof {
            eight_digits_fit(count as nat);
        }
        match read_hex(body[from + count]) {
            Some(d) => {
                value = value * 16 + d;
                count = count + 1;
            },
            None => {
                going = false;
            },
        }
    }
    proof {
        run_is_maximal(body@, from as int, limit as nat, count as nat);
        eight_digits_fit(count as nat);
    }
    if count == 0 {
        return None;
    }
    let end: usize = from + count;
    if braced && !(end < body.len() && body[end] == '}') {
        return None;
    }
    if value == 0 || value > 0x10FFFF {
        return None;
    }
    match char::from_u32(value as u32) {
        Some(c) => {
            if braced {
                Some((c, end + 1))
            } else {
                Some((c, end))
            }
        },
        None => None,
    }
}

/// The character that an escape stands for, and where the text goes on. Known
/// escapes are those of quotes, backslashes, line breaks and tabs, and numbers of
/// Unicode characters.
pub open spec fn escape_at(body: Seq<char>, i: int) -> Option<(char, int)> {
    if i + 1 >= body.len() {
        None
    } else if body[i + 1] == 'u' {
        unicode_at(body, i + 2, 4)
    } else if body[i + 1] == 'U' {
        unicode_at(body, i + 2, 8)
    } else {
        match escape_value(body[i + 1]) {
            Some(c) => Some((c, i + 2)),
            None => None,
        }
    }
}

/// The characters between quotes from a place on.
pub open spec fn string_body(body: Seq<char>, i: int) -> Option<Seq<char>>
    decreases body.len() - i,
{
    if i < 0 || i >= body.len() {
        Some(Seq::empty())
    } else if body[i] != '\\' {
        match string_body(body, i + 1) {
            Some(rest) => Some(seq![body[i]] + rest),
            None => None,
        }
    } else {
        match escape_at(body, i) {
            Some((c, next)) => if i < next <= body.len() {
                match string_body(body, next) {
                    Some(rest) => Some(seq![c] + rest),
                    None => None,
                }
            } else {
                None
            },
            None => None,
        }
    }
}

/// Whether a token is quoted like a string.
pub open spec fn is_quoted(token: Seq<char>) -> bool {
    token.len() >= 2 && (token[0] == '"' || token[0] == '\'') && token.last() == token[0]
}

/// What a string token says.
pub open spec fn string_text(token: Seq<char>) -> Option<Seq<char>> {
    if is_quoted(token) {
        string_body(token.subrange(1, token.len() - 1), 0)
    } else {
        None
    }
}

/// Reads an escape.
fn read_escape_at(body: &Vec<char>, i: usize) -> (r: Option<(char, usize)>)
    requires
        i < body@.len(),
    ensures
        (match r {
            Some((c, next)) => Some((c, next as int)),
            None => None,
        }) == escape_at(body@, i as int),
        r matches Some((_, next)) ==> i < next <= body@.len(),
{
    if i >= body.len() - 1 {
        None
    } else if body[i + 1] == 'u' {
        read_unicode(body, i + 2, 4)
    } else if body[i + 1] == 'U' {
        read_unicode(body, i + 2, 8)
    } else {
        match read_escape(body[i + 1]) {
            Some(c) => Some((c, i + 2)),
            None => None,
        }
    }
}

/// Reads a string token.
fn read_string(token: &str) -> (r: Option<String>)
    ensures
        opt_text(r) == string_text(token@),
{
    let chars = char_vec(token);
    if chars.len() < 2 {
        return None;
    }
    let quote: char = chars[0];
    if !((quote == '"' || quote == '\'') && chars[chars.len() - 1] == quote) {
        return None;
    }
    let inside = text_of(&chars, 1, chars.len() - 1);
    let body = char_vec(inside.as_str());
    proof {
        assert(body@ =~= token@.subrange(1, token@.len() - 1));
    }
    let mut out: String = String::new();
    let mut i: usize = 0;
    let ghost whole = string_body(body@, 0);
    proof {
        if whole is Some {
            assert(out@ + whole->0 =~= whole->0);
        }
    }
    while i < body.len()
        invariant
            i <= body@.len(),
            whole == string_body(body@, 0),
            whole == string_text(token@),
            opt_joined(out@, string_body(body@, i as int)) == whole,
        decreases body@.len() - i,
    {
        let c: char = body[i];
        let ghost before = out@;
        if c != '\\' {
            out.push(c);
            proof {
                join_step(before, c, string_body(body@, i + 1));
                assert(out@ =~= before.push(c));
            }
            i = i + 1;
        } else {
            match read_escape_at(&body, i) {
                Some((meant, next)) => {
                    out.push(meant);
                    proof {
                        join_step(before, meant, string_body(body@, next as int));
                        assert(out@ =~= before.push(meant));
                    }
                    i = next;
                },
                None => {
                    return None;
                },
            }
        }
    }
    proof {
        assert(out@ + Seq::<char>::empty() =~= out@);
    }
    Some(out)
}

/// A text before another that may be missing.
spec fn opt_joined(before: Seq<char>, rest: Option<Seq<char>>) -> Option<Seq<char>> {
    match rest {
        Some(rest) => Some(before + rest),
        None => None,
    }
}

proof fn join_step(before: Seq<char>, c: char, rest: Option<Seq<char>>)
    ensures
        opt_joined(
            before,
            match rest {
                Some(rest) => Some(seq![c] + rest),
                None => None,
            },
        ) == opt_joined(before.push(c), rest),
{
    if let Some(rest) = rest {
        assert(before + (seq![c] + rest) =~= before.push(c) + rest);
    }
}

/// How many parentheses are open behind tokens, unless one closes that never
/// opened.
pub open spec fn open_count(tokens: Seq<Seq<char>>) -> Option<nat>
    decreases tokens.len(),
{
    if tokens.len() == 0 {
        Some(0)
    } else {
        match open_count(tokens.drop_last()) {
            Some(count) => if tokens.last() == "("@ {
                Some(count + 1)
            } else if tokens.last() == ")"@ {
                if count == 0 {
                    None
                } else {
                    Some((count - 1) as nat)
                }
            } else {
                Some(count)
            },
            None => None,
        }
    }
}

/// The tokens between the parentheses of a call that makes up all tokens.
pub open spec fn call_inside(tokens: Seq<Seq<char>>, name: Seq<char>) -> Option<Seq<Seq<char>>> {
    if tokens.len() >= 3 && tokens[0] == name && tokens[1] == "("@ && tokens.last() == ")"@
        && open_count(tokens.subrange(2, tokens.len() - 1)) == Some(0nat) {
        Some(tokens.subrange(2, tokens.len() - 1))
    } else {
        None
    }
}

/// Tokens divided at the commas that stand outside all parentheses.
pub open spec fn comma_parts(tokens: Seq<Seq<char>>) -> Seq<Seq<Seq<char>>>
    decreases tokens.len(),
{
    if tokens.len() == 0 {
        seq![Seq::empty()]
    } else {
        let before = comma_parts(tokens.drop_last());
        if tokens.last() == ","@ && open_count(tokens.drop_last()) == Some(0nat) {
            before.push(Seq::empty())
        } else {
            before.drop_last().push(before.last().push(tokens.last()))
        }
    }
}

/// The arguments between the parentheses of a call.
pub open spec fn arguments(inside: Seq<Seq<char>>) -> Seq<Seq<Seq<char>>> {
    if inside.len() == 0 {
        Seq::empty()
    } else {
        comma_parts(inside)
    }
}

/// The tokens of each part.
pub open spec fn part_texts(parts: Seq<Vec<String>>) -> Seq<Seq<Seq<char>>> {
    parts.map_values(|part: Vec<String>| texts(part@))
}

fn count_open(tokens: &Vec<String>, from: usize, to: usize) -> (r: Option<usize>)
    requires
        from <= to <= tokens@.len(),
    ensures
        (match r {
            Some(count) => Some(count as nat),
            None => None,
        }) == open_count(texts(tokens@).subrange(from as int, to as int)),
{
    let ghost shown = texts(tokens@).subrange(from as int, to as int);
    let mut count: usize = 0;
    let mut i: usize = from;
    proof {
        assert(shown.take(0) =~= Seq::<Seq<char>>::empty());
    }
    while i < to
        invariant
            from <= i <= to <= tokens@.len(),
            count <= i - from,
            shown == texts(tokens@).subrange(from as int, to as int),
            open_count(shown.take(i - from)) == Some(count as nat),
        decreases to - i,
    {
        let token = tokens[i].as_str();
        proof {
            let prefix = shown.take(i + 1 - from);
            assert(prefix.drop_last() =~= shown.take(i - from));
            assert(prefix.last() == token@);
        }
        if same_text(token, "(") {
            count = count + 1;
        } else if same_text(token, ")") {
            if count == 0 {
                proof {
                    stays_unopened(shown, i + 1 - from, shown.len() as int);
                    assert(shown.take(shown.len() as int) =~= shown);
                }
                return None;
            }
            count = count - 1;
        }
        i = i + 1;
    }
    proof {
        assert(shown.take(shown.len() as int) =~= shown);
    }
    Some(count)
}

/// Nothing opens a parenthesis that closed too early.
proof fn stays_unopened(tokens: Seq<Seq<char>>, from: int, to: int)
    requires
        0 <= from <= to <= tokens.len(),
        open_count(tokens.take(from)) is None,
    ensures
        open_count(tokens.take(to)) is None,
    decreases to - from,
{
    if from < to {
        stays_unopened(tokens, from, to - 1);
        assert(tokens.take(to).drop_last() =~= tokens.take(to - 1));
    }
}

fn copy_tokens(tokens: &Vec<String>, from: usize, to: usize) -> (r: Vec<String>)
    requires
        from <= to <= tokens@.len(),
    ensures
        texts(r@) == texts(tokens@).subrange(from as int, to as int),
{
    let mut out: Vec<String> = Vec::new();
    let mut i: usize = from;
    while i < to
        invariant
            from <= i <= to <= tokens@.len(),
            out@.len() == i - from,
            forall|k: int| 0 <= k < i - from ==> (#[trigger] out@[k])@ == tokens@[from + k]@,
        decreases to - i,
    {
        out.push(tokens[i].clone());
        i = i + 1;
    }
    proof {
        assert(texts(out@) =~= texts(tokens@).subrange(from as int, to as int));
    }
    out
}

/// Reads the tokens between the parentheses of a call.
fn find_call_inside(tokens: &Vec<String>, name: &str) -> (r: Option<Vec<String>>)
    ensures
        (match r {
            Some(inside) => Some(texts(inside@)),
            None => None,
        }) == call_inside(texts(tokens@), name@),
{
    let ghost shown = texts(tokens@);
    let count: usize = tokens.len();
    proof {
        if tokens@.len() > 0 {
            assert(shown[0] == tokens@[0]@);
            assert(shown.last() == tokens@[tokens@.len() - 1]@);
        }
        if tokens@.len() > 1 {
            assert(shown[1] == tokens@[1]@);
        }
    }
    if count >= 3 && same_text(tokens[0].as_str(), name) && same_text(tokens[1].as_str(), "(")
        && same_text(tokens[count - 1].as_str(), ")") {
        match count_open(tokens, 2, count - 1) {
            Some(open) => if open == 0 {
                Some(copy_tokens(tokens, 2, count - 1))
            } else {
                None
            },
            None => None,
        }
    } else {
        None
    }
}

/// Divides the tokens between the parentheses of a call into arguments.
fn split_arguments(inside: &Vec<String>) -> (r: Vec<Vec<String>>)
    ensures
        part_texts(r@) == arguments(texts(inside@)),
{
    let ghost shown = texts(inside@);
    let mut parts: Vec<Vec<String>> = Vec::new();
    if inside.len() == 0 {
        proof {
            assert(part_texts(parts@) =~= Seq::<Seq<Seq<char>>>::empty());
        }
        return parts;
    }
    let mut current: Vec<String> = Vec::new();
    let mut depth: Option<usize> = Some(0);
    let mut i: usize = 0;
    proof {
        assert(shown.take(0) =~= Seq::<Seq<char>>::empty());
        assert(texts(current@) =~= Seq::<Seq<char>>::empty());
        assert(part_texts(parts@).push(texts(current@)) =~= comma_parts(shown.take(0)));
    }
    while i < inside.len()
        invariant
            i <= inside@.len(),
            shown == texts(inside@),
            depth matches Some(count) ==> count <= i,
            (match depth {
                Some(count) => Some(count as nat),
                None => None,
            }) == open_count(shown.take(i as int)),
            part_texts(parts@).push(texts(current@)) == comma_parts(shown.take(i as int)),
        decreases inside@.len() - i,
    {
        let token = inside[i].as_str();
        let ghost before = part_texts(parts@);
        let ghost part = texts(current@);
        proof {
            let prefix = shown.take(i + 1);
            assert(prefix.drop_last() =~= shown.take(i as int));
            assert(prefix.last() == token@);
            assert(before.push(part).drop_last() =~= before);
            assert(before.push(part).last() == part);
        }
        let outside: bool = match depth {
            Some(count) => count == 0,
            None => false,
        };
        if same_text(token, ",") && outside {
            parts.push(current);
            current = Vec::new();
            proof {
                assert(part_texts(parts@) =~= before.push(part));
                assert(texts(current@) =~= Seq::<Seq<char>>::empty());
            }
        } else {
            current.push(inside[i].clone());
            proof {
                assert(texts(current@) =~= part.push(token@));
            }
        }
        depth = match depth {
            Some(count) => if same_text(token, "(") {
                Some(count + 1)
            } else if same_text(token, ")") {
                if count == 0 {
                    None
                } else {
                    Some(count - 1)
                }
            } else {
                Some(count)
            },
            None => None,
        };
        i = i + 1;
    }
    proof {
        assert(shown.take(shown.len() as int) =~= shown);
    }
    let ghost before = part_texts(parts@);
    let ghost part = texts(current@);
    parts.push(current);
    proof {
        assert(part_texts(parts@) =~= before.push(part));
    }
    parts
}

/// The name that a token spells before an equals sign.
pub open spec fn spelled_name(token: Seq<char>) -> Option<Seq<char>> {
    if syntactic_name(token) {
        Some(token)
    } else {
        string_text(token)
    }
}

fn read_name(token: &str) -> (r: Option<String>)
    ensures
        opt_text(r) == spelled_name(token@),
{
    if is_syntactic_ascii_name(token) {
        Some(token.to_owned())
    } else {
        read_string(token)
    }
}

/// An item of a vector of strings, with its name where it has one.
pub open spec fn named_text(part: Seq<Seq<char>>) -> Option<NamedText> {
    if part.len() == 1 {
        match string_text(part[0]) {
            Some(value) => Some(NamedText { name: None, value }),
            None => None,
        }
    } else if part.len() == 3 && part[1] == "="@ {
        match (spelled_name(part[0]), string_text(part[2])) {
            (Some(name), Some(value)) => Some(NamedText { name: Some(name), value }),
            _ => None,
        }
    } else {
        None
    }
}

/// The items of a vector of strings, when all of them are strings.
pub open spec fn named_texts(parts: Seq<Seq<Seq<char>>>) -> Option<Seq<NamedText>>
    decreases parts.len(),
{
    if parts.len() == 0 {
        Some(Seq::empty())
    } else {
        match (named_texts(parts.drop_last()), named_text(parts.last())) {
            (Some(before), Some(item)) => Some(before.push(item)),
            _ => None,
        }
    }
}

fn read_item(part: &Vec<String>) -> (r: Option<PersonComment>)
    ensures
        (match r {
            Some(item) => Some(item@),
            None => None,
        }) == named_text(texts(part@)),
{
    let ghost shown = texts(part@);
    if part.len() == 1 {
        proof {
            assert(shown[0] == part@[0]@);
        }
        match read_string(part[0].as_str()) {
            Some(value) => Some(PersonComment { name: None, value }),
            None => None,
        }
    } else if part.len() == 3 {
        proof {
            assert(shown[0] == part@[0]@ && shown[1] == part@[1]@ && shown[2] == part@[2]@);
        }
        if !same_text(part[1].as_str(), "=") {
            return None;
        }
        match (read_name(part[0].as_str()), read_string(part[2].as_str())) {
            (Some(name), Some(value)) => Some(PersonComment { name: Some(name), value }),
            _ => None,
        }
    } else {
        None
    }
}

/// A part that is no string makes a vector of strings impossible.
proof fn one_bad_item_spoils(parts: Seq<Seq<Seq<char>>>, from: int, to: int)
    requires
        0 <= from <= to <= parts.len(),
        named_texts(parts.take(from)) is None,
    ensures
        named_texts(parts.take(to)) is None,
    decreases to - from,
{
    if from < to {
        one_bad_item_spoils(parts, from, to - 1);
        assert(parts.take(to).drop_last() =~= parts.take(to - 1));
    }
}

fn read_items(parts: &Vec<Vec<String>>) -> (r: Option<Vec<PersonComment>>)
    ensures
        (match r {
            Some(items) => Some(named_views(items@)),
            None => None,
        }) == named_texts(part_texts(parts@)),
{
    let ghost shown = part_texts(parts@);
    let mut items: Vec<PersonComment> = Vec::new();
    let mut i: usize = 0;
    proof {
        assert(shown.take(0) =~= Seq::<Seq<Seq<char>>>::empty());
        assert(named_views(items@) =~= Seq::<NamedText>::empty());
    }
    while i < parts.len()
        invariant
            i <= parts@.len(),
            shown == part_texts(parts@),
            named_texts(shown.take(i as int)) == Some(named_views(items@)),
        decreases parts@.len() - i,
    {
        let ghost before = named_views(items@);
        proof {
            let prefix = shown.take(i + 1);
            assert(prefix.drop_last() =~= shown.take(i as int));
            assert(prefix.last() == texts(parts@[i as int]@));
        }
        match read_item(&parts[i]) {
            Some(item) => {
                let ghost one = item@;
                items.push(item);
                proof {
                    assert(named_views(items@) =~= before.push(one));
                }
            },
            None => {
                proof {
                    one_bad_item_spoils(shown, i + 1, shown.len() as int);
                    assert(shown.take(shown.len() as int) =~= shown);
                }
                return None;
            },
        }
        i = i + 1;
    }
    proof {
        assert(shown.take(shown.len() as int) =~= shown);
    }
    Some(items)
}

/// The model of [`ArgumentValue`].
pub enum ValueView {
    Absent,
    One(Seq<char>),
    Many(Seq<NamedText>),
}

/// What an argument of `person()` is given: nothing or `NULL`, a string, or a
/// vector of strings.
enum ArgumentValue {
    Absent,
    One(String),
    Many(Vec<PersonComment>),
}

impl View for ArgumentValue {
    type V = ValueView;

    closed spec fn view(&self) -> ValueView {
        match self {
            ArgumentValue::Absent => ValueView::Absent,
            ArgumentValue::One(text) => ValueView::One(text@),
            ArgumentValue::Many(items) => ValueView::Many(named_views(items@)),
        }
    }
}

/// The value that tokens spell, when it is a known one.
pub open spec fn value_of(part: Seq<Seq<char>>) -> Option<ValueView> {
    if part.len() == 0 || (part.len() == 1 && part[0] == "NULL"@) {
        Some(ValueView::Absent)
    } else if part.len() == 1 {
        match string_text(part[0]) {
            Some(text) => Some(ValueView::One(text)),
            None => None,
        }
    } else {
        match call_inside(part, "c"@) {
            Some(inside) => match named_texts(arguments(inside)) {
                Some(items) => Some(ValueView::Many(items)),
                None => None,
            },
            None => None,
        }
    }
}

fn read_value(part: &Vec<String>) -> (r: Option<ArgumentValue>)
    ensures
        (match r {
            Some(value) => Some(value@),
            None => None,
        }) == value_of(texts(part@)),
{
    let ghost shown = texts(part@);
    if part.len() == 0 {
        return Some(ArgumentValue::Absent);
    }
    proof {
        assert(shown[0] == part@[0]@);
    }
    if part.len() == 1 {
        if same_text(part[0].as_str(), "NULL") {
            return Some(ArgumentValue::Absent);
        }
        return match read_string(part[0].as_str()) {
            Some(text) => Some(ArgumentValue::One(text)),
            None => None,
        };
    }
    match find_call_inside(part, "c") {
        Some(inside) => {
            let parts = split_arguments(&inside);
            match read_items(&parts) {
                Some(items) => Some(ArgumentValue::Many(items)),
                None => None,
            }
        },
        None => None,
    }
}

/// The model of [`CallArgument`].
pub struct CallArgumentView {
    pub name: Option<Seq<char>>,
    pub value: ValueView,
}

/// An argument of `person()`.
struct CallArgument {
    name: Option<String>,
    value: ArgumentValue,
}

impl View for CallArgument {
    type V = CallArgumentView;

    closed spec fn view(&self) -> CallArgumentView {
        CallArgumentView { name: opt_text(self.name), value: self.value@ }
    }
}

spec fn argument_views(list: Seq<CallArgument>) -> Seq<CallArgumentView> {
    list.map_values(|a: CallArgument| a@)
}

/// The argument that tokens spell, when it is a known one.
pub open spec fn call_argument(part: Seq<Seq<char>>) -> Option<CallArgumentView> {
    if part.len() >= 2 && part[1] == "="@ {
        match (spelled_name(part[0]), value_of(part.skip(2))) {
            (Some(name), Some(value)) => Some(CallArgumentView { name: Some(name), value }),
            _ => None,
        }
    } else {
        match value_of(part) {
            Some(value) => Some(CallArgumentView { name: None, value }),
            None => None,
        }
    }
}

/// The arguments that parts spell, when all of them are known ones.
pub open spec fn call_arguments(parts: Seq<Seq<Seq<char>>>) -> Option<Seq<CallArgumentView>>
    decreases parts.len(),
{
    if parts.len() == 0 {
        Some(Seq::empty())
    } else {
        match (call_arguments(parts.drop_last()), call_argument(parts.last())) {
            (Some(before), Some(one)) => Some(before.push(one)),
            _ => None,
        }
    }
}

fn read_argument(part: &Vec<String>) -> (r: Option<CallArgument>)
    ensures
        (match r {
            Some(one) => Some(one@),
            None => None,
        }) == call_argument(texts(part@)),
{
    let ghost shown = texts(part@);
    if part.len() >= 2 {
        proof {
            assert(shown[0] == part@[0]@ && shown[1] == part@[1]@);
        }
        if same_text(part[1].as_str(), "=") {
            let rest = copy_tokens(part, 2, part.len());
            proof {
                assert(texts(rest@) =~= shown.skip(2));
            }
            return match (read_name(part[0].as_str()), read_value(&rest)) {
                (Some(name), Some(value)) => Some(CallArgument { name: Some(name), value }),
                _ => None,
            };
        }
    }
    match read_value(part) {
        Some(value) => Some(CallArgument { name: None, value }),
        None => None,
    }
}

proof fn one_bad_argument_spoils(parts: Seq<Seq<Seq<char>>>, from: int, to: int)
    requires
        0 <= from <= to <= parts.len(),
        call_arguments(parts.take(from)) is None,
    ensures
        call_arguments(parts.take(to)) is None,
    decreases to - from,
{
    if from < to {
        one_bad_argument_spoils(parts, from, to - 1);
        assert(parts.take(to).drop_last() =~= parts.take(to - 1));
    }
}

fn read_arguments(parts: &Vec<Vec<String>>) -> (r: Option<Vec<CallArgument>>)
    ensures
        (match r {
            Some(list) => Some(argument_views(list@)),
            None => None,
        }) == call_arguments(part_texts(parts@)),
{
    let ghost shown = part_texts(parts@);
    let mut list: Vec<CallArgument> = Vec::new();
    let mut i: usize = 0;
    proof {
        assert(shown.take(0) =~= Seq::<Seq<Seq<char>>>::empty());
        assert(argument_views(list@) =~= Seq::<CallArgumentView>::empty());
    }
    while i < parts.len()
        invariant
            i <= parts@.len(),
            shown == part_texts(parts@),
            call_arguments(shown.take(i as int)) == Some(argument_views(list@)),
        decreases parts@.len() - i,
    {
        let ghost before = argument_views(list@);
        proof {
            let prefix = shown.take(i + 1);
            assert(prefix.drop_last() =~= shown.take(i as int));
            assert(prefix.last() == texts(parts@[i as int]@));
        }
        match read_argument(&parts[i]) {
            Some(one) => {
                let ghost seen = one@;
                list.push(one);
                proof {
                    assert(argument_views(list@) =~= before.push(seen));
                }
            },
            None => {
                proof {
                    one_bad_argument_spoils(shown, i + 1, shown.len() as int);
                    assert(shown.take(shown.len() as int) =~= shown);
                }
                return None;
            },
        }
        i = i + 1;
    }
    proof {
        assert(shown.take(shown.len() as int) =~= shown);
    }
    Some(list)
}

/// The parameters of `person()`, in their order.
pub open spec fn parameters() -> Seq<Seq<char>> {
    seq![
        "given"@,
        "family"@,
        "middle"@,
        "email"@,
        "role"@,
        "comment"@,
        "first"@,
        "last"@,
    ]
}

/// The texts of string slices.
pub open spec fn slice_texts(list: Seq<&'static str>) -> Seq<Seq<char>> {
    list.map_values(|s: &'static str| s@)
}

fn list_parameters() -> (r: Vec<&'static str>)
    ensures
        slice_texts(r@) == parameters(),
{
    let mut list: Vec<&'static str> = Vec::new();
    list.push("given");
    list.push("family");
    list.push("middle");
    list.push("email");
    list.push("role");
    list.push("comment");
    list.push("first");
    list.push("last");
    proof {
        assert(slice_texts(list@) =~= parameters());
    }
    list
}

/// Whether an argument is given by a name.
pub open spec fn is_named(list: Seq<CallArgumentView>, name: Seq<char>) -> bool {
    exists|i: int| 0 <= i < list.len() && (#[trigger] list[i]).name == Some(name)
}

/// The parameters among the first `count` that no argument names.
pub open spec fn free_parameters(list: Seq<CallArgumentView>, count: int) -> Seq<Seq<char>>
    decreases count,
{
    if count <= 0 {
        Seq::empty()
    } else {
        let before = free_parameters(list, count - 1);
        if is_named(list, parameters()[count - 1]) {
            before
        } else {
            before.push(parameters()[count - 1])
        }
    }
}

/// How many of the first `count` arguments have no name.
pub open spec fn unnamed_count(list: Seq<CallArgumentView>, count: int) -> nat
    decreases count,
{
    if count <= 0 {
        0
    } else if list[count - 1].name is None {
        unnamed_count(list, count - 1) + 1
    } else {
        unnamed_count(list, count - 1)
    }
}

/// The parameter that an argument is for: the one that it names, or the next one
/// that no argument names.
pub open spec fn parameter_of(list: Seq<CallArgumentView>, i: int) -> Option<Seq<char>> {
    match list[i].name {
        Some(name) => if parameters().contains(name) {
            Some(name)
        } else {
            None
        },
        None => {
            let free = free_parameters(list, parameters().len() as int);
            let k = unnamed_count(list, i) as int;
            if k < free.len() {
                Some(free[k])
            } else {
                None
            }
        },
    }
}

/// The parameters that the first `count` arguments are for, when each is for one.
pub open spec fn matched_parameters(list: Seq<CallArgumentView>, count: int) -> Option<
    Seq<Seq<char>>,
>
    decreases count,
{
    if count <= 0 {
        Some(Seq::empty())
    } else {
        match (matched_parameters(list, count - 1), parameter_of(list, count - 1)) {
            (Some(before), Some(name)) => Some(before.push(name)),
            _ => None,
        }
    }
}

fn has_name(list: &Vec<CallArgument>, name: &str) -> (r: bool)
    ensures
        r == is_named(argument_views(list@), name@),
{
    let ghost shown = argument_views(list@);
    let mut i: usize = 0;
    while i < list.len()
        invariant
            i <= list@.len(),
            shown == argument_views(list@),
            forall|k: int| 0 <= k < i ==> (#[trigger] shown[k]).name != Some(name@),
        decreases list@.len() - i,
    {
        proof {
            assert(shown[i as int] == list@[i as int]@);
        }
        if let Some(own) = &list[i].name {
            if same_text(own.as_str(), name) {
                proof {
                    assert(shown[i as int].name == Some(name@));
                }
                return true;
            }
        }
        i = i + 1;
    }
    false
}

fn list_free_parameters(list: &Vec<CallArgument>, all: &Vec<&'static str>) -> (r: Vec<&'static str>)
    requires
        slice_texts(all@) == parameters(),
    ensures
        slice_texts(r@) == free_parameters(argument_views(list@), parameters().len() as int),
{
    let ghost shown = argument_views(list@);
    let mut free: Vec<&'static str> = Vec::new();
    let mut i: usize = 0;
    proof {
        assert(all@.len() == parameters().len());
        assert(slice_texts(free@) =~= free_parameters(shown, 0));
    }
    while i < all.len()
        invariant
            i <= all@.len(),
            all@.len() == parameters().len(),
            slice_texts(all@) == parameters(),
            shown == argument_views(list@),
            slice_texts(free@) == free_parameters(shown, i as int),
        decreases all@.len() - i,
    {
        let ghost before = slice_texts(free@);
        let name: &'static str = all[i];
        proof {
            assert(slice_texts(all@)[i as int] == name@);
        }
        if !has_name(list, name) {
            free.push(name);
            proof {
                assert(slice_texts(free@) =~= before.push(name@));
            }
        }
        i = i + 1;
    }
    free
}

fn is_parameter(all: &Vec<&'static str>, name: &str) -> (r: bool)
    ensures
        r == slice_texts(all@).contains(name@),
{
    let ghost shown = slice_texts(all@);
    let mut i: usize = 0;
    while i < all.len()
        invariant
            i <= all@.len(),
            shown == slice_texts(all@),
            forall|k: int| 0 <= k < i ==> #[trigger] shown[k] != name@,
        decreases all@.len() - i,
    {
        proof {
            assert(shown[i as int] == all@[i as int]@);
        }
        if same_text(all[i], name) {
            return true;
        }
        i = i + 1;
    }
    false
}

proof fn one_stray_argument_spoils(list: Seq<CallArgumentView>, from: int, to: int)
    requires
        0 <= from <= to,
        matched_parameters(list, from) is None,
    ensures
        matched_parameters(list, to) is None,
    decreases to - from,
{
    if from < to {
        one_stray_argument_spoils(list, from, to - 1);
    }
}

fn match_parameters(list: &Vec<CallArgument>) -> (r: Option<Vec<String>>)
    ensures
        (match r {
            Some(names) => Some(texts(names@)),
            None => None,
        }) == matched_parameters(argument_views(list@), list@.len() as int),
{
    let ghost shown = argument_views(list@);
    let all = list_parameters();
    let free = list_free_parameters(list, &all);
    let mut names: Vec<String> = Vec::new();
    let mut unnamed: usize = 0;
    let mut i: usize = 0;
    proof {
        assert(texts(names@) =~= Seq::<Seq<char>>::empty());
    }
    while i < list.len()
        invariant
            i <= list@.len(),
            shown == argument_views(list@),
            slice_texts(all@) == parameters(),
            slice_texts(free@) == free_parameters(shown, parameters().len() as int),
            unnamed <= i,
            unnamed == unnamed_count(shown, i as int),
            matched_parameters(shown, i as int) == Some(texts(names@)),
        decreases list@.len() - i,
    {
        let ghost before = texts(names@);
        proof {
            assert(shown[i as int] == list@[i as int]@);
        }
        let own: Option<String> = match &list[i].name {
            Some(name) => if is_parameter(&all, name.as_str()) {
                Some(name.clone())
            } else {
                None
            },
            None => if unnamed < free.len() {
                proof {
                    assert(slice_texts(free@)[unnamed as int] == free@[unnamed as int]@);
                }
                Some(free[unnamed].to_owned())
            } else {
                None
            },
        };
        proof {
            assert(opt_text(own) == parameter_of(shown, i as int));
        }
        if list[i].name.is_none() {
            unnamed = unnamed + 1;
        }
        match own {
            Some(name) => {
                let ghost one = name@;
                names.push(name);
                proof {
                    assert(texts(names@) =~= before.push(one));
                }
            },
            None => {
                proof {
                    one_stray_argument_spoils(shown, i + 1, shown.len() as int);
                }
                return None;
            },
        }
        i = i + 1;
    }
    Some(names)
}

/// Where a name stands among the first `count` names, the last time.
pub open spec fn place_of(names: Seq<Seq<char>>, name: Seq<char>, count: int) -> Option<int>
    decreases count,
{
    if count <= 0 {
        None
    } else if names[count - 1] == name {
        Some(count - 1)
    } else {
        place_of(names, name, count - 1)
    }
}

/// What a parameter is given.
pub open spec fn value_for(
    list: Seq<CallArgumentView>,
    names: Seq<Seq<char>>,
    name: Seq<char>,
) -> ValueView {
    match place_of(names, name, names.len() as int) {
        Some(i) => list[i].value,
        None => ValueView::Absent,
    }
}

/// A value that is one string at most.
pub open spec fn single(value: ValueView) -> Option<Option<Seq<char>>> {
    match value {
        ValueView::Absent => Some(None),
        ValueView::One(text) => Some(Some(text)),
        ValueView::Many(_) => None,
    }
}

/// The texts of named texts.
pub open spec fn item_values(items: Seq<NamedText>) -> Seq<Seq<char>> {
    items.map_values(|item: NamedText| item.value)
}

/// A value that is any number of strings without names.
pub open spec fn several(value: ValueView) -> Option<Seq<Seq<char>>> {
    match value {
        ValueView::Absent => Some(Seq::empty()),
        ValueView::One(text) => Some(seq![text]),
        ValueView::Many(items) => if forall|i: int|
            0 <= i < items.len() ==> (#[trigger] items[i]).name is None {
            Some(item_values(items))
        } else {
            None
        },
    }
}

/// A value that is any number of strings, with names or without.
pub open spec fn remarks(value: ValueView) -> Seq<NamedText> {
    match value {
        ValueView::Absent => Seq::empty(),
        ValueView::One(text) => seq![NamedText { name: None, value: text }],
        ValueView::Many(items) => items,
    }
}

/// Whether two arguments have one name.
pub open spec fn repeats_a_name(list: Seq<CallArgumentView>) -> bool {
    exists|i: int, j: int|
        0 <= i < j < list.len() && (#[trigger] list[i]).name is Some && list[i].name == (
        #[trigger] list[j]).name
}

/// The person that arguments of `person()` state. Middle names, and first and
/// last names under the parameters of that name, are not supported.
pub open spec fn person_from(list: Seq<CallArgumentView>) -> Option<PersonFacts> {
    if repeats_a_name(list) {
        None
    } else {
        match matched_parameters(list, list.len() as int) {
            None => None,
            Some(names) => if value_for(list, names, "middle"@) is Absent && value_for(
                list,
                names,
                "first"@,
            ) is Absent && value_for(list, names, "last"@) is Absent {
                match (
                    single(value_for(list, names, "given"@)),
                    single(value_for(list, names, "family"@)),
                    single(value_for(list, names, "email"@)),
                    several(value_for(list, names, "role"@)),
                ) {
                    (Some(given), Some(family), Some(email), Some(role)) => Some(
                        PersonFacts {
                            given,
                            family,
                            email,
                            comment: remarks(value_for(list, names, "comment"@)),
                            role,
                        },
                    ),
                    _ => None,
                }
            } else {
                None
            },
        }
    }
}

fn find_place(names: &Vec<String>, name: &str) -> (r: Option<usize>)
    ensures
        (match r {
            Some(i) => Some(i as int),
            None => None,
        }) == place_of(texts(names@), name@, names@.len() as int),
        r matches Some(i) ==> i < names@.len(),
{
    let mut i: usize = names.len();
    while i > 0
        invariant
            i <= names@.len(),
            place_of(texts(names@), name@, names@.len() as int) == place_of(
                texts(names@),
                name@,
                i as int,
            ),
        decreases i,
    {
        proof {
            assert(texts(names@)[i - 1] == names@[i - 1]@);
        }
        if same_text(names[i - 1].as_str(), name) {
            return Some(i - 1);
        }
        i = i - 1;
    }
    None
}

fn find_value<'a>(list: &'a Vec<CallArgument>, names: &Vec<String>, name: &str) -> (r: Option<
    &'a ArgumentValue,
>)
    requires
        names@.len() == list@.len(),
    ensures
        (match r {
            Some(value) => value@,
            None => ValueView::Absent,
        }) == value_for(argument_views(list@), texts(names@), name@),
{
    match find_place(names, name) {
        Some(i) => {
            proof {
                assert(argument_views(list@)[i as int] == list@[i as int]@);
            }
            Some(&list[i].value)
        },
        None => None,
    }
}

/// The model of a value that may be missing.
spec fn given_value(value: Option<&ArgumentValue>) -> ValueView {
    match value {
        Some(value) => value@,
        None => ValueView::Absent,
    }
}

fn is_absent(value: Option<&ArgumentValue>) -> (r: bool)
    ensures
        r == (given_value(value) is Absent),
{
    match value {
        Some(ArgumentValue::Absent) => true,
        None => true,
        _ => false,
    }
}

fn take_single(value: Option<&ArgumentValue>) -> (r: Option<Option<String>>)
    ensures
        (match r {
            Some(text) => Some(opt_text(text)),
            None => None,
        }) == single(given_value(value)),
{
    match value {
        Some(ArgumentValue::One(text)) => Some(Some(text.clone())),
        Some(ArgumentValue::Many(_)) => None,
        _ => Some(None),
    }
}

fn take_several(value: Option<&ArgumentValue>) -> (r: Option<Vec<String>>)
    ensures
        (match r {
            Some(list) => Some(texts(list@)),
            None => None,
        }) == several(given_value(value)),
{
    let mut out: Vec<String> = Vec::new();
    match value {
        Some(ArgumentValue::One(text)) => {
            out.push(text.clone());
            proof {
                assert(texts(out@) =~= seq![text@]);
            }
        },
        Some(ArgumentValue::Many(items)) => {
            let ghost shown = named_views(items@);
            let mut i: usize = 0;
            while i < items.len()
                invariant
                    i <= items@.len(),
                    shown == named_views(items@),
                    out@.len() == i,
                    given_value(value) == ValueView::Many(shown),
                    forall|k: int| 0 <= k < i ==> (#[trigger] shown[k]).name is None,
                    forall|k: int| 0 <= k < i ==> (#[trigger] out@[k])@ == shown[k].value,
                decreases items@.len() - i,
            {
                proof {
                    assert(shown[i as int] == items@[i as int]@);
                }
                if items[i].name.is_some() {
                    return None;
                }
                out.push(items[i].value.clone());
                i = i + 1;
            }
            proof {
                assert(texts(out@) =~= item_values(shown));
            }
        },
        _ => {
            proof {
                assert(texts(out@) =~= Seq::<Seq<char>>::empty());
            }
        },
    }
    Some(out)
}

fn copy_name(name: &Option<String>) -> (r: Option<String>)
    ensures
        r == *name,
{
    match name {
        Some(name) => Some(name.clone()),
        None => None,
    }
}

fn take_remarks(value: Option<&ArgumentValue>) -> (r: Vec<PersonComment>)
    ensures
        named_views(r@) == remarks(given_value(value)),
{
    let mut out: Vec<PersonComment> = Vec::new();
    match value {
        Some(ArgumentValue::One(text)) => {
            out.push(PersonComment { name: None, value: text.clone() });
            proof {
                assert(named_views(out@) =~= seq![NamedText { name: None, value: text@ }]);
            }
        },
        Some(ArgumentValue::Many(items)) => {
            let mut i: usize = 0;
            while i < items.len()
                invariant
                    i <= items@.len(),
                    out@.len() == i,
                    forall|k: int| 0 <= k < i ==> (#[trigger] out@[k])@ == items@[k]@,
                decreases items@.len() - i,
            {
                let item = &items[i];
                out.push(
                    PersonComment { name: copy_name(&item.name), value: item.value.clone() },
                );
                i = i + 1;
            }
            proof {
                assert(named_views(out@) =~= named_views(items@));
            }
        },
        _ => {
            proof {
                assert(named_views(out@) =~= Seq::<NamedText>::empty());
            }
        },
    }
    out
}

fn has_repeats(list: &Vec<CallArgument>) -> (r: bool)
    ensures
        r == repeats_a_name(argument_views(list@)),
{
    let ghost shown = argument_views(list@);
    let mut i: usize = 0;
    while i < list.len()
        invariant
            i <= list@.len(),
            shown == argument_views(list@),
            forall|a: int, b: int|
                0 <= a < i && a < b < shown.len() && (#[trigger] shown[a]).name is Some
                    ==> shown[a].name != (#[trigger] shown[b]).name,
        decreases list@.len() - i,
    {
        proof {
            assert(shown[i as int] == list@[i as int]@);
        }
        if let Some(name) = &list[i].name {
            let mut j: usize = i + 1;
            while j < list.len()
                invariant
                    i < j <= list@.len(),
                    shown == argument_views(list@),
                    shown[i as int].name == Some(name@),
                    forall|b: int| i < b < j ==> (#[trigger] shown[b]).name != Some(name@),
                decreases list@.len() - j,
            {
                proof {
                    assert(shown[j as int] == list@[j as int]@);
                }
                if let Some(other) = &list[j].name {
                    if same_text(name.as_str(), other.as_str()) {
                        proof {
                            assert(shown[i as int].name == shown[j as int].name);
                        }
                        return true;
                    }
                }
                j = j + 1;
            }
        }
        i = i + 1;
    }
    false
}

proof fn as_many_parameters(list: Seq<CallArgumentView>, count: int)
    ensures
        matched_parameters(list, count) matches Some(names) ==> names.len() == (if count <= 0 {
            0
        } else {
            count
        }),
    decreases count,
{
    if count > 0 {
        as_many_parameters(list, count - 1);
    }
}

fn make_person(list: &Vec<CallArgument>) -> (r: Option<Person>)
    ensures
        (match r {
            Some(person) => Some(person@),
            None => None,
        }) == person_from(argument_views(list@)),
{
    if has_repeats(list) {
        return None;
    }
    let Some(names) = match_parameters(list) else {
        return None;
    };
    proof {
        as_many_parameters(argument_views(list@), list@.len() as int);
        assert(texts(names@).len() == names@.len());
    }
    if !is_absent(find_value(list, &names, "middle")) || !is_absent(
        find_value(list, &names, "first"),
    ) || !is_absent(find_value(list, &names, "last")) {
        return None;
    }
    let Some(given) = take_single(find_value(list, &names, "given")) else {
        return None;
    };
    let Some(family) = take_single(find_value(list, &names, "family")) else {
        return None;
    };
    let Some(email) = take_single(find_value(list, &names, "email")) else {
        return None;
    };
    let Some(role) = take_several(find_value(list, &names, "role")) else {
        return None;
    };
    let comment = take_remarks(find_value(list, &names, "comment"));
    Some(Person { given, family, email, comment, role })
}

/// Tokens without the package that `person` is taken from.
pub open spec fn without_package(tokens: Seq<Seq<char>>) -> Seq<Seq<char>> {
    if tokens.len() >= 2 && tokens[0] == "utils"@ && tokens[1] == "::"@ {
        tokens.skip(2)
    } else {
        tokens
    }
}

/// What is said of code that is no call of `person()`.
pub open spec fn no_person() -> Seq<char> {
    "Authors@R must be a call of person() or a vector of such calls"@
}

/// What is said of arguments that are not supported.
pub open spec fn odd_person() -> Seq<char> {
    "person() has arguments that are not supported"@
}

/// The person that tokens state, or why they state none.
pub open spec fn person_of(tokens: Seq<Seq<char>>) -> Result<PersonFacts, Seq<char>> {
    match call_inside(without_package(tokens), "person"@) {
        None => Err(no_person()),
        Some(inside) => match call_arguments(arguments(inside)) {
            None => Err(odd_person()),
            Some(list) => match person_from(list) {
                Some(person) => Ok(person),
                None => Err(odd_person()),
            },
        },
    }
}

/// The people that parts state, one each, or why the first that states none does
/// not.
pub open spec fn people_in(parts: Seq<Seq<Seq<char>>>) -> Result<Seq<PersonFacts>, Seq<char>>
    decreases parts.len(),
{
    if parts.len() == 0 {
        Ok(Seq::empty())
    } else {
        match people_in(parts.drop_last()) {
            Err(message) => Err(message),
            Ok(before) => match person_of(parts.last()) {
                Ok(person) => Ok(before.push(person)),
                Err(message) => Err(message),
            },
        }
    }
}

/// The people that tokens state: one call of `person()`, or a vector of them.
pub open spec fn people_of(tokens: Seq<Seq<char>>) -> Result<Seq<PersonFacts>, Seq<char>> {
    match call_inside(tokens, "c"@) {
        Some(inside) => people_in(arguments(inside)),
        None => match person_of(tokens) {
            Ok(person) => Ok(seq![person]),
            Err(message) => Err(message),
        },
    }
}

/// The people that an `Authors@R` field states, or why it cannot be read.
pub open spec fn authors_reading(field: Seq<char>) -> Result<Seq<PersonFacts>, Seq<char>> {
    if r_single_expression(field) {
        people_of(significant(r_tokens(field)))
    } else {
        Err("Authors@R is not a single R expression"@)
    }
}

/// The model of a reading.
pub open spec fn reading_view(reading: Result<Vec<Person>, AuthorsParseError>) -> Result<
    Seq<PersonFacts>,
    Seq<char>,
> {
    match reading {
        Ok(people) => Ok(people_facts(people@)),
        Err(error) => Err(error.message@),
    }
}

fn failed(message: &str) -> (r: AuthorsParseError)
    ensures
        r.message@ == message@,
{
    AuthorsParseError { message: message.to_owned() }
}

fn read_person(tokens: &Vec<String>) -> (r: Result<Person, AuthorsParseError>)
    ensures
        (match r {
            Ok(person) => Ok::<PersonFacts, Seq<char>>(person@),
            Err(error) => Err(error.message@),
        }) == person_of(texts(tokens@)),
{
    let ghost shown = texts(tokens@);
    let mut skipped: usize = 0;
    if tokens.len() >= 2 {
        proof {
            assert(shown[0] == tokens@[0]@ && shown[1] == tokens@[1]@);
        }
        if same_text(tokens[0].as_str(), "utils") && same_text(tokens[1].as_str(), "::") {
            skipped = 2;
        }
    }
    let call = copy_tokens(tokens, skipped, tokens.len());
    proof {
        assert(texts(call@) =~= without_package(shown));
    }
    let Some(inside) = find_call_inside(&call, "person") else {
        return Err(failed("Authors@R must be a call of person() or a vector of such calls"));
    };
    let parts = split_arguments(&inside);
    let Some(list) = read_arguments(&parts) else {
        return Err(failed("person() has arguments that are not supported"));
    };
    match make_person(&list) {
        Some(person) => Ok(person),
        None => Err(failed("person() has arguments that are not supported")),
    }
}

proof fn first_failure_stays(parts: Seq<Seq<Seq<char>>>, from: int, to: int)
    requires
        0 <= from <= to <= parts.len(),
        people_in(parts.take(from)) is Err,
    ensures
        people_in(parts.take(to)) == people_in(parts.take(from)),
    decreases to - from,
{
    if from < to {
        first_failure_stays(parts, from, to - 1);
        assert(parts.take(to).drop_last() =~= parts.take(to - 1));
    }
}

fn read_people_in(parts: &Vec<Vec<String>>) -> (r: Result<Vec<Person>, AuthorsParseError>)
    ensures
        reading_view(r) == people_in(part_texts(parts@)),
{
    let ghost shown = part_texts(parts@);
    let mut people: Vec<Person> = Vec::new();
    let mut i: usize = 0;
    proof {
        assert(shown.take(0) =~= Seq::<Seq<Seq<char>>>::empty());
        assert(people_facts(people@) =~= Seq::<PersonFacts>::empty());
    }
    while i < parts.len()
        invariant
            i <= parts@.len(),
            shown == part_texts(parts@),
            people_in(shown.take(i as int)) == Ok::<Seq<PersonFacts>, Seq<char>>(
                people_facts(people@),
            ),
        decreases parts@.len() - i,
    {
        let ghost before = people_facts(people@);
        proof {
            let prefix = shown.take(i + 1);
            assert(prefix.drop_last() =~= shown.take(i as int));
            assert(prefix.last() == texts(parts@[i as int]@));
        }
        match read_person(&parts[i]) {
            Ok(person) => {
                let ghost one = person@;
                people.push(person);
                proof {
                    assert(people_facts(people@) =~= before.push(one));
                }
            },
            Err(error) => {
                proof {
                    first_failure_stays(shown, i + 1, shown.len() as int);
                    assert(shown.take(shown.len() as int) =~= shown);
                }
                return Err(error);
            },
        }
        i = i + 1;
    }
    proof {
        assert(shown.take(shown.len() as int) =~= shown);
    }
    Ok(people)
}

/// Reads people from the tokens of an expression.
pub fn people_of_tokens(tokens: Vec<String>) -> (r: Result<Vec<Person>, AuthorsParseError>)
    ensures
        reading_view(r) == people_of(significant(texts(tokens@))),
{
    let kept = drop_trivia(tokens);
    if let Some(inside) = find_call_inside(&kept, "c") {
        let parts = split_arguments(&inside);
        return read_people_in(&parts);
    }
    match read_person(&kept) {
        Ok(person) => {
            let ghost one = person@;
            let mut people: Vec<Person> = Vec::new();
            people.push(person);
            proof {
                assert(people_facts(people@) =~= seq![one]);
            }
            Ok(people)
        },
        Err(error) => Err(error),
    }
}

/// Reads the people of an `Authors@R` field.
pub fn parse_authors(field: &str) -> (r: Result<Vec<Person>, AuthorsParseError>)
    ensures
        reading_view(r) == authors_reading(field@),
{
    if can_parse_r(field) {
        people_of_tokens(token_texts(field))
    } else {
        Err(failed("Authors@R is not a single R expression"))
    }
}

} // verus!
