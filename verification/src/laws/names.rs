//! Laws of how names are written in a NAMESPACE file.
use crate::namespace::render::{escape_char, escaped, quoted};
use crate::r_syntax::syntactic_name;
use crate::text::is_control;
use vstd::prelude::*;

verus! {

/// The words of R that are no names.
pub open spec fn reserved_words() -> Seq<Seq<char>> {
    seq![
        "if"@,
        "else"@,
        "repeat"@,
        "while"@,
        "function"@,
        "for"@,
        "in"@,
        "next"@,
        "break"@,
        "TRUE"@,
        "FALSE"@,
        "NULL"@,
        "Inf"@,
        "NaN"@,
        "NA"@,
        "NA_integer_"@,
        "NA_real_"@,
        "NA_complex_"@,
        "NA_character_"@,
    ]
}

/// Whether a character may stand in a name without quotes.
pub open spec fn may_stand_bare(c: char) -> bool {
    'a' <= c <= 'z' || 'A' <= c <= 'Z' || '0' <= c <= '9' || c == '.' || c == '_'
}

/// Whether a name starts as a name without quotes can: with a letter, or with a dot that no
/// digit follows.
pub open spec fn may_start_bare(name: Seq<char>) -> bool {
    &&& name.len() > 0
    &&& 'a' <= name[0] <= 'z' || 'A' <= name[0] <= 'Z' || name[0] == '.'
    &&& name.len() > 1 && name[0] == '.' ==> !('0' <= name[1] <= '9')
}

proof fn unlisted_words_are_names(name: Seq<char>)
    requires
        !reserved_words().contains(name),
    ensures
        !crate::r_syntax::reserved_word(name),
{
    assert forall|k: int| 0 <= k < reserved_words().len() implies reserved_words()[k] != name by {
        assert(reserved_words().contains(reserved_words()[k]));
    }
    assert(reserved_words()[0] == "if"@ && reserved_words()[1] == "else"@);
    assert(reserved_words()[2] == "repeat"@ && reserved_words()[3] == "while"@);
    assert(reserved_words()[4] == "function"@ && reserved_words()[5] == "for"@);
    assert(reserved_words()[6] == "in"@ && reserved_words()[7] == "next"@);
    assert(reserved_words()[8] == "break"@ && reserved_words()[9] == "TRUE"@);
    assert(reserved_words()[10] == "FALSE"@ && reserved_words()[11] == "NULL"@);
    assert(reserved_words()[12] == "Inf"@ && reserved_words()[13] == "NaN"@);
    assert(reserved_words()[14] == "NA"@ && reserved_words()[15] == "NA_integer_"@);
    assert(reserved_words()[16] == "NA_real_"@ && reserved_words()[17] == "NA_complex_"@);
    assert(reserved_words()[18] == "NA_character_"@);
}

/// A name of letters, digits, dots and underscores that starts as a name does, and is no
/// reserved word, is written as it is. Any other name is written between quotes.
pub proof fn odd_names_are_quoted(name: Seq<char>, i: int)
    ensures
        may_start_bare(name) && !reserved_words().contains(name) && (forall|k: int|
            0 <= k < name.len() ==> may_stand_bare(#[trigger] name[k])) ==> quoted(name) == name,
        !may_start_bare(name) ==> quoted(name) == seq!['"'] + escaped(name) + seq!['"'],
        0 <= i < name.len() && !may_stand_bare(name[i]) ==> quoted(name) == seq!['"'] + escaped(
            name,
        ) + seq!['"'],
        0 <= i < reserved_words().len() && name == reserved_words()[i] ==> quoted(name)
            == seq!['"'] + escaped(name) + seq!['"'],
{
    if may_start_bare(name) && !reserved_words().contains(name) && (forall|k: int|
        0 <= k < name.len() ==> may_stand_bare(#[trigger] name[k])) {
        unlisted_words_are_names(name);
        assert forall|k: int| 1 <= k < name.len() implies crate::text::is_alnum(#[trigger] name[k])
            || name[k] == '.' || name[k] == '_' by {
            assert(may_stand_bare(name[k]));
        }
        assert(syntactic_name(name));
    }
    if 0 <= i < name.len() && !may_stand_bare(name[i]) {
        assert(name[i] == name[i]);
        if i == 0 {
            assert(!syntactic_name(name));
        } else {
            assert(!(crate::text::is_alnum(name[i]) || name[i] == '.' || name[i] == '_'));
            assert(!syntactic_name(name));
        }
    }
}

/// The value of an upper-case hexadecimal digit.
pub open spec fn digit_value(c: char) -> int {
    if '0' <= c <= '9' {
        (c as u32) as int - 48
    } else {
        (c as u32) as int - 55
    }
}

/// The quotes of a name hold its characters in order. A quote and a backslash stand behind a
/// backslash; line breaks and tabs are written by their letters; any other control character by
/// its number; every other character stands for itself.
pub proof fn quotes_hold_the_name(a: Seq<char>, b: Seq<char>, c: char)
    ensures
        escaped(a + b) == escaped(a) + escaped(b),
        escaped(seq!['"']) == seq!['\\', '"'],
        escaped(seq!['\\']) == seq!['\\', '\\'],
        escaped(seq!['\n']) == seq!['\\', 'n'],
        escaped(seq!['\r']) == seq!['\\', 'r'],
        escaped(seq!['\t']) == seq!['\\', 't'],
        c != '"' && c != '\\' && !is_control(c) ==> escaped(seq![c]) == seq![c],
        is_control(c) && c != '\n' && c != '\r' && c != '\t' ==> ({
            let e = escaped(seq![c]);
            &&& e.len() == 4
            &&& e[0] == '\\'
            &&& e[1] == 'x'
            &&& digit_value(e[2]) * 16 + digit_value(e[3]) == (c as u32) as int
        }),
    decreases b.len(),
{
    one_character('"');
    one_character('\\');
    one_character('\n');
    one_character('\r');
    one_character('\t');
    one_character(c);
    if b.len() == 0 {
        assert(a + b =~= a);
        assert(escaped(a) + Seq::empty() =~= escaped(a));
    } else {
        quotes_hold_the_name(a, b.drop_last(), c);
        assert((a + b).drop_last() =~= a + b.drop_last());
        assert(escaped(a + b) =~= escaped(a) + escaped(b));
    }
}

proof fn one_character(c: char)
    ensures
        escaped(seq![c]) == escape_char(c),
{
    assert(seq![c].drop_last() =~= Seq::<char>::empty());
    assert(escaped(Seq::empty()) =~= Seq::<char>::empty());
    assert(escaped(seq![c]) =~= escape_char(c));
}

} // verus!
