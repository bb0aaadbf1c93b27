//! Shared facts about R source syntax.
use crate::text::{alnum, alpha, char_vec, digit, is_alnum, is_alpha, is_digit, same_text};
use vstd::prelude::*;

verus! {

/// The words that R rejects as unquoted names.
pub open spec fn reserved_word(name: Seq<char>) -> bool {
    ||| name == "if"@
    ||| name == "else"@
    ||| name == "repeat"@
    ||| name == "while"@
    ||| name == "function"@
    ||| name == "for"@
    ||| name == "in"@
    ||| name == "next"@
    ||| name == "break"@
    ||| name == "TRUE"@
    ||| name == "FALSE"@
    ||| name == "NULL"@
    ||| name == "Inf"@
    ||| name == "NaN"@
    ||| name == "NA"@
    ||| name == "NA_integer_"@
    ||| name == "NA_real_"@
    ||| name == "NA_complex_"@
    ||| name == "NA_character_"@
}

/// Returns whether R rejects `name` as an unquoted name.
///
/// Quoting more names than strictly required is the safe direction: R accepts
/// a quoted name in a directive, while an unquoted reserved word is parsed as
/// a keyword or constant instead of the requested object.
pub fn is_reserved_r_word(name: &str) -> (r: bool)
    ensures
        r == reserved_word(name@),
{
    same_text(name, "if") || same_text(name, "else") || same_text(name, "repeat") || same_text(
        name,
        "while",
    ) || same_text(name, "function") || same_text(name, "for") || same_text(name, "in")
        || same_text(name, "next") || same_text(name, "break") || same_text(name, "TRUE")
        || same_text(name, "FALSE") || same_text(name, "NULL") || same_text(name, "Inf")
        || same_text(name, "NaN") || same_text(name, "NA") || same_text(name, "NA_integer_")
        || same_text(name, "NA_real_") || same_text(name, "NA_complex_") || same_text(
        name,
        "NA_character_",
    )
}

/// A name that can be written without quotes: a letter or dot first, the dot
/// not followed by a digit, then letters, digits, dots and underscores, and
/// no reserved word.
pub open spec fn syntactic_name(name: Seq<char>) -> bool {
    &&& !reserved_word(name)
    &&& name.len() > 0
    &&& is_alpha(name[0]) || name[0] == '.'
    &&& !(name[0] == '.' && name.len() > 1 && is_digit(name[1]))
    &&& forall|i: int|
        1 <= i < name.len() ==> is_alnum(#[trigger] name[i]) || name[i] == '.' || name[i] == '_'
}

/// Whether `name` can be written without quotes.
pub fn is_syntactic_ascii_name(name: &str) -> (r: bool)
    ensures
        r == syntactic_name(name@),
{
    if is_reserved_r_word(name) {
        return false;
    }
    let chars = char_vec(name);
    if chars.len() == 0 {
        return false;
    }
    let first: char = chars[0];
    if !(alpha(first) || first == '.') {
        return false;
    }
    if first == '.' && chars.len() > 1 && digit(chars[1]) {
        return false;
    }
    let mut i: usize = 1;
    while i < chars.len()
        invariant
            1 <= i <= chars@.len(),
            chars@ == name@,
            forall|k: int|
                1 <= k < i ==> is_alnum(#[trigger] chars@[k]) || chars@[k] == '.' || chars@[k]
                    == '_',
        decreases chars@.len() - i,
    {
        let c: char = chars[i];
        if !(alnum(c) || c == '.' || c == '_') {
            assert(!(is_alnum(name@[i as int]) || name@[i as int] == '.' || name@[i as int] == '_'));
            return false;
        }
        i = i + 1;
    }
    true
}

} // verus!
