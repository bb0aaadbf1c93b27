//! Inline code classification and executable R Markdown detection.
use crate::r_source::{can_parse_r, r_single_expression};
use crate::text::{has_prefix, same_text, starts_with};
use vstd::prelude::*;

verus! {

/// Whether inline code is one of the tokens that are R code without being an
/// R expression.
pub open spec fn is_special_token(code: Seq<char>) -> bool {
    ||| code == "-"@
    ||| code == ":"@
    ||| code == "::"@
    ||| code == ":::"@
    ||| code == "!"@
    ||| code == "!="@
    ||| code == "("@
    ||| code == "["@
    ||| code == "[["@
    ||| code == "@"@
    ||| code == "*"@
    ||| code == "/"@
    ||| code == "&"@
    ||| code == "&&"@
    ||| code == "%*%"@
    ||| code == "%/%"@
    ||| code == "%%"@
    ||| code == "%in%"@
    ||| code == "%o%"@
    ||| code == "%x%"@
    ||| code == "^"@
    ||| code == "+"@
    ||| code == "<"@
    ||| code == "<="@
    ||| code == "="@
    ||| code == "=="@
    ||| code == ">"@
    ||| code == ">="@
    ||| code == "|"@
    ||| code == "||"@
    ||| code == "~"@
    ||| code == "$"@
    ||| code == "for"@
    ||| code == "function"@
    ||| code == "if"@
    ||| code == "repeat"@
    ||| code == "while"@
}

fn special_token(code: &str) -> (r: bool)
    ensures
        r == is_special_token(code@),
{
    same_text(code, "-") || same_text(code, ":") || same_text(code, "::") || same_text(code, ":::")
        || same_text(code, "!") || same_text(code, "!=") || same_text(code, "(")
        || same_text(code, "[") || same_text(code, "[[") || same_text(code, "@")
        || same_text(code, "*") || same_text(code, "/") || same_text(code, "&")
        || same_text(code, "&&") || same_text(code, "%*%") || same_text(code, "%/%")
        || same_text(code, "%%") || same_text(code, "%in%") || same_text(code, "%o%")
        || same_text(code, "%x%") || same_text(code, "^") || same_text(code, "+")
        || same_text(code, "<") || same_text(code, "<=") || same_text(code, "=")
        || same_text(code, "==") || same_text(code, ">") || same_text(code, ">=")
        || same_text(code, "|") || same_text(code, "||") || same_text(code, "~")
        || same_text(code, "$") || same_text(code, "for") || same_text(code, "function")
        || same_text(code, "if") || same_text(code, "repeat") || same_text(code, "while")
}

/// Whether `rd_writer::write_document` writes a document that is one `\code`
/// macro around a text.
pub uninterp spec fn code_is_writable(code: Seq<char>) -> bool;

/// Calls `rd_writer::write_document` on a document of one `\code` macro with an
/// R code leaf, and reports whether it was written. The contract only says
/// that the answer depends on nothing but the code; which code can be written
/// is left to the writer.
#[verifier::external_body]
fn can_write_code(code: &str) -> (r: bool)
    ensures
        r == code_is_writable(code@),
{
    let leaf = rd_ast::RdNode::RCode(code.to_owned());
    let node = rd_ast::RdNode::tagged(rd_ast::RdTag::Code, None, vec![leaf]);
    rd_writer::write_document(&rd_ast::RdDocument::from(vec![node])).is_ok()
}

/// Whether inline code asks for an evaluation.
pub open spec fn asks_evaluation(code: Seq<char>) -> bool {
    has_prefix(code, "r "@) || has_prefix(code, "Rd "@)
}

/// Whether inline code asks for an evaluation.
pub fn is_inline_r(code: &str) -> (r: bool)
    ensures
        r == asks_evaluation(code@),
{
    starts_with(code, "r ") || starts_with(code, "Rd ")
}

/// How a piece of inline code is written.
#[derive(Debug, Clone, Copy, PartialEq, Eq, Structural)]
pub enum CodeForm {
    /// `\code` around R code.
    Code,
    /// `\verb` around verbatim text.
    Verbatim,
}

/// The form of inline code, given whether it is a single R expression and
/// whether it can be written as R code.
pub open spec fn form_of(code: Seq<char>, parses: bool, writable: bool) -> CodeForm {
    if !asks_evaluation(code) && (parses || is_special_token(code)) && writable {
        CodeForm::Code
    } else {
        CodeForm::Verbatim
    }
}

/// The form of inline code.
pub open spec fn code_form(code: Seq<char>) -> CodeForm {
    form_of(code, r_single_expression(code), code_is_writable(code))
}

/// Decides the form of inline code from what the R parser and the Rd writer
/// say of it.
pub fn classify_code_with(code: &str, parses: bool, writable: bool) -> (r: CodeForm)
    ensures
        r == form_of(code@, parses, writable),
{
    if is_inline_r(code) {
        CodeForm::Verbatim
    } else if (parses || special_token(code)) && writable {
        CodeForm::Code
    } else {
        CodeForm::Verbatim
    }
}

/// Decides the form of inline code. The R parser accepts a few incomplete
/// texts, such as an unterminated string; what the Rd writer cannot close
/// again stays verbatim.
pub fn classify_code(code: &str) -> (r: CodeForm)
    ensures
        r == code_form(code@),
{
    let parses = can_parse_r(code);
    let writable = (parses || special_token(code)) && can_write_code(code);
    classify_code_with(code, parses, writable)
}

/// Whether the info string of a code block asks for an R evaluation: `{r`
/// followed by a closing brace, a comma or a space.
pub open spec fn is_r_chunk(info: Seq<char>) -> bool {
    info.len() > 2 && info[0] == '{' && info[1] == 'r' && (info[2] == '}' || info[2] == ','
        || info[2] == ' ')
}

/// Whether the info string of a code block asks for an R evaluation.
pub fn is_executable_r_chunk(info: &str) -> (r: bool)
    ensures
        r == is_r_chunk(info@),
{
    let chars = crate::text::char_vec(info);
    chars.len() > 2 && chars[0] == '{' && chars[1] == 'r' && (chars[2] == '}' || chars[2] == ','
        || chars[2] == ' ')
}

} // verus!
