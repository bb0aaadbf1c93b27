//! What the R parser says about source text.
use crate::text::texts;
use vstd::prelude::*;

verus! {

/// Whether `arity_parser::parser::parse` reads a text as R source without
/// reporting a diagnostic.
pub uninterp spec fn r_source_parses(text: Seq<char>) -> bool;

/// Calls `arity_parser::parser::parse` and reports whether its diagnostics are
/// empty. The contract only says that the answer depends on nothing but the
/// text; which texts parse is left to the parser.
#[verifier::external_body]
pub(crate) fn can_parse_namespace_source(text: &str) -> (r: bool)
    ensures
        r == r_source_parses(text@),
{
    arity_parser::parser::parse(text).diagnostics.is_empty()
}

/// Whether `arity_parser::parser::is_single_expression` accepts a text as
/// exactly one complete R expression.
pub uninterp spec fn r_single_expression(text: Seq<char>) -> bool;

/// Calls `arity_parser::parser::is_single_expression` on the parse of a text.
/// The contract only says that the answer depends on nothing but the text;
/// which texts are single expressions is left to the parser.
#[verifier::external_body]
pub(crate) fn can_parse_r(code: &str) -> (r: bool)
    ensures
        r == r_single_expression(code@),
{
    arity_parser::parser::is_single_expression(&arity_parser::parser::parse(code))
}

/// The texts of the tokens that `arity_parser::parser::parse` reads in a text.
pub uninterp spec fn r_tokens(text: Seq<char>) -> Seq<Seq<char>>;

/// Calls `arity_parser::parser::parse` and copies the texts of the tokens of its
/// tree, in source order. The contract only says that they depend on nothing but
/// the text; how R source is divided into tokens is left to the parser.
#[verifier::external_body]
pub(crate) fn token_texts(code: &str) -> (r: Vec<String>)
    ensures
        texts(r@) == r_tokens(code@),
{
    let elements = arity_parser::parser::parse(code).cst.descendants_with_tokens();
    elements.filter_map(|element| element.into_token()).map(|t| t.text().to_owned()).collect()
}

} // verus!
