//! Provides the small tag queries used while assembling topics.
//!
//! Keeping first-value and policy lookups together prevents merge ordering
//! from being coupled to the details of individual tag representations.
use crate::tags::{DefaultAliasPolicy, ParsedTag, PlainText, TagValue};
use vstd::prelude::*;

use super::ir::MethodDeclaration;

verus! {

/// The first `@name` at or after a position.
pub open spec fn name_from(tags: Seq<ParsedTag>, i: int) -> Option<TagValue<PlainText>>
    decreases tags.len() - i,
{
    if i < 0 || i >= tags.len() {
        None
    } else {
        match tags[i] {
            ParsedTag::Name(value) => Some(value),
            _ => name_from(tags, i + 1),
        }
    }
}

/// The value behind an optional reference.
pub open spec fn opt_value<T>(o: Option<&T>) -> Option<T> {
    match o {
        Some(value) => Some(*value),
        None => None,
    }
}

/// The first `@name`.
pub fn first_name(tags: &Vec<ParsedTag>) -> (r: Option<&TagValue<PlainText>>)
    ensures
        opt_value(r) == name_from(tags@, 0),
{
    let mut i: usize = 0;
    while i < tags.len()
        invariant
            i <= tags@.len(),
            name_from(tags@, 0) == name_from(tags@, i as int),
        decreases tags@.len() - i,
    {
        if let ParsedTag::Name(value) = &tags[i] {
            return Some(value);
        }
        i = i + 1;
    }
    None
}

/// The first `@rdname` at or after a position.
pub open spec fn rdname_from(tags: Seq<ParsedTag>, i: int) -> Option<TagValue<PlainText>>
    decreases tags.len() - i,
{
    if i < 0 || i >= tags.len() {
        None
    } else {
        match tags[i] {
            ParsedTag::RdName(value) => Some(value),
            _ => rdname_from(tags, i + 1),
        }
    }
}

/// The first `@rdname`.
pub fn first_rdname(tags: &Vec<ParsedTag>) -> (r: Option<&TagValue<PlainText>>)
    ensures
        opt_value(r) == rdname_from(tags@, 0),
{
    let mut i: usize = 0;
    while i < tags.len()
        invariant
            i <= tags@.len(),
            rdname_from(tags@, 0) == rdname_from(tags@, i as int),
        decreases tags@.len() - i,
    {
        if let ParsedTag::RdName(value) = &tags[i] {
            return Some(value);
        }
        i = i + 1;
    }
    None
}

/// The first `@order` at or after a position.
pub open spec fn order_from(tags: Seq<ParsedTag>, i: int) -> Option<i64>
    decreases tags.len() - i,
{
    if i < 0 || i >= tags.len() {
        None
    } else {
        match tags[i] {
            ParsedTag::Order { value, .. } => Some(value),
            _ => order_from(tags, i + 1),
        }
    }
}

/// The first `@order`.
pub fn first_order(tags: &Vec<ParsedTag>) -> (r: Option<i64>)
    ensures
        r == order_from(tags@, 0),
{
    let mut i: usize = 0;
    while i < tags.len()
        invariant
            i <= tags@.len(),
            order_from(tags@, 0) == order_from(tags@, i as int),
        decreases tags@.len() - i,
    {
        if let ParsedTag::Order { value, .. } = &tags[i] {
            return Some(*value);
        }
        i = i + 1;
    }
    None
}

/// The first `@method` at or after a position.
pub open spec fn method_from(tags: Seq<ParsedTag>, i: int) -> Option<MethodDeclaration>
    decreases tags.len() - i,
{
    if i < 0 || i >= tags.len() {
        None
    } else {
        match tags[i] {
            ParsedTag::Method { generic, class, origin } => Some(
                MethodDeclaration { generic, class, origin },
            ),
            _ => method_from(tags, i + 1),
        }
    }
}

/// The first `@method`, as a declaration.
pub fn first_method(tags: &Vec<ParsedTag>) -> (r: Option<MethodDeclaration>)
    ensures
        r == method_from(tags@, 0),
{
    let mut i: usize = 0;
    while i < tags.len()
        invariant
            i <= tags@.len(),
            method_from(tags@, 0) == method_from(tags@, i as int),
        decreases tags@.len() - i,
    {
        if let ParsedTag::Method { generic, class, origin } = &tags[i] {
            return Some(
                MethodDeclaration {
                    generic: crate::source::Spanned::new(generic.value.clone(), generic.span),
                    class: crate::source::Spanned::new(class.value.clone(), class.span),
                    origin: origin.clone(),
                },
            );
        }
        i = i + 1;
    }
    None
}

/// Whether a block asks for no Rd topic.
pub open spec fn silences_rd(tags: Seq<ParsedTag>) -> bool {
    exists|i: int| 0 <= i < tags.len() && #[trigger] tags[i] is NoRd
}

/// Whether a block asks for no Rd topic.
pub fn has_no_rd(tags: &Vec<ParsedTag>) -> (r: bool)
    ensures
        r == silences_rd(tags@),
{
    let mut i: usize = 0;
    while i < tags.len()
        invariant
            i <= tags@.len(),
            forall|k: int| 0 <= k < i ==> !(#[trigger] tags@[k] is NoRd),
        decreases tags@.len() - i,
    {
        if let ParsedTag::NoRd(_) = &tags[i] {
            return true;
        }
        i = i + 1;
    }
    false
}

/// Whether a tag switches default aliases off.
pub open spec fn drops_default_aliases(tag: ParsedTag) -> bool {
    match tag {
        ParsedTag::Aliases(directive) => directive.value.defaults == DefaultAliasPolicy::Suppress,
        _ => false,
    }
}

/// Whether a block switches its default aliases off.
pub open spec fn without_default_aliases(tags: Seq<ParsedTag>) -> bool {
    exists|i: int| 0 <= i < tags.len() && drops_default_aliases(#[trigger] tags[i])
}

/// Whether a block switches its default aliases off.
pub fn suppresses_default_aliases(tags: &Vec<ParsedTag>) -> (r: bool)
    ensures
        r == without_default_aliases(tags@),
{
    let mut i: usize = 0;
    while i < tags.len()
        invariant
            i <= tags@.len(),
            forall|k: int| 0 <= k < i ==> !drops_default_aliases(#[trigger] tags@[k]),
        decreases tags@.len() - i,
    {
        if let ParsedTag::Aliases(directive) = &tags[i] {
            if matches!(directive.value.defaults, DefaultAliasPolicy::Suppress) {
                assert(drops_default_aliases(tags@[i as int]));
                return true;
            }
        }
        i = i + 1;
    }
    false
}

} // verus!
