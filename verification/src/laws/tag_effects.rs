//! Laws of what the tags of a block do to a topic.
use crate::diagnostic::{DiagnosticCode, Severity};
use crate::model::ir::{InheritanceRequest, ParamDescription};
use crate::model::merge::block::{
    after_tag, after_tags, claim_from, field_state, field_value, owner_from, param_from,
    wants_topic, with_alias, with_aliases, with_keywords, with_params, ClaimView, OwnerView,
    TagState, TopicState,
};
use crate::model::slots::{filler_from, SlotView};
use crate::model::view::{AliasView, ProseView, TopicView};
use crate::source::Spanned;
use crate::tags::{
    AliasDirective, DocName, ExamplesContent, FieldTag, FieldValue, Keyword, MarkdownText,
    ParamName, ParsedTag, TagOrigin, TagValue, UsageDirective,
};
use vstd::prelude::*;

verus! {

/// Whether a topic describes a parameter.
pub open spec fn describes(topic: TopicView, name: Seq<char>) -> bool {
    exists|i: int| 0 <= i < topic.params.len() && (#[trigger] topic.params[i]).name.0@ == name
}

/// Whether a report is the only new one, of a code and an error.
pub open spec fn one_error_more(before: TagState, after: TagState, code: DiagnosticCode) -> bool {
    &&& after.state.ledger.diagnostics.len() == before.state.ledger.diagnostics.len() + 1
    &&& after.state.ledger.diagnostics.drop_last() == before.state.ledger.diagnostics
    &&& after.state.ledger.diagnostics.last().code == code
    &&& after.state.ledger.diagnostics.last().severity == Severity::Error
}

proof fn found_param(params: Seq<ParamDescription>, name: Seq<char>, i: int)
    requires
        0 <= i <= params.len(),
    ensures
        match param_from(params, name, i) {
            Some(param) => exists|k: int|
                i <= k < params.len() && #[trigger] params[k] == param && param.name.0@ == name,
            None => forall|k: int| i <= k < params.len() ==> (#[trigger] params[k]).name.0@ != name,
        },
    decreases params.len() - i,
{
    if i < params.len() {
        found_param(params, name, i + 1);
        if params[i].name.0@ == name {
            assert(params[i] == param_from(params, name, i)->0);
        }
    }
}

proof fn params_in_parts(
    before: TagState,
    first: Seq<Spanned<ParamName>>,
    second: Seq<Spanned<ParamName>>,
    description: MarkdownText,
    origin: TagOrigin,
    count: int,
)
    requires
        0 <= count <= second.len(),
    ensures
        with_params(before, first + second, description, origin, first.len() + count)
            == with_params(
            with_params(before, first, description, origin, first.len() as int),
            second,
            description,
            origin,
            count,
        ),
    decreases count,
{
    if count == 0 {
        same_params(before, first, first + second, description, origin, first.len() as int);
    } else {
        params_in_parts(before, first, second, description, origin, count - 1);
        assert((first + second)[first.len() + count - 1] == second[count - 1]);
    }
}

proof fn same_params(
    before: TagState,
    a: Seq<Spanned<ParamName>>,
    b: Seq<Spanned<ParamName>>,
    description: MarkdownText,
    origin: TagOrigin,
    count: int,
)
    requires
        forall|i: int| 0 <= i < count ==> a[i] == b[i],
    ensures
        with_params(before, a, description, origin, count) == with_params(
            before,
            b,
            description,
            origin,
            count,
        ),
    decreases count,
{
    if count > 0 {
        same_params(before, a, b, description, origin, count - 1);
    }
}

/// A `@param` of several names is a `@param` for each of them: its names may be split
/// over two tags with the same description.
pub proof fn param_names_may_be_split(
    before: TagState,
    key: Seq<char>,
    whole: Vec<Spanned<ParamName>>,
    first: Vec<Spanned<ParamName>>,
    second: Vec<Spanned<ParamName>>,
    description: MarkdownText,
    origin: TagOrigin,
)
    requires
        whole@ == first@ + second@,
    ensures
        after_tag(before, key, ParsedTag::Param { names: whole, description, origin }) == after_tag(
            after_tag(before, key, ParsedTag::Param { names: first, description, origin }),
            key,
            ParsedTag::Param { names: second, description, origin },
        ),
{
    params_in_parts(before, first@, second@, description, origin, second@.len() as int);
}

/// A `@param` of one name that the topic does not describe adds a description of that
/// name, with the text and the origin of the tag, behind the others, and reports
/// nothing. One of a name that is described adds an error and nothing else.
pub proof fn one_param_is_added_or_reported(
    before: TagState,
    key: Seq<char>,
    names: Vec<Spanned<ParamName>>,
    description: MarkdownText,
    origin: TagOrigin,
)
    requires
        names@.len() == 1,
    ensures
        !describes(before.state.topic, names@[0].value.0@) ==> ({
            let after = after_tag(before, key, ParsedTag::Param { names, description, origin });
            &&& after.state.topic.params.len() == before.state.topic.params.len() + 1
            &&& after.state.topic.params.drop_last() == before.state.topic.params
            &&& after.state.topic.params.last().name == names@[0].value
            &&& after.state.topic.params.last().description == description
            &&& after.state.topic.params.last().origin == origin
            &&& after.state.ledger == before.state.ledger
            &&& after.state.topic == (TopicView {
                params: after.state.topic.params,
                ..before.state.topic
            })
        }),
        describes(before.state.topic, names@[0].value.0@) ==> ({
            let after = after_tag(before, key, ParsedTag::Param { names, description, origin });
            &&& after.state.topic == before.state.topic
            &&& one_error_more(before, after, DiagnosticCode::ConflictingParamDescription)
            &&& after.state.ledger.diagnostics.last().primary.span == names@[0].span
        }),
{
    let params = before.state.topic.params;
    found_param(params, names@[0].value.0@, 0);
    let after = after_tag(before, key, ParsedTag::Param { names, description, origin });
    reveal_with_fuel(with_params, 2);
    if describes(before.state.topic, names@[0].value.0@) {
        assert(after.state.ledger.diagnostics.drop_last() =~= before.state.ledger.diagnostics);
    } else {
        assert(after.state.topic.params.drop_last() =~= params);
    }
}

/// After a `@param`, every one of its names is described. A name that was described
/// before keeps its description; any other carries that of the tag. Every name is
/// either a new description or a report.
pub proof fn every_param_name_is_described(
    before: TagState,
    key: Seq<char>,
    names: Vec<Spanned<ParamName>>,
    description: MarkdownText,
    origin: TagOrigin,
)
    ensures
        ({
            let after = after_tag(before, key, ParsedTag::Param { names, description, origin });
            let old = before.state.topic.params;
            let new = after.state.topic.params;
            &&& forall|i: int|
                0 <= i < names@.len() ==> describes(
                    after.state.topic,
                    (#[trigger] names@[i]).value.0@,
                )
            &&& old.len() <= new.len()
            &&& new.take(old.len() as int) == old
            &&& forall|k: int|
                old.len() <= k < new.len() ==> (#[trigger] new[k]).description == description
                    && new[k].origin == origin
            &&& after.state.ledger.diagnostics.len() - before.state.ledger.diagnostics.len()
                == names@.len() - (new.len() - old.len())
        }),
{
    described_so_far(before, names@, description, origin, names@.len() as int);
}

proof fn described_so_far(
    before: TagState,
    names: Seq<Spanned<ParamName>>,
    description: MarkdownText,
    origin: TagOrigin,
    count: int,
)
    requires
        0 <= count <= names.len(),
    ensures
        ({
            let after = with_params(before, names, description, origin, count);
            let old = before.state.topic.params;
            let new = after.state.topic.params;
            &&& forall|i: int|
                0 <= i < count ==> describes(after.state.topic, (#[trigger] names[i]).value.0@)
            &&& old.len() <= new.len()
            &&& new.take(old.len() as int) == old
            &&& forall|k: int|
                old.len() <= k < new.len() ==> (#[trigger] new[k]).description == description
                    && new[k].origin == origin
            &&& after.state.ledger.diagnostics.len() - before.state.ledger.diagnostics.len()
                == count - (new.len() - old.len())
        }),
    decreases count,
{
    let old = before.state.topic.params;
    if count == 0 {
        assert(old.take(old.len() as int) =~= old);
    } else {
        described_so_far(before, names, description, origin, count - 1);
        let middle = with_params(before, names, description, origin, count - 1);
        let after = with_params(before, names, description, origin, count);
        let was = middle.state.topic.params;
        let new = after.state.topic.params;
        found_param(was, names[count - 1].value.0@, 0);
        assert(new.take(old.len() as int) =~= was.take(old.len() as int));
        assert forall|i: int| 0 <= i < count implies describes(
            after.state.topic,
            (#[trigger] names[i]).value.0@,
        ) by {
            if i < count - 1 {
                assert(describes(middle.state.topic, names[i].value.0@));
                let k = choose|k: int|
                    0 <= k < was.len() && (#[trigger] was[k]).name.0@ == names[i].value.0@;
                assert(new[k].name.0@ == names[i].value.0@);
            } else if param_from(was, names[i].value.0@, 0) is Some {
                let k = choose|k: int|
                    0 <= k < was.len() && #[trigger] was[k] == param_from(
                        was,
                        names[i].value.0@,
                        0,
                    )->0;
                assert(new[k].name.0@ == names[i].value.0@);
            } else {
                assert(new[was.len() as int].name.0@ == names[i].value.0@);
            }
        }
    }
}

/// The keywords of an `@keywords` are listed behind those of the topic, in their
/// order, each once: what is listed afterwards is what was listed and what the tag
/// names.
pub proof fn keywords_are_collected(
    before: TagState,
    key: Seq<char>,
    tag: FieldTag<Vec<Spanned<Keyword>>>,
    keywords: Vec<Spanned<Keyword>>,
)
    requires
        tag.value == FieldValue::Emit(keywords),
    ensures
        ({
            let after = after_tag(before, key, ParsedTag::Keywords(tag));
            let old = before.state.topic.keywords;
            let new = after.state.topic.keywords;
            &&& forall|i: int|
                0 <= i < keywords@.len() ==> new.contains((#[trigger] keywords@[i]).value.0@)
            &&& old.len() <= new.len()
            &&& new.take(old.len() as int) == old
            &&& forall|k: int|
                old.len() <= k < new.len() ==> !old.contains(#[trigger] new[k]) && exists|i: int|
                    0 <= i < keywords@.len() && (#[trigger] keywords@[i]).value.0@ == new[k]
            &&& forall|j: int, k: int|
                old.len() <= j < k < new.len() ==> #[trigger] new[j] != #[trigger] new[k]
            &&& after.state.ledger == before.state.ledger
            &&& after.state.topic == (TopicView { keywords: new, ..before.state.topic })
        }),
{
    keywords_so_far(before.state.topic.keywords, keywords@, keywords@.len() as int);
}

proof fn keywords_so_far(old: Seq<Seq<char>>, keywords: Seq<Spanned<Keyword>>, count: int)
    requires
        0 <= count <= keywords.len(),
    ensures
        ({
            let new = with_keywords(old, keywords, count);
            &&& forall|i: int|
                0 <= i < count ==> new.contains((#[trigger] keywords[i]).value.0@)
            &&& old.len() <= new.len()
            &&& new.take(old.len() as int) == old
            &&& forall|k: int|
                old.len() <= k < new.len() ==> !old.contains(#[trigger] new[k]) && exists|i: int|
                    0 <= i < count && (#[trigger] keywords[i]).value.0@ == new[k]
            &&& forall|j: int, k: int|
                old.len() <= j < k < new.len() ==> #[trigger] new[j] != #[trigger] new[k]
        }),
    decreases count,
{
    if count == 0 {
        assert(old.take(old.len() as int) =~= old);
    } else {
        keywords_so_far(old, keywords, count - 1);
        let was = with_keywords(old, keywords, count - 1);
        let new = with_keywords(old, keywords, count);
        let keyword = keywords[count - 1].value.0@;
        assert(new.take(old.len() as int) =~= was.take(old.len() as int));
        assert forall|i: int| 0 <= i < count implies new.contains(
            (#[trigger] keywords[i]).value.0@,
        ) by {
            if i < count - 1 {
                let k = was.index_of(keywords[i].value.0@);
                assert(new[k] == keywords[i].value.0@);
            } else if was.contains(keyword) {
            } else {
                assert(new[was.len() as int] == keyword);
            }
        }
        assert forall|k: int| old.len() <= k < new.len() implies !old.contains(#[trigger] new[k])
            && exists|i: int|
            0 <= i < count && (#[trigger] keywords[i]).value.0@ == new[k] by {
            if k < was.len() {
                assert(new[k] == was[k]);
            } else {
                assert(keywords[count - 1].value.0@ == new[k]);
                if old.contains(keyword) {
                    let o = old.index_of(keyword);
                    assert(was.take(old.len() as int)[o] == was[o]);
                    assert(was.contains(keyword));
                }
            }
        }
        assert forall|j: int, k: int| old.len() <= j < k < new.len() implies #[trigger] new[j]
            != #[trigger] new[k] by {
            if k == was.len() {
                assert(was.contains(was[j]));
            }
        }
    }
}

proof fn found_owner(owners: Seq<OwnerView>, alias: Seq<char>, i: int)
    requires
        0 <= i <= owners.len(),
    ensures
        owner_from(owners, alias, i) is None <==> forall|k: int|
            i <= k < owners.len() ==> (#[trigger] owners[k]).alias != alias,
        forall|k: int|
            i <= k < owners.len() && (#[trigger] owners[k]).alias == alias && (forall|j: int|
                i <= j < k ==> (#[trigger] owners[j]).alias != alias) ==> owner_from(
                owners,
                alias,
                i,
            ) == Some(owners[k]),
    decreases owners.len() - i,
{
    if i < owners.len() {
        found_owner(owners, alias, i + 1);
        if owners[i].alias == alias {
            assert(owner_from(owners, alias, i) is Some);
        }
    }
}

/// An alias that the topic has changes nothing. Any other is listed behind the
/// others; an error is added exactly when the first topic that claimed it is
/// another one, and an alias that nobody claimed now belongs to the topic.
pub proof fn one_alias_is_claimed(state: TopicState, key: Seq<char>, alias: AliasView)
    ensures
        ({
            let after = with_alias(state, key, alias);
            let owners = state.ledger.owners;
            let listed = exists|i: int|
                0 <= i < state.topic.aliases.len() && (#[trigger] state.topic.aliases[i]).name
                    == alias.name;
            &&& listed ==> after == state
            &&& !listed ==> after.topic == (TopicView {
                aliases: state.topic.aliases.push(alias),
                ..state.topic
            })
            &&& !listed && (forall|i: int|
                0 <= i < owners.len() ==> (#[trigger] owners[i]).alias != alias.name)
                ==> after.ledger.diagnostics == state.ledger.diagnostics && after.ledger.owners.len()
                == owners.len() + 1 && after.ledger.owners.last().alias == alias.name
                && after.ledger.owners.last().key == key && after.ledger.owners.last().span
                == alias.span && after.ledger.owners.drop_last() == owners
            &&& forall|i: int|
                !listed && 0 <= i < owners.len() && (#[trigger] owners[i]).alias == alias.name && (
                forall|j: int| 0 <= j < i ==> (#[trigger] owners[j]).alias != alias.name)
                    ==> after.ledger.owners == owners && (if owners[i].key == key {
                    after.ledger.diagnostics == state.ledger.diagnostics
                } else {
                    &&& after.ledger.diagnostics.len() == state.ledger.diagnostics.len() + 1
                    &&& after.ledger.diagnostics.drop_last() == state.ledger.diagnostics
                    &&& after.ledger.diagnostics.last().code == DiagnosticCode::ConflictingAlias
                    &&& after.ledger.diagnostics.last().severity == Severity::Error
                    &&& after.ledger.diagnostics.last().primary.span == alias.span
                })
            &&& after.ledger.claims == state.ledger.claims
        }),
{
    reveal(with_alias);
    found_owner(state.ledger.owners, alias.name, 0);
    let after = with_alias(state, key, alias);
    if after.ledger.diagnostics.len() > state.ledger.diagnostics.len() {
        assert(after.ledger.diagnostics.drop_last() =~= state.ledger.diagnostics);
    }
    if after.ledger.owners.len() > state.ledger.owners.len() {
        assert(after.ledger.owners.drop_last() =~= state.ledger.owners);
    }
}

/// The aliases of an `@aliases` are claimed one after the other: its first alias and
/// then the rest.
pub proof fn aliases_are_claimed_in_order(
    before: TagState,
    key: Seq<char>,
    whole: TagValue<AliasDirective>,
    front: TagValue<AliasDirective>,
    last: Spanned<DocName>,
)
    requires
        whole.value.explicit@ == front.value.explicit@.push(last),
    ensures
        after_tag(before, key, ParsedTag::Aliases(whole)).state == with_alias(
            after_tag(before, key, ParsedTag::Aliases(front)).state,
            key,
            AliasView { name: last.value.0@, span: last.span },
        ),
{
    let names = whole.value.explicit@;
    let some = front.value.explicit@;
    same_aliases(before.state, key, names, some, some.len() as int);
    assert(names.last() == last);
}

/// An `@aliases` without aliases changes nothing.
pub proof fn no_aliases_change_nothing(
    before: TagState,
    key: Seq<char>,
    tag: TagValue<AliasDirective>,
)
    requires
        tag.value.explicit@.len() == 0,
    ensures
        after_tag(before, key, ParsedTag::Aliases(tag)).state == before.state,
{
}

proof fn same_aliases(
    state: TopicState,
    key: Seq<char>,
    a: Seq<Spanned<DocName>>,
    b: Seq<Spanned<DocName>>,
    count: int,
)
    requires
        forall|i: int| 0 <= i < count ==> a[i] == b[i],
    ensures
        with_aliases(state, key, a, count) == with_aliases(state, key, b, count),
    decreases count,
{
    if count > 0 {
        same_aliases(state, key, a, b, count - 1);
    }
}

/// A `@section` is added behind the sections of the topic with its title, its body and
/// its origin. Nothing else changes.
pub proof fn sections_are_added(
    before: TagState,
    key: Seq<char>,
    title: MarkdownText,
    body: MarkdownText,
    origin: TagOrigin,
)
    ensures
        ({
            let after = after_tag(before, key, ParsedTag::Section { title, body, origin });
            let new = after.state.topic.sections;
            &&& new.len() == before.state.topic.sections.len() + 1
            &&& new.drop_last() == before.state.topic.sections
            &&& new.last().title == title
            &&& new.last().body == body
            &&& new.last().origin == origin
            &&& after.state.topic == (TopicView { sections: new, ..before.state.topic })
            &&& after.state.ledger == before.state.ledger
        }),
{
    let after = after_tag(before, key, ParsedTag::Section { title, body, origin });
    assert(after.state.topic.sections.drop_last() =~= before.state.topic.sections);
}

/// The request that an inheritance tag makes.
pub open spec fn inherited_by(tag: ParsedTag) -> Option<InheritanceRequest> {
    match tag {
        ParsedTag::Inherit { target, fields, origin } => Some(
            InheritanceRequest::Inherit { target, fields, origin },
        ),
        ParsedTag::InheritParams { target, selection, origin } => Some(
            InheritanceRequest::InheritParams { target, selection, origin },
        ),
        ParsedTag::InheritSection { target, title, origin } => Some(
            InheritanceRequest::InheritSection { target, title, origin },
        ),
        _ => None,
    }
}

/// Each of the inheritance tags adds one request behind those of the topic, with what
/// the tag says, and no other tag adds one.
pub proof fn inheritance_is_requested(before: TagState, key: Seq<char>, tag: ParsedTag)
    ensures
        inherited_by(tag) matches Some(request) ==> after_tag(before, key, tag).state.topic == (
        TopicView {
            inheritance: before.state.topic.inheritance.push(request),
            ..before.state.topic
        }) && after_tag(before, key, tag).state.ledger == before.state.ledger,
        inherited_by(tag) is None ==> after_tag(before, key, tag).state.topic.inheritance
            == before.state.topic.inheritance,
{
    match tag {
        ParsedTag::Param { names, description, origin } => {
            params_touch_no_more(before, names@, description, origin, names@.len() as int);
        },
        ParsedTag::Aliases(directive) => {
            aliases_touch_no_more(
                before.state,
                key,
                directive.value.explicit@,
                directive.value.explicit@.len() as int,
            );
        },
        _ => {},
    }
}

proof fn params_touch_no_more(
    before: TagState,
    names: Seq<Spanned<ParamName>>,
    description: MarkdownText,
    origin: TagOrigin,
    count: int,
)
    ensures
        ({
            let after = with_params(before, names, description, origin, count);
            &&& after.state.topic == (TopicView {
                params: after.state.topic.params,
                ..before.state.topic
            })
            &&& after.slots == before.slots
            &&& after.usage_origin == before.usage_origin
            &&& after.method == before.method
        }),
    decreases count,
{
    if count > 0 {
        params_touch_no_more(before, names, description, origin, count - 1);
    }
}

proof fn aliases_touch_no_more(
    before: TopicState,
    key: Seq<char>,
    aliases: Seq<Spanned<DocName>>,
    count: int,
)
    ensures
        ({
            let after = with_aliases(before, key, aliases, count);
            &&& after.topic == (TopicView { aliases: after.topic.aliases, ..before.topic })
        }),
    decreases count,
{
    if count > 0 {
        aliases_touch_no_more(before, key, aliases, count - 1);
        reveal(with_alias);
    }
}

/// Whether a block has filled no slot of a name.
pub open spec fn unfilled(slots: Seq<SlotView>, slot: Seq<char>) -> bool {
    forall|i: int| 0 <= i < slots.len() ==> (#[trigger] slots[i]).slot != slot
}

proof fn found_filler(slots: Seq<SlotView>, slot: Seq<char>, i: int)
    requires
        0 <= i <= slots.len(),
    ensures
        filler_from(slots, slot, i) is None <==> forall|k: int|
            i <= k < slots.len() ==> (#[trigger] slots[k]).slot != slot,
    decreases slots.len() - i,
{
    if i < slots.len() {
        found_filler(slots, slot, i + 1);
        if slots[i].slot == slot {
            assert(filler_from(slots, slot, i) is Some);
        }
    }
}

/// A prose tag: the name of its slot, what it says, what the topic holds there, and
/// the topic with another value there.
pub open spec fn prose_tag(tag: ParsedTag, topic: TopicView, value: Option<ProseView>) -> Option<
    (Seq<char>, FieldTag<MarkdownText>, Option<ProseView>, TopicView),
> {
    match tag {
        ParsedTag::Title(said) => Some(
            ("title"@, said, topic.title, TopicView { title: value, ..topic }),
        ),
        ParsedTag::Description(said) => Some(
            ("description"@, said, topic.description, TopicView { description: value, ..topic }),
        ),
        ParsedTag::Details(said) => Some(
            ("details"@, said, topic.details, TopicView { details: value, ..topic }),
        ),
        ParsedTag::Return(said) => Some(
            ("return"@, said, topic.return_value, TopicView { return_value: value, ..topic }),
        ),
        ParsedTag::SeeAlso(said) => Some(
            ("seealso"@, said, topic.see_also, TopicView { see_also: value, ..topic }),
        ),
        ParsedTag::References(said) => Some(
            ("references"@, said, topic.references, TopicView { references: value, ..topic }),
        ),
        ParsedTag::Note(said) => Some(
            ("note"@, said, topic.note, TopicView { note: value, ..topic }),
        ),
        ParsedTag::Format(said) => Some(
            ("format"@, said, topic.format, TopicView { format: value, ..topic }),
        ),
        ParsedTag::Source(said) => Some(
            ("source"@, said, topic.source, TopicView { source: value, ..topic }),
        ),
        ParsedTag::Author(said) => Some(
            ("author"@, said, topic.author, TopicView { author: value, ..topic }),
        ),
        _ => None,
    }
}

/// A prose tag fills its field of the topic, and no other, when the block has not used
/// the field and the topic holds nothing there: the field then holds the text of the
/// tag, with its place and its origin, and nothing is reported.
pub proof fn prose_tags_fill_their_fields(
    before: TagState,
    key: Seq<char>,
    tag: ParsedTag,
    slot: Seq<char>,
    said: FieldTag<MarkdownText>,
    text: MarkdownText,
    filled: TopicView,
)
    requires
        said.value == FieldValue::Emit(text),
        prose_tag(
            tag,
            before.state.topic,
            Some(
                ProseView { text: text@, mapping: text.source.mapping, origin: said.origin },
            ),
        ) == Some((slot, said, None::<ProseView>, filled)),
        unfilled(before.slots, slot),
    ensures
        after_tag(before, key, tag).state.topic == filled,
        after_tag(before, key, tag).state.ledger == before.state.ledger,
        !unfilled(after_tag(before, key, tag).slots, slot),
{
    found_filler(before.slots, slot, 0);
    let after = after_tag(before, key, tag);
    assert(after.slots[before.slots.len() as int].slot == slot);
}

/// A prose tag of a field that the block has used, or whose field another block of the
/// topic has filled, leaves the topic as it is and adds an error.
pub proof fn prose_repeats_are_errors(
    before: TagState,
    key: Seq<char>,
    tag: ParsedTag,
    slot: Seq<char>,
    said: FieldTag<MarkdownText>,
    current: Option<ProseView>,
    same: TopicView,
)
    requires
        prose_tag(tag, before.state.topic, current) == Some((slot, said, current, same)),
        !unfilled(before.slots, slot) || (said.value is Emit && current is Some),
    ensures
        after_tag(before, key, tag).state.topic == before.state.topic,
        one_error_more(before, after_tag(before, key, tag), DiagnosticCode::DuplicateTag),
{
    repeat_adds_an_error(before, slot, current, said);
    let topic = before.state.topic;
    match tag {
        ParsedTag::Title(_) => {},
        ParsedTag::Description(_) => {},
        ParsedTag::Details(_) => {},
        ParsedTag::Return(_) => {},
        ParsedTag::SeeAlso(_) => {},
        ParsedTag::References(_) => {},
        ParsedTag::Note(_) => {},
        ParsedTag::Format(_) => {},
        ParsedTag::Source(_) => {},
        ParsedTag::Author(_) => {},
        _ => {},
    }
}

proof fn repeat_adds_an_error(
    before: TagState,
    slot: Seq<char>,
    current: Option<ProseView>,
    said: FieldTag<MarkdownText>,
)
    requires
        !unfilled(before.slots, slot) || (said.value is Emit && current is Some),
    ensures
        field_value(before, slot, current, said) == current,
        one_error_more(
            before,
            field_state(before, slot, current, said),
            DiagnosticCode::DuplicateTag,
        ),
{
    found_filler(before.slots, slot, 0);
    let after = field_state(before, slot, current, said);
    assert(after.state.ledger.diagnostics.drop_last() =~= before.state.ledger.diagnostics);
}

/// A prose tag that says `NULL` uses its field for the block, reports nothing the first
/// time, and leaves the topic as it is.
pub proof fn suppressed_fields_are_used(
    before: TagState,
    key: Seq<char>,
    tag: ParsedTag,
    slot: Seq<char>,
    said: FieldTag<MarkdownText>,
    current: Option<ProseView>,
    same: TopicView,
)
    requires
        prose_tag(tag, before.state.topic, current) == Some((slot, said, current, same)),
        unfilled(before.slots, slot),
        said.value is Suppress,
    ensures
        after_tag(before, key, tag).state == before.state,
        !unfilled(after_tag(before, key, tag).slots, slot),
{
    found_filler(before.slots, slot, 0);
    let after = after_tag(before, key, tag);
    assert(after.slots[before.slots.len() as int].slot == slot);
}

/// The first `@examples` of a block fills the examples of a topic that has none; a
/// second one of the block, or one for a topic with examples, adds an error.
pub proof fn examples_fill_one_field(before: TagState, key: Seq<char>, tag: TagValue<ExamplesContent>)
    ensures
        ({
            let after = after_tag(before, key, ParsedTag::Examples(tag));
            let topic = before.state.topic;
            if unfilled(before.slots, "examples"@) && topic.examples is None {
                &&& after.state.topic == (TopicView { examples: Some(tag), ..topic })
                &&& after.state.ledger == before.state.ledger
            } else {
                &&& after.state.topic == topic
                &&& one_error_more(before, after, DiagnosticCode::DuplicateTag)
            }
        }),
{
    found_filler(before.slots, "examples"@, 0);
    let after = after_tag(before, key, ParsedTag::Examples(tag));
    if after.state.ledger.diagnostics.len() > before.state.ledger.diagnostics.len() {
        assert(after.state.ledger.diagnostics.drop_last() =~= before.state.ledger.diagnostics);
    }
}

/// The first `@usage` of a block is remembered, and a further one adds an error.
pub proof fn usage_is_stated_once(before: TagState, key: Seq<char>, tag: TagValue<UsageDirective>)
    ensures
        ({
            let after = after_tag(before, key, ParsedTag::Usage(tag));
            &&& after.state.topic == before.state.topic
            &&& before.usage_origin is None ==> after.usage_origin == Some(tag.origin)
                && after.state.ledger == before.state.ledger
            &&& before.usage_origin is Some ==> after.usage_origin == before.usage_origin
                && one_error_more(before, after, DiagnosticCode::DuplicateTag)
        }),
{
    let after = after_tag(before, key, ParsedTag::Usage(tag));
    if before.usage_origin is Some {
        assert(after.state.ledger.diagnostics.drop_last() =~= before.state.ledger.diagnostics);
    }
}

proof fn found_claim(
    claims: Seq<ClaimView>,
    key: Seq<char>,
    generic: Seq<char>,
    class: Seq<char>,
    i: int,
)
    requires
        0 <= i <= claims.len(),
    ensures
        claim_from(claims, key, generic, class, i) is None <==> forall|k: int|
            i <= k < claims.len() ==> !((#[trigger] claims[k]).key == key && claims[k].generic
                == generic && claims[k].class == class),
    decreases claims.len() - i,
{
    if i < claims.len() {
        found_claim(claims, key, generic, class, i + 1);
        if claims[i].key == key && claims[i].generic == generic && claims[i].class == class {
            assert(claim_from(claims, key, generic, class, i) is Some);
        }
    }
}

/// The first `@method` of a block is its method, whatever other blocks declare. It is
/// noted for the topic, or an error is added where a block of the topic declared the
/// same method. A further `@method` of the block only adds an error.
pub proof fn methods_are_declared_once(
    before: TagState,
    key: Seq<char>,
    generic: Spanned<String>,
    class: Spanned<String>,
    origin: TagOrigin,
)
    ensures
        ({
            let after = after_tag(before, key, ParsedTag::Method { generic, class, origin });
            let claims = before.state.ledger.claims;
            let claimed = exists|k: int|
                0 <= k < claims.len() && (#[trigger] claims[k]).key == key && claims[k].generic
                    == generic.value@ && claims[k].class == class.value@;
            &&& after.state.topic == before.state.topic
            &&& !unfilled(before.slots, "method"@) ==> after.method == before.method
                && after.state.ledger.claims == claims && one_error_more(
                before,
                after,
                DiagnosticCode::DuplicateTag,
            )
            &&& unfilled(before.slots, "method"@) ==> {
                &&& after.method matches Some(method)
                &&& method.generic == generic
                &&& method.class == class
                &&& method.origin == origin
                &&& claimed ==> after.state.ledger.claims == claims && one_error_more(
                    before,
                    after,
                    DiagnosticCode::DuplicateMethod,
                )
                &&& !claimed ==> after.state.ledger.diagnostics == before.state.ledger.diagnostics
                    && after.state.ledger.claims.len() == claims.len() + 1
                    && after.state.ledger.claims.drop_last() == claims
                    && after.state.ledger.claims.last().key == key
                    && after.state.ledger.claims.last().generic == generic.value@
                    && after.state.ledger.claims.last().class == class.value@
            }
        }),
{
    found_filler(before.slots, "method"@, 0);
    found_claim(before.state.ledger.claims, key, generic.value@, class.value@, 0);
    let after = after_tag(before, key, ParsedTag::Method { generic, class, origin });
    if after.state.ledger.diagnostics.len() > before.state.ledger.diagnostics.len() {
        assert(after.state.ledger.diagnostics.drop_last() =~= before.state.ledger.diagnostics);
    }
    if after.state.ledger.claims.len() > before.state.ledger.claims.len() {
        assert(after.state.ledger.claims.drop_last() =~= before.state.ledger.claims);
    }
}

/// Tags that say nothing about the contents of a topic leave it as it is. A repeated
/// `@name`, `@rdname` or `@order` of a block adds an error; namespace tags, `@noRd`
/// and tags that are not supported add none.
pub proof fn other_tags_change_no_topic(before: TagState, key: Seq<char>, tag: ParsedTag)
    ensures
        tag is Name || tag is RdName || tag is Order ==> after_tag(before, key, tag).state.topic
            == before.state.topic,
        tag is Name ==> if unfilled(before.slots, "name"@) {
            after_tag(before, key, tag).state.ledger == before.state.ledger
        } else {
            one_error_more(before, after_tag(before, key, tag), DiagnosticCode::DuplicateTag)
        },
        tag is RdName ==> if unfilled(before.slots, "rdname"@) {
            after_tag(before, key, tag).state.ledger == before.state.ledger
        } else {
            one_error_more(before, after_tag(before, key, tag), DiagnosticCode::DuplicateTag)
        },
        tag is Order ==> if unfilled(before.slots, "order"@) {
            after_tag(before, key, tag).state.ledger == before.state.ledger
        } else {
            one_error_more(before, after_tag(before, key, tag), DiagnosticCode::DuplicateTag)
        },
        tag is Namespace || tag is NoRd || tag is Unsupported || tag is Unknown ==> after_tag(
            before,
            key,
            tag,
        ) == before,
{
    found_filler(before.slots, "name"@, 0);
    found_filler(before.slots, "rdname"@, 0);
    found_filler(before.slots, "order"@, 0);
    let after = after_tag(before, key, tag);
    if (tag is Name || tag is RdName || tag is Order) && after.state.ledger.diagnostics.len()
        == before.state.ledger.diagnostics.len() + 1 {
        assert(after.state.ledger.diagnostics.drop_last() =~= before.state.ledger.diagnostics);
    }
}

/// The tags of a block are applied in their order, one after the other, and none is
/// skipped.
pub proof fn tags_apply_in_order(before: TagState, key: Seq<char>, tags: Seq<ParsedTag>, count: int)
    requires
        0 <= count,
    ensures
        after_tags(before, key, tags, 0) == before,
        after_tags(before, key, tags, count + 1) == after_tag(
            after_tags(before, key, tags, count),
            key,
            tags[count],
        ),
{
}

/// A block makes a topic exactly when it does not ask for none and has one of the tags
/// that document: a title, description, details, return value, parameter, examples,
/// name, topic name or `@inherit`.
pub proof fn documenting_tags_make_topics(tags: Seq<ParsedTag>, i: int)
    ensures
        0 <= i < tags.len() && tags[i] is NoRd ==> !wants_topic(tags),
        0 <= i < tags.len() && (tags[i] is Title || tags[i] is Description || tags[i] is Details
            || tags[i] is Return || tags[i] is Param || tags[i] is Examples || tags[i] is Name
            || tags[i] is RdName || tags[i] is Inherit) && (forall|k: int|
            0 <= k < tags.len() ==> !(#[trigger] tags[k] is NoRd)) ==> wants_topic(tags),
        (forall|k: int|
            0 <= k < tags.len() ==> (#[trigger] tags[k] is Usage || tags[k] is Order || tags[k]
                is Method || tags[k] is Section || tags[k] is Aliases || tags[k] is Keywords
                || tags[k] is InheritParams || tags[k] is InheritSection || tags[k] is Namespace
                || tags[k] is NoRd || tags[k] is SeeAlso || tags[k] is References || tags[k] is Note
                || tags[k] is Format || tags[k] is Source || tags[k] is Author || tags[k]
                is Unsupported || tags[k] is Unknown)) ==> !wants_topic(tags),
{
}

} // verus!
