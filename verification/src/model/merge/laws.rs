//! What holds of every package model.
use crate::diagnostic::DiagnosticView;
use crate::model::identity::object_name;
use crate::model::ir::{DocumentedBlock, ModelOutput, NamespaceRequest, ParamDescription, RdTopicKind};
use crate::model::lookup::silences_rd;
use crate::model::view::{topic_views, AliasView, TopicView, UsageView};
use crate::package::PackageMetadata;
use crate::r_parse::BlockTarget;
use crate::source::{Span, Spanned};
use crate::tags::{DocName, FieldTag, FieldValue, Keyword, MarkdownText, ParamName, ParsedTag, TagOrigin};
use vstd::prelude::*;

use super::assembly::{
    after_block, after_blocks, after_object_block, after_package_aliases, after_package_block,
    anchored, block_requests, initial_state, is_model, merged_package, ordered_keys,
    package_topic_name, primary_identity, registration_checks, topic_key, with_default_aliases,
    with_first_name, with_package_alias, MergeView,
};
use super::block::{
    after_tag, after_tags, block_le, field_state, field_value, has_alias, in_merge_order,
    param_from, wants_topic, with_alias, with_aliases, with_block, with_examples, with_keywords,
    with_kind, with_method, with_params, with_usage_tag, TagState, TopicState,
};
use super::contribution::{
    block_formals, block_usage, completed, joined, merged, usage_reports, ContextView,
};
use super::package::{entry, suppression_state, suppressions_accumulate, PackageFallbackState};

verus! {

/// Blocks in merge order, pair by pair.
pub open spec fn blocks_ordered(blocks: Seq<DocumentedBlock>) -> bool {
    forall|i: int, j: int| 0 <= i <= j < blocks.len() ==> block_le(#[trigger] blocks[i], #[trigger] blocks[j])
}

/// The merge order is transitive.
proof fn block_le_transitive(a: DocumentedBlock, b: DocumentedBlock, c: DocumentedBlock)
    requires
        block_le(a, b),
        block_le(b, c),
    ensures
        block_le(a, c),
{
}

/// Putting a block in its place keeps the order and adds that block alone.
proof fn with_block_keeps_order(ordered: Seq<DocumentedBlock>, block: DocumentedBlock)
    requires
        blocks_ordered(ordered),
    ensures
        blocks_ordered(with_block(ordered, block)),
        with_block(ordered, block).to_multiset() == ordered.to_multiset().insert(block),
        forall|i: int|
            0 <= i < with_block(ordered, block).len() ==> (#[trigger] with_block(ordered, block)[i])
                == block || ordered.contains(with_block(ordered, block)[i]),
    decreases ordered.len(),
{
    let after = with_block(ordered, block);
    if ordered.len() == 0 || block_le(ordered.last(), block) {
        vstd::seq_lib::to_multiset_build(ordered, block);
        assert forall|i: int, j: int| 0 <= i <= j < after.len() implies block_le(
            #[trigger] after[i],
            #[trigger] after[j],
        ) by {
            if j == ordered.len() && i < j {
                assert(block_le(ordered[i], ordered[ordered.len() - 1]));
                block_le_transitive(ordered[i], ordered.last(), block);
            }
        }
        assert forall|i: int| 0 <= i < after.len() implies (#[trigger] after[i]) == block
            || ordered.contains(after[i]) by {
            if i < ordered.len() {
                assert(ordered[i] == after[i]);
            }
        }
    } else {
        let front = ordered.drop_last();
        let last = ordered.last();
        assert forall|i: int, j: int| 0 <= i <= j < front.len() implies block_le(
            #[trigger] front[i],
            #[trigger] front[j],
        ) by {
            assert(block_le(ordered[i], ordered[j]));
        }
        with_block_keeps_order(front, block);
        let inner = with_block(front, block);
        assert forall|i: int, j: int| 0 <= i <= j < after.len() implies block_le(
            #[trigger] after[i],
            #[trigger] after[j],
        ) by {
            if j < inner.len() {
                assert(block_le(inner[i], inner[j]));
            } else if i < inner.len() {
                assert(inner[i] == block || front.contains(inner[i]));
                if inner[i] != block {
                    let k = choose|k: int| 0 <= k < front.len() && front[k] == inner[i];
                    assert(block_le(ordered[k], ordered[ordered.len() - 1]));
                }
            }
        }
        assert(front.push(last) =~= ordered);
        vstd::seq_lib::to_multiset_build(front, last);
        vstd::seq_lib::to_multiset_build(inner, last);
        assert(after.to_multiset() =~= ordered.to_multiset().insert(block));
        assert forall|i: int| 0 <= i < after.len() implies (#[trigger] after[i]) == block
            || ordered.contains(after[i]) by {
            if i < inner.len() {
                assert(inner[i] == after[i]);
                if inner[i] != block {
                    let k = choose|k: int| 0 <= k < front.len() && front[k] == inner[i];
                    assert(ordered[k] == after[i]);
                }
            } else {
                assert(ordered[ordered.len() - 1] == after[i]);
            }
        }
    }
}

/// Merging takes every block once, those with `@order` first and by its value,
/// the rest in source order.
pub proof fn merge_order_sorts_all_blocks(blocks: Seq<DocumentedBlock>)
    ensures
        blocks_ordered(in_merge_order(blocks)),
        in_merge_order(blocks).to_multiset() == blocks.to_multiset(),
    decreases blocks.len(),
{
    if blocks.len() > 0 {
        let front = blocks.drop_last();
        merge_order_sorts_all_blocks(front);
        with_block_keeps_order(in_merge_order(front), blocks.last());
        assert(front.push(blocks.last()) =~= blocks);
        vstd::seq_lib::to_multiset_build(front, blocks.last());
    } else {
        assert(in_merge_order(blocks) =~= blocks);
    }
}

/// Blocks that are in merge order already stay where they are, so blocks that
/// the order does not tell apart keep their places.
pub proof fn merge_order_is_stable(blocks: Seq<DocumentedBlock>)
    requires
        blocks_ordered(blocks),
    ensures
        in_merge_order(blocks) == blocks,
    decreases blocks.len(),
{
    if blocks.len() > 0 {
        let front = blocks.drop_last();
        assert forall|i: int, j: int| 0 <= i <= j < front.len() implies block_le(
            #[trigger] front[i],
            #[trigger] front[j],
        ) by {
            assert(block_le(blocks[i], blocks[j]));
        }
        merge_order_is_stable(front);
        if front.len() > 0 {
            assert(block_le(blocks[front.len() - 1], blocks[blocks.len() - 1]));
        }
        assert(front.push(blocks.last()) =~= blocks);
    } else {
        assert(in_merge_order(blocks) =~= blocks);
    }
}

/// Whether no two blocks of a list have the same identity.
pub open spec fn identities_differ(blocks: Seq<DocumentedBlock>) -> bool {
    forall|i: int, j: int|
        0 <= i < j < blocks.len() ==> (#[trigger] blocks[i]).block != (#[trigger] blocks[j]).block
}

/// A list with the same blocks has blocks with different identities too.
proof fn identities_stay_different(a: Seq<DocumentedBlock>, b: Seq<DocumentedBlock>)
    requires
        identities_differ(a),
        a.to_multiset() == b.to_multiset(),
    ensures
        identities_differ(b),
        forall|block: DocumentedBlock| a.contains(block) <==> #[trigger] b.contains(block),
        a.len() == b.len(),
{
    a.to_multiset_ensures();
    b.to_multiset_ensures();
    assert forall|block: DocumentedBlock| a.contains(block) <==> #[trigger] b.contains(block) by {
        vstd::seq_lib::to_multiset_contains(a, block);
        vstd::seq_lib::to_multiset_contains(b, block);
    }
    assert forall|i: int, j: int| 0 <= i < j < a.len() implies a[i] != a[j] by {
        assert(a[i].block != a[j].block);
    }
    a.lemma_multiset_has_no_duplicates();
    b.lemma_multiset_has_no_duplicates_conv();
    assert forall|i: int, j: int| 0 <= i < j < b.len() implies (#[trigger] b[i]).block != (
    #[trigger] b[j]).block by {
        assert(b.contains(b[i]) && b.contains(b[j]));
        assert(a.contains(b[i]) && a.contains(b[j]));
        let x = choose|x: int| 0 <= x < a.len() && a[x] == b[i];
        let y = choose|y: int| 0 <= y < a.len() && a[y] == b[j];
        assert(b[i] != b[j]);
        if x < y {
            assert(a[x].block != a[y].block);
        } else if y < x {
            assert(a[y].block != a[x].block);
        }
    }
}

/// Two ordered lists of the same blocks with different identities are equal.
proof fn ordered_blocks_are_unique(a: Seq<DocumentedBlock>, b: Seq<DocumentedBlock>)
    requires
        blocks_ordered(a),
        blocks_ordered(b),
        identities_differ(a),
        a.to_multiset() == b.to_multiset(),
    ensures
        a == b,
    decreases a.len(),
{
    identities_stay_different(a, b);
    if a.len() > 0 {
        let x = a.last();
        let y = b.last();
        assert(a.contains(a[a.len() - 1]) && b.contains(b[b.len() - 1]));
        assert(b.contains(x) && a.contains(y));
        let i = choose|i: int| 0 <= i < b.len() && b[i] == x;
        let j = choose|j: int| 0 <= j < a.len() && a[j] == y;
        assert(block_le(b[i], b[b.len() - 1]));
        assert(block_le(a[j], a[a.len() - 1]));
        if j < a.len() - 1 {
            assert(a[j].block != a[a.len() - 1].block);
        }
        assert(x == y);
        let front = a.drop_last();
        let rest = b.drop_last();
        assert(front.push(x) =~= a);
        assert(rest.push(x) =~= b);
        vstd::seq_lib::to_multiset_build(front, x);
        vstd::seq_lib::to_multiset_build(rest, x);
        assert(front.to_multiset() =~= a.to_multiset().remove(x));
        assert(rest.to_multiset() =~= b.to_multiset().remove(x));
        assert forall|p: int, q: int| 0 <= p <= q < front.len() implies block_le(
            #[trigger] front[p],
            #[trigger] front[q],
        ) by {
            assert(block_le(a[p], a[q]));
        }
        assert forall|p: int, q: int| 0 <= p <= q < rest.len() implies block_le(
            #[trigger] rest[p],
            #[trigger] rest[q],
        ) by {
            assert(block_le(b[p], b[q]));
        }
        assert forall|p: int, q: int| 0 <= p < q < front.len() implies (#[trigger] front[p]).block
            != (#[trigger] front[q]).block by {
            assert(a[p].block != a[q].block);
        }
        ordered_blocks_are_unique(front, rest);
    } else {
        assert(a =~= b);
    }
}

/// The order in which blocks are given does not matter: lists of the same blocks,
/// no two with one identity, give the same topics, requests and reports.
pub proof fn block_order_does_not_matter(
    a: Seq<DocumentedBlock>,
    b: Seq<DocumentedBlock>,
    metadata: Option<PackageMetadata>,
    context: ContextView,
)
    requires
        identities_differ(a),
        a.to_multiset() == b.to_multiset(),
    ensures
        in_merge_order(a) == in_merge_order(b),
        merged_package(a, metadata, context) == merged_package(b, metadata, context),
        forall|output: ModelOutput| #[trigger]
            is_model(output, a, metadata, context) == is_model(output, b, metadata, context),
{
    merge_order_sorts_all_blocks(a);
    merge_order_sorts_all_blocks(b);
    identities_stay_different(a, in_merge_order(a));
    ordered_blocks_are_unique(in_merge_order(a), in_merge_order(b));
}

/// Whether a list of reports begins with another.
pub open spec fn extends(before: Seq<DiagnosticView>, after: Seq<DiagnosticView>) -> bool {
    before.len() <= after.len() && after.take(before.len() as int) == before
}

/// A list begins with what its beginning begins with.
proof fn extends_transitive(
    a: Seq<DiagnosticView>,
    b: Seq<DiagnosticView>,
    c: Seq<DiagnosticView>,
)
    requires
        extends(a, b),
        extends(b, c),
    ensures
        extends(a, c),
{
    assert(c.take(a.len() as int) =~= c.take(b.len() as int).take(a.len() as int));
}

/// More reports extend a list.
proof fn more_extends(before: Seq<DiagnosticView>, more: Seq<DiagnosticView>)
    ensures
        extends(before, before + more),
        more.len() == 1 ==> before + more == before.push(more[0]),
{
    assert((before + more).take(before.len() as int) =~= before);
    if more.len() == 1 {
        assert(before + more =~= before.push(more[0]));
    }
}

/// One more report extends a list.
proof fn push_extends(before: Seq<DiagnosticView>, report: DiagnosticView)
    ensures
        extends(before, before.push(report)),
{
    assert(before.push(report).take(before.len() as int) =~= before);
}

/// No alias, keyword or parameter is listed twice.
pub open spec fn tidy(topic: TopicView) -> bool {
    &&& forall|i: int, j: int|
        0 <= i < j < topic.aliases.len() ==> (#[trigger] topic.aliases[i]).name != (
        #[trigger] topic.aliases[j]).name
    &&& topic.keywords.no_duplicates()
    &&& forall|i: int, j: int|
        0 <= i < j < topic.params.len() ==> (#[trigger] topic.params[i]).name.0@ != (
        #[trigger] topic.params[j]).name.0@
}

/// The single-value slots of a topic keep what they hold.
pub open spec fn keeps_slots(before: TopicView, after: TopicView) -> bool {
    &&& before.title is Some ==> after.title == before.title
    &&& before.description is Some ==> after.description == before.description
    &&& before.details is Some ==> after.details == before.details
    &&& before.return_value is Some ==> after.return_value == before.return_value
    &&& before.examples is Some ==> after.examples == before.examples
    &&& before.see_also is Some ==> after.see_also == before.see_also
    &&& before.references is Some ==> after.references == before.references
    &&& before.note is Some ==> after.note == before.note
    &&& before.format is Some ==> after.format == before.format
    &&& before.source is Some ==> after.source == before.source
    &&& before.author is Some ==> after.author == before.author
}

/// Whether a list begins with another.
pub open spec fn begins_with<A>(list: Seq<A>, start: Seq<A>) -> bool {
    start.len() <= list.len() && forall|i: int|
        0 <= i < start.len() ==> #[trigger] list[i] == start[i]
}

/// The lists of a topic keep what they hold, in its order, and grow at the end.
pub open spec fn keeps_lists(before: TopicView, after: TopicView) -> bool {
    &&& begins_with(after.aliases, before.aliases)
    &&& begins_with(after.keywords, before.keywords)
    &&& begins_with(after.params, before.params)
    &&& begins_with(after.sections, before.sections)
    &&& begins_with(after.inheritance, before.inheritance)
}

/// What no tag changes: the blocks of a topic, their usage and formals, and
/// its kind.
pub open spec fn same_blocks(before: TopicView, after: TopicView) -> bool {
    &&& after.name == before.name
    &&& after.blocks == before.blocks
    &&& after.usages == before.usages
    &&& after.formals == before.formals
    &&& after.kind == before.kind
    &&& after.kind_origin == before.kind_origin
    &&& after.kind_conflict_reported == before.kind_conflict_reported
}

/// What one step may do to a topic and the reports.
pub open spec fn careful_step(before: TopicState, after: TopicState) -> bool {
    &&& tidy(before.topic) ==> tidy(after.topic)
    &&& keeps_slots(before.topic, after.topic)
    &&& keeps_lists(before.topic, after.topic)
    &&& extends(before.ledger.diagnostics, after.ledger.diagnostics)
}

/// Careful steps compose.
pub proof fn careful_transitive(a: TopicState, b: TopicState, c: TopicState)
    requires
        careful_step(a, b),
        careful_step(b, c),
    ensures
        careful_step(a, c),
{
    extends_transitive(a.ledger.diagnostics, b.ledger.diagnostics, c.ledger.diagnostics);
}

/// Doing nothing is careful.
pub proof fn careful_reflexive(a: TopicState)
    ensures
        careful_step(a, a),
{
    assert(a.ledger.diagnostics.take(a.ledger.diagnostics.len() as int)
        =~= a.ledger.diagnostics);
}

/// Claiming an alias is careful and changes nothing but aliases.
pub proof fn alias_is_careful(state: TopicState, key: Seq<char>, alias: AliasView)
    ensures
        careful_step(state, with_alias(state, key, alias)),
        same_blocks(state.topic, with_alias(state, key, alias).topic),
        with_alias(state, key, alias).topic == (TopicView {
            aliases: with_alias(state, key, alias).topic.aliases,
            ..state.topic
        }),
{
    reveal(with_alias);
    careful_reflexive(state);
    let after = with_alias(state, key, alias);
    if !has_alias(state.topic.aliases, alias.name) {
        assert forall|i: int, j: int|
            tidy(state.topic) && 0 <= i < j < after.topic.aliases.len() implies (
        #[trigger] after.topic.aliases[i]).name != (#[trigger] after.topic.aliases[j]).name by {
            if j == state.topic.aliases.len() {
                assert(state.topic.aliases[i].name != alias.name);
            }
        }
        if after.ledger.diagnostics.len() > state.ledger.diagnostics.len() {
            push_extends(state.ledger.diagnostics, after.ledger.diagnostics.last());
        }
    }
}

/// Claiming aliases is careful.
proof fn aliases_are_careful(
    state: TopicState,
    key: Seq<char>,
    aliases: Seq<Spanned<DocName>>,
    count: int,
)
    ensures
        careful_step(state, with_aliases(state, key, aliases, count)),
        same_blocks(state.topic, with_aliases(state, key, aliases, count).topic),
    decreases count,
{
    if count > 0 {
        aliases_are_careful(state, key, aliases, count - 1);
        let before = with_aliases(state, key, aliases, count - 1);
        let alias = AliasView { name: aliases[count - 1].value.0@, span: aliases[count - 1].span };
        alias_is_careful(before, key, alias);
        careful_transitive(state, before, with_alias(before, key, alias));
    } else {
        careful_reflexive(state);
    }
}

/// A parameter that is not found is not listed.
proof fn unlisted_param(params: Seq<ParamDescription>, name: Seq<char>, i: int)
    requires
        0 <= i <= params.len(),
        param_from(params, name, i) is None,
    ensures
        forall|k: int| i <= k < params.len() ==> (#[trigger] params[k]).name.0@ != name,
    decreases params.len() - i,
{
    if i < params.len() {
        unlisted_param(params, name, i + 1);
    }
}

/// Describing parameters is careful.
proof fn params_are_careful(
    before: TagState,
    names: Seq<Spanned<ParamName>>,
    description: MarkdownText,
    origin: TagOrigin,
    count: int,
)
    ensures
        careful_step(
            before.state,
            with_params(before, names, description, origin, count).state,
        ),
        same_blocks(
            before.state.topic,
            with_params(before, names, description, origin, count).state.topic,
        ),
    decreases count,
{
    if count > 0 {
        params_are_careful(before, names, description, origin, count - 1);
        let so_far = with_params(before, names, description, origin, count - 1);
        let after = with_params(before, names, description, origin, count);
        let name = names[count - 1].value.0@;
        let params = so_far.state.topic.params;
        careful_reflexive(so_far.state);
        match param_from(params, name, 0) {
            Some(_) => {
                push_extends(so_far.reports(), after.reports().last());
            },
            None => {
                unlisted_param(params, name, 0);
                assert forall|i: int, j: int|
                    tidy(so_far.state.topic) && 0 <= i < j
                        < after.state.topic.params.len() implies (
                #[trigger] after.state.topic.params[i]).name.0@ != (
                #[trigger] after.state.topic.params[j]).name.0@ by {
                    if j == params.len() {
                        assert(params[i].name.0@ != name);
                    }
                }
            },
        }
        careful_transitive(before.state, so_far.state, after.state);
    } else {
        careful_reflexive(before.state);
    }
}

/// Keywords that are kept once stay free of repeats.
proof fn keywords_stay_distinct(
    before: Seq<Seq<char>>,
    keywords: Seq<Spanned<Keyword>>,
    count: int,
)
    requires
        before.no_duplicates(),
    ensures
        with_keywords(before, keywords, count).no_duplicates(),
    decreases count,
{
    if count > 0 {
        keywords_stay_distinct(before, keywords, count - 1);
    }
}

/// Keywords that a topic has stay where they are.
proof fn keywords_are_kept(before: Seq<Seq<char>>, keywords: Seq<Spanned<Keyword>>, count: int)
    ensures
        begins_with(with_keywords(before, keywords, count), before),
    decreases count,
{
    if count > 0 {
        keywords_are_kept(before, keywords, count - 1);
    }
}

/// Filling a prose slot leaves a full one alone and only adds reports.
proof fn field_is_careful(
    before: TagState,
    slot: Seq<char>,
    current: Option<crate::model::view::ProseView>,
    tag: FieldTag<MarkdownText>,
)
    ensures
        current is Some ==> field_value(before, slot, current, tag) == current,
        extends(before.reports(), field_state(before, slot, current, tag).reports()),
        field_state(before, slot, current, tag).state.topic == before.state.topic,
        tag.value is Suppress ==> field_value(before, slot, current, tag) == current,
{
    let after = before.and_slot(slot, tag.origin);
    slot_is_careful(before, slot, tag.origin);
    let last = field_state(before, slot, current, tag);
    if last.reports().len() > after.reports().len() {
        push_extends(after.reports(), last.reports().last());
        extends_transitive(before.reports(), after.reports(), last.reports());
    }
}

/// Filling a slot of a block only adds reports.
proof fn slot_is_careful(before: TagState, slot: Seq<char>, origin: TagOrigin)
    ensures
        extends(before.reports(), before.and_slot(slot, origin).reports()),
        before.and_slot(slot, origin).state.topic == before.state.topic,
{
    careful_reflexive(before.state);
    let after = before.and_slot(slot, origin);
    if after.reports().len() > before.reports().len() {
        push_extends(before.reports(), after.reports().last());
    }
}

/// Applying a tag is careful, and changes neither the blocks of the topic, nor
/// their usage and formals, nor its kind.
pub proof fn tags_are_careful(before: TagState, key: Seq<char>, tag: ParsedTag)
    ensures
        careful_step(before.state, after_tag(before, key, tag).state),
        same_blocks(before.state.topic, after_tag(before, key, tag).state.topic),
{
    careful_reflexive(before.state);
    let topic = before.state.topic;
    match tag {
        ParsedTag::Name(value) => {
            slot_is_careful(before, "name"@, value.origin);
        },
        ParsedTag::RdName(value) => {
            slot_is_careful(before, "rdname"@, value.origin);
        },
        ParsedTag::Order { origin, .. } => {
            slot_is_careful(before, "order"@, origin);
        },
        ParsedTag::Title(value) => {
            field_is_careful(before, "title"@, topic.title, value);
        },
        ParsedTag::Description(value) => {
            field_is_careful(before, "description"@, topic.description, value);
        },
        ParsedTag::Details(value) => {
            field_is_careful(before, "details"@, topic.details, value);
        },
        ParsedTag::Return(value) => {
            field_is_careful(before, "return"@, topic.return_value, value);
        },
        ParsedTag::SeeAlso(value) => {
            field_is_careful(before, "seealso"@, topic.see_also, value);
        },
        ParsedTag::References(value) => {
            field_is_careful(before, "references"@, topic.references, value);
        },
        ParsedTag::Note(value) => {
            field_is_careful(before, "note"@, topic.note, value);
        },
        ParsedTag::Format(value) => {
            field_is_careful(before, "format"@, topic.format, value);
        },
        ParsedTag::Source(value) => {
            field_is_careful(before, "source"@, topic.source, value);
        },
        ParsedTag::Author(value) => {
            field_is_careful(before, "author"@, topic.author, value);
        },
        ParsedTag::Examples(value) => {
            slot_is_careful(before, "examples"@, value.origin);
            let middle = before.and_slot("examples"@, value.origin);
            let after = with_examples(before, value);
            if after.reports().len() > middle.reports().len() {
                push_extends(middle.reports(), after.reports().last());
                extends_transitive(before.reports(), middle.reports(), after.reports());
            }
        },
        ParsedTag::Usage(value) => {
            let after = with_usage_tag(before, value);
            if after.reports().len() > before.reports().len() {
                push_extends(before.reports(), after.reports().last());
            }
        },
        ParsedTag::Method { generic, class, origin } => {
            slot_is_careful(before, "method"@, origin);
            let middle = before.and_slot("method"@, origin);
            let after = with_method(before, key, generic, class, origin);
            if after.reports().len() > middle.reports().len() {
                push_extends(middle.reports(), after.reports().last());
                extends_transitive(before.reports(), middle.reports(), after.reports());
            }
        },
        ParsedTag::Param { names, description, origin } => {
            params_are_careful(before, names@, description, origin, names@.len() as int);
        },
        ParsedTag::Aliases(directive) => {
            aliases_are_careful(
                before.state,
                key,
                directive.value.explicit@,
                directive.value.explicit@.len() as int,
            );
        },
        ParsedTag::Keywords(directive) => {
            match directive.value {
                FieldValue::Emit(keywords) => {
                    keywords_are_kept(topic.keywords, keywords@, keywords@.len() as int);
                    if topic.keywords.no_duplicates() {
                        keywords_stay_distinct(
                            topic.keywords,
                            keywords@,
                            keywords@.len() as int,
                        );
                    }
                },
                FieldValue::Suppress => {},
            }
        },
        _ => {},
    }
}

/// A suppressed field leaves the topic as it is: `NULL` never takes away what
/// another block supplied.
pub proof fn suppressed_fields_change_no_topic(before: TagState, key: Seq<char>, tag: ParsedTag)
    requires
        match tag {
            ParsedTag::Title(value) => value.value is Suppress,
            ParsedTag::Description(value) => value.value is Suppress,
            ParsedTag::Details(value) => value.value is Suppress,
            ParsedTag::Return(value) => value.value is Suppress,
            ParsedTag::SeeAlso(value) => value.value is Suppress,
            ParsedTag::References(value) => value.value is Suppress,
            ParsedTag::Note(value) => value.value is Suppress,
            ParsedTag::Format(value) => value.value is Suppress,
            ParsedTag::Source(value) => value.value is Suppress,
            ParsedTag::Author(value) => value.value is Suppress,
            ParsedTag::Keywords(value) => value.value is Suppress,
            _ => false,
        },
    ensures
        after_tag(before, key, tag).state.topic == before.state.topic,
{
}

/// A tag that fills a prose slot twice, within its block or across blocks, is
/// reported once; any other is not reported.
pub proof fn prose_repeats_are_reported_once(
    before: TagState,
    slot: Seq<char>,
    current: Option<crate::model::view::ProseView>,
    tag: FieldTag<MarkdownText>,
)
    ensures
        field_state(before, slot, current, tag).reports().len() == before.reports().len() + (if
        super::super::slots::filler(before.slots, slot) is Some || (tag.value is Emit && current
            is Some) {
            1int
        } else {
            0int
        }),
{
}

/// Applying all tags of a block is careful.
proof fn all_tags_are_careful(before: TagState, key: Seq<char>, tags: Seq<ParsedTag>, count: int)
    ensures
        careful_step(before.state, after_tags(before, key, tags, count).state),
        same_blocks(before.state.topic, after_tags(before, key, tags, count).state.topic),
    decreases count,
{
    if count > 0 {
        all_tags_are_careful(before, key, tags, count - 1);
        let middle = after_tags(before, key, tags, count - 1);
        tags_are_careful(middle, key, tags[count - 1]);
        careful_transitive(
            before.state,
            middle.state,
            after_tag(middle, key, tags[count - 1]).state,
        );
    } else {
        careful_reflexive(before.state);
    }
}

/// Giving a topic a kind is careful.
pub proof fn kind_is_careful(state: TopicState, key: Seq<char>, kind: RdTopicKind, span: Span)
    ensures
        careful_step(state, with_kind(state, key, kind, span)),
        with_kind(state, key, kind, span).topic.name == state.topic.name,
        with_kind(state, key, kind, span).topic.blocks == state.topic.blocks,
        with_kind(state, key, kind, span).topic.usages == state.topic.usages,
        with_kind(state, key, kind, span).topic.formals == state.topic.formals,
        with_kind(state, key, kind, span).topic.aliases == state.topic.aliases,
        with_kind(state, key, kind, span).ledger == (super::block::LedgerView {
            diagnostics: with_kind(state, key, kind, span).ledger.diagnostics,
            ..state.ledger
        }),
{
    reveal(with_kind);
    careful_reflexive(state);
    let after = with_kind(state, key, kind, span);
    if after.ledger.diagnostics.len() > state.ledger.diagnostics.len() {
        push_extends(state.ledger.diagnostics, after.ledger.diagnostics.last());
    }
}

/// Every block of a topic contributes one usage and one formal list.
pub open spec fn one_usage_per_block(topic: TopicView) -> bool {
    topic.usages.len() == topic.blocks.len() && topic.formals.len() == topic.blocks.len()
}

/// Joining a topic is careful, and adds one block and one formal list.
proof fn joining_is_careful(
    state: TopicState,
    key: Seq<char>,
    block: DocumentedBlock,
    context: ContextView,
)
    ensures
        careful_step(state, joined(state, key, block, context)),
        joined(state, key, block, context).topic.name == state.topic.name,
        joined(state, key, block, context).topic.blocks == state.topic.blocks.push(block.block),
        joined(state, key, block, context).topic.usages == state.topic.usages,
        joined(state, key, block, context).topic.formals == state.topic.formals.push(
            block_formals(context, block),
        ),
{
    reveal(joined);
    let listed = TopicState {
        topic: TopicView { blocks: state.topic.blocks.push(block.block), ..state.topic },
        ..state
    };
    careful_reflexive(state);
    assert(careful_step(state, listed));
    match crate::model::identity::data_span(block.target) {
        Some(span) => {
            let kinded = with_kind(listed, key, RdTopicKind::Data, span);
            kind_is_careful(listed, key, RdTopicKind::Data, span);
            careful_transitive(state, listed, kinded);
        },
        None => {},
    }
}

/// Whether a usage is the one that a block contributes.
pub open spec fn is_usage_of(
    usage: UsageView,
    block: DocumentedBlock,
    context: ContextView,
) -> bool {
    &&& usage.block == block.block
    &&& usage.block_span == block.block_span
    &&& usage.object == object_name(block.target)
    &&& usage.usage == block_usage(context, block)
}

/// Completing a topic is careful, and adds one usage.
proof fn completing_is_careful(after: TagState, block: DocumentedBlock, context: ContextView)
    ensures
        careful_step(after.state, completed(after, block, context)),
        completed(after, block, context).topic.name == after.state.topic.name,
        completed(after, block, context).topic.blocks == after.state.topic.blocks,
        completed(after, block, context).topic.usages.drop_last() == after.state.topic.usages,
        completed(after, block, context).topic.usages.len() == after.state.topic.usages.len() + 1,
        is_usage_of(completed(after, block, context).topic.usages.last(), block, context),
        completed(after, block, context).topic.formals == after.state.topic.formals,
        completed(after, block, context).topic.kind == after.state.topic.kind,
        completed(after, block, context).topic.kind_origin == after.state.topic.kind_origin,
        completed(after, block, context).topic.kind_conflict_reported
            == after.state.topic.kind_conflict_reported,
{
    reveal(completed);
    let usages = completed(after, block, context).topic.usages;
    assert(usages.drop_last() =~= after.state.topic.usages);
    more_extends(after.state.ledger.diagnostics, usage_reports(context, block));
}

/// Merging a block keeps filled slots, repeats nothing and only adds reports.
/// Earlier aliases, keywords, parameters, sections and inheritance requests stay
/// where they are. The topic gains exactly one block, and one usage and one
/// formal list that belong to it. It keeps its display name.
pub proof fn merging_is_careful(
    state: TopicState,
    key: Seq<char>,
    block: DocumentedBlock,
    context: ContextView,
)
    ensures
        careful_step(state, merged(state, key, block, context)),
        merged(state, key, block, context).topic.name == state.topic.name,
        merged(state, key, block, context).topic.blocks == state.topic.blocks.push(block.block),
        keeps_lists(state.topic, merged(state, key, block, context).topic),
        merged(state, key, block, context).topic.usages.len() == state.topic.usages.len() + 1,
        merged(state, key, block, context).topic.usages.drop_last() == state.topic.usages,
        is_usage_of(merged(state, key, block, context).topic.usages.last(), block, context),
        merged(state, key, block, context).topic.formals == state.topic.formals.push(
            block_formals(context, block),
        ),
        merged(state, key, block, context).topic.kind == joined(
            state,
            key,
            block,
            context,
        ).topic.kind,
        merged(state, key, block, context).topic.kind_origin == joined(
            state,
            key,
            block,
            context,
        ).topic.kind_origin,
        merged(state, key, block, context).topic.kind_conflict_reported == joined(
            state,
            key,
            block,
            context,
        ).topic.kind_conflict_reported,
{
    reveal(merged);
    let join = joined(state, key, block, context);
    joining_is_careful(state, key, block, context);
    let start = TagState {
        state: join,
        slots: Seq::empty(),
        usage_origin: None,
        method: None,
    };
    let count = block.tags@.len() as int;
    all_tags_are_careful(start, key, block.tags@, count);
    let applied = after_tags(start, key, block.tags@, count);
    careful_transitive(state, join, applied.state);
    completing_is_careful(applied, block, context);
    careful_transitive(state, applied.state, completed(applied, block, context));
}

/// Default aliases are careful.
pub proof fn default_aliases_are_careful(
    state: TopicState,
    key: Seq<char>,
    block: DocumentedBlock,
    primary: AliasView,
)
    ensures
        careful_step(state, with_default_aliases(state, key, block, primary)),
        same_blocks(state.topic, with_default_aliases(state, key, block, primary).topic),
{
    careful_reflexive(state);
    let named = with_alias(state, key, primary);
    alias_is_careful(state, key, primary);
    match super::assembly::implicit_identity(block) {
        Some(implicit) => {
            alias_is_careful(named, key, implicit);
            careful_transitive(state, named, with_alias(named, key, implicit));
        },
        None => {},
    }
}

/// Whether a topic has a package anchor.
pub open spec fn has_anchor(fallback: Map<Seq<char>, PackageFallbackState>, key: Seq<char>) -> bool {
    entry(fallback, key) is Some && entry(fallback, key)->0.package_anchor is Some
}

/// The kind of a topic comes from a contribution, and a topic that a package
/// block contributed to has an anchor.
pub open spec fn sound_kind(topic: TopicView, anchored: bool) -> bool {
    &&& (topic.kind == RdTopicKind::Ordinary) == (topic.kind_origin is None)
    &&& topic.kind_origin is Some ==> topic.kind_origin->0.kind != RdTopicKind::Ordinary
    &&& topic.kind == RdTopicKind::Package ==> anchored
    &&& topic.kind_origin is Some && topic.kind_origin->0.kind == RdTopicKind::Package ==> anchored
    &&& topic.kind_conflict_reported ==> anchored
}

/// What holds of a topic at every point of the merge: nothing is listed twice,
/// every block has one usage and one formal list, and its kind is sound.
pub open spec fn sound_topic(topic: TopicView, anchored: bool) -> bool {
    tidy(topic) && one_usage_per_block(topic) && sound_kind(topic, anchored)
}

/// What holds at every point of the merge: all topics are sound and none is
/// without blocks.
pub open spec fn sound(state: MergeView) -> bool {
    forall|key: Seq<char>| #[trigger]
        state.topics.dom().contains(key) ==> sound_topic(
            state.topics[key],
            has_anchor(state.fallback, key),
        ) && state.topics[key].blocks.len() > 0
}

/// A contribution of either kind keeps the kind of a topic sound.
proof fn kind_stays_sound(
    state: TopicState,
    key: Seq<char>,
    kind: RdTopicKind,
    span: Span,
    anchored: bool,
)
    requires
        sound_kind(state.topic, anchored),
        kind != RdTopicKind::Ordinary,
        kind == RdTopicKind::Package ==> anchored,
    ensures
        sound_kind(with_kind(state, key, kind, span).topic, anchored),
{
    reveal(with_kind);
}

/// Merging a block keeps a topic sound.
proof fn merging_stays_sound(
    state: TopicState,
    key: Seq<char>,
    block: DocumentedBlock,
    context: ContextView,
    anchored: bool,
)
    requires
        sound_topic(state.topic, anchored),
    ensures
        sound_topic(merged(state, key, block, context).topic, anchored),
        merged(state, key, block, context).topic.blocks.len() > 0,
{
    merging_is_careful(state, key, block, context);
    reveal(joined);
    let listed = TopicState {
        topic: TopicView { blocks: state.topic.blocks.push(block.block), ..state.topic },
        ..state
    };
    match crate::model::identity::data_span(block.target) {
        Some(span) => {
            kind_stays_sound(listed, key, RdTopicKind::Data, span, anchored);
        },
        None => {},
    }
}

/// A topic without contributions is sound.
proof fn empty_topic_is_sound(name: Seq<char>, anchored: bool)
    ensures
        sound_topic(crate::model::view::empty_topic(name), anchored),
{
}

/// Noting what a block suppresses keeps the anchor of every topic.
proof fn suppressions_keep_anchors(
    fallback: Map<Seq<char>, PackageFallbackState>,
    key: Seq<char>,
    tags: Seq<ParsedTag>,
    other: Seq<char>,
)
    ensures
        has_anchor(fallback, other) ==> has_anchor(
            fallback.insert(key, suppression_state(fallback, key, tags)),
            other,
        ),
{
    reveal(suppression_state);
    let state = match entry(fallback, key) {
        Some(state) => state,
        None => super::package::no_fallback(),
    };
    suppressions_accumulate(state, tags, tags.len() as int);
}

/// An anchor that appears keeps a topic sound.
proof fn anchors_only_help(topic: TopicView, before: bool, after: bool)
    requires
        sound_topic(topic, before),
        before ==> after,
    ensures
        sound_topic(topic, after),
{
}

/// A block with a topic of its own keeps all topics sound.
proof fn object_block_stays_sound(
    state: MergeView,
    block: DocumentedBlock,
    primary: AliasView,
    context: ContextView,
)
    requires
        sound(state),
    ensures
        sound(after_object_block(state, block, primary, context)),
        extends(
            state.ledger.diagnostics,
            after_object_block(state, block, primary, context).ledger.diagnostics,
        ),
{
    reveal(after_object_block);
    let key = topic_key(block, primary.name);
    let after = after_object_block(state, block, primary, context);
    let start = state.topic_state(key);
    let named = with_first_name(start, primary.name);
    let anchored = has_anchor(after.fallback, key);
    if state.topics.dom().contains(key) {
        suppressions_keep_anchors(state.fallback, key, block.tags@, key);
        anchors_only_help(start.topic, has_anchor(state.fallback, key), anchored);
    } else {
        empty_topic_is_sound(key, anchored);
    }
    assert(sound_topic(named.topic, anchored));
    default_aliases_are_careful(named, key, block, primary);
    let aliased = with_default_aliases(named, key, block, primary);
    careful_reflexive(start);
    assert(careful_step(start, named));
    careful_transitive(start, named, aliased);
    assert(sound_topic(aliased.topic, anchored));
    merging_stays_sound(aliased, key, block, context, anchored);
    merging_is_careful(aliased, key, block, context);
    careful_transitive(start, aliased, merged(aliased, key, block, context));
    assert forall|other: Seq<char>| #[trigger] after.topics.dom().contains(other) implies
        sound_topic(after.topics[other], has_anchor(after.fallback, other))
        && after.topics[other].blocks.len() > 0 by {
        if other != key {
            assert(state.topics.dom().contains(other));
            suppressions_keep_anchors(state.fallback, key, block.tags@, other);
            anchors_only_help(
                state.topics[other],
                has_anchor(state.fallback, other),
                has_anchor(after.fallback, other),
            );
        }
    }
}

/// A block that documents the package keeps all topics sound.
proof fn package_block_stays_sound(
    state: MergeView,
    block: DocumentedBlock,
    sentinel: crate::r_parse::PackageSentinel,
    metadata: PackageMetadata,
    context: ContextView,
)
    requires
        sound(state),
    ensures
        sound(after_package_block(state, block, sentinel, metadata, context)),
        extends(
            state.ledger.diagnostics,
            after_package_block(state, block, sentinel, metadata, context).ledger.diagnostics,
        ),
{
    reveal(after_package_block);
    let key = topic_key(block, metadata.package@ + "-package"@);
    let after = after_package_block(state, block, sentinel, metadata, context);
    let start = state.topic_state(key);
    assert(has_anchor(after.fallback, key));
    if state.topics.dom().contains(key) {
        anchors_only_help(start.topic, has_anchor(state.fallback, key), true);
    } else {
        empty_topic_is_sound(key, true);
    }
    let titled = with_first_name(start, package_topic_name(block, metadata));
    careful_reflexive(start);
    assert(careful_step(start, titled));
    let kinded = with_kind(titled, key, RdTopicKind::Package, sentinel.span);
    kind_is_careful(titled, key, RdTopicKind::Package, sentinel.span);
    kind_stays_sound(titled, key, RdTopicKind::Package, sentinel.span, true);
    careful_transitive(start, titled, kinded);
    assert(sound_topic(kinded.topic, true));
    let named = match crate::model::lookup::name_from(block.tags@, 0) {
        Some(value) => {
            let alias = AliasView {
                name: value.value@,
                span: crate::model::identity::reported_span(value.origin),
            };
            alias_is_careful(kinded, key, alias);
            with_alias(kinded, key, alias)
        },
        None => {
            careful_reflexive(kinded);
            kinded
        },
    };
    assert(careful_step(kinded, named));
    assert(same_blocks(kinded.topic, named.topic));
    assert(sound_topic(named.topic, true));
    careful_transitive(start, kinded, named);
    merging_stays_sound(named, key, block, context, true);
    merging_is_careful(named, key, block, context);
    careful_transitive(start, named, merged(named, key, block, context));
    assert forall|other: Seq<char>| #[trigger] after.topics.dom().contains(other) implies
        sound_topic(after.topics[other], has_anchor(after.fallback, other))
        && after.topics[other].blocks.len() > 0 by {
        if other != key {
            assert(state.topics.dom().contains(other));
        }
    }
}

/// One block keeps all topics sound, adds its own NAMESPACE requests and no
/// others, and only adds reports.
pub proof fn blocks_stay_sound(
    state: MergeView,
    block: DocumentedBlock,
    metadata: Option<PackageMetadata>,
    context: ContextView,
)
    requires
        sound(state),
    ensures
        sound(after_block(state, block, metadata, context)),
        extends(
            state.ledger.diagnostics,
            after_block(state, block, metadata, context).ledger.diagnostics,
        ),
        after_block(state, block, metadata, context).namespace == state.namespace + block_requests(
            block,
            block.tags@.len() as int,
        ),
{
    reveal(after_object_block);
    reveal(after_package_block);
    let requested = MergeView {
        namespace: state.namespace + block_requests(block, block.tags@.len() as int),
        ..state
    };
    let after = after_block(state, block, metadata, context);
    assert(sound(requested));
    assert(state.ledger.diagnostics.take(state.ledger.diagnostics.len() as int)
        =~= state.ledger.diagnostics);
    let bad_name = match block.target {
        BlockTarget::Refused(refusal) => crate::model::identity::bad_data_name(refusal),
        _ => None,
    };
    if silences_rd(block.tags@) {
    } else if bad_name is Some {
        push_extends(state.ledger.diagnostics, bad_name->0);
        assert(sound(after));
    } else if !(block.target is PackageDocumentation) && !wants_topic(block.tags@) {
    } else {
        let checks = registration_checks(context, block);
        let checked = requested.and_reports(checks);
        more_extends(state.ledger.diagnostics, checks);
        assert(sound(checked));
        match block.target {
            BlockTarget::PackageDocumentation(sentinel) => match metadata {
                Some(metadata) => {
                    package_block_stays_sound(checked, block, sentinel, metadata, context);
                    extends_transitive(
                        state.ledger.diagnostics,
                        checked.ledger.diagnostics,
                        after.ledger.diagnostics,
                    );
                },
                None => {
                    push_extends(checked.ledger.diagnostics, after.ledger.diagnostics.last());
                    extends_transitive(
                        state.ledger.diagnostics,
                        checked.ledger.diagnostics,
                        after.ledger.diagnostics,
                    );
                    assert(sound(after));
                },
            },
            _ => match primary_identity(block) {
                Some(primary) => {
                    object_block_stays_sound(checked, block, primary, context);
                    extends_transitive(
                        state.ledger.diagnostics,
                        checked.ledger.diagnostics,
                        after.ledger.diagnostics,
                    );
                },
                None => {
                    push_extends(checked.ledger.diagnostics, after.ledger.diagnostics.last());
                    extends_transitive(
                        state.ledger.diagnostics,
                        checked.ledger.diagnostics,
                        after.ledger.diagnostics,
                    );
                    assert(sound(after));
                },
            },
        }
    }
}

/// A block that asks for no topic leaves the topics as they are: `@noRd`, and
/// `@export` alone, are for NAMESPACE only.
pub proof fn silent_blocks_change_no_topic(
    state: MergeView,
    block: DocumentedBlock,
    metadata: Option<PackageMetadata>,
    context: ContextView,
)
    requires
        silences_rd(block.tags@) || (!(block.target is PackageDocumentation) && !wants_topic(
            block.tags@,
        )),
    ensures
        after_block(state, block, metadata, context).topics == state.topics,
{
}

/// The NAMESPACE requests of blocks, in their order.
pub open spec fn all_requests(blocks: Seq<DocumentedBlock>, count: int) -> Seq<NamespaceRequest>
    decreases count,
{
    if count <= 0 {
        Seq::empty()
    } else {
        all_requests(blocks, count - 1) + block_requests(
            blocks[count - 1],
            blocks[count - 1].tags@.len() as int,
        )
    }
}

/// Merging blocks one after the other keeps all topics sound.
proof fn all_blocks_stay_sound(
    state: MergeView,
    blocks: Seq<DocumentedBlock>,
    metadata: Option<PackageMetadata>,
    context: ContextView,
    count: int,
)
    requires
        sound(state),
    ensures
        sound(after_blocks(state, blocks, metadata, context, count)),
        after_blocks(state, blocks, metadata, context, count).namespace == state.namespace
            + all_requests(blocks, count),
    decreases count,
{
    if count > 0 {
        all_blocks_stay_sound(state, blocks, metadata, context, count - 1);
        let before = after_blocks(state, blocks, metadata, context, count - 1);
        blocks_stay_sound(before, blocks[count - 1], metadata, context);
        assert(after_blocks(state, blocks, metadata, context, count).namespace =~= state.namespace
            + all_requests(blocks, count));
    } else {
        assert(state.namespace + all_requests(blocks, count) =~= state.namespace);
    }
}

/// A default alias keeps all topics sound, provided that the topic exists.
proof fn package_alias_stays_sound(state: MergeView, key: Seq<char>, alias: AliasView)
    requires
        sound(state),
        state.topics.dom().contains(key),
    ensures
        sound(with_package_alias(state, key, alias)),
        with_package_alias(state, key, alias).topics.dom() == state.topics.dom(),
        with_package_alias(state, key, alias).namespace == state.namespace,
        with_package_alias(state, key, alias).fallback == state.fallback,
{
    let after = with_package_alias(state, key, alias);
    let start = state.topic_state(key);
    alias_is_careful(start, key, alias);
    assert(after.topics.dom() =~= state.topics.dom());
    assert forall|other: Seq<char>| #[trigger] after.topics.dom().contains(other) implies
        sound_topic(after.topics[other], has_anchor(after.fallback, other))
        && after.topics[other].blocks.len() > 0 by {
        assert(state.topics.dom().contains(other));
    }
}

/// Default aliases keep all topics sound.
proof fn package_aliases_stay_sound(
    state: MergeView,
    keys: Seq<Seq<char>>,
    package: Seq<char>,
    count: int,
)
    requires
        sound(state),
        count <= keys.len(),
        forall|i: int| 0 <= i < keys.len() ==> state.topics.dom().contains(#[trigger] keys[i]),
    ensures
        sound(after_package_aliases(state, keys, package, count)),
        after_package_aliases(state, keys, package, count).topics.dom() == state.topics.dom(),
        after_package_aliases(state, keys, package, count).namespace == state.namespace,
        after_package_aliases(state, keys, package, count).fallback == state.fallback,
    decreases count,
{
    if count > 0 {
        package_aliases_stay_sound(state, keys, package, count - 1);
        let before = after_package_aliases(state, keys, package, count - 1);
        let key = keys[count - 1];
        match entry(before.fallback, key) {
            Some(fallback) => match fallback.default_alias_anchor {
                Some(span) => {
                    let first = AliasView { name: package, span };
                    package_alias_stays_sound(before, key, first);
                    package_alias_stays_sound(
                        with_package_alias(before, key, first),
                        key,
                        AliasView { name: key, span },
                    );
                },
                None => {},
            },
            None => {},
        }
    }
}

/// In every finished model all topics are sound: no alias, keyword or
/// parameter is listed twice, every block contributes one usage and one formal
/// list, and every package topic carries its DESCRIPTION state. The NAMESPACE
/// requests are those of all blocks, in merge order.
pub proof fn models_are_sound(
    blocks: Seq<DocumentedBlock>,
    metadata: Option<PackageMetadata>,
    context: ContextView,
)
    ensures
        forall|key: Seq<char>| #[trigger]
            merged_package(blocks, metadata, context).topics.dom().contains(key) ==> {
                let topic = merged_package(blocks, metadata, context).topics[key];
                &&& tidy(topic)
                &&& one_usage_per_block(topic)
                &&& topic.blocks.len() > 0
                &&& metadata is Some && topic.kind == RdTopicKind::Package
                    ==> topic.package_metadata_diagnostics is Some
            },
        merged_package(blocks, metadata, context).namespace == all_requests(
            in_merge_order(blocks),
            in_merge_order(blocks).len() as int,
        ),
{
    let ordered = in_merge_order(blocks);
    let start = initial_state(context);
    let count = ordered.len() as int;
    all_blocks_stay_sound(start, ordered, metadata, context, count);
    let merged_all = after_blocks(start, ordered, metadata, context, count);
    assert(start.namespace + all_requests(ordered, count) =~= all_requests(ordered, count));
    match metadata {
        Some(metadata) => {
            let keys = ordered_keys(merged_all.topics);
            after_blocks_have_keys(start, ordered, Some(metadata), context, count);
            assert forall|i: int| 0 <= i < keys.len() implies merged_all.topics.dom().contains(
                #[trigger] keys[i],
            ) by {
                assert(keys.contains(keys[i]));
            }
            package_aliases_stay_sound(merged_all, keys, metadata.package@, keys.len() as int);
            let aliased = after_package_aliases(
                merged_all,
                keys,
                metadata.package@,
                keys.len() as int,
            );
            let done = merged_package(blocks, Some(metadata), context);
            assert forall|key: Seq<char>| #[trigger] done.topics.dom().contains(key) implies {
                let topic = done.topics[key];
                &&& tidy(topic)
                &&& one_usage_per_block(topic)
                &&& topic.blocks.len() > 0
                &&& topic.kind == RdTopicKind::Package ==> topic.package_metadata_diagnostics
                    is Some
            } by {
                assert(aliased.topics.dom().contains(key));
                let topic = aliased.topics[key];
                assert(sound_topic(topic, has_anchor(aliased.fallback, key)));
            }
        },
        None => {},
    }
}

/// What is built is sound: in the output no topic lists an alias, keyword or
/// parameter twice, and every block of a topic has one usage.
pub proof fn outputs_are_sound(
    output: ModelOutput,
    blocks: Seq<DocumentedBlock>,
    metadata: Option<PackageMetadata>,
    context: ContextView,
)
    requires
        is_model(output, blocks, metadata, context),
    ensures
        forall|key: Seq<char>| #[trigger]
            topic_views(output.package.topics).dom().contains(key) ==> tidy(
                topic_views(output.package.topics)[key],
            ) && one_usage_per_block(topic_views(output.package.topics)[key]),
        output.package.namespace@ == all_requests(
            in_merge_order(blocks),
            in_merge_order(blocks).len() as int,
        ),
{
    models_are_sound(blocks, metadata, context);
    let all = merged_package(blocks, metadata, context);
    assert forall|key: Seq<char>| #[trigger]
        topic_views(output.package.topics).dom().contains(key) implies tidy(
        topic_views(output.package.topics)[key],
    ) && one_usage_per_block(topic_views(output.package.topics)[key]) by {
        assert(all.topics.dom().contains(key));
    }
}

/// The keys of a merge can be put in order: they are finitely many.
proof fn after_blocks_have_keys(
    state: MergeView,
    blocks: Seq<DocumentedBlock>,
    metadata: Option<PackageMetadata>,
    context: ContextView,
    count: int,
)
    requires
        state.topics.dom() == Set::<Seq<char>>::empty(),
    ensures
        super::assembly::orders_keys(
            ordered_keys(after_blocks(state, blocks, metadata, context, count).topics),
            after_blocks(state, blocks, metadata, context, count).topics.dom(),
        ),
{
    let topics = after_blocks(state, blocks, metadata, context, count).topics;
    assert(state.topics.dom() =~= Set::<Seq<char>>::empty());
    keys_stay_finite(state, blocks, metadata, context, count);
    let keys = finite_keys_in_order(topics.dom());
    assert(super::assembly::orders_keys(keys, topics.dom()));
}

/// Merging adds finitely many topics.
proof fn keys_stay_finite(
    state: MergeView,
    blocks: Seq<DocumentedBlock>,
    metadata: Option<PackageMetadata>,
    context: ContextView,
    count: int,
)
    requires
        state.topics.dom().finite(),
    ensures
        after_blocks(state, blocks, metadata, context, count).topics.dom().finite(),
    decreases count,
{
    if count > 0 {
        keys_stay_finite(state, blocks, metadata, context, count - 1);
        reveal(after_object_block);
        reveal(after_package_block);
    }
}

/// Finitely many keys can be put in order.
proof fn finite_keys_in_order(dom: Set<Seq<char>>) -> (keys: Seq<Seq<char>>)
    requires
        dom.finite(),
    ensures
        super::assembly::orders_keys(keys, dom),
    decreases dom.len(),
{
    if dom.len() == 0 {
        let keys = Seq::<Seq<char>>::empty();
        assert(dom =~= Set::<Seq<char>>::empty());
        keys
    } else {
        let key = dom.choose();
        let rest = finite_keys_in_order(dom.remove(key));
        insert_key(rest, key, dom.remove(key));
        let i = place_of(rest, key);
        assert(dom.remove(key).insert(key) =~= dom);
        rest.insert(i, key)
    }
}

/// Where a key belongs in an ordered list.
spec fn place_of(keys: Seq<Seq<char>>, key: Seq<char>) -> int
    decreases keys.len(),
{
    if keys.len() == 0 || crate::text::text_le(keys.last(), key) {
        keys.len() as int
    } else {
        place_of(keys.drop_last(), key)
    }
}

/// A new key in its place keeps a list ordered.
proof fn insert_key(keys: Seq<Seq<char>>, key: Seq<char>, dom: Set<Seq<char>>)
    requires
        super::assembly::orders_keys(keys, dom),
        !dom.contains(key),
    ensures
        0 <= place_of(keys, key) <= keys.len(),
        super::assembly::orders_keys(keys.insert(place_of(keys, key), key), dom.insert(key)),
{
    place_is_right(keys, key);
    let i = place_of(keys, key);
    let after = keys.insert(i, key);
    assert(!keys.contains(key));
    assert forall|a: int, b: int| 0 <= a < b < after.len() implies crate::text::text_lt(
        #[trigger] after[a],
        #[trigger] after[b],
    ) by {
        if a < i && b > i {
            assert(crate::text::text_lt(keys[a], keys[b - 1]));
        } else if b == i {
            assert(crate::text::text_le(keys[a], key));
            assert(keys.contains(keys[a]));
        } else if a == i {
            assert(!crate::text::text_le(keys[b - 1], key));
            crate::text::text_le_total(keys[b - 1], key);
            crate::text::text_le_reflexive(key);
        } else if a > i {
            assert(crate::text::text_lt(keys[a - 1], keys[b - 1]));
        } else {
            assert(crate::text::text_lt(keys[a], keys[b]));
        }
    }
    assert forall|k: Seq<char>| #[trigger] after.contains(k) <==> dom.insert(key).contains(k) by {
        if after.contains(k) {
            let a = choose|a: int| 0 <= a < after.len() && after[a] == k;
            if a != i {
                assert(keys[if a < i { a } else { a - 1 }] == k);
                assert(keys.contains(k));
            }
        }
        if dom.contains(k) {
            assert(keys.contains(k));
            let a = choose|a: int| 0 <= a < keys.len() && keys[a] == k;
            assert(after[if a < i { a } else { a + 1 }] == k);
        }
        assert(after[i] == key);
    }
}

/// Everything before the place of a key precedes it, and nothing after it does.
proof fn place_is_right(keys: Seq<Seq<char>>, key: Seq<char>)
    requires
        crate::text::increasing_texts(keys),
    ensures
        0 <= place_of(keys, key) <= keys.len(),
        forall|a: int|
            0 <= a < place_of(keys, key) ==> crate::text::text_le(#[trigger] keys[a], key),
        forall|a: int|
            place_of(keys, key) <= a < keys.len() ==> !crate::text::text_le(
                #[trigger] keys[a],
                key,
            ),
    decreases keys.len(),
{
    if keys.len() > 0 {
        if crate::text::text_le(keys.last(), key) {
            assert forall|a: int| 0 <= a < keys.len() implies crate::text::text_le(
                #[trigger] keys[a],
                key,
            ) by {
                if a < keys.len() - 1 {
                    assert(crate::text::text_lt(keys[a], keys[keys.len() - 1]));
                    crate::text::text_le_transitive(keys[a], keys.last(), key);
                }
            }
        } else {
            let front = keys.drop_last();
            assert forall|a: int, b: int| 0 <= a < b < front.len() implies crate::text::text_lt(
                #[trigger] front[a],
                #[trigger] front[b],
            ) by {
                assert(crate::text::text_lt(keys[a], keys[b]));
            }
            place_is_right(front, key);
            assert forall|a: int| 0 <= a < place_of(keys, key) implies crate::text::text_le(
                #[trigger] keys[a],
                key,
            ) by {
                assert(front[a] == keys[a]);
            }
            assert forall|a: int|
                place_of(keys, key) <= a < keys.len() implies !crate::text::text_le(
                #[trigger] keys[a],
                key,
            ) by {
                if a < front.len() {
                    assert(front[a] == keys[a]);
                }
            }
        }
    }
}

/// Package and data contributions to one topic, in their order.
pub open spec fn with_kinds(
    state: TopicState,
    key: Seq<char>,
    kinds: Seq<(RdTopicKind, Span)>,
) -> TopicState
    decreases kinds.len(),
{
    if kinds.len() == 0 {
        state
    } else {
        with_kind(
            with_kinds(state, key, kinds.drop_last()),
            key,
            kinds.last().0,
            kinds.last().1,
        )
    }
}

/// Whether one of the contributions is of a kind.
pub open spec fn has_kind(kinds: Seq<(RdTopicKind, Span)>, kind: RdTopicKind) -> bool {
    exists|i: int| 0 <= i < kinds.len() && (#[trigger] kinds[i]).0 == kind
}

/// The kind of a topic does not depend on the order of its contributions: it
/// is a package topic as soon as one of them documents the package, and a mix
/// of both kinds is reported exactly once.
pub proof fn topic_kind_is_order_independent(
    state: TopicState,
    key: Seq<char>,
    kinds: Seq<(RdTopicKind, Span)>,
)
    requires
        state.topic.kind == RdTopicKind::Ordinary,
        state.topic.kind_origin is None,
        !state.topic.kind_conflict_reported,
        forall|i: int| 0 <= i < kinds.len() ==> (#[trigger] kinds[i]).0 != RdTopicKind::Ordinary,
    ensures
        with_kinds(state, key, kinds).topic.kind == (if has_kind(kinds, RdTopicKind::Package) {
            RdTopicKind::Package
        } else if has_kind(kinds, RdTopicKind::Data) {
            RdTopicKind::Data
        } else {
            RdTopicKind::Ordinary
        }),
        with_kinds(state, key, kinds).ledger.diagnostics.len() == state.ledger.diagnostics.len() + (
        if has_kind(kinds, RdTopicKind::Package) && has_kind(kinds, RdTopicKind::Data) {
            1int
        } else {
            0int
        }),
        with_kinds(state, key, kinds).topic.kind_conflict_reported == (has_kind(
            kinds,
            RdTopicKind::Package,
        ) && has_kind(kinds, RdTopicKind::Data)),
        kinds.len() == 0 <==> with_kinds(state, key, kinds).topic.kind_origin is None,
        kinds.len() > 0 ==> with_kinds(state, key, kinds).topic.kind_origin->0.kind == kinds[0].0,
    decreases kinds.len(),
{
    reveal(with_kind);
    if kinds.len() > 0 {
        let front = kinds.drop_last();
        assert forall|i: int| 0 <= i < front.len() implies (#[trigger] front[i]).0
            != RdTopicKind::Ordinary by {
            assert(front[i] == kinds[i]);
        }
        topic_kind_is_order_independent(state, key, front);
        has_kind_grows(kinds, RdTopicKind::Package);
        has_kind_grows(kinds, RdTopicKind::Data);
        assert(kinds.last().0 != RdTopicKind::Ordinary);
        if front.len() > 0 {
            assert(front[0] == kinds[0]);
            assert(has_kind(front, front[0].0));
        } else {
            assert(!has_kind(front, RdTopicKind::Package));
            assert(!has_kind(front, RdTopicKind::Data));
        }
    } else {
        assert(!has_kind(kinds, RdTopicKind::Package));
        assert(!has_kind(kinds, RdTopicKind::Data));
    }
}

/// A list has a kind when its front has it or its last entry is of it.
proof fn has_kind_grows(kinds: Seq<(RdTopicKind, Span)>, kind: RdTopicKind)
    requires
        kinds.len() > 0,
    ensures
        has_kind(kinds, kind) <==> has_kind(kinds.drop_last(), kind) || kinds.last().0 == kind,
{
    let front = kinds.drop_last();
    if has_kind(front, kind) {
        let i = choose|i: int| 0 <= i < front.len() && (#[trigger] front[i]).0 == kind;
        assert(kinds[i].0 == kind);
    }
    if kinds.last().0 == kind {
        assert(kinds[kinds.len() - 1].0 == kind);
    }
    if has_kind(kinds, kind) {
        let i = choose|i: int| 0 <= i < kinds.len() && (#[trigger] kinds[i]).0 == kind;
        if i < front.len() {
            assert(front[i].0 == kind);
        }
    }
}

} // verus!
