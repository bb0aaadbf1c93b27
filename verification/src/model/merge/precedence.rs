//! Which value counts when blocks and DESCRIPTION offer several.
use crate::model::ir::{DocumentedBlock, MethodDeclaration};
use crate::model::lookup::{method_from, silences_rd};
use crate::model::view::{AliasView, TopicView};
use crate::package::PackageMetadata;
use crate::r_parse::BlockTarget;
use crate::tags::{ExamplesContent, ParsedTag, TagValue};
use vstd::prelude::*;

use super::assembly::{
    after_block, after_blocks, after_object_block, after_package_aliases, after_package_block,
    initial_state, merged_package, ordered_keys, package_topic_name, primary_identity,
    registration_checks, topic_key, with_default_aliases, with_first_name, with_package_alias,
    with_package_start, MergeView,
};
use super::block::{
    in_merge_order, wants_topic, with_alias, with_examples, with_kind, TagState,
};
use super::contribution::{block_method, merged, null_export_from, ContextView};
use super::laws::{
    alias_is_careful, blocks_stay_sound, careful_reflexive, careful_step, careful_transitive,
    default_aliases_are_careful, keeps_slots, kind_is_careful, merging_is_careful, sound,
};
use super::package::{
    after_suppressions, entry, is_suppressed, no_fallback, suppression_state,
    suppressions_accumulate, PackageFallbackState,
};

verus! {

/// Every topic of a state is still there, with the values it has.
pub open spec fn keeps_values(before: MergeView, after: MergeView) -> bool {
    forall|key: Seq<char>| #[trigger]
        before.topics.dom().contains(key) ==> after.topics.dom().contains(key) && keeps_slots(
            before.topics[key],
            after.topics[key],
        )
}

/// A topic suppresses no default less than before.
pub open spec fn suppresses_no_less(
    before: PackageFallbackState,
    after: PackageFallbackState,
) -> bool {
    &&& before.title_suppressed ==> after.title_suppressed
    &&& before.description_suppressed ==> after.description_suppressed
    &&& before.see_also_suppressed ==> after.see_also_suppressed
    &&& before.author_suppressed ==> after.author_suppressed
}

/// What topics suppress they still suppress.
pub open spec fn keeps_suppressions(before: MergeView, after: MergeView) -> bool {
    forall|key: Seq<char>| #[trigger]
        before.fallback.dom().contains(key) ==> after.fallback.dom().contains(key)
            && suppresses_no_less(before.fallback[key], after.fallback[key])
}

/// A block keeps what its topic suppresses.
proof fn notes_keep_suppressions(
    states: Map<Seq<char>, PackageFallbackState>,
    key: Seq<char>,
    tags: Seq<ParsedTag>,
)
    ensures
        states.dom().contains(key) ==> suppresses_no_less(
            states[key],
            suppression_state(states, key, tags),
        ),
{
    reveal(suppression_state);
    let state = match entry(states, key) {
        Some(state) => state,
        None => no_fallback(),
    };
    suppressions_accumulate(state, tags, tags.len() as int);
}

/// A block with a topic of its own keeps the values of all topics.
proof fn object_block_keeps(
    state: MergeView,
    block: DocumentedBlock,
    primary: AliasView,
    context: ContextView,
)
    ensures
        keeps_values(state, after_object_block(state, block, primary, context)),
        keeps_suppressions(state, after_object_block(state, block, primary, context)),
{
    reveal(after_object_block);
    let key = topic_key(block, primary.name);
    let start = state.topic_state(key);
    let named = with_first_name(start, primary.name);
    let aliased = with_default_aliases(named, key, block, primary);
    default_aliases_are_careful(named, key, block, primary);
    merging_is_careful(aliased, key, block, context);
    careful_transitive(named, aliased, merged(aliased, key, block, context));
    notes_keep_suppressions(state.fallback, key, block.tags@);
    let after = after_object_block(state, block, primary, context);
    assert forall|other: Seq<char>| #[trigger] state.topics.dom().contains(other) implies
        after.topics.dom().contains(other) && keeps_slots(
        state.topics[other],
        after.topics[other],
    ) by {
        if other == key {
            assert(start.topic == state.topics[other]);
        }
    }
}

/// A block that documents the package keeps the values of all topics.
proof fn package_block_keeps(
    state: MergeView,
    block: DocumentedBlock,
    sentinel: crate::r_parse::PackageSentinel,
    metadata: PackageMetadata,
    context: ContextView,
)
    ensures
        keeps_values(state, after_package_block(state, block, sentinel, metadata, context)),
        keeps_suppressions(state, after_package_block(state, block, sentinel, metadata, context)),
{
    reveal(after_package_block);
    let key = topic_key(block, metadata.package@ + "-package"@);
    let start = state.topic_state(key);
    let kind = crate::model::ir::RdTopicKind::Package;
    let titled = with_first_name(start, package_topic_name(block, metadata));
    careful_reflexive(start);
    assert(careful_step(start, titled));
    let kinded = with_kind(titled, key, kind, sentinel.span);
    kind_is_careful(titled, key, kind, sentinel.span);
    careful_transitive(start, titled, kinded);
    let named = match crate::model::lookup::name_from(block.tags@, 0) {
        Some(value) => {
            let alias = AliasView {
                name: value.value@,
                span: crate::model::identity::reported_span(value.origin),
            };
            alias_is_careful(kinded, key, alias);
            with_alias(kinded, key, alias)
        },
        None => {
            careful_reflexive(kinded);
            kinded
        },
    };
    careful_transitive(start, kinded, named);
    merging_is_careful(named, key, block, context);
    careful_transitive(start, named, merged(named, key, block, context));
    notes_keep_suppressions(state.fallback, key, block.tags@);
    let after = after_package_block(state, block, sentinel, metadata, context);
    assert forall|other: Seq<char>| #[trigger] state.topics.dom().contains(other) implies
        after.topics.dom().contains(other) && keeps_slots(
        state.topics[other],
        after.topics[other],
    ) by {
        if other == key {
            assert(start.topic == state.topics[other]);
        }
    }
}

/// One block keeps the values of all topics, and what they suppress.
pub proof fn blocks_keep_values(
    state: MergeView,
    block: DocumentedBlock,
    metadata: Option<PackageMetadata>,
    context: ContextView,
)
    ensures
        keeps_values(state, after_block(state, block, metadata, context)),
        keeps_suppressions(state, after_block(state, block, metadata, context)),
{
    let requested = MergeView {
        namespace: state.namespace + super::assembly::block_requests(
            block,
            block.tags@.len() as int,
        ),
        ..state
    };
    let checked = requested.and_reports(registration_checks(context, block));
    let after = after_block(state, block, metadata, context);
    assert(checked.topics == state.topics && checked.fallback == state.fallback);
    let bad_name = match block.target {
        BlockTarget::Refused(refusal) => crate::model::identity::bad_data_name(refusal),
        _ => None,
    };
    if silences_rd(block.tags@) || bad_name is Some || (!(block.target is PackageDocumentation)
        && !wants_topic(block.tags@)) {
        assert(after.topics == state.topics && after.fallback == state.fallback);
    } else {
        match block.target {
            BlockTarget::PackageDocumentation(sentinel) => match metadata {
                Some(metadata) => {
                    package_block_keeps(checked, block, sentinel, metadata, context);
                },
                None => {
                    assert(after.topics == state.topics && after.fallback == state.fallback);
                },
            },
            _ => match primary_identity(block) {
                Some(primary) => {
                    object_block_keeps(checked, block, primary, context);
                },
                None => {
                    assert(after.topics == state.topics && after.fallback == state.fallback);
                },
            },
        }
    }
}

/// Further blocks keep the values of all topics, and what they suppress.
proof fn further_blocks_keep(
    state: MergeView,
    blocks: Seq<DocumentedBlock>,
    metadata: Option<PackageMetadata>,
    context: ContextView,
    from: int,
    to: int,
)
    requires
        0 <= from <= to,
    ensures
        keeps_values(
            after_blocks(state, blocks, metadata, context, from),
            after_blocks(state, blocks, metadata, context, to),
        ),
        keeps_suppressions(
            after_blocks(state, blocks, metadata, context, from),
            after_blocks(state, blocks, metadata, context, to),
        ),
    decreases to - from,
{
    if from < to {
        further_blocks_keep(state, blocks, metadata, context, from, to - 1);
        blocks_keep_values(
            after_blocks(state, blocks, metadata, context, to - 1),
            blocks[to - 1],
            metadata,
            context,
        );
    }
}

/// A topic with other aliases only.
pub open spec fn same_but_aliases(before: TopicView, after: TopicView) -> bool {
    after == (TopicView { aliases: after.aliases, ..before })
}

/// Default aliases change nothing else of any topic.
proof fn package_aliases_keep(
    state: MergeView,
    keys: Seq<Seq<char>>,
    package: Seq<char>,
    count: int,
)
    ensures
        after_package_aliases(state, keys, package, count).fallback == state.fallback,
        forall|key: Seq<char>| #[trigger]
            state.topics.dom().contains(key) ==> after_package_aliases(
                state,
                keys,
                package,
                count,
            ).topics.dom().contains(key) && same_but_aliases(
                state.topics[key],
                after_package_aliases(state, keys, package, count).topics[key],
            ),
    decreases count,
{
    if count > 0 {
        package_aliases_keep(state, keys, package, count - 1);
        let before = after_package_aliases(state, keys, package, count - 1);
        let key = keys[count - 1];
        match entry(before.fallback, key) {
            Some(fallback) => match fallback.default_alias_anchor {
                Some(span) => {
                    let first = AliasView { name: package, span };
                    let second = AliasView { name: key, span };
                    alias_is_careful(before.topic_state(key), key, first);
                    let once = with_package_alias(before, key, first);
                    alias_is_careful(once.topic_state(key), key, second);
                },
                None => {},
            },
            None => {},
        }
    }
}

/// What a block has given stays: neither a later block nor a default of
/// DESCRIPTION replaces the value of a single-value field.
pub proof fn given_values_stay(
    blocks: Seq<DocumentedBlock>,
    metadata: Option<PackageMetadata>,
    context: ContextView,
    count: int,
)
    requires
        0 <= count <= in_merge_order(blocks).len(),
    ensures
        keeps_values(
            after_blocks(
                initial_state(context),
                in_merge_order(blocks),
                metadata,
                context,
                count,
            ),
            merged_package(blocks, metadata, context),
        ),
{
    let ordered = in_merge_order(blocks);
    let total = ordered.len() as int;
    let start = initial_state(context);
    let before = after_blocks(start, ordered, metadata, context, count);
    let all = after_blocks(start, ordered, metadata, context, total);
    further_blocks_keep(start, ordered, metadata, context, count, total);
    match metadata {
        Some(metadata) => {
            let keys = ordered_keys(all.topics);
            package_aliases_keep(all, keys, metadata.package@, keys.len() as int);
        },
        None => {},
    }
    let done = merged_package(blocks, metadata, context);
    assert forall|key: Seq<char>| #[trigger] before.topics.dom().contains(key) implies
        done.topics.dom().contains(key) && keeps_slots(before.topics[key], done.topics[key]) by {
        assert(all.topics.dom().contains(key));
    }
}

/// The display name that a block gives to a topic of its own: its explicit or
/// implicit primary name.
pub open spec fn contributed_name(block: DocumentedBlock, metadata: Option<PackageMetadata>) -> Seq<
    char,
> {
    match (block.target, metadata) {
        (BlockTarget::PackageDocumentation(_), Some(metadata)) => package_topic_name(
            block,
            metadata,
        ),
        _ => primary_identity(block)->0.name,
    }
}

/// A block names the topic that it starts, and renames none.
pub proof fn first_contribution_names_a_topic(
    state: MergeView,
    block: DocumentedBlock,
    metadata: Option<PackageMetadata>,
    context: ContextView,
)
    requires
        sound(state),
    ensures
        forall|key: Seq<char>| #[trigger]
            state.topics.dom().contains(key) ==> after_block(
                state,
                block,
                metadata,
                context,
            ).topics[key].name == state.topics[key].name,
        forall|key: Seq<char>|
            !state.topics.dom().contains(key) && #[trigger] after_block(
                state,
                block,
                metadata,
                context,
            ).topics.dom().contains(key) ==> after_block(
                state,
                block,
                metadata,
                context,
            ).topics[key].name == contributed_name(block, metadata),
{
    let requested = MergeView {
        namespace: state.namespace + super::assembly::block_requests(
            block,
            block.tags@.len() as int,
        ),
        ..state
    };
    let checked = requested.and_reports(registration_checks(context, block));
    match block.target {
        BlockTarget::PackageDocumentation(sentinel) => {
            if let Some(metadata) = metadata {
                reveal(after_package_block);
                let key = topic_key(block, metadata.package@ + "-package"@);
                let start = checked.topic_state(key);
                let titled = with_first_name(start, package_topic_name(block, metadata));
                let kind = crate::model::ir::RdTopicKind::Package;
                let kinded = with_kind(titled, key, kind, sentinel.span);
                kind_is_careful(titled, key, kind, sentinel.span);
                if let Some(value) = crate::model::lookup::name_from(block.tags@, 0) {
                    let alias = AliasView {
                        name: value.value@,
                        span: crate::model::identity::reported_span(value.origin),
                    };
                    alias_is_careful(kinded, key, alias);
                }
                let opened = with_package_start(start, key, block, sentinel, metadata);
                merging_is_careful(opened, key, block, context);
            }
        },
        _ => {
            if let Some(primary) = primary_identity(block) {
                reveal(after_object_block);
                let key = topic_key(block, primary.name);
                let named = with_first_name(checked.topic_state(key), primary.name);
                default_aliases_are_careful(named, key, block, primary);
                let aliased = with_default_aliases(named, key, block, primary);
                merging_is_careful(aliased, key, block, context);
            }
        },
    }
}

/// Further blocks rename no topic.
proof fn further_blocks_rename_nothing(
    blocks: Seq<DocumentedBlock>,
    metadata: Option<PackageMetadata>,
    context: ContextView,
    from: int,
    to: int,
)
    requires
        0 <= from <= to <= blocks.len(),
    ensures
        sound(after_blocks(initial_state(context), blocks, metadata, context, to)),
        forall|key: Seq<char>| #[trigger]
            after_blocks(
                initial_state(context),
                blocks,
                metadata,
                context,
                from,
            ).topics.dom().contains(key) ==> after_blocks(
                initial_state(context),
                blocks,
                metadata,
                context,
                to,
            ).topics.dom().contains(key) && after_blocks(
                initial_state(context),
                blocks,
                metadata,
                context,
                to,
            ).topics[key].name == after_blocks(
                initial_state(context),
                blocks,
                metadata,
                context,
                from,
            ).topics[key].name,
    decreases to,
{
    let start = initial_state(context);
    if to > 0 {
        let least = if from < to {
            from
        } else {
            to - 1
        };
        further_blocks_rename_nothing(blocks, metadata, context, least, to - 1);
        let before = after_blocks(start, blocks, metadata, context, to - 1);
        blocks_stay_sound(before, blocks[to - 1], metadata, context);
        first_contribution_names_a_topic(before, blocks[to - 1], metadata, context);
        blocks_keep_values(before, blocks[to - 1], metadata, context);
    }
}

/// A topic keeps the display name that its first contribution gave it: the
/// finished package has it too.
pub proof fn topic_names_stay(
    blocks: Seq<DocumentedBlock>,
    metadata: Option<PackageMetadata>,
    context: ContextView,
    count: int,
)
    requires
        0 <= count <= in_merge_order(blocks).len(),
    ensures
        ({
            let noted = after_blocks(
                initial_state(context),
                in_merge_order(blocks),
                metadata,
                context,
                count,
            ).topics;
            let done = merged_package(blocks, metadata, context).topics;
            forall|key: Seq<char>| #[trigger]
                noted.dom().contains(key) ==> done.dom().contains(key) && done[key].name
                    == noted[key].name
        }),
{
    let ordered = in_merge_order(blocks);
    let total = ordered.len() as int;
    let start = initial_state(context);
    let before = after_blocks(start, ordered, metadata, context, count);
    let all = after_blocks(start, ordered, metadata, context, total);
    further_blocks_rename_nothing(ordered, metadata, context, count, total);
    match metadata {
        Some(metadata) => {
            let keys = ordered_keys(all.topics);
            package_aliases_keep(all, keys, metadata.package@, keys.len() as int);
        },
        None => {},
    }
    let done = merged_package(blocks, metadata, context);
    assert forall|key: Seq<char>| #[trigger] before.topics.dom().contains(key) implies
        done.topics.dom().contains(key) && done.topics[key].name == before.topics[key].name by {
        assert(all.topics.dom().contains(key));
    }
}

/// A suppressed default stays out: where a block of a topic suppresses a field
/// with `NULL` and no block gives it a value, DESCRIPTION gives none either.
pub proof fn suppressed_defaults_stay_out(
    blocks: Seq<DocumentedBlock>,
    metadata: PackageMetadata,
    context: ContextView,
    count: int,
    key: Seq<char>,
)
    requires
        0 <= count <= in_merge_order(blocks).len(),
        after_blocks(
            initial_state(context),
            in_merge_order(blocks),
            Some(metadata),
            context,
            count,
        ).fallback.dom().contains(key),
    ensures
        ({
            let ordered = in_merge_order(blocks);
            let start = initial_state(context);
            let noted = after_blocks(start, ordered, Some(metadata), context, count).fallback[key];
            let all = after_blocks(
                start,
                ordered,
                Some(metadata),
                context,
                ordered.len() as int,
            ).topics;
            let done = merged_package(blocks, Some(metadata), context).topics;
            all.dom().contains(key) ==> {
                &&& done.dom().contains(key)
                &&& noted.title_suppressed ==> done[key].title == all[key].title
                &&& noted.description_suppressed ==> done[key].description == all[key].description
                &&& noted.see_also_suppressed ==> done[key].package_see_also
                    == all[key].package_see_also
                &&& noted.author_suppressed ==> done[key].package_author
                    == all[key].package_author
            }
        }),
{
    let ordered = in_merge_order(blocks);
    let total = ordered.len() as int;
    let start = initial_state(context);
    let all = after_blocks(start, ordered, Some(metadata), context, total);
    further_blocks_keep(start, ordered, Some(metadata), context, count, total);
    let keys = ordered_keys(all.topics);
    package_aliases_keep(all, keys, metadata.package@, keys.len() as int);
}

/// A tag with the value `NULL` suppresses the default of its field, whatever
/// else its block and the blocks before it say.
pub proof fn null_suppresses_a_default(
    states: Map<Seq<char>, PackageFallbackState>,
    key: Seq<char>,
    tags: Seq<ParsedTag>,
    i: int,
)
    requires
        0 <= i < tags.len(),
    ensures
        tags[i] matches ParsedTag::Title(tag) && is_suppressed(tag) ==> suppression_state(
            states,
            key,
            tags,
        ).title_suppressed,
        tags[i] matches ParsedTag::Description(tag) && is_suppressed(tag) ==> suppression_state(
            states,
            key,
            tags,
        ).description_suppressed,
        tags[i] matches ParsedTag::SeeAlso(tag) && is_suppressed(tag) ==> suppression_state(
            states,
            key,
            tags,
        ).see_also_suppressed,
        tags[i] matches ParsedTag::Author(tag) && is_suppressed(tag) ==> suppression_state(
            states,
            key,
            tags,
        ).author_suppressed,
{
    reveal(suppression_state);
    let state = match entry(states, key) {
        Some(state) => state,
        None => no_fallback(),
    };
    later_tags_keep_suppressions(state, tags, i + 1, tags.len() as int);
}

/// Further tags of a block keep what it suppresses.
proof fn later_tags_keep_suppressions(
    state: PackageFallbackState,
    tags: Seq<ParsedTag>,
    from: int,
    to: int,
)
    requires
        from <= to,
    ensures
        suppresses_no_less(
            after_suppressions(state, tags, from),
            after_suppressions(state, tags, to),
        ),
    decreases to - from,
{
    if from < to {
        later_tags_keep_suppressions(state, tags, from, to - 1);
    }
}

/// `@examples` and `@examplesIf` share one field: the first of either kind is
/// kept, and every further one is reported once.
pub proof fn examples_share_one_field(before: TagState, tag: TagValue<ExamplesContent>)
    requires
        before.state.topic.examples is Some,
    ensures
        with_examples(before, tag).state.topic == before.state.topic,
        with_examples(before, tag).reports().len() == before.reports().len() + 1,
{
}

/// A function whose registration is left to load time has a method, or what
/// keeps it from having one is reported.
pub proof fn delayed_methods_are_settled(
    context: ContextView,
    block: DocumentedBlock,
    declared: Option<MethodDeclaration>,
)
    requires
        block.target is FunctionAssignment,
        null_export_from(block.tags@, 0) is Some,
        declared is Some == method_from(block.tags@, 0) is Some,
    ensures
        block_method(context, block, declared) is Some || registration_checks(context, block).len()
            > 0,
{
    reveal(registration_checks);
}

} // verus!
