//! Laws of how whole blocks join topics.
use crate::diagnostic::DiagnosticCode;
use crate::model::ir::{DocumentedBlock, RdTopicKind};
use crate::model::lookup::{method_from, name_from, order_from, rdname_from};
use crate::model::merge::assembly::{
    after_block, after_object_block, after_package_aliases, after_package_block, block_requests,
    primary_identity, topic_key, with_default_aliases, with_first_name, with_package_alias,
    with_package_start, MergeView,
};
use crate::model::merge::block::{after_tags, block_le, with_alias, with_kind, TagState, TopicState};
use crate::model::merge::contribution::{
    block_formals, block_usage, completed, joined, merged, usage_from, ContextView,
};
use crate::model::merge::laws::{
    alias_is_careful, begins_with, careful_reflexive, careful_step, careful_transitive,
    default_aliases_are_careful, kind_is_careful, merging_is_careful, tags_are_careful,
};
use crate::model::view::{AliasView, TopicView};
use crate::package::PackageMetadata;
use crate::r_parse::{BlockTarget, PackageSentinel};
use crate::source::Span;
use crate::tags::{DefaultAliasPolicy, ParsedTag};
use vstd::prelude::*;

use super::tag_effects::{describes, every_param_name_is_described, keywords_are_collected};

verus! {

/// Whether a tag is the first of its kind: no tag before it is of the kind.
pub open spec fn is_first(tags: Seq<ParsedTag>, i: int, kind: spec_fn(ParsedTag) -> bool) -> bool {
    &&& 0 <= i < tags.len()
    &&& kind(tags[i])
    &&& forall|k: int| 0 <= k < i ==> !kind(#[trigger] tags[k])
}

/// Whether no tag is of a kind.
pub open spec fn has_none(tags: Seq<ParsedTag>, kind: spec_fn(ParsedTag) -> bool) -> bool {
    forall|k: int| 0 <= k < tags.len() ==> !kind(#[trigger] tags[k])
}

proof fn names_from(tags: Seq<ParsedTag>, i: int, from: int)
    requires
        0 <= from,
    ensures
        is_first(tags, i, |tag: ParsedTag| tag is Name) && from <= i ==> name_from(tags, from)
            == Some(tags[i]->Name_0),
        has_none(tags, |tag: ParsedTag| tag is Name) ==> name_from(tags, from) is None,
    decreases tags.len() - from,
{
    if from < tags.len() {
        names_from(tags, i, from + 1);
        let kind = |tag: ParsedTag| tag is Name;
        if is_first(tags, i, |tag: ParsedTag| tag is Name) && from < i {
            assert(!kind(tags[from]));
        }
        if has_none(tags, |tag: ParsedTag| tag is Name) {
            assert(!kind(tags[from]));
        }
    }
}

proof fn rdnames_from(tags: Seq<ParsedTag>, i: int, from: int)
    requires
        0 <= from,
    ensures
        is_first(tags, i, |tag: ParsedTag| tag is RdName) && from <= i ==> rdname_from(tags, from)
            == Some(tags[i]->RdName_0),
        has_none(tags, |tag: ParsedTag| tag is RdName) ==> rdname_from(tags, from) is None,
    decreases tags.len() - from,
{
    if from < tags.len() {
        rdnames_from(tags, i, from + 1);
        let kind = |tag: ParsedTag| tag is RdName;
        if is_first(tags, i, |tag: ParsedTag| tag is RdName) && from < i {
            assert(!kind(tags[from]));
        }
        if has_none(tags, |tag: ParsedTag| tag is RdName) {
            assert(!kind(tags[from]));
        }
    }
}

/// The first `@name`, `@rdname`, `@order`, `@method` and `@usage` of a block count, and a
/// block without such a tag has none.
pub proof fn first_tags_count(tags: Seq<ParsedTag>, i: int)
    ensures
        is_first(tags, i, |tag: ParsedTag| tag is Name) ==> name_from(tags, 0) == Some(
            tags[i]->Name_0,
        ),
        has_none(tags, |tag: ParsedTag| tag is Name) ==> name_from(tags, 0) is None,
        is_first(tags, i, |tag: ParsedTag| tag is RdName) ==> rdname_from(tags, 0) == Some(
            tags[i]->RdName_0,
        ),
        has_none(tags, |tag: ParsedTag| tag is RdName) ==> rdname_from(tags, 0) is None,
        is_first(tags, i, |tag: ParsedTag| tag is Order) ==> order_from(tags, 0) == Some(
            tags[i]->Order_value,
        ),
        has_none(tags, |tag: ParsedTag| tag is Order) ==> order_from(tags, 0) is None,
        is_first(tags, i, |tag: ParsedTag| tag is Usage) ==> usage_from(tags, 0) == Some(
            tags[i]->Usage_0,
        ),
        has_none(tags, |tag: ParsedTag| tag is Usage) ==> usage_from(tags, 0) is None,
        is_first(tags, i, |tag: ParsedTag| tag is Method) ==> (method_from(tags, 0) matches Some(
            method,
        ) && method.generic == tags[i]->Method_generic && method.class == tags[i]->Method_class
            && method.origin == tags[i]->Method_origin),
        has_none(tags, |tag: ParsedTag| tag is Method) ==> method_from(tags, 0) is None,
{
    names_from(tags, i, 0);
    rdnames_from(tags, i, 0);
    orders_from(tags, i, 0);
    usages_from(tags, i, 0);
    methods_from(tags, i, 0);
}

proof fn orders_from(tags: Seq<ParsedTag>, i: int, from: int)
    requires
        0 <= from,
    ensures
        is_first(tags, i, |tag: ParsedTag| tag is Order) && from <= i ==> order_from(tags, from)
            == Some(tags[i]->Order_value),
        has_none(tags, |tag: ParsedTag| tag is Order) ==> order_from(tags, from) is None,
    decreases tags.len() - from,
{
    if from < tags.len() {
        orders_from(tags, i, from + 1);
        let kind = |tag: ParsedTag| tag is Order;
        if is_first(tags, i, |tag: ParsedTag| tag is Order) && from < i {
            assert(!kind(tags[from]));
        }
        if has_none(tags, |tag: ParsedTag| tag is Order) {
            assert(!kind(tags[from]));
        }
    }
}

proof fn usages_from(tags: Seq<ParsedTag>, i: int, from: int)
    requires
        0 <= from,
    ensures
        is_first(tags, i, |tag: ParsedTag| tag is Usage) && from <= i ==> usage_from(tags, from)
            == Some(tags[i]->Usage_0),
        has_none(tags, |tag: ParsedTag| tag is Usage) ==> usage_from(tags, from) is None,
    decreases tags.len() - from,
{
    if from < tags.len() {
        usages_from(tags, i, from + 1);
        let kind = |tag: ParsedTag| tag is Usage;
        if is_first(tags, i, |tag: ParsedTag| tag is Usage) && from < i {
            assert(!kind(tags[from]));
        }
        if has_none(tags, |tag: ParsedTag| tag is Usage) {
            assert(!kind(tags[from]));
        }
    }
}

proof fn methods_from(tags: Seq<ParsedTag>, i: int, from: int)
    requires
        0 <= from,
    ensures
        is_first(tags, i, |tag: ParsedTag| tag is Method) && from <= i ==> (method_from(
            tags,
            from,
        ) matches Some(method) && method.generic == tags[i]->Method_generic && method.class
            == tags[i]->Method_class && method.origin == tags[i]->Method_origin),
        has_none(tags, |tag: ParsedTag| tag is Method) ==> method_from(tags, from) is None,
    decreases tags.len() - from,
{
    if from < tags.len() {
        methods_from(tags, i, from + 1);
        let kind = |tag: ParsedTag| tag is Method;
        if is_first(tags, i, |tag: ParsedTag| tag is Method) && from < i {
            assert(!kind(tags[from]));
        }
        if has_none(tags, |tag: ParsedTag| tag is Method) {
            assert(!kind(tags[from]));
        }
    }
}

/// The name that the object of a block has, and where it is spelled: that of an assigned
/// object, or of data.
pub open spec fn object_is(target: BlockTarget, name: Seq<char>, span: Span) -> bool {
    match target {
        BlockTarget::FunctionAssignment(function) => function.name.canonical@ == name
            && function.name.spelling == span,
        BlockTarget::ValueAssignment(value) => value.name.canonical@ == name
            && value.name.spelling == span,
        BlockTarget::DataObject(data) => data.name.value@ == name && data.name.span == span,
        _ => false,
    }
}

/// Whether a block asks for a topic: nothing silences it and one of its tags documents.
pub open spec fn asks_for_topic(tags: Seq<ParsedTag>) -> bool {
    &&& has_none(tags, |tag: ParsedTag| tag is NoRd)
    &&& exists|i: int|
        0 <= i < tags.len() && (#[trigger] tags[i] is Title || tags[i] is Description || tags[i]
            is Details || tags[i] is Return || tags[i] is Param || tags[i] is Examples || tags[i]
            is Name || tags[i] is RdName || tags[i] is Inherit)
}

/// Whether a block has joined the topic of a key, and no other topic has changed.
pub open spec fn has_joined(
    before: MergeView,
    after: MergeView,
    key: Seq<char>,
    block: DocumentedBlock,
) -> bool {
    &&& after.topics.dom() == before.topics.dom().insert(key)
    &&& forall|other: Seq<char>|
        other != key && #[trigger] before.topics.dom().contains(other) ==> after.topics[other]
            == before.topics[other]
    &&& after.topics[key].blocks.len() > 0
    &&& after.topics[key].blocks.last() == block.block
    &&& before.topics.dom().contains(key) ==> after.topics[key].blocks.drop_last()
        == before.topics[key].blocks
    &&& !before.topics.dom().contains(key) ==> after.topics[key].blocks.len() == 1
}

proof fn asking_blocks_want_topics(tags: Seq<ParsedTag>)
    requires
        asks_for_topic(tags),
    ensures
        crate::model::merge::block::wants_topic(tags),
        !crate::model::lookup::silences_rd(tags),
{
    let kind = |tag: ParsedTag| tag is NoRd;
    assert forall|k: int| 0 <= k < tags.len() implies !(#[trigger] tags[k] is NoRd) by {
        assert(!kind(tags[k]));
    }
}

proof fn object_blocks_join(
    state: MergeView,
    block: DocumentedBlock,
    metadata: Option<PackageMetadata>,
    context: ContextView,
    primary: AliasView,
)
    requires
        asks_for_topic(block.tags@),
        !(block.target is PackageDocumentation),
        !(block.target is Refused),
        primary_identity(block) == Some(primary),
    ensures
        has_joined(
            state,
            after_block(state, block, metadata, context),
            topic_key(block, primary.name),
            block,
        ),
        !state.topics.dom().contains(topic_key(block, primary.name)) ==> after_block(
            state,
            block,
            metadata,
            context,
        ).topics[topic_key(block, primary.name)].name == primary.name,
{
    reveal(after_object_block);
    asking_blocks_want_topics(block.tags@);
    let after = after_block(state, block, metadata, context);
    let key = topic_key(block, primary.name);
    let requested = MergeView {
        namespace: state.namespace + block_requests(block, block.tags@.len() as int),
        ..state
    };
    let checked = requested.and_reports(
        crate::model::merge::assembly::registration_checks(context, block),
    );
    let named = with_first_name(checked.topic_state(key), primary.name);
    default_aliases_are_careful(named, key, block, primary);
    let aliased = with_default_aliases(named, key, block, primary);
    merging_is_careful(aliased, key, block, context);
    assert(after.topics[key] == merged(aliased, key, block, context).topic);
    assert(after.topics[key].blocks.drop_last() =~= checked.topic_state(key).topic.blocks);
    assert(after.topics.dom() =~= state.topics.dom().insert(key));
}

/// A block joins the topic of its first `@rdname`, whatever else names it.
pub proof fn rdname_decides_the_topic(
    state: MergeView,
    block: DocumentedBlock,
    metadata: Option<PackageMetadata>,
    context: ContextView,
    i: int,
    name: Seq<char>,
    span: Span,
)
    requires
        asks_for_topic(block.tags@),
        object_is(block.target, name, span),
        is_first(block.tags@, i, |tag: ParsedTag| tag is RdName),
    ensures
        has_joined(
            state,
            after_block(state, block, metadata, context),
            block.tags@[i]->RdName_0.value@,
            block,
        ),
{
    first_tags_count(block.tags@, i);
    object_blocks_join(state, block, metadata, context, primary_identity(block)->0);
}

/// A block without `@rdname` joins the topic of its first `@name`, and a new topic is
/// shown under that name.
pub proof fn name_decides_the_topic(
    state: MergeView,
    block: DocumentedBlock,
    metadata: Option<PackageMetadata>,
    context: ContextView,
    i: int,
)
    requires
        asks_for_topic(block.tags@),
        !(block.target is PackageDocumentation),
        !(block.target is Refused),
        has_none(block.tags@, |tag: ParsedTag| tag is RdName),
        is_first(block.tags@, i, |tag: ParsedTag| tag is Name),
    ensures
        ({
            let after = after_block(state, block, metadata, context);
            let key = block.tags@[i]->Name_0.value@;
            &&& has_joined(state, after, key, block)
            &&& !state.topics.dom().contains(key) ==> after.topics[key].name == key
        }),
{
    first_tags_count(block.tags@, i);
    object_blocks_join(state, block, metadata, context, primary_identity(block)->0);
}

/// A block without `@rdname` and `@name` joins the topic of its object, and a new topic is
/// shown under the name of the object.
pub proof fn the_object_decides_the_topic(
    state: MergeView,
    block: DocumentedBlock,
    metadata: Option<PackageMetadata>,
    context: ContextView,
    name: Seq<char>,
    span: Span,
)
    requires
        asks_for_topic(block.tags@),
        object_is(block.target, name, span),
        has_none(block.tags@, |tag: ParsedTag| tag is RdName),
        has_none(block.tags@, |tag: ParsedTag| tag is Name),
    ensures
        ({
            let after = after_block(state, block, metadata, context);
            &&& has_joined(state, after, name, block)
            &&& !state.topics.dom().contains(name) ==> after.topics[name].name == name
        }),
{
    first_tags_count(block.tags@, 0);
    object_blocks_join(state, block, metadata, context, primary_identity(block)->0);
}

/// A block that asks for a topic and has neither a name nor an object changes no topic, and
/// is reported.
pub proof fn nameless_blocks_are_reported(
    state: MergeView,
    block: DocumentedBlock,
    metadata: Option<PackageMetadata>,
    context: ContextView,
)
    requires
        asks_for_topic(block.tags@),
        block.target is Null || block.target is Call,
        has_none(block.tags@, |tag: ParsedTag| tag is Name),
    ensures
        ({
            let after = after_block(state, block, metadata, context);
            &&& after.topics == state.topics
            &&& after.ledger.diagnostics.len() > state.ledger.diagnostics.len()
            &&& after.ledger.diagnostics.last().code == DiagnosticCode::MissingTopicIdentity
        }),
{
    first_tags_count(block.tags@, 0);
    asking_blocks_want_topics(block.tags@);
}

/// A block that documents the package joins the topic of its first `@rdname`, or else that
/// of the package's name and `-package`, which is a package topic unless data is documented
/// there. Without metadata it changes no topic and is reported.
pub proof fn package_blocks_join(
    state: MergeView,
    block: DocumentedBlock,
    metadata: PackageMetadata,
    context: ContextView,
    sentinel: PackageSentinel,
    i: int,
)
    requires
        block.target == BlockTarget::PackageDocumentation(sentinel),
        has_none(block.tags@, |tag: ParsedTag| tag is NoRd),
    ensures
        is_first(block.tags@, i, |tag: ParsedTag| tag is RdName) ==> has_joined(
            state,
            after_block(state, block, Some(metadata), context),
            block.tags@[i]->RdName_0.value@,
            block,
        ),
        has_none(block.tags@, |tag: ParsedTag| tag is RdName) ==> has_joined(
            state,
            after_block(state, block, Some(metadata), context),
            metadata.package@ + "-package"@,
            block,
        ),
        after_block(state, block, None, context).topics == state.topics,
        after_block(state, block, None, context).ledger.diagnostics.last().code
            == DiagnosticCode::PackageDocumentationUnsupported,
{
    reveal(after_package_block);
    first_tags_count(block.tags@, i);
    let kind = |tag: ParsedTag| tag is NoRd;
    assert forall|k: int| 0 <= k < block.tags@.len() implies !(#[trigger] block.tags@[k] is NoRd) by {
        assert(!kind(block.tags@[k]));
    }
    let after = after_block(state, block, Some(metadata), context);
    let key = topic_key(block, metadata.package@ + "-package"@);
    let requested = MergeView {
        namespace: state.namespace + block_requests(block, block.tags@.len() as int),
        ..state
    };
    let checked = requested.and_reports(
        crate::model::merge::assembly::registration_checks(context, block),
    );
    let start = checked.topic_state(key);
    let name = crate::model::merge::assembly::package_topic_name(block, metadata);
    let titled = with_first_name(start, name);
    let kinded = with_kind(titled, key, RdTopicKind::Package, sentinel.span);
    kind_is_careful(titled, key, RdTopicKind::Package, sentinel.span);
    if let Some(value) = name_from(block.tags@, 0) {
        alias_is_careful(
            kinded,
            key,
            AliasView {
                name: value.value@,
                span: crate::model::identity::reported_span(value.origin),
            },
        );
    }
    let opened = with_package_start(start, key, block, sentinel, metadata);
    merging_is_careful(opened, key, block, context);
    assert(after.topics[key] == merged(opened, key, block, context).topic);
    assert(after.topics[key].blocks.drop_last() =~= start.topic.blocks);
    assert(after.topics.dom() =~= state.topics.dom().insert(key));
}

/// The kind of a topic: the first kind of contribution stays, but where both a package and
/// data are documented it is a package topic, and that is an error once.
pub proof fn kinds_of_topics(state: TopicState, key: Seq<char>, kind: RdTopicKind, span: Span)
    requires
        kind == RdTopicKind::Package || kind == RdTopicKind::Data,
    ensures
        ({
            let after = with_kind(state, key, kind, span);
            &&& state.topic.kind_origin is None ==> after.topic.kind == kind
                && after.topic.kind_origin is Some && after.topic.kind_origin->0.kind == kind
                && after.topic.kind_origin->0.span == span && after.ledger == state.ledger
            &&& state.topic.kind_origin matches Some(first) ==> first.kind != kind && (first.kind
                == RdTopicKind::Package || first.kind == RdTopicKind::Data) ==> after.topic.kind
                == RdTopicKind::Package && (if state.topic.kind_conflict_reported {
                after.ledger == state.ledger
            } else {
                after.ledger.diagnostics.len() == state.ledger.diagnostics.len() + 1
                    && after.ledger.diagnostics.last().code == DiagnosticCode::ConflictingTopicKind
            })
            &&& state.topic.kind_origin matches Some(first) ==> first.kind == kind
                && !state.topic.kind_conflict_reported ==> after.topic.kind == kind && after.ledger
                == state.ledger
        }),
{
    reveal(with_kind);
}

/// Blocks with `@order` come first, by its value; the rest follows the source: by file,
/// then by place.
pub proof fn blocks_are_ordered(a: DocumentedBlock, b: DocumentedBlock, i: int, j: int)
    ensures
        is_first(a.tags@, i, |tag: ParsedTag| tag is Order) && has_none(
            b.tags@,
            |tag: ParsedTag| tag is Order,
        ) ==> block_le(a, b) && !block_le(b, a),
        is_first(a.tags@, i, |tag: ParsedTag| tag is Order) && is_first(
            b.tags@,
            j,
            |tag: ParsedTag| tag is Order,
        ) && a.tags@[i]->Order_value < b.tags@[j]->Order_value ==> block_le(a, b) && !block_le(
            b,
            a,
        ),
        has_none(a.tags@, |tag: ParsedTag| tag is Order) && has_none(
            b.tags@,
            |tag: ParsedTag| tag is Order,
        ) && a.block.file.id < b.block.file.id ==> block_le(a, b) && !block_le(b, a),
        has_none(a.tags@, |tag: ParsedTag| tag is Order) && has_none(
            b.tags@,
            |tag: ParsedTag| tag is Order,
        ) && a.block.file.id == b.block.file.id && a.block_span.range.from
            < b.block_span.range.from ==> block_le(a, b) && !block_le(b, a),
{
    first_tags_count(a.tags@, i);
    first_tags_count(b.tags@, j);
}

/// The namespace tags of a block.
pub open spec fn namespace_tags(tags: Seq<ParsedTag>) -> Seq<ParsedTag> {
    tags.filter(|tag: ParsedTag| tag is Namespace)
}

/// Every namespace tag of a block is a request, in their order, also where the block makes no
/// topic. The request carries the tag, the block, its object and its first `@method`.
pub proof fn every_namespace_tag_is_requested(
    state: MergeView,
    block: DocumentedBlock,
    metadata: Option<PackageMetadata>,
    context: ContextView,
)
    ensures
        ({
            let new = block_requests(block, block.tags@.len() as int);
            let tags = namespace_tags(block.tags@);
            &&& after_block(state, block, metadata, context).namespace == state.namespace + new
            &&& new.len() == tags.len()
            &&& forall|k: int|
                0 <= k < new.len() ==> ParsedTag::Namespace((#[trigger] new[k]).tag) == tags[k]
                    && new[k].block == block.block && new[k].method == method_from(block.tags@, 0)
                    && (new[k].object_is_function <==> block.target is FunctionAssignment)
            &&& forall|k: int|
                0 <= k < new.len() ==> match block.target {
                    BlockTarget::FunctionAssignment(function) => (#[trigger] new[k]).object == Some(
                        function.name.canonical,
                    ) && new[k].object_spelling == Some(function.name.spelling),
                    BlockTarget::ValueAssignment(value) => new[k].object == Some(
                        value.name.canonical,
                    ) && new[k].object_spelling == Some(value.name.spelling),
                    _ => new[k].object is None && new[k].object_spelling is None,
                }
        }),
{
    reveal(after_package_block);
    reveal(after_object_block);
    requests_so_far(block, block.tags@.len() as int);
    assert(block.tags@.take(block.tags@.len() as int) =~= block.tags@);
}

proof fn requests_so_far(block: DocumentedBlock, count: int)
    requires
        0 <= count <= block.tags@.len(),
    ensures
        ({
            let new = block_requests(block, count);
            let tags = namespace_tags(block.tags@.take(count));
            &&& new.len() == tags.len()
            &&& forall|k: int|
                0 <= k < new.len() ==> ParsedTag::Namespace((#[trigger] new[k]).tag) == tags[k]
                    && new[k].block == block.block && new[k].method == method_from(block.tags@, 0)
                    && (new[k].object_is_function <==> block.target is FunctionAssignment)
            &&& forall|k: int|
                0 <= k < new.len() ==> match block.target {
                    BlockTarget::FunctionAssignment(function) => (#[trigger] new[k]).object == Some(
                        function.name.canonical,
                    ) && new[k].object_spelling == Some(function.name.spelling),
                    BlockTarget::ValueAssignment(value) => new[k].object == Some(
                        value.name.canonical,
                    ) && new[k].object_spelling == Some(value.name.spelling),
                    _ => new[k].object is None && new[k].object_spelling is None,
                }
        }),
    decreases count,
{
    reveal(Seq::filter);
    if count > 0 {
        requests_so_far(block, count - 1);
        assert(block.tags@.take(count).drop_last() =~= block.tags@.take(count - 1));
        assert(block.tags@.take(count).last() == block.tags@[count - 1]);
    }
}

/// What a block does before its tags: it is listed, with the formals of its object; data makes
/// a data topic, and the first data without a format is noted. Nothing else changes.
pub proof fn blocks_join_first(
    state: TopicState,
    key: Seq<char>,
    block: DocumentedBlock,
    context: ContextView,
)
    ensures
        ({
            let after = joined(state, key, block, context);
            &&& after.topic.blocks == state.topic.blocks.push(block.block)
            &&& after.topic.formals == state.topic.formals.push(block_formals(context, block))
            &&& !(block.target is DataObject) ==> after.ledger == state.ledger && after.topic == (
            TopicView {
                blocks: after.topic.blocks,
                formals: after.topic.formals,
                ..state.topic
            })
            &&& block.target matches BlockTarget::DataObject(data) ==> after.topic.kind
                == with_kind(state, key, RdTopicKind::Data, data.name.span).topic.kind
                && after.topic.missing_data_format_span == (
            if state.topic.missing_data_format_span is Some || !has_none(
                block.tags@,
                |tag: ParsedTag| tag is Format,
            ) {
                state.topic.missing_data_format_span
            } else {
                Some(data.name.span)
            }) && after.topic == (TopicView {
                blocks: after.topic.blocks,
                formals: after.topic.formals,
                kind: after.topic.kind,
                kind_origin: after.topic.kind_origin,
                kind_conflict_reported: after.topic.kind_conflict_reported,
                missing_data_format_span: after.topic.missing_data_format_span,
                ..state.topic
            })
        }),
{
    reveal(joined);
    reveal(with_kind);
    let kind = |tag: ParsedTag| tag is Format;
    if has_none(block.tags@, |tag: ParsedTag| tag is Format) {
        assert forall|i: int| 0 <= i < block.tags@.len() implies !(
        #[trigger] block.tags@[i] is Format) by {
            assert(!kind(block.tags@[i]));
        }
    }
}

/// The state that the tags of a block are applied to.
pub open spec fn tags_start(
    state: TopicState,
    key: Seq<char>,
    block: DocumentedBlock,
    context: ContextView,
) -> TagState {
    TagState {
        state: joined(state, key, block, context),
        slots: Seq::empty(),
        usage_origin: None,
        method: None,
    }
}

/// All tags of a block are applied. Behind them only its usage is added, and the keyword
/// `datasets` for data, unless the block suppresses keywords.
pub proof fn blocks_apply_all_their_tags(
    state: TopicState,
    key: Seq<char>,
    block: DocumentedBlock,
    context: ContextView,
)
    ensures
        ({
            let after = merged(state, key, block, context).topic;
            let applied = after_tags(
                tags_start(state, key, block, context),
                key,
                block.tags@,
                block.tags@.len() as int,
            ).state.topic;
            &&& after == (TopicView {
                keywords: after.keywords,
                usages: after.usages,
                ..applied
            })
            &&& after.usages.len() == applied.usages.len() + 1
            &&& after.usages.last().usage == block_usage(context, block)
            &&& !(block.target is DataObject) ==> after.keywords == applied.keywords
            &&& block.target is DataObject && has_none(
                block.tags@,
                |tag: ParsedTag| tag is Keywords,
            ) ==> after.keywords.contains("datasets"@) && begins_with(
                after.keywords,
                applied.keywords,
            ) && after.keywords.len() <= applied.keywords.len() + 1
        }),
{
    reveal(merged);
    reveal(completed);
    let applied = after_tags(
        tags_start(state, key, block, context),
        key,
        block.tags@,
        block.tags@.len() as int,
    ).state.topic;
    let after = merged(state, key, block, context).topic;
    let kind = |tag: ParsedTag| tag is Keywords;
    if has_none(block.tags@, |tag: ParsedTag| tag is Keywords) {
        assert forall|i: int| 0 <= i < block.tags@.len() implies
            !crate::model::merge::contribution::drops_keywords(#[trigger] block.tags@[i]) by {
            assert(!kind(block.tags@[i]));
        }
        if block.target is DataObject && !applied.keywords.contains("datasets"@) {
            assert(after.keywords.last() == "datasets"@);
        }
    }
}

proof fn later_tags_keep(
    before: TagState,
    key: Seq<char>,
    tags: Seq<ParsedTag>,
    from: int,
    to: int,
)
    requires
        0 <= from <= to,
    ensures
        careful_step(
            after_tags(before, key, tags, from).state,
            after_tags(before, key, tags, to).state,
        ),
    decreases to - from,
{
    if from == to {
        careful_reflexive(after_tags(before, key, tags, from).state);
    } else {
        later_tags_keep(before, key, tags, from, to - 1);
        let middle = after_tags(before, key, tags, to - 1);
        tags_are_careful(middle, key, tags[to - 1]);
        careful_transitive(
            after_tags(before, key, tags, from).state,
            middle.state,
            after_tags(before, key, tags, to).state,
        );
    }
}

/// Every name of every `@param` of a block is described in its topic.
pub proof fn every_param_of_a_block_is_described(
    state: TopicState,
    key: Seq<char>,
    block: DocumentedBlock,
    context: ContextView,
    i: int,
    k: int,
)
    requires
        0 <= i < block.tags@.len(),
        block.tags@[i] is Param,
        0 <= k < block.tags@[i]->Param_names@.len(),
    ensures
        describes(
            merged(state, key, block, context).topic,
            block.tags@[i]->Param_names@[k].value.0@,
        ),
{
    let start = tags_start(state, key, block, context);
    let tags = block.tags@;
    let names = tags[i]->Param_names;
    let name = names@[k].value.0@;
    every_param_name_is_described(
        after_tags(start, key, tags, i),
        key,
        names,
        tags[i]->Param_description,
        tags[i]->Param_origin,
    );
    let here = after_tags(start, key, tags, i + 1).state.topic;
    assert(describes(here, name));
    later_tags_keep(start, key, tags, i + 1, tags.len() as int);
    let there = after_tags(start, key, tags, tags.len() as int).state.topic;
    blocks_apply_all_their_tags(state, key, block, context);
    let at = choose|at: int|
        0 <= at < here.params.len() && (#[trigger] here.params[at]).name.0@ == name;
    assert(there.params[at] == here.params[at]);
    assert(merged(state, key, block, context).topic.params[at].name.0@ == name);
}

/// Every keyword that a block lists is a keyword of its topic.
pub proof fn every_keyword_of_a_block_is_listed(
    state: TopicState,
    key: Seq<char>,
    block: DocumentedBlock,
    context: ContextView,
    i: int,
    k: int,
)
    requires
        0 <= i < block.tags@.len(),
        block.tags@[i] is Keywords,
        block.tags@[i]->Keywords_0.value is Emit,
        0 <= k < block.tags@[i]->Keywords_0.value->Emit_0@.len(),
    ensures
        merged(state, key, block, context).topic.keywords.contains(
            block.tags@[i]->Keywords_0.value->Emit_0@[k].value.0@,
        ),
{
    let start = tags_start(state, key, block, context);
    let tags = block.tags@;
    let tag = tags[i]->Keywords_0;
    let keywords = tag.value->Emit_0;
    let keyword = keywords@[k].value.0@;
    keywords_are_collected(after_tags(start, key, tags, i), key, tag, keywords);
    let here = after_tags(start, key, tags, i + 1).state.topic;
    assert(here.keywords.contains(keyword));
    later_tags_keep(start, key, tags, i + 1, tags.len() as int);
    let there = after_tags(start, key, tags, tags.len() as int).state.topic;
    merging_keeps_keywords(state, key, block, context);
    let at = here.keywords.index_of(keyword);
    assert(there.keywords[at] == keyword);
    assert(merged(state, key, block, context).topic.keywords[at] == keyword);
}

proof fn merging_keeps_keywords(
    state: TopicState,
    key: Seq<char>,
    block: DocumentedBlock,
    context: ContextView,
)
    ensures
        begins_with(
            merged(state, key, block, context).topic.keywords,
            after_tags(
                tags_start(state, key, block, context),
                key,
                block.tags@,
                block.tags@.len() as int,
            ).state.topic.keywords,
        ),
{
    reveal(merged);
    reveal(completed);
}

/// A topic lists the name of a block's object as an alias, and its `@name` where it has one,
/// unless the block switches default aliases off.
pub proof fn objects_are_aliases(
    state: TopicState,
    key: Seq<char>,
    block: DocumentedBlock,
    primary: AliasView,
    name: Seq<char>,
    span: Span,
)
    requires
        object_is(block.target, name, span),
        primary_identity(block) == Some(primary),
    ensures
        ({
            let after = with_default_aliases(state, key, block, primary);
            let off = exists|i: int|
                0 <= i < block.tags@.len() && (#[trigger] block.tags@[i] matches ParsedTag::Aliases(
                    directive,
                ) && directive.value.defaults == DefaultAliasPolicy::Suppress);
            &&& off ==> after == state
            &&& !off ==> lists_alias(after.topic, primary.name) && lists_alias(after.topic, name)
            &&& has_none(block.tags@, |tag: ParsedTag| tag is Name) ==> primary.name == name
        }),
{
    reveal(with_alias);
    first_tags_count(block.tags@, 0);
    let after = with_default_aliases(state, key, block, primary);
    let off = exists|i: int|
        0 <= i < block.tags@.len() && (#[trigger] block.tags@[i] matches ParsedTag::Aliases(
            directive,
        ) && directive.value.defaults == DefaultAliasPolicy::Suppress);
    assert(off == crate::model::lookup::without_default_aliases(block.tags@)) by {
        if off {
            let i = choose|i: int|
                0 <= i < block.tags@.len() && (#[trigger] block.tags@[i] matches ParsedTag::Aliases(
                    directive,
                ) && directive.value.defaults == DefaultAliasPolicy::Suppress);
            assert(crate::model::lookup::drops_default_aliases(block.tags@[i]));
        }
        if crate::model::lookup::without_default_aliases(block.tags@) {
            let i = choose|i: int|
                0 <= i < block.tags@.len() && crate::model::lookup::drops_default_aliases(
                    #[trigger] block.tags@[i],
                );
            assert(block.tags@[i] is Aliases);
        }
    }
    if !off {
        let named = with_alias(state, key, primary);
        claimed_alias_is_listed(state, key, primary);
        let other = AliasView { name, span };
        if after != named {
            claimed_alias_is_listed(named, key, other);
        }
    }
}

/// Whether a topic lists an alias.
pub open spec fn lists_alias(topic: TopicView, name: Seq<char>) -> bool {
    exists|i: int| 0 <= i < topic.aliases.len() && (#[trigger] topic.aliases[i]).name == name
}

proof fn claimed_alias_is_listed(state: TopicState, key: Seq<char>, alias: AliasView)
    ensures
        lists_alias(with_alias(state, key, alias).topic, alias.name),
        forall|name: Seq<char>| #[trigger]
            lists_alias(state.topic, name) ==> lists_alias(
                with_alias(state, key, alias).topic,
                name,
            ),
{
    reveal(with_alias);
    let after = with_alias(state, key, alias).topic;
    if after.aliases.len() > state.topic.aliases.len() {
        assert(after.aliases[after.aliases.len() - 1].name == alias.name);
    }
    assert forall|name: Seq<char>| #[trigger] lists_alias(state.topic, name) implies lists_alias(
        after,
        name,
    ) by {
        let i = choose|i: int|
            0 <= i < state.topic.aliases.len() && (#[trigger] state.topic.aliases[i]).name == name;
        assert(after.aliases[i].name == name);
    }
}

/// A package topic gets the name of the package and its own key as aliases, unless its blocks
/// switch default aliases off or an ordinary topic has claimed the alias.
pub proof fn packages_are_aliases(
    state: MergeView,
    keys: Seq<Seq<char>>,
    package: Seq<char>,
    count: int,
)
    requires
        0 < count <= keys.len(),
    ensures
        ({
            let before = after_package_aliases(state, keys, package, count - 1);
            let after = after_package_aliases(state, keys, package, count);
            let key = keys[count - 1];
            &&& before.fallback.dom().contains(key) && before.fallback[key].default_aliases_enabled
                && before.fallback[key].default_alias_anchor is Some ==> ({
                let span = before.fallback[key].default_alias_anchor->0;
                after == with_package_alias(
                    with_package_alias(before, key, AliasView { name: package, span }),
                    key,
                    AliasView { name: key, span },
                )
            })
            &&& !before.fallback.dom().contains(key) ==> after == before
        }),
{
}

} // verus!
