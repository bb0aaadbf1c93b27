//! Merges one documented block into a topic.
use crate::diagnostic::{
    plain_diagnostic, Diagnostic, DiagnosticCode, DiagnosticView, Diagnostics, Label, LabelView,
    Severity,
};
use crate::model::identity::{origin_span, reported_span};
use crate::model::ir::{
    Alias, DocumentedBlock, InheritanceRequest, MethodDeclaration, NamedSection, ParamDescription,
    RdTopic, RdTopicKind, TopicKey, TopicKindOrigin,
};
use crate::model::lookup::{first_order, has_no_rd, opt_value, order_from, silences_rd};
use crate::model::slots::{
    duplicate_method, duplicate_tag, emit_duplicate, emit_duplicate_method, filler,
    reservation_reports, reserve_block_slot, reserved_slots, set_field, set_tag, BlockSlots,
    DuplicateSlotKind, SlotView,
};
use crate::model::view::{
    alias_views, keyword_texts, prose, prose_slot, AliasView, ProseView, TopicView,
};
use crate::source::{Span, Spanned};
use crate::tags::{
    ExamplesContent, FieldTag, FieldValue, Keyword, MarkdownText, ParamName, ParsedTag, TagOrigin,
    TagValue, UsageDirective,
};
use crate::text::{same_text, text3};
use vstd::prelude::*;

verus! {

/// Whether a tag makes its block produce an Rd topic.
pub open spec fn documents(tag: ParsedTag) -> bool {
    ||| tag is Description
    ||| tag is Param
    ||| tag is Return
    ||| tag is Title
    ||| tag is Examples
    ||| tag is Name
    ||| tag is RdName
    ||| tag is Details
    ||| tag is Inherit
}

/// Whether a block produces an Rd topic.
pub open spec fn wants_topic(tags: Seq<ParsedTag>) -> bool {
    !silences_rd(tags) && exists|i: int| 0 <= i < tags.len() && documents(#[trigger] tags[i])
}

/// Returns whether a block should produce an Rd topic, mirroring roxygen2's
/// `needs_doc`: the Rd-producing tag set is `description`, `param`, `return`,
/// `title`, `example`, `examples`, `name`, `rdname`, `details`, and `inherit`.
/// `@export` alone is namespace-only, while `@export` together with a title
/// produces both an Rd topic and a namespace request. `@inheritParams` and
/// `@inheritSection` alone produce no topic.
pub fn needs_doc(tags: &Vec<ParsedTag>) -> (r: bool)
    ensures
        r == wants_topic(tags@),
{
    if has_no_rd(tags) {
        return false;
    }
    let mut i: usize = 0;
    while i < tags.len()
        invariant
            i <= tags@.len(),
            !silences_rd(tags@),
            forall|k: int| 0 <= k < i ==> !documents(#[trigger] tags@[k]),
        decreases tags@.len() - i,
    {
        if matches!(
            &tags[i],
            ParsedTag::Description(_)
                | ParsedTag::Param { .. }
                | ParsedTag::Return(_)
                | ParsedTag::Title(_)
                | ParsedTag::Examples(_)
                | ParsedTag::Name(_)
                | ParsedTag::RdName(_)
                | ParsedTag::Details(_)
                | ParsedTag::Inherit { .. }
        ) {
            assert(documents(tags@[i as int]));
            return true;
        }
        i = i + 1;
    }
    false
}

/// Whether one block is merged no later than another: blocks with `@order`
/// come first, by its value, and the rest follows source order.
pub open spec fn block_le(a: DocumentedBlock, b: DocumentedBlock) -> bool {
    let x = order_from(a.tags@, 0);
    let y = order_from(b.tags@, 0);
    if x is Some != y is Some {
        x is Some
    } else if x is Some && x != y {
        x->0 < y->0
    } else if a.block.file.id != b.block.file.id {
        a.block.file.id < b.block.file.id
    } else if a.block_span.range.from != b.block_span.range.from {
        a.block_span.range.from < b.block_span.range.from
    } else {
        a.block.block.id <= b.block.block.id
    }
}

/// Whether one block is merged no later than another.
fn block_at_most(a: &DocumentedBlock, b: &DocumentedBlock) -> (r: bool)
    ensures
        r == block_le(*a, *b),
{
    let x = first_order(&a.tags);
    let y = first_order(&b.tags);
    match (x, y) {
        (Some(_), None) => {
            return true;
        },
        (None, Some(_)) => {
            return false;
        },
        (Some(m), Some(n)) => {
            if m != n {
                return m < n;
            }
        },
        (None, None) => {},
    }
    if a.block.file.id != b.block.file.id {
        a.block.file.id < b.block.file.id
    } else if a.block_span.range.from != b.block_span.range.from {
        a.block_span.range.from < b.block_span.range.from
    } else {
        a.block.block.id <= b.block.block.id
    }
}

/// A block put behind those that are merged no later.
pub open spec fn with_block(ordered: Seq<DocumentedBlock>, block: DocumentedBlock) -> Seq<
    DocumentedBlock,
>
    decreases ordered.len(),
{
    if ordered.len() == 0 || block_le(ordered.last(), block) {
        ordered.push(block)
    } else {
        with_block(ordered.drop_last(), block).push(ordered.last())
    }
}

/// Blocks in merge order. Blocks that the order does not tell apart keep
/// their places.
pub open spec fn in_merge_order(blocks: Seq<DocumentedBlock>) -> Seq<DocumentedBlock>
    decreases blocks.len(),
{
    if blocks.len() == 0 {
        Seq::empty()
    } else {
        with_block(in_merge_order(blocks.drop_last()), blocks.last())
    }
}

/// Puts a block behind those that are merged no later.
fn insert_block(ordered: &mut Vec<DocumentedBlock>, block: DocumentedBlock)
    ensures
        final(ordered)@ == with_block(old(ordered)@, block),
{
    let ghost shown = ordered@;
    let mut k: usize = ordered.len();
    proof {
        assert(shown.take(shown.len() as int) =~= shown);
        assert(with_block(shown, block) + shown.skip(shown.len() as int) =~= with_block(
            shown,
            block,
        ));
    }
    while k > 0 && !block_at_most(&ordered[k - 1], &block)
        invariant
            k <= ordered@.len(),
            ordered@ == shown,
            with_block(shown, block) == with_block(shown.take(k as int), block) + shown.skip(
                k as int,
            ),
        decreases k,
    {
        proof {
            let prefix = shown.take(k as int);
            assert(prefix.last() == shown[k - 1]);
            assert(prefix.drop_last() =~= shown.take(k - 1));
            assert(with_block(prefix.drop_last(), block).push(shown[k - 1]) + shown.skip(k as int)
                =~= with_block(shown.take(k - 1), block) + shown.skip(k - 1));
        }
        k = k - 1;
    }
    proof {
        if k > 0 {
            assert(shown.take(k as int).last() == shown[k - 1]);
        }
    }
    ordered.insert(k, block);
    proof {
        assert(ordered@ =~= shown.take(k as int).push(block) + shown.skip(k as int));
    }
}

/// Puts blocks in merge order.
pub fn sort_blocks(blocks: Vec<DocumentedBlock>) -> (r: Vec<DocumentedBlock>)
    ensures
        r@ == in_merge_order(blocks@),
{
    let ghost given = blocks@;
    let mut ordered: Vec<DocumentedBlock> = Vec::new();
    proof {
        assert(ordered@ =~= in_merge_order(given.take(0)));
    }
    for block in it: blocks
        invariant
            it.seq() == given,
            ordered@ == in_merge_order(given.take(it.index() as int)),
    {
        proof {
            let prefix = given.take(it.index() + 1);
            assert(prefix.drop_last() =~= given.take(it.index() as int));
            assert(prefix.last() == block);
        }
        insert_block(&mut ordered, block);
    }
    proof {
        assert(given.take(given.len() as int) =~= given);
    }
    ordered
}

/// Who claimed an alias first.
#[derive(Debug, PartialEq, Eq)]
pub struct AliasOwner {
    pub alias: String,
    pub key: TopicKey,
    pub span: Span,
}

/// The model of [`AliasOwner`].
pub struct OwnerView {
    pub alias: Seq<char>,
    pub key: Seq<char>,
    pub span: Span,
}

impl View for AliasOwner {
    type V = OwnerView;

    open spec fn view(&self) -> OwnerView {
        OwnerView { alias: self.alias@, key: self.key@, span: self.span }
    }
}

/// A method that a block of a topic declared first.
#[derive(Debug, PartialEq, Eq)]
pub struct MethodClaim {
    pub key: TopicKey,
    pub generic: String,
    pub class: String,
    pub origin: TagOrigin,
}

/// The model of [`MethodClaim`].
pub struct ClaimView {
    pub key: Seq<char>,
    pub generic: Seq<char>,
    pub class: Seq<char>,
    pub origin: TagOrigin,
}

impl View for MethodClaim {
    type V = ClaimView;

    open spec fn view(&self) -> ClaimView {
        ClaimView {
            key: self.key@,
            generic: self.generic@,
            class: self.class@,
            origin: self.origin,
        }
    }
}

/// What is kept across topics while blocks are merged.
#[derive(Debug, PartialEq, Eq)]
pub struct Ledger {
    /// The first claim of each alias.
    pub owners: Vec<AliasOwner>,
    /// The first declaration of each method of each topic.
    pub claims: Vec<MethodClaim>,
    /// What was reported so far.
    pub diagnostics: Diagnostics,
}

/// The model of [`Ledger`].
pub struct LedgerView {
    pub owners: Seq<OwnerView>,
    pub claims: Seq<ClaimView>,
    pub diagnostics: Seq<DiagnosticView>,
}

impl View for Ledger {
    type V = LedgerView;

    open spec fn view(&self) -> LedgerView {
        LedgerView {
            owners: self.owners@.map_values(|o: AliasOwner| o@),
            claims: self.claims@.map_values(|c: MethodClaim| c@),
            diagnostics: self.diagnostics@,
        }
    }
}

impl LedgerView {
    /// The same ledger with one more report.
    pub open spec fn and_report(self, report: DiagnosticView) -> LedgerView {
        LedgerView { diagnostics: self.diagnostics.push(report), ..self }
    }
}

/// The owner of an alias, among those from a position on.
pub open spec fn owner_from(owners: Seq<OwnerView>, alias: Seq<char>, i: int) -> Option<OwnerView>
    decreases owners.len() - i,
{
    if i < 0 || i >= owners.len() {
        None
    } else if owners[i].alias == alias {
        Some(owners[i])
    } else {
        owner_from(owners, alias, i + 1)
    }
}

/// The owner of an alias.
pub open spec fn owner_of(owners: Seq<OwnerView>, alias: Seq<char>) -> Option<OwnerView> {
    owner_from(owners, alias, 0)
}

/// The first declaration of a method, among those from a position on.
pub open spec fn claim_from(
    claims: Seq<ClaimView>,
    key: Seq<char>,
    generic: Seq<char>,
    class: Seq<char>,
    i: int,
) -> Option<TagOrigin>
    decreases claims.len() - i,
{
    if i < 0 || i >= claims.len() {
        None
    } else if claims[i].key == key && claims[i].generic == generic && claims[i].class == class {
        Some(claims[i].origin)
    } else {
        claim_from(claims, key, generic, class, i + 1)
    }
}

/// The first declaration of a method.
pub open spec fn claim_of(
    claims: Seq<ClaimView>,
    key: Seq<char>,
    generic: Seq<char>,
    class: Seq<char>,
) -> Option<TagOrigin> {
    claim_from(claims, key, generic, class, 0)
}

impl Ledger {
    /// An empty ledger.
    pub fn new() -> (r: Self)
        ensures
            r@.owners == Seq::<OwnerView>::empty(),
            r@.claims == Seq::<ClaimView>::empty(),
            r@.diagnostics == Seq::<DiagnosticView>::empty(),
    {
        let r = Ledger {
            owners: Vec::new(),
            claims: Vec::new(),
            diagnostics: Diagnostics::new(),
        };
        proof {
            assert(r@.owners =~= Seq::<OwnerView>::empty());
            assert(r@.claims =~= Seq::<ClaimView>::empty());
        }
        r
    }

    /// Reports one more problem.
    pub fn report(&mut self, diagnostic: Diagnostic)
        ensures
            final(self)@ == old(self)@.and_report(diagnostic@),
    {
        self.diagnostics.push(diagnostic);
    }

    /// The owner of an alias.
    pub fn owner(&self, alias: &str) -> (r: Option<&AliasOwner>)
        ensures
            (match r {
                Some(owner) => Some(owner@),
                None => None,
            }) == owner_of(self@.owners, alias@),
    {
        let mut i: usize = 0;
        while i < self.owners.len()
            invariant
                i <= self.owners@.len(),
                owner_of(self@.owners, alias@) == owner_from(self@.owners, alias@, i as int),
            decreases self.owners@.len() - i,
        {
            assert(self@.owners[i as int] == self.owners@[i as int]@);
            if same_text(self.owners[i].alias.as_str(), alias) {
                return Some(&self.owners[i]);
            }
            i = i + 1;
        }
        None
    }

    /// The first declaration of a method.
    pub fn claim(&self, key: &TopicKey, generic: &str, class: &str) -> (r: Option<&TagOrigin>)
        ensures
            opt_value(r) == claim_of(self@.claims, key@, generic@, class@),
    {
        let mut i: usize = 0;
        while i < self.claims.len()
            invariant
                i <= self.claims@.len(),
                claim_of(self@.claims, key@, generic@, class@) == claim_from(
                    self@.claims,
                    key@,
                    generic@,
                    class@,
                    i as int,
                ),
            decreases self.claims@.len() - i,
        {
            let claim = &self.claims[i];
            assert(self@.claims[i as int] == claim@);
            if same_text(claim.key.as_str(), key.as_str()) && same_text(
                claim.generic.as_str(),
                generic,
            ) && same_text(claim.class.as_str(), class) {
                return Some(&claim.origin);
            }
            i = i + 1;
        }
        None
    }
}

/// A topic and what is kept across topics.
pub struct TopicState {
    pub topic: TopicView,
    pub ledger: LedgerView,
}

/// The report of an alias that two topics claim.
pub open spec fn conflicting_alias(alias: AliasView, owner_span: Span) -> DiagnosticView {
    plain_diagnostic(
        Severity::Error,
        DiagnosticCode::ConflictingAlias,
        "alias `"@ + alias.name + "` is claimed by more than one topic"@,
        LabelView { span: alias.span, message: "alias claimed by this topic"@ },
    ).and_label(LabelView { span: owner_span, message: "alias claimed by another topic"@ })
}

/// Whether a topic has an alias.
pub open spec fn has_alias(aliases: Seq<AliasView>, name: Seq<char>) -> bool {
    exists|i: int| 0 <= i < aliases.len() && (#[trigger] aliases[i]).name == name
}

/// A topic that claims an alias: a new alias is added, the first claim of the
/// package is remembered, and a claim of another topic is reported.
#[verifier::opaque]
pub open spec fn with_alias(state: TopicState, key: Seq<char>, alias: AliasView) -> TopicState {
    if has_alias(state.topic.aliases, alias.name) {
        state
    } else {
        let owner = owner_of(state.ledger.owners, alias.name);
        TopicState {
            topic: TopicView { aliases: state.topic.aliases.push(alias), ..state.topic },
            ledger: LedgerView {
                owners: match owner {
                    Some(_) => state.ledger.owners,
                    None => state.ledger.owners.push(
                        OwnerView { alias: alias.name, key, span: alias.span },
                    ),
                },
                diagnostics: match owner {
                    Some(owner) => if owner.key != key {
                        state.ledger.diagnostics.push(conflicting_alias(alias, owner.span))
                    } else {
                        state.ledger.diagnostics
                    },
                    None => state.ledger.diagnostics,
                },
                ..state.ledger
            },
        }
    }
}

/// Whether a topic has an alias.
fn lists_alias(aliases: &Vec<Alias>, name: &str) -> (r: bool)
    ensures
        r == has_alias(alias_views(aliases@), name@),
{
    let ghost shown = alias_views(aliases@);
    let mut i: usize = 0;
    while i < aliases.len()
        invariant
            i <= aliases@.len(),
            shown == alias_views(aliases@),
            forall|k: int| 0 <= k < i ==> (#[trigger] shown[k]).name != name@,
        decreases aliases@.len() - i,
    {
        assert(shown[i as int] == aliases@[i as int]@);
        if same_text(aliases[i].name.0.as_str(), name) {
            return true;
        }
        i = i + 1;
    }
    false
}

/// Lets a topic claim an alias.
pub fn add_alias(topic_key: &TopicKey, topic: &mut RdTopic, alias: Alias, ledger: &mut Ledger)
    ensures
        (TopicState { topic: final(topic)@, ledger: final(ledger)@ }) == with_alias(
            TopicState { topic: old(topic)@, ledger: old(ledger)@ },
            topic_key@,
            alias@,
        ),
{
    proof {
        reveal(with_alias);
    }
    if lists_alias(&topic.aliases, alias.name.0.as_str()) {
        return;
    }
    let ghost before = ledger@;
    let ghost aliases = topic@.aliases;
    let ghost shown = alias@;
    let (claimed, conflict): (bool, Option<Span>) = match ledger.owner(alias.name.0.as_str()) {
        Some(owner) => (
            true,
            if same_text(owner.key.as_str(), topic_key.as_str()) {
                None
            } else {
                Some(owner.span)
            },
        ),
        None => (false, None),
    };
    if let Some(span) = conflict {
        ledger.report(
            Diagnostic::new(
                Severity::Error,
                DiagnosticCode::ConflictingAlias,
                text3("alias `", alias.name.0.as_str(), "` is claimed by more than one topic"),
                Label::at(alias.span, "alias claimed by this topic"),
            ).with_secondary(Label::at(span, "alias claimed by another topic")),
        );
    }
    if !claimed {
        ledger.owners.push(
            AliasOwner {
                alias: alias.name.0.clone(),
                key: topic_key.clone(),
                span: alias.span,
            },
        );
        proof {
            assert(ledger@.owners =~= before.owners.push(
                OwnerView { alias: shown.name, key: topic_key@, span: shown.span },
            ));
        }
    }
    topic.aliases.push(alias);
    proof {
        assert(topic@.aliases =~= aliases.push(shown));
    }
}

/// The report of a topic that documents both the package and data.
pub open spec fn conflicting_kind(key: Seq<char>, span: Span, first: Span) -> DiagnosticView {
    plain_diagnostic(
        Severity::Error,
        DiagnosticCode::ConflictingTopicKind,
        "topic `"@ + key
            + "` mixes package and data documentation contributions with incompatible document types"@,
        LabelView { span, message: "conflicting topic kind contribution"@ },
    ).and_label(
        LabelView {
            span: first,
            message: "first contribution establishing the other topic kind"@,
        },
    ).and_help("use distinct @rdname values or correct the contribution kind"@)
}

/// A topic after a package or data contribution. The first contribution gives
/// the kind; a contribution of the other kind is reported once, and makes the
/// topic a package topic for good.
#[verifier::opaque]
pub open spec fn with_kind(state: TopicState, key: Seq<char>, kind: RdTopicKind, span: Span) -> TopicState {
    match state.topic.kind_origin {
        None => TopicState {
            topic: TopicView {
                kind_origin: Some(TopicKindOrigin { kind, span }),
                kind,
                ..state.topic
            },
            ..state
        },
        Some(first) => if first.kind == kind {
            TopicState {
                topic: TopicView {
                    kind: if state.topic.kind_conflict_reported {
                        RdTopicKind::Package
                    } else {
                        kind
                    },
                    ..state.topic
                },
                ..state
            }
        } else {
            TopicState {
                topic: TopicView {
                    kind: if first.kind == RdTopicKind::Package || kind == RdTopicKind::Package {
                        RdTopicKind::Package
                    } else {
                        RdTopicKind::Data
                    },
                    kind_conflict_reported: true,
                    ..state.topic
                },
                ledger: if state.topic.kind_conflict_reported {
                    state.ledger
                } else {
                    state.ledger.and_report(conflicting_kind(key, span, first.span))
                },
            }
        },
    }
}

/// Adds a package or data contribution to a topic.
pub fn register_topic_kind(
    topic_key: &TopicKey,
    topic: &mut RdTopic,
    kind: RdTopicKind,
    span: Span,
    ledger: &mut Ledger,
)
    ensures
        (TopicState { topic: final(topic)@, ledger: final(ledger)@ }) == with_kind(
            TopicState { topic: old(topic)@, ledger: old(ledger)@ },
            topic_key@,
            kind,
            span,
        ),
{
    proof {
        reveal(with_kind);
    }
    let Some(first) = topic.kind_origin else {
        topic.kind_origin = Some(TopicKindOrigin { kind, span });
        topic.kind = kind;
        return;
    };
    if first.kind == kind {
        topic.kind = if topic.kind_conflict_reported {
            RdTopicKind::Package
        } else {
            kind
        };
        return;
    }
    if !topic.kind_conflict_reported {
        ledger.report(
            Diagnostic::new(
                Severity::Error,
                DiagnosticCode::ConflictingTopicKind,
                text3(
                    "topic `",
                    topic_key.as_str(),
                    "` mixes package and data documentation contributions with incompatible document types",
                ),
                Label::at(span, "conflicting topic kind contribution"),
            ).with_secondary(
                Label::at(first.span, "first contribution establishing the other topic kind"),
            ).with_help("use distinct @rdname values or correct the contribution kind"),
        );
        topic.kind_conflict_reported = true;
    }
    topic.kind = if first.kind == RdTopicKind::Package || kind == RdTopicKind::Package {
        RdTopicKind::Package
    } else {
        RdTopicKind::Data
    };
}

/// What is known while the tags of one block are applied to a topic.
pub struct TagState {
    pub state: TopicState,
    /// The slots that the block has filled.
    pub slots: Seq<SlotView>,
    /// The first `@usage` of the block.
    pub usage_origin: Option<TagOrigin>,
    /// The first `@method` of the block.
    pub method: Option<MethodDeclaration>,
}

impl TagState {
    /// The same state with another topic.
    pub open spec fn and_topic(self, topic: TopicView) -> TagState {
        TagState { state: TopicState { topic, ..self.state }, ..self }
    }

    /// The same state with other reports.
    pub open spec fn and_reports(self, diagnostics: Seq<DiagnosticView>) -> TagState {
        TagState {
            state: TopicState {
                ledger: LedgerView { diagnostics, ..self.state.ledger },
                ..self.state
            },
            ..self
        }
    }

    /// The reports so far.
    pub open spec fn reports(self) -> Seq<DiagnosticView> {
        self.state.ledger.diagnostics
    }

    /// The same state after the block filled a slot.
    pub open spec fn and_slot(self, slot: Seq<char>, origin: TagOrigin) -> TagState {
        TagState { slots: reserved_slots(self.slots, slot, origin), ..self }.and_reports(
            reservation_reports(self.slots, slot, origin, self.reports()),
        )
    }
}

/// The value of a prose slot after a tag of a block.
pub open spec fn field_value(
    before: TagState,
    slot: Seq<char>,
    current: Option<ProseView>,
    tag: FieldTag<MarkdownText>,
) -> Option<ProseView> {
    match (filler(before.slots, slot), tag.value, current) {
        (None, FieldValue::Emit(text), None) => Some(prose(text, tag.origin)),
        _ => current,
    }
}

/// Slots and reports after a tag of a block fills a prose slot: a repeat
/// within the block, and a second value of the topic, are reported.
pub open spec fn field_state(
    before: TagState,
    slot: Seq<char>,
    current: Option<ProseView>,
    tag: FieldTag<MarkdownText>,
) -> TagState {
    let after = before.and_slot(slot, tag.origin);
    match (filler(before.slots, slot), tag.value, current) {
        (None, FieldValue::Emit(_), Some(first)) => after.and_reports(
            after.reports().push(
                duplicate_tag(slot, tag.origin, first.origin, DuplicateSlotKind::Topic),
            ),
        ),
        _ => after,
    }
}

/// The description of a parameter, among those from a position on.
pub open spec fn param_from(params: Seq<ParamDescription>, name: Seq<char>, i: int) -> Option<
    ParamDescription,
>
    decreases params.len() - i,
{
    if i < 0 || i >= params.len() {
        None
    } else if params[i].name.0@ == name {
        Some(params[i])
    } else {
        param_from(params, name, i + 1)
    }
}

/// The report of a parameter that is described twice.
pub open spec fn conflicting_param(name: Spanned<ParamName>, first: TagOrigin) -> DiagnosticView {
    plain_diagnostic(
        Severity::Error,
        DiagnosticCode::ConflictingParamDescription,
        "parameter `"@ + name.value.0@ + "` has more than one description"@,
        LabelView { span: name.span, message: "conflicting parameter description"@ },
    ).and_label(
        LabelView { span: reported_span(first), message: "first parameter description"@ },
    )
}

/// The topic after the first `count` names of a `@param`: the first
/// description of a parameter stays, a further one is reported.
pub open spec fn with_params(
    before: TagState,
    names: Seq<Spanned<ParamName>>,
    description: MarkdownText,
    origin: TagOrigin,
    count: int,
) -> TagState
    decreases count,
{
    if count <= 0 {
        before
    } else {
        let so_far = with_params(before, names, description, origin, count - 1);
        let name = names[count - 1];
        let topic = so_far.state.topic;
        match param_from(topic.params, name.value.0@, 0) {
            Some(first) => so_far.and_reports(
                so_far.reports().push(conflicting_param(name, first.origin)),
            ),
            None => so_far.and_topic(
                TopicView {
                    params: topic.params.push(
                        ParamDescription { name: name.value, description, origin },
                    ),
                    ..topic
                },
            ),
        }
    }
}

/// The topic after the first `count` aliases of an `@aliases`.
pub open spec fn with_aliases(
    before: TopicState,
    key: Seq<char>,
    aliases: Seq<Spanned<crate::tags::DocName>>,
    count: int,
) -> TopicState
    decreases count,
{
    if count <= 0 {
        before
    } else {
        with_alias(
            with_aliases(before, key, aliases, count - 1),
            key,
            AliasView { name: aliases[count - 1].value.0@, span: aliases[count - 1].span },
        )
    }
}

/// Keywords after the first `count` of an `@keywords`, each kept once.
pub open spec fn with_keywords(
    before: Seq<Seq<char>>,
    keywords: Seq<Spanned<Keyword>>,
    count: int,
) -> Seq<Seq<char>>
    decreases count,
{
    if count <= 0 {
        before
    } else {
        let so_far = with_keywords(before, keywords, count - 1);
        let keyword = keywords[count - 1].value.0@;
        if so_far.contains(keyword) {
            so_far
        } else {
            so_far.push(keyword)
        }
    }
}

/// The state after a `@method`: the first of a block is its declaration, and
/// one that another block of the topic declared is reported.
pub open spec fn with_method(
    before: TagState,
    key: Seq<char>,
    generic: Spanned<String>,
    class: Spanned<String>,
    origin: TagOrigin,
) -> TagState {
    let after = before.and_slot("method"@, origin);
    match filler(before.slots, "method"@) {
        Some(_) => after,
        None => {
            let ledger = after.state.ledger;
            let ledger = match claim_of(ledger.claims, key, generic.value@, class.value@) {
                Some(first) => ledger.and_report(
                    duplicate_method(generic.value@, class.value@, origin, first),
                ),
                None => LedgerView {
                    claims: ledger.claims.push(
                        ClaimView { key, generic: generic.value@, class: class.value@, origin },
                    ),
                    ..ledger
                },
            };
            TagState {
                state: TopicState { ledger, ..after.state },
                method: Some(MethodDeclaration { generic, class, origin }),
                ..after
            }
        },
    }
}

/// The state after an `@examples`.
pub open spec fn with_examples(before: TagState, tag: TagValue<ExamplesContent>) -> TagState {
    let after = before.and_slot("examples"@, tag.origin);
    let topic = before.state.topic;
    match (filler(before.slots, "examples"@), topic.examples) {
        (None, None) => after.and_topic(TopicView { examples: Some(tag), ..topic }),
        (None, Some(first)) => after.and_reports(
            after.reports().push(
                duplicate_tag("examples"@, tag.origin, first.origin, DuplicateSlotKind::Topic),
            ),
        ),
        _ => after,
    }
}

/// The state after a `@usage`: a repeat within the block is reported.
pub open spec fn with_usage_tag(before: TagState, tag: TagValue<UsageDirective>) -> TagState {
    match before.usage_origin {
        Some(first) => before.and_reports(
            before.reports().push(
                duplicate_tag("usage"@, tag.origin, first, DuplicateSlotKind::BlockLocal),
            ),
        ),
        None => TagState { usage_origin: Some(tag.origin), ..before },
    }
}

/// The state after one tag of a block.
pub open spec fn after_tag(before: TagState, key: Seq<char>, tag: ParsedTag) -> TagState {
    let topic = before.state.topic;
    match tag {
        ParsedTag::Name(value) => before.and_slot("name"@, value.origin),
        ParsedTag::RdName(value) => before.and_slot("rdname"@, value.origin),
        ParsedTag::Title(value) => field_state(before, "title"@, topic.title, value).and_topic(
            TopicView { title: field_value(before, "title"@, topic.title, value), ..topic },
        ),
        ParsedTag::Description(value) => field_state(
            before,
            "description"@,
            topic.description,
            value,
        ).and_topic(
            TopicView {
                description: field_value(before, "description"@, topic.description, value),
                ..topic
            },
        ),
        ParsedTag::Details(value) => field_state(
            before,
            "details"@,
            topic.details,
            value,
        ).and_topic(
            TopicView { details: field_value(before, "details"@, topic.details, value), ..topic },
        ),
        ParsedTag::Return(value) => field_state(
            before,
            "return"@,
            topic.return_value,
            value,
        ).and_topic(
            TopicView {
                return_value: field_value(before, "return"@, topic.return_value, value),
                ..topic
            },
        ),
        ParsedTag::Examples(value) => with_examples(before, value),
        ParsedTag::Usage(value) => with_usage_tag(before, value),
        ParsedTag::Order { origin, .. } => before.and_slot("order"@, origin),
        ParsedTag::Method { generic, class, origin } => with_method(
            before,
            key,
            generic,
            class,
            origin,
        ),
        ParsedTag::Param { names, description, origin } => with_params(
            before,
            names@,
            description,
            origin,
            names@.len() as int,
        ),
        ParsedTag::Section { title, body, origin } => before.and_topic(
            TopicView {
                sections: topic.sections.push(NamedSection { title, body, origin }),
                ..topic
            },
        ),
        ParsedTag::Aliases(directive) => TagState {
            state: with_aliases(
                before.state,
                key,
                directive.value.explicit@,
                directive.value.explicit@.len() as int,
            ),
            ..before
        },
        ParsedTag::Keywords(directive) => match directive.value {
            FieldValue::Emit(keywords) => before.and_topic(
                TopicView {
                    keywords: with_keywords(topic.keywords, keywords@, keywords@.len() as int),
                    ..topic
                },
            ),
            FieldValue::Suppress => before,
        },
        ParsedTag::Inherit { target, fields, origin } => before.and_topic(
            TopicView {
                inheritance: topic.inheritance.push(
                    InheritanceRequest::Inherit { target, fields, origin },
                ),
                ..topic
            },
        ),
        ParsedTag::InheritParams { target, selection, origin } => before.and_topic(
            TopicView {
                inheritance: topic.inheritance.push(
                    InheritanceRequest::InheritParams { target, selection, origin },
                ),
                ..topic
            },
        ),
        ParsedTag::InheritSection { target, title, origin } => before.and_topic(
            TopicView {
                inheritance: topic.inheritance.push(
                    InheritanceRequest::InheritSection { target, title, origin },
                ),
                ..topic
            },
        ),
        ParsedTag::Namespace(_) => before,
        ParsedTag::NoRd(_) => before,
        ParsedTag::SeeAlso(value) => field_state(
            before,
            "seealso"@,
            topic.see_also,
            value,
        ).and_topic(
            TopicView { see_also: field_value(before, "seealso"@, topic.see_also, value), ..topic },
        ),
        ParsedTag::References(value) => field_state(
            before,
            "references"@,
            topic.references,
            value,
        ).and_topic(
            TopicView {
                references: field_value(before, "references"@, topic.references, value),
                ..topic
            },
        ),
        ParsedTag::Note(value) => field_state(before, "note"@, topic.note, value).and_topic(
            TopicView { note: field_value(before, "note"@, topic.note, value), ..topic },
        ),
        ParsedTag::Format(value) => field_state(before, "format"@, topic.format, value).and_topic(
            TopicView { format: field_value(before, "format"@, topic.format, value), ..topic },
        ),
        ParsedTag::Source(value) => field_state(before, "source"@, topic.source, value).and_topic(
            TopicView { source: field_value(before, "source"@, topic.source, value), ..topic },
        ),
        ParsedTag::Author(value) => field_state(before, "author"@, topic.author, value).and_topic(
            TopicView { author: field_value(before, "author"@, topic.author, value), ..topic },
        ),
        ParsedTag::Unsupported(_) => before,
        ParsedTag::Unknown(_) => before,
    }
}

/// The state after the first `count` tags of a block.
pub open spec fn after_tags(
    before: TagState,
    key: Seq<char>,
    tags: Seq<ParsedTag>,
    count: int,
) -> TagState
    decreases count,
{
    if count <= 0 {
        before
    } else {
        after_tag(after_tags(before, key, tags, count - 1), key, tags[count - 1])
    }
}

/// One block being merged into a topic.
pub struct BlockMerge {
    pub topic: RdTopic,
    pub ledger: Ledger,
    pub slots: BlockSlots,
    pub usage_origin: Option<TagOrigin>,
    pub method: Option<MethodDeclaration>,
}

impl View for BlockMerge {
    type V = TagState;

    open spec fn view(&self) -> TagState {
        TagState {
            state: TopicState { topic: self.topic@, ledger: self.ledger@ },
            slots: self.slots@,
            usage_origin: self.usage_origin,
            method: self.method,
        }
    }
}

/// A copy of a prose tag.
fn copy_field(tag: &FieldTag<MarkdownText>) -> (r: FieldTag<MarkdownText>)
    ensures
        r == *tag,
{
    FieldTag {
        value: match &tag.value {
            FieldValue::Emit(text) => FieldValue::Emit(text.clone()),
            FieldValue::Suppress => FieldValue::Suppress,
        },
        origin: tag.origin.clone(),
    }
}

impl BlockMerge {
    /// Fills a slot of the block.
    fn reserve(&mut self, slot: &str, origin: &TagOrigin) -> (r: bool)
        ensures
            r == (filler(old(self)@.slots, slot@) is None),
            final(self)@ == old(self)@.and_slot(slot@, *origin),
    {
        reserve_block_slot(slot, origin, &mut self.slots, &mut self.ledger.diagnostics)
    }

    /// Applies a `@param`.
    fn add_params(
        &mut self,
        names: &Vec<Spanned<ParamName>>,
        description: &MarkdownText,
        origin: &TagOrigin,
    )
        ensures
            final(self)@ == with_params(
                old(self)@,
                names@,
                *description,
                *origin,
                names@.len() as int,
            ),
    {
        let mut i: usize = 0;
        while i < names.len()
            invariant
                i <= names@.len(),
                self@ == with_params(old(self)@, names@, *description, *origin, i as int),
            decreases names@.len() - i,
        {
            let name = &names[i];
            let ghost before = self@;
            match find_param(&self.topic.params, name.value.0.as_str()) {
                Some(first) => {
                    let diagnostic = Diagnostic::new(
                        Severity::Error,
                        DiagnosticCode::ConflictingParamDescription,
                        text3(
                            "parameter `",
                            name.value.0.as_str(),
                            "` has more than one description",
                        ),
                        Label::at(name.span, "conflicting parameter description"),
                    ).with_secondary(
                        Label::at(origin_span(&first.origin), "first parameter description"),
                    );
                    self.ledger.report(diagnostic);
                },
                None => {
                    self.topic.params.push(
                        ParamDescription {
                            name: name.value.clone(),
                            description: description.clone(),
                            origin: origin.clone(),
                        },
                    );
                },
            }
            i = i + 1;
        }
    }

    /// Applies an `@aliases`.
    fn add_aliases(&mut self, key: &TopicKey, aliases: &Vec<Spanned<crate::tags::DocName>>)
        ensures
            final(self)@ == (TagState {
                state: with_aliases(old(self)@.state, key@, aliases@, aliases@.len() as int),
                ..old(self)@
            }),
    {
        let mut i: usize = 0;
        while i < aliases.len()
            invariant
                i <= aliases@.len(),
                self@ == (TagState {
                    state: with_aliases(old(self)@.state, key@, aliases@, i as int),
                    ..old(self)@
                }),
            decreases aliases@.len() - i,
        {
            let alias = Alias { name: aliases[i].value.clone(), span: aliases[i].span };
            add_alias(key, &mut self.topic, alias, &mut self.ledger);
            i = i + 1;
        }
    }

    /// Applies an `@keywords`.
    fn add_keywords(&mut self, keywords: &Vec<Spanned<Keyword>>)
        ensures
            final(self)@ == old(self)@.and_topic(
                TopicView {
                    keywords: with_keywords(
                        old(self)@.state.topic.keywords,
                        keywords@,
                        keywords@.len() as int,
                    ),
                    ..old(self)@.state.topic
                },
            ),
    {
        let ghost start = self@;
        let mut i: usize = 0;
        while i < keywords.len()
            invariant
                i <= keywords@.len(),
                start == old(self)@,
                self@ == start.and_topic(
                    TopicView {
                        keywords: with_keywords(start.state.topic.keywords, keywords@, i as int),
                        ..start.state.topic
                    },
                ),
            decreases keywords@.len() - i,
        {
            let ghost before = self.topic@.keywords;
            if !lists_keyword(&self.topic.keywords, keywords[i].value.0.as_str()) {
                self.topic.keywords.push(keywords[i].value.clone());
                proof {
                    assert(self.topic@.keywords =~= before.push(keywords@[i as int].value.0@));
                }
            }
            i = i + 1;
        }
    }

    /// Applies a `@method`.
    fn declare_method(
        &mut self,
        key: &TopicKey,
        generic: &Spanned<String>,
        class: &Spanned<String>,
        origin: &TagOrigin,
    )
        ensures
            final(self)@ == with_method(old(self)@, key@, *generic, *class, *origin),
    {
        if !self.reserve("method", origin) {
            return;
        }
        let first: Option<TagOrigin> = match self.ledger.claim(
            key,
            generic.value.as_str(),
            class.value.as_str(),
        ) {
            Some(first) => Some(first.clone()),
            None => None,
        };
        match first {
            Some(first) => {
                emit_duplicate_method(
                    &mut self.ledger.diagnostics,
                    generic,
                    class,
                    origin,
                    &first,
                );
            },
            None => {
                let ghost before = self.ledger@.claims;
                self.ledger.claims.push(
                    MethodClaim {
                        key: key.clone(),
                        generic: generic.value.clone(),
                        class: class.value.clone(),
                        origin: origin.clone(),
                    },
                );
                proof {
                    assert(self.ledger@.claims =~= before.push(
                        ClaimView {
                            key: key@,
                            generic: generic.value@,
                            class: class.value@,
                            origin: *origin,
                        },
                    ));
                }
            },
        }
        self.method = Some(
            MethodDeclaration {
                generic: Spanned::new(generic.value.clone(), generic.span),
                class: Spanned::new(class.value.clone(), class.span),
                origin: origin.clone(),
            },
        );
    }

    /// Applies a `@usage`.
    fn note_usage(&mut self, tag: &TagValue<UsageDirective>)
        ensures
            final(self)@ == with_usage_tag(old(self)@, *tag),
    {
        if let Some(first) = &self.usage_origin {
            emit_duplicate(
                &mut self.ledger.diagnostics,
                "usage",
                &tag.origin,
                first,
                DuplicateSlotKind::BlockLocal,
            );
        } else {
            self.usage_origin = Some(tag.origin.clone());
        }
    }

    /// Applies an `@examples`.
    fn add_examples(&mut self, tag: &TagValue<ExamplesContent>)
        ensures
            final(self)@ == with_examples(old(self)@, *tag),
    {
        let copy = TagValue { value: tag.value.clone(), origin: tag.origin.clone() };
        set_tag(
            "examples",
            &mut self.topic.examples,
            copy,
            &mut self.slots,
            &mut self.ledger.diagnostics,
        );
    }

    /// Fills a prose slot, given what it holds, and returns what it holds then.
    fn fill(
        &mut self,
        slot: &str,
        current: Option<TagValue<MarkdownText>>,
        tag: &FieldTag<MarkdownText>,
    ) -> (r: Option<TagValue<MarkdownText>>)
        ensures
            final(self).topic == old(self).topic,
            final(self)@ == field_state(old(self)@, slot@, prose_slot(current), *tag),
            prose_slot(r) == field_value(old(self)@, slot@, prose_slot(current), *tag),
    {
        let mut current = current;
        set_field(
            slot,
            &mut current,
            copy_field(tag),
            &mut self.slots,
            &mut self.ledger.diagnostics,
        );
        current
    }

    /// Applies a `@title`.
    fn fill_title(&mut self, tag: &FieldTag<MarkdownText>)
        ensures
            final(self)@ == field_state(
                old(self)@,
                "title"@,
                old(self)@.state.topic.title,
                *tag,
            ).and_topic(
                TopicView {
                    title: field_value(
                        old(self)@,
                        "title"@,
                        old(self)@.state.topic.title,
                        *tag,
                    ),
                    ..old(self)@.state.topic
                },
            ),
    {
        let current = self.topic.title.take();
        self.topic.title = self.fill("title", current, tag);
    }

    /// Applies a `@description`.
    fn fill_description(&mut self, tag: &FieldTag<MarkdownText>)
        ensures
            final(self)@ == field_state(
                old(self)@,
                "description"@,
                old(self)@.state.topic.description,
                *tag,
            ).and_topic(
                TopicView {
                    description: field_value(
                        old(self)@,
                        "description"@,
                        old(self)@.state.topic.description,
                        *tag,
                    ),
                    ..old(self)@.state.topic
                },
            ),
    {
        let current = self.topic.description.take();
        self.topic.description = self.fill("description", current, tag);
    }

    /// Applies a `@details`.
    fn fill_details(&mut self, tag: &FieldTag<MarkdownText>)
        ensures
            final(self)@ == field_state(
                old(self)@,
                "details"@,
                old(self)@.state.topic.details,
                *tag,
            ).and_topic(
                TopicView {
                    details: field_value(
                        old(self)@,
                        "details"@,
                        old(self)@.state.topic.details,
                        *tag,
                    ),
                    ..old(self)@.state.topic
                },
            ),
    {
        let current = self.topic.details.take();
        self.topic.details = self.fill("details", current, tag);
    }

    /// Applies a `@return`.
    fn fill_return_value(&mut self, tag: &FieldTag<MarkdownText>)
        ensures
            final(self)@ == field_state(
                old(self)@,
                "return"@,
                old(self)@.state.topic.return_value,
                *tag,
            ).and_topic(
                TopicView {
                    return_value: field_value(
                        old(self)@,
                        "return"@,
                        old(self)@.state.topic.return_value,
                        *tag,
                    ),
                    ..old(self)@.state.topic
                },
            ),
    {
        let current = self.topic.return_value.take();
        self.topic.return_value = self.fill("return", current, tag);
    }

    /// Applies a `@seealso`.
    fn fill_see_also(&mut self, tag: &FieldTag<MarkdownText>)
        ensures
            final(self)@ == field_state(
                old(self)@,
                "seealso"@,
                old(self)@.state.topic.see_also,
                *tag,
            ).and_topic(
                TopicView {
                    see_also: field_value(
                        old(self)@,
                        "seealso"@,
                        old(self)@.state.topic.see_also,
                        *tag,
                    ),
                    ..old(self)@.state.topic
                },
            ),
    {
        let current = self.topic.see_also.take();
        self.topic.see_also = self.fill("seealso", current, tag);
    }

    /// Applies a `@references`.
    fn fill_references(&mut self, tag: &FieldTag<MarkdownText>)
        ensures
            final(self)@ == field_state(
                old(self)@,
                "references"@,
                old(self)@.state.topic.references,
                *tag,
            ).and_topic(
                TopicView {
                    references: field_value(
                        old(self)@,
                        "references"@,
                        old(self)@.state.topic.references,
                        *tag,
                    ),
                    ..old(self)@.state.topic
                },
            ),
    {
        let current = self.topic.references.take();
        self.topic.references = self.fill("references", current, tag);
    }

    /// Applies a `@note`.
    fn fill_note(&mut self, tag: &FieldTag<MarkdownText>)
        ensures
            final(self)@ == field_state(
                old(self)@,
                "note"@,
                old(self)@.state.topic.note,
                *tag,
            ).and_topic(
                TopicView {
                    note: field_value(
                        old(self)@,
                        "note"@,
                        old(self)@.state.topic.note,
                        *tag,
                    ),
                    ..old(self)@.state.topic
                },
            ),
    {
        let current = self.topic.note.take();
        self.topic.note = self.fill("note", current, tag);
    }

    /// Applies a `@format`.
    fn fill_format(&mut self, tag: &FieldTag<MarkdownText>)
        ensures
            final(self)@ == field_state(
                old(self)@,
                "format"@,
                old(self)@.state.topic.format,
                *tag,
            ).and_topic(
                TopicView {
                    format: field_value(
                        old(self)@,
                        "format"@,
                        old(self)@.state.topic.format,
                        *tag,
                    ),
                    ..old(self)@.state.topic
                },
            ),
    {
        let current = self.topic.format.take();
        self.topic.format = self.fill("format", current, tag);
    }

    /// Applies a `@source`.
    fn fill_source(&mut self, tag: &FieldTag<MarkdownText>)
        ensures
            final(self)@ == field_state(
                old(self)@,
                "source"@,
                old(self)@.state.topic.source,
                *tag,
            ).and_topic(
                TopicView {
                    source: field_value(
                        old(self)@,
                        "source"@,
                        old(self)@.state.topic.source,
                        *tag,
                    ),
                    ..old(self)@.state.topic
                },
            ),
    {
        let current = self.topic.source.take();
        self.topic.source = self.fill("source", current, tag);
    }

    /// Applies a `@author`.
    fn fill_author(&mut self, tag: &FieldTag<MarkdownText>)
        ensures
            final(self)@ == field_state(
                old(self)@,
                "author"@,
                old(self)@.state.topic.author,
                *tag,
            ).and_topic(
                TopicView {
                    author: field_value(
                        old(self)@,
                        "author"@,
                        old(self)@.state.topic.author,
                        *tag,
                    ),
                    ..old(self)@.state.topic
                },
            ),
    {
        let current = self.topic.author.take();
        self.topic.author = self.fill("author", current, tag);
    }

    /// Applies one tag.
    fn apply_tag(&mut self, key: &TopicKey, tag: &ParsedTag)
        ensures
            final(self)@ == after_tag(old(self)@, key@, *tag),
    {
        match tag {
            ParsedTag::Title(value) => {
                self.fill_title(value);
            },
            ParsedTag::Description(value) => {
                self.fill_description(value);
            },
            // Intro trailing paragraphs and explicit @details are composed
            // before this layer sees the block. The resulting single Details
            // tag deliberately does not violate the per-topic single-slot
            // rule: neither part was silently discarded.
            ParsedTag::Details(value) => {
                self.fill_details(value);
            },
            ParsedTag::Return(value) => {
                self.fill_return_value(value);
            },
            ParsedTag::SeeAlso(value) => {
                self.fill_see_also(value);
            },
            ParsedTag::References(value) => {
                self.fill_references(value);
            },
            ParsedTag::Note(value) => {
                self.fill_note(value);
            },
            ParsedTag::Format(value) => {
                self.fill_format(value);
            },
            ParsedTag::Source(value) => {
                self.fill_source(value);
            },
            ParsedTag::Author(value) => {
                self.fill_author(value);
            },
            ParsedTag::Name(value) => {
                self.reserve("name", &value.origin);
            },
            ParsedTag::RdName(value) => {
                self.reserve("rdname", &value.origin);
            },
            ParsedTag::Order { origin, .. } => {
                self.reserve("order", origin);
            },
            ParsedTag::Examples(value) => {
                self.add_examples(value);
            },
            ParsedTag::Usage(value) => {
                self.note_usage(value);
            },
            ParsedTag::Method { generic, class, origin } => {
                self.declare_method(key, generic, class, origin);
            },
            ParsedTag::Param { names, description, origin } => {
                self.add_params(names, description, origin);
            },
            ParsedTag::Section { title, body, origin } => {
                // All local sections are kept. Their semantic identity depends
                // on the Markdown context of the final output, which is not
                // available while blocks are merged.
                self.topic.sections.push(
                    NamedSection {
                        title: title.clone(),
                        body: body.clone(),
                        origin: origin.clone(),
                    },
                );
            },
            ParsedTag::Aliases(directive) => {
                self.add_aliases(key, &directive.value.explicit);
            },
            ParsedTag::Keywords(directive) => {
                if let FieldValue::Emit(keywords) = &directive.value {
                    self.add_keywords(keywords);
                }
            },
            ParsedTag::Inherit { target, fields, origin } => {
                self.topic.inheritance.push(
                    InheritanceRequest::Inherit {
                        target: target.clone(),
                        fields: fields.clone(),
                        origin: origin.clone(),
                    },
                );
            },
            ParsedTag::InheritParams { target, selection, origin } => {
                let selection = match selection {
                    Some(text) => Some(text.clone()),
                    None => None,
                };
                self.topic.inheritance.push(
                    InheritanceRequest::InheritParams {
                        target: target.clone(),
                        selection,
                        origin: origin.clone(),
                    },
                );
            },
            ParsedTag::InheritSection { target, title, origin } => {
                self.topic.inheritance.push(
                    InheritanceRequest::InheritSection {
                        target: target.clone(),
                        title: Spanned::new(title.value.clone(), title.span),
                        origin: origin.clone(),
                    },
                );
            },
            _ => {},
        }
    }
}

impl BlockMerge {
    /// Applies all tags of a block.
    pub fn apply_tags(&mut self, key: &TopicKey, tags: &Vec<ParsedTag>)
        ensures
            final(self)@ == after_tags(old(self)@, key@, tags@, tags@.len() as int),
    {
        let mut i: usize = 0;
        while i < tags.len()
            invariant
                i <= tags@.len(),
                self@ == after_tags(old(self)@, key@, tags@, i as int),
            decreases tags@.len() - i,
        {
            self.apply_tag(key, &tags[i]);
            i = i + 1;
        }
    }
}

/// Finds the description of a parameter.
fn find_param<'a>(params: &'a Vec<ParamDescription>, name: &str) -> (r: Option<
    &'a ParamDescription,
>)
    ensures
        opt_value(r) == param_from(params@, name@, 0),
{
    let mut i: usize = 0;
    while i < params.len()
        invariant
            i <= params@.len(),
            param_from(params@, name@, 0) == param_from(params@, name@, i as int),
        decreases params@.len() - i,
    {
        if same_text(params[i].name.0.as_str(), name) {
            return Some(&params[i]);
        }
        i = i + 1;
    }
    None
}

/// Whether a topic has a keyword.
pub fn lists_keyword(keywords: &Vec<Keyword>, name: &str) -> (r: bool)
    ensures
        r == keyword_texts(keywords@).contains(name@),
{
    let ghost shown = keyword_texts(keywords@);
    let mut i: usize = 0;
    while i < keywords.len()
        invariant
            i <= keywords@.len(),
            shown == keyword_texts(keywords@),
            forall|k: int| 0 <= k < i ==> #[trigger] shown[k] != name@,
        decreases keywords@.len() - i,
    {
        assert(shown[i as int] == keywords@[i as int].0@);
        if same_text(keywords[i].0.as_str(), name) {
            return true;
        }
        i = i + 1;
    }
    false
}

} // verus!
