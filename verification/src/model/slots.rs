//! Applies the single-value and duplicate policies for topic fields.
//!
//! Slot filling is separate because block-local duplicate detection and
//! topic-wide first-wins handling are shared by many tag branches.
use crate::diagnostic::{
    plain_diagnostic, Diagnostic, DiagnosticCode, DiagnosticView, Diagnostics, Label, LabelView,
    Severity,
};
use crate::source::Spanned;
use crate::tags::{FieldTag, FieldValue, TagOrigin, TagValue};
use crate::text::{same_text, text3, text5};
use vstd::prelude::*;

use super::identity::{origin_span, reported_span};
use super::lookup::opt_value;

verus! {

/// A slot that a block has filled, and by which tag.
#[derive(Debug, PartialEq, Eq)]
pub struct BlockSlot {
    pub slot: String,
    pub origin: TagOrigin,
}

/// The model of [`BlockSlot`].
pub struct SlotView {
    pub slot: Seq<char>,
    pub origin: TagOrigin,
}

impl View for BlockSlot {
    type V = SlotView;

    open spec fn view(&self) -> SlotView {
        SlotView { slot: self.slot@, origin: self.origin }
    }
}

/// The slots that one block has filled, in order.
#[derive(Debug, PartialEq, Eq)]
pub struct BlockSlots {
    pub filled: Vec<BlockSlot>,
}

impl View for BlockSlots {
    type V = Seq<SlotView>;

    open spec fn view(&self) -> Seq<SlotView> {
        self.filled@.map_values(|s: BlockSlot| s@)
    }
}

/// The tag that filled a slot, among the slots from a position on.
pub open spec fn filler_from(slots: Seq<SlotView>, slot: Seq<char>, i: int) -> Option<TagOrigin>
    decreases slots.len() - i,
{
    if i < 0 || i >= slots.len() {
        None
    } else if slots[i].slot == slot {
        Some(slots[i].origin)
    } else {
        filler_from(slots, slot, i + 1)
    }
}

/// The tag that filled a slot.
pub open spec fn filler(slots: Seq<SlotView>, slot: Seq<char>) -> Option<TagOrigin> {
    filler_from(slots, slot, 0)
}

impl BlockSlots {
    /// No filled slots.
    pub fn new() -> (r: Self)
        ensures
            r@ == Seq::<SlotView>::empty(),
    {
        let r = BlockSlots { filled: Vec::new() };
        proof {
            assert(r@ =~= Seq::<SlotView>::empty());
        }
        r
    }

    /// The tag that filled a slot.
    pub fn origin_of(&self, slot: &str) -> (r: Option<&TagOrigin>)
        ensures
            opt_value(r) == filler(self@, slot@),
    {
        let mut i: usize = 0;
        while i < self.filled.len()
            invariant
                i <= self.filled@.len(),
                filler(self@, slot@) == filler_from(self@, slot@, i as int),
            decreases self.filled@.len() - i,
        {
            assert(self@[i as int] == self.filled@[i as int]@);
            if same_text(self.filled[i].slot.as_str(), slot) {
                return Some(&self.filled[i].origin);
            }
            i = i + 1;
        }
        None
    }
}

/// Where a slot is filled twice.
#[derive(Debug, Clone, Copy, PartialEq, Eq, Structural)]
pub enum DuplicateSlotKind {
    BlockLocal,
    Topic,
}

impl DuplicateSlotKind {
    /// The kind in words.
    pub open spec fn spec_description(self) -> Seq<char> {
        match self {
            DuplicateSlotKind::BlockLocal => "block-local"@,
            DuplicateSlotKind::Topic => "single topic"@,
        }
    }

    /// The kind in words.
    pub fn description(self) -> (r: &'static str)
        ensures
            r@ == self.spec_description(),
    {
        match self {
            DuplicateSlotKind::BlockLocal => "block-local",
            DuplicateSlotKind::Topic => "single topic",
        }
    }
}

/// The report of a slot that is filled twice.
pub open spec fn duplicate_tag(
    slot: Seq<char>,
    current: TagOrigin,
    previous: TagOrigin,
    kind: DuplicateSlotKind,
) -> DiagnosticView {
    plain_diagnostic(
        Severity::Error,
        DiagnosticCode::DuplicateTag,
        "@"@ + slot + " fills a "@ + kind.spec_description() + " slot more than once"@,
        LabelView {
            span: reported_span(current),
            message: "second @"@ + slot + " contribution"@,
        },
    ).and_label(
        LabelView {
            span: reported_span(previous),
            message: "first @"@ + slot + " contribution"@,
        },
    )
}

/// Reports a slot that is filled twice.
pub fn emit_duplicate(
    diagnostics: &mut Diagnostics,
    slot: &str,
    current: &TagOrigin,
    previous: &TagOrigin,
    kind: DuplicateSlotKind,
)
    ensures
        final(diagnostics)@ == old(diagnostics)@.push(
            duplicate_tag(slot@, *current, *previous, kind),
        ),
{
    diagnostics.push(
        Diagnostic::new(
            Severity::Error,
            DiagnosticCode::DuplicateTag,
            text5("@", slot, " fills a ", kind.description(), " slot more than once"),
            Label::new(origin_span(current), text3("second @", slot, " contribution")),
        ).with_secondary(
            Label::new(origin_span(previous), text3("first @", slot, " contribution")),
        ),
    );
}

/// The report of a method that two blocks declare.
pub open spec fn duplicate_method(
    generic: Seq<char>,
    class: Seq<char>,
    current: TagOrigin,
    previous: TagOrigin,
) -> DiagnosticView {
    plain_diagnostic(
        Severity::Error,
        DiagnosticCode::DuplicateMethod,
        "@method `"@ + generic + " "@ + class + "` is declared by more than one block"@,
        LabelView { span: reported_span(current), message: "second @method declaration"@ },
    ).and_label(
        LabelView { span: reported_span(previous), message: "first @method declaration"@ },
    )
}

/// Reports a method that two blocks declare.
pub fn emit_duplicate_method(
    diagnostics: &mut Diagnostics,
    generic: &Spanned<String>,
    class: &Spanned<String>,
    current: &TagOrigin,
    previous: &TagOrigin,
)
    ensures
        final(diagnostics)@ == old(diagnostics)@.push(
            duplicate_method(generic.value@, class.value@, *current, *previous),
        ),
{
    diagnostics.push(
        Diagnostic::new(
            Severity::Error,
            DiagnosticCode::DuplicateMethod,
            text5(
                "@method `",
                generic.value.as_str(),
                " ",
                class.value.as_str(),
                "` is declared by more than one block",
            ),
            Label::at(origin_span(current), "second @method declaration"),
        ).with_secondary(Label::at(origin_span(previous), "first @method declaration")),
    );
}

/// Slots and reports after a block fills a slot: the first tag fills it, a
/// further one is reported.
pub open spec fn reserved_slots(
    slots: Seq<SlotView>,
    slot: Seq<char>,
    origin: TagOrigin,
) -> Seq<SlotView> {
    match filler(slots, slot) {
        Some(_) => slots,
        None => slots.push(SlotView { slot, origin }),
    }
}

/// The reports after a block fills a slot.
pub open spec fn reservation_reports(
    slots: Seq<SlotView>,
    slot: Seq<char>,
    origin: TagOrigin,
    reports: Seq<DiagnosticView>,
) -> Seq<DiagnosticView> {
    match filler(slots, slot) {
        Some(first) => reports.push(
            duplicate_tag(slot, origin, first, DuplicateSlotKind::BlockLocal),
        ),
        None => reports,
    }
}

/// Fills a block-local slot, or reports that it is filled already.
pub fn reserve_block_slot(
    slot: &str,
    origin: &TagOrigin,
    slots: &mut BlockSlots,
    diagnostics: &mut Diagnostics,
) -> (r: bool)
    ensures
        r == (filler(old(slots)@, slot@) is None),
        final(slots)@ == reserved_slots(old(slots)@, slot@, *origin),
        final(diagnostics)@ == reservation_reports(
            old(slots)@,
            slot@,
            *origin,
            old(diagnostics)@,
        ),
{
    if let Some(first) = slots.origin_of(slot) {
        emit_duplicate(diagnostics, slot, origin, first, DuplicateSlotKind::BlockLocal);
        return false;
    }
    let ghost before = slots@;
    slots.filled.push(BlockSlot { slot: slot.to_owned(), origin: origin.clone() });
    proof {
        assert(slots@ =~= before.push(SlotView { slot: slot@, origin: *origin }));
    }
    true
}

/// Fills a topic slot: the first value stays, a further one is reported.
pub fn set_single<T>(
    slot: &str,
    destination: &mut Option<TagValue<T>>,
    value: TagValue<T>,
    diagnostics: &mut Diagnostics,
)
    ensures
        match *old(destination) {
            None => *final(destination) == Some(value) && final(diagnostics)@ == old(diagnostics)@,
            Some(first) => {
                &&& *final(destination) == *old(destination)
                &&& final(diagnostics)@ == old(diagnostics)@.push(
                    duplicate_tag(slot@, value.origin, first.origin, DuplicateSlotKind::Topic),
                )
            },
        },
{
    if let Some(first) = &*destination {
        emit_duplicate(
            diagnostics,
            slot,
            &value.origin,
            &first.origin,
            DuplicateSlotKind::Topic,
        );
        return;
    }
    *destination = Some(value);
}

/// Fills a topic slot by a tag that may suppress its field: a repeat within
/// the block is reported even then, and a suppressed field fills nothing.
pub fn set_field<T>(
    slot: &str,
    destination: &mut Option<TagValue<T>>,
    value: FieldTag<T>,
    slots: &mut BlockSlots,
    diagnostics: &mut Diagnostics,
)
    ensures
        final(slots)@ == reserved_slots(old(slots)@, slot@, value.origin),
        match (filler(old(slots)@, slot@), value.value, *old(destination)) {
            (None, FieldValue::Emit(content), None) => {
                &&& *final(destination) == Some(TagValue { value: content, origin: value.origin })
                &&& final(diagnostics)@ == old(diagnostics)@
            },
            (None, FieldValue::Emit(_), Some(first)) => {
                &&& *final(destination) == *old(destination)
                &&& final(diagnostics)@ == old(diagnostics)@.push(
                    duplicate_tag(slot@, value.origin, first.origin, DuplicateSlotKind::Topic),
                )
            },
            _ => {
                &&& *final(destination) == *old(destination)
                &&& final(diagnostics)@ == reservation_reports(
                    old(slots)@,
                    slot@,
                    value.origin,
                    old(diagnostics)@,
                )
            },
        },
{
    if !reserve_block_slot(slot, &value.origin, slots, diagnostics) {
        return;
    }
    let FieldTag { value: content, origin } = value;
    if let FieldValue::Emit(content) = content {
        set_single(slot, destination, TagValue { value: content, origin }, diagnostics);
    }
}

/// Fills a topic slot by a tag that always has a value.
pub fn set_tag<T>(
    slot: &str,
    destination: &mut Option<TagValue<T>>,
    value: TagValue<T>,
    slots: &mut BlockSlots,
    diagnostics: &mut Diagnostics,
)
    ensures
        final(slots)@ == reserved_slots(old(slots)@, slot@, value.origin),
        match (filler(old(slots)@, slot@), *old(destination)) {
            (None, None) => {
                &&& *final(destination) == Some(value)
                &&& final(diagnostics)@ == old(diagnostics)@
            },
            (None, Some(first)) => {
                &&& *final(destination) == *old(destination)
                &&& final(diagnostics)@ == old(diagnostics)@.push(
                    duplicate_tag(slot@, value.origin, first.origin, DuplicateSlotKind::Topic),
                )
            },
            _ => {
                &&& *final(destination) == *old(destination)
                &&& final(diagnostics)@ == reservation_reports(
                    old(slots)@,
                    slot@,
                    value.origin,
                    old(diagnostics)@,
                )
            },
        },
{
    if !reserve_block_slot(slot, &value.origin, slots, diagnostics) {
        return;
    }
    set_single(slot, destination, value, diagnostics);
}

} // verus!
