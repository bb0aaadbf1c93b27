//! The raw macros that become nodes, and those that are reported.
use crate::source::{byte_slice, slice_bytes};
use crate::tags::SourcedText;
use crate::text::{char_vec, texts};
use vstd::prelude::*;

use super::super::events::{event_views, SourcedEvent, SourcedEventView};
use super::super::leaf::{line_chunks, physical_line_chunks};
use super::super::origin::{
    group, make_group, make_tagged, make_verb_leaves, no_nodes, origin_views, push_node, tagged,
    verb_leaves, NodeWithOrigin, OriginView,
};
use super::super::position::{range_spans, spans_of};
use super::accept::{accepts, facts_are_in_text_order, CandidateSweep};
use super::facts::{facts_of, EventFacts, FactsView};
use super::scan::{
    scan_source, scanned, scanned_views, ByteRange, RawRdArgument, RawRdKind, RawRdKindView,
    ScannedMacro, ScannedView,
};

verus! {

/// A raw macro that becomes a node.
#[derive(Debug, PartialEq, Eq)]
pub struct RawRdMacro {
    pub source: ByteRange,
    pub kind: RawRdKind,
}

/// The model of [`RawRdMacro`].
pub struct RawRdMacroView {
    pub source: ByteRange,
    pub kind: RawRdKindView,
}

impl View for RawRdMacro {
    type V = RawRdMacroView;

    open spec fn view(&self) -> RawRdMacroView {
        RawRdMacroView { source: self.source, kind: self.kind@ }
    }
}

/// The models of raw macros.
pub open spec fn macro_views(macros: Seq<RawRdMacro>) -> Seq<RawRdMacroView> {
    macros.map_values(|raw: RawRdMacro| raw@)
}

/// The bytes between the braces of an argument.
pub open spec fn body_range(argument: RawRdArgument) -> ByteRange {
    ByteRange {
        start: if argument.open < usize::MAX {
            (argument.open + 1) as usize
        } else {
            argument.open
        },
        end: if argument.close > 0 {
            (argument.close - 1) as usize
        } else {
            argument.close
        },
    }
}

fn body_bytes(argument: RawRdArgument) -> (r: ByteRange)
    ensures
        r == body_range(argument),
{
    ByteRange {
        start: if argument.open < usize::MAX {
            argument.open + 1
        } else {
            argument.open
        },
        end: if argument.close > 0 {
            argument.close - 1
        } else {
            argument.close
        },
    }
}

/// The text between the braces of an argument.
pub open spec fn argument_body(text: Seq<char>, argument: RawRdArgument) -> Seq<char> {
    let range = body_range(argument);
    match byte_slice(text, range.start as int, range.end as int) {
        Some(body) => body,
        None => Seq::empty(),
    }
}

/// The text between the braces of an argument.
pub fn body_of(text: &str, argument: RawRdArgument) -> (r: &str)
    ensures
        r@ == argument_body(text@, argument),
{
    proof {
        reveal_strlit("");
        assert(""@ =~= Seq::<char>::empty());
    }
    let range = body_bytes(argument);
    match slice_bytes(text, range.start, range.end) {
        Some(body) => body,
        None => "",
    }
}

/// Whether the braces of a text balance from a position on, when `depth` of
/// them are open. A backslash escapes the character behind it.
pub open spec fn balances(text: Seq<char>, at: int, depth: nat, escaped: bool) -> bool
    decreases text.len() - at,
{
    if at < 0 || at >= text.len() {
        depth == 0
    } else if escaped {
        balances(text, at + 1, depth, false)
    } else if text[at] == '\\' {
        balances(text, at + 1, depth, true)
    } else if text[at] == '{' {
        balances(text, at + 1, depth + 1, false)
    } else if text[at] == '}' {
        depth > 0 && balances(text, at + 1, (depth - 1) as nat, false)
    } else {
        balances(text, at + 1, depth, false)
    }
}

/// Whether the braces of a text balance.
pub fn balanced_braces(text: &str) -> (r: bool)
    ensures
        r == balances(text@, 0, 0, false),
{
    let chars = char_vec(text);
    let mut i: usize = 0;
    let mut depth: usize = 0;
    let mut escaped: bool = false;
    while i < chars.len()
        invariant
            i <= chars@.len(),
            chars@ == text@,
            depth <= i,
            balances(text@, 0, 0, false) == balances(text@, i as int, depth as nat, escaped),
        decreases chars@.len() - i,
    {
        let c: char = chars[i];
        if escaped {
            escaped = false;
        } else if c == '\\' {
            escaped = true;
        } else if c == '{' {
            depth = depth + 1;
        } else if c == '}' {
            if depth == 0 {
                return false;
            }
            depth = depth - 1;
        }
        i = i + 1;
    }
    depth == 0
}

/// Whether the braces of each line balance on their own.
pub open spec fn lines_balance(text: Seq<char>) -> bool {
    forall|i: int|
        0 <= i < line_chunks(text).len() ==> balances(#[trigger] line_chunks(text)[i], 0, 0, false)
}

fn each_line_balances(text: &str) -> (r: bool)
    ensures
        r == lines_balance(text@),
{
    let chunks = physical_line_chunks(text);
    let mut i: usize = 0;
    while i < chunks.len()
        invariant
            i <= chunks@.len(),
            texts(chunks@) == line_chunks(text@),
            forall|k: int|
                0 <= k < i ==> balances(#[trigger] line_chunks(text@)[k], 0, 0, false),
        decreases chunks@.len() - i,
    {
        proof {
            assert(texts(chunks@)[i as int] == chunks@[i as int]@);
        }
        if !balanced_braces(&chunks[i]) {
            assert(!balances(line_chunks(text@)[i as int], 0, 0, false));
            return false;
        }
        i = i + 1;
    }
    true
}

/// Whether the lines of every argument balance their braces.
pub open spec fn arguments_balance(text: Seq<char>, arguments: Seq<RawRdArgument>) -> bool {
    forall|i: int|
        0 <= i < arguments.len() ==> lines_balance(argument_body(text, #[trigger] arguments[i]))
}

fn each_argument_balances(text: &str, arguments: &Vec<RawRdArgument>) -> (r: bool)
    ensures
        r == arguments_balance(text@, arguments@),
{
    let mut i: usize = 0;
    while i < arguments.len()
        invariant
            i <= arguments@.len(),
            forall|k: int|
                0 <= k < i ==> lines_balance(argument_body(text@, #[trigger] arguments@[k])),
        decreases arguments@.len() - i,
    {
        if !each_line_balances(body_of(text, arguments[i])) {
            assert(!lines_balance(argument_body(text@, arguments@[i as int])));
            return false;
        }
        i = i + 1;
    }
    true
}

/// Whether a macro survives the split into one leaf for each line: every leaf of
/// an equation has to balance its own braces.
pub open spec fn representable(text: Seq<char>, kind: RawRdKindView) -> bool {
    match kind {
        RawRdKindView::ZeroArgument(_) => true,
        RawRdKindView::Equation { tag, arguments } => arguments_balance(text, arguments),
    }
}

fn is_representable(text: &str, kind: &RawRdKind) -> (r: bool)
    ensures
        r == representable(text@, kind@),
{
    match kind {
        RawRdKind::ZeroArgument(_) => true,
        RawRdKind::Equation { tag: _, arguments } => each_argument_balances(text, arguments),
    }
}

/// The macros of a text: those that become nodes, and the places of those that
/// do not.
pub struct PreparationView {
    pub macros: Seq<RawRdMacroView>,
    pub unsupported: Seq<ByteRange>,
}

/// Whether a macro that was found becomes a node.
pub open spec fn becomes_node(text: Seq<char>, facts: FactsView, found: ScannedView) -> bool {
    found.kind is Some && accepts(text, facts, found.source) && representable(text, found.kind->0)
}

/// The first `count` macros that were found.
pub open spec fn sorted_out(
    text: Seq<char>,
    facts: FactsView,
    found: Seq<ScannedView>,
    count: int,
) -> PreparationView
    decreases count,
{
    if count <= 0 {
        PreparationView { macros: Seq::empty(), unsupported: Seq::empty() }
    } else {
        let before = sorted_out(text, facts, found, count - 1);
        let item = found[count - 1];
        if becomes_node(text, facts, item) {
            PreparationView {
                macros: before.macros.push(
                    RawRdMacroView { source: item.source, kind: item.kind->0 },
                ),
                ..before
            }
        } else {
            PreparationView { unsupported: before.unsupported.push(item.source), ..before }
        }
    }
}

/// The macros of a text with the given events.
pub open spec fn prepared(text: Seq<char>, events: Seq<SourcedEventView>) -> PreparationView {
    let facts = facts_of(events);
    let found = scanned(text, facts.opaque);
    sorted_out(text, facts, found, found.len() as int)
}

/// The macros of a text.
#[derive(Debug, PartialEq, Eq)]
pub struct RawRdPreparation {
    pub macros: Vec<RawRdMacro>,
    pub unsupported: Vec<ByteRange>,
}

impl View for RawRdPreparation {
    type V = PreparationView;

    open spec fn view(&self) -> PreparationView {
        PreparationView { macros: macro_views(self.macros@), unsupported: self.unsupported@ }
    }
}

impl RawRdPreparation {
    /// Finds the macros of a text with the given events.
    pub fn new(text: &str, events: &Vec<SourcedEvent>) -> (r: Self)
        ensures
            r@ == prepared(text@, event_views(events@)),
    {
        let facts = EventFacts::new(events);
        let found = scan_source(text, &facts.opaque);
        let mut sweep = CandidateSweep::new();
        let mut out = RawRdPreparation::disabled();
        let ghost all = found@;
        let ghost shown = scanned_views(all);
        proof {
            facts_are_in_text_order(event_views(events@));
        }
        for item in it: found
            invariant
                it.seq() == all,
                shown == scanned_views(all),
                facts@ == facts_of(event_views(events@)),
                super::accept::in_text_order(facts@.coverage),
                super::accept::events_in_text_order(facts@.text_events),
                sweep.fits(facts@),
                out@ == sorted_out(text@, facts@, shown, it.index() as int),
        {
            let ghost before = out@;
            let ghost given = item@;
            proof {
                assert(shown[it.index() as int] == item@);
            }
            let ScannedMacro { source, kind } = item;
            match kind {
                Some(kind) => {
                    if sweep.accepts_candidate(text, &facts, source) && is_representable(
                        text,
                        &kind,
                    ) {
                        out.macros.push(RawRdMacro { source, kind });
                        proof {
                            assert(out@.macros =~= before.macros.push(
                                RawRdMacroView { source, kind: given.kind->0 },
                            ));
                        }
                    } else {
                        out.unsupported.push(source);
                    }
                },
                None => {
                    out.unsupported.push(source);
                },
            }
        }
        out
    }

    /// A text whose macros are literal.
    pub fn disabled() -> (r: Self)
        ensures
            r@ == (PreparationView { macros: Seq::empty(), unsupported: Seq::empty() }),
    {
        let r = RawRdPreparation { macros: Vec::new(), unsupported: Vec::new() };
        proof {
            assert(r@.macros =~= Seq::<RawRdMacroView>::empty());
        }
        r
    }
}

/// The first macro, from `next` on, that ends behind a position.
pub open spec fn advanced(macros: Seq<RawRdMacroView>, next: int, position: usize) -> int
    decreases macros.len() - next,
{
    if 0 <= next < macros.len() && macros[next].source.end <= position {
        advanced(macros, next + 1, position)
    } else {
        next
    }
}

/// Finds the first macro that ends behind a position.
pub fn advance_before(macros: &Vec<RawRdMacro>, next: usize, position: usize) -> (r: usize)
    requires
        next <= macros@.len(),
    ensures
        r == advanced(macro_views(macros@), next as int, position),
        next <= r <= macros@.len(),
        r < macros@.len() ==> macros@[r as int].source.end > position,
{
    let mut at: usize = next;
    while at < macros.len() && macros[at].source.end <= position
        invariant
            next <= at <= macros@.len(),
            advanced(macro_views(macros@), next as int, position) == advanced(
                macro_views(macros@),
                at as int,
                position,
            ),
        decreases macros@.len() - at,
    {
        proof {
            assert(macro_views(macros@)[at as int] == macros@[at as int]@);
        }
        at = at + 1;
    }
    proof {
        if at < macros@.len() {
            assert(macro_views(macros@)[at as int] == macros@[at as int]@);
        }
    }
    at
}

/// Whether an event lies in a macro and is not all of it.
pub open spec fn hidden_by(source: ByteRange, range: ByteRange) -> bool {
    source.start <= range.start && range.end <= source.end && source != range
}

/// Whether an event lies in the macro at a place.
pub open spec fn hidden_at(macros: Seq<RawRdMacroView>, at: int, range: ByteRange) -> bool {
    0 <= at < macros.len() && hidden_by(macros[at].source, range)
}

/// Whether an event lies in the macro at a place.
pub fn is_hidden_at(macros: &Vec<RawRdMacro>, at: usize, range: ByteRange) -> (r: bool)
    ensures
        r == hidden_at(macro_views(macros@), at as int, range),
{
    if at >= macros.len() {
        return false;
    }
    proof {
        assert(macro_views(macros@)[at as int] == macros@[at as int]@);
    }
    let source = macros[at].source;
    source.start <= range.start && range.end <= source.end && (source.start < range.start
        || range.end < source.end)
}

/// The groups of the first `count` arguments of an equation.
pub open spec fn argument_groups(
    source: SourcedText,
    arguments: Seq<RawRdArgument>,
    count: int,
) -> Seq<OriginView>
    decreases count,
{
    if count <= 0 {
        Seq::empty()
    } else {
        let argument = arguments[count - 1];
        let inner = spans_of(source, body_range(argument).start, body_range(argument).end);
        argument_groups(source, arguments, count - 1).push(
            group(
                verb_leaves(argument_body(source.text@, argument), inner),
                spans_of(source, argument.open, argument.close),
            ),
        )
    }
}

/// The node of a raw macro.
pub open spec fn raw_node(source: SourcedText, raw: RawRdMacroView) -> OriginView {
    let spans = spans_of(source, raw.source.start, raw.source.end);
    match raw.kind {
        RawRdKindView::ZeroArgument(tag) => tagged(tag, Seq::empty(), spans),
        RawRdKindView::Equation { tag, arguments } => tagged(
            tag,
            argument_groups(source, arguments, arguments.len() as int),
            spans,
        ),
    }
}

/// Makes the node of a raw macro.
pub fn make_node(source: &SourcedText, raw: &RawRdMacro) -> (r: NodeWithOrigin)
    ensures
        r@ == raw_node(*source, raw@),
{
    let spans = range_spans(source, raw.source.start, raw.source.end);
    match &raw.kind {
        RawRdKind::ZeroArgument(tag) => make_tagged(*tag, no_nodes(), spans),
        RawRdKind::Equation { tag, arguments } => {
            let mut groups = no_nodes();
            let mut i: usize = 0;
            while i < arguments.len()
                invariant
                    i <= arguments@.len(),
                    origin_views(groups) == argument_groups(*source, arguments@, i as int),
                decreases arguments@.len() - i,
            {
                let argument = arguments[i];
                let body = body_bytes(argument);
                let inner = range_spans(source, body.start, body.end);
                let leaves = make_verb_leaves(body_of(&source.text, argument), &inner);
                let outer = range_spans(source, argument.open, argument.close);
                push_node(&mut groups, make_group(leaves, outer));
                i = i + 1;
            }
            make_tagged(*tag, groups, spans)
        },
    }
}

} // verus!
