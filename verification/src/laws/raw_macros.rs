//! Laws of the Rd macros that a Markdown text holds.
use crate::markdown_conversion::link::{rendered, rendered_all};
use crate::markdown_conversion::origin::ShapeView;
use crate::markdown_conversion::position::spans_of;
use crate::markdown_conversion::raw_rd::accept::{
    accepts, contained_upto, in_text_order, reach, touching_upto,
};
use crate::markdown_conversion::raw_rd::facts::{
    facts_of, with_construct, with_range, with_text_event, Construct, ConstructKind, FactsView,
};
use crate::markdown_conversion::raw_rd::prepare::{
    argument_body, argument_groups, balances, raw_node, sorted_out, PreparationView, RawRdMacroView,
};
use crate::markdown_conversion::raw_rd::scan::{
    brace_group, brace_groups_close, covering_end, equation_arguments, first_argument, group_end,
    is_letter, macro_step, name_end, name_text, option_end, scan_step, scanned, scanned_from,
    zero_argument_macro, ByteRange, RawRdArgument, RawRdKindView, ScannedView,
};
use crate::markdown_conversion::events::{
    MarkdownEventView, MarkdownTagView, SourcedEventView, TagKind,
};
use crate::markdown_conversion::leaf::line_chunks;
use crate::rd::{RdMacro, TagView};
use crate::source::byte_slice;
use crate::tags::SourcedText;
use vstd::prelude::*;
use vstd::utf8::encode_utf8;

use super::markdown_shapes::leaves_show_their_text;

verus! {

/// Whether bytes hold no backslash and no brace.
pub open spec fn plain(bytes: Seq<u8>) -> bool {
    forall|i: int|
        0 <= i < bytes.len() ==> #[trigger] bytes[i] != 0x5c && bytes[i] != 0x7b && bytes[i]
            != 0x7d
}

proof fn plain_runs_are_passed(bytes: Seq<u8>, at: int, to: int, depth: nat)
    requires
        0 <= at <= to <= bytes.len(),
        plain(bytes.subrange(at, to)),
    ensures
        group_end(bytes, at, depth, false) == group_end(bytes, to, depth, false),
    decreases to - at,
{
    if at < to {
        assert(bytes.subrange(at, to)[0] == bytes[at]);
        assert forall|i: int| 0 <= i < bytes.subrange(at + 1, to).len() implies #[trigger]
            bytes.subrange(at + 1, to)[i] != 0x5c && bytes.subrange(at + 1, to)[i] != 0x7b
            && bytes.subrange(at + 1, to)[i] != 0x7d by {
            assert(bytes.subrange(at, to)[i + 1] == bytes.subrange(at + 1, to)[i]);
        }
        plain_runs_are_passed(bytes, at + 1, to, depth);
    }
}

/// A brace group ends at the brace that closes it: groups inside it, and braces behind a
/// backslash, do not end it, and neither does what stands behind it.
pub proof fn groups_end_at_their_brace(
    before: Seq<u8>,
    a: Seq<u8>,
    escaped: u8,
    b: Seq<u8>,
    c: Seq<u8>,
    d: Seq<u8>,
    behind: Seq<u8>,
)
    requires
        plain(a),
        plain(b),
        plain(c),
        plain(d),
    ensures
        ({
            let inside = a + seq![0x5cu8, escaped] + b + seq![0x7bu8] + c + seq![0x7du8] + d;
            brace_group(before + seq![0x7bu8] + inside + seq![0x7du8] + behind, before.len() as int)
                == Some((before.len() + inside.len() + 2) as int)
        }),
        brace_group(before + seq![0x7bu8] + a + seq![0x7du8] + behind, before.len() as int) == Some(
            (before.len() + a.len() + 2) as int,
        ),
{
    let inside = a + seq![0x5cu8, escaped] + b + seq![0x7bu8] + c + seq![0x7du8] + d;
    let bytes = before + seq![0x7bu8] + inside + seq![0x7du8] + behind;
    let open: int = before.len() as int;
    let p: int = open + 1 + a.len();
    assert(bytes[open] == 0x7b);
    assert(bytes.subrange(open + 1, p) =~= a);
    plain_runs_are_passed(bytes, open + 1, p, 1);
    assert(bytes[p] == 0x5c);
    assert(bytes[p + 1] == escaped);
    assert(group_end(bytes, p, 1, false) == group_end(bytes, p + 2, 1, false)) by {
        assert(group_end(bytes, p, 1, false) == group_end(bytes, p + 1, 1, true));
    }
    let q: int = p + 2 + b.len();
    assert(bytes.subrange(p + 2, q) =~= b);
    plain_runs_are_passed(bytes, p + 2, q, 1);
    assert(bytes[q] == 0x7b);
    let s: int = q + 1 + c.len();
    assert(bytes.subrange(q + 1, s) =~= c);
    plain_runs_are_passed(bytes, q + 1, s, 2);
    assert(bytes[s] == 0x7d);
    let t: int = s + 1 + d.len();
    assert(bytes.subrange(s + 1, t) =~= d);
    plain_runs_are_passed(bytes, s + 1, t, 1);
    assert(bytes[t] == 0x7d);
    let short = before + seq![0x7bu8] + a + seq![0x7du8] + behind;
    assert(short[open] == 0x7b);
    assert(short.subrange(open + 1, p) =~= a);
    plain_runs_are_passed(short, open + 1, p, 1);
    assert(short[p] == 0x7d);
}

proof fn open_groups(bytes: Seq<u8>, at: int, depth: nat, escaped: bool)
    requires
        0 <= at,
        forall|i: int| at <= i < bytes.len() ==> #[trigger] bytes[i] != 0x7d,
    ensures
        group_end(bytes, at, depth, escaped) is None,
    decreases bytes.len() - at,
{
    if at < bytes.len() {
        if bytes[at] == 0x5c {
            open_groups(bytes, at + 1, depth, !escaped);
        } else if bytes[at] == 0x7b && !escaped {
            open_groups(bytes, at + 1, depth + 1, false);
        } else {
            open_groups(bytes, at + 1, depth, false);
        }
    }
}

/// A group that nothing closes, and a byte that is no brace, give no group.
pub proof fn unclosed_groups_are_none(bytes: Seq<u8>, open: int)
    requires
        0 <= open,
    ensures
        (forall|i: int| open <= i < bytes.len() ==> #[trigger] bytes[i] != 0x7d) ==> brace_group(
            bytes,
            open,
        ) is None,
        open >= bytes.len() || bytes[open] != 0x7b ==> brace_group(bytes, open) is None,
{
    if forall|i: int| open <= i < bytes.len() ==> #[trigger] bytes[i] != 0x7d {
        open_groups(bytes, open, 0, false);
    }
}

proof fn option_runs_are_passed(bytes: Seq<u8>, at: int, to: int)
    requires
        0 <= at <= to <= bytes.len(),
        forall|i: int| at <= i < to ==> #[trigger] bytes[i] != 0x5c && bytes[i] != 0x5d,
    ensures
        option_end(bytes, at, false) == option_end(bytes, to, false),
    decreases to - at,
{
    if at < to {
        option_runs_are_passed(bytes, at + 1, to);
    }
}

/// An option ends at the first bracket that no backslash stands before.
pub proof fn options_end_at_their_bracket(
    before: Seq<u8>,
    a: Seq<u8>,
    escaped: u8,
    b: Seq<u8>,
    behind: Seq<u8>,
)
    requires
        !a.contains(0x5c),
        !a.contains(0x5d),
        !b.contains(0x5c),
        !b.contains(0x5d),
    ensures
        option_end(
            before + seq![0x5bu8] + a + seq![0x5cu8, escaped] + b + seq![0x5du8] + behind,
            before.len() as int + 1,
            false,
        ) == Some((before.len() + a.len() + b.len() + 4) as int),
        option_end(
            before + seq![0x5bu8] + a + seq![0x5du8] + behind,
            before.len() as int + 1,
            false,
        ) == Some((before.len() + a.len() + 2) as int),
{
    let bytes = before + seq![0x5bu8] + a + seq![0x5cu8, escaped] + b + seq![0x5du8] + behind;
    let p: int = before.len() as int + 1 + a.len();
    assert forall|i: int| before.len() + 1 <= i < p implies #[trigger] bytes[i] != 0x5c && bytes[i]
        != 0x5d by {
        assert(bytes[i] == a[i - before.len() - 1]);
        assert(a.contains(a[i - before.len() - 1]));
    }
    option_runs_are_passed(bytes, before.len() as int + 1, p);
    assert(bytes[p] == 0x5c);
    assert(bytes[p + 1] == escaped);
    assert(option_end(bytes, p, false) == option_end(bytes, p + 1, true));
    let q: int = p + 2 + b.len();
    assert forall|i: int| p + 2 <= i < q implies #[trigger] bytes[i] != 0x5c && bytes[i]
        != 0x5d by {
        assert(bytes[i] == b[i - p - 2]);
        assert(b.contains(b[i - p - 2]));
    }
    option_runs_are_passed(bytes, p + 2, q);
    assert(bytes[q] == 0x5d);
    let short = before + seq![0x5bu8] + a + seq![0x5du8] + behind;
    assert forall|i: int| before.len() + 1 <= i < p implies #[trigger] short[i] != 0x5c && short[i]
        != 0x5d by {
        assert(short[i] == a[i - before.len() - 1]);
        assert(a.contains(a[i - before.len() - 1]));
    }
    option_runs_are_passed(short, before.len() as int + 1, p);
    assert(short[p] == 0x5d);
}

/// An equation takes the group behind its name, and the next one where it follows at once. A
/// group that does not end leaves no equation.
pub proof fn equations_take_one_or_two_groups(bytes: Seq<u8>, open: usize, close: usize, end: usize)
    requires
        bytes.len() <= usize::MAX,
        brace_group(bytes, open as int) == Some(close as int),
    ensures
        close == bytes.len() || bytes[close as int] != 0x7b ==> equation_arguments(
            bytes,
            open as int,
        ) == Some(seq![RawRdArgument { open, close }]),
        brace_group(bytes, close as int) == Some(end as int) ==> equation_arguments(
            bytes,
            open as int,
        ) == Some(
            seq![RawRdArgument { open, close }, RawRdArgument { open: close, close: end }],
        ),
        close < bytes.len() && bytes[close as int] == 0x7b && brace_group(bytes, close as int)
            is None ==> equation_arguments(bytes, open as int) is None,
{
    brace_groups_close(bytes, open as int);
}

/// The number of backslashes that stand directly before a byte.
pub open spec fn backslashes_before(bytes: Seq<u8>, at: int) -> nat
    decreases at,
{
    if at <= 0 || bytes[at - 1] != 0x5c {
        0
    } else {
        backslashes_before(bytes, at - 1) + 1
    }
}

proof fn names_go_on(bytes: Seq<u8>, at: int)
    requires
        0 <= at <= bytes.len(),
    ensures
        at <= name_end(bytes, at) <= bytes.len(),
        name_end(bytes, at) > at ==> bytes[name_end(bytes, at) - 1] != 0x5c,
    decreases bytes.len() - at,
{
    if at < bytes.len() {
        names_go_on(bytes, at + 1);
    }
}

proof fn steps_find(text: Seq<char>, at: int)
    requires
        encode_utf8(text).len() <= usize::MAX,
        0 <= at,
        at + 1 < encode_utf8(text).len(),
        is_letter(encode_utf8(text)[at + 1]),
    ensures
        ({
            let step = macro_step(text, at);
            let bytes = encode_utf8(text);
            &&& at < step.next <= bytes.len()
            &&& match step.found {
                Some(found) => found.source.start == at && found.source.end == step.next
                    && !step.escaped && (step.next < bytes.len() ==> bytes[step.next - 1] != 0x5c),
                None => step.escaped && step.next == at + 1,
            }
        }),
{
    let bytes = encode_utf8(text);
    let end = name_end(bytes, at + 1);
    names_go_on(bytes, at + 1);
    assert(end > at + 1) by {
        names_go_on(bytes, at + 2);
    }
    if let Some(open) = first_argument(bytes, end) {
        option_goes_on(bytes, end + 1, false);
        brace_groups_close(bytes, open);
        if let Some(close) = brace_group(bytes, open) {
            brace_groups_close(bytes, close);
        }
    }
}

proof fn option_goes_on(bytes: Seq<u8>, at: int, escaped: bool)
    requires
        0 <= at,
    ensures
        option_end(bytes, at, escaped) matches Some(end) ==> at < end <= bytes.len(),
    decreases bytes.len() - at,
{
    if at < bytes.len() {
        option_goes_on(bytes, at + 1, !escaped);
        option_goes_on(bytes, at + 1, false);
    }
}

/// Whether a range covers a byte.
pub open spec fn covers(range: ByteRange, at: int) -> bool {
    range.start <= at < range.end
}

proof fn covering(ranges: Seq<ByteRange>, from: int, at: int)
    requires
        0 <= from,
        in_text_order(ranges),
    ensures
        covering_end(ranges, from, at) is None ==> forall|k: int|
            from <= k < ranges.len() ==> !covers(#[trigger] ranges[k], at),
        covering_end(ranges, from, at) matches Some(end) ==> end > at && exists|k: int|
            from <= k < ranges.len() && covers(#[trigger] ranges[k], at) && ranges[k].end == end,
    decreases ranges.len() - from,
{
    if from < ranges.len() {
        covering(ranges, from + 1, at);
        if ranges[from].end > at && ranges[from].start <= at {
            assert(covers(ranges[from], at));
        }
    }
}

proof fn found_at_backslashes(
    text: Seq<char>,
    opaque: Seq<ByteRange>,
    at: int,
    escaped: bool,
    i: int,
    j: int,
)
    requires
        encode_utf8(text).len() <= usize::MAX,
        in_text_order(opaque),
        0 <= at,
        0 <= i < scanned_from(text, opaque, at, escaped).len(),
    ensures
        ({
            let bytes = encode_utf8(text);
            let list = scanned_from(text, opaque, at, escaped);
            let source = list[i].source;
            &&& at <= source.start
            &&& source.start + 1 < source.end <= bytes.len()
            &&& bytes[source.start as int] == 0x5c
            &&& is_letter(bytes[source.start + 1])
            &&& forall|k: int|
                0 <= k < opaque.len() ==> !covers(#[trigger] opaque[k], source.start as int)
            &&& i < j < list.len() ==> source.end <= list[j].source.start
        }),
    decreases encode_utf8(text).len() - at,
{
    let bytes = encode_utf8(text);
    covering(opaque, 0, at);
    let step = scan_step(text, opaque, at, escaped);
    if covering_end(opaque, 0, at) is None && bytes[at] == 0x5c && !escaped && at + 1 < bytes.len()
        && is_letter(bytes[at + 1]) {
        steps_find(text, at);
        names_go_on(bytes, at + 2);
    }
    if step.found is Some {
        let rest = if at < step.next < bytes.len() {
            scanned_from(text, opaque, step.next, step.escaped)
        } else {
            Seq::empty()
        };
        assert(scanned_from(text, opaque, at, escaped) =~= seq![step.found->0] + rest);
        if i > 0 {
            found_at_backslashes(text, opaque, step.next, step.escaped, i - 1, j - 1);
        } else if i < j < 1 + rest.len() {
            found_at_backslashes(text, opaque, step.next, step.escaped, j - 1, j - 1);
        }
        assert(step.found->0.source.start + 1 < step.found->0.source.end) by {
            macros_are_long(text, at);
        }
    } else {
        found_at_backslashes(text, opaque, step.next, step.escaped, i, j);
    }
}

proof fn macros_are_long(text: Seq<char>, at: int)
    requires
        encode_utf8(text).len() <= usize::MAX,
        0 <= at,
        at + 1 < encode_utf8(text).len(),
        is_letter(encode_utf8(text)[at + 1]),
    ensures
        macro_step(text, at).found matches Some(found) ==> at + 1 < found.source.end,
{
    let bytes = encode_utf8(text);
    let end = name_end(bytes, at + 1);
    names_go_on(bytes, at + 1);
    names_go_on(bytes, at + 2);
    if let Some(open) = first_argument(bytes, end) {
        option_goes_on(bytes, end + 1, false);
        brace_groups_close(bytes, open);
        if let Some(close) = brace_group(bytes, open) {
            brace_groups_close(bytes, close);
        }
    }
}

/// Every macro that is found starts at a backslash with a letter behind it, outside all code.
/// The macros stand in text order and share no byte.
pub proof fn macros_start_at_backslashes(text: Seq<char>, opaque: Seq<ByteRange>, i: int, j: int)
    requires
        encode_utf8(text).len() <= usize::MAX,
        in_text_order(opaque),
        0 <= i < scanned(text, opaque).len(),
    ensures
        ({
            let bytes = encode_utf8(text);
            let source = scanned(text, opaque)[i].source;
            &&& source.start + 1 < source.end <= bytes.len()
            &&& bytes[source.start as int] == 0x5c
            &&& is_letter(bytes[source.start + 1])
            &&& forall|k: int|
                0 <= k < opaque.len() ==> !(#[trigger] opaque[k].start <= source.start
                    < opaque[k].end)
            &&& i < j < scanned(text, opaque).len() ==> source.end <= scanned(
                text,
                opaque,
            )[j].source.start
        }),
{
    found_at_backslashes(text, opaque, 0, false, i, j);
    let source = scanned(text, opaque)[i].source;
    assert forall|k: int| 0 <= k < opaque.len() implies !(#[trigger] opaque[k].start
        <= source.start < opaque[k].end) by {
        assert(!covers(opaque[k], source.start as int));
    }
}

proof fn parity_is_kept(text: Seq<char>, at: int, escaped: bool, i: int)
    requires
        encode_utf8(text).len() <= usize::MAX,
        0 <= at,
        escaped == (backslashes_before(encode_utf8(text), at) % 2 == 1),
        0 <= i < scanned_from(text, Seq::empty(), at, escaped).len(),
    ensures
        backslashes_before(
            encode_utf8(text),
            scanned_from(text, Seq::empty(), at, escaped)[i].source.start as int,
        ) % 2 == 0,
    decreases encode_utf8(text).len() - at,
{
    let bytes = encode_utf8(text);
    let opaque = Seq::<ByteRange>::empty();
    let step = scan_step(text, opaque, at, escaped);
    if bytes[at] == 0x5c && !escaped && at + 1 < bytes.len() && is_letter(bytes[at + 1]) {
        steps_find(text, at);
    }
    assert(backslashes_before(bytes, at + 1) == if bytes[at] == 0x5c {
        backslashes_before(bytes, at) + 1
    } else {
        0
    });
    if step.found is Some {
        let rest = if at < step.next < bytes.len() {
            scanned_from(text, opaque, step.next, step.escaped)
        } else {
            Seq::empty()
        };
        assert(scanned_from(text, opaque, at, escaped) =~= seq![step.found->0] + rest);
        if i > 0 {
            parity_is_kept(text, step.next, step.escaped, i - 1);
        }
    } else {
        parity_is_kept(text, step.next, step.escaped, i);
    }
}

/// A macro starts only where an even number of backslashes stands before it: `\\R` is a
/// backslash and a letter.
pub proof fn escaped_backslashes_start_no_macros(text: Seq<char>, i: int)
    requires
        encode_utf8(text).len() <= usize::MAX,
        0 <= i < scanned(text, Seq::empty()).len(),
    ensures
        backslashes_before(
            encode_utf8(text),
            scanned(text, Seq::empty())[i].source.start as int,
        ) % 2 == 0,
{
    parity_is_kept(text, 0, false, i);
}

/// Whether a macro is in a list, or starts within one that is.
pub open spec fn is_found(list: Seq<ScannedView>, found: ScannedView) -> bool {
    exists|i: int|
        0 <= i < list.len() && (#[trigger] list[i] == found || list[i].source.start
            < found.source.start < list[i].source.end)
}

proof fn reached(text: Seq<char>, at: int, escaped: bool, target: int)
    requires
        encode_utf8(text).len() <= usize::MAX,
        0 <= at <= target,
        target + 1 < encode_utf8(text).len(),
        escaped == (backslashes_before(encode_utf8(text), at) % 2 == 1),
        backslashes_before(encode_utf8(text), target) % 2 == 0,
        encode_utf8(text)[target] == 0x5c,
        is_letter(encode_utf8(text)[target + 1]),
        macro_step(text, target).found is Some,
    ensures
        is_found(
            scanned_from(text, Seq::empty(), at, escaped),
            macro_step(text, target).found->0,
        ),
    decreases encode_utf8(text).len() - at,
{
    let bytes = encode_utf8(text);
    let opaque = Seq::<ByteRange>::empty();
    let step = scan_step(text, opaque, at, escaped);
    let list = scanned_from(text, opaque, at, escaped);
    let wanted = macro_step(text, target).found->0;
    steps_find(text, target);
    if bytes[at] == 0x5c && !escaped && is_letter(bytes[at + 1]) {
        steps_find(text, at);
    }
    assert(backslashes_before(bytes, at + 1) == if bytes[at] == 0x5c {
        backslashes_before(bytes, at) + 1
    } else {
        0
    });
    let rest = if at < step.next < bytes.len() {
        scanned_from(text, opaque, step.next, step.escaped)
    } else {
        Seq::empty()
    };
    if at == target {
        assert(list =~= seq![wanted] + rest);
        assert(list[0] == wanted);
    } else if step.next > target {
        assert(step.found is Some);
        assert(list =~= seq![step.found->0] + rest);
        assert(list[0].source.start < wanted.source.start < list[0].source.end);
    } else {
        reached(text, step.next, step.escaped, target);
        let k = choose|k: int|
            0 <= k < rest.len() && (#[trigger] rest[k] == wanted || rest[k].source.start
                < wanted.source.start < rest[k].source.end);
        if step.found is Some {
            assert(list =~= seq![step.found->0] + rest);
            assert(list[k + 1] == rest[k]);
        } else {
            assert(list == rest);
        }
    }
}

/// The bytes from one place to another.
pub open spec fn between(from: int, to: int) -> ByteRange {
    ByteRange { start: from as usize, end: to as usize }
}

/// A word macro between two places.
pub open spec fn word_at(from: int, to: int, tag: RdMacro) -> ScannedView {
    ScannedView { source: between(from, to), kind: Some(RawRdKindView::ZeroArgument(tag)) }
}

/// Every name behind an unescaped backslash, in a text without code, that is a known word or has
/// a brace group behind it is found, unless a macro before it reaches over it. The word macros
/// stand without braces; an equation has its arguments; any other macro has no kind.
pub proof fn macros_are_found(text: Seq<char>, at: int, end: int)
    requires
        encode_utf8(text).len() <= usize::MAX,
        0 <= at,
        at + 1 < encode_utf8(text).len(),
        encode_utf8(text)[at] == 0x5c,
        is_letter(encode_utf8(text)[at + 1]),
        backslashes_before(encode_utf8(text), at) % 2 == 0,
        end == name_end(encode_utf8(text), at + 1),
    ensures
        ({
            let bytes = encode_utf8(text);
            let list = scanned(text, Seq::empty());
            let name = name_text(text, at + 1, end);
            let bare = end == bytes.len() || (bytes[end] != 0x7b && bytes[end] != 0x5b);
            &&& bare && name == "R"@ ==> is_found(list, word_at(at, end, RdMacro::R))
            &&& bare && name == "dots"@ ==> is_found(list, word_at(at, end, RdMacro::Dots))
            &&& bare && name == "ldots"@ ==> is_found(list, word_at(at, end, RdMacro::LDots))
            &&& bare && name == "cr"@ ==> is_found(list, word_at(at, end, RdMacro::Cr))
            &&& bare && name == "sspace"@ ==> is_found(list, word_at(at, end, RdMacro::Sspace))
            &&& bare && name == "tab"@ ==> is_found(
                list,
                ScannedView { source: between(at, end), kind: None },
            )
            &&& name == "eqn"@ && equation_arguments(bytes, end) is Some ==> is_found(
                list,
                ScannedView {
                    source: between(at, equation_arguments(bytes, end)->0.last().close as int),
                    kind: Some(
                        RawRdKindView::Equation {
                            tag: RdMacro::Eqn,
                            arguments: equation_arguments(bytes, end)->0,
                        },
                    ),
                },
            )
            &&& name == "deqn"@ && equation_arguments(bytes, end) is Some ==> is_found(
                list,
                ScannedView {
                    source: between(at, equation_arguments(bytes, end)->0.last().close as int),
                    kind: Some(
                        RawRdKindView::Equation {
                            tag: RdMacro::Deqn,
                            arguments: equation_arguments(bytes, end)->0,
                        },
                    ),
                },
            )
            &&& name != "eqn"@ && name != "deqn"@ && brace_group(bytes, end) is Some ==> is_found(
                list,
                ScannedView { source: between(at, brace_group(bytes, end)->0), kind: None },
            )
        }),
{
    let bytes = encode_utf8(text);
    let name = name_text(text, at + 1, end);
    let bare = end == bytes.len() || (bytes[end] != 0x7b && bytes[end] != 0x5b);
    names_go_on(bytes, at + 1);
    reveal_strlit("R");
    reveal_strlit("dots");
    reveal_strlit("ldots");
    reveal_strlit("cr");
    reveal_strlit("sspace");
    reveal_strlit("tab");
    reveal_strlit("eqn");
    reveal_strlit("deqn");
    assert("eqn"@[0] == 'e');
    assert("tab"@[0] == 't');
    assert("dots"@[1] == 'o');
    assert("deqn"@[1] == 'e');
    let found = macro_step(text, at).found;
    if found is Some {
        reached(text, 0, false, at);
    }
    assert("R"@.len() == 1 && "cr"@.len() == 2 && "tab"@.len() == 3 && "eqn"@.len() == 3);
    assert("dots"@.len() == 4 && "deqn"@.len() == 4 && "ldots"@.len() == 5 && "sspace"@.len() == 6);
    assert(zero_argument_macro("R"@) == Some(RdMacro::R));
    assert(zero_argument_macro("dots"@) == Some(RdMacro::Dots));
    assert(zero_argument_macro("ldots"@) == Some(RdMacro::LDots));
    assert(zero_argument_macro("cr"@) == Some(RdMacro::Cr));
    assert(zero_argument_macro("sspace"@) == Some(RdMacro::Sspace));
    if found is Some {
        assert(is_found(scanned(text, Seq::empty()), found->0));
    }
    if bare && zero_argument_macro(name) is Some {
        assert(found == Some(
            ScannedView {
                source: between(at, end),
                kind: Some(RawRdKindView::ZeroArgument(zero_argument_macro(name)->0)),
            },
        ));
    }
    if bare && name == "tab"@ {
        assert(zero_argument_macro(name) is None);
        assert(found == Some(ScannedView { source: between(at, end), kind: None }));
    }
    if let Some(arguments) = equation_arguments(bytes, end) {
        assert(bytes[end] == 0x7b);
        let close = arguments.last().close as int;
        if name == "eqn"@ {
            assert(found == Some(
                ScannedView {
                    source: between(at, close),
                    kind: Some(RawRdKindView::Equation { tag: RdMacro::Eqn, arguments }),
                },
            ));
        }
        if name == "deqn"@ {
            assert(found == Some(
                ScannedView {
                    source: between(at, close),
                    kind: Some(RawRdKindView::Equation { tag: RdMacro::Deqn, arguments }),
                },
            ));
        }
    }
    if name != "eqn"@ && name != "deqn"@ && brace_group(bytes, end) is Some {
        assert(bytes[end] == 0x7b);
        assert(found == Some(
            ScannedView { source: between(at, brace_group(bytes, end)->0), kind: None },
        ));
    }
}

/// Macros without known words, and groups that nothing closes, are left as text: a name without
/// a group behind it that is no known word starts no macro.
pub proof fn plain_names_are_text(text: Seq<char>, i: int, end: int)
    requires
        encode_utf8(text).len() <= usize::MAX,
        0 <= i < scanned(text, Seq::empty()).len(),
        end == name_end(encode_utf8(text), scanned(text, Seq::empty())[i].source.start + 1),
        end == encode_utf8(text).len() || (encode_utf8(text)[end] != 0x7b && encode_utf8(text)[end]
            != 0x5b),
    ensures
        ({
            let found = scanned(text, Seq::empty())[i];
            let name = name_text(text, found.source.start + 1, end);
            &&& found.source.end == end
            &&& name == "R"@ || name == "dots"@ || name == "ldots"@ || name == "cr"@ || name
                == "sspace"@ || (name == "tab"@ && found.kind is None)
        }),
{
    steps_are_listed(text, 0, false, i);
    let start = scanned(text, Seq::empty())[i].source.start as int;
    found_at_backslashes(text, Seq::empty(), 0, false, i, i);
    names_go_on(encode_utf8(text), start + 1);
}

proof fn steps_are_listed(text: Seq<char>, at: int, escaped: bool, i: int)
    requires
        encode_utf8(text).len() <= usize::MAX,
        0 <= at,
        0 <= i < scanned_from(text, Seq::empty(), at, escaped).len(),
    ensures
        ({
            let found = scanned_from(text, Seq::empty(), at, escaped)[i];
            macro_step(text, found.source.start as int).found == Some(found)
        }),
    decreases encode_utf8(text).len() - at,
{
    let bytes = encode_utf8(text);
    let opaque = Seq::<ByteRange>::empty();
    let step = scan_step(text, opaque, at, escaped);
    if bytes[at] == 0x5c && !escaped && at + 1 < bytes.len() && is_letter(bytes[at + 1]) {
        steps_find(text, at);
    }
    if step.found is Some {
        let rest = if at < step.next < bytes.len() {
            scanned_from(text, opaque, step.next, step.escaped)
        } else {
            Seq::empty()
        };
        assert(scanned_from(text, opaque, at, escaped) =~= seq![step.found->0] + rest);
        if i > 0 {
            steps_are_listed(text, step.next, step.escaped, i - 1);
        }
    } else {
        steps_are_listed(text, step.next, step.escaped, i);
    }
}

/// Every macro that was found becomes a node or is reported. One without a kind is reported;
/// one that may not stand where it is is reported; a word becomes a node, and so does an
/// equation whose arguments have lines with balanced braces.
pub proof fn found_macros_are_nodes_or_reports(
    text: Seq<char>,
    facts: FactsView,
    found: Seq<ScannedView>,
    count: int,
    i: int,
)
    requires
        0 <= i < count <= found.len(),
    ensures
        ({
            let prepared = sorted_out(text, facts, found, count);
            let fits = accepts(text, facts, found[i].source);
            let balanced = forall|k: int, l: int|
                0 <= k < found[i].kind->0->Equation_arguments.len() && 0 <= l < line_chunks(
                    argument_body(text, found[i].kind->0->Equation_arguments[k]),
                ).len() ==> balances(
                    #[trigger] line_chunks(
                        argument_body(text, found[i].kind->0->Equation_arguments[k]),
                    )[l],
                    0,
                    0,
                    false,
                );
            &&& prepared.macros.len() + prepared.unsupported.len() == count
            &&& found[i].kind is None || !fits ==> prepared.unsupported.contains(found[i].source)
            &&& found[i].kind is Some && fits && found[i].kind->0 is ZeroArgument
                ==> prepared.macros.contains(
                RawRdMacroView { source: found[i].source, kind: found[i].kind->0 },
            )
            &&& found[i].kind is Some && fits && found[i].kind->0 is Equation && balanced
                ==> prepared.macros.contains(
                RawRdMacroView { source: found[i].source, kind: found[i].kind->0 },
            )
            &&& found[i].kind is Some && found[i].kind->0 is Equation && !balanced
                ==> prepared.unsupported.contains(found[i].source)
        }),
    decreases count,
{
    let prepared = sorted_out(text, facts, found, count);
    let before = sorted_out(text, facts, found, count - 1);
    if i < count - 1 {
        found_macros_are_nodes_or_reports(text, facts, found, count - 1, i);
        let raw = RawRdMacroView { source: found[i].source, kind: found[i].kind->0 };
        if before.macros.contains(raw) {
            let k = before.macros.index_of(raw);
            assert(prepared.macros[k] == raw);
        }
        if before.unsupported.contains(found[i].source) {
            let k = before.unsupported.index_of(found[i].source);
            assert(prepared.unsupported[k] == found[i].source);
        }
    } else {
        if count > 1 {
            found_macros_are_nodes_or_reports(text, facts, found, count - 1, 0);
        } else {
            assert(before == PreparationView { macros: Seq::empty(), unsupported: Seq::empty() });
        }
        if prepared.macros.len() > before.macros.len() {
            assert(prepared.macros[before.macros.len() as int].source == found[i].source);
        } else {
            assert(prepared.unsupported[before.unsupported.len() as int] == found[i].source);
        }
    }
}

/// Whether a text holds no backslash and no brace.
pub open spec fn plain_text(text: Seq<char>) -> bool {
    !text.contains('\\') && !text.contains('{') && !text.contains('}')
}

proof fn plain_texts_are_passed(text: Seq<char>, at: int, to: int, depth: nat)
    requires
        0 <= at <= to <= text.len(),
        plain_text(text.subrange(at, to)),
    ensures
        balances(text, at, depth, false) == balances(text, to, depth, false),
    decreases to - at,
{
    if at < to {
        let run = text.subrange(at, to);
        assert(run[0] == text[at]);
        assert(run.contains(run[0]));
        let rest = text.subrange(at + 1, to);
        assert forall|i: int| 0 <= i < rest.len() implies run.contains(#[trigger] rest[i]) by {
            assert(run[i + 1] == rest[i]);
        }
        plain_texts_are_passed(text, at + 1, to, depth);
    }
}

/// Braces balance where each that opens is closed behind it. A brace behind a backslash does not
/// count.
pub proof fn braces_balance(a: Seq<char>, escaped: char, b: Seq<char>, c: Seq<char>)
    requires
        plain_text(a),
        plain_text(b),
        plain_text(c),
    ensures
        balances(a, 0, 0, false),
        balances(a + seq!['\\', escaped] + b, 0, 0, false),
        balances(a + seq!['{'] + b + seq!['}'] + c, 0, 0, false),
        !balances(a + seq!['{'] + b, 0, 0, false),
        !balances(a + seq!['}'] + b, 0, 0, false),
        !balances(a + seq!['}'] + b + seq!['{'] + c, 0, 0, false),
{
    let n: int = a.len() as int;
    assert(a.subrange(0, n) =~= a);
    plain_texts_are_passed(a, 0, n, 0);
    let x = a + seq!['\\', escaped] + b;
    assert(x.subrange(0, n) =~= a);
    plain_texts_are_passed(x, 0, n, 0);
    assert(x[n] == '\\');
    assert(balances(x, n, 0, false) == balances(x, n + 1, 0, true));
    assert(x.subrange(n + 2, x.len() as int) =~= b);
    plain_texts_are_passed(x, n + 2, x.len() as int, 0);
    let y = a + seq!['{'] + b + seq!['}'] + c;
    let m: int = n + 1 + b.len();
    assert(y.subrange(0, n) =~= a);
    plain_texts_are_passed(y, 0, n, 0);
    assert(y[n] == '{');
    assert(y.subrange(n + 1, m) =~= b);
    plain_texts_are_passed(y, n + 1, m, 1);
    assert(y[m] == '}');
    assert(y.subrange(m + 1, y.len() as int) =~= c);
    plain_texts_are_passed(y, m + 1, y.len() as int, 0);
    let z = a + seq!['{'] + b;
    assert(z.subrange(0, n) =~= a);
    plain_texts_are_passed(z, 0, n, 0);
    assert(z[n] == '{');
    assert(z.subrange(n + 1, m) =~= b);
    plain_texts_are_passed(z, n + 1, m, 1);
    let w = a + seq!['}'] + b;
    assert(w.subrange(0, n) =~= a);
    plain_texts_are_passed(w, 0, n, 0);
    assert(w[n] == '}');
    let v = a + seq!['}'] + b + seq!['{'] + c;
    assert(v.subrange(0, n) =~= a);
    plain_texts_are_passed(v, 0, n, 0);
    assert(v[n] == '}');
}

/// A word macro becomes a macro without arguments; an equation becomes a macro with one group
/// for each argument, and each group shows what stands between the braces of its argument.
pub proof fn raw_macros_become_nodes(source: SourcedText, raw: RawRdMacroView, i: int)
    ensures
        raw_node(source, raw).spans == spans_of(source, raw.source.start, raw.source.end),
        raw.kind matches RawRdKindView::ZeroArgument(tag) ==> raw_node(source, raw).shape
            == (ShapeView::Tagged {
            tag: TagView::Named(tag),
            option: None,
            children: Seq::empty(),
        }),
        raw.kind is Equation ==> raw_node(source, raw).shape is Tagged,
        raw.kind is Equation ==> raw_node(source, raw).shape->Tagged_tag == TagView::Named(
            raw.kind->Equation_tag,
        ),
        raw.kind is Equation ==> raw_node(source, raw).shape->Tagged_option is None,
        raw.kind is Equation ==> raw_node(source, raw).shape->Tagged_children.len()
            == raw.kind->Equation_arguments.len(),
        raw.kind is Equation && 0 <= i < raw.kind->Equation_arguments.len() ==> raw_node(
            source,
            raw,
        ).shape->Tagged_children[i].shape is Group,
        raw.kind is Equation && 0 <= i < raw.kind->Equation_arguments.len()
            && raw.kind->Equation_arguments[i].open + 1 < raw.kind->Equation_arguments[i].close ==> ({
            let argument = raw.kind->Equation_arguments[i];
            byte_slice(source.text@, argument.open + 1, argument.close - 1) == Some(
                rendered(raw_node(source, raw).shape->Tagged_children[i]),
            ) || byte_slice(source.text@, argument.open + 1, argument.close - 1) is None
        }),
{
    if let RawRdKindView::Equation { tag, arguments } = raw.kind {
        groups_show_bodies(source, arguments, arguments.len() as int, i);
    }
}

proof fn groups_show_bodies(
    source: SourcedText,
    arguments: Seq<RawRdArgument>,
    count: int,
    i: int,
)
    requires
        0 <= count <= arguments.len(),
    ensures
        argument_groups(source, arguments, count).len() == count,
        0 <= i < count ==> argument_groups(source, arguments, count)[i].shape is Group && rendered(
            argument_groups(source, arguments, count)[i],
        ) == argument_body(source.text@, arguments[i]),
    decreases count,
{
    if count > 0 {
        groups_show_bodies(source, arguments, count - 1, i);
        let argument = arguments[count - 1];
        let node = argument_groups(source, arguments, count)[count - 1];
        let range = crate::markdown_conversion::raw_rd::prepare::body_range(argument);
        leaves_show_their_text(
            argument_body(source.text@, argument),
            spans_of(source, range.start, range.end),
        );
        assert(rendered(node) == rendered_all(node.shape->Group_0));
    }
}

proof fn untouched(ranges: Seq<ByteRange>, count: int, candidate: ByteRange)
    requires
        0 <= count <= ranges.len(),
        forall|i: int|
            0 <= i < ranges.len() ==> (#[trigger] ranges[i]).end <= candidate.start
                || candidate.end <= ranges[i].start,
    ensures
        touching_upto(ranges, count, candidate).len() == 0,
    decreases count,
{
    if count > 0 {
        untouched(ranges, count - 1, candidate);
        assert(ranges[count - 1].end <= candidate.start || candidate.end <= ranges[count
            - 1].start);
    }
}

proof fn none_inside(constructs: Seq<Construct>, count: int, candidate: ByteRange)
    requires
        0 <= count <= constructs.len(),
        forall|i: int|
            0 <= i < constructs.len() ==> (#[trigger] constructs[i]).start < candidate.start
                || constructs[i].end > candidate.end,
    ensures
        contained_upto(constructs, count, candidate).len() == 0,
    decreases count,
{
    if count > 0 {
        none_inside(constructs, count - 1, candidate);
        assert(constructs[count - 1].start < candidate.start || constructs[count - 1].end
            > candidate.end);
    }
}

/// A macro within one text event that reads as the source does is accepted, within all markup
/// that is around it: blocks, emphasis, links and images. HTML and code elsewhere do not matter.
pub proof fn macros_in_text_are_accepted(
    text: Seq<char>,
    facts: FactsView,
    candidate: ByteRange,
    event: int,
)
    requires
        candidate.start < candidate.end,
        0 <= event < facts.text_events.len(),
        facts.coverage == seq![facts.text_events[event].range],
        facts.text_events.len() == 1,
        facts.text_events[event].range.start <= candidate.start,
        candidate.end <= facts.text_events[event].range.end,
        byte_slice(
            text,
            facts.text_events[event].range.start as int,
            facts.text_events[event].range.end as int,
        ) == Some(facts.text_events[event].text),
        forall|i: int|
            0 <= i < facts.html.len() ==> (#[trigger] facts.html[i]).end <= candidate.start
                || candidate.end <= facts.html[i].start,
        forall|i: int|
            0 <= i < facts.opaque.len() ==> (#[trigger] facts.opaque[i]).end <= candidate.start
                || candidate.end <= facts.opaque[i].start,
        forall|i: int|
            0 <= i < facts.constructs.len() ==> (#[trigger] facts.constructs[i]).start
                < candidate.start && candidate.end < facts.constructs[i].end
                && facts.constructs[i].kind != ConstructKind::Autolink && facts.constructs[i].kind
                != ConstructKind::Html,
    ensures
        accepts(text, facts, candidate),
{
    none_inside(facts.constructs, facts.constructs.len() as int, candidate);
    let prose = touching_upto(facts.coverage, 1, candidate);
    let inner = contained_upto(facts.constructs, facts.constructs.len() as int, candidate);
    assert(touching_upto(facts.coverage, 0, candidate).len() == 0);
    assert(prose =~= seq![facts.text_events[event].range]);
    let further = facts.text_events[event].range.end;
    assert(reach(text, prose, inner, 1, 0, further) == Some(further));
    assert(reach(text, prose, inner, 0, 0, candidate.start) == Some(further));
}

/// A macro is refused where HTML crosses its border or is around it, where code lies in it or
/// crosses its border, and where the text around one of its ends does not read as the source
/// does.
pub proof fn macros_across_borders_are_refused(
    text: Seq<char>,
    facts: FactsView,
    candidate: ByteRange,
    i: int,
)
    ensures
        0 <= i < facts.html.len() && facts.html[i].start < candidate.end && candidate.start
            < facts.html[i].end && (facts.html[i].start < candidate.start || candidate.end
            < facts.html[i].end) ==> !accepts(text, facts, candidate),
        0 <= i < facts.opaque.len() && facts.opaque[i].start < candidate.end && candidate.start
            < facts.opaque[i].end && (candidate.start < facts.opaque[i].start
            || facts.opaque[i].end < candidate.end) ==> !accepts(text, facts, candidate),
        0 <= i < facts.text_events.len() && (facts.text_events[i].range.start < candidate.start
            < facts.text_events[i].range.end || facts.text_events[i].range.start < candidate.end
            < facts.text_events[i].range.end) && byte_slice(
            text,
            facts.text_events[i].range.start as int,
            facts.text_events[i].range.end as int,
        ) != Some(facts.text_events[i].text) ==> !accepts(text, facts, candidate),
        candidate.start >= candidate.end ==> !accepts(text, facts, candidate),
{
    if 0 <= i < facts.html.len() && accepts(text, facts, candidate) {
        let html = facts.html[i];
        assert(crate::markdown_conversion::raw_rd::accept::touches(html, candidate) ==>
            crate::markdown_conversion::raw_rd::accept::lies_in(html, candidate));
    }
    if 0 <= i < facts.opaque.len() && accepts(text, facts, candidate) {
        let code = facts.opaque[i];
        assert(crate::markdown_conversion::raw_rd::accept::touches(code, candidate) ==>
            crate::markdown_conversion::raw_rd::accept::lies_in(candidate, code));
    }
    if 0 <= i < facts.text_events.len() && accepts(text, facts, candidate) {
        let event = facts.text_events[i];
        assert(event.range == facts.text_events[i].range);
    }
}

/// A macro is refused where a construct starts before it and ends in it, where one starts in it
/// and ends behind it unless it is a block that starts with it, where an automatic link or HTML
/// is around it, and where a block is a part of it.
pub proof fn macros_across_constructs_are_refused(
    text: Seq<char>,
    facts: FactsView,
    candidate: ByteRange,
    i: int,
)
    requires
        0 <= i < facts.constructs.len(),
    ensures
        ({
            let it = facts.constructs[i];
            &&& it.start < candidate.start < it.end < candidate.end ==> !accepts(
                text,
                facts,
                candidate,
            )
            &&& candidate.start <= it.start < candidate.end < it.end && (it.kind
                != ConstructKind::Block || it.start != candidate.start) ==> !accepts(
                text,
                facts,
                candidate,
            )
            &&& it.start < candidate.start && candidate.end < it.end && (it.kind
                == ConstructKind::Autolink || it.kind == ConstructKind::Html) ==> !accepts(
                text,
                facts,
                candidate,
            )
            &&& candidate.start <= it.start < candidate.end && it.end <= candidate.end && it.kind
                == ConstructKind::Block && (it.start != candidate.start || it.end != candidate.end)
                ==> !accepts(text, facts, candidate)
        }),
{
    let it = facts.constructs[i];
    if accepts(text, facts, candidate) {
        assert(crate::markdown_conversion::raw_rd::accept::construct_allows(it, candidate));
    }
}

/// A macro that nothing covers is refused.
pub proof fn uncovered_macros_are_refused(text: Seq<char>, facts: FactsView, candidate: ByteRange)
    requires
        forall|i: int|
            0 <= i < facts.coverage.len() ==> (#[trigger] facts.coverage[i]).end
                <= candidate.start || candidate.end <= facts.coverage[i].start,
        forall|i: int|
            0 <= i < facts.constructs.len() ==> (#[trigger] facts.constructs[i]).start
                < candidate.start || facts.constructs[i].end > candidate.end,
    ensures
        !accepts(text, facts, candidate),
{
    untouched(facts.coverage, facts.coverage.len() as int, candidate);
    none_inside(facts.constructs, facts.constructs.len() as int, candidate);
}

proof fn ranges_keep(ranges: Seq<ByteRange>, range: ByteRange)
    ensures
        with_range(ranges, range).to_multiset() == ranges.to_multiset().insert(range),
    decreases ranges.len(),
{
    broadcast use vstd::seq_lib::group_to_multiset_ensures;

    if !(ranges.len() == 0
        || crate::markdown_conversion::raw_rd::facts::range_le(ranges.last(), range)) {
        ranges_keep(ranges.drop_last(), range);
        assert(ranges =~= ranges.drop_last().push(ranges.last()));
        assert(with_range(ranges, range).to_multiset() =~= ranges.to_multiset().insert(range));
    }
}

proof fn constructs_keep(constructs: Seq<Construct>, construct: Construct)
    ensures
        with_construct(constructs, construct).to_multiset() == constructs.to_multiset().insert(
            construct,
        ),
    decreases constructs.len(),
{
    broadcast use vstd::seq_lib::group_to_multiset_ensures;

    if constructs.len() > 0 {
        constructs_keep(constructs.drop_last(), construct);
        assert(constructs =~= constructs.drop_last().push(constructs.last()));
        assert(with_construct(constructs, construct).to_multiset()
            =~= constructs.to_multiset().insert(construct));
    }
}

/// Text and breaks cover what they stand for; HTML covers it too, and is known as HTML; inline
/// code is code.
pub proof fn leaves_are_noted(events: Seq<SourcedEventView>, event: SourcedEventView)
    ensures
        ({
            let before = facts_of(events);
            let after = facts_of(events.push(event));
            let range = ByteRange { start: event.start, end: event.end };
            let covers = event.event is Text || event.event is SoftBreak || event.event is HardBreak
                || event.event is Html || event.event is InlineHtml;
            &&& covers ==> after.coverage.to_multiset() == before.coverage.to_multiset().insert(
                range,
            )
            &&& !covers ==> after.coverage == before.coverage
            &&& event.event is Html || event.event is InlineHtml ==> after.html.to_multiset()
                == before.html.to_multiset().insert(range)
            &&& !(event.event is Html || event.event is InlineHtml) ==> after.html == before.html
            &&& event.event is Code ==> after.opaque.to_multiset()
                == before.opaque.to_multiset().insert(range)
            &&& !(event.event is Code || event.event is End) ==> after.opaque == before.opaque
            &&& event.event is Text ==> after.text_events.len() == before.text_events.len() + 1
            &&& !(event.event is Text) ==> after.text_events == before.text_events
            &&& !(event.event is End) ==> after.constructs == before.constructs
        }),
{
    let before = facts_of(events);
    let range = ByteRange { start: event.start, end: event.end };
    assert(events.push(event).drop_last() =~= events);
    ranges_keep(before.coverage, range);
    ranges_keep(before.html, range);
    ranges_keep(before.opaque, range);
    if let MarkdownEventView::Text(text) = event.event {
        events_keep(
            before.text_events,
            crate::markdown_conversion::raw_rd::facts::TextEventView { range, text },
        );
    }
}

proof fn events_keep(
    events: Seq<crate::markdown_conversion::raw_rd::facts::TextEventView>,
    event: crate::markdown_conversion::raw_rd::facts::TextEventView,
)
    ensures
        with_text_event(events, event).len() == events.len() + 1,
        with_text_event(events, event).contains(event),
    decreases events.len(),
{
    let all = with_text_event(events, event);
    if all == events.push(event) {
        assert(all[all.len() - 1] == event);
    } else {
        events_keep(events.drop_last(), event);
        let k = with_text_event(events.drop_last(), event).index_of(event);
        assert(all[k] == event);
    }
}

/// A construct reaches from where it opens to where it closes, and a closed block of code is
/// code. Whatever stands between leaves it open.
pub proof fn constructs_are_noted(
    events: Seq<SourcedEventView>,
    opening: SourcedEventView,
    closing: SourcedEventView,
    tag: MarkdownTagView,
    kind: TagKind,
)
    requires
        opening.event == MarkdownEventView::Start(tag),
        closing.event == MarkdownEventView::End(kind),
    ensures
        ({
            let before = facts_of(events);
            let after = facts_of(events.push(opening).push(closing));
            let range = ByteRange { start: opening.start, end: closing.end };
            let added = |kind: ConstructKind|
                before.constructs.to_multiset().insert(
                    Construct { start: opening.start, end: closing.end, kind },
                );
            let found = after.constructs.to_multiset();
            &&& after.open == before.open
            &&& kind == TagKind::CodeBlock ==> after.opaque.to_multiset()
                == before.opaque.to_multiset().insert(range)
            &&& kind != TagKind::CodeBlock ==> after.opaque == before.opaque
            &&& tag is Heading || tag is CodeBlock || tag is List || tag is Table ==> found == added(
                ConstructKind::Block,
            )
            &&& tag is Link && tag->autolink ==> found == added(ConstructKind::Autolink)
            &&& tag is Link && !tag->autolink ==> found == added(ConstructKind::Link)
            &&& tag == MarkdownTagView::Other(TagKind::Image) ==> found == added(
                ConstructKind::Image,
            )
            &&& tag == MarkdownTagView::Other(TagKind::HtmlBlock) ==> found == added(
                ConstructKind::Html,
            )
            &&& tag == MarkdownTagView::Other(TagKind::Emphasis) || tag == MarkdownTagView::Other(
                TagKind::Strong,
            ) || tag == MarkdownTagView::Other(TagKind::Strikethrough) ==> found == added(
                ConstructKind::Inline,
            )
            &&& tag == MarkdownTagView::Other(TagKind::Paragraph) || tag == MarkdownTagView::Other(
                TagKind::BlockQuote,
            ) || tag == MarkdownTagView::Other(TagKind::Item) || tag == MarkdownTagView::Other(
                TagKind::TableCell,
            ) ==> found == added(ConstructKind::Block)
        }),
{
    let before = facts_of(events);
    let middle = facts_of(events.push(opening));
    assert(events.push(opening).drop_last() =~= events);
    assert(events.push(opening).push(closing).drop_last() =~= events.push(opening));
    let closed = Construct {
        start: opening.start,
        end: closing.end,
        kind: crate::markdown_conversion::raw_rd::facts::construct_kind(tag),
    };
    assert(middle.open.drop_last() =~= before.open);
    constructs_keep(before.constructs, closed);
    ranges_keep(before.opaque, ByteRange { start: opening.start, end: closing.end });
}

} // verus!
