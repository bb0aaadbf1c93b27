//! Finding raw Rd macros in a Markdown text.
use crate::rd::RdMacro;
use crate::source::{byte_slice, slice_bytes};
use crate::text::same_text;
use vstd::prelude::*;
use vstd::utf8::encode_utf8;

verus! {

/// A range of byte offsets.
#[derive(Debug, Clone, Copy, PartialEq, Eq, Structural)]
pub struct ByteRange {
    pub start: usize,
    pub end: usize,
}

/// A braced argument: where its opening brace stands, and where it ends behind
/// its closing brace.
#[derive(Debug, Clone, Copy, PartialEq, Eq, Structural)]
pub struct RawRdArgument {
    pub open: usize,
    pub close: usize,
}

/// What a raw macro is.
#[derive(Debug, PartialEq, Eq)]
pub enum RawRdKind {
    /// A macro without arguments, which stands for a word or a break.
    ZeroArgument(RdMacro),
    /// An equation with one or two arguments.
    Equation { tag: RdMacro, arguments: Vec<RawRdArgument> },
}

/// The model of [`RawRdKind`].
pub enum RawRdKindView {
    ZeroArgument(RdMacro),
    Equation { tag: RdMacro, arguments: Seq<RawRdArgument> },
}

impl View for RawRdKind {
    type V = RawRdKindView;

    open spec fn view(&self) -> RawRdKindView {
        match self {
            RawRdKind::ZeroArgument(tag) => RawRdKindView::ZeroArgument(*tag),
            RawRdKind::Equation { tag, arguments } => RawRdKindView::Equation {
                tag: *tag,
                arguments: arguments@,
            },
        }
    }
}

/// A macro that was found in a text. One that has no place in prose has no
/// kind.
#[derive(Debug, PartialEq, Eq)]
pub struct ScannedMacro {
    pub source: ByteRange,
    pub kind: Option<RawRdKind>,
}

/// The model of [`ScannedMacro`].
pub struct ScannedView {
    pub source: ByteRange,
    pub kind: Option<RawRdKindView>,
}

impl View for ScannedMacro {
    type V = ScannedView;

    open spec fn view(&self) -> ScannedView {
        ScannedView {
            source: self.source,
            kind: match self.kind {
                Some(kind) => Some(kind@),
                None => None,
            },
        }
    }
}

/// The models of scanned macros.
pub open spec fn scanned_views(macros: Seq<ScannedMacro>) -> Seq<ScannedView> {
    macros.map_values(|found: ScannedMacro| found@)
}

/// Whether a byte is an ASCII letter.
pub open spec fn is_letter(byte: u8) -> bool {
    0x41 <= byte <= 0x5a || 0x61 <= byte <= 0x7a
}

/// Whether a byte is an ASCII letter or digit.
pub open spec fn is_name_byte(byte: u8) -> bool {
    is_letter(byte) || 0x30 <= byte <= 0x39
}

fn letter(byte: u8) -> (r: bool)
    ensures
        r == is_letter(byte),
{
    (0x41 <= byte && byte <= 0x5a) || (0x61 <= byte && byte <= 0x7a)
}

fn name_byte(byte: u8) -> (r: bool)
    ensures
        r == is_name_byte(byte),
{
    letter(byte) || (0x30 <= byte && byte <= 0x39)
}

/// The end of a brace group, from a byte inside it on: `depth` groups are open,
/// and `escaped` tells whether an odd number of backslashes stands before the
/// byte. Escaped braces do not count.
pub open spec fn group_end(bytes: Seq<u8>, at: int, depth: nat, escaped: bool) -> Option<int>
    decreases bytes.len() - at,
{
    if at < 0 || at >= bytes.len() {
        None
    } else if bytes[at] == 0x5c {
        group_end(bytes, at + 1, depth, !escaped)
    } else if bytes[at] == 0x7b && !escaped {
        group_end(bytes, at + 1, depth + 1, false)
    } else if bytes[at] == 0x7d && !escaped {
        if depth == 0 {
            None
        } else if depth == 1 {
            Some(at + 1)
        } else {
            group_end(bytes, at + 1, (depth - 1) as nat, false)
        }
    } else {
        group_end(bytes, at + 1, depth, false)
    }
}

/// The end of the brace group that opens at a byte.
pub open spec fn brace_group(bytes: Seq<u8>, open: int) -> Option<int> {
    if 0 <= open < bytes.len() && bytes[open] == 0x7b {
        group_end(bytes, open, 0, false)
    } else {
        None
    }
}

proof fn group_end_bounds(bytes: Seq<u8>, at: int, depth: nat, escaped: bool)
    requires
        0 <= at,
    ensures
        group_end(bytes, at, depth, escaped) is Some ==> at < group_end(
            bytes,
            at,
            depth,
            escaped,
        )->0 <= bytes.len(),
        group_end(bytes, at, depth, escaped) is Some && depth == 0 ==> at + 1 < group_end(
            bytes,
            at,
            depth,
            escaped,
        )->0,
        group_end(bytes, at, depth, escaped) is Some ==> bytes[group_end(
            bytes,
            at,
            depth,
            escaped,
        )->0 - 1] == 0x7d,
    decreases bytes.len() - at,
{
    if at < bytes.len() {
        if bytes[at] == 0x5c {
            group_end_bounds(bytes, at + 1, depth, !escaped);
        } else if bytes[at] == 0x7b && !escaped {
            group_end_bounds(bytes, at + 1, depth + 1, false);
        } else if bytes[at] == 0x7d && !escaped {
            if depth > 1 {
                group_end_bounds(bytes, at + 1, (depth - 1) as nat, false);
            }
        } else {
            group_end_bounds(bytes, at + 1, depth, false);
        }
    }
}

/// A brace group lies in the text, and a closing brace ends it.
pub proof fn brace_groups_close(bytes: Seq<u8>, open: int)
    ensures
        brace_group(bytes, open) is Some ==> open + 1 < brace_group(bytes, open)->0 <= bytes.len()
            && bytes[brace_group(bytes, open)->0 - 1] == 0x7d,
{
    if 0 <= open {
        group_end_bounds(bytes, open, 0, false);
    }
}

/// Finds the end of the brace group that opens at a byte.
pub fn scan_group(bytes: &[u8], open: usize) -> (r: Option<usize>)
    ensures
        match r {
            Some(end) => brace_group(bytes@, open as int) == Some(end as int) && open + 1 < end
                <= bytes@.len(),
            None => brace_group(bytes@, open as int) is None,
        },
{
    proof {
        brace_groups_close(bytes@, open as int);
    }
    if open >= bytes.len() || bytes[open] != 0x7b {
        return None;
    }
    let mut at: usize = open;
    let mut depth: usize = 0;
    let mut escaped: bool = false;
    while at < bytes.len()
        invariant
            open <= at <= bytes@.len(),
            depth <= at - open,
            brace_group(bytes@, open as int) == group_end(
                bytes@,
                at as int,
                depth as nat,
                escaped,
            ),
            brace_group(bytes@, open as int) is Some ==> open + 1 < brace_group(
                bytes@,
                open as int,
            )->0 <= bytes@.len(),
        decreases bytes@.len() - at,
    {
        let byte: u8 = bytes[at];
        if byte == 0x5c {
            escaped = !escaped;
        } else {
            if byte == 0x7b && !escaped {
                depth = depth + 1;
            } else if byte == 0x7d && !escaped {
                if depth == 0 {
                    return None;
                }
                if depth == 1 {
                    return Some(at + 1);
                }
                depth = depth - 1;
            }
            escaped = false;
        }
        at = at + 1;
    }
    None
}

/// The end of a bracket option, from a byte inside it on.
pub open spec fn option_end(bytes: Seq<u8>, at: int, escaped: bool) -> Option<int>
    decreases bytes.len() - at,
{
    if at < 0 || at >= bytes.len() {
        None
    } else if bytes[at] == 0x5c {
        option_end(bytes, at + 1, !escaped)
    } else if bytes[at] == 0x5d && !escaped {
        Some(at + 1)
    } else {
        option_end(bytes, at + 1, false)
    }
}

/// Finds the end of the bracket option that opens at a byte.
pub fn scan_option(bytes: &[u8], open: usize) -> (r: Option<usize>)
    requires
        open < bytes@.len(),
    ensures
        match r {
            Some(end) => option_end(bytes@, open + 1, false) == Some(end as int) && open < end
                <= bytes@.len(),
            None => option_end(bytes@, open + 1, false) is None,
        },
{
    let count = bytes.len();
    let mut at: usize = open + 1;
    let mut escaped: bool = false;
    while at < count
        invariant
            open < at <= count == bytes@.len(),
            option_end(bytes@, open + 1, false) == option_end(bytes@, at as int, escaped),
        decreases bytes@.len() - at,
    {
        let byte: u8 = bytes[at];
        if byte == 0x5c {
            escaped = !escaped;
        } else {
            if byte == 0x5d && !escaped {
                return Some(at + 1);
            }
            escaped = false;
        }
        at = at + 1;
    }
    None
}

/// The arguments of the equation whose first argument opens at a byte: one
/// brace group, or two in a row.
pub open spec fn equation_arguments(bytes: Seq<u8>, open: int) -> Option<Seq<RawRdArgument>> {
    match brace_group(bytes, open) {
        None => None,
        Some(close) => {
            let first = RawRdArgument { open: open as usize, close: close as usize };
            if close < bytes.len() && bytes[close] == 0x7b {
                match brace_group(bytes, close) {
                    None => None,
                    Some(end) => Some(
                        seq![first, RawRdArgument { open: close as usize, close: end as usize }],
                    ),
                }
            } else {
                Some(seq![first])
            }
        },
    }
}

/// Reads the arguments of an equation, and finds where it ends.
pub fn scan_equation(bytes: &[u8], open: usize) -> (r: Option<(Vec<RawRdArgument>, usize)>)
    ensures
        match r {
            Some((arguments, end)) => equation_arguments(bytes@, open as int) == Some(arguments@)
                && arguments@.last().close == end && open < end <= bytes@.len() && arguments@.len()
                > 0,
            None => equation_arguments(bytes@, open as int) is None,
        },
{
    let close = match scan_group(bytes, open) {
        Some(close) => close,
        None => {
            return None;
        },
    };
    let mut arguments: Vec<RawRdArgument> = Vec::new();
    arguments.push(RawRdArgument { open, close });
    if close < bytes.len() && bytes[close] == 0x7b {
        match scan_group(bytes, close) {
            Some(end) => {
                arguments.push(RawRdArgument { open: close, close: end });
                proof {
                    assert(arguments@ =~= seq![
                        RawRdArgument { open, close },
                        RawRdArgument { open: close, close: end },
                    ]);
                }
                Some((arguments, end))
            },
            None => None,
        }
    } else {
        proof {
            assert(arguments@ =~= seq![RawRdArgument { open, close }]);
        }
        Some((arguments, close))
    }
}

/// The macro without arguments that a name stands for.
pub open spec fn zero_argument_macro(name: Seq<char>) -> Option<RdMacro> {
    if name == "R"@ {
        Some(RdMacro::R)
    } else if name == "dots"@ {
        Some(RdMacro::Dots)
    } else if name == "ldots"@ {
        Some(RdMacro::LDots)
    } else if name == "cr"@ {
        Some(RdMacro::Cr)
    } else if name == "sspace"@ {
        Some(RdMacro::Sspace)
    } else {
        None
    }
}

fn supported_zero_argument_prose_macro(name: &str) -> (r: Option<RdMacro>)
    ensures
        r == zero_argument_macro(name@),
{
    if same_text(name, "R") {
        Some(RdMacro::R)
    } else if same_text(name, "dots") {
        Some(RdMacro::Dots)
    } else if same_text(name, "ldots") {
        Some(RdMacro::LDots)
    } else if same_text(name, "cr") {
        Some(RdMacro::Cr)
    } else if same_text(name, "sspace") {
        Some(RdMacro::Sspace)
    } else {
        None
    }
}

/// The end of a name.
pub open spec fn name_end(bytes: Seq<u8>, at: int) -> int
    decreases bytes.len() - at,
{
    if 0 <= at < bytes.len() && is_name_byte(bytes[at]) {
        name_end(bytes, at + 1)
    } else {
        at
    }
}

fn find_name_end(bytes: &[u8], from: usize) -> (r: usize)
    requires
        from <= bytes@.len(),
    ensures
        r == name_end(bytes@, from as int),
        from <= r <= bytes@.len(),
{
    let mut at: usize = from;
    while at < bytes.len() && name_byte(bytes[at])
        invariant
            from <= at <= bytes@.len(),
            name_end(bytes@, from as int) == name_end(bytes@, at as int),
        decreases bytes@.len() - at,
    {
        at = at + 1;
    }
    at
}

/// The end of the first range that ends behind a position, where it covers the
/// position.
pub open spec fn covering_end(ranges: Seq<ByteRange>, from: int, at: int) -> Option<int>
    decreases ranges.len() - from,
{
    if from < 0 || from >= ranges.len() {
        None
    } else if ranges[from].end <= at {
        covering_end(ranges, from + 1, at)
    } else if ranges[from].start <= at {
        Some(ranges[from].end as int)
    } else {
        None
    }
}

/// One step of the search: what was found, and where and with which parity of
/// backslashes it goes on.
pub struct ScanStep {
    pub found: Option<ScannedView>,
    pub next: int,
    pub escaped: bool,
}

/// A step over one byte.
pub open spec fn step_over(at: int, escaped: bool) -> ScanStep {
    ScanStep { found: None, next: at + 1, escaped }
}

/// A step over a macro.
pub open spec fn step_behind(at: int, end: int, kind: Option<RawRdKindView>) -> ScanStep {
    ScanStep {
        found: Some(
            ScannedView { source: ByteRange { start: at as usize, end: end as usize }, kind },
        ),
        next: end,
        escaped: false,
    }
}

/// The name between two bytes.
pub open spec fn name_text(text: Seq<char>, from: int, to: int) -> Seq<char> {
    match byte_slice(text, from, to) {
        Some(name) => name,
        None => Seq::empty(),
    }
}

/// Where the first argument of a macro with a name that ends at a byte opens: at
/// once, or behind a bracket option.
pub open spec fn first_argument(bytes: Seq<u8>, end: int) -> Option<int> {
    if 0 <= end < bytes.len() && bytes[end] == 0x7b {
        Some(end)
    } else if 0 <= end < bytes.len() && bytes[end] == 0x5b {
        match option_end(bytes, end + 1, false) {
            Some(open) => if open < bytes.len() && bytes[open] == 0x7b {
                Some(open)
            } else {
                None
            },
            None => None,
        }
    } else {
        None
    }
}

/// The step at a backslash that starts a name.
pub open spec fn macro_step(text: Seq<char>, at: int) -> ScanStep {
    let bytes = encode_utf8(text);
    let end = name_end(bytes, at + 1);
    let name = name_text(text, at + 1, end);
    let bare = !(end < bytes.len() && (bytes[end] == 0x7b || bytes[end] == 0x5b));
    if bare && zero_argument_macro(name) is Some {
        step_behind(at, end, Some(RawRdKindView::ZeroArgument(zero_argument_macro(name)->0)))
    } else if bare && name == "tab"@ {
        step_behind(at, end, None)
    } else {
        match first_argument(bytes, end) {
            None => step_over(at, true),
            Some(open) => if (name == "eqn"@ || name == "deqn"@) && bytes[end] == 0x7b {
                match equation_arguments(bytes, open) {
                    Some(arguments) => step_behind(
                        at,
                        arguments.last().close as int,
                        Some(
                            RawRdKindView::Equation {
                                tag: if name == "eqn"@ {
                                    RdMacro::Eqn
                                } else {
                                    RdMacro::Deqn
                                },
                                arguments,
                            },
                        ),
                    ),
                    None => step_behind(at, bytes.len() as int, None),
                }
            } else {
                match brace_group(bytes, open) {
                    Some(end) => step_behind(at, end, None),
                    None => step_over(at, true),
                }
            },
        }
    }
}

/// The step at a byte. What lies in an opaque range is literal. A backslash
/// behind an odd number of backslashes is literal.
pub open spec fn scan_step(text: Seq<char>, opaque: Seq<ByteRange>, at: int, escaped: bool) -> ScanStep {
    let bytes = encode_utf8(text);
    match covering_end(opaque, 0, at) {
        Some(end) => ScanStep { found: None, next: end, escaped: false },
        None => if bytes[at] != 0x5c || escaped {
            step_over(at, false)
        } else if at + 1 < bytes.len() && is_letter(bytes[at + 1]) {
            macro_step(text, at)
        } else {
            step_over(at, true)
        },
    }
}

/// The macros in a text from a byte on.
pub open spec fn scanned_from(
    text: Seq<char>,
    opaque: Seq<ByteRange>,
    at: int,
    escaped: bool,
) -> Seq<ScannedView>
    decreases encode_utf8(text).len() - at,
{
    if at < 0 || at >= encode_utf8(text).len() {
        Seq::empty()
    } else {
        let step = scan_step(text, opaque, at, escaped);
        let rest = if at < step.next < encode_utf8(text).len() {
            scanned_from(text, opaque, step.next, step.escaped)
        } else {
            Seq::empty()
        };
        match step.found {
            Some(found) => seq![found] + rest,
            None => rest,
        }
    }
}

/// The macros in a text. Opaque ranges are code, in text order.
pub open spec fn scanned(text: Seq<char>, opaque: Seq<ByteRange>) -> Seq<ScannedView> {
    scanned_from(text, opaque, 0, false)
}

/// A step of the search, as it is computed.
struct Step {
    found: Option<ScannedMacro>,
    next: usize,
    escaped: bool,
}

impl View for Step {
    type V = ScanStep;

    closed spec fn view(&self) -> ScanStep {
        ScanStep {
            found: match self.found {
                Some(found) => Some(found@),
                None => None,
            },
            next: self.next as int,
            escaped: self.escaped,
        }
    }
}

fn found_step(at: usize, end: usize, kind: Option<RawRdKind>) -> (r: Step)
    ensures
        r@ == step_behind(
            at as int,
            end as int,
            match kind {
                Some(kind) => Some(kind@),
                None => None,
            },
        ),
        r.next == end,
{
    Step {
        found: Some(ScannedMacro { source: ByteRange { start: at, end }, kind }),
        next: end,
        escaped: false,
    }
}

fn find_first_argument(bytes: &[u8], end: usize) -> (r: Option<usize>)
    requires
        end <= bytes@.len(),
    ensures
        match r {
            Some(open) => first_argument(bytes@, end as int) == Some(open as int) && end <= open
                < bytes@.len(),
            None => first_argument(bytes@, end as int) is None,
        },
{
    if end >= bytes.len() {
        return None;
    }
    if bytes[end] == 0x7b {
        return Some(end);
    }
    if bytes[end] != 0x5b {
        return None;
    }
    match scan_option(bytes, end) {
        Some(open) => if open < bytes.len() && bytes[open] == 0x7b {
            Some(open)
        } else {
            None
        },
        None => None,
    }
}

fn take_macro_step(text: &str, bytes: &[u8], at: usize) -> (r: Step)
    requires
        bytes@ == encode_utf8(text@),
        at + 1 < bytes@.len(),
    ensures
        r@ == macro_step(text@, at as int),
        at < r.next <= bytes@.len(),
{
    let count = bytes.len();
    let end = find_name_end(bytes, at + 1);
    let name = match slice_bytes(text, at + 1, end) {
        Some(name) => name,
        None => "",
    };
    proof {
        reveal_strlit("");
        assert(""@ =~= Seq::<char>::empty());
        assert(name@ == name_text(text@, at + 1, end as int));
    }
    let bare = !(end < bytes.len() && (bytes[end] == 0x7b || bytes[end] == 0x5b));
    if bare {
        if let Some(tag) = supported_zero_argument_prose_macro(name) {
            return found_step(at, end, Some(RawRdKind::ZeroArgument(tag)));
        }
        if same_text(name, "tab") {
            return found_step(at, end, None);
        }
    }
    let open = match find_first_argument(bytes, end) {
        Some(open) => open,
        None => {
            return Step { found: None, next: at + 1, escaped: true };
        },
    };
    if (same_text(name, "eqn") || same_text(name, "deqn")) && bytes[end] == 0x7b {
        return match scan_equation(bytes, open) {
            Some((arguments, close)) => {
                let tag = if same_text(name, "eqn") {
                    RdMacro::Eqn
                } else {
                    RdMacro::Deqn
                };
                found_step(at, close, Some(RawRdKind::Equation { tag, arguments }))
            },
            None => found_step(at, count, None),
        };
    }
    match scan_group(bytes, open) {
        Some(close) => found_step(at, close, None),
        None => Step { found: None, next: at + 1, escaped: true },
    }
}

/// Collects raw Rd macros. An introducer in an opaque range is literal, so the
/// search goes on at the end of the range before any name is read.
pub fn scan_source(text: &str, opaque: &Vec<ByteRange>) -> (r: Vec<ScannedMacro>)
    ensures
        scanned_views(r@) == scanned(text@, opaque@),
{
    let bytes = text.as_bytes();
    let mut found: Vec<ScannedMacro> = Vec::new();
    let mut at: usize = 0;
    let mut escaped: bool = false;
    let mut skip: usize = 0;
    proof {
        assert(scanned_views(found@) + scanned(text@, opaque@) =~= scanned(text@, opaque@));
    }
    while at < bytes.len()
        invariant
            bytes@ == encode_utf8(text@),
            skip <= opaque@.len(),
            covering_end(opaque@, 0, at as int) == covering_end(opaque@, skip as int, at as int),
            forall|k: int| 0 <= k < skip ==> (#[trigger] opaque@[k]).end <= at,
            scanned_views(found@) + scanned_from(text@, opaque@, at as int, escaped) == scanned(
                text@,
                opaque@,
            ),
        decreases bytes@.len() - at,
    {
        let ghost before = scanned_views(found@);
        while skip < opaque.len() && opaque[skip].end <= at
            invariant
                skip <= opaque@.len(),
                covering_end(opaque@, 0, at as int) == covering_end(
                    opaque@,
                    skip as int,
                    at as int,
                ),
                forall|k: int| 0 <= k < skip ==> (#[trigger] opaque@[k]).end <= at,
            decreases opaque@.len() - skip,
        {
            skip = skip + 1;
        }
        let ghost here = scan_step(text@, opaque@, at as int, escaped);
        let step = if skip < opaque.len() && opaque[skip].start <= at {
            Step { found: None, next: opaque[skip].end, escaped: false }
        } else if bytes[at] != 0x5c || escaped {
            Step { found: None, next: at + 1, escaped: false }
        } else if bytes.len() - at > 1 && letter(bytes[at + 1]) {
            take_macro_step(text, bytes, at)
        } else {
            Step { found: None, next: at + 1, escaped: true }
        };
        proof {
            assert(step@ == here);
        }
        let ghost rest = scanned_from(text@, opaque@, step.next as int, step.escaped);
        let Step { found: item, next, escaped: parity } = step;
        if let Some(item) = item {
            found.push(item);
            proof {
                assert(scanned_views(found@) =~= before.push(item@));
                assert(before + (seq![item@] + rest) =~= before.push(item@) + rest);
            }
        }
        at = if next <= bytes.len() {
            next
        } else {
            bytes.len()
        };
        proof {
            skipped_ranges(opaque@, skip as int, at as int);
        }
        escaped = parity;
    }
    proof {
        assert(scanned_views(found@) + Seq::<ScannedView>::empty() =~= scanned_views(found@));
    }
    found
}

proof fn skipped_ranges(ranges: Seq<ByteRange>, skip: int, at: int)
    requires
        0 <= skip <= ranges.len(),
        forall|k: int| 0 <= k < skip ==> (#[trigger] ranges[k]).end <= at,
    ensures
        covering_end(ranges, 0, at) == covering_end(ranges, skip, at),
    decreases skip,
{
    if skip > 0 {
        skipped_ranges(ranges, skip - 1, at);
        assert(ranges[skip - 1].end <= at);
    }
}

} // verus!
