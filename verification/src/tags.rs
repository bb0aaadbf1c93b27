//! Parsed roxygen tags and the source-backed texts they carry.
use crate::source::{Span, Spanned, TextRange};
use crate::text::{char_vec, is_space, space, text_of};
use std::sync::Arc;
use vstd::prelude::*;

verus! {

/// One stretch of a text that was copied from one source line.
///
/// Byte `offset + k` of the text comes from byte `span.range.from + k` of the
/// file, for every `k` below the width of the span.
#[derive(Debug, Clone, Copy, PartialEq, Eq, Structural)]
pub struct SourceSegment {
    pub offset: u32,
    pub span: Span,
}

/// Where the bytes of a text come from.
#[derive(Debug, PartialEq, Eq)]
pub enum SourceMapping {
    /// Generated text, reported at one anchor.
    Synthetic(Span),
    /// Text assembled from source lines, in text order.
    Lines(Vec<SourceSegment>),
}

/// A normalized text and its source positions.
#[derive(Debug, PartialEq, Eq)]
pub struct SourcedText {
    pub text: String,
    pub mapping: SourceMapping,
}

/// The part of `segment` that lies in `from..to`, as a source span.
pub open spec fn segment_part(segment: SourceSegment, from: u32, to: u32) -> Option<Span> {
    let width = segment.span.range.width();
    let lo = if from > segment.offset {
        from - segment.offset
    } else {
        0
    };
    let hi = if to < segment.offset + width {
        to - segment.offset
    } else {
        width
    };
    if lo < hi {
        Some(
            Span {
                file: segment.span.file,
                range: TextRange {
                    from: (segment.span.range.from + lo) as u32,
                    to: (segment.span.range.from + hi) as u32,
                },
            },
        )
    } else {
        None
    }
}

/// The source spans of `from..to`, one for each segment that overlaps it.
pub open spec fn segment_spans(segments: Seq<SourceSegment>, from: u32, to: u32) -> Seq<Span>
    decreases segments.len(),
{
    if segments.len() == 0 {
        Seq::empty()
    } else {
        let rest = segment_spans(segments.drop_last(), from, to);
        match segment_part(segments.last(), from, to) {
            Some(span) => rest.push(span),
            None => rest,
        }
    }
}

/// The empty source span at `offset`: inside the last segment that starts no
/// later, or at its end.
pub open spec fn segment_anchor(segments: Seq<SourceSegment>, offset: u32) -> Option<Span>
    decreases segments.len(),
{
    if segments.len() == 0 {
        None
    } else {
        let segment = segments.last();
        if segment.offset <= offset {
            let width = segment.span.range.width();
            let step = if offset - segment.offset < width {
                offset - segment.offset
            } else {
                width
            };
            let at = (segment.span.range.from + step) as u32;
            Some(Span { file: segment.span.file, range: TextRange { from: at, to: at } })
        } else {
            segment_anchor(segments.drop_last(), offset)
        }
    }
}

impl SourceMapping {
    /// The source spans of a range of the text.
    pub open spec fn spans(&self, from: u32, to: u32) -> Seq<Span> {
        match self {
            SourceMapping::Synthetic(span) => seq![*span],
            SourceMapping::Lines(segments) => segment_spans(segments@, from, to),
        }
    }

    /// The source position of an offset of the text.
    pub open spec fn anchor(&self, offset: u32) -> Option<Span> {
        match self {
            SourceMapping::Synthetic(span) => Some(*span),
            SourceMapping::Lines(segments) => segment_anchor(segments@, offset),
        }
    }

    /// The source spans of a range of the text.
    pub fn source_spans(&self, range: TextRange) -> (r: Vec<Span>)
        ensures
            r@ == self.spans(range.from, range.to),
    {
        let mut out: Vec<Span> = Vec::new();
        match self {
            SourceMapping::Synthetic(span) => {
                out.push(*span);
                proof {
                    assert(out@ =~= seq![*span]);
                }
            },
            SourceMapping::Lines(segments) => {
                let mut i: usize = 0;
                while i < segments.len()
                    invariant
                        i <= segments@.len(),
                        out@ == segment_spans(segments@.take(i as int), range.from, range.to),
                    decreases segments@.len() - i,
                {
                    let segment = segments[i];
                    let width: u32 = segment.span.range.len();
                    let lo: u32 = if range.from > segment.offset {
                        range.from - segment.offset
                    } else {
                        0
                    };
                    let end: u64 = segment.offset as u64 + width as u64;
                    let inside: bool = (range.to as u64) < end;
                    proof {
                        let prefix = segments@.take(i + 1);
                        assert(prefix.drop_last() =~= segments@.take(i as int));
                        assert(prefix.last() == segment);
                    }
                    if inside && range.to <= segment.offset {
                        // The range ends before the segment begins.
                    } else {
                        let hi: u32 = if inside {
                            range.to - segment.offset
                        } else {
                            width
                        };
                        if lo < hi {
                            let base: u32 = segment.span.range.from;
                            out.push(
                                Span {
                                    file: segment.span.file,
                                    range: TextRange { from: base + lo, to: base + hi },
                                },
                            );
                        }
                    }
                    i = i + 1;
                }
                proof {
                    assert(segments@.take(segments@.len() as int) =~= segments@);
                }
            },
        }
        out
    }

    /// The source position of an offset of the text.
    pub fn source_anchor_at(&self, offset: u32) -> (r: Option<Span>)
        ensures
            r == self.anchor(offset),
    {
        match self {
            SourceMapping::Synthetic(span) => Some(*span),
            SourceMapping::Lines(segments) => {
                let mut i: usize = segments.len();
                proof {
                    assert(segments@.take(segments@.len() as int) =~= segments@);
                }
                while i > 0
                    invariant
                        i <= segments@.len(),
                        self.anchor(offset) == segment_anchor(segments@, offset),
                        segment_anchor(segments@, offset) == segment_anchor(
                            segments@.take(i as int),
                            offset,
                        ),
                    decreases i,
                {
                    let segment = segments[i - 1];
                    proof {
                        let prefix = segments@.take(i as int);
                        assert(prefix.drop_last() =~= segments@.take(i - 1));
                        assert(prefix.last() == segment);
                    }
                    if segment.offset <= offset {
                        let width: u32 = segment.span.range.len();
                        let step: u32 = if offset - segment.offset < width {
                            offset - segment.offset
                        } else {
                            width
                        };
                        let at: u32 = segment.span.range.from + step;
                        return Some(
                            Span { file: segment.span.file, range: TextRange { from: at, to: at } },
                        );
                    }
                    i = i - 1;
                }
                None
            },
        }
    }
}

impl SourcedText {
    /// Generated text, reported at `anchor`.
    pub fn synthetic(text: String, anchor: Span) -> (r: Self)
        ensures
            r.text == text,
            r.mapping == SourceMapping::Synthetic(anchor),
    {
        SourcedText { text, mapping: SourceMapping::Synthetic(anchor) }
    }

    /// Text assembled from source lines.
    pub fn from_segments(text: String, segments: Vec<SourceSegment>) -> (r: Self)
        ensures
            r.text == text,
            r.mapping == SourceMapping::Lines(segments),
    {
        SourcedText { text, mapping: SourceMapping::Lines(segments) }
    }
}

/// A maximal run of characters that are not white space: its first index and
/// the index past its last.
pub open spec fn word_bounds(text: Seq<char>) -> Seq<(int, int)>
    decreases text.len(),
{
    if text.len() == 0 {
        Seq::empty()
    } else {
        let before = word_bounds(text.drop_last());
        let n = text.len() as int;
        if is_space(text.last()) {
            before
        } else if before.len() > 0 && before.last().1 == n - 1 {
            before.drop_last().push((before.last().0, n))
        } else {
            before.push((n - 1, n))
        }
    }
}

/// The white-space separated words of `text`.
pub open spec fn word_texts(text: Seq<char>) -> Seq<Seq<char>> {
    word_bounds(text).map_values(|b: (int, int)| text.subrange(b.0, b.1))
}

/// The number of bytes that a character takes in UTF-8.
pub open spec fn char_width(c: char) -> int {
    if c <= '\u{7f}' {
        1
    } else if c <= '\u{7ff}' {
        2
    } else if c <= '\u{ffff}' {
        3
    } else {
        4
    }
}

/// The number of bytes that a text takes in UTF-8, when it fits in 32 bits;
/// longer texts stop at the largest position.
pub open spec fn byte_position(text: Seq<char>) -> u32
    decreases text.len(),
{
    if text.len() == 0 {
        0
    } else {
        let before = byte_position(text.drop_last());
        if before + char_width(text.last()) <= u32::MAX {
            (before + char_width(text.last())) as u32
        } else {
            u32::MAX
        }
    }
}

/// The span reported for characters `from..to` of a text: the first source
/// span that they come from, else the position of the first of them, else
/// `fallback`.
pub open spec fn word_span(source: SourcedText, from: int, to: int, fallback: Span) -> Span {
    let start = byte_position(source.text@.take(from));
    let spans = source.mapping.spans(start, byte_position(source.text@.take(to)));
    if spans.len() > 0 {
        spans[0]
    } else {
        match source.mapping.anchor(start) {
            Some(span) => span,
            None => fallback,
        }
    }
}

proof fn word_bounds_in_range(text: Seq<char>)
    ensures
        forall|i: int|
            0 <= i < word_bounds(text).len() ==> 0 <= (#[trigger] word_bounds(text)[i]).0
                < word_bounds(text)[i].1 <= text.len(),
    decreases text.len(),
{
    if text.len() > 0 {
        let before = word_bounds(text.drop_last());
        word_bounds_in_range(text.drop_last());
        assert forall|i: int| 0 <= i < word_bounds(text).len() implies 0 <= (
        #[trigger] word_bounds(text)[i]).0 < word_bounds(text)[i].1 <= text.len() by {
            if i < before.len() {
                assert(0 <= before[i].0 < before[i].1 <= text.len() - 1);
            }
        }
    }
}

/// Plain text, read as words or as a whole.
#[derive(Debug, PartialEq, Eq)]
pub struct PlainText {
    pub source: Arc<SourcedText>,
}

impl View for PlainText {
    type V = Seq<char>;

    open spec fn view(&self) -> Seq<char> {
        self.source.text@
    }
}

impl Clone for PlainText {
    fn clone(&self) -> (r: Self)
        ensures
            r == *self,
    {
        PlainText { source: self.source.clone() }
    }
}

impl PlainText {
    /// Plain text with its source positions.
    pub fn new(source: SourcedText) -> (r: Self)
        ensures
            *r.source == source,
    {
        PlainText { source: Arc::new(source) }
    }

    /// The whole text.
    pub fn as_str(&self) -> (r: &str)
        ensures
            r@ == self@,
    {
        self.source.text.as_str()
    }

    /// The white-space separated words, each with its span.
    pub fn words(&self, fallback: Span) -> (r: Vec<Spanned<String>>)
        ensures
            r@.len() == word_bounds(self@).len(),
            forall|i: int|
                #![trigger r@[i]]
                0 <= i < r@.len() ==> {
                    let bounds = word_bounds(self@)[i];
                    &&& r@[i].value@ == self@.subrange(bounds.0, bounds.1)
                    &&& r@[i].span == word_span(*self.source, bounds.0, bounds.1, fallback)
                },
    {
        let chars = char_vec(self.source.text.as_str());
        let mut bounds: Vec<(usize, usize)> = Vec::new();
        let mut starts: Vec<u32> = Vec::new();
        let mut ends: Vec<u32> = Vec::new();
        let mut i: usize = 0;
        let mut at: u32 = 0;
        let ghost text = self@;
        while i < chars.len()
            invariant
                i <= chars@.len(),
                chars@ == text,
                at == byte_position(text.take(i as int)),
                bounds@.len() == word_bounds(text.take(i as int)).len(),
                starts@.len() == bounds@.len(),
                ends@.len() == bounds@.len(),
                forall|k: int|
                    #![trigger bounds@[k]]
                    0 <= k < bounds@.len() ==> {
                        &&& bounds@[k].0 as int == word_bounds(text.take(i as int))[k].0
                        &&& bounds@[k].1 as int == word_bounds(text.take(i as int))[k].1
                        &&& bounds@[k].0 < bounds@[k].1 <= i
                        &&& starts@[k] == byte_position(text.take(bounds@[k].0 as int))
                        &&& ends@[k] == byte_position(text.take(bounds@[k].1 as int))
                    },
            decreases chars@.len() - i,
        {
            let c: char = chars[i];
            let width: u32 = if c <= '\u{7f}' {
                1
            } else if c <= '\u{7ff}' {
                2
            } else if c <= '\u{ffff}' {
                3
            } else {
                4
            };
            let next: u32 = if at as u64 + width as u64 <= 0xffff_ffff {
                at + width
            } else {
                0xffff_ffff
            };
            proof {
                let prefix = text.take(i + 1);
                assert(prefix.drop_last() =~= text.take(i as int));
                assert(prefix.last() == c);
                assert(next == byte_position(prefix));
            }
            if !space(c) {
                let n: usize = bounds.len();
                if n > 0 && bounds[n - 1].1 == i {
                    let first: usize = bounds[n - 1].0;
                    bounds.set(n - 1, (first, i + 1));
                    ends.set(n - 1, next);
                } else {
                    bounds.push((i, i + 1));
                    starts.push(at);
                    ends.push(next);
                }
            }
            at = next;
            i = i + 1;
        }
        proof {
            assert(text.take(text.len() as int) =~= text);
            word_bounds_in_range(text);
        }
        let mut out: Vec<Spanned<String>> = Vec::new();
        let mut k: usize = 0;
        while k < bounds.len()
            invariant
                k <= bounds@.len(),
                out@.len() == k,
                chars@ == text,
                text == self@,
                bounds@.len() == word_bounds(text).len(),
                starts@.len() == bounds@.len(),
                ends@.len() == bounds@.len(),
                forall|m: int|
                    #![trigger bounds@[m]]
                    0 <= m < bounds@.len() ==> {
                        &&& bounds@[m].0 as int == word_bounds(text)[m].0
                        &&& bounds@[m].1 as int == word_bounds(text)[m].1
                        &&& bounds@[m].0 < bounds@[m].1 <= chars@.len()
                        &&& starts@[m] == byte_position(text.take(bounds@[m].0 as int))
                        &&& ends@[m] == byte_position(text.take(bounds@[m].1 as int))
                    },
                forall|m: int|
                    #![trigger out@[m]]
                    0 <= m < k ==> {
                        let b = word_bounds(text)[m];
                        &&& out@[m].value@ == text.subrange(b.0, b.1)
                        &&& out@[m].span == word_span(*self.source, b.0, b.1, fallback)
                    },
            decreases bounds@.len() - k,
        {
            let b = bounds[k];
            let value: String = text_of(&chars, b.0, b.1);
            let spans = self.source.mapping.source_spans(TextRange::new(starts[k], ends[k]));
            let span: Span = if spans.len() > 0 {
                spans[0]
            } else {
                match self.source.mapping.source_anchor_at(starts[k]) {
                    Some(span) => span,
                    None => fallback,
                }
            };
            out.push(Spanned::new(value, span));
            k = k + 1;
        }
        out
    }
}

/// Markdown text.
#[derive(Debug, PartialEq, Eq)]
pub struct MarkdownText {
    pub source: Arc<SourcedText>,
}

impl View for MarkdownText {
    type V = Seq<char>;

    open spec fn view(&self) -> Seq<char> {
        self.source.text@
    }
}

impl Clone for MarkdownText {
    fn clone(&self) -> (r: Self)
        ensures
            r == *self,
    {
        MarkdownText { source: self.source.clone() }
    }
}

impl MarkdownText {
    /// Markdown text with its source positions.
    pub fn new(source: SourcedText) -> (r: Self)
        ensures
            *r.source == source,
    {
        MarkdownText { source: Arc::new(source) }
    }

    /// The whole text.
    pub fn as_str(&self) -> (r: &str)
        ensures
            r@ == self@,
    {
        self.source.text.as_str()
    }
}

/// R source text.
#[derive(Debug, PartialEq, Eq)]
pub struct RCodeText {
    pub source: Arc<SourcedText>,
}

impl View for RCodeText {
    type V = Seq<char>;

    open spec fn view(&self) -> Seq<char> {
        self.source.text@
    }
}

impl Clone for RCodeText {
    fn clone(&self) -> (r: Self)
        ensures
            r == *self,
    {
        RCodeText { source: self.source.clone() }
    }
}

impl RCodeText {
    /// R source with its source positions.
    pub fn new(source: SourcedText) -> (r: Self)
        ensures
            *r.source == source,
    {
        RCodeText { source: Arc::new(source) }
    }

    /// The whole text.
    pub fn as_str(&self) -> (r: &str)
        ensures
            r@ == self@,
    {
        self.source.text.as_str()
    }
}

/// A documentation name.
#[derive(Debug, PartialEq, Eq)]
pub struct DocName(pub String);

impl Clone for DocName {
    fn clone(&self) -> (r: Self)
        ensures
            r == *self,
    {
        DocName(self.0.clone())
    }
}

/// A parameter name.
#[derive(Debug, PartialEq, Eq)]
pub struct ParamName(pub String);

impl Clone for ParamName {
    fn clone(&self) -> (r: Self)
        ensures
            r == *self,
    {
        ParamName(self.0.clone())
    }
}

/// An Rd keyword.
#[derive(Debug, PartialEq, Eq)]
pub struct Keyword(pub String);

impl Clone for Keyword {
    fn clone(&self) -> (r: Self)
        ensures
            r == *self,
    {
        Keyword(self.0.clone())
    }
}

/// Where a tag comes from.
#[derive(Debug, PartialEq, Eq)]
pub enum TagOrigin {
    /// A tag written as `@name`.
    Explicit { full_span: Span, name: Spanned<String> },
    /// A value taken from the introduction of a block or derived for it.
    Implicit { intro_span: Span },
}

impl Clone for TagOrigin {
    fn clone(&self) -> (r: Self)
        ensures
            r == *self,
    {
        match self {
            TagOrigin::Explicit { full_span, name } => TagOrigin::Explicit {
                full_span: *full_span,
                name: Spanned::new(name.value.clone(), name.span),
            },
            TagOrigin::Implicit { intro_span } => TagOrigin::Implicit { intro_span: *intro_span },
        }
    }
}

/// A tag value and its origin.
#[derive(Debug, PartialEq, Eq)]
pub struct TagValue<T> {
    pub value: T,
    pub origin: TagOrigin,
}

/// A field that a block fills or suppresses.
#[derive(Debug, PartialEq, Eq)]
pub enum FieldValue<T> {
    Emit(T),
    /// `NULL`: the block contributes nothing.
    Suppress,
}

/// A field tag and its origin.
#[derive(Debug, PartialEq, Eq)]
pub struct FieldTag<T> {
    pub value: FieldValue<T>,
    pub origin: TagOrigin,
}

/// The body of an examples tag.
#[derive(Debug, PartialEq, Eq)]
pub enum ExamplesContent {
    Ordinary(RCodeText),
    Conditional { condition: RCodeText, body: RCodeText },
}

impl Clone for ExamplesContent {
    fn clone(&self) -> (r: Self)
        ensures
            r == *self,
    {
        match self {
            ExamplesContent::Ordinary(body) => ExamplesContent::Ordinary(body.clone()),
            ExamplesContent::Conditional { condition, body } => ExamplesContent::Conditional {
                condition: condition.clone(),
                body: body.clone(),
            },
        }
    }
}

/// The value of a usage tag.
#[derive(Debug, PartialEq, Eq)]
pub enum UsageDirective {
    SuppressGenerated,
    Explicit(RCodeText),
}

/// Whether a block keeps its default aliases.
#[derive(Debug, Clone, Copy, PartialEq, Eq, Structural)]
pub enum DefaultAliasPolicy {
    Include,
    Suppress,
}

/// The value of an aliases tag.
#[derive(Debug, PartialEq, Eq)]
pub struct AliasDirective {
    pub explicit: Vec<Spanned<DocName>>,
    pub defaults: DefaultAliasPolicy,
}

/// The topic that an inheritance request names.
#[derive(Debug, PartialEq, Eq)]
pub enum InheritTarget {
    Suppress(Span),
    Local { topic: Spanned<String> },
    External { package: Spanned<String>, topic: Spanned<String> },
}

impl Clone for InheritTarget {
    fn clone(&self) -> (r: Self)
        ensures
            r == *self,
    {
        match self {
            InheritTarget::Suppress(span) => InheritTarget::Suppress(*span),
            InheritTarget::Local { topic } => InheritTarget::Local {
                topic: Spanned::new(topic.value.clone(), topic.span),
            },
            InheritTarget::External { package, topic } => InheritTarget::External {
                package: Spanned::new(package.value.clone(), package.span),
                topic: Spanned::new(topic.value.clone(), topic.span),
            },
        }
    }
}

/// A field that can be inherited.
#[derive(Debug, Clone, Copy, PartialEq, Eq, Structural)]
pub enum InheritField {
    Params,
    Return,
    Title,
    Description,
    Details,
    SeeAlso,
    Sections,
    References,
    Examples,
    Author,
    Source,
    Note,
    Format,
}

/// The fields that an inheritance request names.
#[derive(Debug, PartialEq, Eq)]
pub enum InheritFields {
    All,
    Selected(Arc<Vec<InheritField>>),
}

impl Clone for InheritFields {
    fn clone(&self) -> (r: Self)
        ensures
            r == *self,
    {
        match self {
            InheritFields::All => InheritFields::All,
            InheritFields::Selected(fields) => InheritFields::Selected(fields.clone()),
        }
    }
}

/// A NAMESPACE tag.
#[derive(Debug, PartialEq, Eq)]
pub enum NamespaceTag {
    Export(TagValue<PlainText>),
    ExportS3Method(TagValue<PlainText>),
    Import(TagValue<PlainText>),
    ImportFrom(TagValue<PlainText>),
    RawNamespace(TagValue<PlainText>),
    UseDynLib(TagValue<PlainText>),
    ExportPattern(TagValue<PlainText>),
    ExportClass(TagValue<PlainText>),
    ExportMethod(TagValue<PlainText>),
    ImportClassesFrom(TagValue<PlainText>),
    ImportMethodsFrom(TagValue<PlainText>),
}

/// A copy of a plain tag value.
pub fn copy_plain(value: &TagValue<PlainText>) -> (r: TagValue<PlainText>)
    ensures
        r == *value,
{
    TagValue { value: value.value.clone(), origin: value.origin.clone() }
}

impl Clone for NamespaceTag {
    fn clone(&self) -> (r: Self)
        ensures
            r == *self,
    {
        match self {
            NamespaceTag::Export(value) => NamespaceTag::Export(copy_plain(value)),
            NamespaceTag::ExportS3Method(value) => NamespaceTag::ExportS3Method(copy_plain(value)),
            NamespaceTag::Import(value) => NamespaceTag::Import(copy_plain(value)),
            NamespaceTag::ImportFrom(value) => NamespaceTag::ImportFrom(copy_plain(value)),
            NamespaceTag::RawNamespace(value) => NamespaceTag::RawNamespace(copy_plain(value)),
            NamespaceTag::UseDynLib(value) => NamespaceTag::UseDynLib(copy_plain(value)),
            NamespaceTag::ExportPattern(value) => NamespaceTag::ExportPattern(copy_plain(value)),
            NamespaceTag::ExportClass(value) => NamespaceTag::ExportClass(copy_plain(value)),
            NamespaceTag::ExportMethod(value) => NamespaceTag::ExportMethod(copy_plain(value)),
            NamespaceTag::ImportClassesFrom(value) => NamespaceTag::ImportClassesFrom(
                copy_plain(value),
            ),
            NamespaceTag::ImportMethodsFrom(value) => NamespaceTag::ImportMethodsFrom(
                copy_plain(value),
            ),
        }
    }
}

/// One tag of a documentation block.
#[allow(inconsistent_fields)]
#[derive(Debug, PartialEq, Eq)]
pub enum ParsedTag {
    Name(TagValue<PlainText>),
    RdName(TagValue<PlainText>),
    Title(FieldTag<MarkdownText>),
    Description(FieldTag<MarkdownText>),
    Details(FieldTag<MarkdownText>),
    Return(FieldTag<MarkdownText>),
    Examples(TagValue<ExamplesContent>),
    Usage(TagValue<UsageDirective>),
    Order { value: i64, origin: TagOrigin },
    Method { generic: Spanned<String>, class: Spanned<String>, origin: TagOrigin },
    Param { names: Vec<Spanned<ParamName>>, description: MarkdownText, origin: TagOrigin },
    Section { title: MarkdownText, body: MarkdownText, origin: TagOrigin },
    Aliases(TagValue<AliasDirective>),
    Keywords(FieldTag<Vec<Spanned<Keyword>>>),
    Inherit { target: InheritTarget, fields: InheritFields, origin: TagOrigin },
    InheritParams { target: InheritTarget, selection: Option<PlainText>, origin: TagOrigin },
    InheritSection { target: InheritTarget, title: Spanned<MarkdownText>, origin: TagOrigin },
    Namespace(NamespaceTag),
    NoRd(TagOrigin),
    SeeAlso(FieldTag<MarkdownText>),
    References(FieldTag<MarkdownText>),
    Note(FieldTag<MarkdownText>),
    Format(FieldTag<MarkdownText>),
    Source(FieldTag<MarkdownText>),
    Author(FieldTag<MarkdownText>),
    Unsupported(TagOrigin),
    Unknown(TagOrigin),
}

} // verus!
