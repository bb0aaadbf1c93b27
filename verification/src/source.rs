//! Source files and positions in them.
use crate::text::{at_most, decimal, text3, text_lt, write_decimal};
use vstd::prelude::*;
use vstd::string::StringSliceAdditionalSpecFns;
use vstd::utf8::is_char_boundary;

verus! {

/// The identity of a registered source file.
#[derive(Debug, Clone, Copy, PartialEq, Eq, Structural, PartialOrd, Ord, Hash)]
pub struct FileId {
    pub id: u32,
}

impl FileId {
    /// The identity with the given registration index.
    pub fn new(id: u32) -> (r: Self)
        ensures
            r.id == id,
    {
        FileId { id }
    }

    /// The registration index.
    pub fn index(&self) -> (r: u32)
        ensures
            r == self.id,
    {
        self.id
    }
}

/// A half-open range of byte offsets.
#[derive(Debug, Clone, Copy, PartialEq, Eq, Structural, PartialOrd, Ord, Hash)]
pub struct TextRange {
    pub from: u32,
    pub to: u32,
}

impl TextRange {
    /// The range `from..to`.
    pub fn new(from: u32, to: u32) -> (r: Self)
        ensures
            r.from == from,
            r.to == to,
    {
        TextRange { from, to }
    }

    /// The first offset.
    pub fn start(&self) -> (r: u32)
        ensures
            r == self.from,
    {
        self.from
    }

    /// The offset past the last byte.
    pub fn end(&self) -> (r: u32)
        ensures
            r == self.to,
    {
        self.to
    }

    /// The number of bytes.
    pub open spec fn width(&self) -> int {
        if self.from <= self.to {
            self.to - self.from
        } else {
            0
        }
    }

    /// The number of bytes.
    pub fn len(&self) -> (r: u32)
        ensures
            r == self.width(),
    {
        if self.from <= self.to {
            self.to - self.from
        } else {
            0
        }
    }

    /// Whether the range holds no byte.
    pub fn is_empty(&self) -> (r: bool)
        ensures
            r == (self.width() == 0),
    {
        self.len() == 0
    }
}

/// A range in one source file.
#[derive(Debug, Clone, Copy, PartialEq, Eq, Structural, PartialOrd, Ord, Hash)]
pub struct Span {
    pub file: FileId,
    pub range: TextRange,
}

/// A span in words: the file and the byte range.
pub open spec fn span_text(span: Span) -> Seq<char> {
    "Span { file: FileId { id: "@ + decimal(span.file.id as nat)
        + " }, range: TextRange { from: "@ + decimal(span.range.from as nat) + ", to: "@ + decimal(
        span.range.to as nat,
    ) + " } }"@
}

/// Writes a span in words.
pub fn write_span(span: Span) -> (r: String)
    ensures
        r@ == span_text(span),
{
    let file = write_decimal(span.file.id);
    let from = write_decimal(span.range.from);
    let to = write_decimal(span.range.to);
    let mut out: String = text3(
        "Span { file: FileId { id: ",
        file.as_str(),
        " }, range: TextRange { from: ",
    );
    out.push_str(from.as_str());
    out.push_str(", to: ");
    out.push_str(to.as_str());
    out.push_str(" } }");
    out
}

impl Span {
    /// The span of `range` in `file`.
    pub fn new(file: FileId, range: TextRange) -> (r: Self)
        ensures
            r.file == file,
            r.range == range,
    {
        Span { file, range }
    }
}

/// A value with the span it was read from.
#[derive(Debug, PartialEq, Eq)]
pub struct Spanned<T> {
    pub value: T,
    pub span: Span,
}

impl<T> Spanned<T> {
    /// Pairs a value with its span.
    pub fn new(value: T, span: Span) -> (r: Self)
        ensures
            r.value == value,
            r.span == span,
    {
        Spanned { value, span }
    }
}

impl<T: Clone> Clone for Spanned<T> {
    fn clone(&self) -> (r: Self)
        ensures
            cloned(self.value, r.value),
            r.span == self.span,
    {
        Spanned { value: self.value.clone(), span: self.span }
    }
}

/// One source file held in memory.
#[derive(Debug, Clone, PartialEq, Eq)]
pub struct SourceFile {
    pub path: String,
    pub text: String,
}

impl SourceFile {
    /// A file with a path and its contents.
    pub fn new(path: String, text: String) -> (r: Self)
        ensures
            r.path == path,
            r.text == text,
    {
        SourceFile { path, text }
    }
}

/// The registered source files of one package, in registration order.
#[derive(Debug, Clone, PartialEq, Eq)]
pub struct SourceMap {
    pub files: Vec<SourceFile>,
}

/// The part of `text` between two byte offsets, when both are character
/// boundaries in order.
pub open spec fn byte_slice(text: Seq<char>, from: int, to: int) -> Option<Seq<char>> {
    let bytes = vstd::utf8::encode_utf8(text);
    if 0 <= from <= to <= bytes.len() && is_char_boundary(bytes, from) && is_char_boundary(
        bytes,
        to,
    ) {
        Some(vstd::utf8::decode_utf8(bytes.subrange(from, to)))
    } else {
        None
    }
}

/// The view of an optional slice.
pub open spec fn opt_str(o: Option<&str>) -> Option<Seq<char>> {
    match o {
        Some(s) => Some(s@),
        None => None,
    }
}

/// The part of `text` between two byte offsets.
pub fn slice_bytes(text: &str, from: usize, to: usize) -> (r: Option<&str>)
    ensures
        opt_str(r) == byte_slice(text@, from as int, to as int),
{
    if from > to || to > text.as_bytes().len() || !text.is_char_boundary(from)
        || !text.is_char_boundary(to) {
        return None;
    }
    let (head, _) = text.split_at(to);
    proof {
        let bytes = text.spec_bytes();
        let front = bytes.subrange(0, to as int);
        assert(is_char_boundary(front, from as int)) by {
            vstd::utf8::encode_utf8_valid_utf8(text@);
            vstd::utf8::valid_utf8_split(bytes, to as int);
            vstd::utf8::is_char_boundary_start_end_of_seq(front);
            if 0 < from && from < to {
                vstd::utf8::is_char_boundary_iff_not_is_continuation_byte(bytes, from as int);
                vstd::utf8::is_char_boundary_iff_not_is_continuation_byte(front, from as int);
            }
        }
    }
    let (_, part) = head.split_at(from);
    proof {
        let bytes = text.spec_bytes();
        assert(part.spec_bytes() =~= bytes.subrange(from as int, to as int));
        vstd::utf8::encode_utf8_decode_utf8(part@);
    }
    Some(part)
}

impl SourceMap {
    /// A map without files.
    pub fn new() -> (r: Self)
        ensures
            r.files@.len() == 0,
    {
        SourceMap { files: Vec::new() }
    }

    /// Registers a file under the next identity.
    pub fn add_file(&mut self, file: SourceFile) -> (r: FileId)
        requires
            old(self).files@.len() < u32::MAX,
        ensures
            final(self).files@ == old(self).files@.push(file),
            r.id == old(self).files@.len(),
    {
        let id: u32 = self.files.len() as u32;
        self.files.push(file);
        FileId { id }
    }

    /// The number of registered files.
    pub fn len(&self) -> (r: usize)
        ensures
            r == self.files@.len(),
    {
        self.files.len()
    }

    /// The file with the given identity.
    pub open spec fn file(&self, id: FileId) -> Option<SourceFile> {
        if id.id < self.files@.len() {
            Some(self.files@[id.id as int])
        } else {
            None
        }
    }

    /// Looks a file up by identity.
    pub fn get(&self, id: FileId) -> (r: Option<&SourceFile>)
        ensures
            match r {
                Some(f) => self.file(id) == Some(*f),
                None => self.file(id) is None,
            },
    {
        let index: usize = id.id as usize;
        if index < self.files.len() {
            Some(&self.files[index])
        } else {
            None
        }
    }

    /// The text of a span, when its file is registered and its ends are
    /// character boundaries.
    pub open spec fn text_at(&self, span: Span) -> Option<Seq<char>> {
        match self.file(span.file) {
            Some(f) => byte_slice(f.text@, span.range.from as int, span.range.to as int),
            None => None,
        }
    }

    /// Reads the text of a span.
    pub fn span_text(&self, span: Span) -> (r: Option<&str>)
        ensures
            opt_str(r) == self.text_at(span),
    {
        match self.get(span.file) {
            Some(f) => slice_bytes(f.text.as_str(), span.range.from as usize, span.range.to as usize),
            None => None,
        }
    }

    /// Whether the default load order runs file `a` before file `b`: both are
    /// registered and the path of `a` sorts strictly first.
    pub open spec fn loads_before(&self, a: FileId, b: FileId) -> bool {
        match (self.file(a), self.file(b)) {
            (Some(x), Some(y)) => text_lt(x.path@, y.path@),
            _ => false,
        }
    }

    /// Whether the default load order provably runs file `a` before file `b`.
    pub fn filename_precedes(&self, a: FileId, b: FileId) -> (r: bool)
        ensures
            r == self.loads_before(a, b),
    {
        match (self.get(a), self.get(b)) {
            (Some(x), Some(y)) => at_most(x.path.as_str(), y.path.as_str())
                && !crate::text::same_text(x.path.as_str(), y.path.as_str()),
            _ => false,
        }
    }
}

} // verus!
