//! Markdown events, as the CommonMark parser reports them.
use pulldown_cmark::{Alignment, CodeBlockKind, Event, LinkType, Tag, TagEnd};
use vstd::prelude::*;

use super::link::link_destination;

verus! {

/// How a table column is aligned.
#[derive(Debug, Clone, Copy, PartialEq, Eq, Structural)]
pub enum ColumnAlignment {
    Unset,
    Left,
    Center,
    Right,
}

/// The kind of a Markdown construct.
#[derive(Debug, Clone, Copy, PartialEq, Eq, Structural)]
pub enum TagKind {
    Paragraph,
    Heading,
    BlockQuote,
    CodeBlock,
    HtmlBlock,
    List,
    Item,
    FootnoteDefinition,
    DefinitionList,
    DefinitionListTitle,
    DefinitionListDefinition,
    Table,
    TableHead,
    TableRow,
    TableCell,
    Emphasis,
    Strong,
    Strikethrough,
    Superscript,
    Subscript,
    Link,
    Image,
    MetadataBlock,
}

/// The opening of a Markdown construct, with what the conversion reads of it.
#[derive(Debug, PartialEq, Eq)]
pub enum MarkdownTag {
    /// A heading of a level from 1 to 6.
    Heading(u8),
    /// A code block; a fenced one has an info string.
    CodeBlock(Option<String>),
    /// A list; an ordered one has the number of its first item.
    List(Option<u64>),
    /// A table with its columns.
    Table(Vec<ColumnAlignment>),
    /// A link.
    Link { destination: String, autolink: bool },
    /// Any other construct.
    Other(TagKind),
}

/// The model of [`MarkdownTag`].
pub enum MarkdownTagView {
    Heading(u8),
    CodeBlock(Option<Seq<char>>),
    List(Option<u64>),
    Table(Seq<ColumnAlignment>),
    Link { destination: Seq<char>, autolink: bool },
    Other(TagKind),
}

impl View for MarkdownTag {
    type V = MarkdownTagView;

    open spec fn view(&self) -> MarkdownTagView {
        match self {
            MarkdownTag::Heading(level) => MarkdownTagView::Heading(*level),
            MarkdownTag::CodeBlock(info) => MarkdownTagView::CodeBlock(crate::text::opt_text(*info)),
            MarkdownTag::List(start) => MarkdownTagView::List(*start),
            MarkdownTag::Table(columns) => MarkdownTagView::Table(columns@),
            MarkdownTag::Link { destination, autolink } => MarkdownTagView::Link {
                destination: destination@,
                autolink: *autolink,
            },
            MarkdownTag::Other(kind) => MarkdownTagView::Other(*kind),
        }
    }
}

/// The kind of construct that a tag opens.
pub open spec fn kind_of(tag: MarkdownTagView) -> TagKind {
    match tag {
        MarkdownTagView::Heading(_) => TagKind::Heading,
        MarkdownTagView::CodeBlock(_) => TagKind::CodeBlock,
        MarkdownTagView::List(_) => TagKind::List,
        MarkdownTagView::Table(_) => TagKind::Table,
        MarkdownTagView::Link { .. } => TagKind::Link,
        MarkdownTagView::Other(kind) => kind,
    }
}

impl MarkdownTag {
    /// The kind of construct that the tag opens.
    pub fn kind(&self) -> (r: TagKind)
        ensures
            r == kind_of(self@),
    {
        match self {
            MarkdownTag::Heading(_) => TagKind::Heading,
            MarkdownTag::CodeBlock(_) => TagKind::CodeBlock,
            MarkdownTag::List(_) => TagKind::List,
            MarkdownTag::Table(_) => TagKind::Table,
            MarkdownTag::Link { .. } => TagKind::Link,
            MarkdownTag::Other(kind) => *kind,
        }
    }
}

/// One event of a Markdown text.
#[derive(Debug, PartialEq, Eq)]
pub enum MarkdownEvent {
    Start(MarkdownTag),
    End(TagKind),
    Text(String),
    Code(String),
    InlineMath(String),
    DisplayMath(String),
    Html(String),
    InlineHtml(String),
    FootnoteReference(String),
    SoftBreak,
    HardBreak,
    Rule,
    TaskListMarker,
}

/// The model of [`MarkdownEvent`].
pub enum MarkdownEventView {
    Start(MarkdownTagView),
    End(TagKind),
    Text(Seq<char>),
    Code(Seq<char>),
    InlineMath(Seq<char>),
    DisplayMath(Seq<char>),
    Html(Seq<char>),
    InlineHtml(Seq<char>),
    FootnoteReference(Seq<char>),
    SoftBreak,
    HardBreak,
    Rule,
    TaskListMarker,
}

impl View for MarkdownEvent {
    type V = MarkdownEventView;

    open spec fn view(&self) -> MarkdownEventView {
        match self {
            MarkdownEvent::Start(tag) => MarkdownEventView::Start(tag@),
            MarkdownEvent::End(kind) => MarkdownEventView::End(*kind),
            MarkdownEvent::Text(text) => MarkdownEventView::Text(text@),
            MarkdownEvent::Code(text) => MarkdownEventView::Code(text@),
            MarkdownEvent::InlineMath(text) => MarkdownEventView::InlineMath(text@),
            MarkdownEvent::DisplayMath(text) => MarkdownEventView::DisplayMath(text@),
            MarkdownEvent::Html(text) => MarkdownEventView::Html(text@),
            MarkdownEvent::InlineHtml(text) => MarkdownEventView::InlineHtml(text@),
            MarkdownEvent::FootnoteReference(text) => MarkdownEventView::FootnoteReference(text@),
            MarkdownEvent::SoftBreak => MarkdownEventView::SoftBreak,
            MarkdownEvent::HardBreak => MarkdownEventView::HardBreak,
            MarkdownEvent::Rule => MarkdownEventView::Rule,
            MarkdownEvent::TaskListMarker => MarkdownEventView::TaskListMarker,
        }
    }
}

/// An event and the byte range of the text that it covers.
#[derive(Debug, PartialEq, Eq)]
pub struct SourcedEvent {
    pub event: MarkdownEvent,
    pub start: usize,
    pub end: usize,
}

/// The model of [`SourcedEvent`].
pub struct SourcedEventView {
    pub event: MarkdownEventView,
    pub start: usize,
    pub end: usize,
}

impl View for SourcedEvent {
    type V = SourcedEventView;

    open spec fn view(&self) -> SourcedEventView {
        SourcedEventView { event: self.event@, start: self.start, end: self.end }
    }
}

/// The models of events.
pub open spec fn event_views(events: Seq<SourcedEvent>) -> Seq<SourcedEventView> {
    events.map_values(|event: SourcedEvent| event@)
}

/// An event of `pulldown-cmark`.
#[verifier::external_type_specification]
#[verifier::external_body]
pub struct ExEvent<'a>(Event<'a>);

/// An opening tag of `pulldown-cmark`.
#[verifier::external_type_specification]
#[verifier::external_body]
pub struct ExTag<'a>(Tag<'a>);

/// A closing tag of `pulldown-cmark`.
#[verifier::external_type_specification]
#[verifier::external_body]
pub struct ExTagEnd(TagEnd);

/// A column alignment of `pulldown-cmark`.
#[verifier::external_type_specification]
#[verifier::external_body]
pub struct ExAlignment(Alignment);

/// The events that `pulldown-cmark` reads in a text, with tables enabled and
/// with every reference that has no definition read as a help link.
pub uninterp spec fn markdown_reading(text: Seq<char>) -> Seq<SourcedEventView>;

/// Runs `pulldown_cmark::Parser` over a text, with
/// `Parser::new_with_broken_link_callback` and `into_offset_iter`. The
/// contract only says that the events depend on nothing but the text.
#[verifier::external_body]
pub(crate) fn markdown_events(text: &str) -> (r: Vec<SourcedEvent>)
    ensures
        event_views(r@) == markdown_reading(text@),
{
    let options = pulldown_cmark::Options::ENABLE_TABLES;
    let topic = |link: pulldown_cmark::BrokenLink<'_>| {
        let destination = link_destination(text, link.span.start, link.span.end, &link.reference);
        Some((destination.into(), "".into()))
    };
    pulldown_cmark::Parser::new_with_broken_link_callback(text, options, Some(topic))
        .into_offset_iter()
        .map(|(event, range)| SourcedEvent {
            event: convert_event(event),
            start: range.start,
            end: range.end,
        })
        .collect()
}

/// Moves a `pulldown_cmark::Event` into the [`MarkdownEvent`] of its name.
#[verifier::external_body]
fn convert_event(event: Event<'_>) -> MarkdownEvent {
    match event {
        Event::Start(tag) => MarkdownEvent::Start(convert_tag(tag)),
        Event::End(end) => MarkdownEvent::End(convert_block_end(end)),
        Event::SoftBreak => MarkdownEvent::SoftBreak,
        Event::HardBreak => MarkdownEvent::HardBreak,
        Event::Rule => MarkdownEvent::Rule,
        Event::TaskListMarker(_) => MarkdownEvent::TaskListMarker,
        Event::Text(text) => MarkdownEvent::Text(text.into_string()),
        Event::Code(text) => MarkdownEvent::Code(text.into_string()),
        literal => convert_literal(literal),
    }
}

/// Moves a literal `pulldown_cmark::Event` into the [`MarkdownEvent`] of its
/// name.
#[verifier::external_body]
fn convert_literal(event: Event<'_>) -> MarkdownEvent {
    match event {
        Event::InlineMath(text) => MarkdownEvent::InlineMath(text.into_string()),
        Event::DisplayMath(text) => MarkdownEvent::DisplayMath(text.into_string()),
        Event::Html(text) => MarkdownEvent::Html(text.into_string()),
        Event::InlineHtml(text) => MarkdownEvent::InlineHtml(text.into_string()),
        Event::FootnoteReference(text) => MarkdownEvent::FootnoteReference(text.into_string()),
        other => convert_event(other),
    }
}

/// Moves a `pulldown_cmark::Tag` into a [`MarkdownTag`].
#[verifier::external_body]
fn convert_tag(tag: Tag<'_>) -> MarkdownTag {
    match tag {
        Tag::Heading { level, .. } => MarkdownTag::Heading(level as u8),
        Tag::CodeBlock(CodeBlockKind::Fenced(info)) => MarkdownTag::CodeBlock(Some(info.into_string())),
        Tag::CodeBlock(CodeBlockKind::Indented) => MarkdownTag::CodeBlock(None),
        Tag::List(start) => MarkdownTag::List(start),
        Tag::Table(columns) => MarkdownTag::Table(columns.into_iter().map(convert_alignment).collect()),
        Tag::Link { link_type, dest_url, .. } => MarkdownTag::Link {
            destination: dest_url.into_string(),
            autolink: matches!(link_type, LinkType::Autolink),
        },
        other => MarkdownTag::Other(convert_block_end(other.to_end())),
    }
}

/// Moves a `pulldown_cmark::Alignment` into the [`ColumnAlignment`] of its
/// name.
#[verifier::external_body]
fn convert_alignment(alignment: Alignment) -> ColumnAlignment {
    match alignment {
        Alignment::None => ColumnAlignment::Unset,
        Alignment::Left => ColumnAlignment::Left,
        Alignment::Center => ColumnAlignment::Center,
        Alignment::Right => ColumnAlignment::Right,
    }
}

/// Moves a `pulldown_cmark::TagEnd` into the [`TagKind`] of its name.
#[verifier::external_body]
fn convert_block_end(end: TagEnd) -> TagKind {
    match end {
        TagEnd::Paragraph => TagKind::Paragraph,
        TagEnd::Heading(_) => TagKind::Heading,
        TagEnd::BlockQuote(_) => TagKind::BlockQuote,
        TagEnd::CodeBlock => TagKind::CodeBlock,
        TagEnd::HtmlBlock => TagKind::HtmlBlock,
        TagEnd::List(_) => TagKind::List,
        TagEnd::Item => TagKind::Item,
        TagEnd::Table => TagKind::Table,
        TagEnd::TableHead => TagKind::TableHead,
        TagEnd::TableRow => TagKind::TableRow,
        TagEnd::TableCell => TagKind::TableCell,
        other => convert_inline_end(other),
    }
}

/// Moves a `pulldown_cmark::TagEnd` of a span or an extension into the
/// [`TagKind`] of its name.
#[verifier::external_body]
fn convert_inline_end(end: TagEnd) -> TagKind {
    match end {
        TagEnd::Emphasis => TagKind::Emphasis,
        TagEnd::Strong => TagKind::Strong,
        TagEnd::Strikethrough => TagKind::Strikethrough,
        TagEnd::Superscript => TagKind::Superscript,
        TagEnd::Subscript => TagKind::Subscript,
        TagEnd::Link => TagKind::Link,
        TagEnd::Image => TagKind::Image,
        TagEnd::FootnoteDefinition => TagKind::FootnoteDefinition,
        TagEnd::DefinitionList => TagKind::DefinitionList,
        TagEnd::DefinitionListTitle => TagKind::DefinitionListTitle,
        TagEnd::DefinitionListDefinition => TagKind::DefinitionListDefinition,
        TagEnd::MetadataBlock(_) => TagKind::MetadataBlock,
        other => convert_block_end(other),
    }
}

} // verus!
