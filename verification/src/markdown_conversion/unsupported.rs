//! Names of unsupported Markdown constructs and what is reported of them.
//!
//! A construct that has no Rd form is reported, its contents are flattened
//! into the text around it, and its literal text is kept.
use crate::diagnostic::{
    plain_diagnostic, severity_of, Diagnostic, DiagnosticCode, DiagnosticView, Diagnostics, Label,
    LabelView, Severity,
};
use crate::source::Span;
use crate::tags::SourcedText;
use crate::text::{same_text, text2};
use vstd::prelude::*;

use super::events::{kind_of, MarkdownTag, MarkdownTagView, TagKind};
use super::frame::{frame_views, Frame, FrameKind, FrameKindView, FrameView};
use super::position::{range_spans, spans_of};

verus! {

/// The name of a kind of construct.
pub open spec fn kind_name(kind: TagKind) -> Seq<char> {
    match kind {
        TagKind::CodeBlock => "code block"@,
        TagKind::List => "list"@,
        TagKind::Item => "list item"@,
        TagKind::Link => "link"@,
        TagKind::Image => "image"@,
        TagKind::BlockQuote => "block quote"@,
        TagKind::Heading => "heading"@,
        TagKind::Table | TagKind::TableHead | TagKind::TableRow | TagKind::TableCell => "table"@,
        TagKind::HtmlBlock => "HTML block"@,
        TagKind::FootnoteDefinition => "footnote definition"@,
        TagKind::Strikethrough => "strikethrough"@,
        TagKind::Superscript => "superscript"@,
        TagKind::Subscript => "subscript"@,
        TagKind::DefinitionList => "definition list"@,
        TagKind::DefinitionListTitle => "definition list title"@,
        TagKind::DefinitionListDefinition => "definition list definition"@,
        TagKind::MetadataBlock => "metadata block"@,
        TagKind::Paragraph | TagKind::Emphasis | TagKind::Strong => "Markdown construct"@,
    }
}

/// The name of a construct.
pub open spec fn construct_name(tag: MarkdownTagView) -> Seq<char> {
    if tag == MarkdownTagView::Heading(1) {
        "level-one heading"@
    } else {
        kind_name(kind_of(tag))
    }
}

fn name_of_kind(kind: TagKind) -> (r: &'static str)
    ensures
        r@ == kind_name(kind),
{
    match kind {
        TagKind::CodeBlock => "code block",
        TagKind::List => "list",
        TagKind::Item => "list item",
        TagKind::Link => "link",
        TagKind::Image => "image",
        TagKind::BlockQuote => "block quote",
        TagKind::Heading => "heading",
        TagKind::Table | TagKind::TableHead | TagKind::TableRow | TagKind::TableCell => "table",
        TagKind::HtmlBlock => "HTML block",
        TagKind::FootnoteDefinition => "footnote definition",
        TagKind::Strikethrough => "strikethrough",
        TagKind::Superscript => "superscript",
        TagKind::Subscript => "subscript",
        TagKind::DefinitionList => "definition list",
        TagKind::DefinitionListTitle => "definition list title",
        TagKind::DefinitionListDefinition => "definition list definition",
        TagKind::MetadataBlock => "metadata block",
        TagKind::Paragraph | TagKind::Emphasis | TagKind::Strong => "Markdown construct",
    }
}

/// The name of a construct.
pub fn unsupported_tag_name(tag: &MarkdownTag) -> (r: String)
    ensures
        r@ == construct_name(tag@),
{
    if let MarkdownTag::Heading(level) = tag {
        if *level == 1 {
            return "level-one heading".to_owned();
        }
    }
    name_of_kind(tag.kind()).to_owned()
}

/// Whether the innermost frame is an unsupported construct of a name.
pub open spec fn in_unsupported(frames: Seq<FrameView>, name: Seq<char>) -> bool {
    frames.len() > 0 && (frames.last().kind matches FrameKindView::Unsupported { name: other, .. }
        && other == name)
}

/// Whether the innermost frame is an unsupported construct of a name.
pub fn is_in_unsupported(frames: &Vec<Frame>, name: &str) -> (r: bool)
    ensures
        r == in_unsupported(frame_views(frames@), name@),
{
    if frames.len() == 0 {
        return false;
    }
    proof {
        assert(frame_views(frames@).last() == frames@.last()@);
    }
    match &frames[frames.len() - 1].kind {
        FrameKind::Unsupported { name: other, start: _ } => same_text(other, name),
        _ => false,
    }
}

/// Whether a table part lies in an unsupported table.
pub open spec fn nested_table(frames: Seq<FrameView>, name: Seq<char>) -> bool {
    name == "table"@ && in_unsupported(frames, "table"@)
}

/// Whether a table part lies in an unsupported table.
pub fn is_nested_table_envelope(frames: &Vec<Frame>, name: &str) -> (r: bool)
    ensures
        r == nested_table(frame_views(frames@), name@),
{
    same_text(name, "table") && is_in_unsupported(frames, "table")
}

/// Whether any frame is an unsupported construct.
pub open spec fn any_unsupported(frames: Seq<FrameView>) -> bool {
    exists|i: int| 0 <= i < frames.len() && (#[trigger] frames[i]).kind is Unsupported
}

fn has_unsupported(frames: &Vec<Frame>) -> (r: bool)
    ensures
        r == any_unsupported(frame_views(frames@)),
{
    let mut i: usize = 0;
    while i < frames.len()
        invariant
            i <= frames@.len(),
            forall|k: int| 0 <= k < i ==> !((#[trigger] frame_views(frames@)[k]).kind is Unsupported),
        decreases frames@.len() - i,
    {
        proof {
            assert(frame_views(frames@)[i as int] == frames@[i as int]@);
        }
        if let FrameKind::Unsupported { .. } = &frames[i].kind {
            return true;
        }
        i = i + 1;
    }
    false
}

/// Whether the construct around an unsupported one has been reported for both:
/// a table part in a table, or a heading in any unsupported construct.
pub open spec fn is_redundant(frames: Seq<FrameView>, name: Seq<char>) -> bool {
    nested_table(frames, name) || ((name == "heading"@ || name == "level-one heading"@)
        && any_unsupported(frames))
}

/// Whether the construct around an unsupported one has been reported for both.
pub fn is_redundant_unsupported_envelope(frames: &Vec<Frame>, name: &str) -> (r: bool)
    ensures
        r == is_redundant(frame_views(frames@), name@),
{
    is_nested_table_envelope(frames, name) || ((same_text(name, "heading") || same_text(
        name,
        "level-one heading",
    )) && has_unsupported(frames))
}

/// A diagnostic with a label on each of the spans from `from` on.
pub open spec fn with_parts(
    diagnostic: DiagnosticView,
    spans: Seq<Span>,
    from: int,
    message: Seq<char>,
) -> DiagnosticView
    decreases spans.len() - from,
{
    if from < 0 || from >= spans.len() {
        diagnostic
    } else {
        with_parts(
            diagnostic.and_label(LabelView { span: spans[from], message }),
            spans,
            from + 1,
            message,
        )
    }
}

fn label_parts(diagnostic: Diagnostic, spans: &Vec<Span>, message: &str) -> (r: Diagnostic)
    ensures
        r@ == with_parts(diagnostic@, spans@, 1, message@),
{
    let mut out = diagnostic;
    let mut i: usize = 1;
    while i < spans.len()
        invariant
            with_parts(diagnostic@, spans@, 1, message@) == with_parts(
                out@,
                spans@,
                i as int,
                message@,
            ),
            i >= 1,
        decreases spans@.len() - i,
    {
        out = out.with_secondary(Label::at(spans[i], message));
        i = i + 1;
    }
    out
}

/// What is reported over a byte range: on its first source span, with the other
/// spans as parts. Nothing is reported of a range without source.
pub open spec fn range_report(
    source: SourcedText,
    code: DiagnosticCode,
    message: Seq<char>,
    label: Seq<char>,
    part: Seq<char>,
    start: usize,
    end: usize,
) -> Option<DiagnosticView> {
    let spans = spans_of(source, start, end);
    if spans.len() == 0 {
        None
    } else {
        Some(
            with_parts(
                plain_diagnostic(
                    severity_of(code),
                    code,
                    message,
                    LabelView { span: spans[0], message: label },
                ),
                spans,
                1,
                part,
            ),
        )
    }
}

/// A diagnostic as a list.
pub open spec fn report_seq(report: Option<DiagnosticView>) -> Seq<DiagnosticView> {
    match report {
        Some(report) => seq![report],
        None => Seq::empty(),
    }
}

fn report_range(
    source: &SourcedText,
    code: DiagnosticCode,
    message: String,
    label: &str,
    part: &str,
    start: usize,
    end: usize,
) -> (r: Option<Diagnostic>)
    ensures
        (match r {
            Some(diagnostic) => Some(diagnostic@),
            None => None,
        }) == range_report(*source, code, message@, label@, part@, start, end),
{
    let spans = range_spans(source, start, end);
    if spans.len() == 0 {
        return None;
    }
    let diagnostic = Diagnostic::new(
        code.default_severity(),
        code,
        message,
        Label::at(spans[0], label),
    );
    Some(label_parts(diagnostic, &spans, part))
}

/// What is reported of code that asks for an evaluation.
pub open spec fn code_report(
    source: SourcedText,
    code: DiagnosticCode,
    message: Seq<char>,
    label: Seq<char>,
    start: usize,
    end: usize,
) -> Seq<DiagnosticView> {
    report_seq(
        range_report(
            source,
            code,
            message,
            label,
            "part of this Markdown construct"@,
            start,
            end,
        ),
    )
}

/// Reports a byte range.
pub fn diagnose_code_range(
    source: &SourcedText,
    code: DiagnosticCode,
    message: String,
    label: &str,
    start: usize,
    end: usize,
    diagnostics: &mut Diagnostics,
)
    ensures
        final(diagnostics)@ == old(diagnostics)@ + code_report(
            *source,
            code,
            message@,
            label@,
            start,
            end,
        ),
{
    let part = "part of this Markdown construct";
    if let Some(diagnostic) = report_range(source, code, message, label, part, start, end) {
        diagnostics.push(diagnostic);
    }
    proof {
        assert(diagnostics@ =~= old(diagnostics)@ + code_report(
            *source,
            code,
            message@,
            label@,
            start,
            end,
        ));
    }
}

/// What is reported of an unsupported construct.
pub open spec fn construct_report(source: SourcedText, name: Seq<char>, start: usize, end: usize) -> Seq<
    DiagnosticView,
> {
    if name == "level-one heading"@ {
        heading_report(source, start, end)
    } else {
        code_report(
            source,
            DiagnosticCode::UnsupportedMarkdownConstruct,
            "unsupported Markdown construct: "@ + name,
            "unsupported Markdown construct"@,
            start,
            end,
        )
    }
}

/// What is reported of a level-one heading.
pub open spec fn heading_report(source: SourcedText, start: usize, end: usize) -> Seq<DiagnosticView> {
    match range_report(
        source,
        DiagnosticCode::UnsupportedMarkdownHeading,
        "level-1 Markdown headings are flattened into prose"@,
        "unsupported level-1 Markdown heading"@,
        "part of this Markdown heading"@,
        start,
        end,
    ) {
        Some(report) => seq![
            report.and_help(
                "use an explicit @section Title: contribution to preserve section structure"@,
            ),
        ],
        None => Seq::empty(),
    }
}

fn diagnose_level_one_heading(
    source: &SourcedText,
    start: usize,
    end: usize,
    diagnostics: &mut Diagnostics,
)
    ensures
        final(diagnostics)@ == old(diagnostics)@ + heading_report(*source, start, end),
{
    let report = report_range(
        source,
        DiagnosticCode::UnsupportedMarkdownHeading,
        "level-1 Markdown headings are flattened into prose".to_owned(),
        "unsupported level-1 Markdown heading",
        "part of this Markdown heading",
        start,
        end,
    );
    if let Some(diagnostic) = report {
        diagnostics.push(
            diagnostic.with_help(
                "use an explicit @section Title: contribution to preserve section structure",
            ),
        );
    }
    proof {
        assert(diagnostics@ =~= old(diagnostics)@ + heading_report(*source, start, end));
    }
}

/// Reports an unsupported construct.
pub fn diagnose_range(
    source: &SourcedText,
    name: &str,
    start: usize,
    end: usize,
    diagnostics: &mut Diagnostics,
)
    ensures
        final(diagnostics)@ == old(diagnostics)@ + construct_report(*source, name@, start, end),
{
    if same_text(name, "level-one heading") {
        diagnose_level_one_heading(source, start, end, diagnostics);
        return;
    }
    diagnose_code_range(
        source,
        DiagnosticCode::UnsupportedMarkdownConstruct,
        text2("unsupported Markdown construct: ", name),
        "unsupported Markdown construct",
        start,
        end,
        diagnostics,
    );
}

/// What is reported of an inline R expression without a substitution.
pub open spec fn undefined_report(source: SourcedText, start: usize, end: usize) -> Seq<
    DiagnosticView,
> {
    let spans = spans_of(source, start, end);
    if spans.len() == 0 {
        Seq::empty()
    } else {
        seq![
            plain_diagnostic(
                Severity::Error,
                DiagnosticCode::UndefinedInlineRSubstitution,
                "no substitution is defined for inline R expression"@,
                LabelView {
                    span: spans[0],
                    message: "inline R expression has no substitution"@,
                },
            ).and_help("provide a substitution for this exact inline R expression"@),
        ]
    }
}

/// Reports an inline R expression without a substitution.
pub fn diagnose_undefined_inline_r(
    source: &SourcedText,
    start: usize,
    end: usize,
    diagnostics: &mut Diagnostics,
)
    ensures
        final(diagnostics)@ == old(diagnostics)@ + undefined_report(*source, start, end),
{
    let spans = range_spans(source, start, end);
    if spans.len() > 0 {
        diagnostics.push(
            Diagnostic::new(
                Severity::Error,
                DiagnosticCode::UndefinedInlineRSubstitution,
                "no substitution is defined for inline R expression".to_owned(),
                Label::at(spans[0], "inline R expression has no substitution"),
            ).with_help("provide a substitution for this exact inline R expression"),
        );
    }
    proof {
        assert(diagnostics@ =~= old(diagnostics)@ + undefined_report(*source, start, end));
    }
}

/// What is reported of inline R code over several lines.
pub open spec fn multiline_report(source: SourcedText, start: usize, end: usize) -> Seq<
    DiagnosticView,
> {
    code_report(
        source,
        DiagnosticCode::UnsupportedInlineR,
        "multi-line inline R code is not supported"@,
        "unsupported inline R code"@,
        start,
        end,
    )
}

/// Reports inline R code over several lines.
pub fn diagnose_multiline_inline_r(
    source: &SourcedText,
    start: usize,
    end: usize,
    diagnostics: &mut Diagnostics,
)
    ensures
        final(diagnostics)@ == old(diagnostics)@ + multiline_report(*source, start, end),
{
    diagnose_code_range(
        source,
        DiagnosticCode::UnsupportedInlineR,
        "multi-line inline R code is not supported".to_owned(),
        "unsupported inline R code",
        start,
        end,
        diagnostics,
    );
}

/// What is reported of inline R code that cannot be evaluated.
pub open spec fn evaluation_report(source: SourcedText, start: usize, end: usize) -> Seq<
    DiagnosticView,
> {
    code_report(
        source,
        DiagnosticCode::UnsupportedInlineR,
        "unsupported inline R code: evaluation is not supported"@,
        "unsupported inline R code"@,
        start,
        end,
    )
}

/// Reports inline R code that cannot be evaluated.
pub fn diagnose_evaluation(
    source: &SourcedText,
    start: usize,
    end: usize,
    diagnostics: &mut Diagnostics,
)
    ensures
        final(diagnostics)@ == old(diagnostics)@ + evaluation_report(*source, start, end),
{
    diagnose_code_range(
        source,
        DiagnosticCode::UnsupportedInlineR,
        "unsupported inline R code: evaluation is not supported".to_owned(),
        "unsupported inline R code",
        start,
        end,
        diagnostics,
    );
}

/// What is reported of a code block that cannot be evaluated.
pub open spec fn chunk_report(source: SourcedText, start: usize, end: usize) -> Seq<DiagnosticView> {
    code_report(
        source,
        DiagnosticCode::UnsupportedInlineR,
        "unsupported executable R Markdown code block: evaluation is not supported"@,
        "unsupported executable R Markdown code block"@,
        start,
        end,
    )
}

/// Reports a code block that cannot be evaluated.
pub fn diagnose_chunk(
    source: &SourcedText,
    start: usize,
    end: usize,
    diagnostics: &mut Diagnostics,
)
    ensures
        final(diagnostics)@ == old(diagnostics)@ + chunk_report(*source, start, end),
{
    diagnose_code_range(
        source,
        DiagnosticCode::UnsupportedInlineR,
        "unsupported executable R Markdown code block: evaluation is not supported".to_owned(),
        "unsupported executable R Markdown code block",
        start,
        end,
        diagnostics,
    );
}

/// What is reported of a raw Rd macro that has no place in prose.
pub open spec fn raw_macro_report(source: SourcedText, start: usize, end: usize) -> Seq<
    DiagnosticView,
> {
    report_seq(
        range_report(
            source,
            DiagnosticCode::UnsupportedRawRdMacro,
            "unsupported raw Rd macro"@,
            "unsupported raw Rd macro"@,
            "part of this raw Rd macro"@,
            start,
            end,
        ),
    )
}

/// Reports a raw Rd macro.
pub fn diagnose_raw_macro(
    source: &SourcedText,
    start: usize,
    end: usize,
    diagnostics: &mut Diagnostics,
)
    ensures
        final(diagnostics)@ == old(diagnostics)@ + raw_macro_report(*source, start, end),
{
    let report = report_range(
        source,
        DiagnosticCode::UnsupportedRawRdMacro,
        "unsupported raw Rd macro".to_owned(),
        "unsupported raw Rd macro",
        "part of this raw Rd macro",
        start,
        end,
    );
    if let Some(diagnostic) = report {
        diagnostics.push(diagnostic);
    }
    proof {
        assert(diagnostics@ =~= old(diagnostics)@ + raw_macro_report(*source, start, end));
    }
}

} // verus!
