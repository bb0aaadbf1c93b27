//! Laws of package metadata and of source positions.
use crate::diagnostic::{severity_of, DiagnosticCode, Severity};
use crate::package::{
    describes, description_obstacle, last_field, lower, names_exactly, package_name, spells,
    typed_field, DescriptionErrorView, DescriptionReading, FieldReading, PackageMetadata,
};
use crate::source::{byte_slice, Span};
use crate::tags::{segment_anchor, segment_part, segment_spans, SourceSegment};
use crate::text::{opt_text, texts, trimmed};
use vstd::prelude::*;

verus! {

/// Whether a field has a name and a colon directly behind it.
pub open spec fn is_named(field: FieldReading, text: Seq<char>, name: Seq<char>) -> bool {
    &&& field.name == name
    &&& byte_slice(text, field.name_end, field.value_start) is Some
    &&& byte_slice(text, field.name_end, field.value_start)->0.len() > 0
    &&& byte_slice(text, field.name_end, field.value_start)->0[0] == ':'
}

/// Whether a field is the one of a name that counts: no later field has the name.
pub open spec fn counts(fields: Seq<FieldReading>, text: Seq<char>, name: Seq<char>, i: int) -> bool {
    &&& 0 <= i < fields.len()
    &&& is_named(fields[i], text, name)
    &&& forall|k: int| i < k < fields.len() ==> !is_named(#[trigger] fields[k], text, name)
}

/// Whether no field has a name.
pub open spec fn is_missing(fields: Seq<FieldReading>, text: Seq<char>, name: Seq<char>) -> bool {
    forall|k: int| 0 <= k < fields.len() ==> !is_named(#[trigger] fields[k], text, name)
}

/// A value without a line break at its start.
pub open spec fn unbroken(value: Seq<char>) -> Seq<char> {
    if value.len() > 0 && value[0] == '\n' {
        value.drop_first()
    } else {
        value
    }
}

proof fn named_fields(field: FieldReading, text: Seq<char>, name: Seq<char>)
    ensures
        names_exactly(field, text, name) == is_named(field, text, name),
{
    reveal_strlit(":");
    if let Some(between) = byte_slice(text, field.name_end, field.value_start) {
        if between.len() > 0 {
            assert((between.take(1) == ":"@) == (between[0] == ':')) by {
                assert(between.take(1) =~= seq![between[0]]);
                assert(":"@ =~= seq![':']);
                if between[0] != ':' {
                    assert(between.take(1)[0] != ":"@[0]);
                }
            }
        }
    }
}

proof fn found_field(fields: Seq<FieldReading>, text: Seq<char>, name: Seq<char>, i: int)
    ensures
        counts(fields, text, name, i) ==> last_field(fields, text, name) == Some(fields[i]),
        is_missing(fields, text, name) ==> last_field(fields, text, name) is None,
    decreases fields.len(),
{
    if fields.len() > 0 {
        named_fields(fields.last(), text, name);
        let front = fields.drop_last();
        found_field(front, text, name, i);
        if is_missing(fields, text, name) {
            assert(!is_named(fields[fields.len() - 1], text, name));
            assert forall|k: int| 0 <= k < front.len() implies !is_named(
                #[trigger] front[k],
                text,
                name,
            ) by {
                assert(front[k] == fields[k]);
            }
        }
        if counts(fields, text, name, i) && i < fields.len() - 1 {
            assert(!is_named(fields[fields.len() - 1], text, name));
            assert forall|k: int| i < k < front.len() implies !is_named(
                #[trigger] front[k],
                text,
                name,
            ) by {
                assert(front[k] == fields[k]);
            }
        }
    }
}

proof fn typed_fields(fields: Seq<FieldReading>, text: Seq<char>, name: Seq<char>, i: int)
    ensures
        counts(fields, text, name, i) ==> typed_field(fields, text, name) == Some(
            unbroken(fields[i].folded),
        ),
        is_missing(fields, text, name) ==> typed_field(fields, text, name) is None,
{
    found_field(fields, text, name, i);
    reveal_strlit("\n");
    if counts(fields, text, name, i) {
        let value = fields[i].folded;
        if value.len() > 0 {
            assert(value.take(1) =~= seq![value[0]]);
            assert("\n"@ =~= seq!['\n']);
            if value[0] != '\n' {
                assert(value.take(1)[0] != "\n"@[0]);
            }
            assert(value.skip(1) =~= value.drop_first());
        }
    }
}

/// Each field of the metadata comes from the DESCRIPTION field of its name, by its last
/// occurrence: title, description and URL without a line break at their start, the address for
/// bug reports and the authors as they are. A field that is missing gives nothing.
pub proof fn fields_fill_metadata(
    metadata: PackageMetadata,
    fields: Seq<FieldReading>,
    text: Seq<char>,
    i: int,
)
    requires
        describes(metadata, fields, text),
    ensures
        ({
            let given = metadata.documentation;
            &&& counts(fields, text, "Package"@, i) ==> metadata.package@ == unbroken(
                fields[i].folded,
            )
            &&& counts(fields, text, "Title"@, i) ==> opt_text(given.title) == Some(
                unbroken(fields[i].folded),
            )
            &&& is_missing(fields, text, "Title"@) ==> given.title is None
            &&& counts(fields, text, "Description"@, i) ==> opt_text(given.description) == Some(
                unbroken(fields[i].folded),
            )
            &&& is_missing(fields, text, "Description"@) ==> given.description is None
            &&& counts(fields, text, "URL"@, i) ==> opt_text(given.url) == Some(
                unbroken(fields[i].folded),
            )
            &&& is_missing(fields, text, "URL"@) ==> given.url is None
            &&& counts(fields, text, "BugReports"@, i) ==> opt_text(given.bug_reports) == Some(
                fields[i].folded,
            )
            &&& is_missing(fields, text, "BugReports"@) ==> given.bug_reports is None
            &&& counts(fields, text, "Authors@R"@, i) ==> opt_text(given.authors_r) == Some(
                fields[i].folded,
            )
            &&& is_missing(fields, text, "Authors@R"@) ==> given.authors_r is None
            &&& counts(fields, text, "Encoding"@, i) ==> opt_text(metadata.encoding) == Some(
                unbroken(fields[i].folded),
            )
            &&& is_missing(fields, text, "Encoding"@) ==> metadata.encoding is None
        }),
{
    typed_fields(fields, text, "Package"@, i);
    typed_fields(fields, text, "Title"@, i);
    typed_fields(fields, text, "Description"@, i);
    typed_fields(fields, text, "URL"@, i);
    typed_fields(fields, text, "Encoding"@, i);
    found_field(fields, text, "BugReports"@, i);
    found_field(fields, text, "Authors@R"@, i);
}

/// A package sets its own load order exactly when it has a field Collate, Collate.unix or
/// Collate.windows.
pub proof fn collation_is_declared(
    metadata: PackageMetadata,
    fields: Seq<FieldReading>,
    text: Seq<char>,
    i: int,
)
    requires
        describes(metadata, fields, text),
    ensures
        counts(fields, text, "Collate"@, i) || counts(fields, text, "Collate.unix"@, i) || counts(
            fields,
            text,
            "Collate.windows"@,
            i,
        ) ==> metadata.collate,
        is_missing(fields, text, "Collate"@) && is_missing(fields, text, "Collate.unix"@)
            && is_missing(fields, text, "Collate.windows"@) ==> !metadata.collate,
{
    found_field(fields, text, "Collate"@, i);
    found_field(fields, text, "Collate.unix"@, i);
    found_field(fields, text, "Collate.windows"@, i);
}

/// The dependencies of a package are the valid names that Depends and Imports list, without R
/// itself, in ascending order.
pub proof fn dependencies_are_listed(
    metadata: PackageMetadata,
    fields: Seq<FieldReading>,
    text: Seq<char>,
    i: int,
    name: Seq<char>,
)
    requires
        describes(metadata, fields, text),
        package_name(name),
        name != "R"@,
    ensures
        (counts(fields, text, "Depends"@, i) || counts(fields, text, "Imports"@, i))
            && fields[i].dependencies.contains(name) ==> texts(metadata.dependencies@).contains(
            name,
        ),
        is_missing(fields, text, "Depends"@) && is_missing(fields, text, "Imports"@) ==> !texts(
            metadata.dependencies@,
        ).contains(name),
        counts(fields, text, "Depends"@, i) && is_missing(fields, text, "Imports"@) ==> texts(
            metadata.dependencies@,
        ).contains(name) == fields[i].dependencies.contains(name),
        counts(fields, text, "Imports"@, i) && is_missing(fields, text, "Depends"@) ==> texts(
            metadata.dependencies@,
        ).contains(name) == fields[i].dependencies.contains(name),
        !texts(metadata.dependencies@).contains("R"@),
        crate::text::increasing_texts(texts(metadata.dependencies@)),
{
    found_field(fields, text, "Depends"@, i);
    found_field(fields, text, "Imports"@, i);
    assert(texts(metadata.dependencies@).contains(name) == crate::package::depends_on(
        fields,
        text,
        name,
    ));
    assert(texts(metadata.dependencies@).contains("R"@) == crate::package::depends_on(
        fields,
        text,
        "R"@,
    ));
}

/// Data is loaded lazily when LazyData says true or yes, in any case of the letters and with
/// white space around it, and in no other case.
pub proof fn lazy_data_says_yes(
    metadata: PackageMetadata,
    fields: Seq<FieldReading>,
    text: Seq<char>,
    i: int,
)
    requires
        describes(metadata, fields, text),
    ensures
        is_missing(fields, text, "LazyData"@) ==> !metadata.lazy_data,
        counts(fields, text, "LazyData"@, i) ==> metadata.lazy_data == says_yes(
            trimmed(fields[i].folded),
        ),
{
    found_field(fields, text, "LazyData"@, i);
    if counts(fields, text, "LazyData"@, i) {
        yes_in_any_case(trimmed(fields[i].folded));
    }
}

/// Whether a text is the word true or yes in any case of its letters.
pub open spec fn says_yes(text: Seq<char>) -> bool {
    ||| text.len() == 4 && (text[0] == 't' || text[0] == 'T') && (text[1] == 'r' || text[1] == 'R')
        && (text[2] == 'u' || text[2] == 'U') && (text[3] == 'e' || text[3] == 'E')
    ||| text.len() == 3 && (text[0] == 'y' || text[0] == 'Y') && (text[1] == 'e' || text[1] == 'E')
        && (text[2] == 's' || text[2] == 'S')
}

proof fn yes_in_any_case(text: Seq<char>)
    ensures
        (spells(text, "true"@) || spells(text, "yes"@)) == says_yes(text),
{
    reveal_strlit("true");
    reveal_strlit("yes");
    let small = text.map_values(|c: char| lower(c));
    if says_yes(text) {
        if text.len() == 4 {
            assert(small =~= "true"@);
        } else {
            assert(small =~= "yes"@);
        }
    }
    if spells(text, "true"@) {
        assert(small[0] == 't' && small[1] == 'r' && small[2] == 'u' && small[3] == 'e');
        assert(small.len() == 4);
    }
    if spells(text, "yes"@) {
        assert(small[0] == 'y' && small[1] == 'e' && small[2] == 's');
        assert(small.len() == 3);
    }
}

/// What keeps a DESCRIPTION from being read: what the parser reports; else a missing, empty or
/// invalid package name; else a declared encoding other than UTF-8. Without these it is read.
pub proof fn obstacles_are_told_apart(reading: DescriptionReading, text: Seq<char>, i: int, k: int)
    ensures
        ({
            let fields = reading.fields;
            let obstacle = description_obstacle(reading, text);
            &&& reading.messages.len() > 0 ==> obstacle == Some(
                DescriptionErrorView::Malformed { messages: reading.messages },
            )
            &&& reading.messages.len() == 0 && is_missing(fields, text, "Package"@) ==> obstacle
                == Some(DescriptionErrorView::PackageMissing)
            &&& reading.messages.len() == 0 && counts(fields, text, "Package"@, i) ==> ({
                let package = unbroken(fields[i].folded);
                &&& package.len() == 0 ==> obstacle == Some(DescriptionErrorView::PackageEmpty)
                &&& package.len() > 0 && !package_name(package) ==> obstacle == Some(
                    DescriptionErrorView::PackageInvalid { package },
                )
                &&& package_name(package) && is_missing(fields, text, "Encoding"@) ==> obstacle
                    is None
                &&& package_name(package) && counts(fields, text, "Encoding"@, k) ==> ({
                    let encoding = unbroken(fields[k].folded);
                    if encoding == "UTF-8"@ {
                        obstacle is None
                    } else {
                        obstacle == Some(DescriptionErrorView::UnsupportedEncoding { encoding })
                    }
                })
            })
        }),
{
    typed_fields(reading.fields, text, "Package"@, i);
    typed_fields(reading.fields, text, "Encoding"@, k);
}

/// What makes a package name: two characters or more, a letter first, letters, digits and dots
/// behind it, and no dot at the end.
pub proof fn package_names(name: Seq<char>, i: int)
    ensures
        package_name(name) ==> name.len() >= 2 && ('a' <= name[0] <= 'z' || 'A' <= name[0] <= 'Z')
            && name.last() != '.' && (0 <= i < name.len() ==> 'a' <= name[i] <= 'z' || 'A'
            <= name[i] <= 'Z' || '0' <= name[i] <= '9' || name[i] == '.'),
        name.len() >= 2 && ('a' <= name[0] <= 'z' || 'A' <= name[0] <= 'Z') && (forall|k: int|
            0 <= k < name.len() ==> 'a' <= #[trigger] name[k] <= 'z' || 'A' <= name[k] <= 'Z' || '0'
                <= name[k] <= '9') ==> package_name(name),
{
}

/// Whether a segment lies in the range of positions: its end can be written, in the text and in
/// its file.
pub open spec fn fits(segment: SourceSegment) -> bool {
    &&& segment.span.range.from <= segment.span.range.to
    &&& segment.offset + (segment.span.range.to - segment.span.range.from) <= u32::MAX
}

/// The part of a segment in a range of the text: it begins and ends in the file where the
/// common part of both does, and there is none when they have no byte in common.
pub proof fn segments_give_their_common_part(segment: SourceSegment, from: u32, to: u32)
    requires
        fits(segment),
    ensures
        ({
            let width = segment.span.range.to - segment.span.range.from;
            let first = if from > segment.offset {
                from as int
            } else {
                segment.offset as int
            };
            let last = if to < segment.offset + width {
                to as int
            } else {
                segment.offset + width
            };
            if first < last {
                &&& segment_part(segment, from, to) matches Some(span)
                &&& span.file == segment.span.file
                &&& span.range.from - segment.span.range.from == first - segment.offset
                &&& span.range.to - span.range.from == last - first
            } else {
                segment_part(segment, from, to) is None
            }
        }),
{
}

/// The spans of a range are those of its segments, in their order, one for each segment that
/// has a part in it.
pub proof fn segments_give_spans_in_order(
    first: Seq<SourceSegment>,
    second: Seq<SourceSegment>,
    segment: SourceSegment,
    from: u32,
    to: u32,
)
    ensures
        segment_spans(first + second, from, to) == segment_spans(first, from, to) + segment_spans(
            second,
            from,
            to,
        ),
        segment_part(segment, from, to) matches Some(span) ==> segment_spans(
            seq![segment],
            from,
            to,
        ) == seq![span],
        segment_part(segment, from, to) is None ==> segment_spans(seq![segment], from, to).len()
            == 0,
    decreases second.len(),
{
    assert(seq![segment].drop_last() =~= Seq::<SourceSegment>::empty());
    assert(segment_spans(Seq::empty(), from, to) =~= Seq::<Span>::empty());
    if let Some(span) = segment_part(segment, from, to) {
        assert(segment_spans(seq![segment], from, to) =~= seq![span]);
    }
    if second.len() == 0 {
        assert(first + second =~= first);
        assert(segment_spans(first, from, to) + segment_spans(second, from, to) =~= segment_spans(
            first,
            from,
            to,
        ));
    } else {
        segments_give_spans_in_order(first, second.drop_last(), segment, from, to);
        assert((first + second).drop_last() =~= first + second.drop_last());
        assert(segment_spans(first + second, from, to) =~= segment_spans(first, from, to)
            + segment_spans(second, from, to));
    }
}

/// The position of an offset: in the last segment that begins no later, as far in as the
/// offset is, or at its end.
pub proof fn offsets_have_positions(segments: Seq<SourceSegment>, offset: u32, i: int)
    requires
        0 <= i < segments.len(),
        fits(segments[i]),
        segments[i].offset <= offset,
        forall|k: int| i < k < segments.len() ==> (#[trigger] segments[k]).offset > offset,
    ensures
        ({
            let segment = segments[i];
            let width = segment.span.range.to - segment.span.range.from;
            &&& segment_anchor(segments, offset) matches Some(span)
            &&& span.file == segment.span.file
            &&& span.range.from == span.range.to
            &&& span.range.from - segment.span.range.from == (if offset - segment.offset < width {
                offset - segment.offset
            } else {
                width
            })
        }),
    decreases segments.len(),
{
    if i < segments.len() - 1 {
        assert(segments[segments.len() - 1].offset > offset);
        assert forall|k: int| i < k < segments.len() - 1 implies (
        #[trigger] segments.drop_last()[k]).offset > offset by {
            assert(segments[k].offset > offset);
        }
        offsets_have_positions(segments.drop_last(), offset, i);
    }
}

/// How severe reports are.
pub proof fn severities()
    ensures
        severity_of(DiagnosticCode::DynamicS3Registration) == Severity::Info,
        severity_of(DiagnosticCode::AmbiguousExternalAlias) == Severity::Warning,
        severity_of(DiagnosticCode::MissingPackageDescription) == Severity::Warning,
        severity_of(DiagnosticCode::MissingPackageTitle) == Severity::Warning,
        severity_of(DiagnosticCode::MissingParam) == Severity::Warning,
        severity_of(DiagnosticCode::PackageAuthorsParse) == Severity::Warning,
        severity_of(DiagnosticCode::SelfImport) == Severity::Warning,
        severity_of(DiagnosticCode::UnexportedS3Method) == Severity::Warning,
        severity_of(DiagnosticCode::UnknownTag) == Severity::Warning,
        severity_of(DiagnosticCode::UnresolvedInherit) == Severity::Warning,
        severity_of(DiagnosticCode::UnresolvedS3Export) == Severity::Warning,
        severity_of(DiagnosticCode::UnsupportedMarkdownHeading) == Severity::Warning,
        severity_of(DiagnosticCode::UnusedInlineRSubstitution) == Severity::Warning,
        severity_of(DiagnosticCode::InvalidNamespaceDirective) == Severity::Error,
        severity_of(DiagnosticCode::InvalidS3Registration) == Severity::Error,
        severity_of(DiagnosticCode::AmbiguousS3Registration) == Severity::Error,
        severity_of(DiagnosticCode::UnresolvedS3MethodMetadata) == Severity::Error,
        severity_of(DiagnosticCode::UnsupportedMarkdownConstruct) == Severity::Error,
        severity_of(DiagnosticCode::UnsupportedRawRdMacro) == Severity::Error,
        severity_of(DiagnosticCode::UnsupportedInlineR) == Severity::Error,
        severity_of(DiagnosticCode::UndefinedInlineRSubstitution) == Severity::Error,
        severity_of(DiagnosticCode::TagParseError) == Severity::Error,
        severity_of(DiagnosticCode::MissingTopicIdentity) == Severity::Error,
{
}

} // verus!
