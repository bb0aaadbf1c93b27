//! Package metadata, built in memory or read from a DESCRIPTION text.
use crate::source::{byte_slice, slice_bytes, SourceMap};
use crate::text::{
    alnum, alpha, at_most, char_vec, debug_text, has_prefix, increasing_texts, is_alnum, is_alpha,
    opt_text, same_text, starts_with, strip_prefix, text2, text_le, text_le_antisymmetric,
    text_le_reflexive, text_le_total, text_le_transitive, text_lt, texts, trim, trimmed,
    written_debug,
};
use vstd::prelude::*;

verus! {

/// DESCRIPTION fields used as defaults for the package documentation topic.
#[derive(Debug, PartialEq, Eq)]
pub struct PackageDocumentationMetadata {
    pub title: Option<String>,
    pub description: Option<String>,
    pub url: Option<String>,
    pub bug_reports: Option<String>,
    /// The source text of `Authors@R`.
    pub authors_r: Option<String>,
}

impl PackageDocumentationMetadata {
    /// No fields.
    pub fn new() -> (r: Self)
        ensures
            r.title is None,
            r.description is None,
            r.url is None,
            r.bug_reports is None,
            r.authors_r is None,
    {
        PackageDocumentationMetadata {
            title: None,
            description: None,
            url: None,
            bug_reports: None,
            authors_r: None,
        }
    }
}

/// The package metadata consumed by the documentation pipeline.
#[derive(Debug, PartialEq, Eq)]
pub struct PackageMetadata {
    /// The validated package name.
    pub package: String,
    /// The packages that `Depends` and `Imports` name, in ascending order.
    pub dependencies: Vec<String>,
    /// The declared encoding.
    pub encoding: Option<String>,
    /// Whether a `Collate`-family field is present.
    pub collate: bool,
    /// Whether data is declared to be lazily loaded.
    pub lazy_data: bool,
    /// Defaults for the package documentation topic.
    pub documentation: PackageDocumentationMetadata,
}

/// An error constructing metadata without reading a package from disk.
#[derive(Debug, Clone, PartialEq, Eq)]
pub enum PackageMetadataError {
    /// The package name is empty.
    EmptyPackage,
    /// The package name does not match R's package-name grammar.
    InvalidPackageName { package: String },
    /// The declared encoding is not supported.
    UnsupportedEncoding { encoding: String },
}

/// The model of [`PackageMetadataError`].
pub enum MetadataErrorView {
    EmptyPackage,
    InvalidPackageName { package: Seq<char> },
    UnsupportedEncoding { encoding: Seq<char> },
}

impl View for PackageMetadataError {
    type V = MetadataErrorView;

    open spec fn view(&self) -> MetadataErrorView {
        match self {
            PackageMetadataError::EmptyPackage => MetadataErrorView::EmptyPackage,
            PackageMetadataError::InvalidPackageName { package } =>
                MetadataErrorView::InvalidPackageName { package: package@ },
            PackageMetadataError::UnsupportedEncoding { encoding } =>
                MetadataErrorView::UnsupportedEncoding { encoding: encoding@ },
        }
    }
}

impl PackageMetadataError {
    /// The error as text.
    pub fn message(&self) -> (r: String)
        ensures
            r@ == match self@ {
                MetadataErrorView::EmptyPackage => "Package is empty"@,
                MetadataErrorView::InvalidPackageName { package } => "invalid R package name "@
                    + written_debug(package),
                MetadataErrorView::UnsupportedEncoding { encoding } =>
                    "unsupported declared Encoding "@ + written_debug(encoding),
            },
    {
        match self {
            PackageMetadataError::EmptyPackage => "Package is empty".to_owned(),
            PackageMetadataError::InvalidPackageName { package } => {
                let shown = debug_text(package.as_str());
                text2("invalid R package name ", shown.as_str())
            },
            PackageMetadataError::UnsupportedEncoding { encoding } => {
                let shown = debug_text(encoding.as_str());
                text2("unsupported declared Encoding ", shown.as_str())
            },
        }
    }
}

/// R's package-name grammar: a letter, then letters, digits and dots, and a
/// letter or digit at the end, two characters at least.
pub open spec fn package_name(name: Seq<char>) -> bool {
    &&& name.len() >= 2
    &&& is_alpha(name[0])
    &&& is_alnum(name.last())
    &&& forall|i: int| 0 < i < name.len() - 1 ==> is_alnum(#[trigger] name[i]) || name[i] == '.'
}

/// Checks a name against R's package-name grammar.
///
/// R states the rule as `[[:alpha:]][[:alnum:].]*[[:alnum:]]`, which is
/// stricter than "starts with a letter, then letters, digits and dots" in two
/// ways worth spelling out: the trailing class makes a single character too
/// short, and it forbids a trailing dot. Both are rejected by R itself, so
/// accepting them here would mean documenting a package R will not install.
pub fn validate_package_name(package: &str) -> (r: Result<(), PackageMetadataError>)
    ensures
        match r {
            Ok(_) => package_name(package@),
            Err(error) => !package_name(package@) && error@ == (if package@.len() == 0 {
                MetadataErrorView::EmptyPackage
            } else {
                MetadataErrorView::InvalidPackageName { package: package@ }
            }),
        },
{
    let chars = char_vec(package);
    if chars.len() == 0 {
        return Err(PackageMetadataError::EmptyPackage);
    }
    let size: usize = chars.len();
    let mut valid: bool = size >= 2 && alpha(chars[0]) && alnum(chars[size - 1]);
    let mut i: usize = 1;
    while valid && i < size - 1
        invariant
            1 <= i,
            size == chars@.len(),
            size >= 1,
            chars@ == package@,
            valid ==> size >= 2 && is_alpha(package@[0]) && is_alnum(package@.last()),
            valid ==> forall|k: int|
                0 < k < i && k < size - 1 ==> is_alnum(#[trigger] package@[k]) || package@[k]
                    == '.',
            !valid ==> !package_name(package@),
        decreases size - i + (if valid { 1int } else { 0int }),
    {
        let c: char = chars[i];
        if alnum(c) || c == '.' {
            i = i + 1;
        } else {
            assert(!(is_alnum(package@[i as int]) || package@[i as int] == '.'));
            valid = false;
        }
    }
    if valid {
        Ok(())
    } else {
        Err(PackageMetadataError::InvalidPackageName { package: package.to_owned() })
    }
}

impl PackageMetadata {
    /// Constructs package metadata for an in-memory package.
    pub fn new(package: &str, encoding: Option<String>) -> (r: Result<Self, PackageMetadataError>)
        ensures
            match r {
                Ok(metadata) => {
                    &&& package_name(package@)
                    &&& encoding matches Some(name) ==> name@ == "UTF-8"@
                    &&& metadata.package@ == package@
                    &&& metadata.dependencies@.len() == 0
                    &&& metadata.encoding == encoding
                    &&& !metadata.collate
                    &&& !metadata.lazy_data
                    &&& metadata.documentation.title is None
                    &&& metadata.documentation.description is None
                    &&& metadata.documentation.url is None
                    &&& metadata.documentation.bug_reports is None
                    &&& metadata.documentation.authors_r is None
                },
                Err(error) => if package@.len() == 0 {
                    error@ == MetadataErrorView::EmptyPackage
                } else if !package_name(package@) {
                    error@ == MetadataErrorView::InvalidPackageName { package: package@ }
                } else {
                    &&& encoding is Some
                    &&& encoding->0@ != "UTF-8"@
                    &&& error@ == MetadataErrorView::UnsupportedEncoding { encoding: encoding->0@ }
                },
            },
    {
        match validate_package_name(package) {
            Ok(_) => {},
            Err(error) => {
                return Err(error);
            },
        }
        if let Some(name) = &encoding {
            if !same_text(name.as_str(), "UTF-8") {
                return Err(PackageMetadataError::UnsupportedEncoding { encoding: name.clone() });
            }
        }
        Ok(
            PackageMetadata {
                package: package.to_owned(),
                dependencies: Vec::new(),
                encoding,
                collate: false,
                lazy_data: false,
                documentation: PackageDocumentationMetadata::new(),
            },
        )
    }

    /// Returns the validated R package name.
    pub fn package(&self) -> (r: &str)
        ensures
            r@ == self.package@,
    {
        self.package.as_str()
    }

    /// Returns packages named by the Depends and Imports fields, in ascending
    /// order.
    pub fn dependencies(&self) -> (r: &Vec<String>)
        ensures
            *r == self.dependencies,
    {
        &self.dependencies
    }

    /// Returns the declared DESCRIPTION encoding, if present.
    pub fn encoding(&self) -> (r: Option<&str>)
        ensures
            crate::source::opt_str(r) == opt_text(self.encoding),
    {
        match &self.encoding {
            Some(encoding) => Some(encoding.as_str()),
            None => None,
        }
    }

    /// Marks the presence of any `Collate`-family DESCRIPTION directive.
    pub fn with_collate_directive(self) -> (r: Self)
        ensures
            r == (PackageMetadata { collate: true, ..self }),
    {
        PackageMetadata { collate: true, ..self }
    }

    /// Returns whether DESCRIPTION contains any `Collate`-family directive.
    pub fn collate(&self) -> (r: bool)
        ensures
            r == self.collate,
    {
        self.collate
    }

    /// Returns whether DESCRIPTION contains any `Collate`-family directive.
    pub fn has_collate_directive(&self) -> (r: bool)
        ensures
            r == self.collate,
    {
        self.collate
    }

    /// Returns whether DESCRIPTION declares data to be lazily loaded.
    pub fn lazy_data(&self) -> (r: bool)
        ensures
            r == self.lazy_data,
    {
        self.lazy_data
    }

    /// Sets whether data is declared to be lazily loaded.
    pub fn with_lazy_data(self, lazy_data: bool) -> (r: Self)
        ensures
            r == (PackageMetadata { lazy_data, ..self }),
    {
        PackageMetadata { lazy_data, ..self }
    }

    /// Returns DESCRIPTION fields used by package-level documentation.
    pub fn documentation(&self) -> (r: &PackageDocumentationMetadata)
        ensures
            *r == self.documentation,
    {
        &self.documentation
    }
}

/// One field of a DESCRIPTION text.
#[derive(Debug, PartialEq, Eq)]
pub struct DescriptionField {
    /// The field name, without white space before the colon.
    pub name: String,
    /// The byte offset past the name.
    pub name_end: usize,
    /// The byte offset where the value begins.
    pub value_start: usize,
    /// The value lines, each trimmed, joined by newlines.
    pub folded: String,
    /// The names that the value lists when it is read as dependencies.
    pub dependencies: Vec<String>,
}

/// The model of [`DescriptionField`].
pub struct FieldReading {
    pub name: Seq<char>,
    pub name_end: int,
    pub value_start: int,
    pub folded: Seq<char>,
    pub dependencies: Seq<Seq<char>>,
}

impl View for DescriptionField {
    type V = FieldReading;

    open spec fn view(&self) -> FieldReading {
        FieldReading {
            name: self.name@,
            name_end: self.name_end as int,
            value_start: self.value_start as int,
            folded: self.folded@,
            dependencies: texts(self.dependencies@),
        }
    }
}

/// A DESCRIPTION text split into fields.
#[derive(Debug, PartialEq, Eq)]
pub struct ParsedDescription {
    /// The messages of the parser's diagnostics.
    pub messages: Vec<String>,
    /// All fields in source order.
    pub fields: Vec<DescriptionField>,
}

/// The model of [`ParsedDescription`].
pub struct DescriptionReading {
    pub messages: Seq<Seq<char>>,
    pub fields: Seq<FieldReading>,
}

/// The models of fields.
pub open spec fn field_readings(fields: Seq<DescriptionField>) -> Seq<FieldReading> {
    fields.map_values(|f: DescriptionField| f@)
}

impl View for ParsedDescription {
    type V = DescriptionReading;

    open spec fn view(&self) -> DescriptionReading {
        DescriptionReading {
            messages: texts(self.messages@),
            fields: field_readings(self.fields@),
        }
    }
}

/// What `arity_parser::dcf::parse` reads in a text.
pub uninterp spec fn dcf_reading(text: Seq<char>) -> DescriptionReading;

/// Calls `arity_parser::dcf::parse` and copies its diagnostics' messages and,
/// for every field in order, the name, the end of the name's range, the start
/// of the value's range, the folded value and the names of
/// `arity_parser::dcf::dependency_entries`. The contract only says that all of
/// this depends on nothing but the text.
#[verifier::external_body]
pub(crate) fn parse_description(text: &str) -> (r: ParsedDescription)
    ensures
        r@ == dcf_reading(text@),
{
    let parsed = arity_parser::dcf::parse(text);
    let read = |field: arity_parser::dcf::Field| DescriptionField {
        name: field.name().to_string(),
        name_end: field.name_range().end().into(),
        value_start: field.value_range().start().into(),
        folded: field.folded_value(),
        dependencies: arity_parser::dcf::dependency_entries(&field)
            .into_iter()
            .map(|entry| entry.name.to_string())
            .collect(),
    };
    let fields = parsed.document().fields().map(read).collect();
    ParsedDescription { messages: parsed.diagnostics.into_iter().map(|d| d.message).collect(), fields }
}

/// Whether a field of the text has exactly this name: the colon follows the
/// name at once.
pub open spec fn names_exactly(field: FieldReading, text: Seq<char>, name: Seq<char>) -> bool {
    &&& field.name == name
    &&& byte_slice(text, field.name_end, field.value_start) matches Some(between) && has_prefix(
        between,
        ":"@,
    )
}

/// The last field with exactly this name.
pub open spec fn last_field(fields: Seq<FieldReading>, text: Seq<char>, name: Seq<char>) -> Option<
    FieldReading,
>
    decreases fields.len(),
{
    if fields.len() == 0 {
        None
    } else if names_exactly(fields.last(), text, name) {
        Some(fields.last())
    } else {
        last_field(fields.drop_last(), text, name)
    }
}

/// The folded value of the last field with a name.
pub open spec fn raw_field(fields: Seq<FieldReading>, text: Seq<char>, name: Seq<char>) -> Option<
    Seq<char>,
> {
    match last_field(fields, text, name) {
        Some(field) => Some(field.folded),
        None => None,
    }
}

/// The value of the last field with a name, without an empty first line.
pub open spec fn typed_field(fields: Seq<FieldReading>, text: Seq<char>, name: Seq<char>) -> Option<
    Seq<char>,
> {
    match raw_field(fields, text, name) {
        Some(value) => if has_prefix(value, "\n"@) {
            Some(value.skip("\n"@.len() as int))
        } else {
            Some(value)
        },
        None => None,
    }
}

/// Whether the text between a field's name and its value begins with a colon.
fn exact_field_name(field: &DescriptionField, text: &str) -> (r: bool)
    ensures
        r == (byte_slice(text@, field.name_end as int, field.value_start as int) matches Some(
            between,
        ) && has_prefix(between, ":"@)),
{
    match slice_bytes(text, field.name_end, field.value_start) {
        Some(between) => starts_with(between, ":"),
        None => false,
    }
}

/// Finds the last field with exactly this name.
///
/// R's `read.dcf` resolves duplicate fields to the last value, and treats
/// `Package : value` as the distinct field name `Package `.
fn description_field_node<'a>(
    description: &'a ParsedDescription,
    text: &str,
    name: &str,
) -> (r: Option<&'a DescriptionField>)
    ensures
        (match r {
            Some(field) => Some(field@),
            None => None,
        }) == last_field(description@.fields, text@, name@),
{
    let ghost shown = description@.fields;
    let mut i: usize = description.fields.len();
    proof {
        assert(shown.take(shown.len() as int) =~= shown);
    }
    while i > 0
        invariant
            i <= description.fields@.len(),
            shown == field_readings(description.fields@),
            last_field(shown, text@, name@) == last_field(shown.take(i as int), text@, name@),
        decreases i,
    {
        let field = &description.fields[i - 1];
        proof {
            assert(shown.take(i as int).last() == field@);
            assert(shown.take(i as int).drop_last() =~= shown.take(i - 1));
        }
        if same_text(field.name.as_str(), name) && exact_field_name(field, text) {
            return Some(field);
        }
        i = i - 1;
    }
    None
}

/// The folded value of a field.
pub fn description_field_raw(description: &ParsedDescription, text: &str, name: &str) -> (r: Option<
    String,
>)
    ensures
        opt_text(r) == raw_field(description@.fields, text@, name@),
{
    match description_field_node(description, text, name) {
        Some(field) => Some(field.folded.clone()),
        None => None,
    }
}

/// The value of a field, without the empty first line that `Field:` alone on
/// its line leaves in the folded value.
pub fn description_field(description: &ParsedDescription, text: &str, name: &str) -> (r: Option<
    String,
>)
    ensures
        opt_text(r) == typed_field(description@.fields, text@, name@),
{
    match description_field_raw(description, text, name) {
        Some(value) => match strip_prefix(value.as_str(), "\n") {
            Some(rest) => Some(rest),
            None => Some(value),
        },
        None => None,
    }
}

/// Whether a `Collate`-family field is present.
pub open spec fn declares_collate(fields: Seq<FieldReading>, text: Seq<char>) -> bool {
    ||| last_field(fields, text, "Collate"@) is Some
    ||| last_field(fields, text, "Collate.unix"@) is Some
    ||| last_field(fields, text, "Collate.windows"@) is Some
}

/// Whether any `Collate`-family field is present.
fn has_collate_directive(description: &ParsedDescription, text: &str) -> (r: bool)
    ensures
        r == declares_collate(description@.fields, text@),
{
    description_field_node(description, text, "Collate").is_some() || description_field_node(
        description,
        text,
        "Collate.unix",
    ).is_some() || description_field_node(description, text, "Collate.windows").is_some()
}

/// The capitals of TRUE and YES made small; other characters are kept, as none
/// of them can be part of either word.
pub open spec fn lower(c: char) -> char {
    if c == 'E' {
        'e'
    } else if c == 'R' {
        'r'
    } else if c == 'S' {
        's'
    } else if c == 'T' {
        't'
    } else if c == 'U' {
        'u'
    } else if c == 'Y' {
        'y'
    } else {
        c
    }
}

/// Whether a text spells a small-letter word, whatever the case of its letters.
pub open spec fn spells(text: Seq<char>, word: Seq<char>) -> bool {
    text.map_values(|c: char| lower(c)) == word
}

/// Whether a `LazyData` value means yes.
pub open spec fn means_yes(value: Seq<char>) -> bool {
    spells(trimmed(value), "true"@) || spells(trimmed(value), "yes"@)
}

/// Reads a `LazyData` value.
fn is_yes(value: &str) -> (r: bool)
    ensures
        r == means_yes(value@),
{
    let text = trim(value);
    let chars = char_vec(text.as_str());
    let mut small: String = String::new();
    let mut i: usize = 0;
    let ghost lowered = text@.map_values(|c: char| lower(c));
    proof {
        assert(small@ =~= lowered.take(0));
    }
    while i < chars.len()
        invariant
            i <= chars@.len(),
            chars@ == text@,
            lowered == text@.map_values(|c: char| lower(c)),
            small@ == lowered.take(i as int),
        decreases chars@.len() - i,
    {
        let c: char = chars[i];
        let d: char = if c == 'E' {
            'e'
        } else if c == 'R' {
            'r'
        } else if c == 'S' {
            's'
        } else if c == 'T' {
            't'
        } else if c == 'U' {
            'u'
        } else if c == 'Y' {
            'y'
        } else {
            c
        };
        small.push(d);
        proof {
            assert(lowered.take(i + 1) =~= lowered.take(i as int).push(lower(c)));
        }
        i = i + 1;
    }
    proof {
        assert(lowered.take(lowered.len() as int) =~= lowered);
    }
    same_text(small.as_str(), "true") || same_text(small.as_str(), "yes")
}

/// Whether a field lists a package as a dependency.
pub open spec fn field_lists(field: Option<FieldReading>, name: Seq<char>) -> bool {
    match field {
        Some(field) => field.dependencies.contains(name),
        None => false,
    }
}

/// Whether DESCRIPTION declares a dependency on a package other than R.
pub open spec fn depends_on(fields: Seq<FieldReading>, text: Seq<char>, name: Seq<char>) -> bool {
    &&& name != "R"@
    &&& package_name(name)
    &&& field_lists(last_field(fields, text, "Depends"@), name) || field_lists(
        last_field(fields, text, "Imports"@),
        name,
    )
}

/// Adds a name to an ascending list, unless it is there.
fn insert_dependency(names: &mut Vec<String>, name: String)
    requires
        increasing_texts(texts(old(names)@)),
    ensures
        increasing_texts(texts(final(names)@)),
        forall|x: Seq<char>| #[trigger]
            texts(final(names)@).contains(x) <==> texts(old(names)@).contains(x) || x == name@,
{
    let ghost before = texts(names@);
    let mut k: usize = names.len();
    while k > 0 && !at_most(names[k - 1].as_str(), name.as_str())
        invariant
            k <= names@.len(),
            names@ == old(names)@,
            before == texts(names@),
            forall|j: int| k <= j < before.len() ==> !text_le(#[trigger] before[j], name@),
        decreases k,
    {
        assert(before[k - 1] == names@[k - 1]@);
        k = k - 1;
    }
    if k > 0 && same_text(names[k - 1].as_str(), name.as_str()) {
        assert(before[k - 1] == name@);
        return;
    }
    let ghost one = name@;
    if k > 0 {
        assert(before[k - 1] == names@[k - 1]@);
    }
    names.insert(k, name);
    proof {
        let after = texts(names@);
        assert(after =~= before.insert(k as int, one));
        assert forall|a: int, b: int| 0 <= a < b < after.len() implies text_lt(
            #[trigger] after[a],
            #[trigger] after[b],
        ) by {
            if a < k && b > k {
                assert(text_lt(before[a], before[b - 1]));
            } else if b == k {
                if a < k - 1 {
                    assert(text_lt(before[a], before[k - 1]));
                    text_le_transitive(before[a], before[k - 1], one);
                    if before[a] == one {
                        text_le_antisymmetric(before[a], before[k - 1]);
                    }
                }
            } else if a == k {
                text_le_total(one, before[b - 1]);
                text_le_reflexive(one);
            } else if a > k {
                assert(text_lt(before[a - 1], before[b - 1]));
            }
        }
        assert forall|x: Seq<char>| #[trigger] after.contains(x) <==> before.contains(x) || x
            == one by {
            if before.contains(x) {
                let j = choose|j: int| 0 <= j < before.len() && before[j] == x;
                assert(after[if j < k { j } else { j + 1 }] == x);
            }
            assert(after[k as int] == one);
            if after.contains(x) && x != one {
                let j = choose|j: int| 0 <= j < after.len() && after[j] == x;
                assert(before[if j < k { j } else { j - 1 }] == x);
            }
        }
    }
}

/// Adds the packages that a field lists.
fn collect_dependencies(field: Option<&DescriptionField>, names: &mut Vec<String>)
    requires
        increasing_texts(texts(old(names)@)),
    ensures
        increasing_texts(texts(final(names)@)),
        forall|x: Seq<char>| #[trigger]
            texts(final(names)@).contains(x) <==> texts(old(names)@).contains(x) || (x != "R"@
                && package_name(x) && field_lists(
                match field {
                    Some(field) => Some(field@),
                    None => None,
                },
                x,
            )),
{
    if let Some(field) = field {
        let ghost listed = texts(field.dependencies@);
        let mut i: usize = 0;
        while i < field.dependencies.len()
            invariant
                i <= field.dependencies@.len(),
                listed == texts(field.dependencies@),
                increasing_texts(texts(names@)),
                forall|x: Seq<char>| #[trigger]
                    texts(names@).contains(x) <==> texts(old(names)@).contains(x) || (x != "R"@
                        && package_name(x) && listed.take(i as int).contains(x)),
            decreases field.dependencies@.len() - i,
        {
            let name = field.dependencies[i].as_str();
            let ghost before = texts(names@);
            proof {
                assert(listed[i as int] == name@);
            }
            if !same_text(name, "R") && validate_package_name(name).is_ok() {
                insert_dependency(names, name.to_owned());
            }
            proof {
                assert forall|x: Seq<char>| #[trigger]
                    texts(names@).contains(x) <==> texts(old(names)@).contains(x) || (x != "R"@
                        && package_name(x) && listed.take(i + 1).contains(x)) by {
                    let front = listed.take(i as int);
                    let next = listed.take(i + 1);
                    assert(before.contains(x) <==> texts(old(names)@).contains(x) || (x != "R"@
                        && package_name(x) && front.contains(x)));
                    if next.contains(x) {
                        let j = choose|j: int| 0 <= j < next.len() && next[j] == x;
                        if j < i {
                            assert(front[j] == x);
                        }
                    }
                    if front.contains(x) {
                        let j = choose|j: int| 0 <= j < front.len() && front[j] == x;
                        assert(next[j] == x);
                    }
                    assert(next[i as int] == name@);
                }
            }
            i = i + 1;
        }
        proof {
            assert(listed.take(listed.len() as int) =~= listed);
        }
    }
}

/// The packages that Depends and Imports name.
fn description_dependencies(description: &ParsedDescription, text: &str) -> (r: Vec<String>)
    ensures
        increasing_texts(texts(r@)),
        forall|x: Seq<char>| #[trigger]
            texts(r@).contains(x) <==> depends_on(description@.fields, text@, x),
{
    let mut names: Vec<String> = Vec::new();
    collect_dependencies(description_field_node(description, text, "Depends"), &mut names);
    collect_dependencies(description_field_node(description, text, "Imports"), &mut names);
    names
}

/// Why a DESCRIPTION text gives no metadata.
#[derive(Debug, PartialEq, Eq)]
pub enum DescriptionError {
    /// The text is not valid DCF.
    Malformed { messages: Vec<String> },
    /// There is no Package field.
    PackageMissing,
    /// The Package field is empty.
    PackageEmpty,
    /// The Package field is not a valid R package name.
    PackageInvalid { package: String },
    /// The declared encoding is not supported.
    UnsupportedEncoding { encoding: String },
}

/// The model of [`DescriptionError`].
pub enum DescriptionErrorView {
    Malformed { messages: Seq<Seq<char>> },
    PackageMissing,
    PackageEmpty,
    PackageInvalid { package: Seq<char> },
    UnsupportedEncoding { encoding: Seq<char> },
}

impl View for DescriptionError {
    type V = DescriptionErrorView;

    open spec fn view(&self) -> DescriptionErrorView {
        match self {
            DescriptionError::Malformed { messages } => DescriptionErrorView::Malformed {
                messages: texts(messages@),
            },
            DescriptionError::PackageMissing => DescriptionErrorView::PackageMissing,
            DescriptionError::PackageEmpty => DescriptionErrorView::PackageEmpty,
            DescriptionError::PackageInvalid { package } => DescriptionErrorView::PackageInvalid {
                package: package@,
            },
            DescriptionError::UnsupportedEncoding { encoding } =>
                DescriptionErrorView::UnsupportedEncoding { encoding: encoding@ },
        }
    }
}

/// What stands in the way of reading metadata from a DESCRIPTION text.
pub open spec fn description_obstacle(reading: DescriptionReading, text: Seq<char>) -> Option<
    DescriptionErrorView,
> {
    if reading.messages.len() > 0 {
        Some(DescriptionErrorView::Malformed { messages: reading.messages })
    } else {
        match typed_field(reading.fields, text, "Package"@) {
            None => Some(DescriptionErrorView::PackageMissing),
            Some(package) => if package.len() == 0 {
                Some(DescriptionErrorView::PackageEmpty)
            } else if !package_name(package) {
                Some(DescriptionErrorView::PackageInvalid { package })
            } else {
                match typed_field(reading.fields, text, "Encoding"@) {
                    Some(encoding) => if encoding != "UTF-8"@ {
                        Some(DescriptionErrorView::UnsupportedEncoding { encoding })
                    } else {
                        None
                    },
                    None => None,
                }
            },
        }
    }
}

/// The metadata that a DESCRIPTION text states.
pub open spec fn describes(
    metadata: PackageMetadata,
    fields: Seq<FieldReading>,
    text: Seq<char>,
) -> bool {
    &&& Some(metadata.package@) == typed_field(fields, text, "Package"@)
    &&& increasing_texts(texts(metadata.dependencies@))
    &&& forall|x: Seq<char>| #[trigger]
        texts(metadata.dependencies@).contains(x) <==> depends_on(fields, text, x)
    &&& opt_text(metadata.encoding) == typed_field(fields, text, "Encoding"@)
    &&& metadata.collate == declares_collate(fields, text)
    &&& metadata.lazy_data == (raw_field(fields, text, "LazyData"@) matches Some(value)
        && means_yes(value))
    &&& opt_text(metadata.documentation.title) == typed_field(fields, text, "Title"@)
    &&& opt_text(metadata.documentation.description) == typed_field(fields, text, "Description"@)
    &&& opt_text(metadata.documentation.url) == typed_field(fields, text, "URL"@)
    &&& opt_text(metadata.documentation.bug_reports) == raw_field(fields, text, "BugReports"@)
    &&& opt_text(metadata.documentation.authors_r) == raw_field(fields, text, "Authors@R"@)
}

/// Reads metadata from a DESCRIPTION text that has been split into fields.
pub fn metadata_from_fields(description: ParsedDescription, text: &str) -> (r: Result<
    PackageMetadata,
    DescriptionError,
>)
    ensures
        match r {
            Ok(metadata) => {
                &&& description_obstacle(description@, text@) is None
                &&& describes(metadata, description@.fields, text@)
            },
            Err(error) => description_obstacle(description@, text@) == Some(error@),
        },
{
    if description.messages.len() > 0 {
        return Err(DescriptionError::Malformed { messages: description.messages });
    }
    let Some(package) = description_field(&description, text, "Package") else {
        return Err(DescriptionError::PackageMissing);
    };
    match validate_package_name(package.as_str()) {
        Ok(_) => {},
        Err(PackageMetadataError::EmptyPackage) => {
            return Err(DescriptionError::PackageEmpty);
        },
        Err(_) => {
            return Err(DescriptionError::PackageInvalid { package });
        },
    }
    let encoding = description_field(&description, text, "Encoding");
    if let Some(name) = &encoding {
        if !same_text(name.as_str(), "UTF-8") {
            return Err(DescriptionError::UnsupportedEncoding { encoding: name.clone() });
        }
    }
    let lazy_data: bool = match description_field_raw(&description, text, "LazyData") {
        Some(value) => is_yes(value.as_str()),
        None => false,
    };
    Ok(
        PackageMetadata {
            package,
            dependencies: description_dependencies(&description, text),
            encoding,
            collate: has_collate_directive(&description, text),
            lazy_data,
            documentation: PackageDocumentationMetadata {
                title: description_field(&description, text, "Title"),
                description: description_field(&description, text, "Description"),
                url: description_field(&description, text, "URL"),
                bug_reports: description_field_raw(&description, text, "BugReports"),
                authors_r: description_field_raw(&description, text, "Authors@R"),
            },
        },
    )
}

/// Reads metadata from a DESCRIPTION text.
pub fn metadata_from_description(text: &str) -> (r: Result<PackageMetadata, DescriptionError>)
    ensures
        match r {
            Ok(metadata) => {
                &&& description_obstacle(dcf_reading(text@), text@) is None
                &&& describes(metadata, dcf_reading(text@).fields, text@)
            },
            Err(error) => description_obstacle(dcf_reading(text@), text@) == Some(error@),
        },
{
    metadata_from_fields(parse_description(text), text)
}

/// The source files and package metadata needed for one documentation run.
#[derive(Debug, PartialEq, Eq)]
pub struct PackageInputs {
    /// R source files under the package's `R/` directory.
    pub sources: SourceMap,
    /// Metadata extracted from the package's DESCRIPTION file.
    pub metadata: PackageMetadata,
}

/// Metadata that was read always carries a valid package name.
pub proof fn described_packages_have_valid_names(
    metadata: PackageMetadata,
    reading: DescriptionReading,
    text: Seq<char>,
)
    requires
        description_obstacle(reading, text) is None,
        describes(metadata, reading.fields, text),
    ensures
        package_name(metadata.package@),
{
}

/// A single character is too short for a package name, and none ends in a dot.
pub proof fn package_names_need_a_trailing_letter_or_digit(name: Seq<char>)
    ensures
        name.len() == 1 ==> !package_name(name),
        name.len() > 0 && name.last() == '.' ==> !package_name(name),
{
}

/// A field that is repeated counts by its last occurrence.
pub proof fn last_field_wins(
    fields: Seq<FieldReading>,
    field: FieldReading,
    text: Seq<char>,
    name: Seq<char>,
)
    requires
        names_exactly(field, text, name),
    ensures
        last_field(fields.push(field), text, name) == Some(field),
{
    assert(fields.push(field).last() == field);
}

} // verus!
