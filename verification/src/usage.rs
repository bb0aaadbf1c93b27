//! Usage text generated from static signatures.
use crate::facts::{Formal, FormalError, RNameDecodeError};
use crate::r_parse::FunctionObject;
use crate::r_syntax::{is_syntactic_ascii_name, syntactic_name};
use crate::source::{span_text, write_span, SourceMap, Span};
use crate::text::{before_suffix, char_vec, strip_suffix, text3, text5};
use vstd::prelude::*;

verus! {

/// Usage derived from a static signature.
#[derive(Debug, PartialEq, Eq)]
pub struct GeneratedUsage {
    pub text: String,
}

impl View for GeneratedUsage {
    type V = Seq<char>;

    open spec fn view(&self) -> Seq<char> {
        self.text@
    }
}

/// Why no usage could be generated.
#[derive(Debug, Clone, Copy, PartialEq, Eq, Structural)]
pub enum UsageError {
    /// The formal list has no readable structure.
    InvalidFormals(FormalError),
    /// A replacement function has no value parameter.
    InvalidReplacementSignature { name_span: Span },
    /// A formal name cannot be decoded.
    UndecodableFormalName { span: Span, reason: RNameDecodeError },
    /// A default expression lies outside the registered sources.
    UnresolvableSourceSpan { span: Span },
    /// A default expression holds a comment.
    UnsafeDefaultComment { span: Span },
}

/// The name of the reason why a name could not be decoded.
pub open spec fn decode_error_name(reason: RNameDecodeError) -> Seq<char> {
    match reason {
        RNameDecodeError::ContainsBackslash => "ContainsBackslash"@,
        RNameDecodeError::InvalidSpelling => "InvalidSpelling"@,
        RNameDecodeError::EmptyName => "EmptyName"@,
        RNameDecodeError::MixedUnicodeAndByteEscapes => "MixedUnicodeAndByteEscapes"@,
        RNameDecodeError::NulCharacter => "NulCharacter"@,
    }
}

fn write_decode_error(reason: RNameDecodeError) -> (r: &'static str)
    ensures
        r@ == decode_error_name(reason),
{
    match reason {
        RNameDecodeError::ContainsBackslash => "ContainsBackslash",
        RNameDecodeError::InvalidSpelling => "InvalidSpelling",
        RNameDecodeError::EmptyName => "EmptyName",
        RNameDecodeError::MixedUnicodeAndByteEscapes => "MixedUnicodeAndByteEscapes",
        RNameDecodeError::NulCharacter => "NulCharacter",
    }
}

/// A usage error in words: its name and all that it holds.
pub open spec fn usage_error_text(error: UsageError) -> Seq<char> {
    match error {
        UsageError::InvalidFormals(FormalError::InvalidStructure { span }) =>
            "InvalidFormals(InvalidStructure { span: "@ + span_text(span) + " })"@,
        UsageError::InvalidReplacementSignature { name_span } =>
            "InvalidReplacementSignature { name_span: "@ + span_text(name_span) + " }"@,
        UsageError::UndecodableFormalName { span, reason } =>
            "UndecodableFormalName { span: "@ + span_text(span) + ", reason: "@ + decode_error_name(
                reason,
            ) + " }"@,
        UsageError::UnresolvableSourceSpan { span } => "UnresolvableSourceSpan { span: "@
            + span_text(span) + " }"@,
        UsageError::UnsafeDefaultComment { span } => "UnsafeDefaultComment { span: "@ + span_text(
            span,
        ) + " }"@,
    }
}

/// Writes a usage error in words.
pub fn write_usage_error(error: UsageError) -> (r: String)
    ensures
        r@ == usage_error_text(error),
{
    match error {
        UsageError::InvalidFormals(FormalError::InvalidStructure { span }) => {
            let place = write_span(span);
            text3("InvalidFormals(InvalidStructure { span: ", place.as_str(), " })")
        },
        UsageError::InvalidReplacementSignature { name_span } => {
            let place = write_span(name_span);
            text3("InvalidReplacementSignature { name_span: ", place.as_str(), " }")
        },
        UsageError::UndecodableFormalName { span, reason } => {
            let place = write_span(span);
            text5(
                "UndecodableFormalName { span: ",
                place.as_str(),
                ", reason: ",
                write_decode_error(reason),
                " }",
            )
        },
        UsageError::UnresolvableSourceSpan { span } => {
            let place = write_span(span);
            text3("UnresolvableSourceSpan { span: ", place.as_str(), " }")
        },
        UsageError::UnsafeDefaultComment { span } => {
            let place = write_span(span);
            text3("UnsafeDefaultComment { span: ", place.as_str(), " }")
        },
    }
}

/// One character of a name between backticks.
pub open spec fn backtick_char(c: char) -> Seq<char> {
    if c == '\\' {
        seq!['\\', '\\']
    } else if c == '`' {
        seq!['\\', '`']
    } else {
        seq![c]
    }
}

/// The characters of a name between backticks.
pub open spec fn backtick_body(name: Seq<char>) -> Seq<char>
    decreases name.len(),
{
    if name.len() == 0 {
        Seq::empty()
    } else {
        backtick_body(name.drop_last()) + backtick_char(name.last())
    }
}

/// A name as it is written in R code.
pub open spec fn r_spelling(name: Seq<char>) -> Seq<char> {
    if syntactic_name(name) {
        name
    } else {
        seq!['`'] + backtick_body(name) + seq!['`']
    }
}

/// Writes a name as R code.
pub fn spell_r_name(name: &str) -> (r: String)
    ensures
        r@ == r_spelling(name@),
{
    if is_syntactic_ascii_name(name) {
        return name.to_owned();
    }
    let chars = char_vec(name);
    let mut out: String = String::new();
    out.push('`');
    let mut i: usize = 0;
    proof {
        assert(out@ =~= seq!['`'] + backtick_body(chars@.take(0)));
    }
    while i < chars.len()
        invariant
            i <= chars@.len(),
            out@ == seq!['`'] + backtick_body(chars@.take(i as int)),
        decreases chars@.len() - i,
    {
        let c: char = chars[i];
        proof {
            let prefix = chars@.take(i + 1);
            assert(prefix.drop_last() =~= chars@.take(i as int));
            assert(prefix.last() == c);
        }
        let ghost before = out@;
        if c == '\\' || c == '`' {
            out.push('\\');
        }
        out.push(c);
        proof {
            assert(out@ =~= before + backtick_char(c));
            assert(out@ =~= seq!['`'] + backtick_body(chars@.take(i + 1)));
        }
        i = i + 1;
    }
    out.push('`');
    proof {
        assert(chars@.take(chars@.len() as int) =~= chars@);
        assert(out@ =~= r_spelling(name@));
    }
    out
}

/// Where a scan of R code stands: outside strings, or inside one with the
/// given quote, the next character escaped or not.
pub enum CodeState {
    Code,
    Quoted { quote: char, escaped: bool },
    Comment,
}

/// The state after one more character.
pub open spec fn code_step(state: CodeState, c: char) -> CodeState {
    match state {
        CodeState::Code => if c == '#' {
            CodeState::Comment
        } else if c == '"' || c == '\'' || c == '`' {
            CodeState::Quoted { quote: c, escaped: false }
        } else {
            CodeState::Code
        },
        CodeState::Quoted { quote, escaped } => if escaped {
            CodeState::Quoted { quote, escaped: false }
        } else if c == '\\' {
            CodeState::Quoted { quote, escaped: true }
        } else if c == quote {
            CodeState::Code
        } else {
            state
        },
        CodeState::Comment => CodeState::Comment,
    }
}

/// The state after all characters of `code`.
pub open spec fn code_state(code: Seq<char>) -> CodeState
    decreases code.len(),
{
    if code.len() == 0 {
        CodeState::Code
    } else {
        code_step(code_state(code.drop_last()), code.last())
    }
}

/// Whether `code` holds a comment.
pub fn holds_comment(code: &str) -> (r: bool)
    ensures
        r == (code_state(code@) is Comment),
{
    let chars = char_vec(code);
    let mut state = CodeState::Code;
    let mut i: usize = 0;
    while i < chars.len()
        invariant
            i <= chars@.len(),
            state == code_state(chars@.take(i as int)),
        decreases chars@.len() - i,
    {
        let c: char = chars[i];
        proof {
            let prefix = chars@.take(i + 1);
            assert(prefix.drop_last() =~= chars@.take(i as int));
            assert(prefix.last() == c);
        }
        state = match state {
            CodeState::Code => if c == '#' {
                CodeState::Comment
            } else if c == '"' || c == '\'' || c == '`' {
                CodeState::Quoted { quote: c, escaped: false }
            } else {
                CodeState::Code
            },
            CodeState::Quoted { quote, escaped } => if escaped {
                CodeState::Quoted { quote, escaped: false }
            } else if c == '\\' {
                CodeState::Quoted { quote, escaped: true }
            } else if c == quote {
                CodeState::Code
            } else {
                CodeState::Quoted { quote, escaped: false }
            },
            CodeState::Comment => CodeState::Comment,
        };
        i = i + 1;
    }
    proof {
        assert(chars@.take(chars@.len() as int) =~= chars@);
    }
    matches!(state, CodeState::Comment)
}

/// The usage text of one formal, or what stands in its way.
pub open spec fn formal_usage(formal: Formal, sources: SourceMap) -> Result<Seq<char>, UsageError> {
    match formal.name.value {
        Err(reason) => Err(UsageError::UndecodableFormalName { span: formal.name.span, reason }),
        Ok(name) => match formal.default {
            None => Ok(r_spelling(name@)),
            Some(span) => match sources.text_at(span) {
                None => Err(UsageError::UnresolvableSourceSpan { span }),
                Some(text) => if code_state(text) is Comment {
                    Err(UsageError::UnsafeDefaultComment { span })
                } else {
                    Ok(r_spelling(name@) + " = "@ + text)
                },
            },
        },
    }
}

/// The usage texts of a formal list, or the first obstacle.
pub open spec fn formal_usages(formals: Seq<Formal>, sources: SourceMap) -> Result<
    Seq<Seq<char>>,
    UsageError,
>
    decreases formals.len(),
{
    if formals.len() == 0 {
        Ok(Seq::empty())
    } else {
        match formal_usages(formals.drop_last(), sources) {
            Err(error) => Err(error),
            Ok(before) => match formal_usage(formals.last(), sources) {
                Err(error) => Err(error),
                Ok(text) => Ok(before.push(text)),
            },
        }
    }
}

/// Texts separated by `, `.
pub open spec fn comma_joined(items: Seq<Seq<char>>) -> Seq<char>
    decreases items.len(),
{
    if items.len() == 0 {
        Seq::empty()
    } else if items.len() == 1 {
        items[0]
    } else {
        comma_joined(items.drop_last()) + ", "@ + items.last()
    }
}

/// The call that documents a function.
///
/// A replacement function `f<-` is shown as an assignment of its last formal
/// to a call of `f` with the others.
pub open spec fn function_usage(function: FunctionObject, sources: SourceMap) -> Result<
    Seq<char>,
    UsageError,
> {
    match function.formals {
        Err(error) => Err(UsageError::InvalidFormals(error)),
        Ok(formals) => match formal_usages(formals@, sources) {
            Err(error) => Err(error),
            Ok(items) => match before_suffix(function.name.canonical@, "<-"@) {
                None => Ok(
                    r_spelling(function.name.canonical@) + "("@ + comma_joined(items) + ")"@,
                ),
                Some(base) => if items.len() == 0 {
                    Err(
                        UsageError::InvalidReplacementSignature {
                            name_span: function.name.spelling,
                        },
                    )
                } else {
                    Ok(
                        r_spelling(base) + "("@ + comma_joined(items.drop_last()) + ") <- "@
                            + items.last(),
                    )
                },
            },
        },
    }
}

/// Joins `items[..count]` with `, `.
pub fn join_with_commas(items: &Vec<String>, count: usize) -> (r: String)
    requires
        count <= items@.len(),
    ensures
        r@ == comma_joined(crate::text::texts(items@).take(count as int)),
{
    let mut out: String = String::new();
    let mut i: usize = 0;
    let ghost shown = crate::text::texts(items@);
    proof {
        assert(out@ =~= comma_joined(shown.take(0)));
    }
    while i < count
        invariant
            i <= count <= items@.len(),
            shown == crate::text::texts(items@),
            out@ == comma_joined(shown.take(i as int)),
        decreases count - i,
    {
        proof {
            let prefix = shown.take(i + 1);
            assert(prefix.drop_last() =~= shown.take(i as int));
            assert(prefix.last() == items@[i as int]@);
        }
        if i > 0 {
            out.push_str(", ");
        }
        out.push_str(items[i].as_str());
        proof {
            assert(out@ =~= comma_joined(shown.take(i + 1)));
        }
        i = i + 1;
    }
    out
}

/// The view of a usage result.
pub open spec fn usage_view(r: Result<GeneratedUsage, UsageError>) -> Result<
    Seq<char>,
    UsageError,
> {
    match r {
        Ok(usage) => Ok(usage@),
        Err(error) => Err(error),
    }
}

/// Generates the usage of a function from its formals.
///
/// The source spelling of defaults is retained rather than evaluated.
pub fn generate_function_usage(function: &FunctionObject, sources: &SourceMap) -> (r: Result<
    GeneratedUsage,
    UsageError,
>)
    ensures
        usage_view(r) == function_usage(*function, *sources),
{
    let formals = match &function.formals {
        Ok(formals) => formals,
        Err(error) => {
            return Err(UsageError::InvalidFormals(*error));
        },
    };
    let mut items: Vec<String> = Vec::new();
    let mut i: usize = 0;
    proof {
        assert(crate::text::texts(items@) =~= Seq::<Seq<char>>::empty());
    }
    while i < formals.len()
        invariant
            i <= formals@.len(),
            formal_usages(formals@.take(i as int), *sources) == Ok::<Seq<Seq<char>>, UsageError>(
                crate::text::texts(items@),
            ),
            function.formals == Ok::<std::sync::Arc<Vec<Formal>>, FormalError>(*formals),
        decreases formals@.len() - i,
    {
        let formal = &formals[i];
        proof {
            let prefix = formals@.take(i + 1);
            assert(prefix.drop_last() =~= formals@.take(i as int));
            assert(prefix.last() == formal);
        }
        let item: Result<String, UsageError> = match &formal.name.value {
            Err(reason) => Err(
                UsageError::UndecodableFormalName { span: formal.name.span, reason: *reason },
            ),
            Ok(name) => match formal.default {
                None => Ok(spell_r_name(name.as_str())),
                Some(span) => match sources.span_text(span) {
                    None => Err(UsageError::UnresolvableSourceSpan { span }),
                    Some(text) => if holds_comment(text) {
                        Err(UsageError::UnsafeDefaultComment { span })
                    } else {
                        let spelled = spell_r_name(name.as_str());
                        Ok(text3(spelled.as_str(), " = ", text))
                    },
                },
            },
        };
        match item {
            Ok(item) => {
                let ghost before = crate::text::texts(items@);
                items.push(item);
                proof {
                    assert(crate::text::texts(items@) =~= before.push(item@));
                }
            },
            Err(error) => {
                proof {
                    first_obstacle(formals@, i as int, *sources);
                }
                return Err(error);
            },
        }
        i = i + 1;
    }
    proof {
        assert(formals@.take(formals@.len() as int) =~= formals@);
        let shown = crate::text::texts(items@);
        assert(shown.take(shown.len() as int) =~= shown);
    }
    let name = function.name.canonical.as_str();
    match strip_suffix(name, "<-") {
        None => {
            let mut out: String = spell_r_name(name);
            out.push_str("(");
            let list = join_with_commas(&items, items.len());
            out.push_str(list.as_str());
            out.push_str(")");
            Ok(GeneratedUsage { text: out })
        },
        Some(base) => {
            if items.len() == 0 {
                return Err(
                    UsageError::InvalidReplacementSignature { name_span: function.name.spelling },
                );
            }
            let last: usize = items.len() - 1;
            let mut out: String = spell_r_name(base.as_str());
            out.push_str("(");
            let list = join_with_commas(&items, last);
            out.push_str(list.as_str());
            out.push_str(") <- ");
            out.push_str(items[last].as_str());
            proof {
                let shown = crate::text::texts(items@);
                assert(shown.drop_last() =~= shown.take(last as int));
                assert(shown.last() == items@[last as int]@);
            }
            Ok(GeneratedUsage { text: out })
        },
    }
}

/// A list whose prefix meets an obstacle meets the same one.
proof fn first_obstacle(formals: Seq<Formal>, i: int, sources: SourceMap)
    requires
        0 <= i < formals.len(),
        formal_usages(formals.take(i + 1), sources) is Err,
    ensures
        formal_usages(formals, sources) == formal_usages(formals.take(i + 1), sources),
    decreases formals.len(),
{
    if i + 1 < formals.len() {
        assert(formals.drop_last().take(i + 1) =~= formals.take(i + 1));
        first_obstacle(formals.drop_last(), i, sources);
    } else {
        assert(formals.take(i + 1) =~= formals);
    }
}

/// The usage of a data object: its name when data is loaded lazily, else the
/// call that loads it.
pub open spec fn data_usage(name: Seq<char>, lazy_data: bool) -> Seq<char> {
    if lazy_data {
        r_spelling(name)
    } else {
        "data("@ + r_spelling(name) + ")"@
    }
}

impl GeneratedUsage {
    /// The usage text.
    pub fn as_str(&self) -> (r: &str)
        ensures
            r@ == self@,
    {
        self.text.as_str()
    }

    /// The usage of a data object.
    pub fn data(name: &str, lazy_data: bool) -> (r: Self)
        ensures
            r@ == data_usage(name@, lazy_data),
    {
        let spelled = spell_r_name(name);
        if lazy_data {
            GeneratedUsage { text: spelled }
        } else {
            GeneratedUsage { text: text3("data(", spelled.as_str(), ")") }
        }
    }

    /// The usage of an object that is not a function: its name.
    pub fn object(name: &str) -> (r: Self)
        ensures
            r@ == r_spelling(name@),
    {
        GeneratedUsage { text: spell_r_name(name) }
    }
}

} // verus!
