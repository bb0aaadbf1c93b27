//! Merging documented blocks into topics, and whole packages.
use mini_roxygen_core::diagnostic::{Diagnostic, DiagnosticCode, Diagnostics, Label, Severity};
use mini_roxygen_core::facts::{
    AssignmentFact, AssignmentOperator, AssignmentTarget, AssignmentValue, BindingName, BlockId,
    CallCallee, CallFact, DocumentationBlock, Formal, FormalError, FunctionFact, ParsedFile, RName,
    RNameDecodeError, S7ClassAnalysis, S7ClassFact, S7ClassRefusal, S7ClassRefusalReason,
    TopLevelEntry, TopLevelFact, TopLevelShape,
};
use mini_roxygen_core::model::ir::{
    BlockRef, DocumentedBlock, FormalNames, InheritanceRequest, ModelOutput, PackageModel, RdTopic,
    RdTopicKind, ResolvedUsage, TopicKey,
};
use mini_roxygen_core::model::merge::assembly::{
    build_package_model, build_package_model_with_bindings, build_package_model_with_metadata,
};
use mini_roxygen_core::package::{metadata_from_description, PackageInputs, PackageMetadata};
use mini_roxygen_core::r_parse::{
    build_object_index, AssociationRefusal, BlockTarget, FileObjectIndex, NonFunctionValue,
};
use mini_roxygen_core::source::{FileId, SourceFile, SourceMap, Span, Spanned, TextRange};
use mini_roxygen_core::tags::{
    AliasDirective, DefaultAliasPolicy, DocName, ExamplesContent, FieldTag, FieldValue,
    InheritField, InheritFields, InheritTarget, Keyword, MarkdownText, NamespaceTag, ParamName,
    ParsedTag, PlainText, RCodeText, SourceSegment, SourcedText, TagOrigin, TagValue,
    UsageDirective,
};
use mini_roxygen_core::inherit::{
    ComposedDocumentationProvider, DocumentationError, DocumentationProvider,
    EmptyDocumentationProvider, InheritanceOptions, TopicExistence, TopicRequest,
};
use mini_roxygen_core::markdown_conversion::context::{
    HelpLinkResolver, InlineRSession, InlineRSubstitution, LinkResolution, MarkdownContext,
};
use mini_roxygen_core::markdown_conversion::convert_markdown;
use mini_roxygen_core::markdown_conversion::lookups::inline_r_expressions;
use mini_roxygen_core::model::merge::block::needs_doc;
use mini_roxygen_core::model::merge::contribution::usage_error_diagnostic;
use mini_roxygen_core::namespace::s3::EmptyS3GenericProvider;
use mini_roxygen_core::pipeline::{
    analyze_package, document_package as document, document_package_with_options as document_with_options,
    document_package_with_options_and_providers, document_package_with_options_and_s3_provider,
    BlockTags, DocumentOptions, GeneratedDocumentation, PackageLocalLinks, PackageOutput, RdBuildOutput,
    RdFile, SourceAnalysis,
};
use mini_roxygen_core::rd::{RdMacro, RdNode, RdTag};
use mini_roxygen_core::s3_register::{S3RegistrationFact, S3RegistrationTarget};
use mini_roxygen_core::usage::UsageError;
use std::sync::Arc;

// A small front end for the R sources of these tests: it reads roxygen blocks
// and top-level expressions, as far as the sources below use them.

const FILE: FileId = FileId { id: 11 };

#[derive(Debug, Clone, Copy, PartialEq)]
enum TokenKind {
    Name,
    Quoted,
    Text,
    Number,
    Operator,
}

#[derive(Debug, Clone, Copy)]
struct Token<'a> {
    kind: TokenKind,
    text: &'a str,
    start: usize,
}

impl Token<'_> {
    fn end(&self) -> usize {
        self.start + self.text.len()
    }

    fn is(&self, text: &str) -> bool {
        self.kind != TokenKind::Text && self.text == text
    }
}

fn span(file: FileId, start: usize, end: usize) -> Span {
    Span::new(file, TextRange::new(start as u32, end as u32))
}

fn token_span(file: FileId, tokens: &[Token]) -> Span {
    span(file, tokens[0].start, tokens[tokens.len() - 1].end())
}

fn closing_quote(text: &str, open: usize, quote: char) -> usize {
    let mut escaped = false;
    for (index, c) in text[open + 1..].char_indices() {
        if escaped {
            escaped = false;
        } else if c == '\\' {
            escaped = true;
        } else if c == quote {
            return open + 1 + index + 1;
        }
    }
    panic!("unclosed quote in test source");
}

fn next_token(text: &str, start: usize) -> Token<'_> {
    let rest = &text[start..];
    let first = rest.chars().next().expect("a token");
    let token = |kind, end| Token { kind, text: &text[start..end], start };
    if rest.starts_with("r\"(") {
        let end = start + rest.find(")\"").expect("a closed raw string") + 2;
        return token(TokenKind::Text, end);
    }
    if first == '"' || first == '\'' {
        return token(TokenKind::Text, closing_quote(text, start, first));
    }
    if first == '`' {
        return token(TokenKind::Quoted, closing_quote(text, start, first));
    }
    if first.is_ascii_digit() {
        let end = rest.find(|c: char| !c.is_ascii_alphanumeric() && c != '.').unwrap_or(rest.len());
        return token(TokenKind::Number, start + end);
    }
    if first.is_alphabetic() || first == '.' || first == '_' {
        let end = rest
            .find(|c: char| !c.is_alphanumeric() && c != '.' && c != '_')
            .unwrap_or(rest.len());
        return token(TokenKind::Name, start + end);
    }
    for operator in ["<<-", "->>", ":::", "<-", "->", ":=", "::", "==", "&&", "||", "<=", ">="] {
        if rest.starts_with(operator) {
            return token(TokenKind::Operator, start + operator.len());
        }
    }
    token(TokenKind::Operator, start + first.len_utf8())
}

fn depth_change(token: &Token) -> i32 {
    match token.text {
        "(" | "[" | "{" if token.kind == TokenKind::Operator => 1,
        ")" | "]" | "}" if token.kind == TokenKind::Operator => -1,
        _ => 0,
    }
}

fn expression(text: &str, start: usize) -> (Vec<Token<'_>>, usize) {
    let mut tokens: Vec<Token> = Vec::new();
    let mut depth = 0;
    let mut at = start;
    while at < text.len() {
        let c = text[at..].chars().next().expect("a character");
        if c == '\n' {
            let open = tokens.last().is_some_and(|last| {
                last.kind == TokenKind::Operator && depth_change(last) == 0
            });
            if depth == 0 && !open {
                break;
            }
        }
        if c.is_whitespace() {
            at += c.len_utf8();
            continue;
        }
        let token = next_token(text, at);
        depth += depth_change(&token);
        at = token.end();
        tokens.push(token);
    }
    (tokens, at)
}

fn inner(token: &str) -> &str {
    &token[1..token.len() - 1]
}

fn decoded_text(token: &Token) -> Result<String, RNameDecodeError> {
    if token.text.starts_with("r\"(") {
        return Ok(token.text[3..token.text.len() - 2].to_owned());
    }
    let content = inner(token.text);
    if content.contains('\\') {
        Err(RNameDecodeError::ContainsBackslash)
    } else {
        Ok(content.to_owned())
    }
}

fn decoded_name(token: &Token) -> Result<RName, RNameDecodeError> {
    match token.kind {
        TokenKind::Name => Ok(RName { text: token.text.to_owned() }),
        TokenKind::Quoted | TokenKind::Text => {
            decoded_text(token).map(|text| RName { text })
        }
        _ => Err(RNameDecodeError::InvalidSpelling),
    }
}

fn is_constant(token: &Token) -> bool {
    matches!(token.kind, TokenKind::Text | TokenKind::Number)
        || ["NULL", "TRUE", "FALSE"].iter().any(|constant| token.is(constant))
}

fn matching(tokens: &[Token], open: usize) -> usize {
    let mut depth = 0;
    for (index, token) in tokens.iter().enumerate().skip(open) {
        depth += depth_change(token);
        if depth == 0 {
            return index;
        }
    }
    panic!("unbalanced brackets in test source");
}

fn unwrapped<'t, 'a>(tokens: &'t [Token<'a>]) -> &'t [Token<'a>] {
    if tokens.len() > 2 && tokens[0].is("(") && matching(tokens, 0) == tokens.len() - 1 {
        unwrapped(&tokens[1..tokens.len() - 1])
    } else {
        tokens
    }
}

fn arguments<'t, 'a>(tokens: &'t [Token<'a>]) -> Vec<&'t [Token<'a>]> {
    let mut out = Vec::new();
    let mut depth = 0;
    let mut from = 0;
    for (index, token) in tokens.iter().enumerate() {
        depth += depth_change(token);
        if depth == 0 && token.is(",") {
            out.push(&tokens[from..index]);
            from = index + 1;
        }
    }
    if from < tokens.len() {
        out.push(&tokens[from..]);
    }
    out
}

fn function_fact(tokens: &[Token], file: FileId) -> Option<FunctionFact> {
    let tokens = unwrapped(tokens);
    if !tokens[0].is("function") {
        return None;
    }
    let close = matching(tokens, 1);
    let body = &tokens[close + 1..];
    let mut formals = Vec::new();
    for formal in arguments(&tokens[2..close]) {
        let default = if formal.len() > 2 && formal[1].is("=") {
            Some(token_span(file, &formal[2..]))
        } else {
            None
        };
        formals.push(Formal {
            name: Spanned::new(decoded_name(&formal[0]), token_span(file, &formal[..1])),
            default,
        });
    }
    Some(FunctionFact {
        formals: Ok(Arc::new(formals)),
        body_span: if body.is_empty() { None } else { Some(token_span(file, body)) },
        calls_use_method: body.windows(2).any(|pair| pair[0].is("UseMethod") && pair[1].is("(")),
    })
}

fn argument<'t, 'a>(
    call: &[&'t [Token<'a>]],
    name: &str,
    position: usize,
) -> Option<&'t [Token<'a>]> {
    let named = |argument: &[Token]| argument.len() > 2 && argument[1].is("=");
    call.iter()
        .find(|argument| named(argument) && argument[0].is(name))
        .map(|argument| &argument[2..])
        .or_else(|| call.iter().filter(|argument| !named(argument)).nth(position).copied())
}

fn s7_class(name: &str, tokens: &[Token], open: usize, file: FileId) -> S7ClassAnalysis {
    if name != "new_class" {
        return S7ClassAnalysis::NotApplicable;
    }
    let refused = |reason| {
        S7ClassAnalysis::Refused(S7ClassRefusal { span: token_span(file, tokens), reason })
    };
    let call = arguments(&tokens[open + 1..tokens.len() - 1]);
    let class_name = match argument(&call, "name", 0) {
        Some([token]) if token.kind == TokenKind::Text => {
            Spanned::new(decoded_text(token).expect("a plain name"), token_span(file, &[*token]))
        }
        _ => return refused(S7ClassRefusalReason::ComputedClassName),
    };
    match argument(&call, "constructor", 9).map(|value| function_fact(value, file)) {
        None => refused(S7ClassRefusalReason::MissingConstructor),
        Some(None) => refused(S7ClassRefusalReason::ComputedConstructor),
        Some(Some(constructor)) => {
            S7ClassAnalysis::Supported(S7ClassFact { class_name, constructor })
        }
    }
}

fn call_fact(tokens: &[Token], file: FileId) -> Option<CallFact> {
    let open = tokens.iter().position(|token| token.is("("))?;
    if matching(tokens, open) != tokens.len() - 1 {
        return None;
    }
    let callee = match &tokens[..open] {
        [name] if name.kind != TokenKind::Operator && !name.is("function") => {
            decoded_name(name).map(CallCallee::Simple)
        }
        [package, colons, name] if colons.is("::") || colons.is(":::") => Ok(CallCallee::Namespace {
            package: decoded_name(package).expect("a package name"),
            name: decoded_name(name).expect("a name"),
            internal: colons.is(":::"),
        }),
        _ => return None,
    };
    let s7_class = s7_class(tokens[open - 1].text, tokens, open, file);
    Some(CallFact {
        span: token_span(file, tokens),
        callee: Some(Spanned::new(callee, token_span(file, &tokens[..open]))),
        s7_class,
    })
}

fn assignment_target(tokens: &[Token], file: FileId) -> AssignmentTarget {
    let [token] = tokens else {
        return AssignmentTarget::Compound;
    };
    if token.kind == TokenKind::Number || is_constant(token) && token.kind == TokenKind::Name {
        return AssignmentTarget::Invalid;
    }
    match decoded_name(token) {
        Ok(canonical) => AssignmentTarget::Binding(BindingName {
            canonical,
            spelling: token_span(file, tokens),
        }),
        Err(reason) => AssignmentTarget::Undecodable { reason },
    }
}

fn assignment_value(tokens: &[Token], file: FileId) -> AssignmentValue {
    if let Some(function) = function_fact(tokens, file) {
        return AssignmentValue::Function(function);
    }
    match tokens {
        [token] if is_constant(token) => AssignmentValue::Literal,
        [token] if token.kind != TokenKind::Operator => AssignmentValue::Name(Spanned::new(
            decoded_name(token),
            token_span(file, tokens),
        )),
        _ => match call_fact(tokens, file) {
            Some(call) => AssignmentValue::Call(call),
            None => AssignmentValue::Other,
        },
    }
}

fn assignment_operator(tokens: &[Token]) -> Option<(usize, AssignmentOperator)> {
    let mut depth = 0;
    for (index, token) in tokens.iter().enumerate() {
        depth += depth_change(token);
        if depth != 0 || token.kind != TokenKind::Operator {
            continue;
        }
        let operator = match token.text {
            "<-" => AssignmentOperator::Left,
            "<<-" => AssignmentOperator::SuperLeft,
            "=" => AssignmentOperator::Equals,
            "->" => AssignmentOperator::Right,
            "->>" => AssignmentOperator::SuperRight,
            ":=" => AssignmentOperator::Walrus,
            _ => continue,
        };
        return Some((index, operator));
    }
    None
}

fn shape(tokens: &[Token], file: FileId) -> TopLevelShape {
    if let Some((index, operator)) = assignment_operator(tokens) {
        let right = matches!(operator, AssignmentOperator::Right | AssignmentOperator::SuperRight);
        let (before, after) = (&tokens[..index], &tokens[index + 1..]);
        let (target, value) = if right { (after, before) } else { (before, after) };
        return TopLevelShape::Assignment(AssignmentFact {
            operator,
            target: assignment_target(target, file),
            target_span: token_span(file, target),
            value: assignment_value(value, file),
            value_span: token_span(file, value),
        });
    }
    match tokens {
        [token] if token.is("NULL") => TopLevelShape::Null,
        [token] if token.kind == TokenKind::Text => TopLevelShape::StringLiteral(Spanned::new(
            decoded_text(token),
            token_span(file, tokens),
        )),
        _ => match call_fact(tokens, file) {
            Some(call) => TopLevelShape::Call(call),
            None => TopLevelShape::Other,
        },
    }
}

#[derive(Debug, Clone, Copy)]
struct Line<'a> {
    text: &'a str,
    start: usize,
}

fn documentation_line(line: Line<'_>) -> Option<Line<'_>> {
    let indent = line.text.len() - line.text.trim_start().len();
    let content = line.text.trim_start().strip_prefix("#'")?;
    let space = usize::from(content.starts_with(' '));
    Some(Line { text: &content[space..], start: line.start + indent + 2 + space })
}

struct Front<'a> {
    parsed: ParsedFile,
    blocks: Vec<Vec<Line<'a>>>,
}

fn read(text: &str, file: FileId) -> Front<'_> {
    let mut top_level = Vec::new();
    let mut blocks = Vec::new();
    let mut pending: Vec<Line> = Vec::new();
    let mut at = 0;
    while at < text.len() {
        let end = text[at..].find('\n').map_or(text.len(), |length| at + length);
        let line = Line { text: &text[at..end], start: at };
        if line.text.trim().is_empty() {
            at = end + 1;
        } else if let Some(documented) = documentation_line(line) {
            pending.push(documented);
            at = end + 1;
        } else {
            let (tokens, next) = expression(text, at);
            let documentation = pending.first().zip(pending.last()).map(|(first, last)| {
                DocumentationBlock {
                    id: BlockId { id: blocks.len() as u32 },
                    span: span(file, first.start, last.start + last.text.len()),
                }
            });
            if documentation.is_some() {
                blocks.push(std::mem::take(&mut pending));
            }
            top_level.push(TopLevelEntry {
                fact: TopLevelFact { span: token_span(file, &tokens), shape: shape(&tokens, file) },
                documentation,
            });
            at = next;
        }
    }
    Front { parsed: ParsedFile { top_level, diagnostics: Diagnostics::new() }, blocks }
}

fn parse(source: &SourceFile, file: FileId) -> ParsedFile {
    read(&source.text, file).parsed
}

fn sourced(lines: &[Line], file: FileId) -> SourcedText {
    let from = lines.iter().position(|line| !line.text.trim().is_empty()).unwrap_or(lines.len());
    let to = lines.iter().rposition(|line| !line.text.trim().is_empty()).map_or(from, |i| i + 1);
    let mut text = String::new();
    let mut segments = Vec::new();
    for (index, line) in lines[from..to].iter().enumerate() {
        let content = if from + index + 1 == to { line.text.trim_end() } else { line.text };
        if index > 0 {
            text.push('\n');
        }
        segments.push(SourceSegment {
            offset: text.len() as u32,
            span: span(file, line.start, line.start + content.len()),
        });
        text.push_str(content);
    }
    SourcedText::from_segments(text, segments)
}

fn words<'a>(line: Line<'a>) -> Vec<Line<'a>> {
    let mut out = Vec::new();
    let mut at = 0;
    for word in line.text.split_whitespace() {
        let from = at + line.text[at..].find(word).expect("a word of the line");
        out.push(Line { text: word, start: line.start + from });
        at = from + word.len();
    }
    out
}

fn spanned<T>(line: Line, file: FileId, value: T) -> Spanned<T> {
    Spanned::new(value, span(file, line.start, line.start + line.text.len()))
}

fn skipped(line: Line<'_>, count: usize) -> Line<'_> {
    let rest = &line.text[count..];
    let indent = rest.len() - rest.trim_start().len();
    Line { text: &rest[indent..], start: line.start + count + indent }
}

fn inherit_target(word: Line, file: FileId) -> InheritTarget {
    if word.text == "NULL" {
        return InheritTarget::Suppress(span(file, word.start, word.start + 4));
    }
    match word.text.split_once("::") {
        Some((package, topic)) => InheritTarget::External {
            package: spanned(word, file, package.to_owned()),
            topic: spanned(word, file, topic.to_owned()),
        },
        None => InheritTarget::Local { topic: spanned(word, file, word.text.to_owned()) },
    }
}

fn report(code: DiagnosticCode, place: Span) -> Diagnostic {
    Diagnostic::new(
        code.default_severity(),
        code,
        "a tag cannot be used".to_owned(),
        Label::at(place, "here"),
    )
}

fn field<T>(value: Option<T>, origin: TagOrigin) -> FieldTag<T> {
    FieldTag { value: value.map_or(FieldValue::Suppress, FieldValue::Emit), origin }
}

fn brackets_balance(text: &str) -> bool {
    text.matches('(').count() == text.matches(')').count()
}

fn explicit_tag(
    name: &str,
    name_line: Line,
    body: &[Line],
    full_span: Span,
    file: FileId,
    unknown_tags: bool,
    diagnostics: &mut Diagnostics,
) -> Option<ParsedTag> {
    let origin = TagOrigin::Explicit {
        full_span,
        name: spanned(name_line, file, name.to_owned()),
    };
    let first = body[0];
    let source = sourced(body, file);
    let text = source.text.clone();
    let plain = || TagValue { value: PlainText::new(sourced(body, file)), origin: origin.clone() };
    let prose = |diagnostics: &mut Diagnostics| {
        if text.is_empty() {
            diagnostics.push(report(DiagnosticCode::TagParseError, full_span));
            None
        } else if text == "NULL" {
            Some(field(None, origin.clone()))
        } else {
            Some(field(Some(MarkdownText::new(sourced(body, file))), origin.clone()))
        }
    };
    Some(match name {
        "name" => ParsedTag::Name(plain()),
        "rdname" => ParsedTag::RdName(plain()),
        "title" => ParsedTag::Title(prose(diagnostics)?),
        "description" => ParsedTag::Description(prose(diagnostics)?),
        "details" => ParsedTag::Details(prose(diagnostics)?),
        "return" => ParsedTag::Return(prose(diagnostics)?),
        "seealso" => ParsedTag::SeeAlso(prose(diagnostics)?),
        "references" => ParsedTag::References(prose(diagnostics)?),
        "note" => ParsedTag::Note(prose(diagnostics)?),
        "format" => ParsedTag::Format(prose(diagnostics)?),
        "source" => ParsedTag::Source(prose(diagnostics)?),
        "author" => ParsedTag::Author(prose(diagnostics)?),
        "examples" => ParsedTag::Examples(TagValue {
            value: ExamplesContent::Ordinary(RCodeText::new(source)),
            origin,
        }),
        "examplesIf" => {
            if !brackets_balance(first.text) {
                diagnostics.push(report(DiagnosticCode::InvalidExamplesIfCondition, full_span));
                return None;
            }
            let code = sourced(&body[1..], file);
            if code.text.is_empty() {
                diagnostics.push(report(DiagnosticCode::EmptyExamplesIfBody, full_span));
                return None;
            }
            ParsedTag::Examples(TagValue {
                value: ExamplesContent::Conditional {
                    condition: RCodeText::new(sourced(&body[..1], file)),
                    body: RCodeText::new(code),
                },
                origin,
            })
        }
        "usage" => ParsedTag::Usage(TagValue {
            value: if text == "NULL" {
                UsageDirective::SuppressGenerated
            } else {
                UsageDirective::Explicit(RCodeText::new(source))
            },
            origin,
        }),
        "order" => ParsedTag::Order { value: text.trim().parse().expect("an order"), origin },
        "method" => {
            let parts = words(first);
            ParsedTag::Method {
                generic: spanned(parts[0], file, parts[0].text.to_owned()),
                class: spanned(parts[1], file, parts[1].text.to_owned()),
                origin,
            }
        }
        "param" => {
            let label = words(first)[0];
            let mut names = Vec::new();
            let mut at = label.start;
            for name in label.text.split(',') {
                let place = Line { text: name, start: at };
                names.push(spanned(place, file, ParamName(name.to_owned())));
                at += name.len() + 1;
            }
            let mut description = body.to_vec();
            description[0] = skipped(first, label.text.len());
            ParsedTag::Param {
                names,
                description: MarkdownText::new(sourced(&description, file)),
                origin,
            }
        }
        "section" => {
            let colon = first.text.find(':').expect("a section title");
            let title = Line { text: &first.text[..colon], start: first.start };
            let mut content = body.to_vec();
            content[0] = skipped(first, colon + 1);
            ParsedTag::Section {
                title: MarkdownText::new(sourced(&[title], file)),
                body: MarkdownText::new(sourced(&content, file)),
                origin,
            }
        }
        "aliases" => {
            let parts = words(first);
            let suppressed = parts.iter().any(|word| word.text == "NULL");
            ParsedTag::Aliases(TagValue {
                value: AliasDirective {
                    explicit: parts
                        .into_iter()
                        .filter(|word| word.text != "NULL")
                        .map(|word| spanned(word, file, DocName(word.text.to_owned())))
                        .collect(),
                    defaults: if suppressed {
                        DefaultAliasPolicy::Suppress
                    } else {
                        DefaultAliasPolicy::Include
                    },
                },
                origin,
            })
        }
        "keywords" => {
            let keywords = words(first)
                .into_iter()
                .map(|word| spanned(word, file, Keyword(word.text.to_owned())))
                .collect();
            ParsedTag::Keywords(field((text != "NULL").then_some(keywords), origin))
        }
        "inherit" => {
            let parts = words(first);
            let fields: Vec<InheritField> = parts[1..]
                .iter()
                .map(|word| match word.text {
                    "params" => InheritField::Params,
                    "title" => InheritField::Title,
                    other => panic!("unexpected inherited field {other}"),
                })
                .collect();
            ParsedTag::Inherit {
                target: inherit_target(parts[0], file),
                fields: if fields.is_empty() {
                    InheritFields::All
                } else {
                    InheritFields::Selected(Arc::new(fields))
                },
                origin,
            }
        }
        "inheritParams" => ParsedTag::InheritParams {
            target: inherit_target(words(first)[0], file),
            selection: None,
            origin,
        },
        "export" => ParsedTag::Namespace(NamespaceTag::Export(plain())),
        "exportS3Method" => ParsedTag::Namespace(NamespaceTag::ExportS3Method(plain())),
        "import" => ParsedTag::Namespace(NamespaceTag::Import(plain())),
        "importFrom" => ParsedTag::Namespace(NamespaceTag::ImportFrom(plain())),
        "useDynLib" => ParsedTag::Namespace(NamespaceTag::UseDynLib(plain())),
        "noRd" => ParsedTag::NoRd(origin),
        _ => {
            if unknown_tags {
                diagnostics.push(report(DiagnosticCode::UnknownTag, full_span));
            }
            ParsedTag::Unknown(origin)
        }
    })
}

fn paragraphs<'t, 'a>(lines: &'t [Line<'a>]) -> Vec<&'t [Line<'a>]> {
    lines
        .split(|line| line.text.trim().is_empty())
        .filter(|paragraph| !paragraph.is_empty())
        .collect()
}

fn joined(parts: &[Vec<Line>], file: FileId) -> SourcedText {
    let mut text = String::new();
    let mut segments = Vec::new();
    for part in parts {
        if !text.is_empty() {
            text.push_str("\n\n");
        }
        for (index, line) in part.iter().enumerate() {
            if index > 0 {
                text.push('\n');
            }
            segments.push(SourceSegment {
                offset: text.len() as u32,
                span: span(file, line.start, line.start + line.text.len()),
            });
            text.push_str(line.text);
        }
    }
    SourcedText::from_segments(text, segments)
}

fn tags(lines: &[Line], file: FileId, unknown_tags: bool) -> (Vec<ParsedTag>, Diagnostics) {
    let starts: Vec<usize> =
        (0..lines.len()).filter(|index| lines[*index].text.starts_with('@')).collect();
    let intro = paragraphs(&lines[..starts.first().copied().unwrap_or(lines.len())]);
    let mut out = Vec::new();
    let mut diagnostics = Diagnostics::new();
    let implicit = |part: &[Line]| TagOrigin::Implicit {
        intro_span: span(
            file,
            part[0].start,
            part[part.len() - 1].start + part[part.len() - 1].text.len(),
        ),
    };
    if let Some(title) = intro.first() {
        let text = MarkdownText::new(sourced(title, file));
        out.push(ParsedTag::Title(field(Some(text), implicit(title))));
    }
    if let Some(description) = intro.get(1) {
        let text = MarkdownText::new(sourced(description, file));
        out.push(ParsedTag::Description(field(Some(text), implicit(description))));
    }
    let mut details: Vec<Vec<Line>> = intro.iter().skip(2).map(|part| part.to_vec()).collect();
    for (position, start) in starts.iter().enumerate() {
        let end = starts.get(position + 1).copied().unwrap_or(lines.len());
        let line = lines[*start];
        let length = line.text[1..]
            .find(|c: char| c.is_whitespace())
            .unwrap_or(line.text.len() - 1);
        let name = &line.text[1..1 + length];
        let name_line = Line { text: name, start: line.start + 1 };
        let mut body = lines[*start..end].to_vec();
        body[0] = skipped(line, 1 + length);
        let last = lines[end - 1];
        let full_span = span(file, line.start, last.start + last.text.trim_end().len());
        if name == "details" && intro.len() > 2 {
            details.push(body);
            continue;
        }
        out.extend(explicit_tag(
            name,
            name_line,
            &body,
            full_span,
            file,
            unknown_tags,
            &mut diagnostics,
        ));
    }
    if intro.len() > 2 {
        let text = MarkdownText::new(joined(&details, file));
        out.push(ParsedTag::Details(field(Some(text), implicit(intro[2]))));
    }
    (out, diagnostics)
}

fn documented(
    text: &str,
    file: FileId,
    diagnostics: &mut Diagnostics,
) -> Vec<DocumentedBlock> {
    let front = read(text, file);
    let index = build_object_index(front.parsed, file);
    index
        .documented
        .into_iter()
        .zip(front.blocks)
        .map(|(object, lines)| {
            let (tags, reported) = tags(&lines, file, false);
            diagnostics.extend(reported);
            DocumentedBlock {
                block: BlockRef { file, block: object.block },
                block_span: object.block_span,
                target: object.target,
                tags,
            }
        })
        .collect()
}

fn index(source_text: &str) -> FileObjectIndex {
    let source = SourceFile::new("test.R".to_owned(), source_text.to_owned());
    build_object_index(parse(&source, FILE), FILE)
}

fn blocks(source_map: &mut SourceMap, path: &str, text: &str) -> Vec<DocumentedBlock> {
    let file = source_map.add_file(SourceFile::new(path.to_owned(), text.to_owned()));
    let mut diagnostics = Diagnostics::new();
    let blocks = documented(text, file, &mut diagnostics);
    assert!(diagnostics.is_empty(), "valid test tags parse");
    blocks
}

fn model(text: &str) -> ModelOutput {
    let mut source_map = SourceMap::new();
    let blocks = blocks(&mut source_map, "test.R", text);
    let file = FileId::new(0);
    let source = source_map.get(file).expect("the source");
    let bindings = build_object_index(parse(source, file), file).bindings;
    build_package_model_with_bindings(&source_map, blocks, bindings)
}

fn model_with_tag_diagnostics(text: &str) -> (ModelOutput, Diagnostics) {
    let mut source_map = SourceMap::new();
    let file = source_map.add_file(SourceFile::new("test.R".to_owned(), text.to_owned()));
    let mut diagnostics = Diagnostics::new();
    let blocks = documented(text, file, &mut diagnostics);
    (build_package_model(&source_map, blocks), diagnostics)
}

fn package_model_with_description(source: &str, description: &str) -> ModelOutput {
    let metadata = metadata_from_description(description).expect("package should load");
    let mut sources = SourceMap::new();
    let blocks = blocks(&mut sources, "test.R", source);
    build_package_model_with_metadata(&sources, blocks, &metadata)
}

fn package_description(authors: &str) -> String {
    format!(
        "Package: example\nTitle: Default title\nVersion: 0.1.0\nDescription: Default description.\nURL: https://example.org\nBugReports: https://example.org/issues\nAuthors@R: {authors}\n"
    )
}

fn topic_of<'a>(output: &'a ModelOutput, key: &str) -> &'a RdTopic {
    output.package.topics.get(&TopicKey(key.into())).expect("a topic")
}

fn topics_of(output: &ModelOutput) -> impl Iterator<Item = &RdTopic> {
    output.package.topics.entries.iter().map(|entry| &entry.1)
}

fn count_diagnostics(output: &ModelOutput, code: DiagnosticCode) -> usize {
    output
        .diagnostics
        .items
        .iter()
        .filter(|diagnostic| diagnostic.code == code)
        .count()
}

#[test]
fn propagates_direct_function_formals_to_a_documented_alias() {
    let output = model(
        r#"target <- function(x, y = 1) NULL

#' Alias topic.
alias <- target
"#,
    );
    let topic = output
        .package
        .topics
        .get(&TopicKey("alias".into()))
        .expect("alias topic");
    let FormalNames::Known(formals) = &topic.formals[0].names else {
        panic!("expected direct alias formals");
    };
    assert_eq!(
        formals
            .iter()
            .map(|formal| formal.name.0.as_str())
            .collect::<Vec<_>>(),
        ["x", "y"]
    );
}

#[test]
fn unresolved_and_cyclic_aliases_do_not_guess_formals() {
    let output = model(
        r#"#' Unresolved alias.
unresolved <- missing

#' Forward alias.
forward <- later
later <- function(z) NULL

#' Cyclic alias A.
cycle_a <- cycle_b

#' Cyclic alias B.
cycle_b <- cycle_a
"#,
    );
    for name in ["unresolved", "forward", "cycle_a", "cycle_b"] {
        let topic = output
            .package
            .topics
            .get(&TopicKey(name.into()))
            .expect("alias topic");
        assert!(matches!(
            topic.formals[0].names,
            FormalNames::Unknown { .. }
        ));
    }
}

#[test]
fn package_block_is_registered_once_in_the_model() {
    let mut source_map = SourceMap::new();
    let blocks = blocks(
        &mut source_map,
        "package.R",
        "#' @title Package topic\n\"_PACKAGE\"\n",
    );
    let metadata = PackageMetadata::new("example", None).expect("package metadata is valid");
    let output = build_package_model_with_metadata(&source_map, blocks, &metadata);
    let topic = output
        .package
        .topics
        .get(&TopicKey("example-package".to_owned()))
        .expect("package topic should be present");
    assert_eq!(topic.blocks.len(), 1);
    assert_eq!(topic.formals.len(), 1);
}

#[test]
fn package_block_honors_explicit_rdname_and_name_alias() {
    let mut source_map = SourceMap::new();
    let blocks = blocks(
        &mut source_map,
        "package.R",
        "#' @title Package topic\n#' @rdname custom-package\n#' @name custom.alias\n\"_PACKAGE\"\n",
    );
    let metadata = PackageMetadata::new("example", None).expect("package metadata is valid");
    let output = build_package_model_with_metadata(&source_map, blocks, &metadata);
    let topic = output
        .package
        .topics
        .get(&TopicKey("custom-package".to_owned()))
        .expect("explicit package rdname should select the topic key");
    assert!(
        topic
            .aliases
            .iter()
            .any(|alias| alias.name.0 == "custom.alias")
    );
}

#[test]
fn package_default_alias_yields_to_an_ordinary_topic_with_the_package_name() {
    for source in [
        r#"#' @title Package topic
#' @keywords internal
"_PACKAGE"
#' @title Function topic
example <- function() NULL
"#,
        r#"#' @title Function topic
example <- function() NULL
#' @title Package topic
#' @keywords internal
"_PACKAGE"
"#,
    ] {
        let output = package_model_with_description(source, &package_description("NULL"));
        assert!(output.diagnostics.is_empty(), "source: {source}");

        let package = topic_of(&output, "example-package");
        let ordinary = topic_of(&output, "example");
        assert_eq!(
            package
                .aliases
                .iter()
                .map(|alias| alias.name.0.as_str())
                .collect::<Vec<_>>(),
            ["example-package"]
        );
        assert_eq!(
            ordinary
                .aliases
                .iter()
                .map(|alias| alias.name.0.as_str())
                .collect::<Vec<_>>(),
            ["example"]
        );
    }
}

#[test]
fn implicit_name_and_generated_usage_are_modelled() {
    let output = model(
        r#"#' Title
f <- function(x) x
"#,
    );
    let topic = output.package.topics.get(&TopicKey("f".into())).unwrap();
    assert_eq!(topic.name.0, "f");
    assert_eq!(topic.aliases[0].name.0, "f");
    assert_eq!(topic.title.as_ref().unwrap().value.as_str(), "Title");
    assert!(matches!(
        topic.usages.as_slice(),
        [usage] if matches!(usage.usage, ResolvedUsage::Generated(_))
    ));
    assert!(output.diagnostics.is_empty());
}

#[test]
fn aliases_generate_usage_from_proven_target_formals_and_defaults() {
    let output = model(
        r#"existing <- function(value = 1, flag = "x") existing

#' Alias topic
alias <- existing
"#,
    );
    let topic = topic_of(&output, "alias");
    assert!(matches!(
        topic.usages.as_slice(),
        [usage] if matches!(
            &usage.usage,
            ResolvedUsage::Generated(value) if value.as_str() == "alias(value = 1, flag = \"x\")"
        )
    ));
    assert!(output.diagnostics.is_empty());
}

#[test]
fn known_non_function_constructor_objects_receive_name_only_usage() {
    let output = model(
        r#"#' Object topic
object <- base::new.env(parent = emptyenv())
"#,
    );
    let topic = topic_of(&output, "object");
    assert!(matches!(
        topic.usages.as_slice(),
        [usage] if matches!(
            &usage.usage,
            ResolvedUsage::Generated(value) if value.as_str() == "object"
        )
    ));
    assert!(output.diagnostics.is_empty());
}

#[test]
fn simple_and_unknown_constructor_calls_do_not_guess_object_usage() {
    let output = model(
        r#"#' Simple object
simple <- new.env()

#' Unknown object
unknown <- unknown_constructor()
"#,
    );
    for name in ["simple", "unknown"] {
        let topic = topic_of(&output, name);
        assert!(matches!(
            topic.usages.as_slice(),
            [usage] if matches!(usage.usage, ResolvedUsage::Absent)
        ));
    }
    assert!(output.diagnostics.is_empty());
}

#[test]
fn local_constructor_shadowing_blocks_name_only_usage() {
    let output = model(
        r#"new.env <- function(...) function(...) NULL

#' Object topic
object <- new.env()
"#,
    );
    let topic = topic_of(&output, "object");
    assert!(matches!(
        topic.usages.as_slice(),
        [usage] if matches!(usage.usage, ResolvedUsage::Absent)
    ));
    assert!(output.diagnostics.is_empty());
}

#[test]
fn qualified_base_constructor_is_known_without_local_lookup() {
    let output = model(
        r#"#' Object topic
object <- base::new.env()

#' Internal object topic
internal_object <- base:::new.env()
"#,
    );
    for (name, usage_text) in [("object", "object"), ("internal_object", "internal_object")] {
        let topic = topic_of(&output, name);
        assert!(matches!(
            topic.usages.as_slice(),
            [usage] if matches!(
                &usage.usage,
                ResolvedUsage::Generated(value) if value.as_str() == usage_text
            )
        ));
    }
    assert!(output.diagnostics.is_empty());
}

#[test]
fn explicit_name_keeps_implicit_name_as_alias() {
    let output = model(
        r#"#' @name topic
#' @aliases topic f
f <- function() f
"#,
    );
    let topic = output
        .package
        .topics
        .get(&TopicKey("topic".into()))
        .unwrap();
    assert_eq!(topic.name.0, "topic");
    assert_eq!(
        topic
            .aliases
            .iter()
            .map(|x| x.name.0.as_str())
            .collect::<Vec<_>>(),
        ["topic", "f"]
    );
    assert!(output.diagnostics.is_empty());
}

#[test]
fn rdname_merges_files_and_order_controls_generated_usage() {
    let mut source_map = SourceMap::new();
    let mut first = blocks(
        &mut source_map,
        "a.R",
        r#"#' @rdname shared
#' @order 2
a <- function(a) a
"#,
    );
    let mut second = blocks(
        &mut source_map,
        "b.R",
        r#"#' @rdname shared
#' @order 1
b <- function(b) b
"#,
    );
    first.append(&mut second);
    let output = build_package_model(&source_map, first);
    let topic = output
        .package
        .topics
        .get(&TopicKey("shared".into()))
        .unwrap();
    assert_eq!(topic.name.0, "b");
    let usages = topic
        .usages
        .iter()
        .filter_map(|contribution| match &contribution.usage {
            ResolvedUsage::Generated(value) => Some(value.as_str().trim()),
            _ => None,
        })
        .collect::<Vec<_>>();
    assert_eq!(usages, ["b(b)", "a(a)"]);
    assert_eq!(
        topic
            .aliases
            .iter()
            .map(|alias| alias.name.0.as_str())
            .collect::<Vec<_>>(),
        ["b", "a"]
    );
    assert!(output.diagnostics.is_empty());
}

#[test]
fn rdname_order_defaults_last_and_ties_keep_source_order() {
    let mut source_map = SourceMap::new();
    let mut first = blocks(
        &mut source_map,
        "a.R",
        r#"#' @rdname shared
#' @order 1
a <- function(a) a
"#,
    );
    let mut second = blocks(
        &mut source_map,
        "b.R",
        r#"#' @rdname shared
#' @order 1
b <- function(b) b
"#,
    );
    let mut third = blocks(
        &mut source_map,
        "c.R",
        r#"#' @rdname shared
c <- function(c) c
"#,
    );
    first.append(&mut second);
    first.append(&mut third);

    let output = build_package_model(&source_map, first);
    let topic = output
        .package
        .topics
        .get(&TopicKey("shared".into()))
        .expect("merged topic");
    assert_eq!(topic.name.0, "a");
    assert_eq!(
        topic
            .aliases
            .iter()
            .map(|alias| alias.name.0.as_str())
            .collect::<Vec<_>>(),
        ["a", "b", "c"]
    );
    let usages = topic
        .usages
        .iter()
        .filter_map(|contribution| match &contribution.usage {
            ResolvedUsage::Generated(value) => Some(value.as_str().trim()),
            _ => None,
        })
        .collect::<Vec<_>>();
    assert_eq!(usages, ["a(a)", "b(b)", "c(c)"]);
    assert!(output.diagnostics.is_empty());
}

#[test]
fn propagates_s7_constructor_formals_to_a_documented_alias() {
    let output = model(
        r#"RenderOptions <- S7::new_class(
  "RenderOptions",
  constructor = function(..., compact = TRUE) NULL
)

#' Synthetic options.
#' @rdname RenderOptions
new_render_options <- RenderOptions
"#,
    );
    let topic = output
        .package
        .topics
        .get(&TopicKey("RenderOptions".into()))
        .expect("S7 alias topic");
    let FormalNames::Known(formals) = &topic.formals[0].names else {
        panic!("expected known S7 constructor formals");
    };
    assert_eq!(
        formals
            .iter()
            .map(|formal| formal.name.0.as_str())
            .collect::<Vec<_>>(),
        ["...", "compact"]
    );
    let usage = topic
        .usages
        .iter()
        .find_map(|contribution| match &contribution.usage {
            ResolvedUsage::Generated(value) => Some(value.as_str()),
            _ => None,
        })
        .expect("generated S7 alias usage");
    assert_eq!(usage, "new_render_options(..., compact = TRUE)");
    assert!(output.diagnostics.is_empty());
}

#[test]
fn does_not_propagate_s7_metadata_after_reassignment() {
    let output = model(
        r#"RenderOptions <- new_class(
  "RenderOptions",
  constructor = function(..., compact = TRUE) NULL
)
RenderOptions <- make_unknown()

#' Synthetic options.
#' @rdname RenderOptions
new_render_options <- RenderOptions
"#,
    );
    let topic = output
        .package
        .topics
        .get(&TopicKey("RenderOptions".into()))
        .expect("documented alias topic");
    assert!(matches!(
        topic.usages.as_slice(),
        [usage] if matches!(usage.usage, ResolvedUsage::Absent)
    ));
    assert!(output.diagnostics.is_empty());
}

#[test]
fn reports_source_aware_s7_refusal_for_documented_direct_definition() {
    let source = r#"#' Unsupported class.
Foo <- new_class(class_name, constructor = make_constructor())
"#;
    let output = model(source);
    let diagnostic = output
        .diagnostics.items
        .iter()
        .find(|diagnostic| diagnostic.code == DiagnosticCode::UnsupportedS7Constructor)
        .expect("documented S7 refusal diagnostic");
    let start = source.find("new_class").unwrap() as u32;
    let end = source.trim_end().len() as u32;
    assert_eq!(diagnostic.primary.span.range.start(), start);
    assert_eq!(diagnostic.primary.span.range.end(), end);
    assert_eq!(diagnostic.primary.span.file.index(), 0);
}

#[test]
fn reports_source_aware_s7_refusals_for_missing_and_computed_constructors() {
    for source in [
        r#"#' Missing constructor.
Foo <- new_class("Foo")
"#,
        r#"#' Computed constructor.
Foo <- new_class("Foo", constructor = make_constructor())
"#,
    ] {
        let output = model(source);
        let diagnostic = output
            .diagnostics.items
            .iter()
            .find(|diagnostic| diagnostic.code == DiagnosticCode::UnsupportedS7Constructor)
            .expect("documented S7 refusal diagnostic");
        let start = source.find("new_class").unwrap() as u32;
        assert_eq!(diagnostic.primary.span.range.start(), start);
        assert_eq!(
            diagnostic.primary.span.range.end(),
            source.trim_end().len() as u32
        );
    }
}

#[test]
fn reports_alias_rhs_and_origin_for_crossing_s7_refusal() {
    let source = r#"Foo <- new_class(class_name, constructor = make_constructor())

#' Alias with unsupported class metadata.
#' @rdname alias
alias <- Foo
"#;
    let output = model(source);
    let diagnostic = output
        .diagnostics.items
        .iter()
        .find(|diagnostic| diagnostic.code == DiagnosticCode::UnsupportedS7Constructor)
        .expect("alias S7 refusal diagnostic");
    let alias_rhs = source.rfind("Foo").unwrap() as u32;
    assert_eq!(diagnostic.primary.span.range.start(), alias_rhs);
    assert_eq!(diagnostic.primary.span.range.end(), alias_rhs + 3);
    assert_eq!(diagnostic.primary.span.file.index(), 0);
    assert_eq!(diagnostic.secondary.len(), 1);
}

#[test]
fn refuses_cross_file_s7_alias_propagation_without_load_order_proof() {
    let mut source_map = SourceMap::new();
    let first = blocks(
        &mut source_map,
        "a.R",
        r#"Foo <- new_class(
  "Foo",
  constructor = function(value = 1) NULL
)
"#,
    );
    let second = blocks(
        &mut source_map,
        "b.R",
        r#"#' Cross-file alias.
#' @rdname cross_file
alias <- Foo
"#,
    );
    let first_source = source_map
        .get(FileId::new(0))
        .expect("first source");
    let first_bindings = build_object_index(
        parse(first_source, FileId::new(0)),
        FileId::new(0),
    )
    .bindings;
    let second_source = source_map
        .get(FileId::new(1))
        .expect("second source");
    let second_bindings = build_object_index(
        parse(second_source, FileId::new(1)),
        FileId::new(1),
    )
    .bindings;
    let mut all_blocks = first;
    all_blocks.extend(second);
    let mut bindings = first_bindings;
    bindings.extend(second_bindings);
    let output = build_package_model_with_bindings(&source_map, all_blocks, bindings);
    let topic = output
        .package
        .topics
        .get(&TopicKey("cross_file".into()))
        .expect("cross-file alias topic");
    assert!(matches!(
        topic.usages.as_slice(),
        [usage] if matches!(usage.usage, ResolvedUsage::Absent)
    ));
    assert!(output.diagnostics.is_empty());
}

#[test]
fn method_declarations_stay_attached_to_usages_in_merge_order() {
    let output = model(
        r#"#' @rdname shared
#' @order 2
#' @method print foo
#' @usage f()
f <- function() f
#' @rdname shared
#' @order 1
#' @method format bar
#' @usage g()
g <- function() g
"#,
    );
    let topic = output
        .package
        .topics
        .get(&TopicKey("shared".into()))
        .unwrap();
    assert_eq!(topic.usages.len(), 2);
    let methods = topic
        .usages
        .iter()
        .map(|contribution| {
            let method = contribution.method.as_ref().unwrap();
            (
                method.generic.value.as_str(),
                method.class.value.as_str(),
                match &contribution.usage {
                    ResolvedUsage::Explicit(value) => value.value.as_str(),
                    _ => panic!("expected explicit usage"),
                },
            )
        })
        .collect::<Vec<_>>();
    assert_eq!(methods, [("format", "bar", "g()"), ("print", "foo", "f()")]);
    assert!(output.diagnostics.is_empty());
}

#[test]
fn method_without_usage_keeps_an_absent_contribution() {
    let output = model(
        r#"#' @name manual
#' @method print foo
NULL
"#,
    );
    let topic = output
        .package
        .topics
        .get(&TopicKey("manual".into()))
        .unwrap();
    assert_eq!(topic.usages.len(), 1);
    assert!(topic.usages[0].method.is_some());
    assert!(matches!(topic.usages[0].usage, ResolvedUsage::Absent));
    assert!(output.diagnostics.is_empty());
}

#[test]
fn duplicate_method_identity_names_both_declarations() {
    let output = model(
        r#"#' @rdname shared
#' @method print foo
f <- function() f
#' @rdname shared
#' @method print foo
g <- function() g
"#,
    );
    let duplicate = output
        .diagnostics.items
        .iter()
        .find(|diagnostic| diagnostic.code == DiagnosticCode::DuplicateMethod)
        .expect("duplicate method diagnostic");
    assert_eq!(duplicate.secondary.len(), 1);
    assert_ne!(duplicate.primary.span, duplicate.secondary[0].span);
    assert_eq!(
        topic_of(&output, "shared")
            .usages
            .len(),
        2
    );
}

#[test]
fn prose_slots_are_retained_once() {
    let output = model(
        r#"#' @title Function details
#' @seealso see
#' @references refs
#' @note note
#' @format format
#' @source source
#' @author author
f <- function() f
"#,
    );
    let topic = output.package.topics.get(&TopicKey("f".into())).unwrap();
    assert_eq!(topic.see_also.as_ref().unwrap().value.as_str(), "see");
    assert_eq!(topic.references.as_ref().unwrap().value.as_str(), "refs");
    assert_eq!(topic.note.as_ref().unwrap().value.as_str(), "note");
    assert_eq!(topic.format.as_ref().unwrap().value.as_str(), "format");
    assert_eq!(topic.source.as_ref().unwrap().value.as_str(), "source");
    assert_eq!(topic.author.as_ref().unwrap().value.as_str(), "author");
    assert!(output.diagnostics.is_empty());
}

#[test]
fn prose_slots_reject_a_second_block_contribution() {
    for tag in [
        "seealso",
        "references",
        "note",
        "format",
        "source",
        "author",
    ] {
        let output = model(&format!(
            r#"#' @rdname shared
#' @{tag} first
f <- function() f
#' @rdname shared
#' @{tag} second
g <- function() g
"#
        ));
        assert_eq!(
            output
                .diagnostics.items
                .iter()
                .filter(|diagnostic| {
                    diagnostic.code == DiagnosticCode::DuplicateTag
                })
                .count(),
            1,
            "expected one duplicate diagnostic for @{tag}"
        );
    }
}

#[test]
fn seealso_repeats_are_source_aware_topic_duplicates() {
    let output = model(
        r#"#' @title Shared seealso
#' @rdname shared
#' @seealso First contribution.
#' @seealso Second contribution.
f <- function() f
#' @rdname shared
#' @seealso Third contribution.
g <- function() g
"#,
    );
    let topic = output
        .package
        .topics
        .get(&TopicKey("shared".into()))
        .expect("shared topic");
    assert_eq!(
        topic.see_also.as_ref().unwrap().value.as_str(),
        "First contribution."
    );
    let duplicates = output
        .diagnostics.items
        .iter()
        .filter(|diagnostic| diagnostic.code == DiagnosticCode::DuplicateTag)
        .collect::<Vec<_>>();
    assert_eq!(duplicates.len(), 2);
    for duplicate in duplicates {
        assert_eq!(duplicate.secondary.len(), 1);
        assert_eq!(duplicate.primary.message, "second @seealso contribution");
        assert_eq!(
            duplicate.secondary[0].message,
            "first @seealso contribution"
        );
        assert_ne!(duplicate.primary.span, duplicate.secondary[0].span);
    }
}

#[test]
fn exact_seealso_repeat_is_not_silently_deduplicated() {
    let output = model(
        r#"#' @title Exact seealso
#' @seealso Same contribution.
#' @seealso Same contribution.
f <- function() f
"#,
    );
    let topic = topic_of(&output, "f");
    assert_eq!(
        topic
            .see_also
            .as_ref()
            .expect("first seealso")
            .value
            .as_str(),
        "Same contribution."
    );
    let duplicate = output
        .diagnostics.items
        .iter()
        .find(|diagnostic| diagnostic.code == DiagnosticCode::DuplicateTag)
        .expect("exact repeat diagnostic");
    assert_eq!(duplicate.primary.message, "second @seealso contribution");
    assert_eq!(duplicate.secondary.len(), 1);
    assert_ne!(duplicate.primary.span, duplicate.secondary[0].span);
}

#[test]
fn empty_seealso_contributions_do_not_create_or_replace_a_section() {
    let (output, tag_diagnostics) = model_with_tag_diagnostics(
        r#"#' @title Empty seealso
#' @seealso
f <- function() f
"#,
    );
    let topic = output
        .package
        .topics
        .get(&TopicKey("f".into()))
        .expect("function topic");
    assert!(topic.see_also.is_none());
    assert!(output.diagnostics.is_empty());
    assert_eq!(
        tag_diagnostics.items
            .iter()
            .filter(|diagnostic| diagnostic.code == DiagnosticCode::TagParseError)
            .count(),
        1
    );
}

#[test]
fn empty_seealso_tags_do_not_consume_the_singleton_slot() {
    let cases = [
        r#"#' @title Empty before
#' @seealso
#' @seealso First contribution.
f <- function() f
"#,
        r#"#' @title Empty after
#' @seealso First contribution.
#' @seealso
f <- function() f
"#,
        r#"#' @title Empty before valid
#' @seealso
#' @seealso First contribution.
f <- function() f
"#,
    ];

    for source in cases {
        let (output, tag_diagnostics) = model_with_tag_diagnostics(source);
        assert_eq!(
            tag_diagnostics.items
                .iter()
                .filter(|diagnostic| diagnostic.code == DiagnosticCode::TagParseError)
                .count(),
            1,
            "expected one empty @seealso diagnostic for {source}"
        );
        let topic = output
            .package
            .topics
            .get(&TopicKey("f".into()))
            .expect("function topic");
        let value = topic.see_also.as_ref().expect("non-empty seealso");
        assert_eq!(value.value.as_str(), "First contribution.");
        assert!(output.diagnostics.is_empty());
    }
}

#[test]
fn malformed_examples_if_does_not_drop_a_valid_local_contribution() {
    let (output, tag_diagnostics) = model_with_tag_diagnostics(
        r#"#' @title ExamplesIf recovery
#' @examplesIf invalid(
#' @examplesIf interactive()
#' @examplesIf interactive() && TRUE
#' local_value <- 1
f <- function() NULL
"#,
    );
    assert_eq!(
        tag_diagnostics.items
            .iter()
            .filter(|diagnostic| { diagnostic.code == DiagnosticCode::InvalidExamplesIfCondition })
            .count(),
        1
    );
    assert_eq!(
        tag_diagnostics.items
            .iter()
            .filter(|diagnostic| diagnostic.code == DiagnosticCode::EmptyExamplesIfBody)
            .count(),
        1
    );
    let topic = output
        .package
        .topics
        .get(&TopicKey("f".into()))
        .expect("function topic");
    assert!(topic.examples.is_some());
    assert!(output.diagnostics.is_empty());
}

#[test]
fn aliases_null_suppresses_only_that_blocks_default_aliases() {
    let output = model(
        r#"#' @name first
#' @rdname shared
#' @aliases NULL explicit
f <- function() f
#' @name second
#' @rdname shared
g <- function() g
"#,
    );
    let topic = output
        .package
        .topics
        .get(&TopicKey("shared".into()))
        .unwrap();
    assert_eq!(
        topic
            .aliases
            .iter()
            .map(|alias| alias.name.0.as_str())
            .collect::<Vec<_>>(),
        ["explicit", "second", "g"]
    );
    assert!(output.diagnostics.is_empty());
}

#[test]
fn data_objects_merge_null_format_before_or_after_the_hub() {
    for satellite_first in [false, true] {
        let (satellite_order, hub_order) = if satellite_first { (-1, 1) } else { (2, 1) };
        let output = model(&format!(
            r#"#' Band membership
#' @format Each is a tibble with two variables and three observations
#' @order {hub_order}
"band_members"
#' @rdname band_members
#' @format NULL
#' @order {satellite_order}
"band_instruments"
#' @rdname band_members
#' @format NULL
#' @order 3
"band_instruments2"
"#
        ));
        let topic = output
            .package
            .topics
            .get(&TopicKey("band_members".into()))
            .expect("band_members topic");
        assert_eq!(topic.aliases.len(), 3);
        let mut aliases = topic
            .aliases
            .iter()
            .map(|alias| alias.name.0.as_str())
            .collect::<Vec<_>>();
        aliases.sort_unstable();
        assert_eq!(
            aliases,
            ["band_instruments", "band_instruments2", "band_members"]
        );
        assert_eq!(
            topic.format.as_ref().expect("hub format").value.as_str(),
            "Each is a tibble with two variables and three observations"
        );
        assert!(output.diagnostics.is_empty());
    }
}

#[test]
fn data_topics_supply_defaults_and_preserve_explicit_usage() {
    for (description, expected_usage) in [
        ("Package: example\nLazyData: true\n", "dataset"),
        ("Package: example\nLazyData: TRUE\n", "dataset"),
        ("Package: example\nLazyData: yes\n", "dataset"),
        ("Package: example\nLazyData: false\n", "data(dataset)"),
        ("Package: example\n", "data(dataset)"),
    ] {
        let output = package_model_with_description(
            r#"#' Dataset
"dataset"
"#,
            description,
        );
        let topic = topic_of(&output, "dataset");
        assert_eq!(topic.kind, RdTopicKind::Data);
        assert_eq!(topic.keywords, [Keyword("datasets".into())]);
        assert!(matches!(
            &topic.usages[0].usage,
            ResolvedUsage::Generated(value) if value.as_str() == expected_usage
        ));
    }

    let output = package_model_with_description(
        r#"#' Dataset
#' @usage custom_dataset()
#' @keywords custom
"dataset"
#' @rdname dataset
#' @keywords datasets other
"other_dataset"
"#,
        "Package: example\nLazyData: false\n",
    );
    let topic = topic_of(&output, "dataset");
    assert_eq!(topic.kind, RdTopicKind::Data);
    assert_eq!(
        topic.keywords,
        [
            Keyword("custom".into()),
            Keyword("datasets".into()),
            Keyword("other".into()),
        ]
    );
    assert!(matches!(
        &topic.usages[0].usage,
        ResolvedUsage::Explicit(value) if value.value.as_str() == "custom_dataset()"
    ));
    assert!(matches!(
        &topic.usages[1].usage,
        ResolvedUsage::Generated(value) if value.as_str() == "data(other_dataset)"
    ));
    assert!(output.diagnostics.is_empty());

    let suppressed = package_model_with_description(
        r#"#' Dataset
#' @keywords NULL
"dataset"
"#,
        "Package: example\n",
    );
    assert!(
        topic_of(&suppressed, "dataset")
            .keywords
            .is_empty()
    );

    for (lazy_data, expected_usage) in [(false, "data(`dataset name`)"), (true, "`dataset name`")] {
        let output = package_model_with_description(
            r#"#' Dataset
"dataset name"
"#,
            &format!("Package: example\nLazyData: {lazy_data}\n"),
        );
        let topic = topic_of(&output, "dataset name");
        assert!(matches!(
            &topic.usages[0].usage,
            ResolvedUsage::Generated(value) if value.as_str() == expected_usage
        ));
    }

    let output = package_model_with_description(
        r#"#' Dataset
r"(a`b)"
"#,
        "Package: example\nLazyData: true\n",
    );
    let topic = topic_of(&output, "a`b");
    assert!(matches!(
        &topic.usages[0].usage,
        ResolvedUsage::Generated(value) if value.as_str() == "`a\\`b`"
    ));

    let output = package_model_with_description(
        r#"#' Dataset
r"(a\b)"
"#,
        "Package: example\nLazyData: false\n",
    );
    let topic = topic_of(&output, "a\\b");
    assert!(matches!(
        &topic.usages[0].usage,
        ResolvedUsage::Generated(value) if value.as_str() == "data(`a\\\\b`)"
    ));
}

#[test]
fn package_and_data_contributions_report_one_order_independent_kind_conflict() {
    for source in [
        r#"#' @rdname shared
"_PACKAGE"
#' @rdname shared
"dataset"
"#,
        r#"#' @rdname shared
"dataset"
#' @rdname shared
"_PACKAGE"
"#,
    ] {
        let output = package_model_with_description(source, &package_description("NULL"));
        let diagnostics = output
            .diagnostics.items
            .iter()
            .filter(|diagnostic| diagnostic.code == DiagnosticCode::ConflictingTopicKind)
            .collect::<Vec<_>>();
        assert_eq!(diagnostics.len(), 1, "source: {source}");
        assert_eq!(diagnostics[0].secondary.len(), 1);
        let topic = topic_of(&output, "shared");
        assert_eq!(topic.kind, RdTopicKind::Package);
        assert_eq!(
            topic.title.as_ref().unwrap().value.as_str(),
            "example: Default title"
        );
        assert!(topic.package_metadata_diagnostics.is_some());
    }
}

#[test]
fn kind_conflict_provenance_survives_suppressed_aliases() {
    let source = r#"#' @rdname shared
#' @aliases NULL
"_PACKAGE"
#' @rdname shared
#' @aliases NULL
"dataset"
"#;
    let output = package_model_with_description(source, &package_description("NULL"));
    let diagnostic = output
        .diagnostics.items
        .iter()
        .find(|diagnostic| diagnostic.code == DiagnosticCode::ConflictingTopicKind)
        .expect("mixed kind diagnostic");
    let package_start = source.find("\"_PACKAGE\"").expect("package sentinel") as u32;
    let data_start = source.find("\"dataset\"").expect("data name") as u32;
    assert!(
        [
            diagnostic.primary.span.range.start(),
            diagnostic.secondary[0].span.range.start()
        ]
        .contains(&package_start)
    );
    assert!(
        [
            diagnostic.primary.span.range.start(),
            diagnostic.secondary[0].span.range.start()
        ]
        .contains(&data_start)
    );
    assert!(
        topic_of(&output, "shared")
            .aliases
            .is_empty()
    );
}

#[test]
fn ordinary_and_data_contributions_remain_a_permitted_merge() {
    let output = package_model_with_description(
        r#"#' @rdname shared
#' @title Ordinary contribution
ordinary <- function() NULL
#' @rdname shared
"dataset"
"#,
        &package_description("NULL"),
    );
    assert_eq!(
        topic_of(&output, "shared").kind,
        RdTopicKind::Data
    );
    assert_eq!(
        count_diagnostics(&output, DiagnosticCode::ConflictingTopicKind),
        0
    );
}

#[test]
fn inherit_null_is_retained_as_a_suppression() {
    let output = model(
        r#"#' @inherit NULL
#' @inheritParams NULL
f <- function() f
"#,
    );
    let topic = topic_of(&output, "f");
    assert!(matches!(
        &topic.inheritance[0],
        InheritanceRequest::Inherit {
            target: InheritTarget::Suppress(_),
            ..
        }
    ));
    assert!(matches!(
        &topic.inheritance[1],
        InheritanceRequest::InheritParams {
            target: InheritTarget::Suppress(_),
            ..
        }
    ));
    assert!(output.diagnostics.is_empty());
}

#[test]
fn topic_name_prefers_explicit_name_over_rdname_key() {
    let output = model(
        r#"#' @name object
#' @rdname shared
f <- function() f
"#,
    );
    let topic = output
        .package
        .topics
        .get(&TopicKey("shared".into()))
        .unwrap();
    assert_eq!(topic.name.0, "object");
    assert_eq!(topic.aliases[0].name.0, "object");
    assert!(output.diagnostics.is_empty());
}

#[test]
fn no_rd_keeps_namespace_but_not_a_topic() {
    let output = model(
        r#"#' @noRd
#' @export
f <- function() f
"#,
    );
    assert!(output.package.topics.is_empty());
    assert_eq!(output.package.namespace.len(), 1);
    assert!(output.package.namespace[0].object.is_some());
    assert!(output.diagnostics.is_empty());
}

#[test]
fn export_only_function_keeps_namespace_but_not_a_topic() {
    let output = model(
        r#"#' @export
f <- function(x) x
"#,
    );
    assert!(output.package.topics.is_empty());
    assert!(matches!(
        output.package.namespace.as_slice(),
        [request] if matches!(request.tag, NamespaceTag::Export(_))
    ));
    assert!(output.diagnostics.is_empty());
}

#[test]
fn export_only_backtick_quoted_s3_method_keeps_namespace_but_not_a_topic() {
    let output = model(
        r#"#' @export
`$.fixture_data_frame` <- function(x, name) x
"#,
    );
    assert!(output.package.topics.is_empty());
    assert_eq!(
        output.package.namespace[0]
            .object
            .as_ref()
            .expect("implicit method name")
            .as_str(),
        "$.fixture_data_frame"
    );
    assert!(output.diagnostics.is_empty());
}

#[test]
fn namespace_only_null_blocks_keep_requests_without_topic_identity_diagnostics() {
    let output = model(
        r#"#' @useDynLib fixture, .registration = TRUE
NULL
#' @import rlang
NULL
#' @importFrom utils head
NULL
"#,
    );
    assert!(output.package.topics.is_empty());
    assert_eq!(output.package.namespace.len(), 3);
    assert!(output.diagnostics.items.iter().all(
        |diagnostic| diagnostic.code != DiagnosticCode::MissingTopicIdentity
    ));
    assert!(matches!(
        output.package.namespace[0].tag,
        NamespaceTag::UseDynLib(_)
    ));
    assert!(matches!(
        output.package.namespace[1].tag,
        NamespaceTag::Import(_)
    ));
    assert!(matches!(
        output.package.namespace[2].tag,
        NamespaceTag::ImportFrom(_)
    ));
}

#[test]
fn export_with_title_builds_both_topic_and_namespace_request() {
    let output = model(
        r#"#' @title Function title
#' @export
f <- function() f
"#,
    );
    assert!(output.package.topics.contains_key(&TopicKey("f".into())));
    assert!(matches!(
        output.package.namespace.as_slice(),
        [request] if matches!(request.tag, NamespaceTag::Export(_))
    ));
    assert!(output.diagnostics.is_empty());
}

#[test]
fn inherit_params_alone_does_not_build_a_topic() {
    let output = model(
        r#"#' @inheritParams donor
f <- function(x) x
"#,
    );
    assert!(output.package.topics.is_empty());
    assert!(output.diagnostics.is_empty());
}

#[test]
fn inherit_alone_builds_a_topic() {
    let output = model(
        r#"#' @inherit donor
f <- function(x) x
"#,
    );
    assert!(output.package.topics.contains_key(&TopicKey("f".into())));
    assert!(output.diagnostics.is_empty());
}

#[test]
fn params_and_sections_keep_merge_then_source_order() {
    let mut source_map = SourceMap::new();
    let mut first = blocks(
        &mut source_map,
        "a.R",
        r#"#' @rdname shared
#' @order 2
#' @param z later z
#' @param x later x
#' @section Z: later z
#' @section X: later x
f <- function(z, x) f
"#,
    );
    let mut second = blocks(
        &mut source_map,
        "b.R",
        r#"#' @rdname shared
#' @order 1
#' @param y first y
#' @param a first a
#' @section Y: first y
#' @section A: first a
g <- function(y, a) g
"#,
    );
    first.append(&mut second);
    let output = build_package_model(&source_map, first);
    let topic = output
        .package
        .topics
        .get(&TopicKey("shared".into()))
        .unwrap();
    assert_eq!(
        topic
            .params
            .iter()
            .map(|param| param.name.0.as_str())
            .collect::<Vec<_>>(),
        ["y", "a", "z", "x"]
    );
    assert_eq!(
        topic
            .sections
            .iter()
            .map(|section| section.title.as_str())
            .collect::<Vec<_>>(),
        ["Y", "A", "Z", "X"]
    );
    assert!(output.diagnostics.is_empty());
}

#[test]
fn composed_intro_details_are_one_topic_slot() {
    let output = model(
        r#"#' Intro title.
#'
#' Intro description.
#'
#' Intro detail.
#' @details Explicit detail.
f <- function() f
"#,
    );
    let topic = output.package.topics.get(&TopicKey("f".into())).unwrap();
    assert_eq!(
        topic.details.as_ref().unwrap().value.as_str(),
        "Intro detail.\n\nExplicit detail."
    );
    assert!(output.diagnostics.is_empty());
}

#[test]
fn aliases_retain_spans_and_conflicts_name_both_topics() {
    let output = model(
        r#"#' @title First
#' @aliases common
f <- function() f
#' @title Second
#' @aliases common
g <- function() g
"#,
    );
    let conflicts = output
        .diagnostics.items
        .iter()
        .filter(|diagnostic| diagnostic.code == DiagnosticCode::ConflictingAlias)
        .collect::<Vec<_>>();
    assert_eq!(conflicts.len(), 1);
    assert_eq!(conflicts[0].secondary.len(), 1);
    assert_ne!(conflicts[0].primary.span, conflicts[0].secondary[0].span);
    let first = output.package.topics.get(&TopicKey("f".into())).unwrap();
    assert!(first.aliases.iter().any(|alias| alias.name.0 == "common"));
    assert!(
        first
            .aliases
            .iter()
            .all(|alias| alias.span.range.start() > 0)
    );
}

#[test]
fn no_rd_block_does_not_create_a_topic_but_another_block_can() {
    let output = model(
        r#"#' @noRd
#' @rdname shared
#' @title hidden
f <- function() f
#' @rdname shared
#' @title visible
g <- function() g
"#,
    );
    let topic = output
        .package
        .topics
        .get(&TopicKey("shared".into()))
        .unwrap();
    assert_eq!(topic.title.as_ref().unwrap().value.as_str(), "visible");
    assert_eq!(topic.usages.len(), 1);
    assert_eq!(
        topic
            .aliases
            .iter()
            .map(|alias| alias.name.0.as_str())
            .collect::<Vec<_>>(),
        ["g"]
    );
    assert!(output.diagnostics.is_empty());
}

#[test]
fn package_companion_explicit_fields_are_order_independent() {
    for source in [
        r#"#' @keywords internal
"_PACKAGE"
#' @name example-package
#' @title Explicit title
#' @description Explicit description.
#' @seealso Explicit seealso
#' @author Explicit author
NULL
"#,
        r#"#' @name example-package
#' @title Explicit title
#' @description Explicit description.
#' @seealso Explicit seealso
#' @author Explicit author
NULL
#' @keywords internal
"_PACKAGE"
"#,
    ] {
        let output = package_model_with_description(
            source,
            &package_description("person(\"Default\", \"Author\", role = \"aut\")"),
        );
        let topic = topic_of(&output, "example-package");
        assert_eq!(
            topic.title.as_ref().unwrap().value.as_str(),
            "Explicit title"
        );
        assert_eq!(
            topic.description.as_ref().unwrap().value.as_str(),
            "Explicit description."
        );
        assert_eq!(
            topic.see_also.as_ref().unwrap().value.as_str(),
            "Explicit seealso"
        );
        assert_eq!(
            topic.author.as_ref().unwrap().value.as_str(),
            "Explicit author"
        );
        assert!(topic.package_see_also.is_none());
        assert!(topic.package_author.is_none());
        assert!(output.diagnostics.is_empty());
    }
}

#[test]
fn package_companion_suppression_is_ored_across_orders() {
    for source in [
        r#"#' @keywords internal
"_PACKAGE"
#' @name example-package
#' @title NULL
#' @description NULL
#' @seealso NULL
#' @author NULL
NULL
"#,
        r#"#' @name example-package
#' @title NULL
#' @description NULL
#' @seealso NULL
#' @author NULL
NULL
#' @keywords internal
"_PACKAGE"
"#,
    ] {
        let output =
            package_model_with_description(source, &package_description("foo(\"Broken\")"));
        let topic = topic_of(&output, "example-package");
        assert!(topic.title.is_none());
        assert!(topic.description.is_none());
        assert!(topic.see_also.is_none());
        assert!(topic.author.is_none());
        assert!(topic.package_see_also.is_none());
        assert!(topic.package_author.is_none());
        assert!(topic.description_suppressed);
        assert!(output.diagnostics.is_empty());
    }
}

#[test]
fn package_explicit_values_survive_null_in_either_order() {
    for (tag, explicit, value) in [
        ("title", "Explicit title", "Explicit title"),
        (
            "description",
            "Explicit description.",
            "Explicit description.",
        ),
        ("seealso", "Explicit seealso", "Explicit seealso"),
        ("author", "Explicit author", "Explicit author"),
    ] {
        for (package_first, package_block, explicit_block, null_block) in [
            (
                true,
                "#' @keywords internal\n\"_PACKAGE\"",
                format!("#' @name example-package\n#' @{tag} {explicit}\nNULL"),
                format!("#' @name example-package\n#' @{tag} NULL\nNULL"),
            ),
            (
                false,
                "#' @keywords internal\n\"_PACKAGE\"",
                format!("#' @name example-package\n#' @{tag} NULL\nNULL"),
                format!("#' @name example-package\n#' @{tag} {explicit}\nNULL"),
            ),
        ] {
            let source = if package_first {
                format!("{package_block}\n{explicit_block}\n{null_block}\n")
            } else {
                format!("{null_block}\n{package_block}\n{explicit_block}\n")
            };
            let output = package_model_with_description(
                &source,
                &package_description("person(\"Default\", \"Author\", role = \"aut\")"),
            );
            let topic = topic_of(&output, "example-package");
            match tag {
                "title" => assert_eq!(topic.title.as_ref().unwrap().value.as_str(), value),
                "description" => {
                    assert_eq!(topic.description.as_ref().unwrap().value.as_str(), value)
                }
                "seealso" => {
                    assert_eq!(topic.see_also.as_ref().unwrap().value.as_str(), value);
                    assert!(topic.package_see_also.is_none());
                }
                "author" => {
                    assert_eq!(topic.author.as_ref().unwrap().value.as_str(), value);
                    assert!(topic.package_author.is_none());
                }
                _ => unreachable!(),
            }
            assert_eq!(count_diagnostics(&output, DiagnosticCode::DuplicateTag), 0);
        }
    }
}

#[test]
fn package_explicit_duplicate_spans_never_use_fallback_origin() {
    for source in [
        r#"#' @keywords internal
"_PACKAGE"
#' @name example-package
#' @title First explicit title
NULL
#' @name example-package
#' @title Second explicit title
NULL
"#,
        r#"#' @name example-package
#' @title Second explicit title
NULL
#' @keywords internal
"_PACKAGE"
#' @name example-package
#' @title First explicit title
NULL
"#,
    ] {
        let output = package_model_with_description(
            source,
            &package_description("person(\"Default\", \"Author\", role = \"aut\")"),
        );
        let duplicates = output
            .diagnostics.items
            .iter()
            .filter(|diagnostic| diagnostic.code == DiagnosticCode::DuplicateTag)
            .collect::<Vec<_>>();
        assert_eq!(duplicates.len(), 1);
        let duplicate = duplicates[0];
        assert_eq!(duplicate.secondary.len(), 1);
        let primary_range = duplicate.primary.span.range;
        let secondary_range = duplicate.secondary[0].span.range;
        assert_ne!(primary_range, secondary_range);
        let primary_text = &source[primary_range.start() as usize..primary_range.end() as usize];
        let secondary_text =
            &source[secondary_range.start() as usize..secondary_range.end() as usize];
        assert!(primary_text.contains("title"));
        assert!(secondary_text.contains("title"));
        assert!(!primary_text.contains("_PACKAGE"));
        assert!(!secondary_text.contains("_PACKAGE"));
    }
}

#[test]
fn package_metadata_diagnostics_are_deferred_and_topic_wide() {
    let cases = [
        (
            "Title: Default title\n",
            r#"#' @keywords internal
"_PACKAGE"
#' @name example-package
#' @title Late title
NULL
"#,
            DiagnosticCode::MissingPackageTitle,
        ),
        (
            "Description: Default description.\n",
            r#"#' @keywords internal
"_PACKAGE"
#' @name example-package
#' @description Late description.
NULL
"#,
            DiagnosticCode::MissingPackageDescription,
        ),
        (
            "Authors@R: foo(\"Broken\")\n",
            r#"#' @keywords internal
"_PACKAGE"
#' @name example-package
#' @author Late author
NULL
"#,
            DiagnosticCode::PackageAuthorsParse,
        ),
        (
            "Authors@R: foo(\"Broken\")\n",
            r#"#' @keywords internal
"_PACKAGE"
#' @name example-package
#' @author NULL
NULL
"#,
            DiagnosticCode::PackageAuthorsParse,
        ),
    ];
    for (tail, source, code) in cases {
        let description = format!("Package: example\nVersion: 0.1.0\n{tail}");
        let output = package_model_with_description(source, &description);
        assert_eq!(count_diagnostics(&output, code), 0);
        let topic = output
            .package
            .topics
            .get(&TopicKey("example-package".into()))
            .expect("package topic");
        assert!(topic.package_metadata_diagnostics.is_some());
    }

    let output = package_model_with_description(
        r#"#' @keywords internal
"_PACKAGE"
"#,
        "Package: example\nVersion: 0.1.0\nAuthors@R: foo(\"Broken\")\n",
    );
    assert_eq!(output.diagnostics.len(), 0);
    let topic = output
        .package
        .topics
        .get(&TopicKey("example-package".into()))
        .expect("package topic");
    let pending = topic
        .package_metadata_diagnostics
        .as_ref()
        .expect("pending package metadata diagnostics");
    assert!(pending.missing_description);
    assert!(pending.authors_parse_error.is_some());
}

#[test]
fn redirected_package_key_merges_companion_in_either_order() {
    for (package_first, companion) in [
        (
            true,
            "#' @name custom-package\n#' @title Explicit title\n#' @description Explicit description.\nNULL",
        ),
        (
            false,
            "#' @name custom-package\n#' @title NULL\n#' @description NULL\nNULL",
        ),
    ] {
        let package_block = "#' @keywords internal\n#' @rdname custom-package\n\"_PACKAGE\"";
        let source = if package_first {
            format!("{package_block}\n{companion}\n")
        } else {
            format!("{companion}\n{package_block}\n")
        };
        let output = package_model_with_description(
            &source,
            &package_description("person(\"Default\", \"Author\", role = \"aut\")"),
        );
        assert_eq!(output.package.topics.len(), 1);
        let topic = topic_of(&output, "custom-package");
        assert_eq!(topic.blocks.len(), 2);
        if package_first {
            assert_eq!(
                topic.title.as_ref().unwrap().value.as_str(),
                "Explicit title"
            );
            assert_eq!(
                topic.description.as_ref().unwrap().value.as_str(),
                "Explicit description."
            );
        } else {
            assert!(topic.title.is_none());
            assert!(topic.description.is_none());
            assert!(topic.description_suppressed);
        }
    }
}

#[test]
fn multiple_package_topics_get_independent_fallbacks_and_alias_conflicts() {
    let same_key = package_model_with_description(
        r#"#' @keywords internal
"_PACKAGE"
#' @keywords internal
#' @title NULL
#' @seealso NULL
"_PACKAGE"
"#,
        &package_description("person(\"Default\", \"Author\", role = \"aut\")"),
    );
    let same_topic = topic_of(&same_key, "example-package");
    assert!(same_topic.title.is_none());
    assert!(same_topic.package_see_also.is_none());
    assert_eq!(same_topic.blocks.len(), 2);
    assert_eq!(
        count_diagnostics(&same_key, DiagnosticCode::MissingPackageTitle),
        0
    );

    let anchor_source = r#"#' @keywords internal
"_PACKAGE"
#' @keywords internal
"_PACKAGE"
"#;
    let anchored = package_model_with_description(
        anchor_source,
        "Package: example\nVersion: 0.1.0\nAuthors@R: foo(\"Broken\")\n",
    );
    assert!(anchored.diagnostics.is_empty());
    let pending = topics_of(&anchored)
        .next()
        .and_then(|topic| topic.package_metadata_diagnostics.as_ref())
        .expect("pending package metadata diagnostics");
    assert!(pending.missing_description);
    assert!(pending.authors_parse_error.is_some());
    let anchor_range = pending.anchor.range;
    assert!(
        anchor_source[anchor_range.start() as usize..anchor_range.end() as usize]
            .contains("_PACKAGE")
    );

    let different_keys = package_model_with_description(
        r#"#' @keywords internal
#' @rdname first-package
"_PACKAGE"
#' @keywords internal
#' @rdname second-package
"_PACKAGE"
"#,
        &package_description("person(\"Default\", \"Author\", role = \"aut\")"),
    );
    assert_eq!(different_keys.package.topics.len(), 2);
    assert!(
        topics_of(&different_keys)
            .all(|topic| topic.kind == RdTopicKind::Package)
    );
    assert_eq!(
        count_diagnostics(&different_keys, DiagnosticCode::ConflictingAlias),
        1
    );
    assert!(
        topics_of(&different_keys)
            .all(|topic| topic.title.is_some() && topic.description.is_some())
    );
}

#[test]
fn package_topic_preserves_ordinary_usage_and_aliases() {
    let output = package_model_with_description(
        r#"#' @keywords internal
#' @rdname f
"_PACKAGE"
#' @rdname f
#' @title Function title
#' @aliases function-alias
f <- function(x) x
"#,
        &package_description("person(\"Default\", \"Author\", role = \"aut\")"),
    );
    let topic = topic_of(&output, "f");
    assert_eq!(topic.kind, RdTopicKind::Package);
    assert_eq!(
        topic.title.as_ref().unwrap().value.as_str(),
        "Function title"
    );
    assert!(topic.aliases.iter().any(|alias| alias.name.0 == "f"));
    assert!(
        topic
            .aliases
            .iter()
            .any(|alias| alias.name.0 == "function-alias")
    );
    assert_eq!(
        topic
            .usages
            .iter()
            .filter(|usage| matches!(usage.usage, ResolvedUsage::Generated(_)))
            .count(),
        1
    );
    assert!(output.diagnostics.is_empty());
}

#[test]
fn ordinary_suppression_is_not_copied_from_orphan_or_no_rd_blocks() {
    let output = package_model_with_description(
        r#"#' @noRd
#' @rdname hidden
#' @description NULL
hidden <- function() hidden
#' @rdname hidden
#' @title Visible title
visible <- function() visible
#' @name orphan-null
#' @title Orphan title
#' @description NULL
NULL
"#,
        &package_description("person(\"Default\", \"Author\", role = \"aut\")"),
    );
    let topic = topic_of(&output, "hidden");
    assert_eq!(topic.kind, RdTopicKind::Ordinary);
    assert!(!topic.description_suppressed);
    assert_eq!(
        topic.title.as_ref().unwrap().value.as_str(),
        "Visible title"
    );
    assert!(topic.description.is_none());
    assert!(!topic_of(&output, "orphan-null").description_suppressed);
}

#[test]
fn records_ordered_formals_for_an_ordinary_function() {
    let output = model(
        r#"#' title
f <- function(x, y) x
"#,
    );
    let topic = topic_of(&output, "f");
    let FormalNames::Known(names) = topic.inheritance_formal_names() else {
        panic!("expected a known function formal list");
    };
    assert_eq!(
        names
            .iter()
            .map(|formal| formal.name.0.as_str())
            .collect::<Vec<_>>(),
        ["x", "y"]
    );
    assert_eq!(topic.formals.len(), 1);
}

#[test]
fn records_ellipsis_as_an_ordinary_formal() {
    let output = model(
        r#"#' title
f <- function(x, ..., y) x
"#,
    );
    let topic = topic_of(&output, "f");
    let FormalNames::Known(names) = topic.inheritance_formal_names() else {
        panic!("expected a known function formal list");
    };
    assert_eq!(
        names
            .iter()
            .map(|formal| formal.name.0.as_str())
            .collect::<Vec<_>>(),
        ["x", "...", "y"]
    );
}

#[test]
fn distinguishes_a_known_function_with_no_formals_from_a_non_function() {
    let output = model(
        r#"#' title
f <- function() 1
"#,
    );
    let topic = topic_of(&output, "f");
    assert_eq!(
        topic.inheritance_formal_names(),
        FormalNames::Known(Vec::new())
    );
}

#[test]
fn marks_a_non_function_topic_as_not_a_function() {
    let output = model(
        r#"#' title
x <- 1
"#,
    );
    let topic = topic_of(&output, "x");
    assert_eq!(topic.inheritance_formal_names(), FormalNames::NotFunction);
}

#[test]
fn marks_an_undecodable_formal_without_emitting_a_second_usage_diagnostic() {
    let output = model("#' title\nf <- function(`x\\y`) x\n");
    let topic = topic_of(&output, "f");
    assert!(matches!(
        topic.inheritance_formal_names(),
        FormalNames::Undecodable { .. }
    ));
    assert_eq!(
        output
            .diagnostics.items
            .iter()
            .filter(|diagnostic| {
                diagnostic.code == DiagnosticCode::UsageGenerationFailed
            })
            .count(),
        1
    );
}

#[test]
fn merged_formal_contributions_keep_first_occurrences_in_order() {
    let output = model(
        r#"#' @rdname shared
a <- function(x, y) x
#' @rdname shared
b <- function(y, z) y
"#,
    );
    let topic = topic_of(&output, "shared");
    let FormalNames::Known(names) = topic.inheritance_formal_names() else {
        panic!("expected a known merged formal list");
    };
    assert_eq!(
        names
            .iter()
            .map(|formal| formal.name.0.as_str())
            .collect::<Vec<_>>(),
        ["x", "y", "z"]
    );
}

#[test]
fn field_sentinels_and_structured_nulls_keep_their_distinct_meanings() {
    let suppressed = model(
        r#"#' @title Suppressed keywords
#' @keywords NULL
f <- function() f
"#,
    );
    let suppressed_topic = topic_of(&suppressed, "f");
    assert!(suppressed_topic.keywords.is_empty());
    assert!(suppressed.diagnostics.is_empty());

    let ordinary = model(
        r#"#' @title Ordinary keywords
#' @keywords NULL other
f <- function() f
"#,
    );
    assert_eq!(
        topic_of(&ordinary, "f")
            .keywords
            .iter()
            .map(|keyword| keyword.0.as_str())
            .collect::<Vec<_>>(),
        ["NULL", "other"]
    );
    assert!(ordinary.diagnostics.is_empty());

    let structured = model(
        r#"#' @title Structured fields
#' @examples NULL
#' @param x NULL
#' @section NULL: body
#' @format `NULL`
f <- function(x) f
"#,
    );
    let topic = topic_of(&structured, "f");
    let ExamplesContent::Ordinary(examples) =
        &topic.examples.as_ref().expect("examples").value
    else {
        panic!("expected ordinary examples");
    };
    assert_eq!(examples.as_str(), "NULL");
    assert_eq!(topic.params[0].description.as_str(), "NULL");
    assert_eq!(topic.sections[0].title.as_str(), "NULL");
    assert_eq!(
        topic.format.as_ref().expect("format").value.as_str(),
        "`NULL`"
    );
    assert!(structured.diagnostics.is_empty());
}

#[test]
fn repeated_suppressed_field_is_still_a_block_local_error() {
    let output = model(
        r#"#' @title Repeated format
#' @format NULL
#' @format NULL
f <- function() f
"#,
    );
    assert!(
        topic_of(&output, "f")
            .format
            .is_none()
    );
    assert_eq!(
        output
            .diagnostics.items
            .iter()
            .filter(
                |diagnostic| diagnostic.code == DiagnosticCode::DuplicateTag
            )
            .count(),
        1
    );
}

#[test]
fn parameter_repeats_are_errors_while_sections_wait_for_semantic_keys() {
    let output = model(
        r#"#' @param x first
#' @param x second
#' @section One: first
#' @section One: second
#' @aliases a a b
#' @keywords k k l
f <- function(x) x
"#,
    );
    let topic = output.package.topics.get(&TopicKey("f".into())).unwrap();
    assert_eq!(
        topic
            .aliases
            .iter()
            .map(|x| x.name.0.as_str())
            .collect::<Vec<_>>(),
        ["f", "a", "b"]
    );
    assert_eq!(
        topic
            .keywords
            .iter()
            .map(|x| x.0.as_str())
            .collect::<Vec<_>>(),
        ["k", "l"]
    );
    assert_eq!(
        output
            .diagnostics.items
            .iter()
            .filter(|diagnostic| {
                diagnostic.code
                    == DiagnosticCode::ConflictingParamDescription
            })
            .count(),
        1
    );
    assert_eq!(topic.sections.len(), 2);
}

#[test]
fn singleton_slots_reject_a_repeat_in_one_block() {
    let output = model(
        r#"#' @name one
#' @name two
#' @rdname one
#' @rdname two
#' @title one
#' @title two
#' @description one
#' @description two
#' @details one
#' @details two
#' @return one
#' @return two
#' @usage f()
#' @usage f(x)
#' @examples one
#' @examples two
#' @order 1
#' @order 2
#' @method print one
#' @method format two
f <- function() f
"#,
    );
    assert_eq!(
        output
            .diagnostics.items
            .iter()
            .filter(
                |diagnostic| diagnostic.code == DiagnosticCode::DuplicateTag
            )
            .count(),
        10
    );
}

#[test]
fn topic_slots_reject_repeats_across_merged_blocks_but_block_slots_do_not() {
    let output = model(
        r#"#' @name f
#' @rdname shared
#' @method print foo
#' @title first
#' @usage f()
f <- function() f
#' @name g
#' @rdname shared
#' @method format bar
#' @title second
#' @usage g()
g <- function() g
"#,
    );
    let topic = output
        .package
        .topics
        .get(&TopicKey("shared".into()))
        .unwrap();
    assert_eq!(topic.usages.len(), 2);
    assert_eq!(
        output
            .diagnostics.items
            .iter()
            .filter(
                |diagnostic| diagnostic.code == DiagnosticCode::DuplicateTag
            )
            .count(),
        1
    );
}

#[test]
fn data_name_refusals_and_package_documentation_have_distinct_outcomes() {
    let named_data = model(
        r#"#' @name manual
"dataset name"
"#,
    );
    let named_topic = topic_of(&named_data, "manual");
    assert_eq!(
        named_topic
            .aliases
            .iter()
            .map(|alias| alias.name.0.as_str())
            .collect::<Vec<_>>(),
        ["manual", "dataset name"]
    );
    assert!(named_data.diagnostics.is_empty());

    let undecodable = model("#' documented\n\"a\\x2e b\"\n");
    assert!(undecodable.package.topics.is_empty());
    assert!(undecodable.diagnostics.items.iter().any(|diagnostic| {
        diagnostic.code == DiagnosticCode::UndecodableDataName
    }));
    assert!(!undecodable.diagnostics.items.iter().any(|diagnostic| {
        diagnostic.code == DiagnosticCode::MissingTopicIdentity
    }));

    let empty = model(
        r#"#' documented
""
"#,
    );
    assert!(empty.package.topics.is_empty());
    assert!(empty.diagnostics.items.iter().any(|diagnostic| {
        diagnostic.code == DiagnosticCode::EmptyDataName
    }));

    let package = model(
        r#"#' package
"_PACKAGE"
"#,
    );
    assert!(package.package.topics.is_empty());
    assert!(package.diagnostics.items.iter().any(|diagnostic| {
        diagnostic.code == DiagnosticCode::PackageDocumentationUnsupported
    }));

    let silent = model(
        r#"#' @noRd
"_PACKAGE"
"#,
    );
    assert!(silent.package.topics.is_empty());
    assert!(silent.diagnostics.is_empty());
}

#[test]
fn null_and_refused_targets_need_name_but_explicit_name_recovers() {
    let missing = model(
        r#"#' documented
NULL
"#,
    );
    assert!(
        missing.diagnostics.items.iter().any(|diagnostic| diagnostic.code
            == DiagnosticCode::MissingTopicIdentity)
    );

    let recovered = model(
        r#"#' @name manual
NULL
"#,
    );
    assert!(recovered.diagnostics.is_empty());
    assert!(
        recovered
            .package
            .topics
            .contains_key(&TopicKey("manual".into()))
    );
    assert_eq!(
        topic_of(&recovered, "manual").aliases[0]
            .name
            .0,
        "manual"
    );

    let refused = model(
        r#"#' documented
x$y <- 1
"#,
    );
    assert!(
        refused.diagnostics.items.iter().any(|diagnostic| diagnostic.code
            == DiagnosticCode::MissingTopicIdentity)
    );
    let recovered = model(
        r#"#' @name manual
x$y <- 1
"#,
    );
    assert!(recovered.diagnostics.is_empty());
    assert_eq!(
        topic_of(&recovered, "manual").aliases[0]
            .name
            .0,
        "manual"
    );
}

#[test]
fn every_association_refusal_is_recoverable_only_by_name() {
    let cases = ["x$y <- 1", "NULL <- 1", r#""a\x2e b" <- 1"#, "1 + 2"];
    for expression in cases {
        let missing = model(&format!(
            r#"#' documented
{expression}
"#
        ));
        assert!(missing.diagnostics.items.iter().any(|diagnostic| {
            diagnostic.code == DiagnosticCode::MissingTopicIdentity
        }));

        let recovered = model(&format!(
            r#"#' @name manual
{expression}
"#
        ));
        assert!(recovered.diagnostics.items.iter().all(|diagnostic| {
            diagnostic.code != DiagnosticCode::MissingTopicIdentity
        }));
        assert!(
            recovered
                .package
                .topics
                .contains_key(&TopicKey("manual".into()))
        );
        assert_eq!(
            topic_of(&recovered, "manual").aliases[0]
                .name
                .0,
            "manual"
        );
    }
}

#[test]
fn explicit_usage_and_null_suppression_keep_provenance_variants() {
    let explicit = model(
        r#"#' @title Explicit usage
#' @usage f(custom)
f <- function(x) x
"#,
    );
    let topic = explicit.package.topics.get(&TopicKey("f".into())).unwrap();
    assert!(matches!(
        topic.usages.as_slice(),
        [usage] if matches!(usage.usage, ResolvedUsage::Explicit(_))
    ));
    assert!(explicit.diagnostics.is_empty());

    let suppressed = model(
        r#"#' @title Suppressed usage
#' @usage NULL
f <- function(x) x
"#,
    );
    let topic = suppressed
        .package
        .topics
        .get(&TopicKey("f".into()))
        .unwrap();
    assert!(matches!(
        topic.usages.as_slice(),
        [usage] if matches!(usage.usage, ResolvedUsage::Suppressed(_))
    ));
    assert!(suppressed.diagnostics.is_empty());
}

#[test]
fn indexes_documented_function_and_reaches_formals() {
    let index = index(
        r#"#' documented
f <- (function(x, y = 1) x)
"#,
    );
    assert_eq!(index.documented.len(), 1);
    let BlockTarget::FunctionAssignment(function) = &index.documented[0].target else {
        panic!("expected a function assignment");
    };
    assert_eq!(function.name.canonical.as_str(), "f");
    let formals = function.formals.as_ref().expect("valid formals");
    assert_eq!(formals.len(), 2);
    assert_eq!(formals[0].name.value.as_ref().unwrap().as_str(), "x");
    assert_eq!(formals[1].name.value.as_ref().unwrap().as_str(), "y");
    assert!(function.body_span.is_some());
}

#[test]
fn indexes_documented_non_function_without_function_state() {
    let index = index(
        r#"#' documented
value <- other
"#,
    );
    let BlockTarget::ValueAssignment(value) = &index.documented[0].target else {
        panic!("expected a value assignment");
    };
    assert_eq!(value.name.canonical.as_str(), "value");
    let NonFunctionValue::Name(name) = &value.value else {
        panic!("expected a name value");
    };
    assert_eq!(name.value.as_ref().unwrap().as_str(), "other");
}

#[test]
fn documented_assignment_targets_retain_every_operator() {
    for (source_text, expected) in [
        (
            "#' documented\nleft <- function() NULL\n",
            AssignmentOperator::Left,
        ),
        (
            "#' documented\nright = function() NULL\n",
            AssignmentOperator::Equals,
        ),
        (
            "#' documented\n(function() NULL) -> right\n",
            AssignmentOperator::Right,
        ),
        (
            "#' documented\nleft <<- function() NULL\n",
            AssignmentOperator::SuperLeft,
        ),
        (
            "#' documented\n(function() NULL) ->> right\n",
            AssignmentOperator::SuperRight,
        ),
        (
            "#' documented\nleft := function() NULL\n",
            AssignmentOperator::Walrus,
        ),
    ] {
        let index = index(source_text);
        assert_eq!(index.documented.len(), 1, "{source_text}");
        let operator = match &index.documented[0].target {
            BlockTarget::FunctionAssignment(function) => function.operator,
            other => panic!(
                "expected documented function assignment for {source_text:?}, got {other:?}"
            ),
        };
        assert_eq!(operator, expected, "{source_text}");
    }
}

#[test]
fn indexes_documented_null_and_package_string_without_interpreting_string() {
    let null_index = index(
        r#"#' documented
NULL
"#,
    );
    assert!(matches!(
        null_index.documented[0].target,
        BlockTarget::Null { .. }
    ));

    let package_index = index(
        r#"#' documented
"_PACKAGE"
"#,
    );
    let BlockTarget::PackageDocumentation(value) = &package_index.documented[0].target else {
        panic!("expected package documentation sentinel");
    };
    assert_eq!(value.span.range.len(), 10);
}

#[test]
fn indexes_documented_call_as_opaque_fact() {
    let index = index(
        r#"#' documented
make_object(value)
"#,
    );
    let BlockTarget::Call(call) = &index.documented[0].target else {
        panic!("expected a call");
    };
    assert!(call.callee.is_some());
}

#[test]
fn records_each_typed_association_refusal() {
    let cases = [
        (
            r#"#' documented
x$y <- 1
"#,
            "compound",
        ),
        (
            r#"#' documented
NULL <- 1
"#,
            "invalid",
        ),
        (
            r#"#' documented
"a\x2e b" <- 1
"#,
            "undecodable",
        ),
        (
            r#"#' documented
1 + 2
"#,
            "unsupported",
        ),
    ];

    for (source_text, expected) in cases {
        let index = index(source_text);
        let BlockTarget::Refused(refusal) = &index.documented[0].target else {
            panic!("expected {expected} refusal");
        };
        match (expected, refusal) {
            ("compound", AssociationRefusal::CompoundAssignment { .. })
            | ("invalid", AssociationRefusal::InvalidAssignmentTarget { .. })
            | ("undecodable", AssociationRefusal::UndecodableBinding { .. })
            | ("unsupported", AssociationRefusal::UnsupportedExpression { .. }) => {}
            _ => panic!("wrong refusal variant for {expected}: {refusal:?}"),
        }
    }
}

#[test]
fn omits_undocumented_expressions() {
    let index = index(
        r#"#' documented
first <- 1
second <- 2
"#,
    );
    assert_eq!(index.documented.len(), 1);
    let BlockTarget::ValueAssignment(value) = &index.documented[0].target else {
        panic!("expected a value assignment");
    };
    assert_eq!(value.name.canonical.as_str(), "first");
}

#[test]
fn preserves_source_order_and_each_block_id() {
    let index = index(
        r#"#' first
first <- 1
#' second
second <- 2
"#,
    );
    assert_eq!(index.documented.len(), 2);
    assert_eq!(index.documented[0].block.index(), 0);
    assert_eq!(index.documented[1].block.index(), 1);
    let BlockTarget::ValueAssignment(first) = &index.documented[0].target else {
        panic!("expected first value assignment");
    };
    let BlockTarget::ValueAssignment(second) = &index.documented[1].target else {
        panic!("expected second value assignment");
    };
    assert_eq!(first.name.canonical.as_str(), "first");
    assert_eq!(second.name.canonical.as_str(), "second");
    assert_ne!(index.documented[0].block, index.documented[1].block);
}

// A front end and an Rd generator for whole packages.

fn inputs(sources: SourceMap) -> PackageInputs {
    PackageInputs {
        sources,
        metadata: PackageMetadata::new("currentPackage", None)
            .expect("test package name should be valid"),
    }
}

fn registration(text: &str, file: FileId, place: Span) -> Option<S3RegistrationFact> {
    let source = &text[place.range.start() as usize..place.range.end() as usize];
    let (tokens, _) = expression(source, 0);
    if !tokens[0].is("s3_register") {
        return None;
    }
    let call = arguments(&tokens[2..tokens.len() - 1]);
    let generic = decoded_text(&call[0][0]).expect("a generic");
    let generic = generic.rsplit("::").next().expect("a generic name").to_owned();
    let class = decoded_text(&call[1][0]).expect("a class");
    let target = match call.get(2) {
        Some(method) => S3RegistrationTarget::Explicit {
            name: method[0].text.to_owned(),
            span: span(
                file,
                place.range.start() as usize + method[0].start,
                place.range.start() as usize + method[0].end(),
            ),
        },
        None => S3RegistrationTarget::Implicit { name: format!("{generic}.{class}"), span: place },
    };
    Some(S3RegistrationFact { generic, class, span: place, target })
}

fn analyses(sources: &SourceMap) -> Vec<SourceAnalysis> {
    let mut out = Vec::new();
    for (index, source) in sources.files.iter().enumerate() {
        let file = FileId::new(index as u32);
        let front = read(&source.text, file);
        let registrations = front
            .parsed
            .top_level
            .iter()
            .filter(|entry| matches!(entry.fact.shape, TopLevelShape::Call(_)))
            .filter_map(|entry| registration(&source.text, file, entry.fact.span))
            .collect();
        let blocks = front
            .blocks
            .iter()
            .map(|lines| {
                let (tags, diagnostics) = tags(lines, file, true);
                BlockTags { tags, diagnostics }
            })
            .collect();
        out.push(SourceAnalysis {
            parsed: front.parsed,
            registrations,
            registration_diagnostics: Diagnostics::new(),
            blocks,
        });
    }
    out
}

fn rd_node(node: &RdNode) -> rd_ast::RdNode {
    match node {
        RdNode::Text(text) => rd_ast::RdNode::Text(text.clone()),
        RdNode::RCode(text) => rd_ast::RdNode::RCode(text.clone()),
        RdNode::Verb(text) => rd_ast::RdNode::Verb(text.clone()),
        RdNode::Comment(text) => rd_ast::RdNode::Comment(text.clone()),
        RdNode::Group(children) => rd_ast::RdNode::group(rd_nodes(children)),
        RdNode::Tagged { tag, option, children } => rd_ast::RdNode::tagged(
            match tag {
                RdTag::Named(name) => rd_ast::RdTag::from_rd_tag(name.spelling()),
                RdTag::Known(name) => rd_ast::RdTag::from_rd_tag(name),
                RdTag::Unknown(name) => rd_ast::RdTag::Unknown(name.clone()),
            },
            option.as_ref().map(|option| rd_nodes(option)),
            rd_nodes(children),
        ),
        RdNode::Raw { .. } => panic!("no conversion makes a raw node"),
    }
}

fn rd_nodes(nodes: &[RdNode]) -> Vec<rd_ast::RdNode> {
    nodes.iter().map(rd_node).collect()
}

fn generate(
    package: &PackageModel,
    links: &PackageLocalLinks,
    session: &InlineRSession,
    _documentation: &EmptyDocumentationProvider,
    _inheritance: &InheritanceOptions,
) -> GeneratedDocumentation {
    rd_of(package, links, session)
}

fn rd_of(
    package: &PackageModel,
    links: &PackageLocalLinks,
    session: &InlineRSession,
) -> GeneratedDocumentation {
    let context = MarkdownContext { current_package: None, links, inline_r_session: Some(session) };
    let mut inheritance_diagnostics = Diagnostics::new();
    let mut files = Vec::new();
    let mut diagnostics = Diagnostics::new();
    for (key, topic) in &package.topics.entries {
        for request in &topic.inheritance {
            if let InheritanceRequest::InheritParams {
                target: InheritTarget::Local { topic: donor },
                ..
            } = request
            {
                if !package.topics.contains_key(&TopicKey(donor.value.clone())) {
                    inheritance_diagnostics
                        .push(report(DiagnosticCode::UnresolvedInherit, donor.span));
                }
            }
        }
        let mut content = String::new();
        let fields = [&topic.title, &topic.description, &topic.details];
        let texts = fields
            .into_iter()
            .flatten()
            .map(|value| &value.value)
            .chain(topic.params.iter().map(|param| &param.description));
        for text in texts {
            let converted = convert_markdown(text, &context);
            let document = rd_ast::RdDocument::from(rd_nodes(&converted.fragment.nodes));
            content.push_str(
                &rd_writer::Writer::new(rd_writer::WriterOptions::default())
                    .write_document(&document)
                    .expect("writer accepts the converted fragment"),
            );
            diagnostics.extend(converted.diagnostics);
        }
        for contribution in &topic.usages {
            if let (ResolvedUsage::Generated(usage), Some(method), Some(object)) =
                (&contribution.usage, &contribution.method, &contribution.object)
            {
                let (generic, class) = (&method.generic.value, &method.class.value);
                let formals = usage.as_str().strip_prefix(object.as_str()).expect("the object");
                content.push_str(&format!("\\method{{{generic}}}{{{class}}}{formals}\n"));
            }
        }
        files.push(RdFile { topic: key.clone(), content });
    }
    GeneratedDocumentation {
        inheritance_diagnostics,
        rd: RdBuildOutput { files, diagnostics },
        unused_diagnostics: unused_substitutions(package, session),
    }
}

fn unused_substitutions(package: &PackageModel, session: &InlineRSession) -> Diagnostics {
    let mut asked = Vec::new();
    for (_, topic) in &package.topics.entries {
        let fields = [&topic.title, &topic.description, &topic.details];
        for value in fields.into_iter().flatten() {
            asked.extend(inline_r_expressions(&value.value));
        }
        for param in &topic.params {
            asked.extend(inline_r_expressions(&param.description));
        }
    }
    let mut diagnostics = Diagnostics::new();
    for expression in session.unused(&asked) {
        let code = DiagnosticCode::UnusedInlineRSubstitution;
        diagnostics.push(Diagnostic::new(
            code.default_severity(),
            code,
            format!("inline R substitution {expression} is never used"),
            Label::at(span(FILE, 0, 0), "here"),
        ));
    }
    diagnostics
}

fn strong(expression: &str, text: &str) -> InlineRSubstitution {
    InlineRSubstitution {
        expression: expression.to_owned(),
        nodes: vec![RdNode::Tagged {
            tag: RdTag::Named(RdMacro::Strong),
            option: None,
            children: vec![RdNode::Text(text.to_owned())],
        }],
        built_in: false,
    }
}

fn builtins() -> InlineRSession {
    let badge = strong(r#"lifecycle::badge("experimental")"#, "lifecycle-experimental.svg");
    InlineRSession::new(vec![InlineRSubstitution { built_in: true, ..badge }])
}

fn options(substitution: InlineRSubstitution) -> DocumentOptions {
    DocumentOptions { inline_r_substitutions: InlineRSession::new(vec![substitution]) }
}

fn document_package(inputs: &PackageInputs) -> PackageOutput {
    document(inputs, analyses(&inputs.sources), builtins(), generate)
}

fn document_package_with_options(
    inputs: &PackageInputs,
    options: &DocumentOptions,
) -> PackageOutput {
    document_with_options(inputs, analyses(&inputs.sources), options, generate)
}

struct FixedExistenceProvider(TopicExistence);

impl DocumentationProvider for FixedExistenceProvider {
    type Topic = ();

    fn get_topic(&self, _request: &TopicRequest) -> Result<Option<()>, DocumentationError> {
        Ok(None)
    }

    fn topic_exists(&self, _package: &str, _alias: &str) -> TopicExistence {
        self.0
    }
}

#[test]
fn s3_registration_requires_a_local_function_target() {
    for source in [
        r#"s3_register("pkg::generic", "class")
"#,
        r#"method <- 1
s3_register("pkg::generic", "class", method)
"#,
    ] {
        let mut sources = SourceMap::new();
        sources.add_file(SourceFile::new(
            "R/register.R".to_owned(),
            source.to_owned(),
        ));
        let output = document_package(&inputs(sources));
        assert!(output.has_errors(), "expected invalid target: {source}");
        assert!(
            output
                .diagnostics().into_iter()
                .any(|diagnostic| { diagnostic.code == DiagnosticCode::InvalidS3Registration })
        );
    }
}

#[test]
fn documented_registered_target_warns_without_export_or_suppression() {
    let mut sources = SourceMap::new();
    sources.add_file(SourceFile::new(
        "R/register.R".to_owned(),
        r#"s3_register("pkg::generic", "class")
#' @title Registered method
generic.class <- function(x) x
"#
        .to_owned(),
    ));
    let output = document_package(&inputs(sources));
    let warning = output
        .diagnostics().into_iter()
        .find(|diagnostic| diagnostic.code == DiagnosticCode::UnexportedS3Method)
        .expect("missing export warning");
    assert_eq!(warning.severity, Severity::Warning);
    assert!(
        warning
            .help
            .as_deref()
            .is_some_and(|help| help.contains("NULL"))
    );
    assert!(!output.has_errors());
}

#[test]
fn registration_metadata_does_not_drive_export_namespace_inference() {
    let mut sources = SourceMap::new();
    sources.add_file(SourceFile::new(
        "R/register.R".to_owned(),
        r#"s3_register("pkg::generic", "class")
#' @title Registered method
#' @export
generic.class <- function(x) x
"#
        .to_owned(),
    ));
    let output = document_package(&inputs(sources));
    assert!(!output.namespace.content.contains("S3method("));
    assert!(!output.has_errors());
}

#[test]
fn undocumented_registered_target_is_silent() {
    let mut sources = SourceMap::new();
    sources.add_file(SourceFile::new(
        "R/register.R".to_owned(),
        r#"s3_register("pkg::generic", "class")
generic.class <- function(x) x
"#
        .to_owned(),
    ));
    let output = document_package(&inputs(sources));
    assert!(
        !output
            .diagnostics().into_iter()
            .any(|diagnostic| diagnostic.code == DiagnosticCode::UnexportedS3Method)
    );
    assert!(!output.has_errors());
}

#[test]
fn unmatched_null_export_is_an_actionable_error() {
    let mut sources = SourceMap::new();
    sources.add_file(SourceFile::new(
        "R/register.R".to_owned(),
        r#"#' @title Unmatched method
#' @exportS3Method NULL
some_method <- function(x) x
"#
        .to_owned(),
    ));
    let output = document_package(&inputs(sources));
    let diagnostic = output
        .diagnostics().into_iter()
        .find(|diagnostic| diagnostic.code == DiagnosticCode::UnresolvedS3MethodMetadata)
        .expect("missing unresolved method metadata error");
    assert_eq!(diagnostic.severity, Severity::Error);
    assert!(
        diagnostic
            .help
            .as_deref()
            .is_some_and(|help| help.contains("registrar"))
    );
    assert!(output.has_errors());
}

#[test]
fn duplicate_registration_target_bindings_are_rejected() {
    let mut sources = SourceMap::new();
    sources.add_file(SourceFile::new(
        "R/register.R".to_owned(),
        r#"method <- function(x) x
method <- function(x) x
s3_register("pkg::generic", "class", method)
#' @title Registered method
#' @exportS3Method NULL
method <- function(x) x
"#
        .to_owned(),
    ));
    let output = document_package(&inputs(sources));
    assert!(
        output
            .diagnostics().into_iter()
            .any(|diagnostic| diagnostic.code == DiagnosticCode::InvalidS3Registration)
    );
    assert!(output.has_errors());
}

#[test]
fn multiple_registration_pairs_require_explicit_method_metadata() {
    let mut sources = SourceMap::new();
    sources.add_file(SourceFile::new(
        "R/register.R".to_owned(),
        r#"s3_register("pkg::first", "class", method)
s3_register("pkg::second", "class", method)
#' @title Ambiguous method
method <- function(x) x
"#
        .to_owned(),
    ));
    let output = document_package(&inputs(sources));
    let diagnostic = output
        .diagnostics().into_iter()
        .find(|diagnostic| diagnostic.code == DiagnosticCode::AmbiguousS3Registration)
        .expect("missing ambiguous registration diagnostic");
    assert_eq!(diagnostic.secondary.len(), 2);
    assert!(
        diagnostic
            .help
            .as_deref()
            .is_some_and(|help| help.contains("@method"))
    );
    assert!(output.has_errors());
}

#[test]
fn package_metadata_is_forwarded_to_namespace_generation() {
    let mut sources = SourceMap::new();
    sources.add_file(SourceFile::new(
        "R/import.R".to_owned(),
        r#"#' @importFrom currentPackage name
NULL
"#
        .to_owned(),
    ));

    let output = document_package(&inputs(sources));
    assert!(!output.namespace.content.contains("importFrom"));
    assert!(
        output
            .diagnostics().into_iter()
            .any(|diagnostic| { diagnostic.code == DiagnosticCode::SelfImport })
    );
}

#[test]
fn export_only_blocks_do_not_check_undocumented_formals() {
    let mut sources = SourceMap::new();
    sources.add_file(SourceFile::new(
        "R/export.R".to_owned(),
        r#"#' @export
f <- function(x, y) x
"#
        .to_owned(),
    ));

    let output = document_package(&inputs(sources));
    assert!(
        output
            .diagnostics().into_iter()
            .all(|diagnostic| { diagnostic.code != DiagnosticCode::MissingParam })
    );
}

#[test]
fn package_local_links_use_explicit_aliases_and_leave_suppressed_keys_unchecked() {
    let mut sources = SourceMap::new();
    sources.add_file(SourceFile::new(
        "R/links.R".to_owned(),
        r#"#' Probe topic
#'
#' See [friendly], [hidden], and [mean()] for details.
probe <- function() NULL

#' Friendly topic
#' @aliases friendly
friendly_topic <- function() NULL

#' Hidden topic
#' @aliases NULL
hidden <- function() NULL
"#
        .to_owned(),
    ));

    let output = document_package(&inputs(sources));
    assert!(
        !output
            .diagnostics().into_iter()
            .any(|diagnostic| diagnostic.code == DiagnosticCode::AmbiguousExternalAlias)
    );

    let model = model(
        r#"#' Friendly topic
#' @aliases friendly
friendly_topic <- function() NULL

#' Hidden topic
#' @aliases NULL
hidden <- function() NULL
"#,
    );
    let links = PackageLocalLinks::new(&model.package);
    assert_eq!(
        HelpLinkResolver::resolve_unqualified(&links, "friendly"),
        LinkResolution::Local
    );
    assert_eq!(
        HelpLinkResolver::resolve_unqualified(&links, "hidden"),
        LinkResolution::Unchecked
    );
    assert_eq!(
        HelpLinkResolver::resolve_unqualified(&links, "missing"),
        LinkResolution::Unchecked
    );
}

#[test]
fn package_output_exposes_each_builder_and_stage_in_order() {
    let mut sources = SourceMap::new();
    sources.add_file(SourceFile::new(
        "R/pipeline.R".to_owned(),
        r#"#' @title First
#' @unknown-tag warning
#' @param x first description
same <- function(x) NULL

#' @title First
#' @param x second description
same <- function(x) NULL

#' @title Child
#' @inheritParams absent
child <- function(x) NULL

#' @title Inline
#' Description with `r 1 + 1`.
inline <- function() NULL

#' @importFrom utils
NULL
"#
        .to_owned(),
    ));

    let output = document_package(&inputs(sources));
    assert!(!output.rd.files.is_empty());
    assert!(
        output
            .namespace
            .content
            .starts_with("# Generated by mini-roxygen")
    );

    let codes = output
        .diagnostics().into_iter()
        .map(|diagnostic| diagnostic.code)
        .collect::<Vec<_>>();
    let positions = [
        DiagnosticCode::UnknownTag,
        DiagnosticCode::ConflictingParamDescription,
        DiagnosticCode::UnresolvedInherit,
        DiagnosticCode::UndefinedInlineRSubstitution,
        DiagnosticCode::InvalidNamespaceDirective,
    ]
    .map(|code| {
        codes
            .iter()
            .position(|actual| *actual == code)
            .unwrap_or_else(|| panic!("missing diagnostic {code:?}: {codes:?}"))
    });
    assert!(positions.windows(2).all(|window| window[0] < window[1]));
    assert!(output.has_errors());
}

#[test]
fn distinct_multiline_inline_r_occurrences_are_not_deduplicated() {
    let mut sources = SourceMap::new();
    sources.add_file(SourceFile::new(
        "R/distinct-multiline-inline-r.R".to_owned(),
        r#"#' @title Two expressions
#' @param x First `r "a
#' b"`.
#' @param y Second `r "a
#' b"`.
two_expressions <- function(x, y) NULL
"#
        .to_owned(),
    ));

    let output = document_package(&inputs(sources));
    let diagnostics = output
        .diagnostics().into_iter()
        .filter(|diagnostic| diagnostic.code == DiagnosticCode::UnsupportedInlineR)
        .collect::<Vec<_>>();
    assert_eq!(diagnostics.len(), 2);
    assert_ne!(diagnostics[0].primary.span, diagnostics[1].primary.span);
}

#[test]
fn package_local_help_links_resolve_without_changing_rd_markup() {
    let mut sources = SourceMap::new();
    sources.add_file(SourceFile::new(
        "R/links.R".to_owned(),
        r#"#' Alpha topic
#'
#' See [beta()] and [beta] for details.
#' @export
alpha <- function() NULL

#' Beta topic
#'
#' Plain body.
#' @export
beta <- function() NULL
"#
        .to_owned(),
    ));

    let output = document_package(&inputs(sources));
    let alpha = output
        .rd
        .files
        .iter()
        .find(|file| file.topic.0 == "alpha")
        .expect("alpha.Rd");
    assert!(alpha.content.contains(r"\code{\link[=beta]{beta()}}"));
    assert!(alpha.content.contains(r"\link{beta}"));
    assert!(
        !output
            .diagnostics().into_iter()
            .any(|diagnostic| diagnostic.code == DiagnosticCode::AmbiguousExternalAlias)
    );
}

#[test]
fn composed_provider_delegates_topic_exists_to_external() {
    let local = EmptyDocumentationProvider;

    for existence in [
        TopicExistence::Known(true),
        TopicExistence::Known(false),
        TopicExistence::Unavailable,
    ] {
        let external = FixedExistenceProvider(existence);
        let composed = ComposedDocumentationProvider {
            local: &local,
            external: &external,
        };
        assert_eq!(composed.topic_exists("pkg", "alias"), existence);
    }
}

#[test]
fn identical_registration_pairs_deduplicate_with_first_provenance() {
    let mut sources = SourceMap::new();
    sources.add_file(SourceFile::new(
        "R/register.R".to_owned(),
        r#"s3_register("pkg::generic", "class", method)
s3_register("pkg::generic", "class", method)
#' @title Registered method
#' @exportS3Method NULL
method <- function(x) x
"#
        .to_owned(),
    ));
    let output = document_package(&inputs(sources));
    assert!(
        !output
            .diagnostics().into_iter()
            .any(|diagnostic| diagnostic.code == DiagnosticCode::AmbiguousS3Registration)
    );
    let content = output
        .rd
        .files
        .iter()
        .next()
        .expect("registered method topic")
        .content
        .clone();
    assert!(content.contains(r"\method{generic}{class}(x)"));
    assert!(!output.has_errors());
}

#[test]
fn default_documentation_uses_builtins_and_options_can_override_a_badge() {
    let mut sources = SourceMap::new();
    sources.add_file(SourceFile::new(
        "R/badge.R".to_owned(),
        r#"#' @title Badge
#' Uses `r lifecycle::badge("experimental")`.
badge <- function() NULL
"#
        .to_owned(),
    ));

    let default_output = document_package(&inputs(sources.clone()));
    let default_content = default_output
        .rd
        .files
        .iter()
        .next()
        .expect("badge topic")
        .content
        .clone();
    assert!(default_content.contains("lifecycle-experimental.svg"));

    let options = options(strong(r#"lifecycle::badge("experimental")"#, "custom badge"));
    let overridden_output = document_package_with_options(&inputs(sources), &options);
    let overridden_content = overridden_output
        .rd
        .files
        .iter()
        .next()
        .expect("badge topic")
        .content
        .clone();
    assert!(overridden_content.contains(r"\strong{custom badge}"));
    assert!(!overridden_content.contains("lifecycle-experimental.svg"));
}

#[test]
fn reused_options_do_not_share_inline_r_usage() {
    let options = options(strong("known()", "known"));

    let mut first = SourceMap::new();
    first.add_file(SourceFile::new(
        "R/first.R".to_owned(),
        "#' @title First\n#' Description with `r known()`.\nfirst <- function() NULL\n"
            .to_owned(),
    ));
    let first_output = document_package_with_options(&inputs(first), &options);
    assert_eq!(
        first_output
            .diagnostics().into_iter()
            .filter(|diagnostic| {
                diagnostic.code == DiagnosticCode::UnusedInlineRSubstitution
            })
            .count(),
        0
    );

    let mut second = SourceMap::new();
    second.add_file(SourceFile::new(
        "R/second.R".to_owned(),
        "#' @title Second\nsecond <- function() NULL\n".to_owned(),
    ));
    let second_output = document_package_with_options(&inputs(second), &options);
    let warnings = second_output
        .diagnostics().into_iter()
        .filter(|diagnostic| diagnostic.code == DiagnosticCode::UnusedInlineRSubstitution)
        .collect::<Vec<_>>();
    assert_eq!(warnings.len(), 1);
    assert!(warnings[0].message.contains("known()"));
}

#[test]
fn unused_inline_r_usage_does_not_affect_a_later_match() {
    let options = options(strong("known()", "known"));

    let mut first = SourceMap::new();
    first.add_file(SourceFile::new(
        "R/first.R".to_owned(),
        "#' @title First\nfirst <- function() NULL\n".to_owned(),
    ));
    let first_output = document_package_with_options(&inputs(first), &options);
    assert_eq!(
        first_output
            .diagnostics().into_iter()
            .filter(|diagnostic| {
                diagnostic.code == DiagnosticCode::UnusedInlineRSubstitution
            })
            .count(),
        1
    );

    let mut second = SourceMap::new();
    second.add_file(SourceFile::new(
        "R/second.R".to_owned(),
        "#' @title Second\n#' Description with `r known()`.\nsecond <- function() NULL\n"
            .to_owned(),
    ));
    let second_output = document_package_with_options(&inputs(second), &options);
    assert_eq!(
        second_output
            .diagnostics().into_iter()
            .filter(|diagnostic| {
                diagnostic.code == DiagnosticCode::UnusedInlineRSubstitution
            })
            .count(),
        0
    );
}

#[test]
fn document_options_are_unchanged_by_use() {
    let options = options(strong("known()", "known"));
    let clone = DocumentOptions {
        inline_r_substitutions: InlineRSession::new(vec![strong("known()", "known")]),
    };
    let mut sources = SourceMap::new();
    sources.add_file(SourceFile::new(
        "R/options.R".to_owned(),
        "#' @title Options\n#' Description with `r known()`.\noptions <- function() NULL\n"
            .to_owned(),
    ));

    let _ = document_package_with_options(&inputs(sources), &options);
    assert_eq!(options, clone);
}

fn document_text(text: &str) -> PackageOutput {
    let mut sources = SourceMap::new();
    sources.add_file(SourceFile::new("R/file.R".to_owned(), text.to_owned()));
    document_package(&inputs(sources))
}

#[test]
fn exported_methods_of_local_generics_are_registered() {
    let output = document_text(
        r#"outline <- function(x) UseMethod("outline")
#' @export
outline.circle <- function(x) x
#' @export
plain <- function(x) x
"#,
    );
    assert!(output.namespace.content.ends_with("\n\nS3method(outline,circle)\nexport(plain)\n"));
    assert!(!output.has_errors());
}

#[test]
fn registered_methods_are_documented_as_methods() {
    let output = document_text(
        r#"s3_register("pkg::generic.with.dots", "class.with.dots")
#' @title Registered method
#' @exportS3Method NULL
generic.with.dots.class.with.dots <- function(x) x
"#,
    );
    assert!(
        output.rd.files[0]
            .content
            .contains(r"\method{generic.with.dots}{class.with.dots}(x)")
    );
    assert!(!output.namespace.content.contains("S3method("));
    assert!(!output.has_errors());
}

#[test]
fn a_block_without_rd_changes_no_topic() {
    let shown = "#' @title Shown\n#' @param x A value.\nf <- function(x) x\n";
    let hidden = "#' @noRd\n#' @title Hidden\n#' @rdname f\ng <- function(y) y\n";
    let alone = model(shown);
    let both = model(&format!("{shown}{hidden}"));
    assert_eq!(alone.package.topics, both.package.topics);
}

#[test]
fn topic_kinds_do_not_depend_on_block_order() {
    let data = "#' @rdname shared\n#' @title Data\n\"dataset\"\n";
    let function = "#' @rdname shared\nf <- function(x) x\n";
    for source in [format!("{data}{function}"), format!("{function}{data}")] {
        let output = package_model_with_description(&source, "Package: example\n");
        assert_eq!(topic_of(&output, "shared").kind, RdTopicKind::Data);
    }
}

#[test]
fn examples_of_both_kinds_share_one_field() {
    let output = model(
        r#"#' @rdname shared
#' @title Shared
#' @examplesIf interactive()
#' f()
f <- function() f
#' @rdname shared
#' @examples g()
g <- function() g
"#,
    );
    let topic = topic_of(&output, "shared");
    assert!(matches!(
        &topic.examples.as_ref().expect("examples").value,
        ExamplesContent::Conditional { body, .. } if body.as_str() == "f()"
    ));
    assert_eq!(count_diagnostics(&output, DiagnosticCode::DuplicateTag), 1);
}

#[test]
fn lazy_data_can_be_set_on_metadata() {
    let metadata = PackageMetadata::new("example", None).expect("package metadata is valid");
    let mut sources = SourceMap::new();
    let blocks = blocks(&mut sources, "test.R", "#' Dataset\n\"dataset\"\n");
    let output =
        build_package_model_with_metadata(&sources, blocks, &metadata.with_lazy_data(true));
    assert!(matches!(
        &topic_of(&output, "dataset").usages[0].usage,
        ResolvedUsage::Generated(value) if value.as_str() == "dataset"
    ));
}

fn package_topic_name(source: &str, key: &str) -> String {
    let mut source_map = SourceMap::new();
    let blocks = blocks(&mut source_map, "package.R", source);
    let metadata = PackageMetadata::new("example", None).expect("package metadata is valid");
    let output = build_package_model_with_metadata(&source_map, blocks, &metadata);
    let topic = output.package.topics.get(&TopicKey(key.to_owned())).expect("the topic");
    topic.name.0.clone()
}

#[test]
fn the_first_contribution_names_a_package_topic() {
    assert_eq!(
        package_topic_name(
            "#' @title Package topic\n#' @rdname custom-package\n#' @name custom.alias\n\"_PACKAGE\"\n",
            "custom-package",
        ),
        "custom.alias"
    );
    assert_eq!(
        package_topic_name(
            "#' @title Package topic\n#' @rdname custom-package\n\"_PACKAGE\"\n",
            "custom-package",
        ),
        "example-package"
    );
    assert_eq!(
        package_topic_name("#' @title Package topic\n\"_PACKAGE\"\n", "example-package"),
        "example-package"
    );
    assert_eq!(
        package_topic_name(
            "#' @title Function topic\n#' @rdname shared\nf <- function() NULL\n\n#' @title Package topic\n#' @rdname shared\n#' @name late\n\"_PACKAGE\"\n",
            "shared",
        ),
        "f"
    );
}

#[test]
fn inherited_sections_and_parameters_alone_make_no_topic() {
    let origin = TagOrigin::Implicit { intro_span: span(FILE, 0, 5) };
    let title = || Spanned::new(
        MarkdownText::new(SourcedText::from_segments(
            "Details".to_owned(),
            vec![SourceSegment { offset: 0, span: span(FILE, 0, 7) }],
        )),
        span(FILE, 0, 7),
    );
    let target = || InheritTarget::Local {
        topic: Spanned::new("donor".to_owned(), span(FILE, 0, 5)),
    };
    let section = ParsedTag::InheritSection {
        target: target(),
        title: title(),
        origin: origin.clone(),
    };
    assert!(!needs_doc(&vec![section]));
    let output = model("#' @inheritParams donor\nf <- function(x) NULL\n");
    assert!(output.package.topics.get(&TopicKey("f".to_owned())).is_none());
}

#[test]
fn usage_failures_are_reported_with_all_that_they_hold() {
    let place = span(FILE, 4000000000, 4000000012);
    let block = span(FILE, 0, 9);
    for (error, reported) in [
        (UsageError::InvalidFormals(FormalError::InvalidStructure { span: place }), block),
        (UsageError::InvalidReplacementSignature { name_span: place }, place),
        (
            UsageError::UndecodableFormalName {
                span: place,
                reason: RNameDecodeError::ContainsBackslash,
            },
            place,
        ),
        (
            UsageError::UndecodableFormalName { span: place, reason: RNameDecodeError::EmptyName },
            place,
        ),
        (
            UsageError::UndecodableFormalName {
                span: place,
                reason: RNameDecodeError::InvalidSpelling,
            },
            place,
        ),
        (
            UsageError::UndecodableFormalName {
                span: place,
                reason: RNameDecodeError::MixedUnicodeAndByteEscapes,
            },
            place,
        ),
        (
            UsageError::UndecodableFormalName {
                span: place,
                reason: RNameDecodeError::NulCharacter,
            },
            place,
        ),
        (UsageError::UnresolvableSourceSpan { span: place }, place),
        (UsageError::UnsafeDefaultComment { span: place }, place),
    ] {
        let diagnostic = usage_error_diagnostic(error, block);
        assert_eq!(diagnostic.message, format!("could not generate function usage: {error:?}"));
        assert_eq!(diagnostic.primary.span, reported);
        assert_eq!(diagnostic.severity, Severity::Error);
    }
    let short = usage_error_diagnostic(UsageError::UnsafeDefaultComment { span: block }, block);
    assert_eq!(
        short.message,
        "could not generate function usage: UnsafeDefaultComment { span: Span { file: FileId { id: 11 }, range: TextRange { from: 0, to: 9 } } }"
    );
}

fn markdown(text: &str) -> MarkdownText {
    MarkdownText::new(SourcedText::from_segments(
        text.to_owned(),
        vec![SourceSegment { offset: 0, span: span(FILE, 0, text.len()) }],
    ))
}

#[test]
fn a_text_asks_for_its_inline_expressions() {
    let asked = |text: &str| inline_r_expressions(&markdown(text));
    assert_eq!(
        asked("First `r known()`, then `r f(x)` and *again `r known()`*."),
        ["known()", "f(x)", "known()"]
    );
    assert!(asked("`known()`, `Rd known()`, `rknown()` and r known()").is_empty());
    assert!(asked("Broken `r known(\n)`.").is_empty());
}

#[test]
fn configured_expressions_that_nothing_asks_for_are_unused() {
    let mut substitutions = builtins().substitutions;
    substitutions.push(strong("known()", "known"));
    substitutions.push(strong("other()", "other"));
    let session = InlineRSession::new(substitutions);
    let unused = |text: &str| session.unused(&inline_r_expressions(&markdown(text)));
    assert_eq!(unused("Nothing."), ["known()", "other()"]);
    assert_eq!(unused("Uses `r other()`."), ["known()"]);
    assert!(unused("Uses `r other()` and `r known()`.").is_empty());
}

struct SilentProvider;

impl DocumentationProvider for SilentProvider {
    type Topic = String;

    fn get_topic(&self, _request: &TopicRequest) -> Result<Option<String>, DocumentationError> {
        Ok(None)
    }

    fn topic_exists(&self, _package: &str, _alias: &str) -> TopicExistence {
        TopicExistence::Unavailable
    }
}

#[test]
fn a_silent_documentation_provider_adds_nothing() {
    let options = options(strong("known()", "known"));
    let mut sources = SourceMap::new();
    sources.add_file(SourceFile::new(
        "R/file.R".to_owned(),
        "#' @title File\n#' Description with `r unknown()`.\n#' @export\nf <- function() NULL\n"
            .to_owned(),
    ));
    let inputs = inputs(sources);
    let with_s3 = document_package_with_options_and_s3_provider(
        &inputs,
        analyses(&inputs.sources),
        &options,
        &EmptyS3GenericProvider,
        generate,
    );
    let with_all = document_package_with_options_and_providers(
        &inputs,
        analyses(&inputs.sources),
        &options,
        &EmptyS3GenericProvider,
        &SilentProvider,
        &InheritanceOptions::default(),
        |package: &PackageModel,
         links: &PackageLocalLinks,
         session: &InlineRSession,
         _: &SilentProvider,
         _: &InheritanceOptions| rd_of(package, links, session),
    );
    assert_eq!(with_s3, with_all);
    assert_eq!(with_s3, document_package_with_options(&inputs, &options));
}

#[test]
fn a_run_after_another_gives_what_it_gives_alone() {
    let options = options(strong("known()", "known"));
    let package = |text: &str| {
        let mut sources = SourceMap::new();
        sources.add_file(SourceFile::new("R/file.R".to_owned(), text.to_owned()));
        inputs(sources)
    };
    let second = package("#' @title Second\n#' @export\nsecond <- function() NULL\n");
    let alone = document_package_with_options(&second, &options);
    let first = package("#' @title First\n#' Uses `r known()`.\nfirst <- function() NULL\n");
    let _ = document_package_with_options(&first, &options);
    assert_eq!(document_package_with_options(&second, &options), alone);
    let warnings = alone.diagnostics();
    assert_eq!(warnings.len(), 1);
    assert_eq!(warnings[0].code, DiagnosticCode::UnusedInlineRSubstitution);
}

#[test]
fn author_sections_come_from_the_description() {
    let output = package_model_with_description(
        "#' @keywords internal\n\"_PACKAGE\"\n",
        &package_description(
            r#"c(person("Ada", "Lovelace", , "ada@example.org", role = c("aut", "cre"), comment = c(ORCID = "0000-0001", "first")), person("Grace", "Hopper", role = c("ctb", "zzz")))"#,
        ),
    );
    let topic = topic_of(&output, "example-package");
    let author = topic.package_author.as_ref().expect("author sections");
    assert_eq!(author.maintainers.len(), 1);
    assert_eq!(author.authors, author.maintainers);
    let ada = &author.maintainers[0];
    assert_eq!(ada.name, "Ada Lovelace");
    assert_eq!(ada.email.as_deref(), Some("ada@example.org"));
    assert_eq!(ada.identities[0].href, "https://orcid.org/0000-0001");
    assert_eq!(ada.comments[0].value, "first");
    assert!(ada.roles.is_empty());
    assert_eq!(author.other_contributors[0].name, "Grace Hopper");
    assert_eq!(author.other_contributors[0].roles, ["contributor"]);
    let pending = topic.package_metadata_diagnostics.as_ref().expect("the state");
    assert!(pending.authors_parse_error.is_none());
}

#[test]
fn unreadable_authors_are_kept_for_a_report() {
    let output = package_model_with_description(
        "#' @keywords internal\n\"_PACKAGE\"\n",
        &package_description(r#"person(paste("A", "B"))"#),
    );
    let topic = topic_of(&output, "example-package");
    assert!(topic.package_author.is_none());
    let pending = topic.package_metadata_diagnostics.as_ref().expect("the state");
    let error = pending.authors_parse_error.as_ref().expect("an error");
    assert_eq!(error.message, "person() has arguments that are not supported");
}

#[test]
fn the_order_of_given_blocks_does_not_matter() {
    let text = "#' @title A\n#' @rdname shared\na <- function(x) x\n\n#' @title B\nb <- function(y) y\n\n#' @rdname shared\n#' @order 1\n#' @param z Z.\nc <- function(z) z\n";
    let mut first_map = SourceMap::new();
    let first = blocks(&mut first_map, "test.R", text);
    let mut second_map = SourceMap::new();
    let mut second = blocks(&mut second_map, "test.R", text);
    second.reverse();
    let first = build_package_model(&first_map, first);
    let second = build_package_model(&second_map, second);
    assert_eq!(first, second);
    assert_eq!(topic_of(&first, "shared").name.0, "c");
}

#[test]
fn every_documented_expression_gives_a_block() {
    let mut sources = SourceMap::new();
    sources.add_file(SourceFile::new(
        "R/file.R".to_owned(),
        "#' @title A\na <- function() NULL\nplain <- 1\n#' @title B\nb <- function() NULL\n"
            .to_owned(),
    ));
    let inputs = inputs(sources);
    let files = analyses(&inputs.sources);
    assert_eq!(files[0].blocks.len(), 2);
    let analysis = analyze_package(&inputs, files, &EmptyS3GenericProvider);
    assert_eq!(analysis.package.topics.entries.len(), 2);
    for name in ["a", "b"] {
        let topic = analysis.package.topics.get(&TopicKey(name.to_owned())).expect("a topic");
        assert_eq!(topic.blocks.len(), 1);
    }
}
