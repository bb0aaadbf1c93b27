//! Laws of NAMESPACE requests and of the lines that they give.
use crate::diagnostic::DiagnosticCode;
use crate::model::ir::{MethodDeclaration, NamespaceRequest};
use crate::namespace::collect::{
    last_double_colon, package_imports, request_outcome, tag_value, tag_words, usable_name,
    usable_names, CollectedView,
};
use crate::namespace::ir::{
    directive_text, spelled_in_order, spelling_order_keeps_names, usable_text, ArgumentView,
    DirectiveView,
};
use crate::namespace::pipeline::{
    collected, deduplication_keeps_one_of_each, distinct_directives, ended_lines, is_namespace_text,
    lists_directive, namespace_header, namespace_lines, orders, other_lines,
};
use crate::namespace::render::quoted;
use crate::namespace::s3::{analysis, AnalysisView, S3Facts};
use crate::tags::{word_bounds, word_texts, NamespaceTag};
use crate::text::is_space;
use vstd::prelude::*;

verus! {

/// Whether a word spells a name that a directive can carry: the word is the name, or the
/// name between two equal quotes, without a backslash.
pub open spec fn spells(word: Seq<char>, name: Seq<char>) -> bool {
    &&& name.len() > 0
    &&& !name.contains('\0')
    &&& if word.len() > 0 && (word[0] == '"' || word[0] == '\'' || word[0] == '`') {
        word == seq![word[0]] + name + seq![word[0]] && !name.contains('\\')
    } else {
        word == name
    }
}

/// Whether words spell names, one each.
pub open spec fn all_spell(words: Seq<Seq<char>>, names: Seq<Seq<char>>) -> bool {
    words.len() == names.len() && forall|i: int|
        0 <= i < words.len() ==> spells(#[trigger] words[i], names[i])
}

/// Whether a word spells no name.
pub open spec fn spells_nothing(word: Seq<char>) -> bool {
    forall|name: Seq<char>| !spells(word, name)
}

/// Whether a request is refused: it gives no directive and one report.
pub open spec fn is_refused(outcome: CollectedView) -> bool {
    &&& outcome.directives.len() == 0
    &&& outcome.diagnostics.len() == 1
    &&& outcome.diagnostics[0].code == DiagnosticCode::InvalidNamespaceDirective
}

/// Whether a request gives one directive and no report.
pub open spec fn gives_one(outcome: CollectedView, directive: DirectiveView) -> bool {
    outcome.directives == seq![directive] && outcome.diagnostics.len() == 0
}

/// Whether a request is answered with an import from the package itself.
pub open spec fn imports_itself(outcome: CollectedView) -> bool {
    &&& outcome.directives.len() == 0
    &&& outcome.diagnostics.len() == 1
    &&& outcome.diagnostics[0].code == DiagnosticCode::SelfImport
}

proof fn spelled_word(word: Seq<char>, name: Seq<char>)
    ensures
        spells(word, name) <==> usable_name(word) == Some(name),
{
    if word.len() > 0 && (word[0] == '"' || word[0] == '\'' || word[0] == '`') {
        if spells(word, name) {
            assert(word.subrange(1, word.len() - 1) =~= name);
        }
        if usable_name(word) == Some(name) {
            assert(word =~= seq![word[0]] + name + seq![word[0]]);
        }
    }
}

proof fn spelled_words(words: Seq<Seq<char>>, names: Seq<Seq<char>>)
    requires
        all_spell(words, names),
    ensures
        usable_names(words) == Some(names),
    decreases words.len(),
{
    if words.len() == 0 {
        assert(names =~= Seq::empty());
    } else {
        assert forall|i: int| 0 <= i < words.len() - 1 implies spells(
            #[trigger] words.drop_last()[i],
            names.drop_last()[i],
        ) by {
            assert(spells(words[i], names[i]));
        }
        spelled_words(words.drop_last(), names.drop_last());
        assert(spells(words[words.len() - 1], names[names.len() - 1]));
        spelled_word(words.last(), names.last());
        assert(names =~= names.drop_last().push(names.last()));
    }
}

proof fn one_silent_word(words: Seq<Seq<char>>, i: int)
    requires
        0 <= i < words.len(),
        spells_nothing(words[i]),
    ensures
        usable_names(words) is None,
    decreases words.len(),
{
    if i < words.len() - 1 {
        one_silent_word(words.drop_last(), i);
    } else if usable_name(words[i]) is Some {
        spelled_word(words[i], usable_name(words[i])->0);
    }
}

/// An `@export` with words exports each of the names that they spell, in their order; where
/// a word spells no name it is refused.
pub proof fn named_exports(
    request: NamespaceRequest,
    current: Option<Seq<char>>,
    facts: S3Facts,
    warned: Seq<Seq<char>>,
    names: Seq<Seq<char>>,
    i: int,
)
    requires
        request.tag is Export,
        tag_words(request.tag).len() > 0,
    ensures
        ({
            let words = tag_words(request.tag);
            let outcome = request_outcome(request, current, facts, warned);
            &&& all_spell(words, names) ==> outcome.diagnostics.len() == 0
                && outcome.directives.len() == words.len() && forall|k: int|
                0 <= k < words.len() ==> #[trigger] outcome.directives[k] == (
                DirectiveView::Export { name: names[k] })
            &&& 0 <= i < words.len() && spells_nothing(words[i]) ==> is_refused(outcome)
        }),
{
    let words = tag_words(request.tag);
    if all_spell(words, names) {
        spelled_words(words, names);
    }
    if 0 <= i < words.len() && spells_nothing(words[i]) {
        one_silent_word(words, i);
    }
}

/// An `@export` without words exports the object of its block. Without a `@method` the
/// classification of the object decides: an ordinary object is exported, a method is
/// registered with its generic and class, and an object that is not resolved is reported
/// once and gives no directive.
pub proof fn bare_exports(
    request: NamespaceRequest,
    current: Option<Seq<char>>,
    facts: S3Facts,
    warned: Seq<Seq<char>>,
    name: Seq<char>,
)
    requires
        request.tag is Export,
        tag_words(request.tag).len() == 0,
    ensures
        ({
            let outcome = request_outcome(request, current, facts, warned);
            &&& request.object is None ==> is_refused(outcome)
            &&& request.object is Some && request.method is None && spells(
                request.object->0@,
                name,
            ) ==> match analysis(facts, request.object->0@) {
                AnalysisView::OrdinaryExport => gives_one(outcome, DirectiveView::Export { name }),
                AnalysisView::S3Method { generic, class } => gives_one(
                    outcome,
                    DirectiveView::S3Method {
                        generic: ArgumentView::AutoQuoted(generic),
                        class: ArgumentView::AutoQuoted(class),
                    },
                ),
                AnalysisView::Unresolved => outcome.directives.len() == 0 && (if warned.contains(
                    request.object->0@,
                ) {
                    outcome.diagnostics.len() == 0
                } else {
                    outcome.diagnostics.len() == 1 && outcome.diagnostics[0].code
                        == DiagnosticCode::UnresolvedS3Export
                }),
            }
        }),
{
    if let Some(object) = request.object {
        spelled_word(object@, name);
    }
}

/// An `@export` without words in a block with a `@method` registers that method, whatever
/// the name of the function; it is refused for anything but a function.
pub proof fn declared_methods_are_registered(
    request: NamespaceRequest,
    current: Option<Seq<char>>,
    facts: S3Facts,
    warned: Seq<Seq<char>>,
    name: Seq<char>,
    method: MethodDeclaration,
    generic: Seq<char>,
    class: Seq<char>,
)
    requires
        request.tag is Export,
        tag_words(request.tag).len() == 0,
        request.object is Some,
        spells(request.object->0@, name),
        request.method == Some(method),
    ensures
        ({
            let outcome = request_outcome(request, current, facts, warned);
            &&& !request.object_is_function ==> is_refused(outcome)
            &&& request.object_is_function && spells(method.generic.value@, generic) && spells(
                method.class.value@,
                class,
            ) ==> gives_one(
                outcome,
                DirectiveView::S3Method {
                    generic: ArgumentView::AutoQuoted(generic),
                    class: ArgumentView::AutoQuoted(class),
                },
            )
            &&& request.object_is_function && (spells_nothing(method.generic.value@)
                || spells_nothing(method.class.value@)) ==> is_refused(outcome)
        }),
{
    spelled_word(request.object->0@, name);
    spelled_word(method.generic.value@, generic);
    spelled_word(method.class.value@, class);
    if usable_name(method.generic.value@) is Some {
        spelled_word(method.generic.value@, usable_name(method.generic.value@)->0);
    }
    if usable_name(method.class.value@) is Some {
        spelled_word(method.class.value@, usable_name(method.class.value@)->0);
    }
}

/// An `@import` imports each package that it names, in order, but for the package that is
/// documented, for which there is a report instead.
pub proof fn packages_are_imported(
    request: NamespaceRequest,
    current: Option<Seq<char>>,
    facts: S3Facts,
    warned: Seq<Seq<char>>,
    names: Seq<Seq<char>>,
)
    requires
        request.tag is Import,
        tag_words(request.tag).len() > 0,
        all_spell(tag_words(request.tag), names),
        forall|i: int| 0 <= i < names.len() ==> !(#[trigger] tag_words(request.tag)[i]).contains(','),
    ensures
        ({
            let outcome = request_outcome(request, current, facts, warned);
            let others = other_packages(names, current);
            &&& outcome.directives.len() == others.len()
            &&& forall|k: int|
                0 <= k < others.len() ==> #[trigger] outcome.directives[k] == (
                DirectiveView::Import { package: others[k] })
            &&& outcome.diagnostics.len() == names.len() - others.len()
            &&& forall|k: int|
                0 <= k < outcome.diagnostics.len() ==> (#[trigger] outcome.diagnostics[k]).code
                    == DiagnosticCode::SelfImport
        }),
{
    let words = tag_words(request.tag);
    spelled_words(words, names);
    imports_so_far(request.tag, names, current, names.len() as int);
    assert(names.take(names.len() as int) =~= names);
}

/// Packages without the one that is documented.
pub open spec fn other_packages(names: Seq<Seq<char>>, current: Option<Seq<char>>) -> Seq<Seq<char>>
    decreases names.len(),
{
    if names.len() == 0 {
        names
    } else if current == Some(names.last()) {
        other_packages(names.drop_last(), current)
    } else {
        other_packages(names.drop_last(), current).push(names.last())
    }
}

proof fn imports_so_far(
    tag: NamespaceTag,
    names: Seq<Seq<char>>,
    current: Option<Seq<char>>,
    count: int,
)
    requires
        0 <= count <= names.len(),
    ensures
        ({
            let outcome = package_imports(tag, names, current, count);
            let others = other_packages(names.take(count), current);
            &&& outcome.directives.len() == others.len()
            &&& forall|k: int|
                0 <= k < others.len() ==> #[trigger] outcome.directives[k] == (
                DirectiveView::Import { package: others[k] })
            &&& outcome.diagnostics.len() == count - others.len()
            &&& forall|k: int|
                0 <= k < outcome.diagnostics.len() ==> (#[trigger] outcome.diagnostics[k]).code
                    == DiagnosticCode::SelfImport
        }),
    decreases count,
{
    if count > 0 {
        imports_so_far(tag, names, current, count - 1);
        assert(names.take(count).drop_last() =~= names.take(count - 1));
        assert(names.take(count).last() == names[count - 1]);
    }
}

/// An `@importFrom` imports the names behind its package, as often as they are given, in
/// the order of their spellings. Its first word is the package; from the package that is
/// documented nothing is imported, which is reported.
pub proof fn names_are_imported(
    request: NamespaceRequest,
    current: Option<Seq<char>>,
    facts: S3Facts,
    warned: Seq<Seq<char>>,
    package: Seq<char>,
    names: Seq<Seq<char>>,
)
    requires
        request.tag is ImportFrom,
    ensures
        ({
            let words = tag_words(request.tag);
            let outcome = request_outcome(request, current, facts, warned);
            &&& words.len() < 2 ==> is_refused(outcome)
            &&& words.len() >= 2 && spells_nothing(words[0]) ==> is_refused(outcome)
            &&& words.len() >= 2 && spells(words[0], package) && current == Some(package)
                ==> imports_itself(outcome)
            &&& words.len() >= 2 && spells(words[0], package) && current != Some(package)
                && all_spell(words.skip(1), names) ==> {
                &&& outcome.diagnostics.len() == 0
                &&& outcome.directives.len() == 1
                &&& outcome.directives[0] matches DirectiveView::ImportFrom {
                    package: from,
                    names: given,
                }
                &&& from == package
                &&& given.to_multiset() == names.to_multiset()
                &&& spelled_in_order(given)
            }
        }),
{
    let words = tag_words(request.tag);
    if words.len() >= 2 {
        spelled_word(words[0], package);
        if usable_name(words[0]) is Some {
            spelled_word(words[0], usable_name(words[0])->0);
        }
        if all_spell(words.skip(1), names) {
            spelled_words(words.skip(1), names);
            spelling_order_keeps_names(names);
        }
    }
}

/// `@importClassesFrom` and `@importMethodsFrom` import each class or method behind their
/// package, in order, from any package but the one that is documented.
pub proof fn classes_and_methods_are_imported(
    request: NamespaceRequest,
    current: Option<Seq<char>>,
    facts: S3Facts,
    warned: Seq<Seq<char>>,
    package: Seq<char>,
    names: Seq<Seq<char>>,
)
    requires
        request.tag is ImportClassesFrom || request.tag is ImportMethodsFrom,
    ensures
        ({
            let words = tag_words(request.tag);
            let outcome = request_outcome(request, current, facts, warned);
            &&& words.len() < 2 ==> is_refused(outcome)
            &&& words.len() >= 2 && spells(words[0], package) && current == Some(package)
                ==> imports_itself(outcome)
            &&& words.len() >= 2 && spells(words[0], package) && current != Some(package)
                && all_spell(words.skip(1), names) ==> {
                &&& outcome.diagnostics.len() == 0
                &&& outcome.directives.len() == names.len()
                &&& forall|k: int|
                    0 <= k < names.len() ==> #[trigger] outcome.directives[k] == (if request.tag
                        is ImportClassesFrom {
                        DirectiveView::ImportClassesFrom { package, name: names[k] }
                    } else {
                        DirectiveView::ImportMethodsFrom { package, name: names[k] }
                    })
            }
        }),
{
    let words = tag_words(request.tag);
    if words.len() >= 2 {
        spelled_word(words[0], package);
        if all_spell(words.skip(1), names) {
            spelled_words(words.skip(1), names);
        }
    }
}

/// `@exportPattern`, `@exportClass` and `@exportMethod` export each of the names that their
/// words spell; a pattern needs one word or more and a class exactly one.
pub proof fn patterns_classes_and_methods_are_exported(
    request: NamespaceRequest,
    current: Option<Seq<char>>,
    facts: S3Facts,
    warned: Seq<Seq<char>>,
    names: Seq<Seq<char>>,
)
    requires
        request.tag is ExportPattern || request.tag is ExportClass || request.tag is ExportMethod,
    ensures
        ({
            let words = tag_words(request.tag);
            let outcome = request_outcome(request, current, facts, warned);
            &&& request.tag is ExportPattern && words.len() == 0 ==> is_refused(outcome)
            &&& request.tag is ExportClass && words.len() != 1 ==> is_refused(outcome)
            &&& all_spell(words, names) && words.len() > 0 && (request.tag is ExportClass
                ==> words.len() == 1) ==> {
                &&& outcome.diagnostics.len() == 0
                &&& outcome.directives.len() == names.len()
                &&& forall|k: int|
                    0 <= k < names.len() ==> #[trigger] outcome.directives[k] == (
                    match request.tag {
                        NamespaceTag::ExportPattern(_) => DirectiveView::ExportPattern {
                            pattern: names[k],
                        },
                        NamespaceTag::ExportClass(_) => DirectiveView::ExportClass {
                            name: names[k],
                        },
                        _ => DirectiveView::ExportMethod { name: names[k] },
                    })
            }
        }),
{
    let words = tag_words(request.tag);
    if all_spell(words, names) {
        spelled_words(words, names);
    }
}

/// A `@useDynLib` of one word uses that library; further words are routines, each used by a
/// directive of its own. Text with a comma is kept as it is written.
pub proof fn libraries_are_used(
    request: NamespaceRequest,
    current: Option<Seq<char>>,
    facts: S3Facts,
    warned: Seq<Seq<char>>,
    library: Seq<char>,
    routines: Seq<Seq<char>>,
)
    requires
        request.tag is UseDynLib,
    ensures
        ({
            let words = tag_words(request.tag);
            let text = tag_value(request.tag).value@;
            let outcome = request_outcome(request, current, facts, warned);
            &&& words.len() == 0 ==> is_refused(outcome)
            &&& words.len() > 0 && text.contains(',') && !text.contains('\0') ==> gives_one(
                outcome,
                DirectiveView::UseDynLib { value: text },
            )
            &&& words.len() == 1 && !text.contains(',') && spells(words[0], library) ==> gives_one(
                outcome,
                DirectiveView::UseDynLib { value: quoted(library) },
            )
            &&& words.len() > 1 && !text.contains(',') && spells(words[0], library) && all_spell(
                words.skip(1),
                routines,
            ) ==> {
                &&& outcome.diagnostics.len() == 0
                &&& outcome.directives.len() == routines.len()
                &&& forall|k: int|
                    0 <= k < routines.len() ==> #[trigger] outcome.directives[k] == (
                    DirectiveView::UseDynLib {
                        value: quoted(library) + seq![','] + quoted(routines[k]),
                    })
            }
        }),
{
    let words = tag_words(request.tag);
    reveal_strlit(",");
    assert(","@ =~= seq![',']);
    if words.len() > 0 {
        spelled_word(words[0], library);
        if all_spell(words.skip(1), routines) {
            spelled_words(words.skip(1), routines);
        }
    }
}

/// A `@rawNamespace` that parses as R is kept as it is written, and any other is refused.
pub proof fn raw_directives_are_kept(
    request: NamespaceRequest,
    current: Option<Seq<char>>,
    facts: S3Facts,
    warned: Seq<Seq<char>>,
)
    requires
        request.tag is RawNamespace,
    ensures
        ({
            let text = tag_value(request.tag).value@;
            let outcome = request_outcome(request, current, facts, warned);
            if text.len() > 0 && !text.contains('\0') && crate::r_source::r_source_parses(text) {
                gives_one(outcome, DirectiveView::RawNamespace { value: text })
            } else {
                is_refused(outcome)
            }
        }),
{
}

/// An `@exportS3Method` of two words registers them as generic and class, as they are
/// written. `NULL` registers nothing and is not reported. With no word or more than two it
/// is refused.
pub proof fn s3_methods_are_registered(
    request: NamespaceRequest,
    current: Option<Seq<char>>,
    facts: S3Facts,
    warned: Seq<Seq<char>>,
)
    requires
        request.tag is ExportS3Method,
    ensures
        ({
            let words = tag_words(request.tag);
            let outcome = request_outcome(request, current, facts, warned);
            &&& words.len() == 2 && usable_text(words[0]) && usable_text(words[1]) ==> gives_one(
                outcome,
                DirectiveView::S3Method {
                    generic: ArgumentView::Literal(words[0]),
                    class: ArgumentView::Literal(words[1]),
                },
            )
            &&& words.len() == 1 && words[0] == seq!['N', 'U', 'L', 'L'] ==> outcome.directives.len()
                == 0 && outcome.diagnostics.len() == 0
            &&& words.len() == 0 || words.len() > 2 ==> is_refused(outcome)
        }),
{
    reveal_strlit("NULL");
    assert("NULL"@ =~= seq!['N', 'U', 'L', 'L']);
}

proof fn last_colons_are_there(text: Seq<char>, upto: int, at: int)
    requires
        0 <= at,
        at + 2 <= upto <= text.len(),
        text[at] == ':',
        text[at + 1] == ':',
        forall|i: int| at < i < upto - 1 ==> !(#[trigger] text[i] == ':' && text[i + 1] == ':'),
    ensures
        last_double_colon(text, upto) == Some(at),
    decreases upto,
{
    if at + 2 < upto {
        assert(!(text[upto - 2] == ':' && text[upto - 2 + 1] == ':'));
        last_colons_are_there(text, upto - 1, at);
    }
}

/// An `@exportS3Method` of one word names a generic of another package: the class is what
/// the function's name has behind the generic and a dot, and the generic is registered as
/// it is written.
pub proof fn foreign_generics_are_registered(
    request: NamespaceRequest,
    current: Option<Seq<char>>,
    facts: S3Facts,
    warned: Seq<Seq<char>>,
    package: Seq<char>,
    generic: Seq<char>,
    class: Seq<char>,
)
    requires
        request.tag is ExportS3Method,
        request.object_is_function,
        request.object is Some,
        request.object->0@ == generic + seq!['.'] + class,
        package.len() > 0,
        generic.len() > 0,
        class.len() > 0,
        !generic.contains(':'),
        tag_words(request.tag) == seq![package + seq![':', ':'] + generic],
        !(package + seq![':', ':'] + generic).contains('\0'),
        !class.contains('\0'),
    ensures
        gives_one(
            request_outcome(request, current, facts, warned),
            DirectiveView::S3Method {
                generic: ArgumentView::Literal(package + seq![':', ':'] + generic),
                class: ArgumentView::Literal(class),
            },
        ),
{
    let word = package + seq![':', ':'] + generic;
    let at = package.len() as int;
    let words = tag_words(request.tag);
    assert(words[0] == word);
    reveal_strlit("NULL");
    reveal_strlit(".");
    assert(word[at] == ':');
    assert("NULL"@.contains(':') == false) by {
        assert("NULL"@ =~= seq!['N', 'U', 'L', 'L']);
    }
    assert(word != "NULL"@) by {
        if word == "NULL"@ {
            assert("NULL"@.contains(word[at]));
        }
    }
    assert forall|i: int| at < i < word.len() - 1 implies !(#[trigger] word[i] == ':' && word[i + 1]
        == ':') by {
        assert(word[i + 1] == generic[i + 1 - at - 2]);
    }
    last_colons_are_there(word, word.len() as int, at);
    assert(word.skip(at + 2) =~= generic);
    let object = request.object->0@;
    let head = generic + "."@;
    assert("."@ =~= seq!['.']);
    assert(object.take(head.len() as int) =~= head);
    assert(object.skip(head.len() as int) =~= class);
}

/// How directives are written.
pub proof fn directives_are_written(package: Seq<char>, name: Seq<char>, value: Seq<char>)
    ensures
        directive_text(DirectiveView::Export { name }) == "export("@ + quoted(name) + ")"@,
        directive_text(DirectiveView::Import { package }) == "import("@ + quoted(package) + ")"@,
        directive_text(DirectiveView::ImportVerbatim { value }) == "import("@ + value + ")"@,
        directive_text(DirectiveView::UseDynLib { value }) == "useDynLib("@ + value + ")"@,
        directive_text(DirectiveView::RawNamespace { value }) == value,
        directive_text(DirectiveView::ExportPattern { pattern: name }) == "exportPattern("@
            + quoted(name) + ")"@,
        directive_text(DirectiveView::ExportClass { name }) == "exportClasses("@ + quoted(name)
            + ")"@,
        directive_text(DirectiveView::ExportMethod { name }) == "exportMethods("@ + quoted(name)
            + ")"@,
        directive_text(DirectiveView::ImportClassesFrom { package, name }) == "importClassesFrom("@
            + quoted(package) + ","@ + quoted(name) + ")"@,
        directive_text(DirectiveView::ImportMethodsFrom { package, name }) == "importMethodsFrom("@
            + quoted(package) + ","@ + quoted(name) + ")"@,
        directive_text(DirectiveView::ImportFrom { package, names: seq![name] }) == "importFrom("@
            + quoted(package) + ","@ + quoted(name) + ")"@,
        directive_text(
            DirectiveView::S3Method {
                generic: ArgumentView::AutoQuoted(package),
                class: ArgumentView::AutoQuoted(name),
            },
        ) == "S3method("@ + quoted(package) + ","@ + quoted(name) + ")"@,
        directive_text(
            DirectiveView::S3Method {
                generic: ArgumentView::Literal(package),
                class: ArgumentView::Literal(name),
            },
        ) == "S3method("@ + package + ","@ + name + ")"@,
{
}

/// The requests of a package are answered one after the other: what they give is what the
/// earlier ones give, followed by what the last one gives.
pub proof fn requests_are_answered_in_order(
    requests: Seq<NamespaceRequest>,
    current: Option<Seq<char>>,
    facts: S3Facts,
    i: int,
    k: int,
)
    requires
        0 <= i < requests.len(),
    ensures
        ({
            let outcome = request_outcome(
                requests[i],
                current,
                facts,
                crate::namespace::pipeline::warned_objects(requests, facts, i),
            );
            let all = collected(requests, current, facts, requests.len() as int);
            &&& 0 <= k < outcome.directives.len() ==> all.directives.contains(outcome.directives[k])
            &&& 0 <= k < outcome.diagnostics.len() ==> all.diagnostics.contains(
                outcome.diagnostics[k],
            )
        }),
{
    answered_from_then_on(requests, current, facts, i, k, requests.len() as int);
}

proof fn answered_from_then_on(
    requests: Seq<NamespaceRequest>,
    current: Option<Seq<char>>,
    facts: S3Facts,
    i: int,
    k: int,
    count: int,
)
    requires
        0 <= i < count <= requests.len(),
    ensures
        ({
            let outcome = request_outcome(
                requests[i],
                current,
                facts,
                crate::namespace::pipeline::warned_objects(requests, facts, i),
            );
            let all = collected(requests, current, facts, count);
            &&& 0 <= k < outcome.directives.len() ==> all.directives.contains(outcome.directives[k])
            &&& 0 <= k < outcome.diagnostics.len() ==> all.diagnostics.contains(
                outcome.diagnostics[k],
            )
        }),
    decreases count,
{
    let before = collected(requests, current, facts, count - 1);
    let all = collected(requests, current, facts, count);
    let outcome = request_outcome(
        requests[i],
        current,
        facts,
        crate::namespace::pipeline::warned_objects(requests, facts, i),
    );
    if i < count - 1 {
        answered_from_then_on(requests, current, facts, i, k, count - 1);
        if 0 <= k < outcome.directives.len() {
            let at = before.directives.index_of(outcome.directives[k]);
            assert(all.directives[at] == outcome.directives[k]);
        }
        if 0 <= k < outcome.diagnostics.len() {
            let at = before.diagnostics.index_of(outcome.diagnostics[k]);
            assert(all.diagnostics[at] == outcome.diagnostics[k]);
        }
    } else {
        if 0 <= k < outcome.directives.len() {
            assert(all.directives[before.directives.len() + k] == outcome.directives[k]);
        }
        if 0 <= k < outcome.diagnostics.len() {
            assert(all.diagnostics[before.diagnostics.len() + k] == outcome.diagnostics[k]);
        }
    }
}

proof fn written_lines(kept: Seq<DirectiveView>, i: int)
    requires
        0 <= i < kept.len(),
        !(kept[i] is ImportFrom),
    ensures
        other_lines(kept).contains(directive_text(kept[i])),
    decreases kept.len(),
{
    let before = other_lines(kept.drop_last());
    let after = other_lines(kept);
    if i < kept.len() - 1 {
        written_lines(kept.drop_last(), i);
        let k = before.index_of(directive_text(kept[i]));
        assert(after[k] == directive_text(kept[i]));
    } else {
        assert(after.last() == directive_text(kept[i]));
    }
}

/// Every directive but an `importFrom` has its line in NAMESPACE.
pub proof fn every_directive_has_its_line(directives: Seq<DirectiveView>, i: int)
    requires
        0 <= i < directives.len(),
        !(directives[i] is ImportFrom),
    ensures
        namespace_lines(directives).contains(directive_text(directives[i])),
{
    deduplication_keeps_one_of_each(directives);
    let kept = distinct_directives(directives);
    assert(lists_directive(kept, directives[i]));
    let k = choose|k: int|
        0 <= k < kept.len() && crate::namespace::ir::same_directive(
            #[trigger] kept[k],
            directives[i],
        );
    written_lines(kept, k);
    let at = other_lines(kept).index_of(directive_text(kept[k]));
    assert(namespace_lines(directives)[at] == directive_text(directives[i]));
}

/// A NAMESPACE text is the header and all its lines, each ended by a line break.
pub proof fn namespace_texts_hold_their_lines(text: Seq<char>, lines: Seq<Seq<char>>, i: int)
    requires
        is_namespace_text(text, lines),
        0 <= i < lines.len(),
    ensures
        namespace_header().is_prefix_of(text),
        exists|from: int|
            namespace_header().len() <= from && from + lines[i].len() < text.len()
                && #[trigger] text.subrange(from, from + lines[i].len()) == lines[i] && text[from
                + lines[i].len()] == '\n',
{
    let ordered = choose|ordered: Seq<Seq<char>>| #[trigger]
        orders(ordered, lines) && text == namespace_header() + ended_lines(ordered);
    vstd::seq_lib::to_multiset_contains(lines, lines[i]);
    vstd::seq_lib::to_multiset_contains(ordered, lines[i]);
    assert(lines.contains(lines[i]));
    let k = ordered.index_of(lines[i]);
    line_is_there(ordered, k);
    let from = choose|from: int|
        0 <= from && from + ordered[k].len() < ended_lines(ordered).len() && #[trigger] ended_lines(
            ordered,
        ).subrange(from, from + ordered[k].len()) == ordered[k] && ended_lines(ordered)[from
            + ordered[k].len()] == '\n';
    let at = namespace_header().len() + from;
    assert(text.subrange(at, at + lines[i].len()) =~= ended_lines(ordered).subrange(
        from,
        from + lines[i].len(),
    ));
}

proof fn line_is_there(lines: Seq<Seq<char>>, k: int)
    requires
        0 <= k < lines.len(),
    ensures
        exists|from: int|
            0 <= from && from + lines[k].len() < ended_lines(lines).len() && #[trigger] ended_lines(
                lines,
            ).subrange(from, from + lines[k].len()) == lines[k] && ended_lines(lines)[from
                + lines[k].len()] == '\n',
    decreases lines.len(),
{
    reveal_strlit("\n");
    let before = ended_lines(lines.drop_last());
    let all = ended_lines(lines);
    if k < lines.len() - 1 {
        line_is_there(lines.drop_last(), k);
        let from = choose|from: int|
            0 <= from && from + lines.drop_last()[k].len() < before.len()
                && #[trigger] before.subrange(from, from + lines.drop_last()[k].len())
                == lines.drop_last()[k] && before[from + lines.drop_last()[k].len()] == '\n';
        assert(all.subrange(from, from + lines[k].len()) =~= before.subrange(
            from,
            from + lines[k].len(),
        ));
    } else {
        let from = before.len() as int;
        assert(all.subrange(from, from + lines[k].len()) =~= lines[k]);
    }
}

/// The words of a text are its runs of characters that are not white space: every such
/// character stands in a word, no word holds white space, and no two words touch.
pub proof fn words_are_runs(text: Seq<char>)
    ensures
        word_texts(text).len() == word_bounds(text).len(),
        forall|k: int|
            0 <= k < word_bounds(text).len() ==> 0 <= (#[trigger] word_bounds(text)[k]).0
                < word_bounds(text)[k].1 <= text.len() && word_texts(text)[k] == text.subrange(
                word_bounds(text)[k].0,
                word_bounds(text)[k].1,
            ),
        forall|k: int, i: int|
            #![trigger word_bounds(text)[k], text[i]]
            0 <= k < word_bounds(text).len() && word_bounds(text)[k].0 <= i
                < word_bounds(text)[k].1 ==> !is_space(text[i]),
        forall|k: int|
            0 < k < word_bounds(text).len() ==> word_bounds(text)[k - 1].1 < (
            #[trigger] word_bounds(text)[k]).0,
        forall|i: int|
            0 <= i < text.len() && !is_space(#[trigger] text[i]) ==> in_word(text, i),
    decreases text.len(),
{
    if text.len() > 0 {
        let front = text.drop_last();
        words_are_runs(front);
        let before = word_bounds(front);
        let after = word_bounds(text);
        let n = text.len() as int;
        assert forall|k: int, i: int|
            #![trigger after[k], text[i]]
            0 <= k < after.len() && after[k].0 <= i < after[k].1 implies !is_space(text[i]) by {
            if i < n - 1 {
                assert(front[i] == text[i]);
                if k < before.len() {
                    assert(before[k].0 == after[k].0);
                    assert(!is_space(front[i]));
                }
            }
        }
        assert forall|i: int| 0 <= i < n && !is_space(#[trigger] text[i]) implies in_word(text, i) by {
            if i < n - 1 {
                assert(front[i] == text[i]);
                assert(in_word(front, i));
                let k = choose|k: int|
                    0 <= k < before.len() && (#[trigger] before[k]).0 <= i < before[k].1;
                assert(after[k].0 <= i < after[k].1);
            } else {
                assert(after[after.len() - 1].0 <= i < after[after.len() - 1].1);
            }
        }
    }
}

/// Whether a character stands in a word.
pub open spec fn in_word(text: Seq<char>, i: int) -> bool {
    exists|k: int|
        0 <= k < word_bounds(text).len() && (#[trigger] word_bounds(text)[k]).0 <= i
            < word_bounds(text)[k].1
}

} // verus!
